//! A bibliography: entries read from a BibTeX/BibLaTeX source, checked, and
//! ordered newest first, grouped by year for display.
use vstd::prelude::*;

use crate::bibtex::{bib_parses, bib_records, parse_error_offset, parse_source, record_of};
use crate::entry::{
    date_after, date_same, entry_problem, has_required_fields, matches_record, refused_by_record, BibError,
    BibliographyEntry, EntryView,
};
use crate::order::{into_slots, key_lt, reversed, sorted_order, take_in_order, SortKey};
use crate::text::views;
use crate::thumbnail::thumbnail_spec;

verus! {

/// Whether `a` is shown before `b`: it is dated later, or it is dated the
/// same and stands later in the source.
pub open spec fn shown_before(a: EntryView, b: EntryView) -> bool {
    ||| date_after(a.date, b.date)
    ||| date_same(a.date, b.date) && a.position > b.position
}

/// Whether entries are ordered newest first, entries of the same date in
/// reverse source order.
pub open spec fn newest_first(s: Seq<EntryView>) -> bool {
    forall|i: int, j: int| 0 <= i < j < s.len() ==> shown_before(#[trigger] s[i], #[trigger] s[j])
}

/// Whether the entries all stand at different places of the source.
pub open spec fn distinct_positions(s: Seq<EntryView>) -> bool {
    forall|i: int, j: int| 0 <= i < s.len() && 0 <= j < s.len() && i != j ==> #[trigger] s[i].position != #[trigger] s[j].position
}

pub open spec fn entry_views(s: Seq<BibliographyEntry>) -> Seq<EntryView> {
    s.map_values(|e: BibliographyEntry| e@)
}

/// Whether entry `i` opens a group of its year: it is the first entry, or
/// its year differs from the year of the entry before it.
pub open spec fn starts_year(s: Seq<EntryView>, i: int) -> bool {
    i == 0 || s[i].date.year != s[i - 1].date.year
}

/// The sort key of an entry: its date, a missing month or day counting as
/// zero, then its position.
pub open spec fn date_key(e: EntryView) -> SortKey {
    (e.date.year as i64, e.date.month_or_zero() as i64, e.date.day_or_zero() as i64, e.position as usize)
}

/// Orders entries given in source order, each at its own position, newest
/// first; entries of the same date go in reverse source order. Each entry of
/// the result is the input entry at its position, and the positions are all
/// different, so every entry appears exactly once.
pub fn sort_newest_first(v: Vec<BibliographyEntry>) -> (r: Vec<BibliographyEntry>)
    requires
        forall|k: int| 0 <= k < v@.len() ==> (#[trigger] v@[k])@.position == k,
    ensures
        r@.len() == v@.len(),
        forall|t: int| 0 <= t < r@.len() ==> (#[trigger] r@[t])@.position < v@.len() && r@[t] == v@[r@[t]@.position as int],
        distinct_positions(entry_views(r@)),
        newest_first(entry_views(r@)),
{
    let n = v.len();
    let mut keys: Vec<SortKey> = Vec::new();
    let mut k: usize = 0;
    while k < n
        invariant
            n == v@.len(),
            k <= n,
            keys@.len() == k,
            forall|i: int| 0 <= i < v@.len() ==> (#[trigger] v@[i])@.position == i,
            forall|i: int| 0 <= i < k ==> #[trigger] keys@[i] == date_key(v@[i]@),
        decreases n - k,
    {
        let d = v[k].date();
        let month: u8 = match d.month { Some(m) => m, None => 0 };
        let day: u8 = match d.day { Some(x) => x, None => 0 };
        keys.push((d.year as i64, month as i64, day as i64, k));
        k = k + 1;
    }
    let ghost key_seq = keys@;
    let ascending = sorted_order(keys);
    let order = reversed(ascending);
    proof {
        assert forall|a: int, b: int| 0 <= a < order@.len() && 0 <= b < order@.len() && a != b implies #[trigger] order@[a] != #[trigger] order@[b] by {
            assert(order@[a] == ascending@[n - 1 - a] && order@[b] == ascending@[n - 1 - b]);
        }
        assert forall|t: int| 0 <= t < order@.len() implies (#[trigger] order@[t]) < n by {
            assert(order@[t] == ascending@[n - 1 - t]);
        }
    }
    let ghost orig = v@;
    let slots = into_slots(v);
    let r = take_in_order(slots, &order);
    proof {
        assert forall|t: int| 0 <= t < r@.len() implies (#[trigger] r@[t])@.position < n && r@[t] == orig[r@[t]@.position as int] by {
            assert(Some(r@[t]) == slots@[order@[t] as int]);
            assert(r@[t] == orig[order@[t] as int]);
        }
        assert forall|a: int, b: int| 0 <= a < r@.len() && 0 <= b < r@.len() && a != b implies
            #[trigger] entry_views(r@)[a].position != #[trigger] entry_views(r@)[b].position by {
            assert(entry_views(r@)[a] == r@[a]@ && entry_views(r@)[b] == r@[b]@);
            assert(r@[a] == orig[order@[a] as int] && r@[b] == orig[order@[b] as int]);
        }
        assert forall|a: int, b: int| 0 <= a < b < r@.len() implies shown_before(
            #[trigger] entry_views(r@)[a],
            #[trigger] entry_views(r@)[b],
        ) by {
            assert(entry_views(r@)[a] == r@[a]@ && entry_views(r@)[b] == r@[b]@);
            assert(r@[a] == orig[order@[a] as int] && r@[b] == orig[order@[b] as int]);
            assert(order@[a] == ascending@[n - 1 - a] && order@[b] == ascending@[n - 1 - b]);
            assert(key_lt(key_seq[ascending@[n - 1 - b] as int], key_seq[ascending@[n - 1 - a] as int]));
            assert(key_seq[order@[a] as int] == date_key(orig[order@[a] as int]@));
            assert(key_seq[order@[b] as int] == date_key(orig[order@[b] as int]@));
        }
    }
    r
}

/// A bibliography, its entries ordered newest first.
pub struct Bibliography {
    entries: Vec<BibliographyEntry>,
}

impl View for Bibliography {
    type V = Seq<EntryView>;

    closed spec fn view(&self) -> Seq<EntryView> {
        entry_views(self.entries@)
    }
}

impl Bibliography {
    #[verifier::type_invariant]
    spec fn inv(self) -> bool {
        &&& newest_first(entry_views(self.entries@))
        &&& distinct_positions(entry_views(self.entries@))
    }

    /// Reads a bibliography from BibTeX/BibLaTeX source text. Every record
    /// becomes one entry, holding the record's key, fields, authors and date,
    /// ordered newest first, records of the same date in reverse source order.
    /// A record that cannot be shown (see `entry_problem`) refuses the whole
    /// source, with an error that names it. The thumbnail of an entry is the
    /// first of `assets` whose file stem is its key.
    pub fn parse(src: &str, assets: &Vec<String>) -> (r: Result<Bibliography, BibError>)
        ensures
            (r matches Err(BibError::Syntax { .. })) <==> !bib_parses(src@),
            bib_parses(src@) ==> ((r is Ok) <==> forall|i: int|
                0 <= i < bib_records(src@).len() ==> (#[trigger] entry_problem(bib_records(src@)[i])) is None),
            r matches Ok(b) ==> {
                &&& b@.len() == bib_records(src@).len()
                &&& newest_first(b@)
                &&& distinct_positions(b@)
                &&& forall|i: int| 0 <= i < b@.len() ==> (#[trigger] b@[i]).position < b@.len()
                    && matches_record(b@[i], bib_records(src@)[b@[i].position as int])
                &&& forall|i: int| 0 <= i < b@.len() ==> has_required_fields((#[trigger] b@[i]).fields, b@[i].authors)
                &&& forall|i: int| 0 <= i < b@.len() ==> (#[trigger] b@[i]).thumbnail == thumbnail_spec(views(assets@), b@[i].key)
            },
            bib_parses(src@) && r is Err ==> exists|i: int|
                0 <= i < bib_records(src@).len() && refused_by_record(r, #[trigger] bib_records(src@)[i]),
    {
        let mut sources = match parse_source(src) {
            Ok(p) => p,
            Err(e) => {
                return Err(BibError::Syntax { offset: parse_error_offset(&e) });
            },
        };
        let ghost recs = bib_records(src@);
        let ghost orig = sources@;
        let ghost n = sources@.len();
        let mut entries: Vec<BibliographyEntry> = Vec::new();
        assert(sources@.take(n as int) =~= sources@);
        while sources.len() > 0
            invariant
                bib_parses(src@),
                recs == bib_records(src@),
                n == orig.len(),
                n == recs.len(),
                forall|i: int| 0 <= i < n ==> record_of(#[trigger] orig[i]) == recs[i],
                sources@.len() <= n,
                sources@ == orig.take(sources@.len() as int),
                sources@.len() + entries@.len() == n,
                forall|i: int| sources@.len() <= i < n ==> (#[trigger] entry_problem(recs[i])) is None,
                forall|k: int| 0 <= k < entries@.len() ==> {
                    &&& (#[trigger] entries@[k])@.position == n - 1 - k
                    &&& matches_record(entries@[k]@, recs[n - 1 - k])
                    &&& has_required_fields(entries@[k]@.fields, entries@[k]@.authors)
                    &&& entries@[k]@.thumbnail == thumbnail_spec(views(assets@), entries@[k]@.key)
                },
            decreases sources.len(),
        {
            let ghost before = sources@;
            let source = sources.pop().unwrap();
            let position = sources.len();
            proof {
                assert(sources@ =~= before.drop_last());
                assert(source == before.last());
                assert(before[position as int] == orig[position as int]);
                assert(sources@ =~= orig.take(position as int));
                assert(record_of(source) == recs[position as int]);
            }
            match BibliographyEntry::from_source(source, position, assets) {
                Ok(entry) => {
                    entries.push(entry);
                },
                Err(e) => {
                    assert(entry_problem(recs[position as int]) is Some);
                    assert(refused_by_record(Err::<Bibliography, BibError>(e), recs[position as int]));
                    return Err(e);
                },
            }
        }
        let in_order = reversed(entries);
        let sorted = sort_newest_first(in_order);
        proof {
            let s = sorted@;
            assert forall|i: int| 0 <= i < s.len() implies {
                &&& (#[trigger] entry_views(s)[i]).position < s.len()
                &&& matches_record(entry_views(s)[i], recs[entry_views(s)[i].position as int])
                &&& has_required_fields(entry_views(s)[i].fields, entry_views(s)[i].authors)
                &&& entry_views(s)[i].thumbnail == thumbnail_spec(views(assets@), entry_views(s)[i].key)
            } by {
                let p = s[i]@.position as int;
                assert(s[i] == in_order@[p]);
                assert(in_order@[p] == entries@[n - 1 - p]);
                assert(entry_views(s)[i] == s[i]@);
            }
        }
        Ok(Bibliography { entries: sorted })
    }

    /// The number of entries.
    pub fn len(&self) -> (r: usize)
        ensures
            r == self@.len(),
    {
        self.entries.len()
    }

    /// Whether there are no entries.
    pub fn is_empty(&self) -> (r: bool)
        ensures
            r == (self@.len() == 0),
    {
        self.entries.len() == 0
    }

    /// The entry at place `i` of the display order.
    pub fn get(&self, i: usize) -> (r: Option<&BibliographyEntry>)
        ensures
            i < self@.len() ==> (r matches Some(e) && e@ == self@[i as int]),
            i >= self@.len() ==> r is None,
    {
        if i < self.entries.len() {
            Some(&self.entries[i])
        } else {
            None
        }
    }

    /// An iterator over the entries in display order.
    pub fn iter(&self) -> (r: std::slice::Iter<'_, BibliographyEntry>)
        ensures
            entry_views(vstd::std_specs::slice::into_iter_elts(r)) == self@,
    {
        broadcast use vstd::std_specs::slice::axiom_spec_slice_iter;
        self.entries.iter()
    }

    /// The entries in display order: newest first, entries of the same date
    /// in reverse source order.
    pub fn entries(&self) -> (r: &Vec<BibliographyEntry>)
        ensures
            entry_views(r@) == self@,
            newest_first(self@),
            distinct_positions(self@),
    {
        proof {
            use_type_invariant(self);
        }
        &self.entries
    }

    /// For each entry in display order, whether a heading with its year goes
    /// before it.
    pub fn year_headings(&self) -> (r: Vec<bool>)
        ensures
            r@.len() == self@.len(),
            forall|i: int| 0 <= i < r@.len() ==> #[trigger] r@[i] == starts_year(self@, i),
    {
        let mut r: Vec<bool> = Vec::new();
        let mut i: usize = 0;
        while i < self.entries.len()
            invariant
                i <= self@.len(),
                self@ == entry_views(self.entries@),
                r@.len() == i,
                forall|k: int| 0 <= k < i ==> #[trigger] r@[k] == starts_year(self@, k),
            decreases self@.len() - i,
        {
            let heading = if i == 0 {
                true
            } else {
                self.entries[i].date().year != self.entries[i - 1].date().year
            };
            assert(entry_views(self.entries@)[i as int] == self.entries@[i as int]@);
            if i > 0 {
                assert(entry_views(self.entries@)[i - 1] == self.entries@[i - 1]@);
            }
            r.push(heading);
            i = i + 1;
        }
        r
    }
}

/// In an order newest first, no entry is dated later than one before it:
/// (year, month, day), a missing month or day counting as zero, never
/// increases.
pub proof fn lemma_dates_never_increase(s: Seq<EntryView>)
    requires
        newest_first(s),
    ensures
        forall|i: int, j: int| 0 <= i < j < s.len() ==> !date_after((#[trigger] s[j]).date, (#[trigger] s[i]).date),
{
    assert forall|i: int, j: int| 0 <= i < j < s.len() implies !date_after((#[trigger] s[j]).date, (#[trigger] s[i]).date) by {
        assert(shown_before(s[i], s[j]));
    }
}

/// Whether a heading with the year of entry `i` stands at or before it.
pub open spec fn has_heading_for(s: Seq<EntryView>, i: int) -> bool {
    exists|k: int| 0 <= k <= i && #[trigger] starts_year(s, k) && s[k].date.year == s[i].date.year
}

proof fn lemma_year_heading_at_or_before(s: Seq<EntryView>, i: int) -> (k: int)
    requires
        0 <= i < s.len(),
    ensures
        0 <= k <= i,
        starts_year(s, k),
        s[k].date.year == s[i].date.year,
    decreases i,
{
    if starts_year(s, i) {
        i
    } else {
        lemma_year_heading_at_or_before(s, i - 1)
    }
}

/// Grouping entries ordered newest first by year gives one heading per year:
/// every entry's year has a heading at or before it, and the years of the
/// headings strictly decrease in display order, so no year has two.
pub proof fn lemma_one_heading_per_year(s: Seq<EntryView>)
    requires
        newest_first(s),
    ensures
        forall|i: int| 0 <= i < s.len() ==> #[trigger] has_heading_for(s, i),
        forall|i: int, j: int| 0 <= i < j < s.len() && starts_year(s, i) && starts_year(s, j) ==>
            (#[trigger] s[i]).date.year > (#[trigger] s[j]).date.year,
{
    assert forall|i: int| 0 <= i < s.len() implies #[trigger] has_heading_for(s, i) by {
        let k = lemma_year_heading_at_or_before(s, i);
    }
    assert forall|i: int, j: int| 0 <= i < j < s.len() && starts_year(s, i) && starts_year(s, j) implies
        (#[trigger] s[i]).date.year > (#[trigger] s[j]).date.year by {
        assert(shown_before(s[j - 1], s[j]));
        if i < j - 1 {
            assert(shown_before(s[i], s[j - 1]));
        }
    }
}

} // verus!
