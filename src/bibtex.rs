//! The calls into the `biblatex` crate that the bibliography relies on, with
//! the behaviour of each as that crate's source shows it.
use vstd::prelude::*;

use crate::entry::{Author, EntryDate};

verus! {

#[verifier::external_type_specification]
#[verifier::external_body]
pub struct ExEntry(biblatex::Entry);

#[verifier::external_type_specification]
#[verifier::external_body]
pub struct ExParseError(biblatex::ParseError);

#[verifier::external_type_specification]
#[verifier::external_body]
pub struct ExRetrievalError(biblatex::RetrievalError);

#[verifier::external_type_specification]
#[verifier::external_body]
pub struct ExTypeError(biblatex::TypeError);

/// A person's name as (surname, given name, prefix, suffix).
pub type PersonParts = (Seq<char>, Seq<char>, Seq<char>, Seq<char>);

/// A structured date as (year, month, day), month and day from zero.
pub type DateParts = (i32, Option<u8>, Option<u8>);

/// What the bibliography reads from one record of a source: its key, its
/// fields, the persons of its `author` field, and the first point in time of
/// its structured date (`None` when `biblatex` gives no structured date).
pub struct SourceRecord {
    pub key: Seq<char>,
    pub fields: Map<Seq<char>, Seq<char>>,
    pub persons: Seq<PersonParts>,
    pub date: Option<DateParts>,
}

/// Whether `biblatex` accepts a source text as a bibliography.
pub uninterp spec fn bib_parses(src: Seq<char>) -> bool;

/// The records of a source text that `biblatex` accepts, in source order.
pub uninterp spec fn bib_records(src: Seq<char>) -> Seq<SourceRecord>;

/// The fields of an entry: each lower-case field name mapped to its text, as
/// `biblatex` reads it verbatim.
pub uninterp spec fn entry_fields(e: biblatex::Entry) -> Map<Seq<char>, Seq<char>>;

/// The citation key of an entry.
pub uninterp spec fn key_of(e: biblatex::Entry) -> Seq<char>;

/// The persons that `biblatex` reads from an entry's `author` field.
pub uninterp spec fn persons_of(e: biblatex::Entry) -> Seq<PersonParts>;

/// The first point in time of the structured date that `biblatex` reads
/// from an entry, or `None` when it reads none.
pub uninterp spec fn typed_date_of(e: biblatex::Entry) -> Option<DateParts>;

/// The text that `Entry::to_bibtex_string` writes for an entry, or `None`
/// when it fails.
pub uninterp spec fn bibtex_of(e: biblatex::Entry) -> Option<Seq<char>>;

/// The text that `Entry::to_biblatex_string` writes for an entry.
pub uninterp spec fn biblatex_of(e: biblatex::Entry) -> Seq<char>;

/// The record that an entry holds.
pub open spec fn record_of(e: biblatex::Entry) -> SourceRecord {
    SourceRecord { key: key_of(e), fields: entry_fields(e), persons: persons_of(e), date: typed_date_of(e) }
}

pub open spec fn person_parts(a: Author) -> PersonParts {
    (a.name@, a.given_name@, a.prefix@, a.suffix@)
}

pub open spec fn persons_view(v: Seq<Author>) -> Seq<PersonParts> {
    v.map_values(|a: Author| person_parts(a))
}

pub open spec fn date_parts(d: EntryDate) -> DateParts {
    (d.year, d.month, d.day)
}

/// The structured date that a reading gave, if any.
pub open spec fn read_date(r: Result<Option<EntryDate>, biblatex::RetrievalError>) -> Option<DateParts> {
    match r {
        Ok(Some(d)) => Some(date_parts(d)),
        _ => None,
    }
}

/// Whether an entry dates itself by a `year` of one to four digits alone,
/// with no `date` and no `month` field.
pub open spec fn year_only_fields(f: Map<Seq<char>, Seq<char>>) -> bool {
    &&& !f.contains_key("date"@)
    &&& f.contains_key("year"@)
    &&& !f.contains_key("month"@)
    &&& 1 <= f["year"@].len() <= 4
    &&& is_digits(f["year"@])
}

/// Whether a date reading gave exactly the year `year`.
pub open spec fn year_only(d: Option<DateParts>, year: int) -> bool {
    d matches Some(p) && p.0 == year && p.1 is None && p.2 is None
}

/// A `date` text that `biblatex` reads without failing: ASCII, and without
/// the `X` of an unspecified date.
pub open spec fn is_date_text(s: Seq<char>) -> bool {
    forall|i: int| 0 <= i < s.len() ==> ((#[trigger] s[i]) as u32) < 128 && s[i] != 'X' && s[i] != 'x'
}

/// A text of ASCII digits only.
pub open spec fn is_digits(s: Seq<char>) -> bool {
    forall|i: int| 0 <= i < s.len() ==> '0' <= #[trigger] s[i] <= '9'
}

/// A `year` text that `biblatex` reads without failing: every sign is
/// directly followed by a digit.
pub open spec fn is_year_text(s: Seq<char>) -> bool {
    forall|i: int| 0 <= i < s.len() - 1 ==> #[trigger] sign_followed_by_digit(s, i)
}

/// Whether the character at `i`, if it is a sign, is followed by a digit.
pub open spec fn sign_followed_by_digit(s: Seq<char>, i: int) -> bool {
    (s[i] == '+' || s[i] == '-') ==> '0' <= s[i + 1] <= '9'
}

/// Whether three digits in a row start at `i`.
pub open spec fn three_digits_at(s: Seq<char>, i: int) -> bool {
    '0' <= s[i] <= '9' && '0' <= s[i + 1] <= '9' && '0' <= s[i + 2] <= '9'
}

/// A `month` text that `biblatex` reads without failing: no three digits in
/// a row, so a day read from it fits a byte.
pub open spec fn is_month_text(s: Seq<char>) -> bool {
    forall|i: int| 0 <= i < s.len() - 2 ==> !#[trigger] three_digits_at(s, i)
}

/// Whether the date fields of an entry are texts that `biblatex` reads
/// without failing: the `date` field when there is one, else the `year` and
/// `month` fields.
pub open spec fn safe_date_fields(f: Map<Seq<char>, Seq<char>>) -> bool {
    if f.contains_key("date"@) {
        is_date_text(f["date"@])
    } else {
        &&& f.contains_key("year"@) ==> is_year_text(f["year"@])
        &&& f.contains_key("month"@) ==> is_month_text(f["month"@])
    }
}

/// The value of a text of decimal digits.
pub open spec fn digits_value(s: Seq<char>) -> int
    decreases s.len(),
{
    if s.len() == 0 {
        0
    } else {
        digits_value(s.drop_last()) * 10 + (s.last() as int - '0' as int)
    }
}

/// Relies on `biblatex::Bibliography::parse`, whose success depends on the
/// source text alone; the entries come out in source order, through
/// `into_vec`.
#[verifier::external_body]
pub(crate) fn parse_source(src: &str) -> (r: Result<Vec<biblatex::Entry>, biblatex::ParseError>)
    ensures
        r is Ok <==> bib_parses(src@),
        r matches Ok(v) ==> v@.len() == bib_records(src@).len()
            && forall|i: int| 0 <= i < v@.len() ==> record_of(#[trigger] v@[i]) == bib_records(src@)[i],
{
    match biblatex::Bibliography::parse(src) {
        Ok(b) => Ok(b.into_vec()),
        Err(e) => Err(e),
    }
}

/// Relies on the public `span` of `biblatex::ParseError`: where in the source
/// the error was found.
#[verifier::external_body]
pub(crate) fn parse_error_offset(e: &biblatex::ParseError) -> usize {
    e.span.start
}

/// Relies on the public `key` of `biblatex::Entry`: the citation key.
#[verifier::external_body]
pub(crate) fn entry_key(e: &biblatex::Entry) -> (r: String)
    ensures
        r@ == key_of(*e),
{
    e.key.clone()
}

/// Relies on `biblatex::Entry::get` and `ChunksExt::format_verbatim`: the
/// text of a field, if the entry has it.
#[verifier::external_body]
pub(crate) fn entry_field(e: &biblatex::Entry, name: &str) -> (r: Option<String>)
    ensures
        r is Some <==> entry_fields(*e).contains_key(name@),
        r matches Some(v) ==> v@ == entry_fields(*e)[name@],
{
    match e.get(name) {
        Some(chunks) => Some(biblatex::ChunksExt::format_verbatim(chunks)),
        None => None,
    }
}

/// Relies on `biblatex::Entry::remove`: the field is gone, the others and the
/// key stay.
#[verifier::external_body]
pub(crate) fn entry_remove_field(e: &mut biblatex::Entry, name: &str)
    ensures
        entry_fields(*final(e)) == entry_fields(*old(e)).remove(name@),
        key_of(*final(e)) == key_of(*old(e)),
{
    e.remove(name);
}

/// Relies on the derived `Clone` of `biblatex::Entry`: the copy has the same
/// key and fields.
#[verifier::external_body]
pub(crate) fn entry_clone(e: &biblatex::Entry) -> (r: biblatex::Entry)
    ensures
        entry_fields(r) == entry_fields(*e),
        key_of(r) == key_of(*e),
{
    e.clone()
}

/// Relies on `biblatex::Entry::author`, which fails only when the entry has
/// no `author` field.
#[verifier::external_body]
pub(crate) fn entry_authors(e: &biblatex::Entry) -> (r: Result<Vec<Author>, biblatex::RetrievalError>)
    ensures
        r is Ok <==> entry_fields(*e).contains_key("author"@),
        r matches Ok(v) ==> persons_view(v@) == persons_of(*e),
{
    match e.author() {
        Ok(persons) => Ok(
            persons
                .into_iter()
                .map(|p| Author { name: p.name, given_name: p.given_name, prefix: p.prefix, suffix: p.suffix })
                .collect(),
        ),
        Err(err) => Err(err),
    }
}

/// Relies on `biblatex::Entry::date`: with a `date` field it never fails and
/// gives either a structured date (here its first point in time) or, for text
/// it cannot read as a date, that text (here `None`); without one it reads the
/// `year`, `month` and `day` fields, and fails when there is no `year`. A
/// `year` of one to four digits alone, without `month`, gives that year.
/// It panics on some texts outside `safe_date_fields` (a `year` of "- 2022",
/// a `month` of "jan 300", non-ASCII numerals, a `date` of "12345X"), which
/// are left out.
#[verifier::external_body]
pub(crate) fn entry_date(e: &biblatex::Entry) -> (r: Result<Option<EntryDate>, biblatex::RetrievalError>)
    requires
        safe_date_fields(entry_fields(*e)),
    ensures
        read_date(r) == typed_date_of(*e),
        year_only_fields(entry_fields(*e)) ==> year_only(read_date(r), digits_value(entry_fields(*e)["year"@])),
{
    match e.date() {
        Ok(biblatex::PermissiveType::Typed(date)) => match date.value {
            biblatex::DateValue::At(d)
            | biblatex::DateValue::After(d)
            | biblatex::DateValue::Before(d)
            | biblatex::DateValue::Between(d, _) => Ok(Some(EntryDate { year: d.year, month: d.month, day: d.day })),
        },
        Ok(biblatex::PermissiveType::Chunks(_)) => Ok(None),
        Err(err) => Err(err),
    }
}

/// Relies on `biblatex::Entry::to_bibtex_string`, which fails on a malformed
/// date field; it reads the `date` field as `Entry::date` does, so it is
/// called only where that cannot panic.
#[verifier::external_body]
pub(crate) fn entry_to_bibtex(e: &biblatex::Entry) -> (r: Result<String, biblatex::TypeError>)
    requires
        safe_date_fields(entry_fields(*e)),
    ensures
        bibtex_of(*e) == match r {
            Ok(s) => Some(s@),
            Err(_) => None::<Seq<char>>,
        },
{
    e.to_bibtex_string()
}

/// Relies on `biblatex::Entry::to_biblatex_string`.
#[verifier::external_body]
pub(crate) fn entry_to_biblatex(e: &biblatex::Entry) -> (r: String)
    ensures
        r@ == biblatex_of(*e),
{
    e.to_biblatex_string()
}

} // verus!
