//! One bibliography entry: its fields, resolved through aliases, its authors
//! and date, and the rules that turn them into the texts shown for it.
use vstd::prelude::*;

use crate::bibtex::{
    biblatex_of, bibtex_of, date_parts, entry_authors, entry_clone, entry_date, entry_field, entry_fields, entry_key,
    entry_remove_field, entry_to_biblatex, entry_to_bibtex, is_date_text, is_month_text,
    is_year_text, key_of, persons_view, record_of, sign_followed_by_digit, three_digits_at, safe_date_fields, SourceRecord,
};
use crate::consts::{AUTHOR_GIVEN_INITIAL, AUTHOR_NAME_SHORT, AUTHOR_SURNAME};
use crate::thumbnail::{find_thumbnail, thumbnail_spec};
use crate::text::{
    after_last, after_last_char, before_first, before_first_char, contains, contains_seq,
    decimal, decimal_string, join, join_range, lemma_join_concat, str_eq, views,
};

verus! {

/// A person in an author list, split into the parts of a name.
#[derive(Clone, Debug, PartialEq, Eq)]
pub struct Author {
    /// The surname.
    pub name: String,
    /// The given name.
    pub given_name: String,
    /// The part between given name and surname (e.g. "van").
    pub prefix: String,
    /// The part after the surname (e.g. "Jr.").
    pub suffix: String,
}

impl Author {
    /// The whole name: given name, prefix, surname and suffix, each part
    /// that is there separated by one space.
    pub open spec fn full_name_spec(&self) -> Seq<char> {
        (if self.given_name@.len() > 0 { self.given_name@ + " "@ } else { Seq::empty() })
            + (if self.prefix@.len() > 0 { self.prefix@ + " "@ } else { Seq::empty() })
            + self.name@
            + (if self.suffix@.len() > 0 { " "@ + self.suffix@ } else { Seq::empty() })
    }

    /// The initial of the given name, a space and the surname; the surname
    /// alone when there is no given name.
    pub open spec fn short_name_spec(&self) -> Seq<char> {
        if self.given_name@.len() > 0 {
            seq![self.given_name@[0]] + " "@ + self.name@
        } else {
            self.name@
        }
    }

    /// Whether this person is the owner of the portfolio.
    pub open spec fn is_owner_spec(&self) -> bool {
        &&& self.given_name@.len() > 0
        &&& self.given_name@[0] == AUTHOR_GIVEN_INITIAL
        &&& self.name@ == AUTHOR_SURNAME@
    }

    /// The whole name, as in "Simon Bøgh".
    pub fn full_name(&self) -> (r: String)
        ensures
            r@ == self.full_name_spec(),
    {
        let mut r = String::new();
        if self.given_name.unicode_len() > 0 {
            r.append(self.given_name.as_str());
            r.append(" ");
        }
        if self.prefix.unicode_len() > 0 {
            r.append(self.prefix.as_str());
            r.append(" ");
        }
        r.append(self.name.as_str());
        if self.suffix.unicode_len() > 0 {
            r.append(" ");
            r.append(self.suffix.as_str());
        }
        assert(r@ =~= self.full_name_spec());
        r
    }

    /// The abbreviated name, as in "S Bøgh".
    pub fn short_name(&self) -> (r: String)
        ensures
            r@ == self.short_name_spec(),
    {
        let given = self.given_name.as_str();
        if given.unicode_len() > 0 {
            let mut r = String::from_str(given.substring_char(0, 1));
            r.append(" ");
            r.append(self.name.as_str());
            assert(r@ =~= self.short_name_spec());
            r
        } else {
            String::from_str(self.name.as_str())
        }
    }

    /// Whether this person is the owner of the portfolio: the given name
    /// starts with the owner's initial and the surname is the owner's.
    pub fn is_owner(&self) -> (r: bool)
        ensures
            r == self.is_owner_spec(),
    {
        let given = self.given_name.as_str();
        given.unicode_len() > 0 && given.get_char(0) == AUTHOR_GIVEN_INITIAL && str_eq(
            self.name.as_str(),
            AUTHOR_SURNAME,
        )
    }
}

/// The date of an entry, as precise as its source gives it. Month and day
/// count from zero.
#[derive(Clone, Copy, Debug, PartialEq, Eq, Structural)]
pub struct EntryDate {
    pub year: i32,
    pub month: Option<u8>,
    pub day: Option<u8>,
}

impl EntryDate {
    pub open spec fn month_or_zero(self) -> int {
        match self.month {
            Some(m) => m as int,
            None => 0,
        }
    }

    pub open spec fn day_or_zero(self) -> int {
        match self.day {
            Some(d) => d as int,
            None => 0,
        }
    }

    /// The date as (year, month, day), a missing month or day counting as zero.
    pub open spec fn sort_key(self) -> (int, int, int) {
        (self.year as int, self.month_or_zero(), self.day_or_zero())
    }
}

/// Whether `a` comes strictly after `b` in the order of (year, month, day),
/// a missing month or day counting as zero.
pub open spec fn date_after(a: EntryDate, b: EntryDate) -> bool {
    ||| a.year > b.year
    ||| a.year == b.year && a.month_or_zero() > b.month_or_zero()
    ||| a.year == b.year && a.month_or_zero() == b.month_or_zero() && a.day_or_zero() > b.day_or_zero()
}

/// Whether two dates fall on the same (year, month, day).
pub open spec fn date_same(a: EntryDate, b: EntryDate) -> bool {
    a.sort_key() == b.sort_key()
}

/// The value of the first of `names` that `fields` holds with a non-empty
/// text.
pub open spec fn first_present(fields: Map<Seq<char>, Seq<char>>, names: Seq<Seq<char>>) -> Option<Seq<char>>
    decreases names.len(),
{
    if names.len() == 0 {
        None
    } else if fields.contains_key(names[0]) && fields[names[0]].len() > 0 {
        Some(fields[names[0]])
    } else {
        first_present(fields, names.drop_first())
    }
}

/// The views of a sequence of string slices.
pub open spec fn str_views(v: Seq<&str>) -> Seq<Seq<char>> {
    v.map_values(|s: &str| s@)
}

pub open spec fn title_names() -> Seq<Seq<char>> {
    seq!["title"@]
}

/// The fields that name where an entry appeared, by priority.
pub open spec fn venue_names() -> Seq<Seq<char>> {
    seq!["booktitle"@, "type"@, "journal"@, "journaltitle"@]
}

/// The kinds of link that an entry may carry.
#[derive(Clone, Copy, Debug, PartialEq, Eq, Structural)]
pub enum LinkKind {
    Homepage,
    PublicationUrl,
    ArticlePdf,
    ArticleHtml,
    Video,
    Presentation,
    Repository,
}

impl LinkKind {
    /// The fields that may hold this link, by priority.
    pub open spec fn names_spec(self) -> Seq<Seq<char>> {
        match self {
            LinkKind::Homepage => seq!["homepage"@, "website"@],
            LinkKind::PublicationUrl => seq!["publication_url"@, "url"@],
            LinkKind::ArticlePdf => seq!["article"@, "article_pdf"@, "pdf"@],
            LinkKind::ArticleHtml => seq!["article_html"@, "html"@],
            LinkKind::Video => seq!["video"@, "short_video"@],
            LinkKind::Presentation => seq!["presentation"@, "video_presentation"@],
            LinkKind::Repository => seq!["repository"@, "code"@],
        }
    }

    /// The fields that may hold this link, by priority.
    pub fn field_names(self) -> (r: Vec<&'static str>)
        ensures
            str_views(r@) == self.names_spec(),
            r@.len() >= 1,
    {
        let r = match self {
            LinkKind::Homepage => vec!["homepage", "website"],
            LinkKind::PublicationUrl => vec!["publication_url", "url"],
            LinkKind::ArticlePdf => vec!["article", "article_pdf", "pdf"],
            LinkKind::ArticleHtml => vec!["article_html", "html"],
            LinkKind::Video => vec!["video", "short_video"],
            LinkKind::Presentation => vec!["presentation", "video_presentation"],
            LinkKind::Repository => vec!["repository", "code"],
        };
        assert(str_views(r@) =~= self.names_spec());
        r
    }

    pub open spec fn icon_spec(self) -> Seq<char> {
        match self {
            LinkKind::Homepage => "\u{e80b}"@,
            LinkKind::PublicationUrl => "\u{e80b}"@,
            LinkKind::ArticlePdf => "\u{e415}"@,
            LinkKind::ArticleHtml => "\u{eb7e}"@,
            LinkKind::Video => "\u{f06a}"@,
            LinkKind::Presentation => "\u{eaf0}"@,
            LinkKind::Repository => "\u{e86f}"@,
        }
    }

    pub open spec fn hover_text_spec(self) -> Seq<char> {
        match self {
            LinkKind::Homepage => "Homepage"@,
            LinkKind::PublicationUrl => "Publication permalink"@,
            LinkKind::ArticlePdf => "Article (PDF)"@,
            LinkKind::ArticleHtml => "Article (HTML)"@,
            LinkKind::Video => "Video summary"@,
            LinkKind::Presentation => "Full presentation"@,
            LinkKind::Repository => "Source code"@,
        }
    }

    /// The icon glyph of the link's button.
    pub fn icon(self) -> (r: &'static str)
        ensures
            r@ == self.icon_spec(),
    {
        match self {
            LinkKind::Homepage => "\u{e80b}",
            LinkKind::PublicationUrl => "\u{e80b}",
            LinkKind::ArticlePdf => "\u{e415}",
            LinkKind::ArticleHtml => "\u{eb7e}",
            LinkKind::Video => "\u{f06a}",
            LinkKind::Presentation => "\u{eaf0}",
            LinkKind::Repository => "\u{e86f}",
        }
    }

    /// The hover text of the link's button.
    pub fn hover_text(self) -> (r: &'static str)
        ensures
            r@ == self.hover_text_spec(),
    {
        match self {
            LinkKind::Homepage => "Homepage",
            LinkKind::PublicationUrl => "Publication permalink",
            LinkKind::ArticlePdf => "Article (PDF)",
            LinkKind::ArticleHtml => "Article (HTML)",
            LinkKind::Video => "Video summary",
            LinkKind::Presentation => "Full presentation",
            LinkKind::Repository => "Source code",
        }
    }
}

/// The link buttons of an entry, in the order they are shown.
pub open spec fn button_kinds() -> Seq<LinkKind> {
    seq![
        LinkKind::Homepage,
        LinkKind::ArticlePdf,
        LinkKind::ArticleHtml,
        LinkKind::Presentation,
        LinkKind::Video,
        LinkKind::Repository,
    ]
}

/// The fields that only this portfolio uses: every field that a link is read
/// from. They are left out of a citation that visitors copy.
pub open spec fn custom_field_names() -> Seq<Seq<char>> {
    LinkKind::Homepage.names_spec() + LinkKind::PublicationUrl.names_spec()
        + LinkKind::ArticlePdf.names_spec() + LinkKind::ArticleHtml.names_spec()
        + LinkKind::Video.names_spec() + LinkKind::Presentation.names_spec()
        + LinkKind::Repository.names_spec()
}

/// Why a field could not be read.
#[derive(Clone, Debug, PartialEq, Eq)]
pub enum FieldError {
    /// None of the field's names is there with a text; holds the first name.
    Missing(String),
}

/// The text that a field accessor returned, or `None` when it failed.
pub open spec fn field_result(r: Result<String, FieldError>) -> Option<Seq<char>> {
    match r {
        Ok(s) => Some(s@),
        Err(_) => None,
    }
}

/// Why an entry, or a whole bibliography, was refused.
#[derive(Clone, Debug, PartialEq, Eq)]
pub enum BibError {
    /// The text is not a bibliography; `offset` is where reading failed.
    Syntax { offset: usize },
    /// The entry `key` has no text for the required field `field`.
    MissingField { key: String, field: String },
    /// The date of the entry `key` cannot be read as a date.
    InvalidDate { key: String },
}

/// What is known of an entry: its key, fields, authors, date, its position
/// in the source and the index of its thumbnail among the assets.
pub struct EntryView {
    pub key: Seq<char>,
    pub fields: Map<Seq<char>, Seq<char>>,
    pub authors: Seq<Author>,
    pub date: EntryDate,
    pub position: nat,
    pub thumbnail: Option<int>,
}

/// Whether an entry has what every shown entry needs: a title, a venue and
/// at least one author.
pub open spec fn has_required_fields(fields: Map<Seq<char>, Seq<char>>, authors: Seq<Author>) -> bool {
    &&& first_present(fields, title_names()) is Some
    &&& first_present(fields, venue_names()) is Some
    &&& authors.len() >= 1
}

/// A bibliography entry, with the fields that the portfolio needs checked.
pub struct BibliographyEntry {
    source: biblatex::Entry,
    key: String,
    authors: Vec<Author>,
    date: EntryDate,
    position: usize,
    thumbnail: Option<usize>,
}

impl View for BibliographyEntry {
    type V = EntryView;

    closed spec fn view(&self) -> EntryView {
        EntryView {
            key: self.key@,
            fields: entry_fields(self.source),
            authors: self.authors@,
            date: self.date,
            position: self.position as nat,
            thumbnail: match self.thumbnail {
                Some(i) => Some(i as int),
                None => None,
            },
        }
    }
}

/// Reads the first of `names` that `source` holds with a non-empty text.
fn first_present_field(source: &biblatex::Entry, names: &Vec<&str>) -> (r: Option<String>)
    ensures
        match r {
            Some(s) => first_present(entry_fields(*source), str_views(names@)) == Some(s@),
            None => first_present(entry_fields(*source), str_views(names@)) is None,
        },
{
    let ghost fields = entry_fields(*source);
    let mut i: usize = 0;
    assert(str_views(names@).skip(0) =~= str_views(names@));
    while i < names.len()
        invariant
            fields == entry_fields(*source),
            i <= names.len(),
            first_present(fields, str_views(names@)) == first_present(fields, str_views(names@).skip(i as int)),
        decreases names.len() - i,
    {
        assert(str_views(names@).skip(i as int).drop_first() =~= str_views(names@).skip(i + 1));
        match entry_field(source, names[i]) {
            Some(v) => {
                if v.unicode_len() > 0 {
                    return Some(v);
                }
            },
            None => {},
        }
        i = i + 1;
    }
    None
}

/// The name of the first owner in `authors[i..]`, if any.
pub open spec fn owner_from(authors: Seq<Author>, i: int) -> Option<int>
    decreases authors.len() - i,
{
    if i < 0 || i >= authors.len() {
        None
    } else if authors[i].is_owner_spec() {
        Some(i)
    } else {
        owner_from(authors, i + 1)
    }
}

proof fn lemma_owner_from_bounds(authors: Seq<Author>, i: int)
    ensures
        owner_from(authors, i) matches Some(k) ==> 0 <= i <= k < authors.len() && authors[k].is_owner_spec(),
    decreases authors.len() - i,
{
    if 0 <= i < authors.len() && !authors[i].is_owner_spec() {
        lemma_owner_from_bounds(authors, i + 1);
    }
}

/// The position of the owner in an author list: the first author who is the
/// owner, if any.
pub open spec fn owner_index(authors: Seq<Author>) -> Option<int> {
    owner_from(authors, 0)
}

/// The abbreviated names of an author list.
pub open spec fn short_names(authors: Seq<Author>) -> Seq<Seq<char>> {
    authors.map_values(|a: Author| a.short_name_spec())
}

/// How an author list is shown.
#[derive(Clone, Debug, PartialEq, Eq)]
pub enum AuthorLine {
    /// The list has one author: the owner's short name, emphasized.
    Single,
    /// Every author in list order: `before`, then, if `owner`, the owner's
    /// short name emphasized, then `after`.
    Full { before: String, owner: bool, after: String },
    /// The first author followed by "et al.", emphasized when it is the
    /// owner; `others` lists the remaining authors for a hover, each with
    /// whether it is the owner.
    EtAl { first: String, first_is_owner: bool, others: Vec<(String, bool)> },
}

/// The text before the owner in the full list: the names before the owner,
/// joined with ", " and followed by ", "; without an owner, every name.
pub open spec fn full_before(authors: Seq<Author>) -> Seq<char> {
    let names = short_names(authors);
    match owner_index(authors) {
        Some(k) => if k > 0 { join(names.take(k), ", "@) + ", "@ } else { Seq::empty() },
        None => join(names, ", "@),
    }
}

/// The text after the owner in the full list: ", " and the names after the
/// owner, joined with ", ".
pub open spec fn full_after(authors: Seq<Author>) -> Seq<char> {
    let names = short_names(authors);
    match owner_index(authors) {
        Some(k) => if k + 1 < authors.len() { ", "@ + join(names.skip(k + 1), ", "@) } else { Seq::empty() },
        None => Seq::empty(),
    }
}

/// The text of the first author in the "et al." form.
pub open spec fn et_al_first(authors: Seq<Author>) -> Seq<char> {
    if owner_index(authors) == Some(0int) {
        AUTHOR_NAME_SHORT@ + " et al."@
    } else {
        short_names(authors)[0] + " et al."@
    }
}

/// The hover line of author `j + 1` in the "et al." form.
pub open spec fn et_al_other(authors: Seq<Author>, j: int) -> (Seq<char>, bool) {
    if owner_index(authors) == Some(j + 1) {
        (AUTHOR_NAME_SHORT@, true)
    } else {
        (short_names(authors)[j + 1], false)
    }
}

/// Whether `line` is how `authors` are shown, where `fits` tells whether
/// there is room for every name.
pub open spec fn is_author_line(line: AuthorLine, authors: Seq<Author>, fits: bool) -> bool {
    if authors.len() == 1 {
        line is Single
    } else if fits {
        line matches AuthorLine::Full { before, owner, after }
            && before@ == full_before(authors)
            && owner == (owner_index(authors) is Some)
            && after@ == full_after(authors)
    } else {
        line matches AuthorLine::EtAl { first, first_is_owner, others }
            && first@ == et_al_first(authors)
            && first_is_owner == (owner_index(authors) == Some(0int))
            && others@.len() == authors.len() - 1
            && forall|j: int| 0 <= j < others@.len() ==>
                (#[trigger] others@[j]).0@ == et_al_other(authors, j).0
                && others@[j].1 == et_al_other(authors, j).1
    }
}

/// Whether the available width leaves room for every author: the width
/// beside the thumbnail is more than the minimum width per author times the
/// number of authors.
pub open spec fn fits_all_spec(available_width: int, thumbnail_size: int, min_width_per_author: int, count: int) -> bool {
    available_width - thumbnail_size > count * min_width_per_author
}

/// Whether the available width leaves room for every author.
pub fn fits_all_authors(available_width: u32, thumbnail_size: u32, min_width_per_author: u32, count: usize) -> (r: bool)
    ensures
        r == fits_all_spec(available_width as int, thumbnail_size as int, min_width_per_author as int, count as int),
{
    if available_width <= thumbnail_size {
        assert(count as int * min_width_per_author as int >= 0) by (nonlinear_arith);
        return false;
    }
    let room = (available_width - thumbnail_size) as u128;
    assert(count as u128 * min_width_per_author as u128 <= 0xffff_ffff_ffff_ffffu128 * 0xffff_ffffu128) by (nonlinear_arith)
        requires count <= 0xffff_ffff_ffff_ffffu128, min_width_per_author <= 0xffff_ffffu128;
    let need = count as u128 * min_width_per_author as u128;
    room > need
}

fn owner_position(authors: &Vec<Author>) -> (r: Option<usize>)
    ensures
        match r {
            Some(k) => owner_index(authors@) == Some(k as int),
            None => owner_index(authors@) is None,
        },
{
    let mut i: usize = 0;
    while i < authors.len()
        invariant
            i <= authors.len(),
            owner_index(authors@) == owner_from(authors@, i as int),
        decreases authors.len() - i,
    {
        if authors[i].is_owner() {
            return Some(i);
        }
        i = i + 1;
    }
    None
}

fn short_name_list(authors: &Vec<Author>) -> (r: Vec<String>)
    ensures
        r@.len() == authors@.len(),
        views(r@) == short_names(authors@),
{
    let mut r: Vec<String> = Vec::new();
    let mut i: usize = 0;
    while i < authors.len()
        invariant
            i <= authors.len(),
            r@.len() == i,
            views(r@) == short_names(authors@).take(i as int),
        decreases authors.len() - i,
    {
        let name = authors[i].short_name();
        r.push(name);
        assert(views(r@) =~= short_names(authors@).take(i + 1));
        i = i + 1;
    }
    assert(short_names(authors@).take(authors.len() as int) =~= short_names(authors@));
    r
}

/// Decides how an author list is shown: one author gives the owner's short
/// name; with room for every name, the full list with the owner emphasized
/// where it stands; otherwise the first author and "et al.".
pub fn format_authors(authors: &Vec<Author>, fits: bool) -> (r: AuthorLine)
    requires
        authors.len() >= 1,
    ensures
        is_author_line(r, authors@, fits),
{
    let n = authors.len();
    if n == 1 {
        return AuthorLine::Single;
    }
    let names = short_name_list(authors);
    let owner = owner_position(authors);
    proof {
        lemma_owner_from_bounds(authors@, 0);
    }
    if fits {
        match owner {
            Some(k) => {
                let mut before = String::new();
                if k > 0 {
                    before = join_range(&names, 0, k, ", ");
                    before.append(", ");
                    assert(views(names@).subrange(0, k as int) =~= short_names(authors@).take(k as int));
                }
                let mut after = String::new();
                if k + 1 < n {
                    after.append(", ");
                    let rest = join_range(&names, k + 1, n, ", ");
                    after.append(rest.as_str());
                    assert(views(names@).subrange(k + 1, n as int) =~= short_names(authors@).skip(k + 1));
                }
                AuthorLine::Full { before, owner: true, after }
            },
            None => {
                let before = join_range(&names, 0, n, ", ");
                assert(views(names@).subrange(0, n as int) =~= short_names(authors@));
                AuthorLine::Full { before, owner: false, after: String::new() }
            },
        }
    } else {
        let first_is_owner = match owner {
            Some(k) => k == 0,
            None => false,
        };
        let mut first = if first_is_owner {
            String::from_str(AUTHOR_NAME_SHORT)
        } else {
            let mut f = String::new();
            assert(views(names@)[0] == names@[0]@);
            f.append(names[0].as_str());
            f
        };
        first.append(" et al.");
        let mut others: Vec<(String, bool)> = Vec::new();
        let mut i: usize = 1;
        while i < n
            invariant
                n == authors.len(),
                n == names@.len(),
                1 <= i <= n,
                views(names@) == short_names(authors@),
                match owner {
                    Some(k) => owner_index(authors@) == Some(k as int),
                    None => owner_index(authors@) is None,
                },
                others@.len() == i - 1,
                forall|j: int| 0 <= j < others@.len() ==>
                    (#[trigger] others@[j]).0@ == et_al_other(authors@, j).0
                    && others@[j].1 == et_al_other(authors@, j).1,
            decreases n - i,
        {
            let is_owner = match owner {
                Some(k) => k == i,
                None => false,
            };
            let text = if is_owner {
                String::from_str(AUTHOR_NAME_SHORT)
            } else {
                let mut t = String::new();
                assert(views(names@)[i as int] == names@[i as int]@);
                t.append(names[i].as_str());
                t
            };
            let ghost prev = others@;
            others.push((text, is_owner));
            assert(others@[i - 1] == (text, is_owner));
            assert forall|j: int| 0 <= j < others@.len() implies
                (#[trigger] others@[j]).0@ == et_al_other(authors@, j).0
                && others@[j].1 == et_al_other(authors@, j).1 by {
                if j < i - 1 {
                    assert(others@[j] == prev[j]);
                }
            }
            i = i + 1;
        }
        AuthorLine::EtAl { first, first_is_owner, others }
    }
}

/// The name of what `str::to_lowercase` returns for a text.
pub uninterp spec fn lower_of(s: Seq<char>) -> Seq<char>;

/// Relies on `str::to_lowercase`, whose result depends on the text alone.
#[verifier::external_body]
fn lowercase(s: &str) -> (r: String)
    ensures
        r@ == lower_of(s@),
{
    s.to_lowercase()
}

/// The short form of a venue: for a venue that ends with ")", the text in
/// its last parentheses and the year; for an arXiv preprint or another
/// preprint, a fixed label; otherwise the venue itself. `lower` is the venue
/// in lower case.
pub open spec fn venue_label_spec(venue: Seq<char>, lower: Seq<char>, year: int) -> Seq<char> {
    if venue.len() > 0 && venue.last() == ')' {
        before_first(after_last(venue, '('), ')') + " "@ + decimal(year)
    } else if contains_seq(lower, "arxiv"@) {
        "arXiv preprint"@
    } else if contains_seq(lower, "preprint"@) {
        "Preprint"@
    } else {
        venue
    }
}

/// The short form of a venue, given the venue in lower case.
pub fn venue_label_from(venue: &str, venue_lower: &str, year: i32) -> (r: String)
    ensures
        r@ == venue_label_spec(venue@, venue_lower@, year as int),
{
    let n = venue.unicode_len();
    if n > 0 && venue.get_char(n - 1) == ')' {
        let inner = before_first_char(after_last_char(venue, '('), ')');
        let mut r = String::from_str(inner);
        r.append(" ");
        let y = decimal_string(year);
        r.append(y.as_str());
        r
    } else if contains(venue_lower, "arxiv") {
        String::from_str("arXiv preprint")
    } else if contains(venue_lower, "preprint") {
        String::from_str("Preprint")
    } else {
        String::from_str(venue)
    }
}

/// The links that an entry holds among `kinds`, in that order, each with
/// its address.
pub open spec fn present_links(fields: Map<Seq<char>, Seq<char>>, kinds: Seq<LinkKind>) -> Seq<(LinkKind, Seq<char>)>
    decreases kinds.len(),
{
    if kinds.len() == 0 {
        Seq::empty()
    } else {
        present_links(fields, kinds.drop_last()) + match first_present(fields, kinds.last().names_spec()) {
            Some(v) => seq![(kinds.last(), v)],
            None => Seq::empty(),
        }
    }
}

pub open spec fn link_views(v: Seq<(LinkKind, String)>) -> Seq<(LinkKind, Seq<char>)> {
    v.map_values(|l: (LinkKind, String)| (l.0, l.1@))
}

fn button_kind_list() -> (r: Vec<LinkKind>)
    ensures
        r@ == button_kinds(),
{
    let r = vec![
        LinkKind::Homepage,
        LinkKind::ArticlePdf,
        LinkKind::ArticleHtml,
        LinkKind::Presentation,
        LinkKind::Video,
        LinkKind::Repository,
    ];
    assert(r@ =~= button_kinds());
    r
}

fn custom_field_list() -> (r: Vec<&'static str>)
    ensures
        str_views(r@) == custom_field_names(),
{
    let r = vec![
        "homepage",
        "website",
        "publication_url",
        "url",
        "article",
        "article_pdf",
        "pdf",
        "article_html",
        "html",
        "video",
        "short_video",
        "presentation",
        "video_presentation",
        "repository",
        "code",
    ];
    assert(str_views(r@) =~= custom_field_names());
    r
}

/// Whether an entry was refused for lacking the field `name`.
pub open spec fn missing_field<T>(r: Result<T, BibError>, name: Seq<char>) -> bool {
    r matches Err(BibError::MissingField { field, .. }) && field@ == name
}

fn missing(key: &String, field: &str) -> (r: BibError)
    ensures
        r matches BibError::MissingField { key: k, field: f } && k@ == key@ && f@ == field@,
{
    BibError::MissingField { key: key.clone(), field: String::from_str(field) }
}

/// Why a record cannot be shown.
pub enum EntryProblem {
    /// A required field is missing or empty; the field's first name.
    MissingField(Seq<char>),
    /// The date cannot be read as a structured date.
    InvalidDate,
}

/// What keeps a record from being shown, checked in this order: a title, a
/// venue, an author field with at least one person, a `date` or `year`
/// field, and a readable structured date.
pub open spec fn entry_problem(rec: SourceRecord) -> Option<EntryProblem> {
    let f = rec.fields;
    if first_present(f, title_names()) is None {
        Some(EntryProblem::MissingField("title"@))
    } else if first_present(f, venue_names()) is None {
        Some(EntryProblem::MissingField("booktitle"@))
    } else if !f.contains_key("author"@) || rec.persons.len() == 0 {
        Some(EntryProblem::MissingField("author"@))
    } else if !f.contains_key("date"@) && !f.contains_key("year"@) {
        Some(EntryProblem::MissingField("year"@))
    } else if !safe_date_fields(f) || rec.date is None {
        Some(EntryProblem::InvalidDate)
    } else {
        None
    }
}

pub open spec fn key_of_record(rec: SourceRecord) -> Seq<char> {
    rec.key
}

/// Whether `r` is the refusal of the record with key `key` for `p`.
pub open spec fn refused_for<T>(r: Result<T, BibError>, p: EntryProblem, key: Seq<char>) -> bool {
    match p {
        EntryProblem::MissingField(f) => r matches Err(BibError::MissingField { key: k, field }) && k@ == key && field@ == f,
        EntryProblem::InvalidDate => r matches Err(BibError::InvalidDate { key: k }) && k@ == key,
    }
}

/// Whether an entry's copy button shows "copied" after a frame: a click sets
/// it, and it is cleared once the pointer is no longer over the button.
pub fn copied_after(copied: bool, clicked: bool, hovered: bool) -> (r: bool)
    ensures
        r == (clicked || (copied && hovered)),
{
    if clicked {
        true
    } else if copied && !hovered {
        false
    } else {
        copied
    }
}

/// The citation text of an entry: its BibTeX form where its date fields can
/// be read and it can be written so, else its BibLaTeX form.
pub open spec fn citation_of(c: biblatex::Entry) -> Seq<char> {
    if safe_date_fields(entry_fields(c)) && bibtex_of(c) is Some {
        bibtex_of(c)->Some_0
    } else {
        biblatex_of(c)
    }
}

/// Whether `r` is the refusal that the problem of `rec` calls for.
pub open spec fn refused_by_record<T>(r: Result<T, BibError>, rec: SourceRecord) -> bool {
    entry_problem(rec) matches Some(p) && refused_for(r, p, rec.key)
}

/// Whether an entry holds what a source record gives: its key, fields,
/// authors and date.
pub open spec fn matches_record(v: EntryView, rec: SourceRecord) -> bool {
    &&& v.key == rec.key
    &&& v.fields == rec.fields
    &&& persons_view(v.authors) == rec.persons
    &&& rec.date == Some(date_parts(v.date))
}

fn is_digit(c: char) -> (r: bool)
    ensures
        r == ('0' <= c <= '9'),
{
    '0' <= c && c <= '9'
}

fn date_text_ok(s: &str) -> (r: bool)
    ensures
        r == is_date_text(s@),
{
    let n = s.unicode_len();
    let mut i: usize = 0;
    while i < n
        invariant
            n == s@.len(),
            i <= n,
            forall|k: int| 0 <= k < i ==> ((#[trigger] s@[k]) as u32) < 128 && s@[k] != 'X' && s@[k] != 'x',
        decreases n - i,
    {
        let c = s.get_char(i);
        if (c as u32) >= 128 || c == 'X' || c == 'x' {
            return false;
        }
        i = i + 1;
    }
    true
}

fn year_text_ok(s: &str) -> (r: bool)
    ensures
        r == is_year_text(s@),
{
    let n = s.unicode_len();
    let mut i: usize = 0;
    while i < n
        invariant
            n == s@.len(),
            i <= n,
            forall|k: int| 0 <= k < i && k < n - 1 ==> #[trigger] sign_followed_by_digit(s@, k),
        decreases n - i,
    {
        let c = s.get_char(i);
        if (c == '+' || c == '-') && i + 1 < n && !is_digit(s.get_char(i + 1)) {
            assert(!sign_followed_by_digit(s@, i as int));
            return false;
        }
        i = i + 1;
    }
    true
}

fn month_text_ok(s: &str) -> (r: bool)
    ensures
        r == is_month_text(s@),
{
    let n = s.unicode_len();
    let mut i: usize = 0;
    while n >= 2 && i < n - 2
        invariant
            n == s@.len(),
            i <= n,
            forall|k: int| 0 <= k < i && k < n - 2 ==> !#[trigger] three_digits_at(s@, k),
        decreases n - i,
    {
        if is_digit(s.get_char(i)) && is_digit(s.get_char(i + 1)) && is_digit(s.get_char(i + 2)) {
            assert(three_digits_at(s@, i as int));
            return false;
        }
        i = i + 1;
    }
    true
}

/// Whether the date fields of an entry are texts that `biblatex` reads
/// without failing.
fn date_fields_safe(e: &biblatex::Entry) -> (r: bool)
    ensures
        r == safe_date_fields(entry_fields(*e)),
{
    match entry_field(e, "date") {
        Some(d) => date_text_ok(d.as_str()),
        None => {
            let year_ok = match entry_field(e, "year") {
                Some(y) => year_text_ok(y.as_str()),
                None => true,
            };
            let month_ok = match entry_field(e, "month") {
                Some(m) => month_text_ok(m.as_str()),
                None => true,
            };
            year_ok && month_ok
        },
    }
}

impl BibliographyEntry {
    #[verifier::type_invariant]
    spec fn inv(self) -> bool {
        &&& has_required_fields(entry_fields(self.source), self.authors@)
        &&& self.key@ == key_of(self.source)
    }

    /// Checks a parsed entry and reads what the portfolio needs from it:
    /// a title, a venue, a non-empty author list and a readable date; an
    /// entry without them is refused as `entry_problem` says. `position` is
    /// its place in the source; the thumbnail is the first of `assets` whose
    /// file stem is the entry's key.
    pub fn from_source(source: biblatex::Entry, position: usize, assets: &Vec<String>) -> (r: Result<BibliographyEntry, BibError>)
        ensures
            (r is Ok) <==> entry_problem(record_of(source)) is None,
            r matches Ok(e) ==> {
                &&& matches_record(e@, record_of(source))
                &&& e@.position == position
                &&& e@.thumbnail == thumbnail_spec(views(assets@), e@.key)
                &&& has_required_fields(e@.fields, e@.authors)
            },
            entry_problem(record_of(source)) matches Some(p) ==> refused_for(r, p, key_of_record(record_of(source))),
    {
        let key = entry_key(&source);
        let title_names_list = vec!["title"];
        assert(str_views(title_names_list@) =~= title_names());
        if first_present_field(&source, &title_names_list).is_none() {
            return Err(missing(&key, "title"));
        }
        let venue_names_list = vec!["booktitle", "type", "journal", "journaltitle"];
        assert(str_views(venue_names_list@) =~= venue_names());
        if first_present_field(&source, &venue_names_list).is_none() {
            return Err(missing(&key, "booktitle"));
        }
        let authors = match entry_authors(&source) {
            Ok(a) => a,
            Err(_) => {
                return Err(missing(&key, "author"));
            },
        };
        if authors.len() == 0 {
            return Err(missing(&key, "author"));
        }
        let has_date = entry_field(&source, "date").is_some();
        let has_year = entry_field(&source, "year").is_some();
        if !has_date && !has_year {
            return Err(missing(&key, "year"));
        }
        if !date_fields_safe(&source) {
            return Err(BibError::InvalidDate { key });
        }
        let date = match entry_date(&source) {
            Ok(Some(d)) => d,
            _ => {
                return Err(BibError::InvalidDate { key });
            },
        };
        let thumbnail = find_thumbnail(assets, key.as_str());
        let e = BibliographyEntry { source, key, authors, date, position, thumbnail };
        assert(matches_record(e@, record_of(e.source)));
        Ok(e)
    }

    /// The citation key.
    pub fn key(&self) -> (r: &str)
        ensures
            r@ == self@.key,
    {
        self.key.as_str()
    }

    /// The place of the entry in its source, counting from zero.
    pub fn position(&self) -> (r: usize)
        ensures
            r == self@.position,
    {
        self.position
    }

    /// The date of the entry.
    pub fn date(&self) -> (r: EntryDate)
        ensures
            r == self@.date,
    {
        self.date
    }

    /// The index of the entry's thumbnail among the assets it was read with.
    pub fn thumbnail(&self) -> (r: Option<usize>)
        ensures
            match r {
                Some(i) => self@.thumbnail == Some(i as int),
                None => self@.thumbnail is None,
            },
    {
        self.thumbnail
    }

    /// The year of the entry.
    pub fn year(&self) -> (r: Result<i32, FieldError>)
        ensures
            r == Ok::<i32, FieldError>(self@.date.year),
    {
        Ok(self.date.year)
    }

    /// The authors, in list order; never empty.
    pub fn author(&self) -> (r: Result<&Vec<Author>, FieldError>)
        ensures
            r matches Ok(a) && a@ == self@.authors && a@.len() >= 1,
    {
        proof {
            use_type_invariant(self);
        }
        Ok(&self.authors)
    }

    /// Reads the first of `names` that the entry holds with a non-empty text.
    fn read_field(&self, names: &Vec<&str>) -> (r: Result<String, FieldError>)
        requires
            names@.len() >= 1,
        ensures
            field_result(r) == first_present(self@.fields, str_views(names@)),
            r matches Err(FieldError::Missing(n)) ==> n@ == names@[0]@,
    {
        match first_present_field(&self.source, names) {
            Some(v) => Ok(v),
            None => Err(FieldError::Missing(String::from_str(names[0]))),
        }
    }

    /// The `title` field.
    pub fn title(&self) -> (r: Result<String, FieldError>)
        ensures
            field_result(r) == first_present(self@.fields, title_names()),
            r is Ok,
    {
        proof {
            use_type_invariant(self);
        }
        let names = vec!["title"];
        assert(str_views(names@) =~= title_names());
        self.read_field(&names)
    }

    /// Where the entry appeared: the `booktitle` field, or else `type`,
    /// `journal` or `journaltitle`.
    pub fn venue(&self) -> (r: Result<String, FieldError>)
        ensures
            field_result(r) == first_present(self@.fields, venue_names()),
            r is Ok,
    {
        proof {
            use_type_invariant(self);
        }
        let names = vec!["booktitle", "type", "journal", "journaltitle"];
        assert(str_views(names@) =~= venue_names());
        self.read_field(&names)
    }

    /// The address of a link: the first of its fields that the entry holds
    /// with a non-empty text. Fails, naming the link's first field, when
    /// there is none.
    pub fn link(&self, kind: LinkKind) -> (r: Result<String, FieldError>)
        ensures
            field_result(r) == first_present(self@.fields, kind.names_spec()),
            r matches Err(FieldError::Missing(n)) ==> n@ == kind.names_spec()[0],
    {
        let names = kind.field_names();
        self.read_field(&names)
    }

    /// The `homepage` field, or else `website`.
    pub fn homepage(&self) -> (r: Result<String, FieldError>)
        ensures
            field_result(r) == first_present(self@.fields, LinkKind::Homepage.names_spec()),
    {
        self.link(LinkKind::Homepage)
    }

    /// The `publication_url` field, or else `url`.
    pub fn publication_url(&self) -> (r: Result<String, FieldError>)
        ensures
            field_result(r) == first_present(self@.fields, LinkKind::PublicationUrl.names_spec()),
    {
        self.link(LinkKind::PublicationUrl)
    }

    /// The `article` field, or else `article_pdf` or `pdf`.
    pub fn article_pdf(&self) -> (r: Result<String, FieldError>)
        ensures
            field_result(r) == first_present(self@.fields, LinkKind::ArticlePdf.names_spec()),
    {
        self.link(LinkKind::ArticlePdf)
    }

    /// The `article_html` field, or else `html`.
    pub fn article_html(&self) -> (r: Result<String, FieldError>)
        ensures
            field_result(r) == first_present(self@.fields, LinkKind::ArticleHtml.names_spec()),
    {
        self.link(LinkKind::ArticleHtml)
    }

    /// The `video` field, or else `short_video`.
    pub fn video(&self) -> (r: Result<String, FieldError>)
        ensures
            field_result(r) == first_present(self@.fields, LinkKind::Video.names_spec()),
    {
        self.link(LinkKind::Video)
    }

    /// The `presentation` field, or else `video_presentation`.
    pub fn presentation(&self) -> (r: Result<String, FieldError>)
        ensures
            field_result(r) == first_present(self@.fields, LinkKind::Presentation.names_spec()),
    {
        self.link(LinkKind::Presentation)
    }

    /// The `repository` field, or else `code`.
    pub fn repository(&self) -> (r: Result<String, FieldError>)
        ensures
            field_result(r) == first_present(self@.fields, LinkKind::Repository.names_spec()),
    {
        self.link(LinkKind::Repository)
    }

    /// Where the title and thumbnail lead: the homepage, or else the
    /// publication's permalink.
    pub fn title_link(&self) -> (r: Option<(LinkKind, String)>)
        ensures
            match first_present(self@.fields, LinkKind::Homepage.names_spec()) {
                Some(h) => r matches Some(l) && l.0 == LinkKind::Homepage && l.1@ == h,
                None => match first_present(self@.fields, LinkKind::PublicationUrl.names_spec()) {
                    Some(p) => r matches Some(l) && l.0 == LinkKind::PublicationUrl && l.1@ == p,
                    None => r is None,
                },
            },
    {
        match self.homepage() {
            Ok(h) => Some((LinkKind::Homepage, h)),
            Err(_) => match self.publication_url() {
                Ok(p) => Some((LinkKind::PublicationUrl, p)),
                Err(_) => None,
            },
        }
    }

    /// The link buttons of the entry, in the order they are shown, each with
    /// its address; links that the entry lacks are left out.
    pub fn links(&self) -> (r: Vec<(LinkKind, String)>)
        ensures
            link_views(r@) == present_links(self@.fields, button_kinds()),
    {
        let kinds = button_kind_list();
        let mut r: Vec<(LinkKind, String)> = Vec::new();
        let mut i: usize = 0;
        while i < kinds.len()
            invariant
                kinds@ == button_kinds(),
                i <= kinds.len(),
                link_views(r@) == present_links(self@.fields, kinds@.take(i as int)),
            decreases kinds.len() - i,
        {
            let ghost prev = r@;
            assert(kinds@.take(i + 1).drop_last() =~= kinds@.take(i as int));
            match self.link(kinds[i]) {
                Ok(url) => {
                    r.push((kinds[i], url));
                    assert(link_views(r@) =~= link_views(prev) + seq![(kinds@[i as int], url@)]);
                },
                Err(_) => {},
            }
            i = i + 1;
        }
        assert(kinds@.take(kinds.len() as int) =~= kinds@);
        r
    }

    /// The entry as visitors copy it: the same entry without the fields that
    /// only this portfolio uses.
    pub fn citation_source(&self) -> (r: biblatex::Entry)
        ensures
            entry_fields(r) == self@.fields.remove_keys(custom_field_names().to_set()),
            key_of(r) == self@.key,
    {
        proof {
            use_type_invariant(self);
        }
        let custom = custom_field_list();
        let mut c = entry_clone(&self.source);
        let mut i: usize = 0;
        while i < custom.len()
            invariant
                str_views(custom@) == custom_field_names(),
                i <= custom.len(),
                entry_fields(c) == self@.fields.remove_keys(str_views(custom@).take(i as int).to_set()),
                key_of(c) == self@.key,
            decreases custom.len() - i,
        {
            let ghost before = entry_fields(c);
            entry_remove_field(&mut c, custom[i]);
            assert(str_views(custom@).take(i + 1) =~= str_views(custom@).take(i as int).push(custom@[i as int]@));
            proof {
                str_views(custom@).take(i as int).lemma_push_to_set_commute(custom@[i as int]@);
            }
            assert(entry_fields(c) =~= self@.fields.remove_keys(str_views(custom@).take(i + 1).to_set()));
            i = i + 1;
        }
        assert(str_views(custom@).take(custom.len() as int) =~= custom_field_names());
        c
    }

    /// The citation that visitors copy: the entry without the fields that
    /// only this portfolio uses, in BibTeX form where it can be written so,
    /// and in BibLaTeX form otherwise.
    pub fn citation_text(&self) -> (r: String)
        ensures
            exists|c: biblatex::Entry| #[trigger] entry_fields(c) == self@.fields.remove_keys(custom_field_names().to_set())
                && key_of(c) == self@.key && r@ == citation_of(c),
    {
        let c = self.citation_source();
        if !date_fields_safe(&c) {
            return entry_to_biblatex(&c);
        }
        match entry_to_bibtex(&c) {
            Ok(text) => text,
            Err(_) => entry_to_biblatex(&c),
        }
    }

    /// The short form of the venue shown under the authors.
    pub fn venue_label(&self) -> (r: String)
        ensures
            first_present(self@.fields, venue_names()) matches Some(v)
                && r@ == venue_label_spec(v, lower_of(v), self@.date.year as int),
    {
        let venue = match self.venue() {
            Ok(v) => v,
            Err(_) => String::new(),
        };
        let lower = lowercase(venue.as_str());
        venue_label_from(venue.as_str(), lower.as_str(), self.date.year)
    }

    /// How the authors are shown, given the available width, the width of a
    /// thumbnail and the minimum width per author, in whole pixels.
    pub fn author_line(&self, available_width: u32, thumbnail_size: u32, min_width_per_author: u32) -> (r: AuthorLine)
        ensures
            is_author_line(
                r,
                self@.authors,
                fits_all_spec(available_width as int, thumbnail_size as int, min_width_per_author as int, self@.authors.len() as int),
            ),
    {
        proof {
            use_type_invariant(self);
        }
        let fits = fits_all_authors(available_width, thumbnail_size, min_width_per_author, self.authors.len());
        format_authors(&self.authors, fits)
    }
}

/// When a record holds a field under its primary name with a text, that text
/// is read, whatever its aliases hold.
pub proof fn lemma_primary_field_wins(fields: Map<Seq<char>, Seq<char>>, names: Seq<Seq<char>>)
    requires
        names.len() >= 1,
        fields.contains_key(names[0]),
        fields[names[0]].len() > 0,
    ensures
        first_present(fields, names) == Some(fields[names[0]]),
{
}

/// When a record holds none of a field's names, the field reads as absent.
pub proof fn lemma_absent_without_alias(fields: Map<Seq<char>, Seq<char>>, names: Seq<Seq<char>>)
    requires
        forall|i: int| 0 <= i < names.len() ==> !fields.contains_key(#[trigger] names[i]),
    ensures
        first_present(fields, names) is None,
    decreases names.len(),
{
    if names.len() > 0 {
        assert forall|i: int| 0 <= i < names.drop_first().len() implies !fields.contains_key(#[trigger] names.drop_first()[i]) by {
            assert(names.drop_first()[i] == names[i + 1]);
        }
        lemma_absent_without_alias(fields, names.drop_first());
    }
}

/// The names that the full author list shows, in list order: each author's
/// short name, and the owner's short name in the owner's place.
pub open spec fn shown_names(authors: Seq<Author>) -> Seq<Seq<char>> {
    match owner_index(authors) {
        Some(k) => short_names(authors).update(k, AUTHOR_NAME_SHORT@),
        None => short_names(authors),
    }
}

/// With room for every name, an author list shows every author in list
/// order, separated by ", ", with the owner emphasized in the owner's own
/// place: the text before the owner, the owner's name and the text after it
/// make up the whole list.
pub proof fn lemma_full_line_keeps_list_order(authors: Seq<Author>)
    requires
        authors.len() >= 2,
        owner_index(authors) is Some,
    ensures
        full_before(authors) + AUTHOR_NAME_SHORT@ + full_after(authors) == join(shown_names(authors), ", "@),
{
    let k = owner_index(authors)->Some_0;
    lemma_owner_from_bounds(authors, 0);
    let n = authors.len() as int;
    let names = short_names(authors);
    let shown = shown_names(authors);
    let sep = ", "@;
    let owner = seq![AUTHOR_NAME_SHORT@];
    assert(join(owner, sep) == AUTHOR_NAME_SHORT@);
    assert(shown.take(k) =~= names.take(k));
    assert(shown.skip(k + 1) =~= names.skip(k + 1));
    if k == 0 {
        assert(shown =~= owner + shown.skip(1));
        lemma_join_concat(owner, shown.skip(1), sep);
        assert(full_before(authors) + AUTHOR_NAME_SHORT@ + full_after(authors) =~= AUTHOR_NAME_SHORT@ + (sep + join(names.skip(1), sep)));
    } else if k == n - 1 {
        assert(shown =~= shown.take(k) + owner);
        lemma_join_concat(shown.take(k), owner, sep);
    } else {
        assert(shown =~= (shown.take(k) + owner) + shown.skip(k + 1));
        lemma_join_concat(shown.take(k), owner, sep);
        lemma_join_concat(shown.take(k) + owner, shown.skip(k + 1), sep);
        assert(full_before(authors) + AUTHOR_NAME_SHORT@ + full_after(authors) =~= join(shown.take(k), sep) + sep + AUTHOR_NAME_SHORT@ + sep + join(shown.skip(k + 1), sep));
    }
}

} // verus!
