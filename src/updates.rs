//! The updates feed: dated news items, newest first, and the geometry of the
//! timeline that shows them.
use vstd::prelude::*;

use crate::order::{into_slots, key_lt, sorted_order, take_in_order, SortKey};

verus! {

/// A calendar date.
#[derive(Clone, Copy, Debug, PartialEq, Eq, Structural)]
pub struct UpdateDate {
    pub year: i32,
    /// From 1 to 12.
    pub month: u32,
    /// From 1 to 31.
    pub day: u32,
}

/// Whether `a` is a later date than `b`.
pub open spec fn later(a: UpdateDate, b: UpdateDate) -> bool {
    ||| a.year > b.year
    ||| a.year == b.year && a.month > b.month
    ||| a.year == b.year && a.month == b.month && a.day > b.day
}

/// Whether `a` is a later date than `b`.
pub fn is_later(a: UpdateDate, b: UpdateDate) -> (r: bool)
    ensures
        r == later(a, b),
{
    if a.year != b.year {
        a.year > b.year
    } else if a.month != b.month {
        a.month > b.month
    } else {
        a.day > b.day
    }
}

/// One item of the updates feed.
#[derive(Clone, Debug, PartialEq, Eq)]
pub struct UpdateEntry {
    pub date: UpdateDate,
    pub title: String,
    /// A short text shown under the title.
    pub highlights: String,
    /// A longer text shown on hover.
    pub description: String,
    /// Where the item leads.
    pub url: String,
}

/// Whether `r` is `v` ordered newest first, items of the same date in the
/// order of `v`, with `p[i]` the place in `v` of the item at place `i` of `r`.
pub open spec fn is_stable_newest_first(v: Seq<UpdateEntry>, r: Seq<UpdateEntry>, p: Seq<int>) -> bool {
    &&& r.len() == v.len()
    &&& p.len() == r.len()
    &&& forall|i: int| 0 <= i < r.len() ==> 0 <= #[trigger] p[i] < v.len() && r[i] == v[p[i]]
    &&& forall|i: int, j: int| 0 <= i < r.len() && 0 <= j < r.len() && i != j ==> #[trigger] p[i] != #[trigger] p[j]
    &&& forall|i: int, j: int| 0 <= i < j < r.len() ==> {
        ||| later((#[trigger] r[i]).date, (#[trigger] r[j]).date)
        ||| r[i].date == r[j].date && p[i] < p[j]
    }
}

/// The sort key of item `i`: its date negated, so that the latest date comes
/// first, then its index.
pub open spec fn update_key(e: UpdateEntry, i: int) -> SortKey {
    ((-(e.date.year as int)) as i64, (-(e.date.month as int)) as i64, (-(e.date.day as int)) as i64, i as usize)
}

/// Whether no item is dated later than one before it.
pub open spec fn dates_never_increase(s: Seq<UpdateEntry>) -> bool {
    forall|i: int, j: int| 0 <= i < j < s.len() ==> !later((#[trigger] s[j]).date, (#[trigger] s[i]).date)
}

/// The updates feed, newest first.
pub struct Updates {
    entries: Vec<UpdateEntry>,
}

impl View for Updates {
    type V = Seq<UpdateEntry>;

    closed spec fn view(&self) -> Seq<UpdateEntry> {
        self.entries@
    }
}

impl Updates {
    #[verifier::type_invariant]
    spec fn inv(self) -> bool {
        dates_never_increase(self.entries@)
    }

    /// Orders the items newest first; items of the same date keep their
    /// order.
    pub fn from_entries(v: Vec<UpdateEntry>) -> (r: Updates)
        ensures
            exists|p: Seq<int>| is_stable_newest_first(v@, r@, p),
    {
        let n = v.len();
        let mut keys: Vec<SortKey> = Vec::new();
        let mut k: usize = 0;
        while k < n
            invariant
                n == v@.len(),
                k <= n,
                keys@.len() == k,
                forall|i: int| 0 <= i < k ==> #[trigger] keys@[i] == update_key(v@[i], i),
            decreases n - k,
        {
            let d = v[k].date;
            keys.push((-(d.year as i64), -(d.month as i64), -(d.day as i64), k));
            k = k + 1;
        }
        let ghost key_seq = keys@;
        let order = sorted_order(keys);
        let ghost orig = v@;
        let slots = into_slots(v);
        let entries = take_in_order(slots, &order);
        let ghost p = order@.map_values(|i: usize| i as int);
        proof {
            assert forall|t: int| 0 <= t < entries@.len() implies 0 <= #[trigger] p[t] < orig.len() && entries@[t] == orig[p[t]] by {
                assert(Some(entries@[t]) == slots@[order@[t] as int]);
            }
            assert forall|a: int, b: int| 0 <= a < entries@.len() && 0 <= b < entries@.len() && a != b implies #[trigger] p[a] != #[trigger] p[b] by {
                assert(order@[a] != order@[b]);
            }
            assert forall|a: int, b: int| 0 <= a < b < entries@.len() implies {
                ||| later((#[trigger] entries@[a]).date, (#[trigger] entries@[b]).date)
                ||| entries@[a].date == entries@[b].date && p[a] < p[b]
            } by {
                assert(Some(entries@[a]) == slots@[order@[a] as int]);
                assert(Some(entries@[b]) == slots@[order@[b] as int]);
                assert(key_lt(key_seq[order@[a] as int], key_seq[order@[b] as int]));
                assert(key_seq[order@[a] as int] == update_key(orig[order@[a] as int], order@[a] as int));
                assert(key_seq[order@[b] as int] == update_key(orig[order@[b] as int], order@[b] as int));
            }
        }
        assert(dates_never_increase(entries@));
        let r = Updates { entries };
        assert(is_stable_newest_first(orig, r@, p));
        r
    }

    /// The number of items.
    pub fn len(&self) -> (r: usize)
        ensures
            r == self@.len(),
    {
        self.entries.len()
    }

    /// Whether there are no items.
    pub fn is_empty(&self) -> (r: bool)
        ensures
            r == (self@.len() == 0),
    {
        self.entries.len() == 0
    }

    /// An iterator over the items, newest first.
    pub fn iter(&self) -> (r: std::slice::Iter<'_, UpdateEntry>)
        ensures
            vstd::std_specs::slice::into_iter_elts(r) == self@,
    {
        broadcast use vstd::std_specs::slice::axiom_spec_slice_iter;
        self.entries.iter()
    }

    /// The items, newest first.
    pub fn entries(&self) -> (r: &Vec<UpdateEntry>)
        ensures
            r@ == self@,
            dates_never_increase(self@),
    {
        proof {
            use_type_invariant(self);
        }
        &self.entries
    }
}

/// The measures of the timeline, in whole logical pixels.
#[derive(Clone, Copy, Debug, PartialEq, Eq, Structural)]
pub struct TimelineStyle {
    /// Radius of the circle that marks each item.
    pub circle_radius: i32,
    /// Width of the lines; the date sits this far above the stub.
    pub line_width: i32,
    /// Vertical distance between two items.
    pub vertical_spacing: i32,
    /// Length of the horizontal stub from the spine to the text.
    pub horizontal_line_length: i32,
    /// Gap between the end of the stub and the text.
    pub text_line_offset: i32,
    /// How far below the title the highlights text sits.
    pub highlight_offset: i32,
}

/// The side of the spine on which an item's text stands.
#[derive(Clone, Copy, Debug, PartialEq, Eq, Structural)]
pub enum Side {
    /// Left of the spine, the text aligned to its right end.
    Left,
    /// Right of the spine, the text aligned to its left end.
    Right,
}

/// Where the parts of one timeline item are drawn.
#[derive(Clone, Copy, Debug, PartialEq, Eq, Structural)]
pub struct ItemLayout {
    pub side: Side,
    /// Centre of the marker circle, on the spine.
    pub center_x: i128,
    pub center_y: i128,
    /// The end of the stub, away from the spine.
    pub stub_end_x: i128,
    /// Anchor of the title, centred vertically on the stub.
    pub title_x: i128,
    pub title_y: i128,
    /// Anchor of the highlights text, under the title.
    pub highlight_x: i128,
    pub highlight_y: i128,
    /// Anchor of the bottom centre of the date text, above the stub's middle.
    pub date_x: i128,
    pub date_y: i128,
    /// The box of the marker circle.
    pub marker_min_x: i128,
    pub marker_min_y: i128,
    pub marker_max_x: i128,
    pub marker_max_y: i128,
}

/// The side of item `index`: left for even indices, right for odd ones.
pub open spec fn side_of(index: int) -> Side {
    if index % 2 == 0 { Side::Left } else { Side::Right }
}

/// Half of `v`, rounded toward zero.
pub open spec fn half(v: int) -> int {
    if v >= 0 { v / 2 } else { -((-v) / 2) }
}

pub open spec fn sign_of(side: Side) -> int {
    match side {
        Side::Left => -1,
        Side::Right => 1,
    }
}

/// Whether `l` is the layout of item `index` in a timeline whose region
/// starts at `top`, with its spine at `spine_x`.
pub open spec fn is_item_layout(l: ItemLayout, style: TimelineStyle, top: int, spine_x: int, index: int) -> bool {
    let s = sign_of(side_of(index));
    let r = style.circle_radius as int;
    let cy = top + index * style.vertical_spacing + r;
    &&& l.side == side_of(index)
    &&& l.center_x == spine_x
    &&& l.center_y == cy
    &&& l.stub_end_x == spine_x + s * style.horizontal_line_length
    &&& l.title_x == spine_x + s * style.horizontal_line_length + s * style.text_line_offset
    &&& l.title_y == cy
    &&& l.highlight_x == l.title_x
    &&& l.highlight_y == cy + style.highlight_offset
    &&& l.date_x == spine_x + s * half(style.horizontal_line_length + r)
    &&& l.date_y == cy - style.line_width
    &&& l.marker_min_x == spine_x - r
    &&& l.marker_min_y == cy - r
    &&& l.marker_max_x == spine_x + r
    &&& l.marker_max_y == cy + r
}

/// The height of a timeline of `count` items.
pub fn timeline_height(count: u32, vertical_spacing: i32) -> (r: i128)
    ensures
        r == count * vertical_spacing,
        -0x1_0000_0000 * 0x8000_0000 <= r <= 0x1_0000_0000 * 0x8000_0000,
{
    assert(-0x1_0000_0000 * 0x8000_0000 <= count * vertical_spacing <= 0x1_0000_0000 * 0x8000_0000) by (nonlinear_arith)
        requires 0 <= count < 0x1_0000_0000, -0x8000_0000 <= vertical_spacing < 0x8000_0000;
    count as i128 * vertical_spacing as i128
}

/// The spine of a timeline of `count` items whose region starts at `top`:
/// from `top` down to the last item's row. Nothing is drawn for no items.
pub fn spine(style: TimelineStyle, top: i32, count: u32) -> (r: Option<(i128, i128)>)
    ensures
        count == 0 ==> r is None,
        count > 0 ==> r == Some((top as i128, (top + (count - 1) * style.vertical_spacing) as i128)),
{
    if count == 0 {
        return None;
    }
    let h = timeline_height(count - 1, style.vertical_spacing);
    Some((top as i128, top as i128 + h))
}

/// Where the parts of item `index` are drawn, in a timeline whose region
/// starts at `top`, with its spine at `spine_x`.
pub fn item_layout(style: TimelineStyle, top: i32, spine_x: i32, index: u32) -> (r: ItemLayout)
    ensures
        is_item_layout(r, style, top as int, spine_x as int, index as int),
{
    let side = if index % 2 == 0 { Side::Left } else { Side::Right };
    let s: i128 = if index % 2 == 0 { -1 } else { 1 };
    let r = style.circle_radius as i128;
    let row = timeline_height(index, style.vertical_spacing);
    let cy = top as i128 + row + r;
    let x = spine_x as i128;
    let len = style.horizontal_line_length as i128;
    let stub_end_x = x + s * len;
    let title_x = stub_end_x + s * style.text_line_offset as i128;
    let sum = len + r;
    let half = if sum >= 0 { sum / 2 } else { -((-sum) / 2) };
    ItemLayout {
        side,
        center_x: x,
        center_y: cy,
        stub_end_x,
        title_x,
        title_y: cy,
        highlight_x: title_x,
        highlight_y: cy + style.highlight_offset as i128,
        date_x: x + s * half,
        date_y: cy - style.line_width as i128,
        marker_min_x: x - r,
        marker_min_y: cy - r,
        marker_max_x: x + r,
        marker_max_y: cy + r,
    }
}

} // verus!
