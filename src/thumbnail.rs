//! Matching bibliography entries to thumbnail images by file name.
use vstd::prelude::*;

verus! {

/// The stem of a file path: its file name without the last extension, as
/// `std::path::Path::file_stem` gives it.
pub uninterp spec fn path_stem(path: Seq<char>) -> Option<Seq<char>>;

/// Relies on `std::path::Path::file_stem`, which depends on the path text
/// alone.
#[verifier::external_body]
fn file_stem(path: &str) -> (r: Option<String>)
    ensures
        match r {
            Some(s) => path_stem(path@) == Some(s@),
            None => path_stem(path@) is None,
        },
{
    match std::path::Path::new(path).file_stem() {
        Some(stem) => Some(stem.to_string_lossy().into_owned()),
        None => None,
    }
}

pub open spec fn option_view(o: Option<String>) -> Option<Seq<char>> {
    match o {
        Some(s) => Some(s@),
        None => None,
    }
}

/// The first index from `i` on whose stem is `key`.
pub open spec fn first_stem_from(stems: Seq<Option<Seq<char>>>, key: Seq<char>, i: int) -> Option<int>
    decreases stems.len() - i,
{
    if i < 0 || i >= stems.len() {
        None
    } else if stems[i] == Some(key) {
        Some(i)
    } else {
        first_stem_from(stems, key, i + 1)
    }
}

/// The index of the first asset whose file stem equals `key`.
pub open spec fn thumbnail_spec(paths: Seq<Seq<char>>, key: Seq<char>) -> Option<int> {
    first_stem_from(paths.map_values(|p: Seq<char>| path_stem(p)), key, 0)
}

/// The index of the first stem that equals `key`.
pub fn first_matching_stem(stems: &Vec<Option<String>>, key: &str) -> (r: Option<usize>)
    ensures
        match r {
            Some(i) => first_stem_from(stems@.map_values(|o: Option<String>| option_view(o)), key@, 0) == Some(i as int),
            None => first_stem_from(stems@.map_values(|o: Option<String>| option_view(o)), key@, 0) is None,
        },
{
    let ghost all = stems@.map_values(|o: Option<String>| option_view(o));
    let mut i: usize = 0;
    while i < stems.len()
        invariant
            all == stems@.map_values(|o: Option<String>| option_view(o)),
            i <= stems.len(),
            first_stem_from(all, key@, 0) == first_stem_from(all, key@, i as int),
        decreases stems.len() - i,
    {
        let found = match &stems[i] {
            Some(stem) => crate::text::str_eq(stem.as_str(), key),
            None => false,
        };
        if found {
            return Some(i);
        }
        i = i + 1;
    }
    None
}

/// Finds the thumbnail of an entry: the first of the asset paths whose file
/// stem equals the entry's key.
pub fn find_thumbnail(paths: &Vec<String>, key: &str) -> (r: Option<usize>)
    ensures
        match r {
            Some(i) => thumbnail_spec(crate::text::views(paths@), key@) == Some(i as int),
            None => thumbnail_spec(crate::text::views(paths@), key@) is None,
        },
{
    let mut stems: Vec<Option<String>> = Vec::new();
    let mut i: usize = 0;
    while i < paths.len()
        invariant
            i <= paths.len(),
            stems@.len() == i,
            forall|k: int| 0 <= k < i ==> option_view(#[trigger] stems@[k]) == path_stem(paths@[k]@),
        decreases paths.len() - i,
    {
        let stem = file_stem(paths[i].as_str());
        stems.push(stem);
        i = i + 1;
    }
    assert(stems@.map_values(|o: Option<String>| option_view(o)) =~= crate::text::views(paths@).map_values(
        |p: Seq<char>| path_stem(p),
    ));
    first_matching_stem(&stems, key)
}

} // verus!
