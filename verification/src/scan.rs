//! Candidate selection for the directory scan.
//!
//! The walk of the input tree yields one entry per directory member; this
//! module keeps exactly the regular files whose extension, compared without
//! regard to ASCII case, is one of the supported raster-image extensions.
//! File contents are not inspected: a non-image file with a matching
//! extension is kept as a candidate and fails later, at decode time.

use vstd::prelude::*;
use vstd::string::*;
use crate::paths::{last_index_spec, lemma_last_index_spec, last_index_of};

verus! {

/// One member of the input tree, as the walk reports it.
pub struct ScanEntry {
    /// Path of the member, relative to the walk root or absolute.
    pub path: String,
    /// Whether the member is a regular file (directories and other
    /// non-file members are never candidates).
    pub is_file: bool,
}

/// The code of `c` with an ASCII capital letter folded to its small form.
pub open spec fn lower_code(c: char) -> int {
    if 65 <= c as int <= 90 {
        c as int + 32
    } else {
        c as int
    }
}

/// Equality of two strings up to ASCII case.
pub open spec fn eq_ignore_ascii_case(a: Seq<char>, b: Seq<char>) -> bool {
    a.len() == b.len() && forall|i: int| 0 <= i < a.len() ==> lower_code(a[i]) == lower_code(b[i])
}

/// Is `e` one of the supported raster-image extensions, up to ASCII case?
pub open spec fn supported_extension(e: Seq<char>) -> bool {
    ||| eq_ignore_ascii_case(e, "jpg"@)
    ||| eq_ignore_ascii_case(e, "jpeg"@)
    ||| eq_ignore_ascii_case(e, "png"@)
    ||| eq_ignore_ascii_case(e, "gif"@)
    ||| eq_ignore_ascii_case(e, "bmp"@)
    ||| eq_ignore_ascii_case(e, "tiff"@)
    ||| eq_ignore_ascii_case(e, "tif"@)
}

/// The extension of the file name of `p`: what follows the last dot,
/// provided that dot belongs to the file name and is not its first
/// character.
pub open spec fn extension_spec(p: Seq<char>) -> Option<Seq<char>> {
    let sep = last_index_spec(p, '/');
    let dot = last_index_spec(p, '.');
    if dot >= sep + 2 {
        Some(p.subrange(dot + 1, p.len() as int))
    } else {
        None
    }
}

/// Is the file at `p` a conversion candidate by its extension?
pub open spec fn is_candidate(p: Seq<char>) -> bool {
    match extension_spec(p) {
        Some(e) => supported_extension(e),
        None => false,
    }
}

/// Is this entry selected by the scan: a regular file with a supported
/// extension?
pub open spec fn entry_selected(e: ScanEntry) -> bool {
    e.is_file && is_candidate(e.path@)
}

/// The paths of the selected entries, in order of appearance.
pub open spec fn candidates_spec(entries: Seq<ScanEntry>) -> Seq<Seq<char>>
    decreases entries.len(),
{
    if entries.len() == 0 {
        Seq::empty()
    } else if entry_selected(entries.last()) {
        candidates_spec(entries.drop_last()).push(entries.last().path@)
    } else {
        candidates_spec(entries.drop_last())
    }
}

/// How often `p` occurs in a sequence of paths.
pub open spec fn path_count(paths: Seq<Seq<char>>, p: Seq<char>) -> nat
    decreases paths.len(),
{
    if paths.len() == 0 {
        0
    } else {
        path_count(paths.drop_last(), p) + if paths.last() == p {
            1nat
        } else {
            0nat
        }
    }
}

/// How many entries are selected and carry the path `p`.
pub open spec fn selected_count(entries: Seq<ScanEntry>, p: Seq<char>) -> nat
    decreases entries.len(),
{
    if entries.len() == 0 {
        0
    } else {
        selected_count(entries.drop_last(), p) + if entry_selected(entries.last())
            && entries.last().path@ == p {
            1nat
        } else {
            0nat
        }
    }
}

/// Every path occurs in the scan output exactly as often as a selected
/// entry carries it.  In particular, a regular file with a supported
/// extension that occurs once among the entries occurs exactly once in
/// the output, and a path with an unsupported extension never occurs.
pub proof fn lemma_scan_exactly_once(entries: Seq<ScanEntry>, p: Seq<char>)
    ensures
        path_count(candidates_spec(entries), p) == selected_count(entries, p),
    decreases entries.len(),
{
    if entries.len() == 0 {
    } else {
        lemma_scan_exactly_once(entries.drop_last(), p);
        if entry_selected(entries.last()) {
            assert(candidates_spec(entries).drop_last() =~= candidates_spec(
                entries.drop_last(),
            ));
        }
    }
}

/// A path whose extension is unsupported never occurs in the scan output.
pub proof fn lemma_scan_excludes_non_candidates(entries: Seq<ScanEntry>, p: Seq<char>)
    requires
        !is_candidate(p),
    ensures
        path_count(candidates_spec(entries), p) == 0,
    decreases entries.len(),
{
    lemma_scan_exactly_once(entries, p);
    lemma_selected_count_zero(entries, p);
}

proof fn lemma_selected_count_zero(entries: Seq<ScanEntry>, p: Seq<char>)
    requires
        !is_candidate(p),
    ensures
        selected_count(entries, p) == 0,
    decreases entries.len(),
{
    if entries.len() > 0 {
        lemma_selected_count_zero(entries.drop_last(), p);
    }
}

/// Equality of two strings up to ASCII case.
pub fn str_eq_ignore_ascii_case(a: &str, b: &str) -> (r: bool)
    ensures
        r == eq_ignore_ascii_case(a@, b@),
{
    let alen = a.unicode_len();
    let blen = b.unicode_len();
    if alen != blen {
        return false;
    }
    let mut i: usize = 0;
    while i < alen
        invariant
            i <= alen,
            alen == a@.len(),
            alen == b@.len(),
            forall|k: int| 0 <= k < i ==> lower_code(a@[k]) == lower_code(b@[k]),
        decreases alen - i,
    {
        let ca = a.get_char(i) as u32;
        let cb = b.get_char(i) as u32;
        let la = if 65 <= ca && ca <= 90 {
            ca + 32
        } else {
            ca
        };
        let lb = if 65 <= cb && cb <= 90 {
            cb + 32
        } else {
            cb
        };
        if la != lb {
            return false;
        }
        i = i + 1;
    }
    true
}

/// The extension of the file name of `p`, per `extension_spec`.
pub fn extension_of(p: &str) -> (r: Option<&str>)
    ensures
        match r {
            Some(e) => extension_spec(p@) == Some(e@),
            None => extension_spec(p@) is None,
        },
{
    let plen = p.unicode_len();
    let sep = last_index_of(p, '/');
    let dot = last_index_of(p, '.');
    proof {
        lemma_last_index_spec(p@, '.');
    }
    match dot {
        Some(di) => {
            let in_name = match sep {
                Some(si) => di > si && di - si >= 2,
                None => di >= 1,
            };
            if in_name {
                Some(p.substring_char(di + 1, plen))
            } else {
                None
            }
        },
        None => None,
    }
}

/// Is the file at `p` a conversion candidate: does its extension match one
/// of the supported raster-image extensions, without regard to ASCII case?
pub fn has_supported_extension(p: &str) -> (r: bool)
    ensures
        r == is_candidate(p@),
{
    match extension_of(p) {
        Some(e) => {
            str_eq_ignore_ascii_case(e, "jpg") || str_eq_ignore_ascii_case(e, "jpeg")
                || str_eq_ignore_ascii_case(e, "png") || str_eq_ignore_ascii_case(e, "gif")
                || str_eq_ignore_ascii_case(e, "bmp") || str_eq_ignore_ascii_case(e, "tiff")
                || str_eq_ignore_ascii_case(e, "tif")
        },
        None => false,
    }
}

/// Keep the paths of the regular files with a supported extension, in
/// order of appearance.
pub fn filter_candidates(entries: &Vec<ScanEntry>) -> (r: Vec<String>)
    ensures
        r.deep_view() == candidates_spec(entries@),
{
    let mut r: Vec<String> = Vec::new();
    let mut i: usize = 0;
    proof {
        assert(entries@.take(0) =~= Seq::<ScanEntry>::empty());
    }
    while i < entries.len()
        invariant
            i <= entries@.len(),
            r.deep_view() == candidates_spec(entries@.take(i as int)),
        decreases entries@.len() - i,
    {
        let e = &entries[i];
        proof {
            assert(entries@.take(i + 1).drop_last() =~= entries@.take(i as int));
            assert(entries@.take(i + 1).last() == entries@[i as int]);
        }
        if e.is_file && has_supported_extension(e.path.as_str()) {
            r.push(e.path.clone());
            proof {
                assert(r.deep_view() =~= candidates_spec(entries@.take(i + 1)));
            }
        }
        i = i + 1;
    }
    proof {
        assert(entries@.take(entries@.len() as int) =~= entries@);
    }
    r
}

} // verus!
