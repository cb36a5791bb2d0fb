//! Output-path mapping.
//!
//! A path is a string whose components are separated by `/`.  The mapper
//! derives the output path for an input file: the input directory prefix is
//! replaced by the output directory, and the file extension is replaced by
//! `webp`.  When the input path does not lie under the input directory, the
//! input path itself is used as the relative component, so that no input is
//! ever rejected here.

use vstd::prelude::*;
use vstd::string::*;

verus! {

/// Index of the last occurrence of `c` in `s`, or `-1` if `c` does not occur.
pub open spec fn last_index_spec(s: Seq<char>, c: char) -> int
    decreases s.len(),
{
    if s.len() == 0 {
        -1
    } else if s.last() == c {
        s.len() - 1
    } else {
        last_index_spec(s.drop_last(), c)
    }
}

pub proof fn lemma_last_index_spec(s: Seq<char>, c: char)
    ensures
        -1 <= last_index_spec(s, c) < s.len(),
        last_index_spec(s, c) >= 0 ==> s[last_index_spec(s, c)] == c,
        forall|j: int| last_index_spec(s, c) < j < s.len() ==> s[j] != c,
    decreases s.len(),
{
    if s.len() == 0 {
    } else if s.last() == c {
    } else {
        lemma_last_index_spec(s.drop_last(), c);
        assert forall|j: int| last_index_spec(s, c) < j < s.len() implies s[j] != c by {
            if j < s.len() - 1 {
                assert(s.drop_last()[j] == s[j]);
            }
        }
    }
}

/// The component after the last separator: the file name.
pub open spec fn file_name_spec(p: Seq<char>) -> Seq<char> {
    p.subrange(last_index_spec(p, '/') + 1, p.len() as int)
}

/// `p` relative to the directory `d`: the remainder after the prefix `d`
/// and its trailing separator.  If `p` does not start with `d` followed by
/// a separator, `p` itself is the relative component.
pub open spec fn relative_spec(p: Seq<char>, d: Seq<char>) -> Seq<char> {
    if d.len() == 0 {
        p
    } else if d.last() == '/' {
        if p.len() > d.len() && p.subrange(0, d.len() as int) == d {
            p.subrange(d.len() as int, p.len() as int)
        } else {
            p
        }
    } else {
        if p.len() > d.len() && p.subrange(0, d.len() as int) == d && p[d.len() as int] == '/' {
            p.subrange(d.len() as int + 1, p.len() as int)
        } else {
            p
        }
    }
}

/// Join a directory and a relative component with a separator.  An absolute
/// component (leading `/`) replaces the directory, as `std`'s path join does.
pub open spec fn join_spec(d: Seq<char>, r: Seq<char>) -> Seq<char> {
    if r.len() > 0 && r[0] == '/' {
        r
    } else if d.len() == 0 {
        r
    } else if r.len() == 0 {
        d
    } else if d.last() == '/' {
        d + r
    } else {
        d + "/"@ + r
    }
}

/// Replace the extension of the file name of `p` by `webp`.  The extension
/// is what follows the last dot of the file name, provided that dot is not
/// the file name's first character; a name without such a dot gets `.webp`
/// appended.
pub open spec fn set_webp_ext_spec(p: Seq<char>) -> Seq<char> {
    let sep = last_index_spec(p, '/');
    let dot = last_index_spec(p, '.');
    if dot >= sep + 2 {
        p.subrange(0, dot + 1) + "webp"@
    } else {
        p + ".webp"@
    }
}

/// The output path for `input`: `input` made relative to `input_dir`,
/// joined onto `output_dir`, with the extension replaced by `webp`.
pub open spec fn output_path_spec(input: Seq<char>, input_dir: Seq<char>, output_dir: Seq<char>) -> Seq<char> {
    set_webp_ext_spec(join_spec(output_dir, relative_spec(input, input_dir)))
}

/// The mapper is deterministic: two invocations on identical arguments
/// yield identical output paths.
pub proof fn lemma_mapper_deterministic(
    input1: Seq<char>,
    input_dir1: Seq<char>,
    output_dir1: Seq<char>,
    input2: Seq<char>,
    input_dir2: Seq<char>,
    output_dir2: Seq<char>,
)
    requires
        input1 == input2,
        input_dir1 == input_dir2,
        output_dir1 == output_dir2,
    ensures
        output_path_spec(input1, input_dir1, output_dir1) == output_path_spec(
            input2,
            input_dir2,
            output_dir2,
        ),
{
}

/// Index of the last occurrence of `c` in `s`, if any.
pub fn last_index_of(s: &str, c: char) -> (r: Option<usize>)
    ensures
        match r {
            Some(i) => i < s@.len() && last_index_spec(s@, c) == i as int,
            None => last_index_spec(s@, c) == -1,
        },
{
    let n = s.unicode_len();
    let mut i = n;
    proof {
        assert(s@.take(n as int) =~= s@);
    }
    while i > 0
        invariant
            i <= n,
            n == s@.len(),
            last_index_spec(s@, c) == last_index_spec(s@.take(i as int), c),
        decreases i,
    {
        i = i - 1;
        if s.get_char(i) == c {
            proof {
                assert(s@.take(i + 1).last() == s@[i as int]);
            }
            return Some(i);
        }
        proof {
            assert(s@.take(i + 1).last() == s@[i as int]);
            assert(s@.take(i + 1).drop_last() =~= s@.take(i as int));
        }
    }
    proof {
        assert(s@.take(0) =~= Seq::<char>::empty());
    }
    None
}

/// Does `p` start with `prefix`?
pub fn starts_with(p: &str, prefix: &str) -> (r: bool)
    ensures
        r == (p@.len() >= prefix@.len() && p@.subrange(0, prefix@.len() as int) == prefix@),
{
    let plen = p.unicode_len();
    let dlen = prefix.unicode_len();
    if plen < dlen {
        return false;
    }
    let mut j: usize = 0;
    while j < dlen
        invariant
            j <= dlen,
            dlen <= plen,
            plen == p@.len(),
            dlen == prefix@.len(),
            forall|k: int| 0 <= k < j ==> p@[k] == prefix@[k],
        decreases dlen - j,
    {
        if p.get_char(j) != prefix.get_char(j) {
            proof {
                assert(p@.subrange(0, prefix@.len() as int)[j as int] == p@[j as int]);
            }
            return false;
        }
        j = j + 1;
    }
    proof {
        assert(p@.subrange(0, prefix@.len() as int) =~= prefix@);
    }
    true
}

/// `p` relative to the directory `d`, per `relative_spec`.
pub fn relative_to(p: &str, d: &str) -> (r: String)
    ensures
        r@ == relative_spec(p@, d@),
{
    let plen = p.unicode_len();
    let dlen = d.unicode_len();
    if dlen == 0 {
        return String::from_str(p);
    }
    if d.get_char(dlen - 1) == '/' {
        if plen > dlen && starts_with(p, d) {
            String::from_str(p.substring_char(dlen, plen))
        } else {
            String::from_str(p)
        }
    } else {
        if plen > dlen && starts_with(p, d) && p.get_char(dlen) == '/' {
            String::from_str(p.substring_char(dlen + 1, plen))
        } else {
            String::from_str(p)
        }
    }
}

/// Join a directory and a relative component, per `join_spec`.
pub fn join_path(d: &str, r: &str) -> (res: String)
    ensures
        res@ == join_spec(d@, r@),
{
    let rlen = r.unicode_len();
    let dlen = d.unicode_len();
    if rlen > 0 && r.get_char(0) == '/' {
        String::from_str(r)
    } else if dlen == 0 {
        String::from_str(r)
    } else if rlen == 0 {
        String::from_str(d)
    } else if d.get_char(dlen - 1) == '/' {
        String::from_str(d).concat(r)
    } else {
        String::from_str(d).concat("/").concat(r)
    }
}

/// Replace the extension of the file name of `p` by `webp`, per
/// `set_webp_ext_spec`.
pub fn set_webp_extension(p: &str) -> (res: String)
    ensures
        res@ == set_webp_ext_spec(p@),
{
    // The character count fits `usize`, so `di + 1` below cannot overflow.
    let _plen = p.unicode_len();
    let sep = last_index_of(p, '/');
    let dot = last_index_of(p, '.');
    proof {
        lemma_last_index_spec(p@, '.');
    }
    match dot {
        Some(di) => {
            let replace = match sep {
                Some(si) => di > si && di - si >= 2,
                None => di >= 1,
            };
            if replace {
                String::from_str(p.substring_char(0, di + 1)).concat("webp")
            } else {
                String::from_str(p).concat(".webp")
            }
        },
        None => String::from_str(p).concat(".webp"),
    }
}

/// The output path for `input`: strip the input directory, join onto the
/// output directory, and replace the extension by `webp`.
pub fn get_output_path(input: &str, input_dir: &str, output_dir: &str) -> (r: String)
    ensures
        r@ == output_path_spec(input@, input_dir@, output_dir@),
{
    let rel = relative_to(input, input_dir);
    let joined = join_path(output_dir, rel.as_str());
    set_webp_extension(joined.as_str())
}

/// The file name of `p`: the component after the last separator.
pub fn file_name_of(p: &str) -> (r: String)
    ensures
        r@ == file_name_spec(p@),
{
    let plen = p.unicode_len();
    match last_index_of(p, '/') {
        Some(i) => String::from_str(p.substring_char(i + 1, plen)),
        None => {
            proof {
                assert(p@.subrange(0, p@.len() as int) =~= p@);
            }
            String::from_str(p)
        },
    }
}

} // verus!
