//! The skip filter: idempotent re-runs.
//!
//! A candidate whose mapped output path already exists is skipped; the
//! rest become conversion tasks.  The existence check and the eventual
//! write are not atomic, so a concurrent invocation over the same output
//! tree can still duplicate work: the filter is a best-effort idempotence
//! mechanism, not a lock.

use vstd::prelude::*;

verus! {

/// The candidates whose output does not yet exist, in order.  `files`
/// and `ex` are read in step: `ex[i]` says whether the mapped output of
/// `files[i]` exists.
pub open spec fn pending_spec(files: Seq<Seq<char>>, ex: Seq<bool>) -> Seq<Seq<char>>
    decreases files.len(),
{
    if files.len() == 0 || ex.len() == 0 {
        Seq::empty()
    } else if ex.last() {
        pending_spec(files.drop_last(), ex.drop_last())
    } else {
        pending_spec(files.drop_last(), ex.drop_last()).push(files.last())
    }
}

/// How many outputs already exist: the skipped count.
pub open spec fn count_true(ex: Seq<bool>) -> nat
    decreases ex.len(),
{
    if ex.len() == 0 {
        0
    } else {
        count_true(ex.drop_last()) + if ex.last() {
            1nat
        } else {
            0nat
        }
    }
}

/// Every candidate is either kept or skipped: the pending set and the
/// skipped count partition the candidates.
pub proof fn lemma_pending_partition(files: Seq<Seq<char>>, ex: Seq<bool>)
    requires
        files.len() == ex.len(),
    ensures
        pending_spec(files, ex).len() + count_true(ex) == files.len(),
    decreases files.len(),
{
    if files.len() > 0 {
        lemma_pending_partition(files.drop_last(), ex.drop_last());
    }
}

/// A re-run over an unchanged tree with the previous outputs intact
/// converts nothing: when every output exists, no candidate is pending
/// and all are skipped.
pub proof fn lemma_rerun_converts_nothing(files: Seq<Seq<char>>, ex: Seq<bool>)
    requires
        files.len() == ex.len(),
        forall|i: int| 0 <= i < ex.len() ==> ex[i],
    ensures
        pending_spec(files, ex).len() == 0,
        count_true(ex) == files.len(),
    decreases files.len(),
{
    if files.len() > 0 {
        assert(ex.last());
        lemma_rerun_converts_nothing(files.drop_last(), ex.drop_last());
    }
}

/// Partition the candidates into the files still to convert and the count
/// of those already converted.  `exists[i]` reports whether the mapped
/// output path of `files[i]` already exists.
pub fn filter_already_converted(files: &Vec<String>, exists: &Vec<bool>) -> (r: (Vec<String>, usize))
    requires
        files@.len() == exists@.len(),
    ensures
        r.0.deep_view() == pending_spec(files.deep_view(), exists@),
        r.1 == count_true(exists@),
        r.0@.len() + r.1 == files@.len(),
{
    let n = files.len();
    let mut to_convert: Vec<String> = Vec::new();
    let mut skipped: usize = 0;
    let mut i: usize = 0;
    proof {
        assert(files.deep_view().take(0) =~= Seq::<Seq<char>>::empty());
        assert(exists@.take(0) =~= Seq::<bool>::empty());
    }
    while i < n
        invariant
            i <= n,
            n == files@.len(),
            n == exists@.len(),
            files.deep_view().len() == n,
            to_convert.deep_view() == pending_spec(
                files.deep_view().take(i as int),
                exists@.take(i as int),
            ),
            skipped == count_true(exists@.take(i as int)),
            to_convert@.len() + skipped == i,
        decreases n - i,
    {
        proof {
            assert(files.deep_view().take(i + 1).drop_last() =~= files.deep_view().take(i as int));
            assert(exists@.take(i + 1).drop_last() =~= exists@.take(i as int));
            assert(files.deep_view().take(i + 1).last() == files.deep_view()[i as int]);
            assert(exists@.take(i + 1).last() == exists@[i as int]);
        }
        if exists[i] {
            skipped = skipped + 1;
        } else {
            to_convert.push(files[i].clone());
            proof {
                assert(to_convert.deep_view() =~= pending_spec(
                    files.deep_view().take(i + 1),
                    exists@.take(i + 1),
                ));
            }
        }
        i = i + 1;
    }
    proof {
        assert(files.deep_view().take(n as int) =~= files.deep_view());
        assert(exists@.take(n as int) =~= exists@);
        lemma_pending_partition(files.deep_view(), exists@);
    }
    (to_convert, skipped)
}

} // verus!
