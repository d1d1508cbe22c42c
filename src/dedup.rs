//! Near-duplicate detection over fingerprints, with a "first occurrence wins" policy.

use vstd::prelude::*;

use crate::fingerprint::{hamming_distance, popcount};

verus! {

/// Largest Hamming distance (of 64 bits) at which two images count as duplicates.
pub const DUPLICATE_MAX_DISTANCE: u32 = 6;

/// Both fingerprints exist and differ in at most `max_distance` bits.
pub open spec fn is_near(a: Option<u64>, b: Option<u64>, max_distance: nat) -> bool {
    &&& a is Some
    &&& b is Some
    &&& popcount(a->0 ^ b->0) <= max_distance
}

/// Which of the first `n` items are removed: item `j` is removed exactly when some
/// earlier item that is kept is near it. Items without a fingerprint are never
/// compared, so they are never removed and never cause a removal.
pub open spec fn removal_flags(fps: Seq<Option<u64>>, max_distance: nat, n: nat) -> Seq<bool>
    decreases n,
{
    if n == 0 {
        seq![]
    } else {
        let prev = removal_flags(fps, max_distance, (n - 1) as nat);
        prev.push(
            exists|i: int|
                0 <= i < n - 1 && !prev[i] && #[trigger] is_near(
                    fps[i],
                    fps[n - 1],
                    max_distance,
                ),
        )
    }
}

proof fn lemma_flags_len(fps: Seq<Option<u64>>, max_distance: nat, n: nat)
    ensures
        removal_flags(fps, max_distance, n).len() == n,
    decreases n,
{
    if n > 0 {
        lemma_flags_len(fps, max_distance, (n - 1) as nat);
    }
}

proof fn lemma_flags_prefix(fps: Seq<Option<u64>>, max_distance: nat, m: nat, n: nat)
    requires
        m <= n,
    ensures
        removal_flags(fps, max_distance, n).len() == n,
        removal_flags(fps, max_distance, n).take(m as int) == removal_flags(fps, max_distance, m),
    decreases n,
{
    lemma_flags_len(fps, max_distance, n);
    lemma_flags_len(fps, max_distance, m);
    if m < n {
        lemma_flags_prefix(fps, max_distance, m, (n - 1) as nat);
        assert(removal_flags(fps, max_distance, n).take(m as int) == removal_flags(
            fps,
            max_distance,
            (n - 1) as nat,
        ).take(m as int));
    } else {
        assert(removal_flags(fps, max_distance, n).take(m as int) == removal_flags(
            fps,
            max_distance,
            n,
        ));
    }
}

/// `a` comes no later than `b` in character order: compared character by character
/// by code point, a proper prefix first.
pub open spec fn str_le(a: Seq<char>, b: Seq<char>) -> bool
    decreases a.len(),
{
    if a.len() == 0 {
        true
    } else if b.len() == 0 {
        false
    } else if a[0] != b[0] {
        (a[0] as u32) < (b[0] as u32)
    } else {
        str_le(a.skip(1), b.skip(1))
    }
}

pub open spec fn string_views(v: Seq<String>) -> Seq<Seq<char>> {
    v.map_values(|s: String| s@)
}

/// Relies on `slice::sort` for `String`: it keeps every element and orders them by
/// `str`'s `Ord`, which compares UTF-8 bytes and so orders code points.
#[verifier::external_body]
fn sort_strings(v: &mut Vec<String>)
    ensures
        string_views(final(v)@).to_multiset() == string_views(old(v)@).to_multiset(),
        final(v)@.len() == old(v)@.len(),
        forall|i: int, j: int|
            0 <= i < j < final(v)@.len() ==> str_le(
                #[trigger] final(v)@[i]@,
                #[trigger] final(v)@[j]@,
            ),
{
    v.sort()
}

/// The paths in character order, so that the outcome of deduplication does not
/// depend on the order in which they were found.
pub fn sort_paths(paths: Vec<String>) -> (r: Vec<String>)
    ensures
        string_views(r@).to_multiset() == string_views(paths@).to_multiset(),
        r@.len() == paths@.len(),
        forall|i: int, j: int| 0 <= i < j < r@.len() ==> str_le(#[trigger] r@[i]@, #[trigger] r@[j]@),
{
    let mut v = paths;
    sort_strings(&mut v);
    v
}

/// Marks the items to remove, given the fingerprints of paths in sorted order
/// (`None` where an image could not be decoded): an item is marked when an earlier,
/// unmarked item lies within `max_distance` bits of it.
pub fn select_duplicates(fingerprints: &Vec<Option<u64>>, max_distance: u32) -> (r: Vec<bool>)
    ensures
        r@ == removal_flags(fingerprints@, max_distance as nat, fingerprints@.len()),
{
    let n = fingerprints.len();
    let mut removed: Vec<bool> = Vec::new();
    let mut j: usize = 0;
    while j < n
        invariant
            n == fingerprints@.len(),
            j <= n,
            removed@ == removal_flags(fingerprints@, max_distance as nat, j as nat),
        decreases n - j,
    {
        proof {
            lemma_flags_len(fingerprints@, max_distance as nat, j as nat);
        }
        let mut dup = false;
        let mut i: usize = 0;
        while i < j
            invariant
                n == fingerprints@.len(),
                i <= j < n,
                removed@.len() == j,
                dup <==> exists|k: int|
                    0 <= k < i && !removed@[k] && #[trigger] is_near(
                        fingerprints@[k],
                        fingerprints@[j as int],
                        max_distance as nat,
                    ),
            decreases j - i,
        {
            let near: bool = match (fingerprints[i], fingerprints[j]) {
                (Some(a), Some(b)) => hamming_distance(a, b) <= max_distance,
                _ => false,
            };
            assert(near == is_near(
                fingerprints@[i as int],
                fingerprints@[j as int],
                max_distance as nat,
            ));
            if !removed[i] && near {
                dup = true;
            }
            i = i + 1;
        }
        removed.push(dup);
        j = j + 1;
    }
    removed
}

/// The first item is never removed.
pub proof fn first_item_is_kept(fps: Seq<Option<u64>>, max_distance: nat)
    requires
        fps.len() > 0,
    ensures
        !removal_flags(fps, max_distance, fps.len())[0],
{
    lemma_flags_prefix(fps, max_distance, 1, fps.len());
    let all = removal_flags(fps, max_distance, fps.len());
    let one = removal_flags(fps, max_distance, 1);
    assert(all.take(1)[0] == all[0]);
    reveal_with_fuel(removal_flags, 2);
    assert(!one[0]);
}

/// Items that survive are pairwise farther apart than `max_distance`, and every removed
/// item is near an earlier survivor.
pub proof fn survivors_are_distinct(fps: Seq<Option<u64>>, max_distance: nat, i: int, j: int)
    requires
        0 <= i < j < fps.len(),
    ensures
        !removal_flags(fps, max_distance, fps.len())[i] && !removal_flags(
            fps,
            max_distance,
            fps.len(),
        )[j] ==> !is_near(fps[i], fps[j], max_distance),
        removal_flags(fps, max_distance, fps.len())[j] ==> exists|k: int|
            0 <= k < j && !removal_flags(fps, max_distance, fps.len())[k] && #[trigger] is_near(
                fps[k],
                fps[j],
                max_distance,
            ),
{
    let all = removal_flags(fps, max_distance, fps.len());
    let upto = removal_flags(fps, max_distance, (j + 1) as nat);
    lemma_flags_prefix(fps, max_distance, (j + 1) as nat, fps.len());
    lemma_flags_prefix(fps, max_distance, j as nat, (j + 1) as nat);
    assert(all[j] == upto[j]);
    assert(all[i] == upto[i]);
    let prev = removal_flags(fps, max_distance, j as nat);
    assert(upto == prev.push(
        exists|k: int| 0 <= k < j && !prev[k] && #[trigger] is_near(fps[k], fps[j], max_distance),
    ));
    assert forall|k: int| 0 <= k < j implies prev[k] == all[k] by {
        assert(prev[k] == upto[k]);
    }
}

} // verus!
