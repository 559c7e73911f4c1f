//! Minutes in rising order, as a walk over an ordered set yields them.

use vstd::prelude::*;
use vstd::std_specs::btree::increasing_seq;
use vstd::std_specs::cmp::OrdSpec;

verus! {

/// Each element is below the next.
pub open spec fn strictly_increasing(s: Seq<u16>) -> bool {
    forall|i: int, j: int| 0 <= i < j < s.len() ==> s[i] < s[j]
}

/// References that rise by the order of their type point to values that rise.
pub proof fn lemma_increasing_keys(refs: Seq<&u16>)
    requires
        increasing_seq(refs),
    ensures
        strictly_increasing(refs.unref()),
{
    let keys = refs.unref();
    assert forall|i: int, j: int| 0 <= i < j < keys.len() implies keys[i] < keys[j] by {
        assert(OrdSpec::cmp_spec(&refs[i], &refs[j]) is Less);
    }
}

/// An element that lies strictly between two neighbours of a rising
/// sequence, or before its first or after its last, is not in it.
pub proof fn lemma_no_key_between(keys: Seq<u16>, k: int, x: u16)
    requires
        strictly_increasing(keys),
        0 <= k <= keys.len(),
        k > 0 ==> keys[k - 1] < x,
        k < keys.len() ==> x < keys[k],
    ensures
        !keys.to_set().contains(x),
{
    if keys.contains(x) {
        let t = choose|t: int| 0 <= t < keys.len() && keys[t] == x;
        if t < k {
            if t < k - 1 {
                assert(keys[t] < keys[k - 1]);
            }
        } else {
            if t > k {
                assert(keys[k] < keys[t]);
            }
        }
    }
}

} // verus!
