//! Minute sets and their canonical slice lists: the model of normalization.
//!
//! A session is normalized by projecting its slices to the whole shifted
//! minutes they cover and coalescing each maximal run of consecutive minutes
//! into one slice. This module says what that list is and proves that it is
//! the one and only sorted, separated, minute-aligned list that covers
//! exactly the given minutes.

use crate::slice::Span;
use vstd::prelude::*;

verus! {

/// Minutes from here on cannot be covered: a slice ends before the day does.
pub const MINUTE_LIMIT: u16 = 1439;

/// Whether some span of `slices` covers minute `m`.
pub open spec fn covered_by(slices: Seq<Span>, m: int) -> bool {
    exists|i: int| 0 <= i < slices.len() && #[trigger] slices[i].covers_minute(m)
}

/// The minutes that the spans of `slices` cover, taken together.
pub open spec fn covered_minutes(slices: Seq<Span>) -> Set<u16> {
    Set::new(|m: u16| covered_by(slices, m as int))
}

/// Every minute of the set can be covered by a slice.
pub open spec fn in_reach(minutes: Set<u16>) -> bool {
    forall|m: u16| minutes.contains(m) ==> m < 1439
}

/// Every span is valid.
pub open spec fn all_valid(slices: Seq<Span>) -> bool {
    forall|i: int| 0 <= i < slices.len() ==> (#[trigger] slices[i]).valid()
}

/// Begin and end stand on whole minutes.
pub open spec fn aligned(s: Span) -> bool {
    s.begin % 60 == 0 && s.end % 60 == 0
}

/// The maximal runs of consecutive minutes of `minutes` below minute `n`, in
/// rising order, each as the span from its first minute to the minute after
/// its last.
pub open spec fn runs_below(minutes: Set<u16>, n: int) -> Seq<Span>
    decreases n,
{
    if n <= 0 {
        Seq::empty()
    } else {
        let before = runs_below(minutes, n - 1);
        if !minutes.contains((n - 1) as u16) {
            before
        } else if before.len() > 0 && before.last().end == (n - 1) * 60 {
            before.drop_last().push(Span { begin: before.last().begin, end: n * 60 })
        } else {
            before.push(Span { begin: (n - 1) * 60, end: n * 60 })
        }
    }
}

/// The canonical slice list of a minute set.
pub open spec fn canonical_slices(minutes: Set<u16>) -> Seq<Span> {
    runs_below(minutes, 1439)
}

/// Sorted by begin, and no span touches or overlaps the next.
pub open spec fn separated(slices: Seq<Span>) -> bool {
    forall|i: int, j: int|
        0 <= i < j < slices.len() ==> (#[trigger] slices[i]).end < (#[trigger] slices[j]).begin
}

/// `slices` is valid, minute-aligned, sorted and separated, and covers
/// exactly `minutes`.
pub open spec fn is_canonical(slices: Seq<Span>, minutes: Set<u16>) -> bool {
    &&& all_valid(slices)
    &&& forall|i: int| 0 <= i < slices.len() ==> aligned(#[trigger] slices[i])
    &&& separated(slices)
    &&& covered_minutes(slices) =~= minutes
}

/// A list with one more span covers what the list covers and what the span
/// covers.
pub proof fn lemma_covered_push(r: Seq<Span>, x: Span, m: int)
    ensures
        covered_by(r.push(x), m) <==> covered_by(r, m) || x.covers_minute(m),
{
    let p = r.push(x);
    if covered_by(r, m) {
        let i = choose|i: int| 0 <= i < r.len() && #[trigger] r[i].covers_minute(m);
        assert(p[i].covers_minute(m));
    }
    if x.covers_minute(m) {
        assert(p[r.len() as int].covers_minute(m));
    }
}

proof fn lemma_covered_drop_last(r: Seq<Span>, m: int)
    requires
        r.len() > 0,
    ensures
        covered_by(r, m) <==> covered_by(r.drop_last(), m) || r.last().covers_minute(m),
{
    assert(r =~= r.drop_last().push(r.last()));
    lemma_covered_push(r.drop_last(), r.last(), m);
}

/// The shape of the runs below `n`: aligned spans that end by minute `n`, in
/// rising order and apart, covering the minutes of the set below `n` and no
/// others.
pub proof fn lemma_runs_shape(minutes: Set<u16>, n: int)
    requires
        0 <= n <= 1439,
    ensures
        forall|i: int|
            0 <= i < runs_below(minutes, n).len() ==> {
                let s = #[trigger] runs_below(minutes, n)[i];
                aligned(s) && 0 <= s.begin < s.end <= n * 60
            },
        separated(runs_below(minutes, n)),
        forall|m: int|
            0 <= m < 65536 ==> (#[trigger] covered_by(runs_below(minutes, n), m) <==> m < n
                && minutes.contains(m as u16)),
    decreases n,
{
    let r = runs_below(minutes, n);
    if n > 0 {
        lemma_runs_shape(minutes, n - 1);
        let before = runs_below(minutes, n - 1);
        assert forall|m: int| 0 <= m < 65536 implies (#[trigger] covered_by(r, m) <==> m < n
            && minutes.contains(m as u16)) by {
            if !minutes.contains((n - 1) as u16) {
            } else if before.len() > 0 && before.last().end == (n - 1) * 60 {
                // The last run grows by one minute.
                let grown = Span { begin: before.last().begin, end: n * 60 };
                lemma_covered_push(before.drop_last(), grown, m);
                lemma_covered_drop_last(before, m);
            } else {
                // A run of one minute begins.
                lemma_covered_push(before, Span { begin: (n - 1) * 60, end: n * 60 }, m);
            }
        }
    }
}

/// Where the set has no minute from `a` up to `b`, the runs below `b` are
/// those below `a`.
pub proof fn lemma_runs_gap(minutes: Set<u16>, a: int, b: int)
    requires
        0 <= a <= b <= 1439,
        forall|x: int| a <= x < b ==> !minutes.contains(#[trigger] (x as u16)),
    ensures
        runs_below(minutes, b) == runs_below(minutes, a),
    decreases b - a,
{
    if a < b {
        lemma_runs_gap(minutes, a, b - 1);
    }
}

/// Where the set has every minute from `a` up to `b` and not the one before
/// `a`, the runs below `b` are those below `a` and then the run from `a` to `b`.
pub proof fn lemma_runs_fill(minutes: Set<u16>, a: int, b: int)
    requires
        0 <= a < b <= 1439,
        forall|x: int| a <= x < b ==> minutes.contains(#[trigger] (x as u16)),
        a > 0 ==> !minutes.contains((a - 1) as u16),
    ensures
        runs_below(minutes, b) == runs_below(minutes, a).push(Span { begin: a * 60, end: b * 60 }),
    decreases b - a,
{
    if b == a + 1 {
        if a > 0 {
            // The runs below `a` end before minute `a`: none is there to grow.
            lemma_runs_shape(minutes, a - 1);
        }
    } else {
        lemma_runs_fill(minutes, a, b - 1);
    }
}

/// Valid spans cover only minutes that are in reach.
pub proof fn lemma_covered_in_reach(slices: Seq<Span>)
    requires
        all_valid(slices),
    ensures
        in_reach(covered_minutes(slices)),
{
}

/// The canonical slice list of a minute set in reach is canonical for it:
/// valid, minute-aligned, sorted, separated, and covering exactly the set.
pub proof fn lemma_canonical_slices_canonical(minutes: Set<u16>)
    requires
        in_reach(minutes),
    ensures
        is_canonical(canonical_slices(minutes), minutes),
{
    lemma_runs_shape(minutes, 1439);
}

/// The minute at which the first `k` spans of `s` are done.
pub open spec fn done_minute(s: Seq<Span>, k: int) -> int {
    if k <= 0 {
        0
    } else {
        s[k - 1].end / 60
    }
}

/// The runs below the minute at which the first `k` spans of a canonical
/// list are done are these `k` spans.
proof fn lemma_prefix_runs(s: Seq<Span>, minutes: Set<u16>, k: int)
    requires
        is_canonical(s, minutes),
        0 <= k <= s.len(),
    ensures
        0 <= done_minute(s, k) <= 1439,
        runs_below(minutes, done_minute(s, k)) == s.take(k),
    decreases k,
{
    if k > 0 {
        lemma_prefix_runs(s, minutes, k - 1);
        let cur = s[k - 1];
        let from = done_minute(s, k - 1);
        let a = cur.begin / 60;
        let b = cur.end / 60;
        // Nothing of the set lies between the span before and this one.
        assert forall|x: int| from <= x < a implies !minutes.contains(#[trigger] (x as u16)) by {
            lemma_not_covered_between(s, k - 1, x);
        }
        lemma_runs_gap(minutes, from, a);
        // The span is one run of the set.
        assert forall|x: int| a <= x < b implies minutes.contains(#[trigger] (x as u16)) by {
            assert(cur.covers_minute(x));
        }
        if a > 0 {
            lemma_not_covered_between(s, k - 1, a - 1);
        }
        lemma_runs_fill(minutes, a, b);
    }
}

/// In a canonical list, no span covers a minute that lies before span `k`
/// begins and not before the span ahead of it ends.
proof fn lemma_not_covered_between(s: Seq<Span>, k: int, x: int)
    requires
        all_valid(s),
        forall|i: int| 0 <= i < s.len() ==> aligned(#[trigger] s[i]),
        separated(s),
        0 <= k < s.len(),
        x < s[k].begin / 60,
        k > 0 ==> s[k - 1].end <= x * 60,
    ensures
        !covered_by(s, x),
{
}

/// A list that is canonical for a minute set is the canonical slice list of
/// that set: there is no other.
pub proof fn lemma_canonical_unique(s: Seq<Span>, minutes: Set<u16>)
    requires
        is_canonical(s, minutes),
    ensures
        s == canonical_slices(minutes),
{
    let n = s.len() as int;
    lemma_prefix_runs(s, minutes, n);
    let done = done_minute(s, n);
    // Nothing of the set lies after the last span.
    assert forall|x: int| done <= x < 1439 implies !minutes.contains(#[trigger] (x as u16)) by {
        if covered_by(s, x) {
            let j = choose|j: int| 0 <= j < s.len() && #[trigger] s[j].covers_minute(x);
            assert(s[j].end <= s[n - 1].end);
        }
    }
    lemma_runs_gap(minutes, done, 1439);
}

/// Two minute-aligned spans of which the second begins where the first
/// ends, or before that, are merged into one.
pub proof fn lemma_touching_spans_merge(first: Span, second: Span)
    requires
        first.valid(),
        second.valid(),
        aligned(first),
        aligned(second),
        first.begin <= second.begin <= first.end <= second.end,
    ensures
        canonical_slices(covered_minutes(seq![first, second])) == seq![
            Span { begin: first.begin, end: second.end },
        ],
{
    let raw = seq![first, second];
    let merged = seq![Span { begin: first.begin, end: second.end }];
    assert forall|m: u16| covered_minutes(merged).contains(m) <==> covered_minutes(raw).contains(
        m,
    ) by {
        if merged[0].covers_minute(m as int) {
            if m < first.end / 60 {
                assert(raw[0].covers_minute(m as int));
            } else {
                assert(raw[1].covers_minute(m as int));
            }
        }
        if covered_by(raw, m as int) {
            let i = choose|i: int| 0 <= i < raw.len() && #[trigger] raw[i].covers_minute(m as int);
            assert(merged[0].covers_minute(m as int));
        }
    }
    lemma_canonical_unique(merged, covered_minutes(raw));
}

/// Normalizing twice gives what normalizing once gives: the canonical list
/// of the minutes that a canonical list covers is that list.
pub proof fn lemma_canonical_idempotent(slices: Seq<Span>)
    requires
        all_valid(slices),
    ensures
        canonical_slices(covered_minutes(canonical_slices(covered_minutes(slices))))
            == canonical_slices(covered_minutes(slices)),
{
    let minutes = covered_minutes(slices);
    lemma_covered_in_reach(slices);
    lemma_canonical_slices_canonical(minutes);
}

/// A minute set in reach is read back unchanged from its canonical list.
pub proof fn lemma_minutes_round_trip(minutes: Set<u16>)
    requires
        in_reach(minutes),
    ensures
        covered_minutes(canonical_slices(minutes)) == minutes,
{
    lemma_canonical_slices_canonical(minutes);
}

} // verus!
