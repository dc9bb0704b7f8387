//! Route synthesis: which vertices of a template path, walked as a closed
//! loop, make up a track of a requested length.
//!
//! The template is given by its hops: `hops[i]` is the distance from vertex
//! `i - 1` to vertex `i`, and `hops[0]` the closing hop from the last vertex
//! back to the first, all in one unit. The track starts at vertex 0, which
//! covers no distance, and goes on vertex by vertex, from the last back to the
//! first, until the distance covered reaches the target.

use vstd::arithmetic::div_mod::{lemma_mod_multiples_vanish, lemma_small_mod};
use vstd::prelude::*;

verus! {

/// Why no track can be synthesized.
#[derive(Debug, Clone, Copy, PartialEq, Eq, Structural)]
pub enum RouteError {
    /// The template has no vertex.
    EmptyTemplate,
    /// Every hop of the template is zero, so no distance can be covered.
    NoDistance,
}

/// The distance covered by the first `m` points of the track: the hops into
/// points `1 .. m`, point `k` being vertex `k % n`.
pub open spec fn walked(hops: Seq<u64>, m: nat) -> int
    decreases m,
{
    if m <= 1 || hops.len() == 0 {
        0
    } else {
        walked(hops, (m - 1) as nat) + hops[(m - 1) as int % hops.len() as int]
    }
}

/// The sum of a list of distances.
pub open spec fn total(s: Seq<u64>) -> int
    decreases s.len(),
{
    if s.len() == 0 {
        0
    } else {
        total(s.drop_last()) + s.last()
    }
}

/// The length of the template path itself: every hop but the closing one.
pub open spec fn path_length(hops: Seq<u64>) -> int {
    total(hops.drop_first())
}

/// The length of the closed loop: every hop.
pub open spec fn loop_length(hops: Seq<u64>) -> int {
    total(hops)
}

/// The longest hop.
pub open spec fn max_hop(hops: Seq<u64>) -> int
    decreases hops.len(),
{
    if hops.len() == 0 {
        0
    } else if max_hop(hops.drop_last()) >= hops.last() {
        max_hop(hops.drop_last())
    } else {
        hops.last() as int
    }
}

/// `v` is the track of `target`: vertex `k % n` at position `k`, and exactly
/// as many points as it takes for the distance covered to reach the target.
pub open spec fn is_track(hops: Seq<u64>, target: int, v: Seq<usize>) -> bool {
    &&& v.len() >= 1
    &&& forall|k: int| 0 <= k < v.len() ==> #[trigger] v[k] as int == k % hops.len() as int
    &&& walked(hops, v.len()) >= target
    &&& forall|m: nat| 1 <= m < v.len() ==> #[trigger] walked(hops, m) < target
}

/// The hops from index `i` on.
spec fn suffix_total(hops: Seq<u64>, i: int) -> int
    decreases hops.len() - i,
{
    if i >= hops.len() || i < 0 {
        0
    } else {
        hops[i] + suffix_total(hops, i + 1)
    }
}

proof fn lemma_suffix_total_bounds(hops: Seq<u64>, i: int)
    requires
        0 <= i <= hops.len(),
    ensures
        0 <= suffix_total(hops, i) <= suffix_total(hops, 0),
        i < hops.len() ==> hops[i] <= suffix_total(hops, 0),
    decreases i,
{
    lemma_suffix_total_nonneg(hops, i);
    lemma_suffix_total_nonneg(hops, i + 1);
    if i > 0 {
        lemma_suffix_total_bounds(hops, i - 1);
    }
}

proof fn lemma_suffix_total_nonneg(hops: Seq<u64>, i: int)
    ensures
        suffix_total(hops, i) >= 0,
    decreases hops.len() - i,
{
    if 0 <= i < hops.len() {
        lemma_suffix_total_nonneg(hops, i + 1);
    }
}

/// `total` over a prefix, one hop longer.
proof fn lemma_total_prefix(s: Seq<u64>, i: int)
    requires
        0 <= i < s.len(),
    ensures
        total(s.subrange(0, i + 1)) == total(s.subrange(0, i)) + s[i],
{
    assert(s.subrange(0, i + 1).drop_last() =~= s.subrange(0, i));
}

/// A prefix total and the suffix after it make the whole.
proof fn lemma_total_split(s: Seq<u64>, i: int)
    requires
        0 <= i <= s.len(),
    ensures
        total(s.subrange(0, i)) + suffix_total(s, i) == total(s),
    decreases s.len() - i,
{
    if i == s.len() {
        assert(s.subrange(0, i) =~= s);
    } else {
        lemma_total_split(s, i + 1);
        lemma_total_prefix(s, i);
    }
}

/// Synthesizes a track for `target` over the template of `hops`: the
/// template vertex of each point, in order.
///
/// It fails where the template is empty, or where the target is positive and
/// every hop is zero.
pub fn synthesize_route(hops: &Vec<u64>, target: u64) -> (r: Result<Vec<usize>, RouteError>)
    ensures
        hops@.len() == 0 ==> r == Err::<Vec<usize>, RouteError>(RouteError::EmptyTemplate),
        hops@.len() > 0 && target > 0 && loop_length(hops@) == 0 ==> r == Err::<
            Vec<usize>,
            RouteError,
        >(RouteError::NoDistance),
        hops@.len() > 0 && (target == 0 || loop_length(hops@) > 0) ==> r is Ok,
        r is Ok ==> is_track(hops@, target as int, r->Ok_0@),
{
    let n = hops.len();
    if n == 0 {
        return Err(RouteError::EmptyTemplate);
    }
    let mut out: Vec<usize> = Vec::new();
    out.push(0);
    proof {
        lemma_small_mod(0, n as nat);
    }
    if target == 0 {
        return Ok(out);
    }
    let mut j: usize = 0;
    while j < n && hops[j] == 0
        invariant
            j <= n,
            n == hops@.len(),
            forall|q: int| 0 <= q < j ==> hops@[q] == 0,
        decreases n - j,
    {
        j = j + 1;
    }
    if j == n {
        proof {
            lemma_total_zero(hops@);
        }
        return Err(RouteError::NoDistance);
    }
    proof {
        lemma_suffix_total_bounds(hops@, j as int);
        lemma_total_split(hops@, 0);
        assert(hops@.subrange(0, 0) =~= Seq::<u64>::empty());
    }
    let ghost loop_len = suffix_total(hops@, 0);
    let ghost mut cycles: int = 0;
    let mut remaining: u64 = target;
    let mut i: usize = if n == 1 { 0 } else { 1 };
    proof {
        if n == 1 {
            cycles = 1;
        }
        if n > 1 {
            lemma_small_mod(1, n as nat);
        }
        lemma_mod_multiples_vanish(1, 0, n as int);
    }
    loop
        invariant
            n == hops@.len(),
            n > 0,
            loop_len == suffix_total(hops@, 0),
            loop_len == loop_length(hops@),
            loop_len > 0,
            0 <= i < n,
            out@.len() == n * cycles + i,
            cycles >= 0,
            out@.len() >= 1,
            0 < remaining <= target,
            walked(hops@, out@.len()) == target - remaining,
            forall|k: int| 0 <= k < out@.len() ==> #[trigger] out@[k] as int == k % n as int,
            forall|m: nat| 1 <= m <= out@.len() ==> #[trigger] walked(hops@, m) < target,
        decreases remaining + loop_len - suffix_total(hops@, i as int), n - i,
    {
        proof {
            lemma_mod_multiples_vanish(cycles, i as int, n as int);
            lemma_small_mod(i as nat, n as nat);
            lemma_suffix_total_bounds(hops@, i as int);
            lemma_suffix_total_bounds(hops@, i + 1);
        }
        let ghost before = out@;
        let d = hops[i];
        out.push(i);
        assert(walked(hops@, out@.len()) == walked(hops@, before.len()) + d);
        if d >= remaining {
            return Ok(out);
        }
        remaining = remaining - d;
        if i + 1 == n {
            i = 0;
            proof {
                assert(n as int * (cycles + 1) == n as int * cycles + n as int) by (nonlinear_arith);
                cycles = cycles + 1;
            }
        } else {
            i = i + 1;
        }
    }
}

proof fn lemma_total_zero(s: Seq<u64>)
    requires
        forall|q: int| 0 <= q < s.len() ==> s[q] == 0,
    ensures
        total(s) == 0,
    decreases s.len(),
{
    if s.len() > 0 {
        lemma_total_zero(s.drop_last());
    }
}

proof fn lemma_hop_at_most_max(hops: Seq<u64>, k: int)
    requires
        0 <= k < hops.len(),
    ensures
        hops[k] <= max_hop(hops),
    decreases hops.len(),
{
    if k < hops.len() - 1 {
        lemma_hop_at_most_max(hops.drop_last(), k);
    }
}

proof fn lemma_positive_total_max(s: Seq<u64>)
    requires
        total(s) > 0,
    ensures
        max_hop(s) > 0,
    decreases s.len(),
{
    if s.last() == 0 {
        lemma_positive_total_max(s.drop_last());
    }
}

proof fn lemma_walked_monotone(hops: Seq<u64>, a: nat, b: nat)
    requires
        a <= b,
    ensures
        walked(hops, a) <= walked(hops, b),
    decreases b,
{
    if a < b {
        lemma_walked_monotone(hops, a, (b - 1) as nat);
    }
}

proof fn lemma_walked_first_pass(hops: Seq<u64>, m: nat)
    requires
        1 <= m <= hops.len(),
    ensures
        walked(hops, m) == total(hops.subrange(1, m as int)),
    decreases m,
{
    if m == 1 {
        assert(hops.subrange(1, 1) =~= Seq::<u64>::empty());
    } else {
        lemma_walked_first_pass(hops, (m - 1) as nat);
        lemma_small_mod((m - 1) as nat, hops.len());
        assert(hops.subrange(1, m as int).drop_last() =~= hops.subrange(1, m - 1));
    }
}

/// A track covers at least its target, and passes it by less than the
/// longest hop, wherever some hop is positive.
pub proof fn lemma_track_distance(hops: Seq<u64>, target: int, v: Seq<usize>)
    requires
        is_track(hops, target, v),
        loop_length(hops) > 0,
        target >= 0,
    ensures
        v.len() >= 1,
        target <= walked(hops, v.len()) < target + max_hop(hops),
{
    lemma_positive_total_max(hops);
    if v.len() >= 2 {
        let m = (v.len() - 1) as nat;
        assert(walked(hops, m) < target);
        let k = m as int % hops.len() as int;
        lemma_hop_at_most_max(hops, k);
    }
}

/// A track whose target is longer than the template path walks past the
/// template's last vertex: it has more points than the template has vertices.
pub proof fn lemma_track_loops(hops: Seq<u64>, target: int, v: Seq<usize>)
    requires
        hops.len() > 0,
        is_track(hops, target, v),
        target > path_length(hops),
    ensures
        v.len() > hops.len(),
{
    lemma_walked_first_pass(hops, hops.len());
    assert(hops.subrange(1, hops.len() as int) =~= hops.drop_first());
    if v.len() <= hops.len() {
        lemma_walked_monotone(hops, v.len(), hops.len());
    }
}

} // verus!
