//! Stars-and-bars enumeration of allocation weights.
//!
//! A candidate is a vector of step counts, one per protocol, whose entries sum
//! to the number of steps in 100%. The weight of protocol `i` is `k[i]` steps of
//! `step_pct` percent each.

use vstd::prelude::*;

verus! {

/// Number of grid steps that make up 100% at the given step size.
pub open spec fn total_steps(step_pct: nat) -> nat
    recommends
        step_pct > 0,
{
    100nat / step_pct
}

/// Candidates for axes `depth..caps.len()` with `remaining` steps left to place,
/// where the value of axis `depth` runs from `w` up to `min(caps[depth], remaining)`.
/// The last axis takes what remains, when its cap allows it.
pub open spec fn grid_level(caps: Seq<usize>, depth: nat, remaining: nat, w: nat) -> Seq<Seq<usize>>
    decreases caps.len() - depth, remaining + 1 - w,
    when depth < caps.len()
{
    if depth + 1 == caps.len() {
        if remaining <= caps[depth as int] {
            seq![seq![remaining as usize]]
        } else {
            Seq::empty()
        }
    } else if w > remaining || w > caps[depth as int] {
        Seq::empty()
    } else {
        prefixed(seq![w as usize], grid_level(caps, depth + 1, (remaining - w) as nat, 0))
            + grid_level(caps, depth, remaining, w + 1)
    }
}

/// Each candidate of `g` with `p` put in front of it.
pub open spec fn prefixed(p: Seq<usize>, g: Seq<Seq<usize>>) -> Seq<Seq<usize>> {
    g.map_values(|c: Seq<usize>| p + c)
}

/// The step vectors held in a list of candidates.
pub open spec fn candidates(v: Seq<Vec<usize>>) -> Seq<Seq<usize>> {
    v.map_values(|c: Vec<usize>| c@)
}

/// Every axis capped at the whole of the steps: the unbounded grid.
pub open spec fn uniform_caps(n: nat, steps: nat) -> Seq<usize> {
    Seq::new(n, |i: int| steps as usize)
}

/// All step vectors of length `n` summing to `100 / step_pct`, in the order of
/// a depth-first walk that raises the earlier axes last.
pub open spec fn weight_grid(n: nat, step_pct: nat) -> Seq<Seq<usize>> {
    grid_level(uniform_caps(n, total_steps(step_pct)), 0, total_steps(step_pct), 0)
}

/// Per-axis caps in steps: the percentage cap in whole steps, at most the total.
pub open spec fn step_caps(max_weights_pct: Seq<usize>, step_pct: nat) -> Seq<usize> {
    Seq::new(
        max_weights_pct.len(),
        |i: int|
            if (max_weights_pct[i] as nat) / step_pct <= total_steps(step_pct) {
                ((max_weights_pct[i] as nat) / step_pct) as usize
            } else {
                total_steps(step_pct) as usize
            },
    )
}

/// The grid restricted to candidates whose axis `i` holds at most
/// `max_weights_pct[i]` percent, same order.
pub open spec fn bounded_weight_grid(max_weights_pct: Seq<usize>, step_pct: nat) -> Seq<Seq<usize>> {
    grid_level(step_caps(max_weights_pct, step_pct), 0, total_steps(step_pct), 0)
}

/// Sum of the entries of a step vector.
pub open spec fn steps_sum(c: Seq<usize>) -> int
    decreases c.len(),
{
    if c.len() == 0 {
        0
    } else {
        c[0] + steps_sum(c.drop_first())
    }
}

/// Binomial coefficient, by Pascal's rule.
pub open spec fn binomial(n: nat, k: nat) -> nat
    decreases n,
{
    if k == 0 {
        1
    } else if n == 0 {
        0
    } else {
        binomial((n - 1) as nat, (k - 1) as nat) + binomial((n - 1) as nat, k)
    }
}

fn fill_grid(
    caps: &Vec<usize>,
    depth: usize,
    remaining: usize,
    current: &mut Vec<usize>,
    out: &mut Vec<Vec<usize>>,
)
    requires
        depth < caps@.len(),
        old(current)@.len() == depth,
        remaining < usize::MAX,
    ensures
        final(current)@ == old(current)@,
        candidates(final(out)@) == candidates(old(out)@) + prefixed(
            old(current)@,
            grid_level(caps@, depth as nat, remaining as nat, 0),
        ),
    decreases caps@.len() - depth,
{
    let ghost cur0 = current@;
    let ghost out0 = candidates(out@);
    let n: usize = caps.len();
    if depth == n - 1 {
        if remaining <= caps[depth] {
            current.push(remaining);
            let candidate = current.clone();
            proof {
                assert(candidate@ =~= cur0 + seq![remaining]);
            }
            out.push(candidate);
            current.pop();
            proof {
                assert(current@ =~= cur0);
                assert(prefixed(cur0, grid_level(caps@, depth as nat, remaining as nat, 0))
                    =~= seq![cur0 + seq![remaining]]);
                assert(candidates(out@) =~= out0 + seq![cur0 + seq![remaining]]);
            }
        } else {
            proof {
                assert(prefixed(cur0, grid_level(caps@, depth as nat, remaining as nat, 0))
                    =~= Seq::<Seq<usize>>::empty());
                assert(candidates(out@) =~= out0 + Seq::<Seq<usize>>::empty());
            }
        }
        return;
    }
    let max_for_this: usize = if caps[depth] < remaining {
        caps[depth]
    } else {
        remaining
    };
    let mut w: usize = 0;
    let ghost mut done: Seq<Seq<usize>> = Seq::empty();
    while w <= max_for_this
        invariant
            n == caps@.len(),
            depth < n - 1,
            cur0.len() == depth,
            max_for_this <= remaining < usize::MAX,
            max_for_this <= caps@[depth as int],
            max_for_this == remaining || max_for_this == caps@[depth as int],
            w <= max_for_this + 1,
            current@ == cur0,
            done + grid_level(caps@, depth as nat, remaining as nat, w as nat) == grid_level(
                caps@,
                depth as nat,
                remaining as nat,
                0,
            ),
            candidates(out@) == out0 + prefixed(cur0, done),
        decreases max_for_this + 1 - w,
    {
        let ghost out1 = candidates(out@);
        let ghost sub = grid_level(caps@, (depth + 1) as nat, (remaining - w) as nat, 0);
        let ghost part = prefixed(seq![w], sub);
        proof {
            assert(grid_level(caps@, depth as nat, remaining as nat, w as nat) == part
                + grid_level(caps@, depth as nat, remaining as nat, (w + 1) as nat));
        }
        current.push(w);
        proof {
            assert(current@ =~= cur0 + seq![w]);
        }
        fill_grid(caps, depth + 1, remaining - w, current, out);
        current.pop();
        proof {
            assert(current@ =~= cur0);
            assert(prefixed(cur0 + seq![w], sub) =~= prefixed(cur0, part)) by {
                assert forall|i: int| 0 <= i < sub.len() implies (cur0 + seq![w]) + sub[i] =~= cur0
                    + (seq![w] + sub[i]) by {}
            }
            assert(prefixed(cur0, done + part) =~= prefixed(cur0, done) + prefixed(cur0, part));
            assert(candidates(out@) == out1 + prefixed(cur0 + seq![w], sub));
            assert(out1 + prefixed(cur0, part) =~= out0 + prefixed(cur0, done + part));
            assert((done + part) + grid_level(caps@, depth as nat, remaining as nat, (w + 1) as nat)
                =~= done + grid_level(caps@, depth as nat, remaining as nat, w as nat));
            done = done + part;
        }
        w = w + 1;
    }
    proof {
        assert(grid_level(caps@, depth as nat, remaining as nat, w as nat) =~= Seq::<
            Seq<usize>,
        >::empty());
        assert(done =~= grid_level(caps@, depth as nat, remaining as nat, 0));
    }
}

/// Every step vector of length `n_protocols` whose entries sum to
/// `100 / step_pct`, each exactly once, in a fixed depth-first order.
pub fn generate_weight_grid(n_protocols: usize, step_pct: usize) -> (r: Vec<Vec<usize>>)
    requires
        n_protocols >= 1,
        step_pct >= 1,
    ensures
        candidates(r@) == weight_grid(n_protocols as nat, step_pct as nat),
{
    let n_steps: usize = 100 / step_pct;
    let mut caps: Vec<usize> = Vec::new();
    let mut i: usize = 0;
    while i < n_protocols
        invariant
            i <= n_protocols,
            n_steps == total_steps(step_pct as nat),
            caps@ == uniform_caps(i as nat, n_steps as nat),
        decreases n_protocols - i,
    {
        caps.push(n_steps);
        i = i + 1;
        proof {
            assert(caps@ =~= uniform_caps(i as nat, n_steps as nat));
        }
    }
    let mut current: Vec<usize> = Vec::new();
    let mut weights: Vec<Vec<usize>> = Vec::new();
    fill_grid(&caps, 0, n_steps, &mut current, &mut weights);
    proof {
        let g = weight_grid(n_protocols as nat, step_pct as nat);
        assert(prefixed(Seq::<usize>::empty(), g) =~= g) by {
            assert forall|j: int| 0 <= j < g.len() implies Seq::<usize>::empty() + g[j] =~= g[j] by {}
        }
        assert(candidates(weights@) =~= Seq::<Seq<usize>>::empty() + g);
    }
    weights
}

/// The step vectors of the grid whose axis `i` is at most `max_weights_pct[i]`
/// percent (in whole steps, and never more than the total), in grid order.
pub fn generate_bounded_weight_grid(
    n_protocols: usize,
    step_pct: usize,
    max_weights_pct: &[usize],
) -> (r: Vec<Vec<usize>>)
    requires
        n_protocols >= 1,
        step_pct >= 1,
        max_weights_pct@.len() == n_protocols,
    ensures
        candidates(r@) == bounded_weight_grid(max_weights_pct@, step_pct as nat),
{
    let total: usize = 100 / step_pct;
    let mut max_steps: Vec<usize> = Vec::new();
    let mut i: usize = 0;
    while i < max_weights_pct.len()
        invariant
            i <= max_weights_pct@.len(),
            step_pct >= 1,
            total == total_steps(step_pct as nat),
            max_steps@ =~= step_caps(max_weights_pct@, step_pct as nat).subrange(0, i as int),
        decreases max_weights_pct@.len() - i,
    {
        let s: usize = max_weights_pct[i] / step_pct;
        let cap: usize = if s <= total {
            s
        } else {
            total
        };
        max_steps.push(cap);
        i = i + 1;
    }
    let mut current: Vec<usize> = Vec::new();
    let mut results: Vec<Vec<usize>> = Vec::new();
    fill_grid(&max_steps, 0, total, &mut current, &mut results);
    proof {
        let g = bounded_weight_grid(max_weights_pct@, step_pct as nat);
        assert(max_steps@ =~= step_caps(max_weights_pct@, step_pct as nat));
        assert(prefixed(Seq::<usize>::empty(), g) =~= g) by {
            assert forall|j: int| 0 <= j < g.len() implies Seq::<usize>::empty() + g[j] =~= g[j] by {}
        }
        assert(candidates(results@) =~= Seq::<Seq<usize>>::empty() + g);
    }
    results
}

proof fn lemma_grid_level_shape(caps: Seq<usize>, depth: nat, remaining: nat, w: nat)
    requires
        depth < caps.len(),
    ensures
        forall|i: int|
            #![trigger grid_level(caps, depth, remaining, w)[i]]
            0 <= i < grid_level(caps, depth, remaining, w).len() ==> {
                let c = grid_level(caps, depth, remaining, w)[i];
                &&& c.len() == caps.len() - depth
                &&& steps_sum(c) == remaining
                &&& forall|j: int| 0 <= j < c.len() ==> c[j] <= caps[depth + j]
            },
    decreases caps.len() - depth, remaining + 1 - w,
{
    let g = grid_level(caps, depth, remaining, w);
    if depth + 1 == caps.len() {
        if remaining <= caps[depth as int] {
            let c = seq![remaining as usize];
            assert(c.drop_first() =~= Seq::<usize>::empty());
            assert(steps_sum(Seq::<usize>::empty()) == 0);
            assert(steps_sum(c) == remaining);
        }
    } else if w > remaining || w > caps[depth as int] {
    } else {
        let sub = grid_level(caps, depth + 1, (remaining - w) as nat, 0);
        let rest = grid_level(caps, depth, remaining, w + 1);
        lemma_grid_level_shape(caps, depth + 1, (remaining - w) as nat, 0);
        lemma_grid_level_shape(caps, depth, remaining, w + 1);
        assert forall|i: int| 0 <= i < g.len() implies {
            let c = #[trigger] g[i];
            &&& c.len() == caps.len() - depth
            &&& steps_sum(c) == remaining
            &&& forall|j: int| 0 <= j < c.len() ==> c[j] <= caps[depth + j]
        } by {
            if i < sub.len() {
                let c = g[i];
                assert(c == seq![w as usize] + sub[i]);
                assert(c.drop_first() =~= sub[i]);
                assert forall|j: int| 0 <= j < c.len() implies c[j] <= caps[depth + j] by {
                    if j > 0 {
                        assert(c[j] == sub[i][j - 1]);
                    }
                }
            } else {
                assert(g[i] == rest[i - sub.len()]);
            }
        }
    }
}

/// Every candidate of the unbounded grid has one entry per protocol, and its
/// entries sum to exactly `100 / step_pct` steps: the weights of a candidate
/// make up the whole of the assets, with no round-off in the step counts.
pub proof fn lemma_grid_candidates_sum(n: nat, step_pct: nat)
    requires
        n >= 1,
        step_pct >= 1,
    ensures
        forall|i: int|
            0 <= i < weight_grid(n, step_pct).len() ==> (#[trigger] weight_grid(n, step_pct)[i]).len()
                == n && steps_sum(weight_grid(n, step_pct)[i]) == total_steps(step_pct),
{
    lemma_grid_level_shape(uniform_caps(n, total_steps(step_pct)), 0, total_steps(step_pct), 0);
}

/// Every candidate of the bounded grid has one entry per protocol, sums to
/// exactly `100 / step_pct` steps, and keeps each axis within its cap in steps.
pub proof fn lemma_bounded_grid_candidates(max_weights_pct: Seq<usize>, step_pct: nat)
    requires
        max_weights_pct.len() >= 1,
        step_pct >= 1,
    ensures
        forall|i: int|
            0 <= i < bounded_weight_grid(max_weights_pct, step_pct).len() ==> {
                let c = #[trigger] bounded_weight_grid(max_weights_pct, step_pct)[i];
                &&& c.len() == max_weights_pct.len()
                &&& steps_sum(c) == total_steps(step_pct)
                &&& forall|j: int|
                    0 <= j < c.len() ==> c[j] <= step_caps(max_weights_pct, step_pct)[j]
            },
{
    lemma_grid_level_shape(step_caps(max_weights_pct, step_pct), 0, total_steps(step_pct), 0);
}

proof fn lemma_binomial_above(n: nat, k: nat)
    requires
        k > n,
    ensures
        binomial(n, k) == 0,
    decreases n,
{
    if n > 0 {
        lemma_binomial_above((n - 1) as nat, (k - 1) as nat);
        lemma_binomial_above((n - 1) as nat, k);
    }
}

proof fn lemma_grid_level_count(caps: Seq<usize>, depth: nat, remaining: nat, w: nat)
    requires
        depth < caps.len(),
        w <= remaining + 1,
        forall|j: int| depth <= j < caps.len() ==> caps[j] >= remaining,
    ensures
        depth + 1 == caps.len() ==> grid_level(caps, depth, remaining, w).len() == 1,
        depth + 1 < caps.len() ==> grid_level(caps, depth, remaining, w).len() == binomial(
            (remaining + caps.len() - depth - 1 - w) as nat,
            (caps.len() - depth - 1) as nat,
        ),
    decreases caps.len() - depth, remaining + 1 - w,
{
    let k = caps.len() - depth;
    if depth + 1 == caps.len() {
    } else if w > remaining {
        lemma_binomial_above((k - 2) as nat, (k - 1) as nat);
    } else {
        let sub = grid_level(caps, depth + 1, (remaining - w) as nat, 0);
        lemma_grid_level_count(caps, depth + 1, (remaining - w) as nat, 0);
        lemma_grid_level_count(caps, depth, remaining, w + 1);
        let big_n = (remaining + k - 1 - w) as nat;
        assert(binomial(big_n, (k - 1) as nat) == binomial((big_n - 1) as nat, (k - 2) as nat)
            + binomial((big_n - 1) as nat, (k - 1) as nat));
    }
}

/// The unbounded grid for `n` protocols with `S = 100 / step_pct` steps has
/// exactly `C(S + n - 1, n - 1)` candidates.
pub proof fn lemma_grid_cardinality(n: nat, step_pct: nat)
    requires
        n >= 1,
        step_pct >= 1,
    ensures
        weight_grid(n, step_pct).len() == binomial(
            (total_steps(step_pct) + n - 1) as nat,
            (n - 1) as nat,
        ),
{
    lemma_grid_level_count(uniform_caps(n, total_steps(step_pct)), 0, total_steps(step_pct), 0);
}

/// Two enumerations for the same protocol count and step list the same
/// candidates in the same order.
pub proof fn lemma_grid_deterministic(
    n: nat,
    step_pct: nat,
    a: Seq<Vec<usize>>,
    b: Seq<Vec<usize>>,
)
    requires
        candidates(a) == weight_grid(n, step_pct),
        candidates(b) == weight_grid(n, step_pct),
    ensures
        a.len() == b.len(),
        forall|i: int| 0 <= i < a.len() ==> (#[trigger] a[i])@ == b[i]@,
{
    assert(candidates(a).len() == a.len());
    assert(candidates(b).len() == b.len());
    assert forall|i: int| 0 <= i < a.len() implies (#[trigger] a[i])@ == b[i]@ by {
        assert(candidates(a)[i] == a[i]@);
        assert(candidates(b)[i] == b[i]@);
    }
}

/// `a` comes strictly before `b` in lexicographic order.
pub open spec fn lex_less(a: Seq<usize>, b: Seq<usize>) -> bool
    decreases a.len(),
{
    a.len() > 0 && b.len() > 0 && (a[0] < b[0] || (a[0] == b[0] && lex_less(
        a.drop_first(),
        b.drop_first(),
    )))
}

proof fn lemma_lex_irreflexive(a: Seq<usize>)
    ensures
        !lex_less(a, a),
    decreases a.len(),
{
    if a.len() > 0 {
        lemma_lex_irreflexive(a.drop_first());
    }
}

/// A step vector that fits `caps` from `depth` on: one entry per remaining
/// axis, each within its cap.
pub open spec fn fits_caps(c: Seq<usize>, caps: Seq<usize>, depth: nat) -> bool {
    &&& c.len() == caps.len() - depth
    &&& forall|j: int| 0 <= j < c.len() ==> c[j] <= #[trigger] caps[depth + j]
}

proof fn lemma_steps_sum_bounds(c: Seq<usize>)
    requires
        c.len() > 0,
    ensures
        steps_sum(c) >= c[0],
        steps_sum(c.drop_first()) >= 0,
    decreases c.len(),
{
    if c.len() > 1 {
        lemma_steps_sum_bounds(c.drop_first());
    } else {
        assert(c.drop_first().len() == 0);
        assert(steps_sum(c.drop_first()) == 0);
    }
}

proof fn lemma_grid_level_first_at_least(caps: Seq<usize>, depth: nat, remaining: nat, w: nat)
    requires
        depth + 1 < caps.len(),
    ensures
        forall|i: int|
            0 <= i < grid_level(caps, depth, remaining, w).len() ==> (#[trigger] grid_level(
                caps,
                depth,
                remaining,
                w,
            )[i])[0] >= w,
    decreases remaining + 1 - w,
{
    if !(w > remaining || w > caps[depth as int]) {
        lemma_grid_level_first_at_least(caps, depth, remaining, w + 1);
        let sub = grid_level(caps, depth + 1, (remaining - w) as nat, 0);
        let g = grid_level(caps, depth, remaining, w);
        assert forall|i: int| 0 <= i < g.len() implies (#[trigger] g[i])[0] >= w by {
            if i < sub.len() {
                assert(g[i] == seq![w as usize] + sub[i]);
            } else {
                assert(g[i] == grid_level(caps, depth, remaining, w + 1)[i - sub.len()]);
            }
        }
    }
}

proof fn lemma_grid_level_complete(
    caps: Seq<usize>,
    depth: nat,
    remaining: nat,
    w: nat,
    c: Seq<usize>,
)
    requires
        depth < caps.len(),
        fits_caps(c, caps, depth),
        steps_sum(c) == remaining,
        depth + 1 < caps.len() ==> c[0] >= w,
    ensures
        exists|i: int|
            0 <= i < grid_level(caps, depth, remaining, w).len() && grid_level(
                caps,
                depth,
                remaining,
                w,
            )[i] == c,
    decreases caps.len() - depth, remaining + 1 - w,
{
    let g = grid_level(caps, depth, remaining, w);
    lemma_steps_sum_bounds(c);
    if depth + 1 == caps.len() {
        assert(c.drop_first().len() == 0);
        assert(steps_sum(c.drop_first()) == 0);
        assert(c[0] <= caps[depth + 0int]);
        assert(c =~= seq![remaining as usize]);
        assert(g[0] == c);
    } else {
        assert(c[0] <= caps[depth + 0int]);
        let sub = grid_level(caps, depth + 1, (remaining - w) as nat, 0);
        if c[0] == w {
            let t = c.drop_first();
            assert forall|j: int| 0 <= j < t.len() implies t[j] <= #[trigger] caps[(depth + 1) + j] by {
                assert(t[j] == c[j + 1]);
                assert(c[j + 1] <= caps[depth + (j + 1)]);
            }
            lemma_grid_level_complete(caps, depth + 1, (remaining - w) as nat, 0, t);
            let i = choose|i: int| 0 <= i < sub.len() && sub[i] == t;
            assert(g[i] == seq![w as usize] + sub[i]);
            assert(g[i] =~= c);
        } else {
            lemma_grid_level_complete(caps, depth, remaining, w + 1, c);
            let rest = grid_level(caps, depth, remaining, w + 1);
            let i = choose|i: int| 0 <= i < rest.len() && rest[i] == c;
            assert(g[sub.len() + i] == rest[i]);
        }
    }
}

proof fn lemma_grid_level_sorted(caps: Seq<usize>, depth: nat, remaining: nat, w: nat)
    requires
        depth < caps.len(),
    ensures
        forall|i: int, j: int|
            0 <= i < j < grid_level(caps, depth, remaining, w).len() ==> lex_less(
                #[trigger] grid_level(caps, depth, remaining, w)[i],
                #[trigger] grid_level(caps, depth, remaining, w)[j],
            ),
    decreases caps.len() - depth, remaining + 1 - w,
{
    let g = grid_level(caps, depth, remaining, w);
    if depth + 1 < caps.len() && !(w > remaining || w > caps[depth as int]) {
        let sub = grid_level(caps, depth + 1, (remaining - w) as nat, 0);
        let rest = grid_level(caps, depth, remaining, w + 1);
        lemma_grid_level_sorted(caps, depth + 1, (remaining - w) as nat, 0);
        lemma_grid_level_sorted(caps, depth, remaining, w + 1);
        lemma_grid_level_first_at_least(caps, depth, remaining, w + 1);
        lemma_grid_level_shape(caps, depth + 1, (remaining - w) as nat, 0);
        assert forall|i: int, j: int| 0 <= i < j < g.len() implies lex_less(
            #[trigger] g[i],
            #[trigger] g[j],
        ) by {
            if j < sub.len() {
                assert(g[i] == seq![w as usize] + sub[i]);
                assert(g[j] == seq![w as usize] + sub[j]);
                assert(g[i].drop_first() =~= sub[i]);
                assert(g[j].drop_first() =~= sub[j]);
                assert(lex_less(sub[i], sub[j]));
            } else if i >= sub.len() {
                assert(g[i] == rest[i - sub.len()]);
                assert(g[j] == rest[j - sub.len()]);
            } else {
                assert(g[i] == seq![w as usize] + sub[i]);
                assert(g[j] == rest[j - sub.len()]);
                assert(rest[j - sub.len()][0] >= w + 1);
                assert(g[i][0] == w);
                assert(g[i].len() > 0 && g[j].len() > 0) by {
                    lemma_grid_level_shape(caps, depth, remaining, w + 1);
                }
            }
        }
    }
}

/// The bounded grid lists every step vector that has one entry per protocol,
/// sums to `100 / step_pct` and keeps each axis within its cap in steps, each
/// exactly once, in strictly increasing lexicographic order.
pub proof fn lemma_bounded_grid_exact(max_weights_pct: Seq<usize>, step_pct: nat, c: Seq<usize>)
    requires
        max_weights_pct.len() >= 1,
        step_pct >= 1,
    ensures
        fits_caps(c, step_caps(max_weights_pct, step_pct), 0) && steps_sum(c) == total_steps(step_pct)
            ==> exists|i: int|
            0 <= i < bounded_weight_grid(max_weights_pct, step_pct).len() && bounded_weight_grid(
                max_weights_pct,
                step_pct,
            )[i] == c,
        forall|i: int, j: int|
            0 <= i < j < bounded_weight_grid(max_weights_pct, step_pct).len() ==> lex_less(
                #[trigger] bounded_weight_grid(max_weights_pct, step_pct)[i],
                #[trigger] bounded_weight_grid(max_weights_pct, step_pct)[j],
            ),
        forall|i: int, j: int|
            0 <= i < j < bounded_weight_grid(max_weights_pct, step_pct).len() ==> #[trigger] bounded_weight_grid(max_weights_pct, step_pct)[i] != #[trigger] bounded_weight_grid(max_weights_pct, step_pct)[j],
{
    let caps = step_caps(max_weights_pct, step_pct);
    if fits_caps(c, caps, 0) && steps_sum(c) == total_steps(step_pct) {
        lemma_grid_level_complete(caps, 0, total_steps(step_pct), 0, c);
        let g = grid_level(caps, 0, total_steps(step_pct), 0);
        let i = choose|i: int| 0 <= i < g.len() && g[i] == c;
        assert(bounded_weight_grid(max_weights_pct, step_pct)[i] == c);
    }
    lemma_grid_level_sorted(caps, 0, total_steps(step_pct), 0);
    assert forall|i: int, j: int| 0 <= i < j < bounded_weight_grid(max_weights_pct, step_pct).len() implies #[trigger] bounded_weight_grid(max_weights_pct, step_pct)[i] != #[trigger] bounded_weight_grid(max_weights_pct, step_pct)[j] by {
        lemma_lex_irreflexive(bounded_weight_grid(max_weights_pct, step_pct)[i]);
    }
}

/// The unbounded grid lists every step vector of length `n` summing to
/// `100 / step_pct`, each exactly once, in strictly increasing lexicographic order.
pub proof fn lemma_grid_exact(n: nat, step_pct: nat, c: Seq<usize>)
    requires
        n >= 1,
        step_pct >= 1,
    ensures
        c.len() == n && steps_sum(c) == total_steps(step_pct) ==> exists|i: int|
            0 <= i < weight_grid(n, step_pct).len() && weight_grid(n, step_pct)[i] == c,
        forall|i: int, j: int|
            0 <= i < j < weight_grid(n, step_pct).len() ==> lex_less(
                #[trigger] weight_grid(n, step_pct)[i],
                #[trigger] weight_grid(n, step_pct)[j],
            ),
        forall|i: int, j: int|
            0 <= i < j < weight_grid(n, step_pct).len() ==> #[trigger] weight_grid(n, step_pct)[i] != #[trigger] weight_grid(n, step_pct)[j],
{
    let s = total_steps(step_pct);
    let caps = uniform_caps(n, s);
    if c.len() == n && steps_sum(c) == s {
        assert forall|j: int| 0 <= j < c.len() implies c[j] <= #[trigger] caps[0 + j] by {
            lemma_entry_at_most_sum(c, j);
        }
        lemma_grid_level_complete(caps, 0, s, 0, c);
        let g = grid_level(caps, 0, s, 0);
        let i = choose|i: int| 0 <= i < g.len() && g[i] == c;
        assert(weight_grid(n, step_pct)[i] == c);
    }
    lemma_grid_level_sorted(caps, 0, s, 0);
    assert forall|i: int, j: int| 0 <= i < j < weight_grid(n, step_pct).len() implies #[trigger] weight_grid(n, step_pct)[i] != #[trigger] weight_grid(n, step_pct)[j] by {
        lemma_lex_irreflexive(weight_grid(n, step_pct)[i]);
    }
}

proof fn lemma_entry_at_most_sum(c: Seq<usize>, j: int)
    requires
        0 <= j < c.len(),
    ensures
        c[j] <= steps_sum(c),
    decreases c.len(),
{
    lemma_steps_sum_bounds(c);
    if j > 0 {
        lemma_entry_at_most_sum(c.drop_first(), j - 1);
    }
}

} // verus!
