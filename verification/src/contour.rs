//! Stitching raw contour segments into polylines.
//!
//! A marching-squares pass yields loose segments; they are joined into paths by walking a graph over
//! their endpoints, each endpoint quantised to an integer grid key. The walk is insertion-ordered:
//! each path starts at the lowest-indexed segment not yet used, is extended from its end and then
//! from its start, and every extension takes the lowest-indexed unused segment that touches the
//! current endpoint. The result does not depend on any hash order.
use vstd::prelude::*;

verus! {

/// An endpoint quantised to the grid.
pub type PointKey = (i64, i64);

/// A segment taken into a path: its index, and whether it is walked from its `b` end to its `a` end.
pub type Step = (usize, bool);

/// One stitched path: its steps in walking order, and the position of the step it was started from.
#[derive(Debug, Clone, PartialEq, Eq)]
pub struct StitchedPath {
    pub steps: Vec<Step>,
    pub seed: usize,
}

/// Whether segment `i` has an endpoint at `k`.
pub open spec fn touches(segs: Seq<(PointKey, PointKey)>, i: int, k: PointKey) -> bool {
    segs[i].0 == k || segs[i].1 == k
}

/// Where a step starts.
pub open spec fn start_key(segs: Seq<(PointKey, PointKey)>, s: Step) -> PointKey {
    if s.1 {
        segs[s.0 as int].1
    } else {
        segs[s.0 as int].0
    }
}

/// Where a step ends.
pub open spec fn end_key(segs: Seq<(PointKey, PointKey)>, s: Step) -> PointKey {
    if s.1 {
        segs[s.0 as int].0
    } else {
        segs[s.0 as int].1
    }
}

/// Whether some step of `p` takes segment `i`.
pub open spec fn in_steps(p: Seq<Step>, i: int) -> bool {
    exists|m: int| 0 <= m < p.len() && p[m].0 == i
}

/// Whether one of the paths `prev` takes segment `i`.
pub open spec fn in_any(prev: Seq<Seq<Step>>, i: int) -> bool {
    exists|d: int| 0 <= d < prev.len() && in_steps(#[trigger] prev[d], i)
}

/// Whether segment `i` is still free after the paths `prev` and the steps `pre`.
pub open spec fn free(prev: Seq<Seq<Step>>, pre: Seq<Step>, i: int) -> bool {
    !in_any(prev, i) && !in_steps(pre, i)
}

/// `i` is the lowest-indexed free segment touching `k`.
pub open spec fn least_free(segs: Seq<(PointKey, PointKey)>, prev: Seq<Seq<Step>>, pre: Seq<Step>, k: PointKey, i: int) -> bool {
    &&& 0 <= i < segs.len()
    &&& free(prev, pre, i)
    &&& touches(segs, i, k)
    &&& forall|j: int| 0 <= j < i ==> !free(prev, pre, j) || !touches(segs, j, k)
}

/// No free segment touches `k`.
pub open spec fn none_free(segs: Seq<(PointKey, PointKey)>, prev: Seq<Seq<Step>>, pre: Seq<Step>, k: PointKey) -> bool {
    forall|j: int| 0 <= j < segs.len() ==> !free(prev, pre, j) || !touches(segs, j, k)
}

/// The steps of the paths.
pub open spec fn paths_steps(ps: Seq<StitchedPath>) -> Seq<Seq<Step>> {
    ps.map_values(|p: StitchedPath| p.steps@)
}

/// `p` (started at position `s`) is the walk that follows the paths `prev`: it starts with its seed,
/// the lowest segment no earlier path took, walked from `a` to `b`; each step after the seed is the
/// lowest free segment touching the end of the step before it, walked away from that end; each step
/// before the seed is the lowest free segment touching the start of the step after it, walked
/// towards that start; and no free segment is left touching either end of the path.
pub open spec fn is_walk(segs: Seq<(PointKey, PointKey)>, prev: Seq<Seq<Step>>, p: Seq<Step>, s: int) -> bool {
    &&& 0 <= s < p.len()
    &&& forall|m: int| 0 <= m < p.len() ==> (#[trigger] p[m]).0 < segs.len()
    &&& p[s].1 == false
    &&& !in_any(prev, p[s].0 as int)
    &&& forall|i: int| 0 <= i < p[s].0 ==> in_any(prev, i)
    &&& forall|m: int|
        #![trigger p[m]]
        s < m < p.len() ==> {
            &&& least_free(segs, prev, p.subrange(s, m), end_key(segs, p[m - 1]), p[m].0 as int)
            &&& p[m].1 == (segs[p[m].0 as int].0 != end_key(segs, p[m - 1]))
        }
    &&& none_free(segs, prev, p.subrange(s, p.len() as int), end_key(segs, p[p.len() - 1]))
    &&& forall|m: int|
        #![trigger p[m]]
        0 <= m < s ==> {
            &&& least_free(segs, prev, p.subrange(m + 1, p.len() as int), start_key(segs, p[m + 1]), p[m].0 as int)
            &&& p[m].1 == (segs[p[m].0 as int].0 == start_key(segs, p[m + 1]))
        }
    &&& none_free(segs, prev, p, start_key(segs, p[0]))
}

/// The number of `false` entries of `u`.
pub open spec fn falses(u: Seq<bool>) -> nat
    decreases u.len(),
{
    if u.len() == 0 {
        0
    } else {
        falses(u.drop_last()) + if u.last() {
            0nat
        } else {
            1nat
        }
    }
}

proof fn lemma_falses_set(u: Seq<bool>, i: int)
    requires
        0 <= i < u.len(),
        !u[i],
    ensures
        falses(u.update(i, true)) + 1 == falses(u),
    decreases u.len(),
{
    let v = u.update(i, true);
    if i == u.len() - 1 {
        assert(v.drop_last() =~= u.drop_last());
    } else {
        assert(v.drop_last() =~= u.drop_last().update(i, true));
        lemma_falses_set(u.drop_last(), i);
    }
}

proof fn lemma_in_steps_push(p: Seq<Step>, x: Step, i: int)
    ensures
        in_steps(p.push(x), i) == (in_steps(p, i) || x.0 == i),
{
    let q = p.push(x);
    if in_steps(p, i) {
        let m = choose|m: int| 0 <= m < p.len() && p[m].0 == i;
        assert(q[m] == p[m]);
    }
    if x.0 == i {
        assert(q[p.len() as int] == x);
    }
    if in_steps(q, i) {
        let m = choose|m: int| 0 <= m < q.len() && q[m].0 == i;
        if m < p.len() {
            assert(q[m] == p[m]);
        }
    }
}

/// The lowest free segment touching `k`, as the bitmap `used` records freedom.
fn pick(segs: &Vec<(PointKey, PointKey)>, used: &Vec<bool>, k: PointKey) -> (r: Option<usize>)
    requires
        used@.len() == segs@.len(),
    ensures
        match r {
            Some(i) => i < segs@.len() && !used@[i as int] && touches(segs@, i as int, k) && forall|j: int|
                0 <= j < i ==> used@[j] || !touches(segs@, j, k),
            None => forall|j: int| 0 <= j < segs@.len() ==> used@[j] || !touches(segs@, j, k),
        },
{
    let mut j: usize = 0;
    while j < segs.len()
        invariant
            j <= segs@.len(),
            used@.len() == segs@.len(),
            forall|m: int| 0 <= m < j ==> used@[m] || !touches(segs@, m, k),
        decreases segs@.len() - j,
    {
        let (a, b) = segs[j];
        let hit = (a.0 == k.0 && a.1 == k.1) || (b.0 == k.0 && b.1 == k.1);
        if !used[j] && hit {
            return Some(j);
        }
        j = j + 1;
    }
    None
}


/// The step that walks segment `i` away from `k`.
fn step_from(segs: &Vec<(PointKey, PointKey)>, i: usize, k: PointKey) -> (st: Step)
    requires
        i < segs@.len(),
        touches(segs@, i as int, k),
    ensures
        st.0 == i,
        st.1 == (segs@[i as int].0 != k),
        start_key(segs@, st) == k,
{
    let a = segs[i].0;
    (i, !(a.0 == k.0 && a.1 == k.1))
}

/// The step that walks segment `i` towards `k`.
fn step_to(segs: &Vec<(PointKey, PointKey)>, i: usize, k: PointKey) -> (st: Step)
    requires
        i < segs@.len(),
        touches(segs@, i as int, k),
    ensures
        st.0 == i,
        st.1 == (segs@[i as int].0 == k),
        end_key(segs@, st) == k,
{
    let a = segs[i].0;
    (i, a.0 == k.0 && a.1 == k.1)
}

fn start_of(segs: &Vec<(PointKey, PointKey)>, st: Step) -> (k: PointKey)
    requires
        st.0 < segs@.len(),
    ensures
        k == start_key(segs@, st),
{
    if st.1 {
        segs[st.0].1
    } else {
        segs[st.0].0
    }
}

fn end_of(segs: &Vec<(PointKey, PointKey)>, st: Step) -> (k: PointKey)
    requires
        st.0 < segs@.len(),
    ensures
        k == end_key(segs@, st),
{
    if st.1 {
        segs[st.0].0
    } else {
        segs[st.0].1
    }
}

/// Extends the walk `fwd` from its end while a free segment touches it.
fn extend_forward(segs: &Vec<(PointKey, PointKey)>, used: &mut Vec<bool>, fwd: &mut Vec<Step>, Ghost(prev): Ghost<Seq<Seq<Step>>>)
    requires
        old(used)@.len() == segs@.len(),
        old(fwd)@.len() == 1,
        old(fwd)@[0].0 < segs@.len(),
        forall|i: int| 0 <= i < segs@.len() ==> old(used)@[i] == !free(prev, old(fwd)@, i),
    ensures
        final(used)@.len() == segs@.len(),
        final(fwd)@.len() >= 1,
        final(fwd)@[0] == old(fwd)@[0],
        forall|m: int| 0 <= m < final(fwd)@.len() ==> (#[trigger] final(fwd)@[m]).0 < segs@.len(),
        forall|i: int| 0 <= i < segs@.len() ==> final(used)@[i] == !free(prev, final(fwd)@, i),
        forall|m: int|
            #![trigger final(fwd)@[m]]
            0 < m < final(fwd)@.len() ==> {
                &&& least_free(segs@, prev, final(fwd)@.take(m), end_key(segs@, final(fwd)@[m - 1]), final(fwd)@[m].0 as int)
                &&& final(fwd)@[m].1 == (segs@[final(fwd)@[m].0 as int].0 != end_key(segs@, final(fwd)@[m - 1]))
            },
        none_free(segs@, prev, final(fwd)@, end_key(segs@, final(fwd)@[final(fwd)@.len() - 1])),
        falses(final(used)@) <= falses(old(used)@),
{
    let ghost f0 = falses(used@);
    let mut done = false;
    while !done
        invariant
            used@.len() == segs@.len(),
            fwd@.len() >= 1,
            fwd@[0] == old(fwd)@[0],
            forall|m: int| 0 <= m < fwd@.len() ==> (#[trigger] fwd@[m]).0 < segs@.len(),
            forall|i: int| 0 <= i < segs@.len() ==> used@[i] == !free(prev, fwd@, i),
            forall|m: int|
                #![trigger fwd@[m]]
                0 < m < fwd@.len() ==> {
                    &&& least_free(segs@, prev, fwd@.take(m), end_key(segs@, fwd@[m - 1]), fwd@[m].0 as int)
                    &&& fwd@[m].1 == (segs@[fwd@[m].0 as int].0 != end_key(segs@, fwd@[m - 1]))
                },
            done ==> none_free(segs@, prev, fwd@, end_key(segs@, fwd@[fwd@.len() - 1])),
            falses(used@) <= f0,
            f0 == falses(old(used)@),
        decreases falses(used@) + if done { 0int } else { 1int },
    {
        let last = fwd[fwd.len() - 1];
        let k = end_of(segs, last);
        match pick(segs, used, k) {
            None => {
                assert forall|j: int| 0 <= j < segs@.len() implies !free(prev, fwd@, j) || !touches(segs@, j, k) by {
                    assert(used@[j] == !free(prev, fwd@, j));
                }
                done = true;
            },
            Some(i) => {
                let ghost before = fwd@;
                let ghost u0 = used@;
                proof {
                    lemma_falses_set(used@, i as int);
                }
                used.set(i, true);
                let st = step_from(segs, i, k);
                fwd.push(st);
                proof {
                    assert forall|j: int| 0 <= j < segs@.len() implies used@[j] == !free(prev, fwd@, j) by {
                        lemma_in_steps_push(before, st, j);
                    }
                    assert forall|m: int| 0 <= m <= before.len() implies #[trigger] fwd@.take(m) == before.take(m) by {
                        assert(fwd@.take(m) =~= before.take(m));
                    }
                    assert(fwd@.take(before.len() as int) =~= before);
                    let n = before.len() as int;
                    assert(fwd@[n] == st);
                    assert(fwd@[n - 1] == last);
                    assert forall|j: int| 0 <= j < i implies !free(prev, before, j) || !touches(segs@, j, k) by {
                        assert(u0[j] == !free(prev, before, j));
                    }
                    assert(least_free(segs@, prev, fwd@.take(n), end_key(segs@, fwd@[n - 1]), fwd@[n].0 as int));
                }
            },
        }
    }
}


/// The step that the `m`-th backward step (in the order they are taken) attaches to.
pub open spec fn toward(fwd: Seq<Step>, back: Seq<Step>, m: int) -> Step {
    if m == 0 {
        fwd[0]
    } else {
        back[m - 1]
    }
}

/// Extends the walk from the start of `fwd` (and of the steps `back` already taken before it) while a
/// free segment touches it.
fn extend_backward(
    segs: &Vec<(PointKey, PointKey)>,
    used: &mut Vec<bool>,
    fwd: &Vec<Step>,
    back: &mut Vec<Step>,
    Ghost(prev): Ghost<Seq<Seq<Step>>>,
)
    requires
        old(used)@.len() == segs@.len(),
        fwd@.len() >= 1,
        forall|m: int| 0 <= m < fwd@.len() ==> (#[trigger] fwd@[m]).0 < segs@.len(),
        old(back)@.len() == 0,
        forall|i: int| 0 <= i < segs@.len() ==> old(used)@[i] == !free(prev, fwd@, i),
    ensures
        final(used)@.len() == segs@.len(),
        forall|m: int| 0 <= m < final(back)@.len() ==> (#[trigger] final(back)@[m]).0 < segs@.len(),
        forall|i: int| 0 <= i < segs@.len() ==> final(used)@[i] == !free(prev, fwd@ + final(back)@, i),
        forall|m: int|
            #![trigger final(back)@[m]]
            0 <= m < final(back)@.len() ==> {
                &&& least_free(segs@, prev, fwd@ + final(back)@.take(m), start_key(segs@, toward(fwd@, final(back)@, m)), final(back)@[m].0 as int)
                &&& final(back)@[m].1 == (segs@[final(back)@[m].0 as int].0 == start_key(segs@, toward(fwd@, final(back)@, m)))
            },
        none_free(segs@, prev, fwd@ + final(back)@, start_key(segs@, toward(fwd@, final(back)@, final(back)@.len() as int))),
        falses(final(used)@) <= falses(old(used)@),
{
    let ghost f0 = falses(used@);
    assert(fwd@ + back@ =~= fwd@);
    let mut done = false;
    while !done
        invariant
            used@.len() == segs@.len(),
            fwd@.len() >= 1,
            forall|m: int| 0 <= m < fwd@.len() ==> (#[trigger] fwd@[m]).0 < segs@.len(),
            forall|m: int| 0 <= m < back@.len() ==> (#[trigger] back@[m]).0 < segs@.len(),
            forall|i: int| 0 <= i < segs@.len() ==> used@[i] == !free(prev, fwd@ + back@, i),
            forall|m: int|
                #![trigger back@[m]]
                0 <= m < back@.len() ==> {
                    &&& least_free(segs@, prev, fwd@ + back@.take(m), start_key(segs@, toward(fwd@, back@, m)), back@[m].0 as int)
                    &&& back@[m].1 == (segs@[back@[m].0 as int].0 == start_key(segs@, toward(fwd@, back@, m)))
                },
            done ==> none_free(segs@, prev, fwd@ + back@, start_key(segs@, toward(fwd@, back@, back@.len() as int))),
            falses(used@) <= f0,
            f0 == falses(old(used)@),
        decreases falses(used@) + if done { 0int } else { 1int },
    {
        let front = if back.len() == 0 {
            fwd[0]
        } else {
            back[back.len() - 1]
        };
        assert(front == toward(fwd@, back@, back@.len() as int));
        let k = start_of(segs, front);
        match pick(segs, used, k) {
            None => {
                assert forall|j: int| 0 <= j < segs@.len() implies !free(prev, fwd@ + back@, j) || !touches(segs@, j, k) by {
                    assert(used@[j] == !free(prev, fwd@ + back@, j));
                }
                done = true;
            },
            Some(i) => {
                let ghost before = back@;
                let ghost u0 = used@;
                proof {
                    lemma_falses_set(used@, i as int);
                }
                used.set(i, true);
                let st = step_to(segs, i, k);
                back.push(st);
                proof {
                    assert(fwd@ + back@ =~= (fwd@ + before).push(st));
                    assert forall|j: int| 0 <= j < segs@.len() implies used@[j] == !free(prev, fwd@ + back@, j) by {
                        lemma_in_steps_push(fwd@ + before, st, j);
                    }
                    assert forall|m: int| 0 <= m <= before.len() implies #[trigger] back@.take(m) == before.take(m) by {
                        assert(back@.take(m) =~= before.take(m));
                    }
                    let n = before.len() as int;
                    assert(back@.take(n) =~= before);
                    assert(back@[n] == st);
                    assert(toward(fwd@, back@, n) == toward(fwd@, before, n));
                    assert forall|m: int| 0 <= m < n implies #[trigger] toward(fwd@, back@, m) == toward(fwd@, before, m) by {
                        if m > 0 {
                            assert(back@[m - 1] == before[m - 1]);
                        }
                    }
                    assert forall|j: int| 0 <= j < i implies !free(prev, fwd@ + before, j) || !touches(segs@, j, k) by {
                        assert(u0[j] == !free(prev, fwd@ + before, j));
                    }
                }
            },
        }
    }
}


/// The walk in path order: the backward steps, last taken first, then the forward steps.
fn assemble(back: &Vec<Step>, fwd: &Vec<Step>) -> (p: Vec<Step>)
    ensures
        p@.len() == back@.len() + fwd@.len(),
        forall|m: int| 0 <= m < back@.len() ==> #[trigger] p@[m] == back@[back@.len() - 1 - m],
        forall|m: int| back@.len() <= m < p@.len() ==> #[trigger] p@[m] == fwd@[m - back@.len()],
{
    let mut p: Vec<Step> = Vec::new();
    let mut k = back.len();
    while k > 0
        invariant
            k <= back@.len(),
            p@.len() == back@.len() - k,
            forall|m: int| 0 <= m < p@.len() ==> #[trigger] p@[m] == back@[back@.len() - 1 - m],
        decreases k,
    {
        k = k - 1;
        p.push(back[k]);
    }
    let mut j: usize = 0;
    while j < fwd.len()
        invariant
            j <= fwd@.len(),
            p@.len() == back@.len() + j,
            forall|m: int| 0 <= m < back@.len() ==> #[trigger] p@[m] == back@[back@.len() - 1 - m],
            forall|m: int| back@.len() <= m < p@.len() ==> #[trigger] p@[m] == fwd@[m - back@.len()],
        decreases fwd@.len() - j,
    {
        p.push(fwd[j]);
        j = j + 1;
    }
    p
}

/// The tail of the assembled walk from position `s - q` holds the same segments as the forward
/// steps and the first `q` backward steps.
proof fn lemma_tail_segments(p: Seq<Step>, fwd: Seq<Step>, back: Seq<Step>, q: int, j: int)
    requires
        p.len() == back.len() + fwd.len(),
        forall|m: int| 0 <= m < back.len() ==> #[trigger] p[m] == back[back.len() - 1 - m],
        forall|m: int| back.len() <= m < p.len() ==> #[trigger] p[m] == fwd[m - back.len()],
        0 <= q <= back.len(),
    ensures
        in_steps(p.subrange(back.len() - q, p.len() as int), j) == in_steps(fwd + back.take(q), j),
{
    let s = back.len() as int;
    let t = p.subrange(s - q, p.len() as int);
    let u = fwd + back.take(q);
    if in_steps(t, j) {
        let x = choose|x: int| 0 <= x < t.len() && t[x].0 == j;
        assert(t[x] == p[s - q + x]);
        if s - q + x < s {
            let y = s - 1 - (s - q + x);
            assert(p[s - q + x] == back[y]);
            assert(u[fwd.len() + y] == back[y]);
        } else {
            let y = x - q;
            assert(p[s - q + x] == fwd[y]);
            assert(u[y] == fwd[y]);
        }
    }
    if in_steps(u, j) {
        let x = choose|x: int| 0 <= x < u.len() && u[x].0 == j;
        if x < fwd.len() {
            assert(u[x] == fwd[x]);
            assert(p[s + x] == fwd[x]);
            assert(t[q + x] == p[s - q + (q + x)]);
        } else {
            let y = x - fwd.len();
            assert(u[x] == back[y]);
            assert(p[s - 1 - y] == back[y]);
            assert(t[q - 1 - y] == p[s - 1 - y]);
        }
    }
}

proof fn lemma_same_segments(segs: Seq<(PointKey, PointKey)>, prev: Seq<Seq<Step>>, a: Seq<Step>, b: Seq<Step>, k: PointKey, i: int)
    requires
        forall|j: int| in_steps(a, j) == in_steps(b, j),
    ensures
        least_free(segs, prev, a, k, i) == least_free(segs, prev, b, k, i),
        none_free(segs, prev, a, k) == none_free(segs, prev, b, k),
{
    assert(forall|j: int| free(prev, a, j) == free(prev, b, j));
}

/// Walks one path from `seed`, after the paths `prev`.
fn walk(segs: &Vec<(PointKey, PointKey)>, used: &mut Vec<bool>, seed: usize, Ghost(prev): Ghost<Seq<Seq<Step>>>) -> (p: StitchedPath)
    requires
        old(used)@.len() == segs@.len(),
        seed < segs@.len(),
        forall|i: int| 0 <= i < segs@.len() ==> old(used)@[i] == in_any(prev, i),
        !old(used)@[seed as int],
        forall|i: int| 0 <= i < seed ==> old(used)@[i],
    ensures
        final(used)@.len() == segs@.len(),
        is_walk(segs@, prev, p.steps@, p.seed as int),
        forall|i: int| 0 <= i < segs@.len() ==> final(used)@[i] == (in_any(prev, i) || in_steps(p.steps@, i)),
        falses(final(used)@) < falses(old(used)@),
{
    let ghost u0 = used@;
    proof {
        lemma_falses_set(used@, seed as int);
    }
    used.set(seed, true);
    let mut fwd: Vec<Step> = Vec::new();
    fwd.push((seed, false));
    proof {
        assert forall|i: int| 0 <= i < segs@.len() implies used@[i] == !free(prev, fwd@, i) by {
            lemma_in_steps_push(Seq::<Step>::empty(), (seed, false), i);
            assert(Seq::<Step>::empty().push((seed, false)) =~= fwd@);
            assert(!in_steps(Seq::<Step>::empty(), i));
        }
    }
    extend_forward(segs, used, &mut fwd, Ghost(prev));
    let mut back: Vec<Step> = Vec::new();
    extend_backward(segs, used, &fwd, &mut back, Ghost(prev));
    let ghost f = fwd@;
    let ghost b = back@;
    let steps = assemble(&back, &fwd);
    let s = back.len();
    let ghost p = steps@;
    proof {
        let n = p.len() as int;
        assert(p[s as int] == f[0]);
        assert forall|m: int| 0 <= m < n implies (#[trigger] p[m]).0 < segs@.len() by {
            if m < s {
                assert(p[m] == b[s - 1 - m]);
            } else {
                assert(p[m] == f[m - s]);
            }
        }
        assert forall|m: int|
            #![trigger p[m]]
            s < m < n implies {
                &&& least_free(segs@, prev, p.subrange(s as int, m), end_key(segs@, p[m - 1]), p[m].0 as int)
                &&& p[m].1 == (segs@[p[m].0 as int].0 != end_key(segs@, p[m - 1]))
            } by {
            let x = m - s;
            assert(p[m] == f[x]);
            assert(p[m - 1] == f[x - 1]);
            assert(p.subrange(s as int, m) =~= f.take(x));
            assert(f[x] == f[x]);
        }
        assert(p.subrange(s as int, n) =~= f);
        assert(p[n - 1] == f[f.len() - 1]);
        assert forall|m: int|
            #![trigger p[m]]
            0 <= m < s implies {
                &&& least_free(segs@, prev, p.subrange(m + 1, n), start_key(segs@, p[m + 1]), p[m].0 as int)
                &&& p[m].1 == (segs@[p[m].0 as int].0 == start_key(segs@, p[m + 1]))
            } by {
            let q = s - 1 - m;
            assert(p[m] == b[q]);
            assert(b[q] == b[q]);
            if q == 0 {
                assert(p[m + 1] == f[0]);
            } else {
                assert(p[m + 1] == b[s - 1 - (m + 1)]);
            }
            assert forall|j: int| in_steps(p.subrange(m + 1, n), j) == in_steps(f + b.take(q), j) by {
                lemma_tail_segments(p, f, b, q, j);
            }
            lemma_same_segments(segs@, prev, p.subrange(m + 1, n), f + b.take(q), start_key(segs@, toward(f, b, q)), p[m].0 as int);
        }
        assert(b.take(s as int) =~= b);
        assert(p.subrange(0, n) =~= p);
        assert forall|j: int| in_steps(p, j) == in_steps(f + b, j) by {
            lemma_tail_segments(p, f, b, s as int, j);
        }
        if s > 0 {
            assert(p[0] == b[s - 1]);
        } else {
            assert(p[0] == f[0]);
        }
        lemma_same_segments(segs@, prev, p, f + b, start_key(segs@, toward(f, b, s as int)), 0);
        assert(!u0[seed as int]);
    }
    StitchedPath { steps, seed: s }
}


proof fn lemma_in_any_push(prev: Seq<Seq<Step>>, x: Seq<Step>, i: int)
    ensures
        in_any(prev.push(x), i) == (in_any(prev, i) || in_steps(x, i)),
{
    let q = prev.push(x);
    if in_any(prev, i) {
        let d = choose|d: int| 0 <= d < prev.len() && in_steps(#[trigger] prev[d], i);
        assert(q[d] == prev[d]);
    }
    if in_steps(x, i) {
        assert(q[prev.len() as int] == x);
    }
    if in_any(q, i) {
        let d = choose|d: int| 0 <= d < q.len() && in_steps(#[trigger] q[d], i);
        if d < prev.len() {
            assert(q[d] == prev[d]);
        }
    }
}

/// Stitch raw segments, given by the grid keys of their endpoints `(a, b)`, into paths: the walks
/// `is_walk` describes, one after another until every segment is taken.
pub fn stitch_segments(segs: &Vec<(PointKey, PointKey)>) -> (ps: Vec<StitchedPath>)
    ensures
        forall|c: int|
            0 <= c < ps@.len() ==> is_walk(segs@, paths_steps(ps@).take(c), #[trigger] ps@[c].steps@, ps@[c].seed as int),
        forall|i: int| 0 <= i < segs@.len() ==> in_any(paths_steps(ps@), i),
{
    let n = segs.len();
    let mut used: Vec<bool> = Vec::new();
    while used.len() < n
        invariant
            used@.len() <= n,
            n == segs@.len(),
            forall|i: int| 0 <= i < used@.len() ==> !used@[i],
        decreases n - used@.len(),
    {
        used.push(false);
    }
    let mut ps: Vec<StitchedPath> = Vec::new();
    proof {
        assert forall|i: int| 0 <= i < n implies used@[i] == in_any(paths_steps(ps@), i) by {
            assert(paths_steps(ps@).len() == 0);
        }
    }
    let mut cursor: usize = 0;
    while cursor < n
        invariant
            used@.len() == n,
            n == segs@.len(),
            cursor <= n,
            forall|i: int| 0 <= i < n ==> used@[i] == in_any(paths_steps(ps@), i),
            forall|j: int| 0 <= j < cursor ==> used@[j],
            forall|c: int|
                0 <= c < ps@.len() ==> is_walk(segs@, paths_steps(ps@).take(c), #[trigger] ps@[c].steps@, ps@[c].seed as int),
        decreases falses(used@) + (n - cursor),
    {
        if used[cursor] {
            cursor = cursor + 1;
        } else {
            let ghost prev = paths_steps(ps@);
            let ghost old_ps = ps@;
            let ghost u0 = used@;
            let p = walk(segs, &mut used, cursor, Ghost(prev));
            ps.push(p);
            proof {
                let now = paths_steps(ps@);
                assert(now =~= prev.push(p.steps@));
                assert forall|i: int| 0 <= i < n implies used@[i] == in_any(now, i) by {
                    lemma_in_any_push(prev, p.steps@, i);
                }
                assert(now.take(old_ps.len() as int) =~= prev);
                assert forall|j: int| 0 <= j < cursor implies used@[j] by {
                    assert(u0[j] == in_any(prev, j));
                }
                assert forall|c: int|
                    0 <= c < ps@.len() implies is_walk(segs@, now.take(c), #[trigger] ps@[c].steps@, ps@[c].seed as int) by {
                    if c < old_ps.len() {
                        assert(now.take(c) =~= prev.take(c));
                        assert(ps@[c] == old_ps[c]);
                    }
                }
            }
        }
    }
    assert forall|i: int| 0 <= i < segs@.len() implies in_any(paths_steps(ps@), i) by {
        assert(used@[i]);
    }
    ps
}


/// Law: a stitched path is a chain: each step starts where the step before it ends.
pub proof fn law_walk_is_chain(segs: Seq<(PointKey, PointKey)>, prev: Seq<Seq<Step>>, p: Seq<Step>, s: int)
    requires
        is_walk(segs, prev, p, s),
    ensures
        forall|m: int| 0 <= m < p.len() - 1 ==> end_key(segs, #[trigger] p[m]) == start_key(segs, p[m + 1]),
{
    assert forall|m: int| 0 <= m < p.len() - 1 implies end_key(segs, #[trigger] p[m]) == start_key(segs, p[m + 1]) by {
        if m >= s {
            assert(p[m + 1] == p[m + 1]);
            assert(p[(m + 1) - 1] == p[m]);
        } else {
            assert(p[m] == p[m]);
        }
    }
}

/// Within one walk, no segment is taken twice, and none that an earlier path took.
proof fn lemma_walk_fresh(segs: Seq<(PointKey, PointKey)>, prev: Seq<Seq<Step>>, p: Seq<Step>, s: int)
    requires
        is_walk(segs, prev, p, s),
    ensures
        forall|m: int| 0 <= m < p.len() ==> !in_any(prev, (#[trigger] p[m]).0 as int),
        forall|m1: int, m2: int|
            0 <= m1 < p.len() && 0 <= m2 < p.len() && m1 != m2 ==> (#[trigger] p[m1]).0 != (#[trigger] p[m2]).0,
{
    assert forall|m: int| 0 <= m < p.len() implies !in_any(prev, (#[trigger] p[m]).0 as int) by {
        if m > s {
            assert(p[m] == p[m]);
        } else if m < s {
            assert(p[m] == p[m]);
        }
    }
    assert forall|m1: int, m2: int|
        0 <= m1 < p.len() && 0 <= m2 < p.len() && m1 != m2 implies (#[trigger] p[m1]).0 != (#[trigger] p[m2]).0 by {
        let (a, b) = if m1 < m2 { (m1, m2) } else { (m2, m1) };
        if a >= s {
            let pre = p.subrange(s, b);
            assert(pre[a - s] == p[a]);
            assert(in_steps(pre, p[a].0 as int));
        } else {
            let pre = p.subrange(a + 1, p.len() as int);
            assert(pre[b - a - 1] == p[b]);
            assert(in_steps(pre, p[b].0 as int));
        }
    }
}

/// Law: stitching takes every segment into exactly one step of one path.
pub proof fn law_segments_taken_once(segs: Seq<(PointKey, PointKey)>, pss: Seq<Seq<Step>>, seeds: Seq<int>)
    requires
        pss.len() == seeds.len(),
        forall|c: int| 0 <= c < pss.len() ==> is_walk(segs, pss.take(c), #[trigger] pss[c], seeds[c]),
    ensures
        forall|c1: int, m1: int, c2: int, m2: int|
            0 <= c1 < pss.len() && 0 <= c2 < pss.len() && 0 <= m1 < pss[c1].len() && 0 <= m2 < pss[c2].len()
                && (#[trigger] pss[c1][m1]).0 == (#[trigger] pss[c2][m2]).0 ==> c1 == c2 && m1 == m2,
{
    assert forall|c1: int, m1: int, c2: int, m2: int|
        0 <= c1 < pss.len() && 0 <= c2 < pss.len() && 0 <= m1 < pss[c1].len() && 0 <= m2 < pss[c2].len()
            && (#[trigger] pss[c1][m1]).0 == (#[trigger] pss[c2][m2]).0 implies c1 == c2 && m1 == m2 by {
        lemma_walk_fresh(segs, pss.take(c1), pss[c1], seeds[c1]);
        lemma_walk_fresh(segs, pss.take(c2), pss[c2], seeds[c2]);
        if c1 < c2 {
            let prev = pss.take(c2);
            assert(prev[c1] == pss[c1]);
            assert(in_steps(prev[c1], pss[c1][m1].0 as int));
            assert(in_any(prev, pss[c2][m2].0 as int));
        } else if c2 < c1 {
            let prev = pss.take(c1);
            assert(prev[c2] == pss[c2]);
            assert(in_steps(prev[c2], pss[c2][m2].0 as int));
            assert(in_any(prev, pss[c1][m1].0 as int));
        }
    }
}

} // verus!
