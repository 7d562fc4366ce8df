//! Reachability in a finite directed graph whose nodes are `0..n`.

use vstd::prelude::*;

verus! {

/// `p` is a walk from `i` to `j` along `e` through nodes below `n`.
pub open spec fn is_walk(e: spec_fn(int, int) -> bool, n: int, p: Seq<int>, i: int, j: int) -> bool {
    &&& p.len() >= 1
    &&& p[0] == i
    &&& p.last() == j
    &&& forall|t: int| 0 <= t < p.len() ==> 0 <= #[trigger] p[t] < n
    &&& forall|t: int| 0 <= t < p.len() - 1 ==> e(#[trigger] p[t], p[t + 1])
}

/// `j` can be reached from `i` along `e` (in zero or more steps).
pub open spec fn reachable(e: spec_fn(int, int) -> bool, n: int, i: int, j: int) -> bool {
    exists|p: Seq<int>| is_walk(e, n, p, i, j)
}

/// The adjacency lists `g` hold exactly the edges of `e` among the nodes below `g.len()`.
pub open spec fn lists_edges(g: Seq<Vec<usize>>, e: spec_fn(int, int) -> bool) -> bool {
    &&& forall|k: int, t: int| 0 <= k < g.len() && 0 <= t < g[k]@.len() ==> #[trigger] g[k]@[t] < g.len()
    &&& forall|k: int, t: int| 0 <= k < g.len() && 0 <= t < g[k]@.len() ==> e(k, #[trigger] g[k]@[t] as int)
    &&& forall|k: int, j: int|
        0 <= k < g.len() && 0 <= j < g.len() && #[trigger] e(k, j) ==> g[k]@.contains(j as usize)
}

/// Number of `false` entries.
pub open spec fn count_false(v: Seq<bool>) -> nat
    decreases v.len(),
{
    if v.len() == 0 {
        0
    } else {
        count_false(v.drop_last()) + if v.last() {
            0nat
        } else {
            1nat
        }
    }
}

/// Setting a `false` entry to `true` lowers the count of `false` entries
/// by one.
pub proof fn lemma_count_false_set(v: Seq<bool>, j: int)
    requires
        0 <= j < v.len(),
        !v[j],
    ensures
        count_false(v.update(j, true)) + 1 == count_false(v),
    decreases v.len(),
{
    if j < v.len() - 1 {
        lemma_count_false_set(v.drop_last(), j);
        assert(v.update(j, true).drop_last() =~= v.drop_last().update(j, true));
    } else {
        assert(v.update(j, true).drop_last() =~= v.drop_last());
    }
}

/// A set closed under `e` that holds `i` holds every node of a walk from `i`.
proof fn lemma_closed_holds_walk(
    e: spec_fn(int, int) -> bool,
    n: int,
    vis: Seq<bool>,
    p: Seq<int>,
    i: int,
    j: int,
    t: int,
)
    requires
        vis.len() == n,
        vis[i],
        forall|k: int, m: int| 0 <= k < n && 0 <= m < n && vis[k] && #[trigger] e(k, m) ==> vis[m],
        is_walk(e, n, p, i, j),
        0 <= t < p.len(),
    ensures
        vis[p[t]],
    decreases t,
{
    if t > 0 {
        lemma_closed_holds_walk(e, n, vis, p, i, j, t - 1);
        assert(e(p[t - 1], p[t]));
    }
}

/// Marks the nodes reachable from `start` along the edges listed in `g`.
pub fn reachable_set(g: &Vec<Vec<usize>>, start: usize, Ghost(e): Ghost<spec_fn(int, int) -> bool>) -> (r: Vec<bool>)
    requires
        start < g.len(),
        lists_edges(g@, e),
    ensures
        r.len() == g.len(),
        forall|j: int| 0 <= j < g.len() ==> (r@[j] <==> reachable(e, g.len() as int, start as int, j)),
{
    let n = g.len();
    let ghost ni = n as int;
    let mut visited: Vec<bool> = Vec::new();
    let mut t: usize = 0;
    while t < n
        invariant
            t <= n,
            visited.len() == t,
            forall|m: int| 0 <= m < t ==> !visited@[m],
        decreases n - t,
    {
        visited.push(false);
        t += 1;
    }
    visited.set(start, true);
    assert(is_walk(e, ni, seq![start as int], start as int, start as int));
    assert forall|m: int| 0 <= m < n && visited@[m] implies m == start as int by {}
    let mut stack: Vec<usize> = Vec::new();
    stack.push(start);
    assert(stack@[0] == start);
    assert(stack@.contains(start));
    while stack.len() > 0
        invariant
            n == g.len(),
            ni == n,
            lists_edges(g@, e),
            start < n,
            visited.len() == n,
            visited@[start as int],
            forall|m: int| 0 <= m < stack.len() ==> #[trigger] stack@[m] < n,
            forall|m: int| 0 <= m < stack.len() ==> visited@[#[trigger] stack@[m] as int],
            forall|j: int| 0 <= j < n && #[trigger] visited@[j] ==> reachable(e, ni, start as int, j),
            forall|k: int, m: int|
                0 <= k < n && 0 <= m < n && visited@[k] && !stack@.contains(k as usize) && #[trigger] e(k, m)
                    ==> visited@[m],
        decreases count_false(visited@), stack.len(),
    {
        let ghost old_stack = stack@;
        let ghost old_count = count_false(visited@);
        let k = stack.pop().unwrap();
        assert(stack@ =~= old_stack.drop_last());
        assert forall|m: int| 0 <= m < old_stack.len() - 1 implies stack@.contains(#[trigger] old_stack[m]) by {
            assert(stack@[m] == old_stack[m]);
        }
        let succ = &g[k];
        let mut t: usize = 0;
        while t < succ.len()
            invariant
                n == g.len(),
                ni == n,
                lists_edges(g@, e),
                k < n,
                succ == &g@[k as int],
                start < n,
                t <= succ.len(),
                visited.len() == n,
                visited@[start as int],
                visited@[k as int],
                reachable(e, ni, start as int, k as int),
                stack.len() + count_false(visited@) + 1 == old_stack.len() + old_count,
                stack.len() + 1 >= old_stack.len(),
                forall|m: int| 0 <= m < t ==> visited@[#[trigger] succ@[m] as int],
                forall|m: int| 0 <= m < stack.len() ==> #[trigger] stack@[m] < n,
                forall|m: int| 0 <= m < stack.len() ==> visited@[#[trigger] stack@[m] as int],
                forall|m: int| 0 <= m < old_stack.len() - 1 ==> stack@.contains(#[trigger] old_stack[m]),
                forall|j: int| 0 <= j < n && #[trigger] visited@[j] ==> reachable(e, ni, start as int, j),
                forall|a: int, m: int|
                    0 <= a < n && 0 <= m < n && visited@[a] && !old_stack.contains(a as usize)
                        && !stack@.contains(a as usize) && #[trigger] e(a, m) ==> visited@[m],
            decreases succ.len() - t,
        {
            let j = succ[t];
            assert(j < n);
            if !visited[j] {
                proof {
                    lemma_count_false_set(visited@, j as int);
                    assert(e(k as int, j as int));
                    let p = choose|p: Seq<int>| is_walk(e, ni, p, start as int, k as int);
                    assert(is_walk(e, ni, p.push(j as int), start as int, j as int));
                }
                let ghost before = stack@;
                visited.set(j, true);
                stack.push(j);
                assert(stack@[stack.len() - 1] == j);
                assert(stack@.contains(j));
                assert forall|m: int| 0 <= m < before.len() implies stack@.contains(#[trigger] before[m]) by {
                    assert(stack@[m] == before[m]);
                }
                assert forall|m: int| 0 <= m < old_stack.len() - 1 implies stack@.contains(#[trigger] old_stack[m]) by {
                    let w = choose|w: int| 0 <= w < before.len() && before[w] == old_stack[m];
                    assert(stack@[w] == old_stack[m]);
                }
            }
            t += 1;
        }
        proof {
            assert forall|a: int, m: int|
                0 <= a < n && 0 <= m < n && visited@[a] && !stack@.contains(a as usize) && #[trigger] e(a, m)
                    implies visited@[m] by {
                if a == k as int {
                    assert(g@[k as int]@.contains(m as usize));
                    let w = choose|w: int| 0 <= w < succ@.len() && succ@[w] == m as usize;
                    assert(visited@[succ@[w] as int]);
                } else if old_stack.contains(a as usize) && !stack@.contains(a as usize) {
                    let w = choose|w: int| 0 <= w < old_stack.len() && old_stack[w] == a as usize;
                    if w < old_stack.len() - 1 {
                        assert(stack@.contains(old_stack[w]));
                    }
                }
            }
        }
    }
    proof {
        assert forall|j: int| 0 <= j < n implies (visited@[j] <==> reachable(e, ni, start as int, j)) by {
            if reachable(e, ni, start as int, j) {
                let p = choose|p: Seq<int>| is_walk(e, ni, p, start as int, j);
                lemma_closed_holds_walk(e, ni, visited@, p, start as int, j, p.len() - 1);
            }
        }
    }
    visited
}

/// Some entry is `false` when the count of `false` entries is positive.
pub proof fn lemma_count_false_positive(v: Seq<bool>)
    requires
        count_false(v) > 0,
    ensures
        exists|j: int| 0 <= j < v.len() && !v[j],
    decreases v.len(),
{
    if v.len() > 0 && v.last() {
        lemma_count_false_positive(v.drop_last());
        let j = choose|j: int| 0 <= j < v.drop_last().len() && !v.drop_last()[j];
        assert(!v[j]);
    } else if v.len() > 0 {
        assert(!v[v.len() - 1]);
    }
}

/// A sequence of `false` entries counts all of them.
pub proof fn lemma_count_false_all(v: Seq<bool>)
    requires
        forall|j: int| 0 <= j < v.len() ==> !v[j],
    ensures
        count_false(v) == v.len(),
    decreases v.len(),
{
    if v.len() > 0 {
        lemma_count_false_all(v.drop_last());
    }
}

} // verus!
