//! The check whether a constructor may derive `Default`, done as a
//! recursion over its parameters in order: a parameter that is neither
//! built-in nor bare fails the check, and a parameter that names a
//! constructor passes only if that constructor passes. The recursion keeps
//! no record of the constructors it is checking, so a cycle of such names
//! can keep it going forever; the schemas on which it ends are those the
//! generator accepts, and on them its answer is `only_bare_at`.

use vstd::prelude::*;
use crate::graph::{is_walk, reachable};
use crate::graph::{count_false, lemma_count_false_set};
use crate::metadata::{
    all_params_simple, bare_edge, bare_edges, collect_type_defs, def_refs_view, defs_view, name_index,
    name_index_below, name_index_exec, only_bare_at, param_type_name, type_defs_of,
};
use crate::rustifier::is_builtin_type;
use crate::tl::definition::Definition;
use crate::rustifier::is_builtin_name;
use crate::tl::definition::DefinitionView;

verus! {

/// Parameter `q` of constructor `x` has a built-in or a bare type.
pub open spec fn param_simple(ds: Seq<DefinitionView>, x: int, q: int) -> bool {
    is_builtin_name(param_type_name(ds, x, q)) || ds[x].params[q].ty.bare
}

/// How the check of constructor `x` ends when at most `fuel` checks may be
/// nested: with its answer, or `None` when it needs more.
pub open spec fn bare_eval(ds: Seq<DefinitionView>, x: int, fuel: nat) -> Option<bool>
    decreases fuel, 0int,
{
    if fuel == 0 || x < 0 || x >= ds.len() {
        None
    } else {
        params_eval(ds, x, 0, (fuel - 1) as nat)
    }
}

/// How the check of the parameters of constructor `x` from position `q` on
/// ends when at most `fuel` checks may be nested.
pub open spec fn params_eval(ds: Seq<DefinitionView>, x: int, q: int, fuel: nat) -> Option<bool>
    decreases fuel, if 0 <= x < ds.len() && 0 <= q <= ds[x].params.len() {
        ds[x].params.len() + 1 - q
    } else {
        1int
    },
{
    if x < 0 || x >= ds.len() || q < 0 || q >= ds[x].params.len() {
        Some(true)
    } else if !param_simple(ds, x, q) {
        Some(false)
    } else {
        match name_index(ds, param_type_name(ds, x, q)) {
            None => params_eval(ds, x, q + 1, fuel),
            Some(j) => match bare_eval(ds, j, fuel) {
                None => None,
                Some(false) => Some(false),
                Some(true) => params_eval(ds, x, q + 1, fuel),
            },
        }
    }
}

/// The check of constructor `x` ends.
pub open spec fn bare_check_ends(ds: Seq<DefinitionView>, x: int) -> bool {
    exists|fuel: nat| (#[trigger] bare_eval(ds, x, fuel)) is Some
}

/// The check of `x` answers the same with more fuel once it has ended.
pub proof fn lemma_bare_eval_more_fuel(ds: Seq<DefinitionView>, x: int, f1: nat, f2: nat)
    requires
        bare_eval(ds, x, f1) is Some,
        f1 <= f2,
    ensures
        bare_eval(ds, x, f2) == bare_eval(ds, x, f1),
    decreases f1, 0int,
{
    if f1 > 0 && 0 <= x < ds.len() {
        lemma_params_eval_more_fuel(ds, x, 0, (f1 - 1) as nat, (f2 - 1) as nat);
    }
}

/// The check of the parameters of `x` from `q` on answers the same with
/// more fuel once it has ended.
pub proof fn lemma_params_eval_more_fuel(ds: Seq<DefinitionView>, x: int, q: int, f1: nat, f2: nat)
    requires
        params_eval(ds, x, q, f1) is Some,
        f1 <= f2,
    ensures
        params_eval(ds, x, q, f2) == params_eval(ds, x, q, f1),
    decreases f1, if 0 <= x < ds.len() && 0 <= q <= ds[x].params.len() {
        ds[x].params.len() + 1 - q
    } else {
        1int
    },
{
    if 0 <= x < ds.len() && 0 <= q < ds[x].params.len() && param_simple(ds, x, q) {
        match name_index(ds, param_type_name(ds, x, q)) {
            None => {
                lemma_params_eval_more_fuel(ds, x, q + 1, f1, f2);
            },
            Some(j) => {
                lemma_bare_eval_more_fuel(ds, j, f1, f2);
                if bare_eval(ds, j, f1) == Some(true) {
                    lemma_params_eval_more_fuel(ds, x, q + 1, f1, f2);
                }
            },
        }
    }
}

/// The parameters of `x` from position `q` on are built-in or bare, and
/// each constructor they name passes.
pub open spec fn params_pass(ds: Seq<DefinitionView>, x: int, q: int) -> bool {
    forall|r: int|
        q <= r < ds[x].params.len() ==> param_simple(ds, x, r) && match name_index(
            ds,
            #[trigger] param_type_name(ds, x, r),
        ) {
            Some(j) => only_bare_at(ds, j),
            None => true,
        }
}

/// A constructor found by name is one of the constructors.
pub proof fn lemma_name_index_below(ds: Seq<DefinitionView>, name: Seq<char>, j: int)
    requires
        j <= ds.len(),
    ensures
        match name_index_below(ds, name, j) {
            Some(k) => 0 <= k < j && ds[k].name == name,
            None => true,
        },
    decreases j,
{
    if j > 0 && ds[j - 1].name != name {
        lemma_name_index_below(ds, name, j - 1);
    }
}

/// A constructor passes exactly when its parameters are built-in or bare
/// and the constructors they name pass.
pub proof fn lemma_only_bare_unfold(ds: Seq<DefinitionView>, x: int)
    requires
        0 <= x < ds.len(),
    ensures
        only_bare_at(ds, x) == params_pass(ds, x, 0),
{
    let n = ds.len() as int;
    let e = bare_edges(ds);
    if only_bare_at(ds, x) {
        let w = seq![x];
        assert(is_walk(e, n, w, x, x));
        assert(all_params_simple(ds, x));
        assert forall|r: int| 0 <= r < ds[x].params.len() implies param_simple(ds, x, r) && match name_index(
            ds,
            #[trigger] param_type_name(ds, x, r),
        ) {
            Some(j) => only_bare_at(ds, j),
            None => true,
        } by {
            lemma_name_index_below(ds, param_type_name(ds, x, r), n);
            match name_index(ds, param_type_name(ds, x, r)) {
                Some(j) => {
                    assert(bare_edge(ds, x, j));
                    assert forall|k: int| 0 <= k < ds.len() && reachable(e, n, j, k) implies all_params_simple(
                        ds,
                        k,
                    ) by {
                        let p = choose|p: Seq<int>| is_walk(e, n, p, j, k);
                        let wp = seq![x] + p;
                        assert forall|t: int| 0 <= t < wp.len() - 1 implies e(#[trigger] wp[t], wp[t + 1]) by {
                            if t == 0 {
                                assert(wp[1] == p[0]);
                            } else {
                                assert(wp[t] == p[t - 1]);
                                assert(wp[t + 1] == p[t]);
                            }
                        }
                        assert(is_walk(e, n, wp, x, k));
                    }
                },
                None => {},
            }
        }
    } else {
        let k = choose|k: int| 0 <= k < ds.len() && reachable(e, n, x, k) && !all_params_simple(ds, k);
        let p = choose|p: Seq<int>| is_walk(e, n, p, x, k);
        if p.len() == 1 {
            assert(k == x);
            let r = choose|r: int| 0 <= r < ds[x].params.len() && !(is_builtin_name(#[trigger] param_type_name(ds, x, r)) || ds[x].params[r].ty.bare);
            assert(!param_simple(ds, x, r));
        } else {
            let j = p[1];
            assert(e(p[0], p[1]));
            assert(bare_edge(ds, x, j));
            let r = choose|r: int| 0 <= r < ds[x].params.len() && name_index(ds, #[trigger] param_type_name(ds, x, r)) == Some(j);
            let rest = p.drop_first();
            assert forall|t: int| 0 <= t < rest.len() - 1 implies e(#[trigger] rest[t], rest[t + 1]) by {
                assert(rest[t] == p[t + 1]);
                assert(rest[t + 1] == p[t + 2]);
            }
            assert(is_walk(e, n, rest, j, k));
            assert(!only_bare_at(ds, j));
            assert(!params_pass(ds, x, 0)) by {
                assert(param_type_name(ds, x, r) == param_type_name(ds, x, r));
            }
        }
    }
}

/// Once the check of `x` has ended, its answer is `only_bare_at`.
pub proof fn lemma_bare_eval_sound(ds: Seq<DefinitionView>, x: int, f: nat)
    requires
        bare_eval(ds, x, f) is Some,
    ensures
        bare_eval(ds, x, f) == Some(only_bare_at(ds, x)),
    decreases f, 0int,
{
    lemma_params_eval_sound(ds, x, 0, (f - 1) as nat);
    lemma_only_bare_unfold(ds, x);
}

proof fn lemma_params_eval_sound(ds: Seq<DefinitionView>, x: int, q: int, f: nat)
    requires
        0 <= x < ds.len(),
        0 <= q <= ds[x].params.len(),
        params_eval(ds, x, q, f) is Some,
    ensures
        params_eval(ds, x, q, f) == Some(params_pass(ds, x, q)),
    decreases f, ds[x].params.len() + 1 - q,
{
    if q < ds[x].params.len() {
        if !param_simple(ds, x, q) {
            assert(param_type_name(ds, x, q) == param_type_name(ds, x, q));
        } else {
            match name_index(ds, param_type_name(ds, x, q)) {
                None => {
                    lemma_params_eval_sound(ds, x, q + 1, f);
                    assert(params_pass(ds, x, q) == params_pass(ds, x, q + 1)) by {
                        assert(param_type_name(ds, x, q) == param_type_name(ds, x, q));
                    }
                },
                Some(j) => {
                    lemma_bare_eval_sound(ds, j, f);
                    if only_bare_at(ds, j) {
                        lemma_params_eval_sound(ds, x, q + 1, f);
                        assert(params_pass(ds, x, q) == params_pass(ds, x, q + 1)) by {
                            assert(param_type_name(ds, x, q) == param_type_name(ds, x, q));
                        }
                    } else {
                        assert(!params_pass(ds, x, q)) by {
                            assert(param_type_name(ds, x, q) == param_type_name(ds, x, q));
                        }
                    }
                },
            }
        }
    }
}

/// Parameter `r` of `x` is built-in or bare, and the constructor it names,
/// if any, passes the check with `fuel`.
pub open spec fn sibling_ok_at(ds: Seq<DefinitionView>, x: int, r: int, fuel: nat) -> bool {
    param_simple(ds, x, r) && match name_index(ds, param_type_name(ds, x, r)) {
        Some(j) => bare_eval(ds, j, fuel) == Some(true),
        None => true,
    }
}

/// Parameter `r` of `x` is built-in or bare, and the check of the
/// constructor it names, if any, ends with a pass.
pub open spec fn sibling_passes(ds: Seq<DefinitionView>, x: int, r: int) -> bool {
    param_simple(ds, x, r) && match name_index(ds, param_type_name(ds, x, r)) {
        Some(j) => exists|f: nat| #[trigger] bare_eval(ds, j, f) == Some(true),
        None => true,
    }
}

/// Checking `x` comes to check `y`: the parameters before some parameter
/// `q` pass, and `q` is built-in or bare and names `y`.
pub open spec fn check_step(ds: Seq<DefinitionView>, x: int, y: int) -> bool {
    &&& 0 <= x < ds.len()
    &&& exists|q: int|
        0 <= q < ds[x].params.len() && param_simple(ds, x, q) && name_index(
            ds,
            #[trigger] param_type_name(ds, x, q),
        ) == Some(y) && forall|r: int| 0 <= r < q ==> sibling_passes(ds, x, r)
}

/// The check of `x` never ends.
pub open spec fn bare_check_diverges(ds: Seq<DefinitionView>, x: int) -> bool {
    forall|g: nat| (#[trigger] bare_eval(ds, x, g)) is None
}

/// With the parameters before `q` passing at `fuel`, the check of the
/// parameters from the start goes on as from `q`.
proof fn lemma_params_prefix(ds: Seq<DefinitionView>, x: int, q: int, p: int, fuel: nat, g: nat)
    requires
        0 <= x < ds.len(),
        0 <= p <= q <= ds[x].params.len(),
        forall|r: int| 0 <= r < q ==> sibling_ok_at(ds, x, r, fuel),
        fuel <= g,
    ensures
        params_eval(ds, x, p, g) == params_eval(ds, x, q, g),
    decreases q - p,
{
    if p < q {
        lemma_params_prefix(ds, x, q, p + 1, fuel, g);
        assert(sibling_ok_at(ds, x, p, fuel));
        match name_index(ds, param_type_name(ds, x, p)) {
            Some(j) => {
                lemma_bare_eval_more_fuel(ds, j, fuel, g);
            },
            None => {},
        }
    }
}

/// A step whose target does not end with `g` keeps its source from ending
/// with `g + 1`.
proof fn lemma_step_stalls(ds: Seq<DefinitionView>, x: int, y: int, g: nat)
    requires
        check_step(ds, x, y),
        bare_eval(ds, y, g) is None,
    ensures
        bare_eval(ds, x, g + 1) is None,
{
    let q = choose|q: int|
        0 <= q < ds[x].params.len() && param_simple(ds, x, q) && name_index(
            ds,
            #[trigger] param_type_name(ds, x, q),
        ) == Some(y) && forall|r: int| 0 <= r < q ==> sibling_passes(ds, x, r);
    lemma_stall_from(ds, x, y, q, 0, g);
}

proof fn lemma_stall_from(ds: Seq<DefinitionView>, x: int, y: int, q: int, p: int, g: nat)
    requires
        0 <= x < ds.len(),
        0 <= p <= q < ds[x].params.len(),
        param_simple(ds, x, q),
        name_index(ds, param_type_name(ds, x, q)) == Some(y),
        forall|r: int| 0 <= r < q ==> sibling_passes(ds, x, r),
        bare_eval(ds, y, g) is None,
    ensures
        params_eval(ds, x, p, g) is None,
    decreases q - p,
{
    if p < q {
        lemma_stall_from(ds, x, y, q, p + 1, g);
        assert(sibling_passes(ds, x, p));
        match name_index(ds, param_type_name(ds, x, p)) {
            Some(j) => {
                let f = choose|f: nat| #[trigger] bare_eval(ds, j, f) == Some(true);
                if bare_eval(ds, j, g) is Some {
                    if g <= f {
                        lemma_bare_eval_more_fuel(ds, j, g, f);
                    } else {
                        lemma_bare_eval_more_fuel(ds, j, f, g);
                    }
                }
            },
            None => {},
        }
    }
}

/// A constructor whose check comes to one that never ends never ends.
proof fn lemma_step_diverges(ds: Seq<DefinitionView>, x: int, y: int)
    requires
        check_step(ds, x, y),
        bare_check_diverges(ds, y),
    ensures
        bare_check_diverges(ds, x),
{
    assert forall|g: nat| (#[trigger] bare_eval(ds, x, g)) is None by {
        if g > 0 {
            assert(bare_eval(ds, y, (g - 1) as nat) is None);
            lemma_step_stalls(ds, x, y, (g - 1) as nat);
        }
    }
}

/// The checks around a cycle of steps never end.
proof fn lemma_cycle_diverges(ds: Seq<DefinitionView>, c: Seq<int>, m: int, g: nat)
    requires
        c.len() >= 2,
        c[0] == c.last(),
        forall|t: int| 0 <= t < c.len() - 1 ==> check_step(ds, #[trigger] c[t], c[t + 1]),
        0 <= m < c.len() - 1,
    ensures
        bare_eval(ds, c[m], g) is None,
    decreases g,
{
    if g > 0 {
        assert(check_step(ds, c[m], c[m + 1]));
        if m + 1 < c.len() - 1 {
            lemma_cycle_diverges(ds, c, m + 1, (g - 1) as nat);
        } else {
            lemma_cycle_diverges(ds, c, 0, (g - 1) as nat);
        }
        lemma_step_stalls(ds, c[m], c[m + 1], (g - 1) as nat);
    }
}

/// Runs the check of constructor `x` as the recursion does, noticing when
/// it comes back to a constructor it is already checking (`on_stack`, the
/// constructors of `path`): the recursion would then never end.
fn check_from(
    tdefs: &Vec<&Definition>,
    x: usize,
    on_stack: &mut Vec<bool>,
    Ghost(path): Ghost<Seq<int>>,
) -> (r: Option<bool>)
    requires
        x < tdefs.len(),
        old(on_stack).len() == tdefs.len(),
        !old(on_stack)@[x as int],
        forall|k: int| 0 <= k < tdefs.len() ==> (old(on_stack)@[k] <==> path.contains(k)),
        forall|t: int|
            0 <= t < path.len() - 1 ==> check_step(def_refs_view(tdefs@), #[trigger] path[t], path[t + 1]),
        path.len() > 0 ==> check_step(def_refs_view(tdefs@), path.last(), x as int),
    ensures
        final(on_stack)@ == old(on_stack)@,
        match r {
            Some(b) => exists|f: nat| #[trigger] bare_eval(def_refs_view(tdefs@), x as int, f) == Some(b),
            None => bare_check_diverges(def_refs_view(tdefs@), x as int),
        },
    decreases count_false(old(on_stack)@),
{
    let ghost ds = def_refs_view(tdefs@);
    let ghost start = on_stack@;
    let ghost xi = x as int;
    proof {
        lemma_count_false_set(on_stack@, xi);
    }
    on_stack.set(x, true);
    let ghost path2 = path.push(xi);
    let d = tdefs[x];
    assert(ds[xi] == d@);
    let ghost mut fuel: nat = 0;
    let mut q: usize = 0;
    while q < d.params.len()
        invariant
            x < tdefs.len(),
            ds == def_refs_view(tdefs@),
            ds[xi] == d@,
            xi == x as int,
            q <= d.params.len(),
            on_stack@ == start.update(xi, true),
            start.len() == tdefs.len(),
            start == old(on_stack)@,
            on_stack.len() == tdefs.len(),
            count_false(on_stack@) + 1 == count_false(start),
            !start[xi],
            forall|k: int| 0 <= k < tdefs.len() ==> (start[k] <==> path.contains(k)),
            path2 == path.push(xi),
            forall|t: int| 0 <= t < path.len() - 1 ==> check_step(ds, #[trigger] path[t], path[t + 1]),
            path.len() > 0 ==> check_step(ds, path.last(), xi),
            forall|r: int| 0 <= r < q ==> sibling_ok_at(ds, xi, r, fuel),
        decreases d.params.len() - q,
    {
        let p = &d.params[q];
        let ghost qi = q as int;
        assert(param_type_name(ds, xi, qi) == p.ty.name@);
        assert(ds[xi].params[qi].ty.bare == p.ty.bare);
        if !is_builtin_type(p) && !p.ty.bare {
            proof {
                lemma_params_prefix(ds, xi, qi, 0, fuel, fuel);
                assert(bare_eval(ds, xi, fuel + 1) == Some(false));
            }
            on_stack.set(x, false);
            assert(on_stack@ =~= start) by {
                assert(!start[xi]);
            }
            return Some(false);
        }
        match name_index_exec(tdefs, &p.ty.name) {
            None => {},
            Some(y) => {
                let ghost yi = y as int;
                proof {
                    assert forall|r: int| 0 <= r < qi implies sibling_passes(ds, xi, r) by {
                        assert(sibling_ok_at(ds, xi, r, fuel));
                        match name_index(ds, param_type_name(ds, xi, r)) {
                            Some(j) => {
                                assert(bare_eval(ds, j, fuel) == Some(true));
                            },
                            None => {},
                        }
                    }
                    assert(check_step(ds, xi, yi));
                }
                if on_stack[y] {
                    proof {
                        if yi == xi {
                            let c = seq![xi, xi];
                            assert forall|g: nat| (#[trigger] bare_eval(ds, xi, g)) is None by {
                                lemma_cycle_diverges(ds, c, 0, g);
                            }
                        } else {
                            assert(on_stack@[yi]);
                            assert(start[yi]);
                            assert(path.contains(yi));
                            let t = choose|t: int| 0 <= t < path.len() && path[t] == yi;
                            let c = path.subrange(t, path.len() as int) + seq![xi, yi];
                            assert forall|u: int| 0 <= u < c.len() - 1 implies check_step(
                                ds,
                                #[trigger] c[u],
                                c[u + 1],
                            ) by {
                                if u < path.len() - t - 1 {
                                    assert(c[u] == path[t + u]);
                                    assert(c[u + 1] == path[t + u + 1]);
                                } else if u == path.len() - t - 1 {
                                    assert(c[u] == path.last());
                                    assert(c[u + 1] == xi);
                                } else {
                                    assert(c[u] == xi);
                                    assert(c[u + 1] == yi);
                                }
                            }
                            let mx = path.len() - t;
                            assert(c[mx] == xi);
                            assert forall|g: nat| (#[trigger] bare_eval(ds, xi, g)) is None by {
                                lemma_cycle_diverges(ds, c, mx, g);
                            }
                        }
                    }
                    on_stack.set(x, false);
                    assert(on_stack@ =~= start) by {
                        assert(!start[xi]);
                    }
                    return None;
                }
                proof {
                    assert forall|k: int| 0 <= k < tdefs.len() implies (on_stack@[k] <==> path2.contains(k)) by {
                        if k == xi {
                            assert(path2[path.len() as int] == xi);
                        } else {
                            if path.contains(k) {
                                let t = choose|t: int| 0 <= t < path.len() && path[t] == k;
                                assert(path2[t] == k);
                            }
                            if path2.contains(k) {
                                let t = choose|t: int| 0 <= t < path2.len() && path2[t] == k;
                                assert(t < path.len());
                                assert(path[t] == k);
                            }
                        }
                    }
                    assert forall|t: int| 0 <= t < path2.len() - 1 implies check_step(
                        ds,
                        #[trigger] path2[t],
                        path2[t + 1],
                    ) by {
                        if t < path.len() - 1 {
                            assert(path2[t] == path[t]);
                            assert(path2[t + 1] == path[t + 1]);
                        } else {
                            assert(path2[t] == path.last());
                            assert(path2[t + 1] == xi);
                        }
                    }
                    assert(path2.last() == xi);
                }
                let res = check_from(tdefs, y, on_stack, Ghost(path2));
                match res {
                    None => {
                        proof {
                            lemma_step_diverges(ds, xi, yi);
                        }
                        on_stack.set(x, false);
                        assert(on_stack@ =~= start) by {
                            assert(!start[xi]);
                        }
                        return None;
                    },
                    Some(b) => {
                        proof {
                            let fy = choose|f: nat| #[trigger] bare_eval(ds, yi, f) == Some(b);
                            let nf: nat = if fy > fuel {
                                fy
                            } else {
                                fuel
                            };
                            lemma_bare_eval_more_fuel(ds, yi, fy, nf);
                            assert forall|r: int| 0 <= r < qi implies sibling_ok_at(ds, xi, r, nf) by {
                                assert(sibling_ok_at(ds, xi, r, fuel));
                                match name_index(ds, param_type_name(ds, xi, r)) {
                                    Some(j) => {
                                        lemma_bare_eval_more_fuel(ds, j, fuel, nf);
                                    },
                                    None => {},
                                }
                            }
                            fuel = nf;
                        }
                        if !b {
                            proof {
                                lemma_params_prefix(ds, xi, qi, 0, fuel, fuel);
                                assert(bare_eval(ds, xi, fuel + 1) == Some(false));
                            }
                            on_stack.set(x, false);
                            assert(on_stack@ =~= start) by {
                                assert(!start[xi]);
                            }
                            return Some(false);
                        }
                    },
                }
            },
        }
        q += 1;
    }
    proof {
        lemma_params_prefix(ds, xi, d.params.len() as int, 0, fuel, fuel);
        assert(bare_eval(ds, xi, fuel + 1) == Some(true));
    }
    on_stack.set(x, false);
    assert(on_stack@ =~= start) by {
        assert(!start[xi]);
    }
    Some(true)
}

/// Whether the check of every data-type constructor of the definitions
/// ends; the metadata of a schema can only be computed when it does.
pub fn bare_checks_end(definitions: &[Definition]) -> (r: bool)
    ensures
        r == forall|i: int|
            0 <= i < type_defs_of(defs_view(definitions@)).len() ==> bare_check_ends(
                type_defs_of(defs_view(definitions@)),
                i,
            ),
{
    let tdefs = collect_type_defs(definitions);
    let ghost ds = def_refs_view(tdefs@);
    let n = tdefs.len();
    let mut on_stack: Vec<bool> = Vec::new();
    let mut k: usize = 0;
    while k < n
        invariant
            k <= n,
            n == tdefs.len(),
            on_stack.len() == k,
            forall|a: int| 0 <= a < k ==> !on_stack@[a],
        decreases n - k,
    {
        on_stack.push(false);
        k += 1;
    }
    let mut i: usize = 0;
    while i < n
        invariant
            i <= n,
            n == tdefs.len(),
            ds == def_refs_view(tdefs@),
            ds == type_defs_of(defs_view(definitions@)),
            on_stack.len() == n,
            forall|a: int| 0 <= a < n ==> !on_stack@[a],
            forall|a: int| 0 <= a < i ==> bare_check_ends(ds, a),
        decreases n - i,
    {
        let ghost empty = Seq::<int>::empty();
        assert forall|a: int| 0 <= a < n implies (on_stack@[a] <==> empty.contains(a)) by {}
        match check_from(&tdefs, i, &mut on_stack, Ghost(empty)) {
            None => {
                proof {
                    if bare_check_ends(ds, i as int) {
                        let f = choose|f: nat| (#[trigger] bare_eval(ds, i as int, f)) is Some;
                        assert(bare_eval(ds, i as int, f) is None);
                    }
                    assert(!bare_check_ends(ds, i as int));
                }
                return false;
            },
            Some(_) => {},
        }
        i += 1;
    }
    true
}

} // verus!
