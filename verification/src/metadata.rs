//! Facts about a whole schema that several parts of the generator need:
//! which constructors recurse (and so must be boxed), which may derive
//! `Default`, the constructors of each type and the class descriptions.

use vstd::prelude::*;
use crate::bare::bare_check_ends;
use crate::graph::{lists_edges, reachable, reachable_set};
use crate::rustifier::{is_builtin_name, is_builtin_type};
use crate::tl::definition::{Category, Definition, DefinitionView};
use crate::text::str_eq;
use crate::tl::ty::Type;

verus! {

/// Models of the definitions.
pub open spec fn defs_view(defs: Seq<Definition>) -> Seq<DefinitionView> {
    defs.map_values(|d: Definition| d@)
}

/// Models of the referenced definitions.
pub open spec fn def_refs_view(defs: Seq<&Definition>) -> Seq<DefinitionView> {
    defs.map_values(|d: &Definition| d@)
}

/// The definitions of data types (not functions), in order.
pub open spec fn type_defs_of(defs: Seq<DefinitionView>) -> Seq<DefinitionView>
    decreases defs.len(),
{
    if defs.len() == 0 {
        Seq::empty()
    } else if defs.last().category == Category::Types {
        type_defs_of(defs.drop_last()).push(defs.last())
    } else {
        type_defs_of(defs.drop_last())
    }
}

/// Function definitions do not affect the metadata: keeping only the data
/// types of a schema keeps its data-type definitions, which are all that
/// `Metadata::new` computes from (so both give the same answers).
pub proof fn lemma_type_defs_ignore_functions(defs: Seq<DefinitionView>)
    ensures
        type_defs_of(type_defs_of(defs)) == type_defs_of(defs),
    decreases defs.len(),
{
    if defs.len() > 0 {
        lemma_type_defs_ignore_functions(defs.drop_last());
        let prev = type_defs_of(defs.drop_last());
        if defs.last().category == Category::Types {
            assert(prev.push(defs.last()).drop_last() =~= prev);
        }
    }
}

/// The last constructor below position `j` named `name`.
pub open spec fn name_index_below(ds: Seq<DefinitionView>, name: Seq<char>, j: int) -> Option<int>
    decreases j,
{
    if j <= 0 {
        None
    } else if ds[j - 1].name == name {
        Some(j - 1)
    } else {
        name_index_below(ds, name, j - 1)
    }
}

/// The constructor named `name` (the last one, should several share it).
pub open spec fn name_index(ds: Seq<DefinitionView>, name: Seq<char>) -> Option<int> {
    name_index_below(ds, name, ds.len() as int)
}

/// The name of the type of parameter `pi` of constructor `k`.
pub open spec fn param_type_name(ds: Seq<DefinitionView>, k: int, pi: int) -> Seq<char> {
    ds[k].params[pi].ty.name
}

/// A parameter of constructor `k` holds a value of constructor `j`: its type
/// is the type of `j`, or it names `j` itself (a bare type).
pub open spec fn type_edge(ds: Seq<DefinitionView>, k: int, j: int) -> bool {
    &&& 0 <= k < ds.len()
    &&& 0 <= j < ds.len()
    &&& exists|pi: int|
        0 <= pi < ds[k].params.len() && (#[trigger] param_type_name(ds, k, pi) == ds[j].ty.name
            || name_index(ds, param_type_name(ds, k, pi)) == Some(j))
}

/// The relation `type_edge` on a schema.
pub open spec fn type_edges(ds: Seq<DefinitionView>) -> spec_fn(int, int) -> bool {
    |k: int, j: int| type_edge(ds, k, j)
}

/// A parameter of constructor `k` has the type of constructor `r`, directly or
/// by naming a constructor of that type.
pub open spec fn mentions_type_of(ds: Seq<DefinitionView>, k: int, r: int) -> bool {
    exists|pi: int|
        0 <= pi < ds[k].params.len() && (#[trigger] param_type_name(ds, k, pi) == ds[r].ty.name
            || match name_index(ds, param_type_name(ds, k, pi)) {
            Some(j) => ds[j].ty.name == ds[r].ty.name,
            None => false,
        })
}

/// Constructor `i` eventually contains a value of its own type: some
/// constructor reachable from it mentions that type.
pub open spec fn is_recursive_at(ds: Seq<DefinitionView>, i: int) -> bool {
    exists|j: int|
        0 <= j < ds.len() && reachable(type_edges(ds), ds.len() as int, i, j) && mentions_type_of(
            ds,
            j,
            i,
        )
}

/// A parameter of constructor `k` names constructor `j` (a bare type).
pub open spec fn bare_edge(ds: Seq<DefinitionView>, k: int, j: int) -> bool {
    &&& 0 <= k < ds.len()
    &&& 0 <= j < ds.len()
    &&& exists|pi: int|
        0 <= pi < ds[k].params.len() && name_index(ds, #[trigger] param_type_name(ds, k, pi)) == Some(
            j,
        )
}

/// The relation `bare_edge` on a schema.
pub open spec fn bare_edges(ds: Seq<DefinitionView>) -> spec_fn(int, int) -> bool {
    |k: int, j: int| bare_edge(ds, k, j)
}

/// Every parameter of constructor `m` has a built-in or a bare type.
pub open spec fn all_params_simple(ds: Seq<DefinitionView>, m: int) -> bool {
    forall|pi: int|
        0 <= pi < ds[m].params.len() ==> is_builtin_name(#[trigger] param_type_name(ds, m, pi))
            || ds[m].params[pi].ty.bare
}

/// Constructor `i` and every constructor it names, transitively, have only
/// built-in or bare parameter types.
pub open spec fn only_bare_at(ds: Seq<DefinitionView>, i: int) -> bool {
    forall|j: int|
        0 <= j < ds.len() && reachable(bare_edges(ds), ds.len() as int, i, j)
            ==> all_params_simple(ds, j)
}

/// Some constructor named `name` is recursive.
pub open spec fn recursive_by_name(ds: Seq<DefinitionView>, name: Seq<char>) -> bool {
    exists|i: int| 0 <= i < ds.len() && ds[i].name == name && is_recursive_at(ds, i)
}

/// Some constructor named `name` may derive `Default`.
pub open spec fn default_by_name(ds: Seq<DefinitionView>, name: Seq<char>) -> bool {
    exists|i: int| 0 <= i < ds.len() && ds[i].name == name && only_bare_at(ds, i)
}

/// The constructors whose type is named `name`, in order.
pub open spec fn defs_of_type(ds: Seq<DefinitionView>, name: Seq<char>) -> Seq<DefinitionView>
    decreases ds.len(),
{
    if ds.len() == 0 {
        Seq::empty()
    } else if ds.last().ty.name == name {
        defs_of_type(ds.drop_last(), name).push(ds.last())
    } else {
        defs_of_type(ds.drop_last(), name)
    }
}

/// The class description of type `name`: that of its last constructor that has one.
pub open spec fn class_description_of(ds: Seq<DefinitionView>, name: Seq<char>) -> Option<Seq<char>>
    decreases ds.len(),
{
    if ds.len() == 0 {
        None
    } else if ds.last().ty.name == name && ds.last().class_description is Some {
        ds.last().class_description
    } else {
        class_description_of(ds.drop_last(), name)
    }
}

/// Additional metadata required by several parts of the generation.
pub struct Metadata<'a> {
    type_defs: Vec<&'a Definition>,
    recursing_defs: Vec<bool>,
    default_impl_defs: Vec<bool>,
}

impl<'a> Metadata<'a> {
    /// The data-type definitions the metadata was computed from.
    pub closed spec fn type_defs(self) -> Seq<DefinitionView> {
        def_refs_view(self.type_defs@)
    }

    #[verifier::type_invariant]
    closed spec fn inv(self) -> bool {
        &&& self.recursing_defs.len() == self.type_defs.len()
        &&& self.default_impl_defs.len() == self.type_defs.len()
        &&& forall|i: int|
            0 <= i < self.type_defs.len() ==> (self.recursing_defs@[i] <==> is_recursive_at(
                self.type_defs(),
                i,
            ))
        &&& forall|i: int|
            0 <= i < self.type_defs.len() ==> (self.default_impl_defs@[i] <==> only_bare_at(
                self.type_defs(),
                i,
            ))
    }
}

/// Model of an optional position.
pub open spec fn opt_index(o: Option<usize>) -> Option<int> {
    match o {
        Some(j) => Some(j as int),
        None => None,
    }
}

proof fn lemma_push_keeps(s: Seq<usize>, y: usize)
    ensures
        forall|x: usize| s.contains(x) ==> #[trigger] s.push(y).contains(x),
        s.push(y).contains(y),
{
    assert forall|x: usize| s.contains(x) implies #[trigger] s.push(y).contains(x) by {
        let t = choose|t: int| 0 <= t < s.len() && s[t] == x;
        assert(s.push(y)[t] == x);
    }
    assert(s.push(y)[s.len() as int] == y);
}

pub(crate) fn collect_type_defs<'a>(definitions: &'a [Definition]) -> (r: Vec<&'a Definition>)
    ensures
        def_refs_view(r@) == type_defs_of(defs_view(definitions@)),
{
    let ghost all = defs_view(definitions@);
    let mut r: Vec<&'a Definition> = Vec::new();
    let mut i: usize = 0;
    while i < definitions.len()
        invariant
            i <= definitions.len(),
            all == defs_view(definitions@),
            def_refs_view(r@) == type_defs_of(all.take(i as int)),
        decreases definitions.len() - i,
    {
        let d = &definitions[i];
        assert(all.take(i + 1).drop_last() =~= all.take(i as int));
        assert(all.take(i + 1).last() == d@);
        match d.category {
            Category::Types => {
                let ghost before = r@;
                r.push(d);
                assert(def_refs_view(r@) =~= def_refs_view(before).push(d@));
            },
            Category::Functions => {},
        }
        i += 1;
    }
    assert(all.take(definitions.len() as int) =~= all);
    r
}

pub(crate) fn name_index_exec(tdefs: &Vec<&Definition>, name: &String) -> (r: Option<usize>)
    ensures
        opt_index(r) == name_index(def_refs_view(tdefs@), name@),
        r matches Some(j) ==> j < tdefs.len(),
{
    let ghost ds = def_refs_view(tdefs@);
    let mut j: usize = tdefs.len();
    while j > 0
        invariant
            j <= tdefs.len(),
            ds == def_refs_view(tdefs@),
            name_index(ds, name@) == name_index_below(ds, name@, j as int),
        decreases j,
    {
        assert(ds[j - 1] == tdefs@[j - 1]@);
        if tdefs[j - 1].name == *name {
            return Some(j - 1);
        }
        j -= 1;
    }
    None
}

fn build_lookups(tdefs: &Vec<&Definition>) -> (r: Vec<Vec<Option<usize>>>)
    ensures
        r.len() == tdefs.len(),
        forall|k: int|
            0 <= k < tdefs.len() ==> (#[trigger] r@[k]).len() == def_refs_view(tdefs@)[k].params.len(),
        forall|k: int, pi: int|
            0 <= k < tdefs.len() && 0 <= pi < r@[k].len() ==> opt_index(#[trigger] r@[k]@[pi])
                == name_index(def_refs_view(tdefs@), param_type_name(def_refs_view(tdefs@), k, pi)),
        forall|k: int, pi: int|
            0 <= k < tdefs.len() && 0 <= pi < r@[k].len() ==> (#[trigger] r@[k]@[pi] matches Some(j)
                ==> j < tdefs.len()),
{
    let ghost ds = def_refs_view(tdefs@);
    let mut r: Vec<Vec<Option<usize>>> = Vec::new();
    let mut k: usize = 0;
    while k < tdefs.len()
        invariant
            k <= tdefs.len(),
            ds == def_refs_view(tdefs@),
            r.len() == k,
            forall|a: int| 0 <= a < k ==> (#[trigger] r@[a]).len() == ds[a].params.len(),
            forall|a: int, pi: int|
                0 <= a < k && 0 <= pi < r@[a].len() ==> opt_index(#[trigger] r@[a]@[pi]) == name_index(
                    ds,
                    param_type_name(ds, a, pi),
                ),
            forall|a: int, pi: int|
                0 <= a < k && 0 <= pi < r@[a].len() ==> (#[trigger] r@[a]@[pi] matches Some(j) ==> j
                    < tdefs.len()),
        decreases tdefs.len() - k,
    {
        let d = tdefs[k];
        assert(ds[k as int] == d@);
        let mut row: Vec<Option<usize>> = Vec::new();
        let mut pi: usize = 0;
        while pi < d.params.len()
            invariant
                k < tdefs.len(),
                ds == def_refs_view(tdefs@),
                ds[k as int] == d@,
                pi <= d.params.len(),
                row.len() == pi,
                forall|b: int| 0 <= b < pi ==> opt_index(#[trigger] row@[b]) == name_index(
                    ds,
                    param_type_name(ds, k as int, b),
                ),
                forall|b: int| 0 <= b < pi ==> (#[trigger] row@[b] matches Some(j) ==> j < tdefs.len()),
            decreases d.params.len() - pi,
        {
            assert(param_type_name(ds, k as int, pi as int) == d.params@[pi as int].ty.name@);
            row.push(name_index_exec(tdefs, &d.params[pi].ty.name));
            pi += 1;
        }
        r.push(row);
        k += 1;
    }
    r
}

/// What `build_lookups` establishes.
spec fn lookups_ok(ds: Seq<DefinitionView>, lookups: Seq<Vec<Option<usize>>>) -> bool {
    &&& lookups.len() == ds.len()
    &&& forall|k: int| 0 <= k < ds.len() ==> (#[trigger] lookups[k]).len() == ds[k].params.len()
    &&& forall|k: int, pi: int|
        0 <= k < ds.len() && 0 <= pi < lookups[k].len() ==> opt_index(#[trigger] lookups[k]@[pi])
            == name_index(ds, param_type_name(ds, k, pi))
    &&& forall|k: int, pi: int|
        0 <= k < ds.len() && 0 <= pi < lookups[k].len() ==> (#[trigger] lookups[k]@[pi] matches Some(
            j,
        ) ==> j < ds.len())
}

fn build_type_row(tdefs: &Vec<&Definition>, lookups: &Vec<Vec<Option<usize>>>, k: usize) -> (row: Vec<usize>)
    requires
        k < tdefs.len(),
        lookups_ok(def_refs_view(tdefs@), lookups@),
    ensures
        forall|t: int| 0 <= t < row@.len() ==> #[trigger] row@[t] < tdefs.len(),
        forall|t: int| 0 <= t < row@.len() ==> type_edge(def_refs_view(tdefs@), k as int, #[trigger] row@[t] as int),
        forall|j: int|
            0 <= j < tdefs.len() && #[trigger] type_edge(def_refs_view(tdefs@), k as int, j) ==> row@.contains(j as usize),
{
    let ghost ds = def_refs_view(tdefs@);
    let ghost ki = k as int;
    let n = tdefs.len();
    let d = tdefs[k];
    assert(ds[ki] == d@);
    assert(ds.len() == n);
    assert(ds[ki].params.len() == d.params.len());
    assert(lookups@[ki].len() == ds[ki].params.len());
    let mut row: Vec<usize> = Vec::new();
    let mut pi: usize = 0;
    while pi < d.params.len()
        invariant
            n == tdefs.len(),
            k < n,
            ki == k as int,
            ds == def_refs_view(tdefs@),
            ds[ki] == d@,
            ds[ki].params.len() == d.params.len(),
            ds.len() == n,
            lookups.len() == n,
            lookups@[ki].len() == d.params.len(),
            lookups_ok(ds, lookups@),
            pi <= d.params.len(),
            forall|t: int| 0 <= t < row@.len() ==> #[trigger] row@[t] < n,
            forall|t: int| 0 <= t < row@.len() ==> type_edge(ds, ki, #[trigger] row@[t] as int),
            forall|b: int, j: int|
                #![trigger param_type_name(ds, ki, b), ds[j]]
                0 <= b < pi && 0 <= j < n && (param_type_name(ds, ki, b) == ds[j].ty.name
                    || name_index(ds, param_type_name(ds, ki, b)) == Some(j)) ==> row@.contains(j as usize),
        decreases d.params.len() - pi,
    {
        let ghost pn = param_type_name(ds, ki, pi as int);
        assert(pn == d.params@[pi as int].ty.name@);
        let mut j: usize = 0;
        while j < n
            invariant
                n == tdefs.len(),
                k < n,
                ki == k as int,
                pi < d.params.len(),
                ds == def_refs_view(tdefs@),
                ds[ki] == d@,
                ds[ki].params.len() == d.params.len(),
                ds.len() == n,
                lookups.len() == n,
                lookups@[ki].len() == d.params.len(),
                lookups_ok(ds, lookups@),
                pn == param_type_name(ds, ki, pi as int),
                pn == d.params@[pi as int].ty.name@,
                j <= n,
                forall|t: int| 0 <= t < row@.len() ==> #[trigger] row@[t] < n,
                forall|t: int| 0 <= t < row@.len() ==> type_edge(ds, ki, #[trigger] row@[t] as int),
                forall|b: int, m: int|
                    #![trigger param_type_name(ds, ki, b), ds[m]]
                    0 <= b < pi && 0 <= m < n && (param_type_name(ds, ki, b) == ds[m].ty.name
                        || name_index(ds, param_type_name(ds, ki, b)) == Some(m)) ==> row@.contains(m as usize),
                forall|m: int| 0 <= m < j && pn == ds[m].ty.name ==> row@.contains(m as usize),
            decreases n - j,
        {
            assert(ds[j as int] == tdefs@[j as int]@);
            if tdefs[j].ty.name == d.params[pi].ty.name {
                proof {
                    lemma_push_keeps(row@, j);
                    assert(param_type_name(ds, ki, pi as int) == ds[j as int].ty.name);
                }
                row.push(j);
            }
            j += 1;
        }
        match lookups[k][pi] {
            Some(l) => {
                proof {
                    lemma_push_keeps(row@, l);
                    assert(opt_index(lookups@[ki]@[pi as int]) == name_index(ds, param_type_name(ds, ki, pi as int)));
                    assert(name_index(ds, param_type_name(ds, ki, pi as int)) == Some(l as int));
                }
                row.push(l);
            },
            None => {
                assert(opt_index(lookups@[ki]@[pi as int]) == name_index(ds, param_type_name(ds, ki, pi as int)));
            },
        }
        pi += 1;
    }
    proof {
        assert forall|j: int| 0 <= j < n && #[trigger] type_edge(ds, ki, j) implies row@.contains(j as usize) by {
            let b = choose|b: int|
                0 <= b < ds[ki].params.len() && (#[trigger] param_type_name(ds, ki, b) == ds[j].ty.name
                    || name_index(ds, param_type_name(ds, ki, b)) == Some(j));
        }
    }
    row
}

fn build_bare_row(tdefs: &Vec<&Definition>, lookups: &Vec<Vec<Option<usize>>>, k: usize) -> (row: Vec<usize>)
    requires
        k < tdefs.len(),
        lookups_ok(def_refs_view(tdefs@), lookups@),
    ensures
        forall|t: int| 0 <= t < row@.len() ==> #[trigger] row@[t] < tdefs.len(),
        forall|t: int| 0 <= t < row@.len() ==> bare_edge(def_refs_view(tdefs@), k as int, #[trigger] row@[t] as int),
        forall|j: int|
            0 <= j < tdefs.len() && #[trigger] bare_edge(def_refs_view(tdefs@), k as int, j) ==> row@.contains(j as usize),
{
    let ghost ds = def_refs_view(tdefs@);
    let ghost ki = k as int;
    let n = tdefs.len();
    let d = tdefs[k];
    assert(ds.len() == n);
    assert(ds[ki] == d@);
    assert(ds[ki].params.len() == d.params.len());
    assert(lookups@[ki].len() == ds[ki].params.len());
    let mut row: Vec<usize> = Vec::new();
    let mut pi: usize = 0;
    while pi < d.params.len()
        invariant
            n == tdefs.len(),
            k < n,
            ki == k as int,
            ds == def_refs_view(tdefs@),
            ds[ki] == d@,
            ds[ki].params.len() == d.params.len(),
            ds.len() == n,
            lookups.len() == n,
            lookups@[ki].len() == d.params.len(),
            lookups_ok(ds, lookups@),
            pi <= d.params.len(),
            forall|t: int| 0 <= t < row@.len() ==> #[trigger] row@[t] < n,
            forall|t: int| 0 <= t < row@.len() ==> bare_edge(ds, ki, #[trigger] row@[t] as int),
            forall|b: int|
                0 <= b < pi ==> match name_index(ds, #[trigger] param_type_name(ds, ki, b)) {
                    Some(j) => row@.contains(j as usize),
                    None => true,
                },
        decreases d.params.len() - pi,
    {
        assert(opt_index(lookups@[ki]@[pi as int]) == name_index(ds, param_type_name(ds, ki, pi as int)));
        match lookups[k][pi] {
            Some(l) => {
                proof {
                    lemma_push_keeps(row@, l);
                }
                row.push(l);
            },
            None => {},
        }
        pi += 1;
    }
    proof {
        assert forall|j: int| 0 <= j < n && #[trigger] bare_edge(ds, ki, j) implies row@.contains(j as usize) by {
            let b = choose|b: int|
                0 <= b < ds[ki].params.len() && name_index(ds, #[trigger] param_type_name(ds, ki, b)) == Some(j);
            assert(match name_index(ds, param_type_name(ds, ki, b)) {
                Some(j) => row@.contains(j as usize),
                None => true,
            });
        }
    }
    row
}

fn build_type_graph(tdefs: &Vec<&Definition>, lookups: &Vec<Vec<Option<usize>>>) -> (g: Vec<Vec<usize>>)
    requires
        lookups_ok(def_refs_view(tdefs@), lookups@),
    ensures
        g.len() == tdefs.len(),
        lists_edges(g@, type_edges(def_refs_view(tdefs@))),
{
    let ghost ds = def_refs_view(tdefs@);
    let n = tdefs.len();
    let mut g: Vec<Vec<usize>> = Vec::new();
    let mut k: usize = 0;
    while k < n
        invariant
            n == tdefs.len(),
            ds == def_refs_view(tdefs@),
            lookups_ok(ds, lookups@),
            k <= n,
            g.len() == k,
            forall|a: int, t: int| 0 <= a < k && 0 <= t < g@[a]@.len() ==> #[trigger] g@[a]@[t] < n,
            forall|a: int, t: int| 0 <= a < k && 0 <= t < g@[a]@.len() ==> type_edge(ds, a, #[trigger] g@[a]@[t] as int),
            forall|a: int, j: int| 0 <= a < k && 0 <= j < n && #[trigger] type_edge(ds, a, j) ==> g@[a]@.contains(j as usize),
        decreases n - k,
    {
        let row = build_type_row(tdefs, lookups, k);
        g.push(row);
        k += 1;
    }
    g
}

fn build_bare_graph(tdefs: &Vec<&Definition>, lookups: &Vec<Vec<Option<usize>>>) -> (g: Vec<Vec<usize>>)
    requires
        lookups_ok(def_refs_view(tdefs@), lookups@),
    ensures
        g.len() == tdefs.len(),
        lists_edges(g@, bare_edges(def_refs_view(tdefs@))),
{
    let ghost ds = def_refs_view(tdefs@);
    let n = tdefs.len();
    let mut g: Vec<Vec<usize>> = Vec::new();
    let mut k: usize = 0;
    while k < n
        invariant
            n == tdefs.len(),
            ds == def_refs_view(tdefs@),
            lookups_ok(ds, lookups@),
            k <= n,
            g.len() == k,
            forall|a: int, t: int| 0 <= a < k && 0 <= t < g@[a]@.len() ==> #[trigger] g@[a]@[t] < n,
            forall|a: int, t: int| 0 <= a < k && 0 <= t < g@[a]@.len() ==> bare_edge(ds, a, #[trigger] g@[a]@[t] as int),
            forall|a: int, j: int| 0 <= a < k && 0 <= j < n && #[trigger] bare_edge(ds, a, j) ==> g@[a]@.contains(j as usize),
        decreases n - k,
    {
        let row = build_bare_row(tdefs, lookups, k);
        g.push(row);
        k += 1;
    }
    g
}

fn params_simple_exec(tdefs: &Vec<&Definition>, m: usize) -> (r: bool)
    requires
        m < tdefs.len(),
    ensures
        r == all_params_simple(def_refs_view(tdefs@), m as int),
{
    let ghost ds = def_refs_view(tdefs@);
    let d = tdefs[m];
    assert(ds[m as int] == d@);
    let mut pi: usize = 0;
    while pi < d.params.len()
        invariant
            m < tdefs.len(),
            ds == def_refs_view(tdefs@),
            ds[m as int] == d@,
            pi <= d.params.len(),
            forall|b: int|
                0 <= b < pi ==> is_builtin_name(#[trigger] param_type_name(ds, m as int, b))
                    || ds[m as int].params[b].ty.bare,
        decreases d.params.len() - pi,
    {
        assert(param_type_name(ds, m as int, pi as int) == d.params@[pi as int].ty.name@);
        if !is_builtin_type(&d.params[pi]) && !d.params[pi].ty.bare {
            return false;
        }
        pi += 1;
    }
    true
}

fn mentions_type_exec(tdefs: &Vec<&Definition>, lookups: &Vec<Vec<Option<usize>>>, k: usize, r: usize) -> (b: bool)
    requires
        k < tdefs.len(),
        r < tdefs.len(),
        lookups_ok(def_refs_view(tdefs@), lookups@),
    ensures
        b == mentions_type_of(def_refs_view(tdefs@), k as int, r as int),
{
    let ghost ds = def_refs_view(tdefs@);
    let d = tdefs[k];
    let root = tdefs[r];
    assert(ds[k as int] == d@);
    assert(ds[r as int] == root@);
    assert(lookups@[k as int].len() == ds[k as int].params.len());
    let mut pi: usize = 0;
    while pi < d.params.len()
        invariant
            k < tdefs.len(),
            r < tdefs.len(),
            ds == def_refs_view(tdefs@),
            ds.len() == tdefs.len(),
            ds[k as int] == d@,
            ds[r as int] == root@,
            lookups_ok(ds, lookups@),
            lookups@[k as int].len() == d.params.len(),
            pi <= d.params.len(),
            forall|b: int|
                0 <= b < pi ==> !(#[trigger] param_type_name(ds, k as int, b) == ds[r as int].ty.name
                    || match name_index(ds, param_type_name(ds, k as int, b)) {
                    Some(j) => ds[j].ty.name == ds[r as int].ty.name,
                    None => false,
                }),
        decreases d.params.len() - pi,
    {
        assert(param_type_name(ds, k as int, pi as int) == d.params@[pi as int].ty.name@);
        assert(opt_index(lookups@[k as int]@[pi as int]) == name_index(ds, param_type_name(ds, k as int, pi as int)));
        if d.params[pi].ty.name == root.ty.name {
            return true;
        }
        match lookups[k][pi] {
            Some(l) => {
                assert(ds[l as int] == tdefs@[l as int]@);
                if tdefs[l].ty.name == root.ty.name {
                    return true;
                }
            },
            None => {},
        }
        pi += 1;
    }
    false
}

impl<'a> Metadata<'a> {
    /// Computes the metadata of a schema. The check of each data-type
    /// constructor for `Default` must end on it (`bare_checks_end` tells).
    pub fn new(definitions: &'a [Definition]) -> (m: Self)
        requires
            forall|i: int|
                0 <= i < type_defs_of(defs_view(definitions@)).len() ==> bare_check_ends(
                    type_defs_of(defs_view(definitions@)),
                    i,
                ),
        ensures
            m.type_defs() == type_defs_of(defs_view(definitions@)),
    {
        assert(defs_view(definitions@).take(definitions@.len() as int) =~= defs_view(definitions@));
        let tdefs = collect_type_defs(definitions);
        let ghost ds = def_refs_view(tdefs@);
        let n = tdefs.len();
        let lookups = build_lookups(&tdefs);
        let type_graph = build_type_graph(&tdefs, &lookups);
        let bare_graph = build_bare_graph(&tdefs, &lookups);
        let mut simple: Vec<bool> = Vec::new();
        let mut m: usize = 0;
        while m < n
            invariant
                n == tdefs.len(),
                ds == def_refs_view(tdefs@),
                m <= n,
                simple.len() == m,
                forall|a: int| 0 <= a < m ==> (simple@[a] <==> all_params_simple(ds, a)),
            decreases n - m,
        {
            simple.push(params_simple_exec(&tdefs, m));
            m += 1;
        }
        let mut recursing: Vec<bool> = Vec::new();
        let mut defaults: Vec<bool> = Vec::new();
        let mut i: usize = 0;
        while i < n
            invariant
                n == tdefs.len(),
                ds == def_refs_view(tdefs@),
                ds.len() == n,
                lookups_ok(ds, lookups@),
                type_graph.len() == n,
                bare_graph.len() == n,
                lists_edges(type_graph@, type_edges(ds)),
                lists_edges(bare_graph@, bare_edges(ds)),
                simple.len() == n,
                forall|a: int| 0 <= a < n ==> (simple@[a] <==> all_params_simple(ds, a)),
                i <= n,
                recursing.len() == i,
                defaults.len() == i,
                forall|a: int| 0 <= a < i ==> (recursing@[a] <==> is_recursive_at(ds, a)),
                forall|a: int| 0 <= a < i ==> (defaults@[a] <==> only_bare_at(ds, a)),
            decreases n - i,
        {
            let seen = reachable_set(&type_graph, i, Ghost(type_edges(ds)));
            let mut found = false;
            let mut j: usize = 0;
            while j < n
                invariant
                    n == tdefs.len(),
                    ds == def_refs_view(tdefs@),
                    ds.len() == n,
                    lookups_ok(ds, lookups@),
                    i < n,
                    seen.len() == n,
                    forall|a: int| 0 <= a < n ==> (seen@[a] <==> reachable(type_edges(ds), n as int, i as int, a)),
                    j <= n,
                    found <==> exists|a: int|
                        0 <= a < j && reachable(type_edges(ds), n as int, i as int, a) && mentions_type_of(ds, a, i as int),
                decreases n - j,
            {
                if !found && seen[j] && mentions_type_exec(&tdefs, &lookups, j, i) {
                    found = true;
                }
                j += 1;
            }
            recursing.push(found);
            let named = reachable_set(&bare_graph, i, Ghost(bare_edges(ds)));
            let mut all_simple = true;
            let mut j: usize = 0;
            while j < n
                invariant
                    n == tdefs.len(),
                    ds.len() == n,
                    named.len() == n,
                    simple.len() == n,
                    forall|a: int| 0 <= a < n ==> (simple@[a] <==> all_params_simple(ds, a)),
                    forall|a: int| 0 <= a < n ==> (named@[a] <==> reachable(bare_edges(ds), n as int, i as int, a)),
                    j <= n,
                    all_simple <==> forall|a: int|
                        0 <= a < j && reachable(bare_edges(ds), n as int, i as int, a) ==> all_params_simple(ds, a),
                decreases n - j,
            {
                assert(named@[j as int] <==> reachable(bare_edges(ds), n as int, i as int, j as int));
                assert(simple@[j as int] <==> all_params_simple(ds, j as int));
                if named[j] && !simple[j] {
                    all_simple = false;
                }
                j += 1;
            }
            defaults.push(all_simple);
            i += 1;
        }
        Metadata { type_defs: tdefs, recursing_defs: recursing, default_impl_defs: defaults }
    }

    /// Returns `true` if any of the parameters of `Definition` eventually
    /// contains the same type as the `Definition` itself (meaning it recurses).
    pub fn is_recursive_def(&self, def: &Definition) -> (r: bool)
        ensures
            r == recursive_by_name(self.type_defs(), def.name@),
    {
        proof {
            use_type_invariant(self);
        }
        let ghost ds = self.type_defs();
        let mut i: usize = 0;
        while i < self.type_defs.len()
            invariant
                ds == self.type_defs(),
                ds.len() == self.type_defs.len(),
                self.recursing_defs.len() == self.type_defs.len(),
                forall|a: int|
                    0 <= a < self.type_defs.len() ==> (self.recursing_defs@[a] <==> is_recursive_at(ds, a)),
                i <= self.type_defs.len(),
                forall|a: int| 0 <= a < i ==> !(ds[a].name == def.name@ && is_recursive_at(ds, a)),
            decreases self.type_defs.len() - i,
        {
            assert(ds[i as int] == self.type_defs@[i as int]@);
            if self.recursing_defs[i] && self.type_defs[i].name == def.name {
                assert(0 <= i < ds.len() && ds[i as int].name == def.name@ && is_recursive_at(ds, i as int));
                return true;
            }
            i += 1;
        }
        false
    }

    /// Returns `true` if the `Definition` can implement the trait `Default`.
    pub fn can_def_implement_default(&self, def: &Definition) -> (r: bool)
        ensures
            r == default_by_name(self.type_defs(), def.name@),
    {
        proof {
            use_type_invariant(self);
        }
        let ghost ds = self.type_defs();
        let mut i: usize = 0;
        while i < self.type_defs.len()
            invariant
                ds == self.type_defs(),
                ds.len() == self.type_defs.len(),
                self.default_impl_defs.len() == self.type_defs.len(),
                forall|a: int|
                    0 <= a < self.type_defs.len() ==> (self.default_impl_defs@[a] <==> only_bare_at(ds, a)),
                i <= self.type_defs.len(),
                forall|a: int| 0 <= a < i ==> !(ds[a].name == def.name@ && only_bare_at(ds, a)),
            decreases self.type_defs.len() - i,
        {
            assert(ds[i as int] == self.type_defs@[i as int]@);
            if self.default_impl_defs[i] && self.type_defs[i].name == def.name {
                assert(0 <= i < ds.len() && ds[i as int].name == def.name@ && only_bare_at(ds, i as int));
                return true;
            }
            i += 1;
        }
        false
    }

    /// The constructors of the type `ty`, in schema order.
    pub fn defs_with_type(&self, ty: &Type) -> (r: Vec<&'a Definition>)
        requires
            exists|i: int| 0 <= i < self.type_defs().len() && self.type_defs()[i].ty.name == ty.name@,
        ensures
            def_refs_view(r@) == defs_of_type(self.type_defs(), ty.name@),
    {
        let ghost ds = self.type_defs();
        let mut r: Vec<&'a Definition> = Vec::new();
        let mut i: usize = 0;
        while i < self.type_defs.len()
            invariant
                ds == self.type_defs(),
                ds.len() == self.type_defs.len(),
                i <= self.type_defs.len(),
                def_refs_view(r@) == defs_of_type(ds.take(i as int), ty.name@),
            decreases self.type_defs.len() - i,
        {
            let d = self.type_defs[i];
            assert(ds[i as int] == d@);
            assert(ds.take(i + 1).drop_last() =~= ds.take(i as int));
            assert(ds.take(i + 1).last() == d@);
            if d.ty.name == ty.name {
                let ghost before = r@;
                r.push(d);
                assert(def_refs_view(r@) =~= def_refs_view(before).push(d@));
            }
            i += 1;
        }
        assert(ds.take(self.type_defs.len() as int) =~= ds);
        r
    }

    /// Returns the top-level class description for an enum/union type if present.
    pub fn class_description(&self, ty_name: &str) -> (r: Option<&'a str>)
        ensures
            match r {
                Some(c) => class_description_of(self.type_defs(), ty_name@) == Some(c@),
                None => class_description_of(self.type_defs(), ty_name@) is None,
            },
    {
        let ghost ds = self.type_defs();
        let mut j: usize = self.type_defs.len();
        assert(ds.take(j as int) =~= ds);
        while j > 0
            invariant
                ds == self.type_defs(),
                ds.len() == self.type_defs.len(),
                j <= self.type_defs.len(),
                class_description_of(ds, ty_name@) == class_description_of(ds.take(j as int), ty_name@),
            decreases j,
        {
            let d: &'a Definition = self.type_defs[j - 1];
            assert(ds[j - 1] == d@);
            assert(ds.take(j as int).drop_last() =~= ds.take(j - 1));
            assert(ds.take(j as int).last() == d@);
            if str_eq(d.ty.name.as_str(), ty_name) {
                match &d.class_description {
                    Some(c) => {
                        return Some(c.as_str());
                    },
                    None => {},
                }
            }
            j -= 1;
        }
        assert(ds.take(0) =~= Seq::<DefinitionView>::empty());
        None
    }
}

} // verus!
