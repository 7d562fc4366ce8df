//! Statistics of a schema: how many data-type constructors and functions
//! it has, how many constructors each union type has, and the union types
//! with the most constructors.

use vstd::prelude::*;
use crate::codegen::functions::function_count;
use crate::graph::{count_false, lemma_count_false_all, lemma_count_false_positive, lemma_count_false_set};
use crate::metadata::{defs_of_type, defs_view, type_defs_of};
use crate::text::str_eq;
use crate::tl::definition::{Category, Definition, DefinitionView};

verus! {

/// The union types of the definitions, each once, in the order of their
/// first data-type constructor.
pub open spec fn class_names(defs: Seq<DefinitionView>) -> Seq<Seq<char>>
    decreases defs.len(),
{
    if defs.len() == 0 {
        Seq::empty()
    } else {
        let prev = class_names(defs.drop_last());
        if defs.last().category == Category::Types && !prev.contains(defs.last().ty.name) {
            prev.push(defs.last().ty.name)
        } else {
            prev
        }
    }
}

/// Each union type with the number of its constructors.
pub open spec fn class_counts(defs: Seq<DefinitionView>) -> Seq<(Seq<char>, nat)> {
    class_names(defs).map_values(
        |n: Seq<char>| (n, defs_of_type(type_defs_of(defs), n).len()),
    )
}

/// Models of counted classes.
pub open spec fn counts_view(v: Seq<(String, usize)>) -> Seq<(Seq<char>, nat)> {
    v.map_values(|c: (String, usize)| (c.0@, c.1 as nat))
}

/// Counts of a schema.
pub struct SchemaStats {
    /// The number of data-type constructors.
    pub types: usize,
    /// The number of functions.
    pub functions: usize,
    /// Each union type with the number of its constructors, in the order of
    /// its first constructor.
    pub classes: Vec<(String, usize)>,
}

proof fn lemma_count_step(defs: Seq<DefinitionView>, n: Seq<char>)
    requires
        defs.len() > 0,
    ensures
        defs_of_type(type_defs_of(defs), n).len() == defs_of_type(type_defs_of(defs.drop_last()), n).len()
            + if defs.last().category == Category::Types && defs.last().ty.name == n {
            1nat
        } else {
            0nat
        },
{
    if defs.last().category == Category::Types {
        let prev = type_defs_of(defs.drop_last());
        assert(prev.push(defs.last()).drop_last() =~= prev);
    }
}

proof fn lemma_class_count_bound(defs: Seq<DefinitionView>, n: Seq<char>)
    ensures
        defs_of_type(type_defs_of(defs), n).len() <= defs.len(),
    decreases defs.len(),
{
    if defs.len() > 0 {
        lemma_class_count_bound(defs.drop_last(), n);
        lemma_count_step(defs, n);
    }
}

/// The position of the class named `name`, if listed.
fn find_class(classes: &Vec<(String, usize)>, name: &str) -> (r: Option<usize>)
    ensures
        match r {
            Some(k) => k < classes.len() && classes@[k as int].0@ == name@,
            None => forall|a: int| 0 <= a < classes.len() ==> classes@[a].0@ != name@,
        },
{
    let mut k: usize = 0;
    while k < classes.len()
        invariant
            k <= classes.len(),
            forall|a: int| 0 <= a < k ==> classes@[a].0@ != name@,
        decreases classes.len() - k,
    {
        if str_eq(classes[k].0.as_str(), name) {
            return Some(k);
        }
        k += 1;
    }
    None
}

/// Counts the data-type constructors, the functions, and the constructors
/// of each union type.
pub fn schema_stats(definitions: &[Definition]) -> (r: SchemaStats)
    ensures
        r.types as nat == type_defs_of(defs_view(definitions@)).len(),
        r.functions as nat == function_count(defs_view(definitions@)),
        counts_view(r.classes@) == class_counts(defs_view(definitions@)),
{
    let ghost all = defs_view(definitions@);
    let mut types: usize = 0;
    let mut functions: usize = 0;
    let mut classes: Vec<(String, usize)> = Vec::new();
    let mut i: usize = 0;
    while i < definitions.len()
        invariant
            i <= definitions.len(),
            all == defs_view(definitions@),
            types as nat == type_defs_of(all.take(i as int)).len(),
            functions as nat == function_count(all.take(i as int)),
            types + functions == i,
            counts_view(classes@) == class_counts(all.take(i as int)),
        decreases definitions.len() - i,
    {
        let def = &definitions[i];
        let ghost prev = all.take(i as int);
        let ghost cur = all.take(i + 1);
        assert(cur.drop_last() =~= prev);
        assert(cur.last() == def@);
        match def.category {
            Category::Functions => {
                functions += 1;
                assert forall|k: int| 0 <= k < class_names(cur).len() implies #[trigger] class_counts(cur)[k]
                    == class_counts(prev)[k] by {
                    lemma_count_step(cur, class_names(cur)[k]);
                }
                assert(counts_view(classes@) =~= class_counts(cur));
            },
            Category::Types => {
                types += 1;
                let ghost names = class_names(prev);
                assert(counts_view(classes@).len() == names.len());
                let pos = find_class(&classes, def.ty.name.as_str());
                let found = pos.is_some();
                let k: usize = match pos {
                    Some(k) => k,
                    None => 0,
                };
                if found {
                    proof {
                        assert(counts_view(classes@)[k as int] == (classes@[k as int].0@, classes@[k as int].1 as nat));
                        assert(class_counts(prev)[k as int] == (names[k as int], defs_of_type(type_defs_of(prev), names[k as int]).len()));
                        lemma_class_count_bound(prev, names[k as int]);
                    }
                    let ghost old_classes = classes@;
                    let c = classes[k].1;
                    let name = classes[k].0.clone();
                    classes.set(k, (name, c + 1));
                    assert(names[k as int] == def.ty.name@);
                    assert(names.contains(def.ty.name@));
                    assert forall|a: int| 0 <= a < class_names(cur).len() implies #[trigger] class_counts(
                        cur,
                    )[a] == counts_view(classes@)[a] by {
                        lemma_count_step(cur, class_names(cur)[a]);
                        assert(counts_view(old_classes)[a] == class_counts(prev)[a]);
                        if a != k {
                            assert(names[a] != names[k as int]) by {
                                lemma_class_names_distinct(prev);
                            }
                        }
                    }
                    assert(counts_view(classes@) =~= class_counts(cur));
                } else {
                    assert forall|a: int| 0 <= a < names.len() implies names[a] != def.ty.name@ by {
                        assert(counts_view(classes@)[a].0 == names[a]);
                    }
                    assert(!names.contains(def.ty.name@));
                    let ghost old_classes = classes@;
                    classes.push((def.ty.name.clone(), 1));
                    assert forall|a: int| 0 <= a < class_names(cur).len() implies #[trigger] class_counts(
                        cur,
                    )[a] == counts_view(classes@)[a] by {
                        lemma_count_step(cur, class_names(cur)[a]);
                        if a < names.len() {
                            assert(counts_view(old_classes)[a] == class_counts(prev)[a]);
                        } else {
                            lemma_class_count_absent(prev, def.ty.name@);
                        }
                    }
                    assert(counts_view(classes@) =~= class_counts(cur));
                }
            },
        }
        i += 1;
    }
    assert(all.take(definitions.len() as int) =~= all);
    SchemaStats { types, functions, classes }
}

/// The union types are listed once each.
proof fn lemma_class_names_distinct(defs: Seq<DefinitionView>)
    ensures
        forall|a: int, b: int|
            0 <= a < b < class_names(defs).len() ==> class_names(defs)[a] != class_names(defs)[b],
    decreases defs.len(),
{
    if defs.len() > 0 {
        lemma_class_names_distinct(defs.drop_last());
        let prev = class_names(defs.drop_last());
        if defs.last().category == Category::Types && !prev.contains(defs.last().ty.name) {
            assert forall|a: int| 0 <= a < prev.len() implies prev[a] != defs.last().ty.name by {
                if prev[a] == defs.last().ty.name {
                    assert(prev.contains(defs.last().ty.name));
                }
            }
        }
    }
}

/// A type that is not listed has no constructor.
proof fn lemma_class_count_absent(defs: Seq<DefinitionView>, n: Seq<char>)
    requires
        !class_names(defs).contains(n),
    ensures
        defs_of_type(type_defs_of(defs), n).len() == 0,
    decreases defs.len(),
{
    if defs.len() > 0 {
        let prev = class_names(defs.drop_last());
        if prev.contains(n) {
            let j = choose|j: int| 0 <= j < prev.len() && prev[j] == n;
            assert(class_names(defs)[j] == n);
        }
        lemma_class_count_absent(defs.drop_last(), n);
        lemma_count_step(defs, n);
        if defs.last().category == Category::Types && defs.last().ty.name == n {
            assert(class_names(defs).last() == n);
        }
    }
}

/// Class `a` ranks before class `b`: it has more constructors, or as many
/// and is listed earlier.
pub open spec fn ranks_before(cs: Seq<(Seq<char>, nat)>, a: int, b: int) -> bool {
    cs[a].1 > cs[b].1 || (cs[a].1 == cs[b].1 && a < b)
}

/// `idx` picks classes in rank order, and every class it leaves out ranks
/// after all of those it picks: it picks the best-ranked ones.
pub open spec fn is_top_selection(cs: Seq<(Seq<char>, nat)>, idx: Seq<int>) -> bool {
    &&& forall|p: int| 0 <= p < idx.len() ==> 0 <= #[trigger] idx[p] < cs.len()
    &&& forall|p: int, q: int| 0 <= p < q < idx.len() ==> ranks_before(cs, #[trigger] idx[p], #[trigger] idx[q])
    &&& forall|j: int, p: int|
        0 <= j < cs.len() && !idx.contains(j) && 0 <= p < idx.len() ==> #[trigger] ranks_before(cs, idx[p], j)
}

/// The `n` union types with the most constructors (all of them when there
/// are fewer), most first; of two with as many, the one listed first.
pub fn top_classes(classes: &Vec<(String, usize)>, n: usize) -> (r: Vec<(String, usize)>)
    ensures
        r.len() == if n < classes.len() {
            n
        } else {
            classes.len()
        },
        exists|idx: Seq<int>|
            idx.len() == r.len() && is_top_selection(counts_view(classes@), idx) && forall|p: int|
                0 <= p < idx.len() ==> #[trigger] counts_view(r@)[p] == counts_view(classes@)[idx[p]],
{
    let ghost cs = counts_view(classes@);
    let len = classes.len();
    let m = if n < len {
        n
    } else {
        len
    };
    let mut chosen: Vec<bool> = Vec::new();
    let mut j: usize = 0;
    while j < len
        invariant
            j <= len,
            len == classes.len(),
            chosen.len() == j,
            forall|a: int| 0 <= a < j ==> !chosen@[a],
        decreases len - j,
    {
        chosen.push(false);
        j += 1;
    }
    proof {
        lemma_count_false_all(chosen@);
    }
    let mut r: Vec<(String, usize)> = Vec::new();
    let ghost mut idx: Seq<int> = Seq::empty();
    let mut p: usize = 0;
    while p < m
        invariant
            p <= m <= len,
            len == classes.len(),
            cs == counts_view(classes@),
            chosen.len() == len,
            count_false(chosen@) == len - p,
            forall|a: int| 0 <= a < len ==> (chosen@[a] <==> idx.contains(a)),
            r.len() == p,
            idx.len() == p,
            is_top_selection(cs, idx),
            forall|q: int| 0 <= q < idx.len() ==> #[trigger] counts_view(r@)[q] == cs[idx[q]],
        decreases m - p,
    {
        let mut best: Option<usize> = None;
        let mut k: usize = 0;
        while k < len
            invariant
                k <= len,
                len == classes.len(),
                cs == counts_view(classes@),
                chosen.len() == len,
                match best {
                    Some(b) => b < k && !chosen@[b as int] && forall|a: int|
                        0 <= a < k && !chosen@[a] && a != b ==> ranks_before(cs, b as int, a),
                    None => forall|a: int| 0 <= a < k ==> chosen@[a],
                },
            decreases len - k,
        {
            if !chosen[k] {
                match best {
                    None => {
                        best = Some(k);
                    },
                    Some(b) => {
                        assert(cs[k as int].1 == classes@[k as int].1 as nat);
                        assert(cs[b as int].1 == classes@[b as int].1 as nat);
                        if classes[k].1 > classes[b].1 {
                            best = Some(k);
                        }
                    },
                }
            }
            k += 1;
        }
        let b = match best {
            Some(b) => b,
            None => {
                proof {
                    lemma_count_false_positive(chosen@);
                }
                0
            },
        };
        proof {
            if best is None {
                assert(false);
            }
            lemma_count_false_set(chosen@, b as int);
        }
        let ghost old_idx = idx;
        chosen.set(b, true);
        let name = classes[b].0.clone();
        let ghost nm = name@;
        let ghost before_r = r@;
        r.push((name, classes[b].1));
        proof {
            idx = idx.push(b as int);
            assert forall|a: int| 0 <= a < len implies (chosen@[a] <==> idx.contains(a)) by {
                if a == b {
                    assert(idx[idx.len() - 1] == a);
                } else {
                    if old_idx.contains(a) {
                        let t = choose|t: int| 0 <= t < old_idx.len() && old_idx[t] == a;
                        assert(idx[t] == a);
                    }
                    if idx.contains(a) {
                        let t = choose|t: int| 0 <= t < idx.len() && idx[t] == a;
                        assert(old_idx[t] == a);
                    }
                }
            }
            assert forall|q: int| 0 <= q < idx.len() implies #[trigger] counts_view(r@)[q] == cs[idx[q]] by {
                assert(counts_view(r@)[q] == (r@[q].0@, r@[q].1 as nat));
                if q < old_idx.len() {
                    assert(r@[q] == before_r[q]);
                    assert(counts_view(before_r)[q] == cs[old_idx[q]]);
                    assert(idx[q] == old_idx[q]);
                } else {
                    assert(nm == classes@[b as int].0@);
                    assert(r@[q].0@ == nm);
                }
            }
            assert forall|x: int, y: int| 0 <= x < y < idx.len() implies ranks_before(
                cs,
                #[trigger] idx[x],
                #[trigger] idx[y],
            ) by {
                if y == idx.len() - 1 {
                    assert(!old_idx.contains(b as int));
                    assert(ranks_before(cs, old_idx[x], b as int));
                }
            }
            assert forall|a: int, q: int|
                0 <= a < cs.len() && !idx.contains(a) && 0 <= q < idx.len() implies #[trigger] ranks_before(
                cs,
                idx[q],
                a,
            ) by {
                assert(a != b);
                if old_idx.contains(a) {
                    let t = choose|t: int| 0 <= t < old_idx.len() && old_idx[t] == a;
                    assert(idx[t] == a);
                }
                assert(!chosen@[a]);
            }
        }
        p += 1;
    }
    r
}

/// The sum of the counts.
pub open spec fn sum_counts(cs: Seq<(Seq<char>, nat)>) -> nat
    decreases cs.len(),
{
    if cs.len() == 0 {
        0
    } else {
        sum_counts(cs.drop_last()) + cs.last().1
    }
}

proof fn lemma_sum_bump(cs: Seq<(Seq<char>, nat)>, j: int)
    requires
        0 <= j < cs.len(),
    ensures
        sum_counts(cs.update(j, (cs[j].0, cs[j].1 + 1))) == sum_counts(cs) + 1,
    decreases cs.len(),
{
    let up = cs.update(j, (cs[j].0, cs[j].1 + 1));
    if j < cs.len() - 1 {
        lemma_sum_bump(cs.drop_last(), j);
        assert(up.drop_last() =~= cs.drop_last().update(j, (cs[j].0, cs[j].1 + 1)));
    } else {
        assert(up.drop_last() =~= cs.drop_last());
    }
}

/// Every data-type constructor is counted once: the constructor counts of
/// the union types add up to the number of data-type constructors.
pub proof fn lemma_class_counts_total(defs: Seq<DefinitionView>)
    ensures
        sum_counts(class_counts(defs)) == type_defs_of(defs).len(),
    decreases defs.len(),
{
    if defs.len() > 0 {
        let prev = defs.drop_last();
        lemma_class_counts_total(prev);
        let d = defs.last();
        let names = class_names(prev);
        let old_counts = class_counts(prev);
        let new_counts = class_counts(defs);
        if d.category == Category::Types {
            if names.contains(d.ty.name) {
                let j = choose|j: int| 0 <= j < names.len() && names[j] == d.ty.name;
                lemma_class_names_distinct(prev);
                assert forall|a: int| 0 <= a < new_counts.len() implies #[trigger] new_counts[a]
                    == old_counts.update(j, (old_counts[j].0, old_counts[j].1 + 1))[a] by {
                    lemma_count_step(defs, class_names(defs)[a]);
                }
                assert(new_counts =~= old_counts.update(j, (old_counts[j].0, old_counts[j].1 + 1)));
                lemma_sum_bump(old_counts, j);
            } else {
                lemma_class_count_absent(prev, d.ty.name);
                assert forall|a: int| 0 <= a < new_counts.len() implies #[trigger] new_counts[a]
                    == old_counts.push((d.ty.name, 1nat))[a] by {
                    lemma_count_step(defs, class_names(defs)[a]);
                    if a < names.len() {
                        assert(names[a] != d.ty.name);
                    }
                }
                assert(new_counts =~= old_counts.push((d.ty.name, 1nat)));
                assert(old_counts.push((d.ty.name, 1nat)).drop_last() =~= old_counts);
            }
        } else {
            assert forall|a: int| 0 <= a < new_counts.len() implies #[trigger] new_counts[a] == old_counts[a] by {
                lemma_count_step(defs, class_names(defs)[a]);
            }
            assert(new_counts =~= old_counts);
        }
    }
}

/// The selected classes come most constructors first.
pub proof fn lemma_top_selection_by_count(cs: Seq<(Seq<char>, nat)>, idx: Seq<int>)
    requires
        is_top_selection(cs, idx),
    ensures
        forall|p: int, q: int| 0 <= p < q < idx.len() ==> cs[idx[p]].1 >= cs[idx[q]].1,
{
    assert forall|p: int, q: int| 0 <= p < q < idx.len() implies cs[idx[p]].1 >= cs[idx[q]].1 by {
        assert(ranks_before(cs, idx[p], idx[q]));
    }
}

} // verus!
