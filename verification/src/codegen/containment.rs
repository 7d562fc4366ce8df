//! Which generated types hold which by value. Rust refuses a type that
//! holds itself by value (it would have infinite size); since every enum
//! variant boxes its payload, only structs that name each other through
//! bare types can do that.

use vstd::prelude::*;
use crate::bare::lemma_name_index_below;
use crate::codegen::enums::variant_payload;
use crate::metadata::{bare_edge, name_index, param_type_name};
use crate::rustifier::{def_qual_name, is_builtin_name};
use crate::tl::definition::DefinitionView;
use crate::tl::ty::TypeView;

verus! {

/// A generated type: the struct of the constructor at a position, or the
/// enum of the union type with a name.
pub enum GenItem {
    Struct(int),
    Enum(Seq<char>),
}

/// A field of type `ty` holds `b` in place: the type is not built-in and is
/// `b` itself, a bare type naming `b`'s constructor or a boxed type naming
/// `b`'s union type (a field that may be absent is an `Option`, which also
/// holds its value in place).
pub open spec fn field_holds(ds: Seq<DefinitionView>, ty: TypeView, b: GenItem) -> bool {
    !is_builtin_name(ty.name) && match b {
        GenItem::Struct(j) => ty.bare && name_index(ds, ty.name) == Some(j),
        GenItem::Enum(t) => !ty.bare && ty.name == t,
    }
}

/// `a` holds `b` by value, with no box or vector in between: a field of
/// struct `a` holds `b`, or a variant of enum `a` has the struct `b` itself
/// as its payload.
pub open spec fn holds_by_value(ds: Seq<DefinitionView>, a: GenItem, b: GenItem) -> bool {
    match a {
        GenItem::Struct(k) => 0 <= k < ds.len() && exists|pi: int|
            0 <= pi < ds[k].params.len() && field_holds(ds, #[trigger] ds[k].params[pi].ty, b),
        GenItem::Enum(t) => match b {
            GenItem::Struct(j) => 0 <= j < ds.len() && ds[j].ty.name == t && ds[j].params.len() > 0
                && variant_payload(ds[j]) == def_qual_name(ds[j]),
            GenItem::Enum(_) => false,
        },
    }
}

/// `c` is a cycle of holding by value: it returns to where it started, and
/// each type holds the next by value.
pub open spec fn by_value_cycle(ds: Seq<DefinitionView>, c: Seq<GenItem>) -> bool {
    &&& c.len() >= 2
    &&& c[0] == c.last()
    &&& forall|t: int| 0 <= t < c.len() - 1 ==> holds_by_value(ds, #[trigger] c[t], c[t + 1])
}

/// No constructor comes back to itself by naming constructors through bare
/// types.
pub open spec fn no_bare_cycle(ds: Seq<DefinitionView>) -> bool {
    forall|p: Seq<int>|
        !(p.len() >= 2 && p[0] == p.last() && forall|t: int|
            0 <= t < p.len() - 1 ==> bare_edge(ds, #[trigger] p[t], p[t + 1]))
}

/// No enum holds anything by value: every variant payload is a box.
pub proof fn lemma_enums_hold_nothing_by_value(ds: Seq<DefinitionView>, t: Seq<char>, b: GenItem)
    ensures
        !holds_by_value(ds, GenItem::Enum(t), b),
{
    match b {
        GenItem::Struct(j) => {
            if 0 <= j < ds.len() {
                let d = ds[j];
                assert(variant_payload(d).len() == def_qual_name(d).len() + 5) by {
                    reveal_strlit("Box<");
                    reveal_strlit(">");
                }
            }
        },
        GenItem::Enum(_) => {},
    }
}

/// A generated type that holds itself by value does so through structs
/// alone, each naming the next by a bare type: enums never lie on such a
/// cycle.
pub proof fn lemma_by_value_cycles_are_bare(ds: Seq<DefinitionView>, c: Seq<GenItem>)
    requires
        by_value_cycle(ds, c),
    ensures
        forall|t: int| 0 <= t < c.len() ==> (#[trigger] c[t]) is Struct,
        forall|t: int|
            0 <= t < c.len() - 1 ==> bare_edge(ds, (#[trigger] c[t])->Struct_0, c[t + 1]->Struct_0),
{
    assert forall|t: int| 0 <= t < c.len() implies (#[trigger] c[t]) is Struct by {
        let u = if t < c.len() - 1 {
            t
        } else {
            0
        };
        assert(c[u] == c[t]);
        assert(holds_by_value(ds, c[u], c[u + 1]));
        if c[t] is Enum {
            lemma_enums_hold_nothing_by_value(ds, c[t]->Enum_0, c[u + 1]);
        }
    }
    assert forall|t: int| 0 <= t < c.len() - 1 implies bare_edge(
        ds,
        (#[trigger] c[t])->Struct_0,
        c[t + 1]->Struct_0,
    ) by {
        assert(holds_by_value(ds, c[t], c[t + 1]));
        assert(c[t + 1] is Struct);
        let k = c[t]->Struct_0;
        let j = c[t + 1]->Struct_0;
        let pi = choose|pi: int|
            0 <= pi < ds[k].params.len() && field_holds(ds, #[trigger] ds[k].params[pi].ty, c[t + 1]);
        assert(param_type_name(ds, k, pi) == ds[k].params[pi].ty.name);
        lemma_name_index_below(ds, ds[k].params[pi].ty.name, ds.len() as int);
    }
}

/// Where no constructor comes back to itself through bare types (as in a
/// schema whose bare types are all built-in), no generated type holds
/// itself by value, so none has infinite size.
pub proof fn lemma_no_infinite_size(ds: Seq<DefinitionView>, c: Seq<GenItem>)
    requires
        no_bare_cycle(ds),
    ensures
        !by_value_cycle(ds, c),
{
    if by_value_cycle(ds, c) {
        lemma_by_value_cycles_are_bare(ds, c);
        let p = c.map_values(|g: GenItem| g->Struct_0);
        assert forall|t: int| 0 <= t < p.len() - 1 implies bare_edge(ds, #[trigger] p[t], p[t + 1]) by {
            assert(p[t] == c[t]->Struct_0);
            assert(p[t + 1] == c[t + 1]->Struct_0);
        }
        assert(p[0] == p.last());
    }
}

} // verus!
