//! The `enums` module: one enum per union type, grouped into one file per
//! business domain. Every variant with a payload boxes it, and each such
//! variant comes with a constructor function and a `From` conversion.

use vstd::prelude::*;
use crate::codegen::functions::SORTED_DOMAINS;
use crate::codegen::grouping::{
    grouped_files, grouped_mod_text, grouped_module, item_domain, item_domain_exec, items_view,
};
use crate::codegen::{concat_defs, files_view, ignore_type, is_special_cased, skipped, ModuleSource};
use crate::metadata::{class_description_of, def_refs_view, defs_of_type, defs_view, type_defs_of, Metadata};
use crate::rustifier::{
    def_description, def_is_for_bots_only, def_qual_name, def_qual_name_exec, doc_comment,
    is_keyword, is_rust_keyword, push_doc_comment, rust_type_name, snake_case, snake_case_exec,
    type_name_of, variant_name, variant_name_of,
};
use crate::codegen::types::struct_emitted;
use crate::text::{contains_seq, str_eq};
use crate::tl::definition::{Category, Definition, DefinitionView};
use crate::tl::ty::{Type, TypeView};

verus! {

/// The payload type of the variant of a constructor: its struct, boxed.
pub open spec fn variant_payload(d: DefinitionView) -> Seq<char> {
    "Box<"@ + def_qual_name(d) + ">"@
}

/// The variant of constructor `d` in the enum of its type: documentation,
/// the serde rename to the TL name, and the variant, which holds the boxed
/// struct of the constructor unless the constructor has no parameters. A
/// bots-only constructor gives nothing unless the bots-only API is generated.
pub open spec fn variant_text(d: DefinitionView, gen_bots_only_api: bool) -> Seq<char> {
    if skipped(d.description, gen_bots_only_api) {
        Seq::empty()
    } else {
        doc_comment(d.description, "    "@) + "\n"@ + "    #[serde(rename(serialize = \""@ + d.name
            + "\", deserialize = \""@ + d.name + "\"))]\n"@ + "    "@ + variant_name_of(d) + if d.params.len()
            == 0 {
            ",\n"@
        } else {
            "("@ + variant_payload(d) + "),\n"@
        }
    }
}

/// With the bots-only API off, no enum variant, constructor function or
/// conversion is written for a constructor whose description says it is for
/// bots only, and every other constructor gets its variant. So the payload
/// struct that a written variant names is one the `types` module emits under
/// the same flag.
pub proof fn lemma_variants_match_structs(d: DefinitionView, enum_name: Seq<char>, gen_bots_only_api: bool)
    ensures
        (variant_text(d, gen_bots_only_api).len() == 0) == (contains_seq(d.description, "for bots only"@)
            && !gen_bots_only_api),
        contains_seq(d.description, "for bots only"@) && !gen_bots_only_api ==> variant_fns(
            d,
            enum_name,
            gen_bots_only_api,
        ) == Seq::<char>::empty(),
        d.category == Category::Types && !is_special_cased(d.ty.name) && d.params.len() > 0
            && variant_text(d, gen_bots_only_api).len() > 0 ==> struct_emitted(d, gen_bots_only_api),
{
    reveal_strlit("    #[serde(rename(serialize = \"");
}

/// A function name, written as a raw identifier when it is a Rust keyword.
pub open spec fn fn_ident(name: Seq<char>) -> Seq<char> {
    if is_rust_keyword(name) {
        "r#"@ + name
    } else {
        name
    }
}

/// The constructor function of the variant of `d` (named after the variant
/// in snake case) and the conversion `From` its struct into the enum
/// `enum_name`; nothing for a variant without payload or a skipped one.
pub open spec fn variant_fns(d: DefinitionView, enum_name: Seq<char>, gen_bots_only_api: bool) -> Seq<char> {
    if skipped(d.description, gen_bots_only_api) || d.params.len() == 0 {
        Seq::empty()
    } else {
        "\nimpl "@ + enum_name + " {\n"@ + "    pub fn "@ + fn_ident(snake_case(variant_name_of(d)))
            + "(value: "@ + def_qual_name(d) + ") -> Self {\n"@ + "        Self::"@ + variant_name_of(d)
            + "(Box::new(value))\n"@ + "    }\n"@ + "}\n"@ + "\nimpl From<"@ + def_qual_name(d) + "> for "@
            + enum_name + " {\n"@ + "    fn from(value: "@ + def_qual_name(d) + ") -> Self {\n"@
            + "        Self::"@ + variant_name_of(d) + "(Box::new(value))\n"@ + "    }\n"@ + "}\n"@
    }
}

/// The documentation of the enum of type `name`: its class description, if
/// the schema gives one.
pub open spec fn class_doc(ds: Seq<DefinitionView>, name: Seq<char>) -> Seq<char> {
    match class_description_of(ds, name) {
        Some(c) => doc_comment(c, ""@) + "\n"@,
        None => Seq::empty(),
    }
}

/// The declaration of the enum of union type `ty`, with one variant per
/// constructor of the type in schema order, followed by the constructor
/// functions and conversions of its variants and a blank line.
pub open spec fn enum_item(ty: TypeView, ds: Seq<DefinitionView>, gen_bots_only_api: bool) -> Seq<char> {
    class_doc(ds, ty.name) + "#[derive(Clone, Debug, PartialEq, Deserialize, Serialize)]\n"@
        + "#[serde(tag = \"@type\")]\n"@ + "pub enum "@ + type_name_of(ty) + " {\n"@ + concat_defs(
        defs_of_type(ds, ty.name),
        |d: DefinitionView| variant_text(d, gen_bots_only_api),
    ) + "}\n"@ + concat_defs(
        defs_of_type(ds, ty.name),
        |d: DefinitionView| variant_fns(d, type_name_of(ty), gen_bots_only_api),
    ) + "\n"@
}

/// The header of each file of the `enums` module.
pub open spec fn enums_header() -> Seq<char> {
    "#[allow(clippy::all)]\n"@ + "use serde::{Deserialize, Serialize};\n"@ + "\n"@
}

/// The header of each file of the `enums` module.
pub const ENUMS_HEADER: &'static str = "#[allow(clippy::all)]\nuse serde::{Deserialize, Serialize};\n\n";

/// A definition introduces a union type: it is a data-type constructor whose
/// type is not special-cased.
pub open spec fn enum_wanted(d: DefinitionView) -> bool {
    d.category == Category::Types && !is_special_cased(d.ty.name)
}

/// Some type in `ts` is named `name`.
pub open spec fn names_type(ts: Seq<TypeView>, name: Seq<char>) -> bool {
    exists|k: int| 0 <= k < ts.len() && ts[k].name == name
}

/// The union types of the definitions, each once, in the order of their
/// first constructor.
pub open spec fn enum_types(defs: Seq<DefinitionView>) -> Seq<TypeView>
    decreases defs.len(),
{
    if defs.len() == 0 {
        Seq::empty()
    } else {
        let prev = enum_types(defs.drop_last());
        if enum_wanted(defs.last()) && !names_type(prev, defs.last().ty.name) {
            prev.push(defs.last().ty)
        } else {
            prev
        }
    }
}

/// The enums of the union types, each with its domain and its text.
pub open spec fn enum_items(ts: Seq<TypeView>, ds: Seq<DefinitionView>, gen_bots_only_api: bool) -> Seq<
    (Seq<char>, Seq<char>),
> {
    ts.map_values(|t: TypeView| (item_domain(type_name_of(t)), enum_item(t, ds, gen_bots_only_api)))
}

/// Each union type of the schema gets exactly one enum: the enum types have
/// pairwise distinct names, the type of every data-type constructor that is
/// not special-cased is among them, and each of them is the type of such a
/// constructor.
pub proof fn lemma_enum_types_complete(defs: Seq<DefinitionView>)
    ensures
        forall|a: int, b: int|
            0 <= a < b < enum_types(defs).len() ==> enum_types(defs)[a].name != enum_types(defs)[b].name,
        forall|i: int|
            0 <= i < defs.len() && enum_wanted(defs[i]) ==> names_type(enum_types(defs), defs[i].ty.name),
        forall|k: int|
            0 <= k < enum_types(defs).len() ==> exists|i: int|
                0 <= i < defs.len() && enum_wanted(defs[i]) && defs[i].ty == #[trigger] enum_types(defs)[k],
    decreases defs.len(),
{
    if defs.len() > 0 {
        let init = defs.drop_last();
        lemma_enum_types_complete(init);
        let prev = enum_types(init);
        let cur = enum_types(defs);
        assert forall|i: int| 0 <= i < defs.len() && enum_wanted(defs[i]) implies names_type(
            cur,
            defs[i].ty.name,
        ) by {
            if i < defs.len() - 1 {
                assert(init[i] == defs[i]);
                let k = choose|k: int| 0 <= k < prev.len() && prev[k].name == defs[i].ty.name;
                assert(cur[k] == prev[k]);
            } else if !names_type(prev, defs[i].ty.name) {
                assert(cur[prev.len() as int] == defs[i].ty);
            } else {
                let k = choose|k: int| 0 <= k < prev.len() && prev[k].name == defs[i].ty.name;
                assert(cur[k] == prev[k]);
            }
        }
        assert forall|k: int| 0 <= k < cur.len() implies exists|i: int|
            0 <= i < defs.len() && enum_wanted(defs[i]) && defs[i].ty == #[trigger] cur[k] by {
            if k < prev.len() {
                let i = choose|i: int| 0 <= i < init.len() && enum_wanted(init[i]) && init[i].ty == prev[k];
                assert(defs[i] == init[i]);
            } else {
                assert(defs[defs.len() - 1].ty == cur[k]);
            }
        }
    }
}

/// A data-type definition appears among the data-type definitions.
pub proof fn lemma_type_def_listed(defs: Seq<DefinitionView>, i: int)
    requires
        0 <= i < defs.len(),
        defs[i].category == Category::Types,
    ensures
        exists|k: int| 0 <= k < type_defs_of(defs).len() && type_defs_of(defs)[k] == defs[i],
    decreases defs.len(),
{
    let last = defs.len() - 1;
    if i == last {
        let k = type_defs_of(defs.drop_last()).len() as int;
        assert(type_defs_of(defs)[k] == defs[i]);
    } else {
        lemma_type_def_listed(defs.drop_last(), i);
        let k = choose|k: int|
            0 <= k < type_defs_of(defs.drop_last()).len() && type_defs_of(defs.drop_last())[k] == defs[i];
        assert(type_defs_of(defs)[k] == defs[i]);
    }
}

fn variant_text_exec(d: &Definition, gen_bots_only_api: bool) -> (r: String)
    ensures
        r@ == variant_text(d@, gen_bots_only_api),
{
    let mut out = String::new();
    if def_is_for_bots_only(d) && !gen_bots_only_api {
        return out;
    }
    let doc = def_description(d, "    ");
    out.append(doc.as_str());
    out.append("\n");
    out.append("    #[serde(rename(serialize = \"");
    out.append(d.name.as_str());
    out.append("\", deserialize = \"");
    out.append(d.name.as_str());
    out.append("\"))]\n");
    out.append("    ");
    let v = variant_name(d);
    out.append(v.as_str());
    if d.params.len() == 0 {
        out.append(",\n");
    } else {
        let q = def_qual_name_exec(d);
        out.append("(");
        out.append("Box<");
        out.append(q.as_str());
        out.append(">");
        out.append("),\n");
    }
    assert(out@ =~= variant_text(d@, gen_bots_only_api));
    out
}

fn fn_ident_exec(name: &str) -> (r: String)
    ensures
        r@ == fn_ident(name@),
{
    if is_keyword(name) {
        let mut out = String::from_str("r#");
        out.append(name);
        out
    } else {
        String::from_str(name)
    }
}

#[verifier::spinoff_prover]
fn variant_fns_exec(d: &Definition, enum_name: &str, gen_bots_only_api: bool) -> (r: String)
    ensures
        r@ == variant_fns(d@, enum_name@, gen_bots_only_api),
{
    let mut out = String::new();
    if (def_is_for_bots_only(d) && !gen_bots_only_api) || d.params.len() == 0 {
        return out;
    }
    let v = variant_name(d);
    let q = def_qual_name_exec(d);
    let snake = snake_case_exec(v.as_str());
    let f = fn_ident_exec(snake.as_str());
    out.append("\nimpl ");
    out.append(enum_name);
    out.append(" {\n");
    out.append("    pub fn ");
    out.append(f.as_str());
    out.append("(value: ");
    out.append(q.as_str());
    out.append(") -> Self {\n");
    out.append("        Self::");
    out.append(v.as_str());
    out.append("(Box::new(value))\n");
    out.append("    }\n");
    out.append("}\n");
    let ghost first = out@;
    assert(first =~= "\nimpl "@ + enum_name@ + " {\n"@ + "    pub fn "@ + fn_ident(snake_case(variant_name_of(d@)))
        + "(value: "@ + def_qual_name(d@) + ") -> Self {\n"@ + "        Self::"@ + variant_name_of(d@)
        + "(Box::new(value))\n"@ + "    }\n"@ + "}\n"@);
    out.append("\nimpl From<");
    out.append(q.as_str());
    out.append("> for ");
    out.append(enum_name);
    out.append(" {\n");
    out.append("    fn from(value: ");
    out.append(q.as_str());
    out.append(") -> Self {\n");
    out.append("        Self::");
    out.append(v.as_str());
    out.append("(Box::new(value))\n");
    out.append("    }\n");
    out.append("}\n");
    assert(out@ =~= first + ("\nimpl From<"@ + def_qual_name(d@) + "> for "@ + enum_name@ + " {\n"@
        + "    fn from(value: "@ + def_qual_name(d@) + ") -> Self {\n"@ + "        Self::"@
        + variant_name_of(d@) + "(Box::new(value))\n"@ + "    }\n"@ + "}\n"@));
    assert(out@ =~= variant_fns(d@, enum_name@, gen_bots_only_api));
    out
}

fn push_class_doc(out: &mut String, metadata: &Metadata, name: &str)
    ensures
        final(out)@ == old(out)@ + class_doc(metadata.type_defs(), name@),
{
    match metadata.class_description(name) {
        Some(c) => {
            push_doc_comment(out, c, "");
            out.append("\n");
        },
        None => {},
    }
    assert(out@ =~= old(out)@ + class_doc(metadata.type_defs(), name@));
}

/// The declaration of the enum of union type `ty`, with its constructor
/// functions and conversions.
#[verifier::spinoff_prover]
pub fn enum_source_exec(ty: &Type, metadata: &Metadata, gen_bots_only_api: bool) -> (r: String)
    requires
        exists|i: int|
            0 <= i < metadata.type_defs().len() && metadata.type_defs()[i].ty.name == ty.name@,
    ensures
        r@ == enum_item(ty@, metadata.type_defs(), gen_bots_only_api),
{
    let ghost ds = metadata.type_defs();
    let name = rust_type_name(ty);
    let ghost f = |d: DefinitionView| variant_text(d, gen_bots_only_api);
    let ghost g = |d: DefinitionView| variant_fns(d, name@, gen_bots_only_api);
    let mut out = String::new();
    push_class_doc(&mut out, metadata, ty.name.as_str());
    out.append("#[derive(Clone, Debug, PartialEq, Deserialize, Serialize)]\n");
    out.append("#[serde(tag = \"@type\")]\n");
    out.append("pub enum ");
    out.append(name.as_str());
    out.append(" {\n");
    let ghost head = out@;
    let defs = metadata.defs_with_type(ty);
    let ghost dv = def_refs_view(defs@);
    let mut i: usize = 0;
    while i < defs.len()
        invariant
            i <= defs.len(),
            ds == metadata.type_defs(),
            dv == def_refs_view(defs@),
            dv == defs_of_type(ds, ty.name@),
            f == (|d: DefinitionView| variant_text(d, gen_bots_only_api)),
            out@ == head + concat_defs(dv.take(i as int), f),
        decreases defs.len() - i,
    {
        let t = variant_text_exec(defs[i], gen_bots_only_api);
        out.append(t.as_str());
        assert(dv.take(i + 1).drop_last() =~= dv.take(i as int));
        assert(dv.take(i + 1).last() == defs@[i as int]@);
        i += 1;
        assert(out@ =~= head + concat_defs(dv.take(i as int), f));
    }
    assert(dv.take(defs.len() as int) =~= dv);
    out.append("}\n");
    let ghost mid = out@;
    let mut i: usize = 0;
    while i < defs.len()
        invariant
            i <= defs.len(),
            dv == def_refs_view(defs@),
            g == (|d: DefinitionView| variant_fns(d, name@, gen_bots_only_api)),
            out@ == mid + concat_defs(dv.take(i as int), g),
        decreases defs.len() - i,
    {
        let t = variant_fns_exec(defs[i], name.as_str(), gen_bots_only_api);
        out.append(t.as_str());
        assert(dv.take(i + 1).drop_last() =~= dv.take(i as int));
        assert(dv.take(i + 1).last() == defs@[i as int]@);
        i += 1;
        assert(out@ =~= mid + concat_defs(dv.take(i as int), g));
    }
    assert(dv.take(defs.len() as int) =~= dv);
    out.append("\n");
    assert(out@ =~= enum_item(ty@, ds, gen_bots_only_api));
    out
}

/// Whether a type named like `ty` is among `tys`.
fn names_type_exec(tys: &Vec<&Type>, ty: &Type) -> (r: bool)
    ensures
        r == names_type(tys@.map_values(|t: &Type| t@), ty.name@),
{
    let ghost tv = tys@.map_values(|t: &Type| t@);
    let mut k: usize = 0;
    while k < tys.len()
        invariant
            k <= tys.len(),
            tv == tys@.map_values(|t: &Type| t@),
            forall|a: int| 0 <= a < k ==> tv[a].name != ty.name@,
        decreases tys.len() - k,
    {
        assert(tv[k as int] == tys@[k as int]@);
        if str_eq(tys[k].name.as_str(), ty.name.as_str()) {
            return true;
        }
        k += 1;
    }
    false
}

/// The `enums` module: an enum for every union type that is not
/// special-cased (each type once, in the order of its first constructor),
/// grouped into one file per business domain, and the `mod.rs` that
/// declares the files and re-exports the enums. The metadata must know a
/// constructor of each of these types.
#[verifier::spinoff_prover]
#[verifier::rlimit(40)]
pub fn enums_module(definitions: &[Definition], metadata: &Metadata, gen_bots_only_api: bool) -> (r: ModuleSource)
    requires
        forall|i: int|
            0 <= i < definitions.len() && enum_wanted(#[trigger] definitions@[i]@) ==> exists|k: int|
                0 <= k < metadata.type_defs().len() && metadata.type_defs()[k].ty.name
                    == definitions@[i]@.ty.name,
    ensures
        r.mod_rs@ == grouped_mod_text(
            enum_items(enum_types(defs_view(definitions@)), metadata.type_defs(), gen_bots_only_api),
            SORTED_DOMAINS@.len() as int,
        ),
        files_view(r.files@) == grouped_files(
            enum_items(enum_types(defs_view(definitions@)), metadata.type_defs(), gen_bots_only_api),
            enums_header(),
            SORTED_DOMAINS@.len() as int,
        ),
{
    let ghost all = defs_view(definitions@);
    let ghost ds = metadata.type_defs();
    let mut tys: Vec<&Type> = Vec::new();
    let mut items: Vec<(&'static str, String)> = Vec::new();
    let mut i: usize = 0;
    while i < definitions.len()
        invariant
            i <= definitions.len(),
            all == defs_view(definitions@),
            ds == metadata.type_defs(),
            forall|j: int|
                0 <= j < definitions.len() && enum_wanted(#[trigger] definitions@[j]@) ==> exists|k: int|
                    0 <= k < ds.len() && ds[k].ty.name == definitions@[j]@.ty.name,
            tys@.map_values(|t: &Type| t@) == enum_types(all.take(i as int)),
            items_view(items@) == enum_items(enum_types(all.take(i as int)), ds, gen_bots_only_api),
        decreases definitions.len() - i,
    {
        let def = &definitions[i];
        assert(all.take(i + 1).drop_last() =~= all.take(i as int));
        assert(all.take(i + 1).last() == def@);
        let wanted = match def.category {
            Category::Types => !ignore_type(&def.ty),
            Category::Functions => false,
        };
        if wanted && !names_type_exec(&tys, &def.ty) {
            assert(enum_wanted(definitions@[i as int]@));
            let ghost prev = enum_types(all.take(i as int));
            tys.push(&def.ty);
            assert(tys@.map_values(|t: &Type| t@) =~= prev.push(def.ty@));
            let name = rust_type_name(&def.ty);
            let dom = item_domain_exec(name.as_str());
            let text = enum_source_exec(&def.ty, metadata, gen_bots_only_api);
            let ghost before = items@;
            items.push((dom, text));
            assert(items_view(items@) =~= items_view(before).push((dom@, text@)));
            assert(enum_items(prev.push(def.ty@), ds, gen_bots_only_api) =~= enum_items(
                prev,
                ds,
                gen_bots_only_api,
            ).push((dom@, text@)));
        }
        i += 1;
    }
    assert(all.take(definitions.len() as int) =~= all);
    proof {
        reveal_strlit("#[allow(clippy::all)]\nuse serde::{Deserialize, Serialize};\n\n");
        reveal_strlit("#[allow(clippy::all)]\n");
        reveal_strlit("use serde::{Deserialize, Serialize};\n");
        reveal_strlit("\n");
    }
    assert(ENUMS_HEADER@ =~= enums_header());
    grouped_module(&items, ENUMS_HEADER)
}

} // verus!
