//! The `types` module: one struct per constructor with parameters, grouped
//! into one file per business domain.

use vstd::prelude::*;
use crate::codegen::functions::SORTED_DOMAINS;
use crate::codegen::grouping::{grouped_files, grouped_mod_text, item_domain, item_domain_exec, items_view, grouped_module};
use crate::codegen::{concat_params, files_view, ignore_type, is_special_cased, skipped, ModuleSource};
use crate::metadata::{default_by_name, defs_view, Metadata};
use crate::rustifier::{
    attr_name, attr_name_of, def_description, def_is_for_bots_only, def_type_name,
    def_type_name_exec, doc_comment, is_optional, is_optional_of, param_description,
    param_is_for_bots_only, param_qual_name, qual_type_name, serde_as, serde_as_of,
};
use crate::text::contains_seq;
use crate::tl::definition::{params_view, Category, Definition, DefinitionView};
use crate::tl::parameter::{Parameter, ParameterView};

verus! {

/// The Rust type of a parameter, wrapped in `Option` when it may be absent.
pub open spec fn field_type(p: ParameterView) -> Seq<char> {
    if is_optional_of(p) {
        "Option<"@ + qual_type_name(p.ty) + ">"@
    } else {
        qual_type_name(p.ty)
    }
}

/// The declaration of a struct field: documentation, serde adapter, and
/// `pub name: Type,`.
pub open spec fn field_text(p: ParameterView, gen_bots_only_api: bool) -> Seq<char> {
    if skipped(p.description, gen_bots_only_api) {
        Seq::empty()
    } else {
        doc_comment(p.description, "    "@) + "\n"@ + match serde_as_of(p) {
            Some(a) => "    #[serde_as(as = \""@ + a + "\")]\n"@,
            None => Seq::empty(),
        } + "    pub "@ + attr_name_of(p) + ": "@ + field_type(p) + ",\n"@
    }
}

/// With the bots-only API off, a generated struct has no field for a
/// parameter whose description says it is for bots only; every other
/// parameter gets its field.
pub proof fn lemma_bots_only_fields_left_out(p: ParameterView, gen_bots_only_api: bool)
    ensures
        (field_text(p, gen_bots_only_api).len() == 0) == (contains_seq(p.description, "for bots only"@)
            && !gen_bots_only_api),
{
    reveal_strlit("    pub ");
}

/// Some parameter needs a serde adapter.
pub open spec fn has_serde_as(ps: Seq<ParameterView>) -> bool {
    exists|i: int| 0 <= i < ps.len() && serde_as_of(ps[i]) is Some
}

/// The header of each file of the `types` module.
pub open spec fn types_header() -> Seq<char> {
    "#[allow(clippy::all)]\n"@ + "use serde::{Deserialize, Serialize};\n"@
        + "use serde_with::{serde_as, DisplayFromStr};\n"@ + "\n"@
}

/// The header of each file of the `types` module.
pub const TYPES_HEADER: &'static str = "#[allow(clippy::all)]\nuse serde::{Deserialize, Serialize};\nuse serde_with::{serde_as, DisplayFromStr};\n\n";

/// The declaration of the struct of a constructor, followed by a blank line.
pub open spec fn struct_item(d: DefinitionView, ds: Seq<DefinitionView>, gen_bots_only_api: bool) -> Seq<char> {
    doc_comment(d.description, ""@) + "\n"@ + (if has_serde_as(d.params) {
        "#[serde_as]\n"@
    } else {
        Seq::empty()
    }) + "#[derive(Clone, Debug, "@ + (if default_by_name(ds, d.name) {
        "Default, "@
    } else {
        Seq::empty()
    }) + "PartialEq, Deserialize, Serialize)]\n"@ + "pub struct "@ + def_type_name(d) + " {\n"@
        + concat_params(d.params, |p: ParameterView| field_text(p, gen_bots_only_api)) + "}\n"@ + "\n"@
}

fn field_text_exec(p: &Parameter, gen_bots_only_api: bool) -> (r: String)
    ensures
        r@ == field_text(p@, gen_bots_only_api),
{
    let mut out = String::new();
    if param_is_for_bots_only(p) && !gen_bots_only_api {
        return out;
    }
    let doc = param_description(p, "    ");
    out.append(doc.as_str());
    out.append("\n");
    match serde_as(p) {
        Some(a) => {
            out.append("    #[serde_as(as = \"");
            out.append(a);
            out.append("\")]\n");
        },
        None => {},
    }
    out.append("    pub ");
    let name = attr_name(p);
    out.append(name.as_str());
    out.append(": ");
    let ty = param_qual_name(p);
    if is_optional(p) {
        out.append("Option<");
        out.append(ty.as_str());
        out.append(">");
    } else {
        out.append(ty.as_str());
    }
    out.append(",\n");
    assert(out@ =~= field_text(p@, gen_bots_only_api));
    out
}

fn has_serde_as_exec(ps: &Vec<Parameter>) -> (r: bool)
    ensures
        r == has_serde_as(params_view(ps@)),
{
    let mut i: usize = 0;
    while i < ps.len()
        invariant
            i <= ps.len(),
            forall|k: int| 0 <= k < i ==> serde_as_of(params_view(ps@)[k]) is None,
        decreases ps.len() - i,
    {
        if serde_as(&ps[i]).is_some() {
            assert(serde_as_of(params_view(ps@)[i as int]) is Some);
            return true;
        }
        i += 1;
    }
    false
}

fn push_fields(out: &mut String, ps: &Vec<Parameter>, gen_bots_only_api: bool)
    ensures
        final(out)@ == old(out)@ + concat_params(
            params_view(ps@),
            |p: ParameterView| field_text(p, gen_bots_only_api),
        ),
{
    let ghost f = |p: ParameterView| field_text(p, gen_bots_only_api);
    let ghost pv = params_view(ps@);
    let mut i: usize = 0;
    while i < ps.len()
        invariant
            i <= ps.len(),
            pv == params_view(ps@),
            f == (|p: ParameterView| field_text(p, gen_bots_only_api)),
            out@ == old(out)@ + concat_params(pv.take(i as int), f),
        decreases ps.len() - i,
    {
        let t = field_text_exec(&ps[i], gen_bots_only_api);
        out.append(t.as_str());
        assert(pv.take(i + 1).drop_last() =~= pv.take(i as int));
        assert(pv.take(i + 1).last() == ps@[i as int]@);
        i += 1;
        assert(out@ =~= old(out)@ + concat_params(pv.take(i as int), f));
    }
    assert(pv.take(ps.len() as int) =~= pv);
}

/// The declaration of the struct of a constructor, followed by a blank line.
pub fn struct_source_exec(def: &Definition, metadata: &Metadata, gen_bots_only_api: bool) -> (r: String)
    ensures
        r@ == struct_item(def@, metadata.type_defs(), gen_bots_only_api),
{
    let mut out = String::new();
    let doc = def_description(def, "");
    out.append(doc.as_str());
    out.append("\n");
    if has_serde_as_exec(&def.params) {
        out.append("#[serde_as]\n");
    }
    out.append("#[derive(Clone, Debug, ");
    if metadata.can_def_implement_default(def) {
        out.append("Default, ");
    }
    out.append("PartialEq, Deserialize, Serialize)]\n");
    out.append("pub struct ");
    let name = def_type_name_exec(def);
    out.append(name.as_str());
    out.append(" {\n");
    push_fields(&mut out, &def.params, gen_bots_only_api);
    out.append("}\n");
    out.append("\n");
    assert(out@ =~= struct_item(def@, metadata.type_defs(), gen_bots_only_api));
    out
}

/// A definition gets a struct: it is a data type, not special-cased, with
/// parameters.
pub open spec fn struct_wanted(d: DefinitionView) -> bool {
    d.category == Category::Types && !is_special_cased(d.ty.name) && d.params.len() > 0
}

/// A struct is written for the definition.
pub open spec fn struct_emitted(d: DefinitionView, gen_bots_only_api: bool) -> bool {
    struct_wanted(d) && !skipped(d.description, gen_bots_only_api)
}

/// The structs of the definitions, each with its domain and its text.
pub open spec fn struct_items(defs: Seq<DefinitionView>, ds: Seq<DefinitionView>, gen_bots_only_api: bool) -> Seq<
    (Seq<char>, Seq<char>),
>
    decreases defs.len(),
{
    if defs.len() == 0 {
        Seq::empty()
    } else if struct_emitted(defs.last(), gen_bots_only_api) {
        struct_items(defs.drop_last(), ds, gen_bots_only_api).push(
            (item_domain(def_type_name(defs.last())), struct_item(defs.last(), ds, gen_bots_only_api)),
        )
    } else {
        struct_items(defs.drop_last(), ds, gen_bots_only_api)
    }
}

fn struct_emitted_exec(def: &Definition, gen_bots_only_api: bool) -> (r: bool)
    ensures
        r == struct_emitted(def@, gen_bots_only_api),
{
    match def.category {
        Category::Types => {},
        Category::Functions => {
            return false;
        },
    }
    !ignore_type(&def.ty) && def.params.len() > 0 && !(def_is_for_bots_only(def) && !gen_bots_only_api)
}

/// The `types` module: a struct for every constructor with parameters
/// (special-cased types and, unless asked for, bots-only ones left out),
/// grouped into one file per business domain, and the `mod.rs` that
/// declares the files and re-exports the structs.
pub fn types_module(definitions: &[Definition], metadata: &Metadata, gen_bots_only_api: bool) -> (r: ModuleSource)
    ensures
        r.mod_rs@ == grouped_mod_text(
            struct_items(defs_view(definitions@), metadata.type_defs(), gen_bots_only_api),
            SORTED_DOMAINS@.len() as int,
        ),
        files_view(r.files@) == grouped_files(
            struct_items(defs_view(definitions@), metadata.type_defs(), gen_bots_only_api),
            types_header(),
            SORTED_DOMAINS@.len() as int,
        ),
{
    let ghost all = defs_view(definitions@);
    let ghost ds = metadata.type_defs();
    let mut items: Vec<(&'static str, String)> = Vec::new();
    let mut i: usize = 0;
    while i < definitions.len()
        invariant
            i <= definitions.len(),
            all == defs_view(definitions@),
            ds == metadata.type_defs(),
            items_view(items@) == struct_items(all.take(i as int), ds, gen_bots_only_api),
        decreases definitions.len() - i,
    {
        let def = &definitions[i];
        assert(all.take(i + 1).drop_last() =~= all.take(i as int));
        assert(all.take(i + 1).last() == def@);
        if struct_emitted_exec(def, gen_bots_only_api) {
            let name = def_type_name_exec(def);
            let dom = item_domain_exec(name.as_str());
            let text = struct_source_exec(def, metadata, gen_bots_only_api);
            let ghost before = items@;
            items.push((dom, text));
            assert(items_view(items@) =~= items_view(before).push((dom@, text@)));
        }
        i += 1;
    }
    assert(all.take(definitions.len() as int) =~= all);
    proof {
        reveal_strlit("#[allow(clippy::all)]\nuse serde::{Deserialize, Serialize};\nuse serde_with::{serde_as, DisplayFromStr};\n\n");
        reveal_strlit("#[allow(clippy::all)]\n");
        reveal_strlit("use serde::{Deserialize, Serialize};\n");
        reveal_strlit("use serde_with::{serde_as, DisplayFromStr};\n");
        reveal_strlit("\n");
    }
    assert(TYPES_HEADER@ =~= types_header());
    grouped_module(&items, TYPES_HEADER)
}

} // verus!
