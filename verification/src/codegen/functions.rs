//! The `functions` module: one asynchronous request function per TL
//! function, grouped into one file per business domain.

use vstd::prelude::*;
use crate::codegen::types::field_type;
use crate::codegen::{concat_defs, concat_params, files_view, skipped, ModuleSource, SourceFile, SourceFileView};
use crate::domain::{
    classify, domain_description, lemma_classify_in_all_domains, spec_classify,
    spec_domain_description, ALL_DOMAINS,
};
use crate::metadata::defs_view;
use crate::rustifier::{
    attr_name, attr_name_of, def_description, def_is_for_bots_only, doc_comment, function_name,
    function_name_of, is_ok, is_ok_type, is_optional, param_is_for_bots_only, param_qual_name,
    qual_name, qual_type_name,
};
use crate::text::{
    chars_of, contains_seq, lemma_seq_less_irreflexive, lemma_seq_less_transitive, lex_less_at, push_replacing,
    replace_char, seq_less, str_eq,
};
use crate::tl::definition::{params_view, Category, Definition, DefinitionView};
use crate::tl::parameter::{Parameter, ParameterView};

verus! {

/// The line of the `# Arguments` list that documents a parameter (none for
/// a bots-only parameter unless the bots-only API is generated).
pub open spec fn arg_doc(p: ParameterView, gen_bots_only_api: bool) -> Seq<char> {
    if skipped(p.description, gen_bots_only_api) {
        Seq::empty()
    } else {
        "/// * `"@ + attr_name_of(p) + "` - "@ + replace_char(p.description, '\n', "\n/// "@) + "\n"@
    }
}

/// The declaration of a parameter in the signature of a function.
pub open spec fn arg_decl(p: ParameterView, gen_bots_only_api: bool) -> Seq<char> {
    if skipped(p.description, gen_bots_only_api) {
        Seq::empty()
    } else {
        attr_name_of(p) + ": "@ + field_type(p) + ", "@
    }
}

/// The entry of a parameter in the JSON request: its TL name and the value.
pub open spec fn json_entry(p: ParameterView, gen_bots_only_api: bool) -> Seq<char> {
    if skipped(p.description, gen_bots_only_api) {
        Seq::empty()
    } else {
        "        \""@ + p.name + "\": "@ + attr_name_of(p) + ",\n"@
    }
}

/// The documentation of a function: its description, the `# Arguments`
/// list and the `# Returns` list.
pub open spec fn function_doc(d: DefinitionView, gen_bots_only_api: bool) -> Seq<char> {
    doc_comment(d.description, ""@) + "\n"@ + "///\n"@ + "/// # Arguments\n"@ + "///\n"@ + concat_params(
        d.params,
        |p: ParameterView| arg_doc(p, gen_bots_only_api),
    ) + "/// * `client_id` - The numeric client identifier to send the request to.\n"@ + "///\n"@
        + "/// # Returns\n"@ + "///\n"@ + (if is_ok_type(d.ty) {
        "/// * `Ok(())` - On success.\n"@
    } else {
        "/// * `Ok("@ + qual_type_name(d.ty) + ")` - On success.\n"@
    }) + "/// * `Err(crate::types::Error)` - On failure, returns a TDLib error.\n"@
}

/// The body of a function: it builds the JSON request, sends it, and turns
/// the response into the result.
pub open spec fn function_body(d: DefinitionView, gen_bots_only_api: bool) -> Seq<char> {
    "    let request = json!({\n"@ + "        \"@type\": \""@ + d.name + "\",\n"@ + concat_params(
        d.params,
        |p: ParameterView| json_entry(p, gen_bots_only_api),
    ) + "    });\n"@ + "    let response = send_request(client_id, request).await;\n"@
        + "    if response[\"@type\"] == \"error\" {\n"@
        + "        return Err(serde_json::from_value(response).unwrap());\n"@ + "    }\n"@
        + (if is_ok_type(d.ty) {
        "    Ok(())\n"@
    } else {
        "    Ok(serde_json::from_value(response).unwrap())\n"@
    }) + "}\n"@ + "\n"@
}

/// The generated asynchronous function of TL function `d` (nothing for a
/// bots-only function unless the bots-only API is generated).
pub open spec fn function_text(d: DefinitionView, gen_bots_only_api: bool) -> Seq<char> {
    if skipped(d.description, gen_bots_only_api) {
        Seq::empty()
    } else {
        function_doc(d, gen_bots_only_api) + "#[allow(clippy::too_many_arguments)]\n"@ + "pub async fn "@
            + function_name_of(d) + "("@ + concat_params(
            d.params,
            |p: ParameterView| arg_decl(p, gen_bots_only_api),
        ) + "client_id: i32) -> Result<"@ + qual_type_name(d.ty) + ", crate::types::Error> {\n"@
            + function_body(d, gen_bots_only_api)
    }
}

/// The piece of a function that `which` selects for a parameter: 0 for its
/// argument documentation, 1 for its declaration, 2 for its JSON entry.
pub open spec fn param_piece(p: ParameterView, gen_bots_only_api: bool, which: u8) -> Seq<char> {
    if which == 0 {
        arg_doc(p, gen_bots_only_api)
    } else if which == 1 {
        arg_decl(p, gen_bots_only_api)
    } else {
        json_entry(p, gen_bots_only_api)
    }
}

fn param_piece_exec(p: &Parameter, gen_bots_only_api: bool, which: u8) -> (r: String)
    ensures
        r@ == param_piece(p@, gen_bots_only_api, which),
{
    let mut out = String::new();
    if param_is_for_bots_only(p) && !gen_bots_only_api {
        return out;
    }
    let name = attr_name(p);
    if which == 0 {
        out.append("/// * `");
        out.append(name.as_str());
        out.append("` - ");
        let desc = chars_of(p.description.as_str());
        let rep = chars_of("\n/// ");
        push_replacing(&mut out, &desc, '\n', &rep);
        out.append("\n");
    } else if which == 1 {
        out.append(name.as_str());
        out.append(": ");
        let ty = param_qual_name(p);
        if is_optional(p) {
            out.append("Option<");
            out.append(ty.as_str());
            out.append(">");
        } else {
            out.append(ty.as_str());
        }
        out.append(", ");
    } else {
        out.append("        \"");
        out.append(p.name.as_str());
        out.append("\": ");
        out.append(name.as_str());
        out.append(",\n");
    }
    assert(out@ =~= param_piece(p@, gen_bots_only_api, which));
    out
}

fn push_param_pieces(out: &mut String, ps: &Vec<Parameter>, gen_bots_only_api: bool, which: u8)
    ensures
        final(out)@ == old(out)@ + concat_params(
            params_view(ps@),
            |p: ParameterView| param_piece(p, gen_bots_only_api, which),
        ),
{
    let ghost f = |p: ParameterView| param_piece(p, gen_bots_only_api, which);
    let ghost pv = params_view(ps@);
    let mut i: usize = 0;
    while i < ps.len()
        invariant
            i <= ps.len(),
            pv == params_view(ps@),
            f == (|p: ParameterView| param_piece(p, gen_bots_only_api, which)),
            out@ == old(out)@ + concat_params(pv.take(i as int), f),
        decreases ps.len() - i,
    {
        let t = param_piece_exec(&ps[i], gen_bots_only_api, which);
        out.append(t.as_str());
        assert(pv.take(i + 1).drop_last() =~= pv.take(i as int));
        assert(pv.take(i + 1).last() == ps@[i as int]@);
        i += 1;
        assert(out@ =~= old(out)@ + concat_params(pv.take(i as int), f));
    }
    assert(pv.take(ps.len() as int) =~= pv);
}

/// Selecting a piece by number gives the same texts as naming it.
proof fn lemma_pieces(ps: Seq<ParameterView>, gen_bots_only_api: bool)
    ensures
        concat_params(ps, |p: ParameterView| param_piece(p, gen_bots_only_api, 0)) == concat_params(
            ps,
            |p: ParameterView| arg_doc(p, gen_bots_only_api),
        ),
        concat_params(ps, |p: ParameterView| param_piece(p, gen_bots_only_api, 1)) == concat_params(
            ps,
            |p: ParameterView| arg_decl(p, gen_bots_only_api),
        ),
        concat_params(ps, |p: ParameterView| param_piece(p, gen_bots_only_api, 2)) == concat_params(
            ps,
            |p: ParameterView| json_entry(p, gen_bots_only_api),
        ),
    decreases ps.len(),
{
    if ps.len() > 0 {
        lemma_pieces(ps.drop_last(), gen_bots_only_api);
    }
}

#[verifier::spinoff_prover]
fn push_function_doc(out: &mut String, def: &Definition, gen_bots_only_api: bool)
    ensures
        final(out)@ == old(out)@ + function_doc(def@, gen_bots_only_api),
{
    proof {
        lemma_pieces(def@.params, gen_bots_only_api);
    }
    let doc = def_description(def, "");
    out.append(doc.as_str());
    out.append("\n");
    out.append("///\n");
    out.append("/// # Arguments\n");
    out.append("///\n");
    push_param_pieces(out, &def.params, gen_bots_only_api, 0);
    let ghost mid = out@;
    assert(mid =~= old(out)@ + doc_comment(def@.description, ""@) + "\n"@ + "///\n"@ + "/// # Arguments\n"@
        + "///\n"@ + concat_params(def@.params, |p: ParameterView| arg_doc(p, gen_bots_only_api)));
    out.append("/// * `client_id` - The numeric client identifier to send the request to.\n");
    out.append("///\n");
    out.append("/// # Returns\n");
    out.append("///\n");
    if is_ok(&def.ty) {
        out.append("/// * `Ok(())` - On success.\n");
    } else {
        let ret = qual_name(&def.ty);
        out.append("/// * `Ok(");
        out.append(ret.as_str());
        out.append(")` - On success.\n");
    }
    out.append("/// * `Err(crate::types::Error)` - On failure, returns a TDLib error.\n");
    assert(out@ =~= mid + ("/// * `client_id` - The numeric client identifier to send the request to.\n"@
        + "///\n"@ + "/// # Returns\n"@ + "///\n"@ + (if is_ok_type(def@.ty) {
        "/// * `Ok(())` - On success.\n"@
    } else {
        "/// * `Ok("@ + qual_type_name(def@.ty) + ")` - On success.\n"@
    }) + "/// * `Err(crate::types::Error)` - On failure, returns a TDLib error.\n"@));
    assert(out@ =~= old(out)@ + function_doc(def@, gen_bots_only_api));
}

#[verifier::spinoff_prover]
fn push_function_body(out: &mut String, def: &Definition, gen_bots_only_api: bool)
    ensures
        final(out)@ == old(out)@ + function_body(def@, gen_bots_only_api),
{
    proof {
        lemma_pieces(def@.params, gen_bots_only_api);
    }
    out.append("    let request = json!({\n");
    out.append("        \"@type\": \"");
    out.append(def.name.as_str());
    out.append("\",\n");
    push_param_pieces(out, &def.params, gen_bots_only_api, 2);
    let ghost mid = out@;
    assert(mid =~= old(out)@ + "    let request = json!({\n"@ + "        \"@type\": \""@ + def@.name + "\",\n"@
        + concat_params(def@.params, |p: ParameterView| json_entry(p, gen_bots_only_api)));
    out.append("    });\n");
    out.append("    let response = send_request(client_id, request).await;\n");
    out.append("    if response[\"@type\"] == \"error\" {\n");
    out.append("        return Err(serde_json::from_value(response).unwrap());\n");
    out.append("    }\n");
    if is_ok(&def.ty) {
        out.append("    Ok(())\n");
    } else {
        out.append("    Ok(serde_json::from_value(response).unwrap())\n");
    }
    out.append("}\n");
    out.append("\n");
    assert(out@ =~= mid + ("    });\n"@ + "    let response = send_request(client_id, request).await;\n"@
        + "    if response[\"@type\"] == \"error\" {\n"@
        + "        return Err(serde_json::from_value(response).unwrap());\n"@ + "    }\n"@
        + (if is_ok_type(def@.ty) {
        "    Ok(())\n"@
    } else {
        "    Ok(serde_json::from_value(response).unwrap())\n"@
    }) + "}\n"@ + "\n"@));
    assert(out@ =~= old(out)@ + function_body(def@, gen_bots_only_api));
}

/// With the bots-only API off, no piece of a generated function (argument
/// documentation, signature, JSON request) mentions a parameter whose
/// description says it is for bots only; every other parameter is
/// documented, declared and sent. So the JSON request has an entry for
/// exactly the parameters the signature declares.
pub proof fn lemma_bots_only_params_left_out(p: ParameterView, gen_bots_only_api: bool)
    ensures
        contains_seq(p.description, "for bots only"@) && !gen_bots_only_api ==> {
            &&& arg_doc(p, gen_bots_only_api) == Seq::<char>::empty()
            &&& arg_decl(p, gen_bots_only_api) == Seq::<char>::empty()
            &&& json_entry(p, gen_bots_only_api) == Seq::<char>::empty()
        },
        !(contains_seq(p.description, "for bots only"@) && !gen_bots_only_api) ==> {
            &&& arg_doc(p, gen_bots_only_api).len() > 0
            &&& arg_decl(p, gen_bots_only_api).len() > 0
            &&& json_entry(p, gen_bots_only_api).len() > 0
        },
        (json_entry(p, gen_bots_only_api).len() == 0) == (arg_decl(p, gen_bots_only_api).len() == 0),
{
    reveal_strlit("/// * `");
    reveal_strlit(": ");
    reveal_strlit("        \"");
}

/// With the bots-only API off, a TL function whose description says it is
/// for bots only gets no generated function; every other one does.
pub proof fn lemma_bots_only_functions_left_out(d: DefinitionView, gen_bots_only_api: bool)
    ensures
        (function_text(d, gen_bots_only_api).len() == 0) == (contains_seq(d.description, "for bots only"@)
            && !gen_bots_only_api),
{
    reveal_strlit("#[allow(clippy::too_many_arguments)]\n");
}

/// The text of the generated asynchronous function of a TL function.
pub fn function_text_exec(def: &Definition, gen_bots_only_api: bool) -> (r: String)
    ensures
        r@ == function_text(def@, gen_bots_only_api),
{
    let mut out = String::new();
    if def_is_for_bots_only(def) && !gen_bots_only_api {
        return out;
    }
    proof {
        lemma_pieces(def@.params, gen_bots_only_api);
    }
    push_function_doc(&mut out, def, gen_bots_only_api);
    let ghost doc_part = out@;
    out.append("#[allow(clippy::too_many_arguments)]\n");
    out.append("pub async fn ");
    let fname = function_name(def);
    out.append(fname.as_str());
    out.append("(");
    push_param_pieces(&mut out, &def.params, gen_bots_only_api, 1);
    out.append("client_id: i32) -> Result<");
    let ret = qual_name(&def.ty);
    out.append(ret.as_str());
    out.append(", crate::types::Error> {\n");
    let ghost sig_part = out@;
    push_function_body(&mut out, def, gen_bots_only_api);
    assert(out@ =~= function_text(def@, gen_bots_only_api));
    out
}

/// The business domains in ascending order: the order in which the files
/// of the `functions` module are declared and written.
pub const SORTED_DOMAINS: [&'static str; 15] = [
    "bot",
    "call",
    "chat",
    "file",
    "forum",
    "message",
    "misc",
    "notification",
    "passport",
    "payment",
    "poll",
    "premium",
    "sticker",
    "story",
    "user",
];

/// The business domain of a TL function: that of its Rust function name.
#[verifier::opaque]
pub open spec fn domain_of(d: DefinitionView) -> Seq<char> {
    spec_classify(function_name_of(d))
}

/// The TL functions of domain `dom`, in schema order.
pub open spec fn domain_group(defs: Seq<DefinitionView>, dom: Seq<char>) -> Seq<DefinitionView>
    decreases defs.len(),
{
    if defs.len() == 0 {
        Seq::empty()
    } else if defs.last().category == Category::Functions && domain_of(defs.last()) == dom {
        domain_group(defs.drop_last(), dom).push(defs.last())
    } else {
        domain_group(defs.drop_last(), dom)
    }
}

/// The header of the file of domain `dom`.
pub open spec fn domain_file_header(dom: Seq<char>) -> Seq<char> {
    "//!\n"@ + "//! TDLib `"@ + dom + "` domain functions.\n"@ + "//!\n"@ + "//! "@
        + spec_domain_description(dom) + "\n"@ + "//!\n"@ + "\n"@ + "#[allow(clippy::all)]\n"@
        + "use serde_json::json;\n"@ + "use crate::send_request;\n"@ + "\n"@
}

/// The text of the file of domain `dom`: its header and the functions of
/// the domain.
pub open spec fn domain_file_text(dom: Seq<char>, defs: Seq<DefinitionView>, gen_bots_only_api: bool) -> Seq<char> {
    domain_file_header(dom) + concat_defs(
        domain_group(defs, dom),
        |d: DefinitionView| function_text(d, gen_bots_only_api),
    )
}

/// The lines of `functions/mod.rs` that declare and re-export a domain.
pub open spec fn domain_mod_entry(dom: Seq<char>) -> Seq<char> {
    "pub mod "@ + dom + ";\n"@ + "pub use "@ + dom + "::*;\n"@ + "\n"@
}

/// The entries of `functions/mod.rs` for the first `k` sorted domains that
/// have functions.
pub open spec fn functions_mod_entries(defs: Seq<DefinitionView>, k: int) -> Seq<char>
    decreases k,
{
    if k <= 0 {
        Seq::empty()
    } else {
        functions_mod_entries(defs, k - 1) + if domain_group(defs, SORTED_DOMAINS@[k - 1]@).len() > 0 {
            domain_mod_entry(SORTED_DOMAINS@[k - 1]@)
        } else {
            Seq::empty()
        }
    }
}

/// The text of `functions/mod.rs`.
pub open spec fn functions_mod_text(defs: Seq<DefinitionView>) -> Seq<char> {
    "//!\n"@ + "//! TDLib asynchronous API functions, categorized by business domain.\n"@ + "//!\n"@
        + functions_mod_entries(defs, SORTED_DOMAINS@.len() as int)
}

/// The domain files for the first `k` sorted domains that have functions.
pub open spec fn domain_files(defs: Seq<DefinitionView>, gen_bots_only_api: bool, k: int) -> Seq<
    SourceFileView,
>
    decreases k,
{
    if k <= 0 {
        Seq::empty()
    } else if domain_group(defs, SORTED_DOMAINS@[k - 1]@).len() > 0 {
        domain_files(defs, gen_bots_only_api, k - 1).push(
            SourceFileView {
                name: SORTED_DOMAINS@[k - 1]@,
                content: domain_file_text(SORTED_DOMAINS@[k - 1]@, defs, gen_bots_only_api),
            },
        )
    } else {
        domain_files(defs, gen_bots_only_api, k - 1)
    }
}

/// `o` records the domain of `d` if `d` is a TL function, and nothing
/// otherwise.
pub open spec fn records_domain(o: Option<&'static str>, d: DefinitionView) -> bool {
    match o {
        Some(x) => d.category == Category::Functions && x@ == domain_of(d),
        None => d.category != Category::Functions,
    }
}

/// The domain of each TL function among the definitions.
fn definition_domains(definitions: &[Definition]) -> (r: Vec<Option<&'static str>>)
    ensures
        r.len() == definitions.len(),
        forall|i: int| 0 <= i < r.len() ==> records_domain(#[trigger] r@[i], definitions@[i]@),
{
    let mut r: Vec<Option<&'static str>> = Vec::new();
    let mut i: usize = 0;
    while i < definitions.len()
        invariant
            i <= definitions.len(),
            r.len() == i,
            forall|j: int| 0 <= j < i ==> records_domain(#[trigger] r@[j], definitions@[j]@),
        decreases definitions.len() - i,
    {
        let d = &definitions[i];
        match d.category {
            Category::Functions => {
                let name = function_name(d);
                let dom = classify(name.as_str());
                proof {
                    reveal(domain_of);
                }
                r.push(Some(dom));
            },
            Category::Types => {
                r.push(None);
            },
        }
        i += 1;
    }
    r
}

/// The text of the file of domain `dom`, and whether the domain has any
/// function at all.
#[verifier::spinoff_prover]
fn domain_file(
    definitions: &[Definition],
    domains: &Vec<Option<&'static str>>,
    dom: &str,
    gen_bots_only_api: bool,
) -> (r: (String, bool))
    requires
        domains.len() == definitions.len(),
        forall|i: int| 0 <= i < domains.len() ==> records_domain(#[trigger] domains@[i], definitions@[i]@),
    ensures
        r.0@ == domain_file_text(dom@, defs_view(definitions@), gen_bots_only_api),
        r.1 == (domain_group(defs_view(definitions@), dom@).len() > 0),
{
    let ghost all = defs_view(definitions@);
    let ghost f = |d: DefinitionView| function_text(d, gen_bots_only_api);
    let mut out = String::new();
    out.append("//!\n");
    out.append("//! TDLib `");
    out.append(dom);
    out.append("` domain functions.\n");
    out.append("//!\n");
    out.append("//! ");
    out.append(domain_description(dom));
    out.append("\n");
    out.append("//!\n");
    out.append("\n");
    out.append("#[allow(clippy::all)]\n");
    out.append("use serde_json::json;\n");
    out.append("use crate::send_request;\n");
    out.append("\n");
    assert(out@ =~= domain_file_header(dom@));
    let mut any = false;
    let mut i: usize = 0;
    while i < definitions.len()
        invariant
            i <= definitions.len(),
            all == defs_view(definitions@),
            domains.len() == definitions.len(),
            forall|j: int| 0 <= j < domains.len() ==> records_domain(#[trigger] domains@[j], definitions@[j]@),
            f == (|d: DefinitionView| function_text(d, gen_bots_only_api)),
            out@ == domain_file_header(dom@) + concat_defs(domain_group(all.take(i as int), dom@), f),
            any == (domain_group(all.take(i as int), dom@).len() > 0),
        decreases definitions.len() - i,
    {
        let def = &definitions[i];
        assert(all.take(i + 1).drop_last() =~= all.take(i as int));
        assert(all.take(i + 1).last() == def@);
        assert(records_domain(domains@[i as int], definitions@[i as int]@));
        let member = match domains[i] {
            Some(x) => str_eq(x, dom),
            None => false,
        };
        let ghost g = domain_group(all.take(i as int), dom@);
        assert(member == (def@.category == Category::Functions && domain_of(def@) == dom@));
        assert(domain_group(all.take(i + 1), dom@) == if member {
            g.push(def@)
        } else {
            g
        });
        if member {
            let t = function_text_exec(def, gen_bots_only_api);
            out.append(t.as_str());
            any = true;
            assert(g.push(def@).drop_last() =~= g);
            assert(concat_defs(g.push(def@), f) == concat_defs(g, f) + f(def@));
        }
        i += 1;
    }
    assert(all.take(definitions.len() as int) =~= all);
    (out, any)
}

fn push_domain_mod_entry(out: &mut String, dom: &str)
    ensures
        final(out)@ == old(out)@ + domain_mod_entry(dom@),
{
    out.append("pub mod ");
    out.append(dom);
    out.append(";\n");
    out.append("pub use ");
    out.append(dom);
    out.append("::*;\n");
    out.append("\n");
    assert(out@ =~= old(out)@ + domain_mod_entry(dom@));
}

/// The `functions` module: one file per business domain that has functions,
/// in ascending order of the domain names, each holding the functions of
/// the domain in schema order, and the `mod.rs` that declares and re-exports
/// the domain files.
#[verifier::spinoff_prover]
#[verifier::rlimit(25)]
pub fn functions_module(definitions: &[Definition], gen_bots_only_api: bool) -> (r: ModuleSource)
    ensures
        r.mod_rs@ == functions_mod_text(defs_view(definitions@)),
        files_view(r.files@) == domain_files(
            defs_view(definitions@),
            gen_bots_only_api,
            SORTED_DOMAINS@.len() as int,
        ),
{
    let ghost all = defs_view(definitions@);
    let domains = definition_domains(definitions);
    let mut mod_rs = String::new();
    mod_rs.append("//!\n");
    mod_rs.append("//! TDLib asynchronous API functions, categorized by business domain.\n");
    mod_rs.append("//!\n");
    let ghost head = mod_rs@;
    let mut files: Vec<SourceFile> = Vec::new();
    let table = SORTED_DOMAINS;
    assert(table@ == SORTED_DOMAINS@);
    let mut k: usize = 0;
    while k < table.len()
        invariant
            k <= table.len(),
            table@ == SORTED_DOMAINS@,
            all == defs_view(definitions@),
            domains.len() == definitions.len(),
            forall|j: int| 0 <= j < domains.len() ==> records_domain(#[trigger] domains@[j], definitions@[j]@),
            mod_rs@ == head + functions_mod_entries(all, k as int),
            files_view(files@) == domain_files(all, gen_bots_only_api, k as int),
        decreases table.len() - k,
    {
        let dom: &'static str = table[k];
        assert(dom@ == SORTED_DOMAINS@[k as int]@);
        let (content, any) = domain_file(definitions, &domains, dom, gen_bots_only_api);
        let ghost entries = functions_mod_entries(all, k as int);
        let ghost prev_files = domain_files(all, gen_bots_only_api, k as int);
        assert(functions_mod_entries(all, k + 1) == entries + if any {
            domain_mod_entry(dom@)
        } else {
            Seq::empty()
        });
        assert(domain_files(all, gen_bots_only_api, k + 1) == if any {
            prev_files.push(SourceFileView { name: dom@, content: content@ })
        } else {
            prev_files
        });
        if any {
            push_domain_mod_entry(&mut mod_rs, dom);
            let ghost before = files@;
            files.push(SourceFile { name: String::from_str(dom), content });
            assert(files_view(files@) =~= files_view(before).push(files@.last()@));
        }
        k += 1;
        assert(mod_rs@ =~= head + functions_mod_entries(all, k as int));
    }
    ModuleSource { mod_rs, files }
}

/// The domain files come in ascending order of their names, as a sorted
/// map of domains is walked: each sorted domain comes strictly before the
/// next.
pub proof fn lemma_sorted_domains_ascending()
    ensures
        forall|i: int|
            0 <= i < SORTED_DOMAINS@.len() - 1 ==> seq_less(
                #[trigger] SORTED_DOMAINS@[i]@,
                SORTED_DOMAINS@[i + 1]@,
            ),
{
    reveal_strlit("bot");
    reveal_strlit("call");
    assert(lex_less_at(SORTED_DOMAINS@[0]@, SORTED_DOMAINS@[1]@, 0));
    reveal_strlit("call");
    reveal_strlit("chat");
    assert(lex_less_at(SORTED_DOMAINS@[1]@, SORTED_DOMAINS@[2]@, 1));
    reveal_strlit("chat");
    reveal_strlit("file");
    assert(lex_less_at(SORTED_DOMAINS@[2]@, SORTED_DOMAINS@[3]@, 0));
    reveal_strlit("file");
    reveal_strlit("forum");
    assert(lex_less_at(SORTED_DOMAINS@[3]@, SORTED_DOMAINS@[4]@, 1));
    reveal_strlit("forum");
    reveal_strlit("message");
    assert(lex_less_at(SORTED_DOMAINS@[4]@, SORTED_DOMAINS@[5]@, 0));
    reveal_strlit("message");
    reveal_strlit("misc");
    assert(lex_less_at(SORTED_DOMAINS@[5]@, SORTED_DOMAINS@[6]@, 1));
    reveal_strlit("misc");
    reveal_strlit("notification");
    assert(lex_less_at(SORTED_DOMAINS@[6]@, SORTED_DOMAINS@[7]@, 0));
    reveal_strlit("notification");
    reveal_strlit("passport");
    assert(lex_less_at(SORTED_DOMAINS@[7]@, SORTED_DOMAINS@[8]@, 0));
    reveal_strlit("passport");
    reveal_strlit("payment");
    assert(lex_less_at(SORTED_DOMAINS@[8]@, SORTED_DOMAINS@[9]@, 2));
    reveal_strlit("payment");
    reveal_strlit("poll");
    assert(lex_less_at(SORTED_DOMAINS@[9]@, SORTED_DOMAINS@[10]@, 1));
    reveal_strlit("poll");
    reveal_strlit("premium");
    assert(lex_less_at(SORTED_DOMAINS@[10]@, SORTED_DOMAINS@[11]@, 1));
    reveal_strlit("premium");
    reveal_strlit("sticker");
    assert(lex_less_at(SORTED_DOMAINS@[11]@, SORTED_DOMAINS@[12]@, 0));
    reveal_strlit("sticker");
    reveal_strlit("story");
    assert(lex_less_at(SORTED_DOMAINS@[12]@, SORTED_DOMAINS@[13]@, 2));
    reveal_strlit("story");
    reveal_strlit("user");
    assert(lex_less_at(SORTED_DOMAINS@[13]@, SORTED_DOMAINS@[14]@, 0));
    assert forall|i: int| 0 <= i < SORTED_DOMAINS@.len() - 1 implies seq_less(
        #[trigger] SORTED_DOMAINS@[i]@,
        SORTED_DOMAINS@[i + 1]@,
    ) by {
        if i == 0 { assert(lex_less_at(SORTED_DOMAINS@[0]@, SORTED_DOMAINS@[1]@, 0)); }
        else if i == 1 { assert(lex_less_at(SORTED_DOMAINS@[1]@, SORTED_DOMAINS@[2]@, 1)); }
        else if i == 2 { assert(lex_less_at(SORTED_DOMAINS@[2]@, SORTED_DOMAINS@[3]@, 0)); }
        else if i == 3 { assert(lex_less_at(SORTED_DOMAINS@[3]@, SORTED_DOMAINS@[4]@, 1)); }
        else if i == 4 { assert(lex_less_at(SORTED_DOMAINS@[4]@, SORTED_DOMAINS@[5]@, 0)); }
        else if i == 5 { assert(lex_less_at(SORTED_DOMAINS@[5]@, SORTED_DOMAINS@[6]@, 1)); }
        else if i == 6 { assert(lex_less_at(SORTED_DOMAINS@[6]@, SORTED_DOMAINS@[7]@, 0)); }
        else if i == 7 { assert(lex_less_at(SORTED_DOMAINS@[7]@, SORTED_DOMAINS@[8]@, 0)); }
        else if i == 8 { assert(lex_less_at(SORTED_DOMAINS@[8]@, SORTED_DOMAINS@[9]@, 2)); }
        else if i == 9 { assert(lex_less_at(SORTED_DOMAINS@[9]@, SORTED_DOMAINS@[10]@, 1)); }
        else if i == 10 { assert(lex_less_at(SORTED_DOMAINS@[10]@, SORTED_DOMAINS@[11]@, 1)); }
        else if i == 11 { assert(lex_less_at(SORTED_DOMAINS@[11]@, SORTED_DOMAINS@[12]@, 0)); }
        else if i == 12 { assert(lex_less_at(SORTED_DOMAINS@[12]@, SORTED_DOMAINS@[13]@, 2)); }
        else if i == 13 { assert(lex_less_at(SORTED_DOMAINS@[13]@, SORTED_DOMAINS@[14]@, 0)); }
    }
}

/// Any sorted domain comes strictly before every later one.
proof fn lemma_sorted_domains_increasing(a: int, b: int)
    requires
        0 <= a < b < SORTED_DOMAINS@.len(),
    ensures
        seq_less(SORTED_DOMAINS@[a]@, SORTED_DOMAINS@[b]@),
    decreases b - a,
{
    lemma_sorted_domains_ascending();
    assert(seq_less(SORTED_DOMAINS@[b - 1]@, SORTED_DOMAINS@[b]@));
    if a < b - 1 {
        lemma_sorted_domains_increasing(a, b - 1);
        lemma_seq_less_transitive(SORTED_DOMAINS@[a]@, SORTED_DOMAINS@[b - 1]@, SORTED_DOMAINS@[b]@);
    }
}

/// The sorted domains are pairwise distinct.
proof fn lemma_sorted_domains_distinct(a: int, b: int)
    requires
        0 <= a < SORTED_DOMAINS@.len(),
        0 <= b < SORTED_DOMAINS@.len(),
        a != b,
    ensures
        SORTED_DOMAINS@[a]@ != SORTED_DOMAINS@[b]@,
{
    if a < b {
        lemma_sorted_domains_increasing(a, b);
    } else {
        lemma_sorted_domains_increasing(b, a);
    }
    lemma_seq_less_irreflexive(SORTED_DOMAINS@[a]@);
}

/// The number of TL functions among the definitions.
pub open spec fn function_count(defs: Seq<DefinitionView>) -> nat
    decreases defs.len(),
{
    if defs.len() == 0 {
        0
    } else {
        function_count(defs.drop_last()) + if defs.last().category == Category::Functions {
            1nat
        } else {
            0nat
        }
    }
}

/// The number of functions in the groups of the first `k` sorted domains.
pub open spec fn grouped_count(defs: Seq<DefinitionView>, k: int) -> nat
    decreases k,
{
    if k <= 0 {
        0
    } else {
        grouped_count(defs, k - 1) + domain_group(defs, SORTED_DOMAINS@[k - 1]@).len()
    }
}

/// How many of the first `k` sorted domains are `x`.
spec fn domain_matches(x: Seq<char>, k: int) -> nat
    decreases k,
{
    if k <= 0 {
        0
    } else {
        domain_matches(x, k - 1) + if SORTED_DOMAINS@[k - 1]@ == x {
            1nat
        } else {
            0nat
        }
    }
}

proof fn lemma_domain_matches(x: Seq<char>, k: int)
    requires
        0 <= k <= SORTED_DOMAINS@.len(),
    ensures
        domain_matches(x, k) == if exists|j: int| 0 <= j < k && SORTED_DOMAINS@[j]@ == x {
            1nat
        } else {
            0nat
        },
    decreases k,
{
    if k > 0 {
        lemma_domain_matches(x, k - 1);
        if SORTED_DOMAINS@[k - 1]@ == x {
            assert forall|j: int| 0 <= j < k - 1 implies SORTED_DOMAINS@[j]@ != x by {
                lemma_sorted_domains_distinct(j, k - 1);
            }
        } else {
            if exists|j: int| 0 <= j < k && SORTED_DOMAINS@[j]@ == x {
                let j = choose|j: int| 0 <= j < k && SORTED_DOMAINS@[j]@ == x;
                assert(0 <= j < k - 1);
            }
        }
    }
}

proof fn lemma_grouped_step(defs: Seq<DefinitionView>, k: int)
    requires
        defs.len() > 0,
        0 <= k,
    ensures
        grouped_count(defs, k) == grouped_count(defs.drop_last(), k) + if defs.last().category
            == Category::Functions {
            domain_matches(domain_of(defs.last()), k)
        } else {
            0nat
        },
    decreases k,
{
    if k > 0 {
        lemma_grouped_step(defs, k - 1);
    }
}

/// Every business domain is among the sorted domains.
proof fn lemma_all_domains_sorted(j: int)
    requires
        0 <= j < ALL_DOMAINS@.len(),
    ensures
        exists|k: int| 0 <= k < SORTED_DOMAINS@.len() && SORTED_DOMAINS@[k]@ == ALL_DOMAINS@[j]@,
{
    if j == 0 { assert(ALL_DOMAINS@[0]@ == SORTED_DOMAINS@[0]@); }
        else if j == 1 { assert(ALL_DOMAINS@[1]@ == SORTED_DOMAINS@[1]@); }
        else if j == 2 { assert(ALL_DOMAINS@[2]@ == SORTED_DOMAINS@[2]@); }
        else if j == 3 { assert(ALL_DOMAINS@[3]@ == SORTED_DOMAINS@[3]@); }
        else if j == 4 { assert(ALL_DOMAINS@[4]@ == SORTED_DOMAINS@[4]@); }
        else if j == 5 { assert(ALL_DOMAINS@[5]@ == SORTED_DOMAINS@[5]@); }
        else if j == 6 { assert(ALL_DOMAINS@[6]@ == SORTED_DOMAINS@[7]@); }
        else if j == 7 { assert(ALL_DOMAINS@[7]@ == SORTED_DOMAINS@[8]@); }
        else if j == 8 { assert(ALL_DOMAINS@[8]@ == SORTED_DOMAINS@[9]@); }
        else if j == 9 { assert(ALL_DOMAINS@[9]@ == SORTED_DOMAINS@[10]@); }
        else if j == 10 { assert(ALL_DOMAINS@[10]@ == SORTED_DOMAINS@[11]@); }
        else if j == 11 { assert(ALL_DOMAINS@[11]@ == SORTED_DOMAINS@[12]@); }
        else if j == 12 { assert(ALL_DOMAINS@[12]@ == SORTED_DOMAINS@[13]@); }
        else if j == 13 { assert(ALL_DOMAINS@[13]@ == SORTED_DOMAINS@[14]@); }
        else if j == 14 { assert(ALL_DOMAINS@[14]@ == SORTED_DOMAINS@[6]@); }
}

/// Every TL function is written into exactly one domain file: the groups of
/// the sorted domains together hold as many functions as the schema has.
pub proof fn lemma_functions_partitioned(defs: Seq<DefinitionView>)
    ensures
        grouped_count(defs, SORTED_DOMAINS@.len() as int) == function_count(defs),
    decreases defs.len(),
{
    if defs.len() > 0 {
        let n = SORTED_DOMAINS@.len() as int;
        lemma_functions_partitioned(defs.drop_last());
        lemma_grouped_step(defs, n);
        let d = defs.last();
        if d.category == Category::Functions {
            reveal(domain_of);
            lemma_classify_in_all_domains(function_name_of(d));
            let j = choose|j: int| 0 <= j < ALL_DOMAINS@.len() && ALL_DOMAINS@[j]@ == spec_classify(function_name_of(d));
            lemma_all_domains_sorted(j);
            let k = choose|k: int| 0 <= k < SORTED_DOMAINS@.len() && SORTED_DOMAINS@[k]@ == ALL_DOMAINS@[j]@;
            assert(SORTED_DOMAINS@[k]@ == domain_of(d));
            lemma_domain_matches(domain_of(d), n);
        }
    } else {
        lemma_grouped_empty(defs, SORTED_DOMAINS@.len() as int);
    }
}

proof fn lemma_grouped_empty(defs: Seq<DefinitionView>, k: int)
    requires
        defs.len() == 0,
    ensures
        grouped_count(defs, k) == 0,
    decreases k,
{
    if k > 0 {
        lemma_grouped_empty(defs, k - 1);
    }
}

} // verus!
