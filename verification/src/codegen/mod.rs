//! The pure part of code generation: which definitions become which Rust
//! items, and the text of the generated files. Each submodule builds one
//! generated module (`types`, `enums`, `functions`) as text.

use vstd::prelude::*;
use crate::rustifier::for_bots_only;
use crate::bare::bare_check_ends;
use crate::codegen::enums::{
    enum_items, enum_types, enum_wanted, enums_header, enums_module, lemma_type_def_listed,
};
use crate::codegen::functions::{domain_files, functions_mod_text, functions_module, SORTED_DOMAINS};
use crate::codegen::grouping::{grouped_files, grouped_mod_text};
use crate::codegen::types::{struct_items, types_header, types_module};
use crate::metadata::{defs_view, type_defs_of, Metadata};
use crate::text::str_eq;
use crate::tl::definition::Definition;
use crate::tl::definition::DefinitionView;
use crate::tl::parameter::ParameterView;
use crate::tl::ty::Type;

pub mod types;
pub mod enums;
pub mod functions;
pub mod grouping;
pub mod containment;

verus! {

/// Core types that get no generated struct or enum, because they map to Rust
/// types or are handled by the runtime (`Bool`, `Int32`, `Ok`, ...).
pub const SPECIAL_CASED_TYPES: [&'static str; 6] = ["Bool", "Bytes", "Int32", "Int53", "Int64", "Ok"];

/// `name` is listed in `SPECIAL_CASED_TYPES`.
pub open spec fn is_special_cased(name: Seq<char>) -> bool {
    exists|i: int| 0 <= i < SPECIAL_CASED_TYPES@.len() && SPECIAL_CASED_TYPES@[i]@ == name
}

/// Whether `ty` is one of the special-cased core types that are skipped.
pub fn ignore_type(ty: &Type) -> (r: bool)
    ensures
        r == is_special_cased(ty.name@),
{
    let name = ty.name.as_str();
    let table = SPECIAL_CASED_TYPES;
    assert(table@ == SPECIAL_CASED_TYPES@);
    let mut i: usize = 0;
    while i < table.len()
        invariant
            table@ == SPECIAL_CASED_TYPES@,
            name@ == ty.name@,
            i <= SPECIAL_CASED_TYPES@.len(),
            forall|k: int| 0 <= k < i ==> SPECIAL_CASED_TYPES@[k]@ != name@,
        decreases SPECIAL_CASED_TYPES@.len() - i,
    {
        let candidate: &str = table[i];
        assert(candidate == table@[i as int]);
        if str_eq(candidate, name) {
            assert(SPECIAL_CASED_TYPES@[i as int]@ == name@);
            return true;
        }
        i += 1;
    }
    false
}

/// A generated source file.
pub struct SourceFile {
    /// The file name, without directory and extension.
    pub name: String,
    /// The text of the file.
    pub content: String,
}

/// Mathematical model of a `SourceFile`.
pub struct SourceFileView {
    pub name: Seq<char>,
    pub content: Seq<char>,
}

impl View for SourceFile {
    type V = SourceFileView;

    open spec fn view(&self) -> SourceFileView {
        SourceFileView { name: self.name@, content: self.content@ }
    }
}

/// The texts that `f` gives for each parameter, one after the other.
pub open spec fn concat_params(ps: Seq<ParameterView>, f: spec_fn(ParameterView) -> Seq<char>) -> Seq<
    char,
>
    decreases ps.len(),
{
    if ps.len() == 0 {
        Seq::empty()
    } else {
        concat_params(ps.drop_last(), f) + f(ps.last())
    }
}

/// The texts that `f` gives for each definition, one after the other.
pub open spec fn concat_defs(ds: Seq<DefinitionView>, f: spec_fn(DefinitionView) -> Seq<char>) -> Seq<
    char,
>
    decreases ds.len(),
{
    if ds.len() == 0 {
        Seq::empty()
    } else {
        concat_defs(ds.drop_last(), f) + f(ds.last())
    }
}

/// A bots-only item is left out unless the bots-only API is generated.
pub open spec fn skipped(description: Seq<char>, gen_bots_only_api: bool) -> bool {
    for_bots_only(description) && !gen_bots_only_api
}

/// The `mod.rs` text and the files of a generated module.
pub struct ModuleSource {
    /// The text of `mod.rs`.
    pub mod_rs: String,
    /// The other files of the module.
    pub files: Vec<SourceFile>,
}

/// Models of generated files.
pub open spec fn files_view(fs: Seq<SourceFile>) -> Seq<SourceFileView> {
    fs.map_values(|f: SourceFile| f@)
}

/// The three generated modules of a client crate.
pub struct GeneratedCode {
    /// One struct per constructor with parameters.
    pub types: ModuleSource,
    /// One enum per union type.
    pub enums: ModuleSource,
    /// One asynchronous function per TL function, grouped by domain.
    pub functions: ModuleSource,
}

/// The `types`, `enums` and `functions` modules of the client crate for the
/// definitions, computed from the metadata of the definitions (which needs
/// the check of each constructor for `Default` to end).
pub fn generate_modules(definitions: &[Definition], gen_bots_only_api: bool) -> (r: GeneratedCode)
    requires
        forall|i: int|
            0 <= i < type_defs_of(defs_view(definitions@)).len() ==> bare_check_ends(
                type_defs_of(defs_view(definitions@)),
                i,
            ),
    ensures
        r.types.mod_rs@ == grouped_mod_text(
            struct_items(
                defs_view(definitions@),
                type_defs_of(defs_view(definitions@)),
                gen_bots_only_api,
            ),
            SORTED_DOMAINS@.len() as int,
        ),
        files_view(r.types.files@) == grouped_files(
            struct_items(
                defs_view(definitions@),
                type_defs_of(defs_view(definitions@)),
                gen_bots_only_api,
            ),
            types_header(),
            SORTED_DOMAINS@.len() as int,
        ),
        r.enums.mod_rs@ == grouped_mod_text(
            enum_items(
                enum_types(defs_view(definitions@)),
                type_defs_of(defs_view(definitions@)),
                gen_bots_only_api,
            ),
            SORTED_DOMAINS@.len() as int,
        ),
        files_view(r.enums.files@) == grouped_files(
            enum_items(
                enum_types(defs_view(definitions@)),
                type_defs_of(defs_view(definitions@)),
                gen_bots_only_api,
            ),
            enums_header(),
            SORTED_DOMAINS@.len() as int,
        ),
        r.functions.mod_rs@ == functions_mod_text(defs_view(definitions@)),
        files_view(r.functions.files@) == domain_files(
            defs_view(definitions@),
            gen_bots_only_api,
            SORTED_DOMAINS@.len() as int,
        ),
{
    let metadata = Metadata::new(definitions);
    proof {
        let all = defs_view(definitions@);
        assert forall|i: int|
            0 <= i < definitions.len() && enum_wanted(#[trigger] definitions@[i]@) implies exists|k: int|
                0 <= k < metadata.type_defs().len() && metadata.type_defs()[k].ty.name
                    == definitions@[i]@.ty.name by {
            assert(all[i] == definitions@[i]@);
            lemma_type_def_listed(all, i);
            let k = choose|k: int| 0 <= k < type_defs_of(all).len() && type_defs_of(all)[k] == all[i];
            assert(metadata.type_defs()[k].ty.name == definitions@[i]@.ty.name);
        }
    }
    let types = types_module(definitions, &metadata, gen_bots_only_api);
    let enums = enums_module(definitions, &metadata, gen_bots_only_api);
    let functions = functions_module(definitions, gen_bots_only_api);
    GeneratedCode { types, enums, functions }
}

} // verus!
