//! How TL names become Rust names: type and variant names, qualified paths,
//! field names, documentation comments and serde attributes.

use vstd::prelude::*;
use convert_case::{Case, Casing};
use crate::text::{
    chars_of, contains_seq, contains_str, is_ascii_lower, is_ascii_upper, lemma_rfind_below,
    push_replacing, replace_char, rfind_below, rfind_char, starts_with, str_eq,
    string_from, sub_vec, vec_starts_with, chars_eq_str,
};
use crate::tl::definition::{Definition, DefinitionView};
use crate::tl::parameter::{Parameter, ParameterView};
use crate::tl::ty::{type_view, Type, TypeView};

verus! {

// ---------------------------------------------------------------------------
// Built-in types
// ---------------------------------------------------------------------------

/// The Rust type that a built-in TL type maps to.
pub open spec fn builtin_rust_name(name: Seq<char>) -> Option<Seq<char>> {
    if name == "Bool"@ {
        Some("bool"@)
    } else if name == "bytes"@ {
        Some("String"@)
    } else if name == "double"@ {
        Some("f64"@)
    } else if name == "int32"@ {
        Some("i32"@)
    } else if name == "int53"@ {
        Some("i64"@)
    } else if name == "int64"@ {
        Some("i64"@)
    } else if name == "string"@ {
        Some("String"@)
    } else if name == "vector"@ {
        Some("Vec"@)
    } else if name == "Vector"@ {
        Some("Vec"@)
    } else if name == "Ok"@ {
        Some("()"@)
    } else {
        None
    }
}

/// TL type names that map to a built-in Rust type.
pub open spec fn is_builtin_name(name: Seq<char>) -> bool {
    builtin_rust_name(name) is Some
}

/// The Rust type that a built-in TL type maps to, if it is one.
pub fn builtin_type(name: &str) -> (r: Option<&'static str>)
    ensures
        match r {
            Some(b) => builtin_rust_name(name@) == Some(b@),
            None => builtin_rust_name(name@) is None,
        },
{
    if str_eq(name, "Bool") {
        Some("bool")
    } else if str_eq(name, "bytes") {
        Some("String")
    } else if str_eq(name, "double") {
        Some("f64")
    } else if str_eq(name, "int32") {
        Some("i32")
    } else if str_eq(name, "int53") {
        Some("i64")
    } else if str_eq(name, "int64") {
        Some("i64")
    } else if str_eq(name, "string") {
        Some("String")
    } else if str_eq(name, "vector") {
        Some("Vec")
    } else if str_eq(name, "Vector") {
        Some("Vec")
    } else if str_eq(name, "Ok") {
        Some("()")
    } else {
        None
    }
}

/// Whether the type of a parameter maps to a built-in Rust type.
pub fn is_builtin_type(param: &Parameter) -> (r: bool)
    ensures
        r == is_builtin_name(param@.ty.name),
{
    builtin_type(param.ty.name.as_str()).is_some()
}

// ---------------------------------------------------------------------------
// Type names
// ---------------------------------------------------------------------------

/// ASCII upper-casing of one character.
pub open spec fn ascii_upper(c: char) -> char {
    if is_ascii_lower(c) {
        ((c as u32) - 32) as char
    } else {
        c
    }
}

/// ASCII lower-casing of one character.
pub open spec fn ascii_lowered(c: char) -> char {
    crate::text::ascii_lower(c)
}

/// How the next letter of a name is cased.
#[derive(Clone, Copy, PartialEq, Eq, Structural)]
pub enum LetterCase {
    Upper,
    Lower,
    Preserve,
}

/// The camel-cased form of `s[i..]`: `_` is dropped and capitalises the next
/// letter; the first letter is capitalised; a letter after a capital is put
/// in lower case (so acronyms read as words); others are kept.
pub open spec fn camel_from(s: Seq<char>, i: int, casing: LetterCase) -> Seq<char>
    decreases s.len() - i,
{
    if i < 0 || i >= s.len() {
        Seq::empty()
    } else if s[i] == '_' {
        camel_from(s, i + 1, LetterCase::Upper)
    } else {
        let c = s[i];
        let out = match casing {
            LetterCase::Upper => ascii_upper(c),
            LetterCase::Lower => ascii_lowered(c),
            LetterCase::Preserve => c,
        };
        let next = match casing {
            LetterCase::Upper => LetterCase::Lower,
            _ => if is_ascii_upper(c) {
                LetterCase::Lower
            } else {
                LetterCase::Preserve
            },
        };
        seq![out] + camel_from(s, i + 1, next)
    }
}

/// The part of a name after its last `.` (its namespace), or the whole name.
pub open spec fn without_namespace(s: Seq<char>) -> Seq<char> {
    match rfind_below(s, '.', s.len() as int) {
        Some(p) => s.subrange(p + 1, s.len() as int),
        None => s,
    }
}

/// The Rust type name of a TL name, e.g. `ns.some_OK_name` gives `SomeOkName`.
pub open spec fn rusty_type_name(name: Seq<char>) -> Seq<char> {
    camel_from(without_namespace(name), 0, LetterCase::Upper)
}

fn to_upper(c: char) -> (r: char)
    ensures
        r == ascii_upper(c),
{
    if 'a' <= c && c <= 'z' {
        let code: u32 = c as u32;
        let raised: u8 = (code - 32) as u8;
        raised as char
    } else {
        c
    }
}

/// Computes the Rust type name of a TL name.
pub fn rusty_type_name_exec(name: &str) -> (r: String)
    ensures
        r@ == rusty_type_name(name@),
{
    let v = chars_of(name);
    let s = match rfind_char(&v, '.', v.len()) {
        Some(p) => {
            proof {
                lemma_rfind_below(v@, '.', v@.len() as int);
            }
            sub_vec(&v, p + 1, v.len())
        },
        None => v,
    };
    let mut out = String::new();
    let mut casing = LetterCase::Upper;
    let mut i: usize = 0;
    while i < s.len()
        invariant
            i <= s.len(),
            out@ + camel_from(s@, i as int, casing) == rusty_type_name(name@),
        decreases s.len() - i,
    {
        let c = s[i];
        if c != '_' {
            let ghost before = out@;
            let ghost prev = casing;
            let shown = match casing {
                LetterCase::Upper => to_upper(c),
                LetterCase::Lower => crate::text::to_ascii_lower(c),
                LetterCase::Preserve => c,
            };
            crate::text::push_char(&mut out, shown);
            casing = match casing {
                LetterCase::Upper => LetterCase::Lower,
                _ => if 'A' <= c && c <= 'Z' {
                    LetterCase::Lower
                } else {
                    LetterCase::Preserve
                },
            };
            assert(out@ + camel_from(s@, i + 1, casing) =~= before + camel_from(
                s@,
                i as int,
                prev,
            ));
        } else {
            casing = LetterCase::Upper;
        }
        i += 1;
    }
    assert(out@ + camel_from(s@, i as int, casing) =~= out@);
    out
}

/// The Rust name of a type (not qualified): the built-in type it maps to, or
/// its camel-cased name.
pub open spec fn type_name_of(t: TypeView) -> Seq<char> {
    match builtin_rust_name(t.name) {
        Some(b) => b,
        None => rusty_type_name(t.name),
    }
}

/// The fully qualified Rust type of a type: built-in types as they are, bare
/// types under `crate::types`, boxed (union) types under `crate::enums`, each
/// followed by its generic argument in angle brackets.
pub open spec fn qual_type_name(t: TypeView) -> Seq<char>
    decreases t,
{
    let base = match builtin_rust_name(t.name) {
        Some(b) => b,
        None => if t.bare {
            "crate::types::"@ + rusty_type_name(t.name)
        } else {
            "crate::enums::"@ + rusty_type_name(t.name)
        },
    };
    match t.generic_arg {
        Some(arg) => base + seq!['<'] + qual_type_name(*arg) + seq!['>'],
        None => base,
    }
}

/// The type is the unit-like `Ok`.
pub open spec fn is_ok_type(t: TypeView) -> bool {
    t.name == "Ok"@
}

/// Computes the Rust name of a type.
pub fn rust_type_name(ty: &Type) -> (r: String)
    ensures
        r@ == type_name_of(ty@),
{
    match builtin_type(ty.name.as_str()) {
        Some(b) => String::from_str(b),
        None => rusty_type_name_exec(ty.name.as_str()),
    }
}

/// Computes the fully qualified Rust type of a type.
pub fn qual_name(ty: &Type) -> (r: String)
    ensures
        r@ == qual_type_name(ty@),
    decreases ty,
{
    let mut out = match builtin_type(ty.name.as_str()) {
        Some(b) => String::from_str(b),
        None => {
            let mut prefix = if ty.bare {
                String::from_str("crate::types::")
            } else {
                String::from_str("crate::enums::")
            };
            let name = rusty_type_name_exec(ty.name.as_str());
            prefix.append(name.as_str());
            prefix
        },
    };
    match &ty.generic_arg {
        Some(arg) => {
            crate::text::push_char(&mut out, '<');
            let inner = qual_name(arg);
            out.append(inner.as_str());
            crate::text::push_char(&mut out, '>');
        },
        None => {},
    }
    assert(out@ =~= qual_type_name(ty@));
    out
}

/// Whether the type is `Ok`.
pub fn is_ok(ty: &Type) -> (r: bool)
    ensures
        r == is_ok_type(ty@),
{
    str_eq(ty.name.as_str(), "Ok")
}

// ---------------------------------------------------------------------------
// Definitions
// ---------------------------------------------------------------------------

/// The Rust struct name of a definition.
pub open spec fn def_type_name(d: DefinitionView) -> Seq<char> {
    rusty_type_name(d.name)
}

/// The fully qualified Rust struct of a definition.
pub open spec fn def_qual_name(d: DefinitionView) -> Seq<char> {
    "crate::types::"@ + def_type_name(d)
}

/// The position of the last ASCII capital below `j`, or 0.
pub open spec fn last_upper_below(s: Seq<char>, j: int) -> int
    decreases j,
{
    if j <= 0 || j > s.len() {
        0
    } else if is_ascii_upper(s[j - 1]) {
        j - 1
    } else {
        last_upper_below(s, j - 1)
    }
}

proof fn lemma_last_upper_below(s: Seq<char>, j: int)
    requires
        0 <= j <= s.len(),
    ensures
        0 <= last_upper_below(s, j) <= j,
        j > 0 ==> last_upper_below(s, j) < j,
    decreases j,
{
    if j > 0 && !is_ascii_upper(s[j - 1]) {
        lemma_last_upper_below(s, j - 1);
    }
}

/// The enum variant name of a constructor: its struct name without the
/// leading type name (`chatTypePrivate = ChatType` gives `Private`). When
/// nothing is left, the name from its last capital on is used; when `Self`
/// is left, the name from the capital before it on.
pub open spec fn variant_name_of(d: DefinitionView) -> Seq<char> {
    let name = def_type_name(d);
    let ty_name = type_name_of(d.ty);
    let variant = if starts_with(name, ty_name) {
        name.subrange(ty_name.len() as int, name.len() as int)
    } else {
        name
    };
    if variant.len() == 0 {
        name.subrange(last_upper_below(name, name.len() as int), name.len() as int)
    } else if variant == "Self"@ {
        name.subrange(last_upper_below(name, name.len() - variant.len()), name.len() as int)
    } else {
        variant
    }
}

/// The line prefix of a documentation comment.
pub open spec fn doc_prefix(indent: Seq<char>) -> Seq<char> {
    indent + "/// "@
}

/// `text` as a documentation comment indented by `indent`: each of its lines
/// prefixed with `indent` and `/// `.
pub open spec fn doc_comment(text: Seq<char>, indent: Seq<char>) -> Seq<char> {
    doc_prefix(indent) + replace_char(text, '\n', seq!['\n'] + doc_prefix(indent))
}

/// The text says that the item is for bots only.
pub open spec fn for_bots_only(description: Seq<char>) -> bool {
    contains_seq(description, "for bots only"@)
}

/// Computes the struct name of a definition.
pub fn def_type_name_exec(def: &Definition) -> (r: String)
    ensures
        r@ == def_type_name(def@),
{
    rusty_type_name_exec(def.name.as_str())
}

/// Computes the fully qualified struct of a definition.
pub fn def_qual_name_exec(def: &Definition) -> (r: String)
    ensures
        r@ == def_qual_name(def@),
{
    let mut out = String::from_str("crate::types::");
    let name = def_type_name_exec(def);
    out.append(name.as_str());
    out
}

/// Computes the enum variant name of a constructor.
pub fn variant_name(def: &Definition) -> (r: String)
    ensures
        r@ == variant_name_of(def@),
{
    let name_s = def_type_name_exec(def);
    let ty_s = rust_type_name(&def.ty);
    let name = chars_of(name_s.as_str());
    let ty_name = chars_of(ty_s.as_str());
    let variant = if vec_starts_with(&name, &ty_name) {
        sub_vec(&name, ty_name.len(), name.len())
    } else {
        sub_vec(&name, 0, name.len())
    };
    assert(name@.subrange(0, name@.len() as int) =~= name@);
    if variant.len() == 0 {
        let start = last_upper_exec(&name, name.len());
        string_of_tail(&name, start)
    } else if chars_eq_str(&variant, "Self") {
        let start = last_upper_exec(&name, name.len() - variant.len());
        string_of_tail(&name, start)
    } else {
        string_from(&variant)
    }
}

fn string_of_tail(v: &Vec<char>, start: usize) -> (r: String)
    requires
        start <= v.len(),
    ensures
        r@ == v@.subrange(start as int, v@.len() as int),
{
    crate::text::string_of(v, start, v.len())
}

fn last_upper_exec(v: &Vec<char>, j: usize) -> (r: usize)
    requires
        j <= v.len(),
    ensures
        r as int == last_upper_below(v@, j as int),
        r <= j,
{
    proof {
        lemma_last_upper_below(v@, j as int);
    }
    let mut k = j;
    while k > 0
        invariant
            k <= j <= v.len(),
            last_upper_below(v@, j as int) == last_upper_below(v@, k as int),
        decreases k,
    {
        if 'A' <= v[k - 1] && v[k - 1] <= 'Z' {
            return k - 1;
        }
        k -= 1;
    }
    0
}

/// Name of what `convert_case` makes of a text with `to_case(Case::Snake)`.
pub uninterp spec fn snake_case(s: Seq<char>) -> Seq<char>;

/// Calls `convert_case::Casing::to_case` with `Case::Snake`. The contract
/// claims only that the result is a function of the text.
#[verifier::external_body]
fn to_snake_case(s: &str) -> (r: String)
    ensures
        r@ == snake_case(s@),
{
    s.to_case(Case::Snake)
}

/// The snake-cased form of a text, as `convert_case` computes it.
pub fn snake_case_exec(s: &str) -> (r: String)
    ensures
        r@ == snake_case(s@),
{
    to_snake_case(s)
}

/// The Rust function name of a TL function.
pub open spec fn function_name_of(d: DefinitionView) -> Seq<char> {
    snake_case(d.name)
}

/// Computes the Rust function name of a TL function.
pub fn function_name(def: &Definition) -> (r: String)
    ensures
        r@ == function_name_of(def@),
{
    to_snake_case(def.name.as_str())
}

/// Appends `text` as a documentation comment indented by `indent`.
pub fn push_doc_comment(out: &mut String, text: &str, indent: &str)
    ensures
        final(out)@ == old(out)@ + doc_comment(text@, indent@),
{
    let mut prefix = String::from_str(indent);
    prefix.append("/// ");
    out.append(prefix.as_str());
    let mut rep = String::new();
    crate::text::push_char(&mut rep, '\n');
    rep.append(prefix.as_str());
    let t = chars_of(text);
    let r = chars_of(rep.as_str());
    push_replacing(out, &t, '\n', &r);
    assert(out@ =~= old(out)@ + doc_comment(text@, indent@));
}

/// The documentation comment of a definition.
pub fn def_description(def: &Definition, indent: &str) -> (r: String)
    ensures
        r@ == doc_comment(def@.description, indent@),
{
    let mut out = String::new();
    push_doc_comment(&mut out, def.description.as_str(), indent);
    assert(out@ =~= doc_comment(def@.description, indent@));
    out
}

/// Whether a definition is for bots only.
pub fn def_is_for_bots_only(def: &Definition) -> (r: bool)
    ensures
        r == for_bots_only(def@.description),
{
    let d = chars_of(def.description.as_str());
    contains_str(&d, "for bots only")
}

// ---------------------------------------------------------------------------
// Parameters
// ---------------------------------------------------------------------------

/// Rust keywords, which a field name must be written around as a raw identifier.
pub const RUST_KEYWORDS: [&'static str; 50] = [
    "abstract", "as", "async", "await", "become", "box", "break", "const", "continue", "do",
    "dyn", "else", "enum", "extern", "false", "final", "fn", "for", "gen", "if",
    "impl", "in", "let", "loop", "macro", "match", "mod", "move", "mut", "override",
    "priv", "pub", "ref", "return", "static", "struct", "trait", "true", "try", "type",
    "typeof", "unsafe", "unsized", "use", "virtual", "where", "while", "yield", "union", "macro_rules",
];

/// `name` is listed in `RUST_KEYWORDS`.
pub open spec fn is_rust_keyword(name: Seq<char>) -> bool {
    exists|i: int| 0 <= i < RUST_KEYWORDS@.len() && RUST_KEYWORDS@[i]@ == name
}

/// The Rust field name of a parameter: its name, written as a raw
/// identifier when it is a Rust keyword.
pub open spec fn attr_name_of(p: ParameterView) -> Seq<char> {
    if is_rust_keyword(p.name) {
        "r#"@ + p.name
    } else {
        p.name
    }
}

/// The serde adapter of a parameter: 64-bit integers (and vectors of them)
/// travel as JSON strings.
pub open spec fn serde_as_of(p: ParameterView) -> Option<Seq<char>> {
    if p.ty.name == "int64"@ {
        Some("DisplayFromStr"@)
    } else if (p.ty.name == "vector"@ || p.ty.name == "Vector"@) && p.ty.generic_arg is Some
        && p.ty.generic_arg->0.name == "int64"@ {
        Some("Vec<DisplayFromStr>"@)
    } else {
        None
    }
}

/// The documentation says that the parameter may be absent.
pub open spec fn is_optional_of(p: ParameterView) -> bool {
    contains_seq(p.description, "may be null"@) || contains_seq(p.description, "pass null"@)
}

pub(crate) fn is_keyword(name: &str) -> (r: bool)
    ensures
        r == is_rust_keyword(name@),
{
    let table = RUST_KEYWORDS;
    let mut i: usize = 0;
    while i < table.len()
        invariant
            table@ == RUST_KEYWORDS@,
            i <= RUST_KEYWORDS@.len(),
            forall|k: int| 0 <= k < i ==> RUST_KEYWORDS@[k]@ != name@,
        decreases RUST_KEYWORDS@.len() - i,
    {
        let candidate: &str = table[i];
        if str_eq(candidate, name) {
            assert(RUST_KEYWORDS@[i as int]@ == name@);
            return true;
        }
        i += 1;
    }
    false
}

/// Computes the Rust field name of a parameter.
pub fn attr_name(param: &Parameter) -> (r: String)
    ensures
        r@ == attr_name_of(param@),
{
    if is_keyword(param.name.as_str()) {
        let mut out = String::from_str("r#");
        out.append(param.name.as_str());
        out
    } else {
        String::from_str(param.name.as_str())
    }
}

/// Computes the fully qualified Rust type of a parameter.
pub fn param_qual_name(param: &Parameter) -> (r: String)
    ensures
        r@ == qual_type_name(param@.ty),
{
    qual_name(&param.ty)
}

/// Computes the serde adapter of a parameter, if any.
pub fn serde_as(param: &Parameter) -> (r: Option<&'static str>)
    ensures
        match r {
            Some(a) => serde_as_of(param@) == Some(a@),
            None => serde_as_of(param@) is None,
        },
{
    let name = param.ty.name.as_str();
    if str_eq(name, "int64") {
        Some("DisplayFromStr")
    } else if str_eq(name, "vector") || str_eq(name, "Vector") {
        match &param.ty.generic_arg {
            Some(arg) => if {
                assert(param@.ty.generic_arg == Some(Box::new(type_view(**arg))));
                str_eq(arg.name.as_str(), "int64")
            } {
                Some("Vec<DisplayFromStr>")
            } else {
                None
            },
            None => None,
        }
    } else {
        None
    }
}

/// Whether a parameter may be absent.
pub fn is_optional(param: &Parameter) -> (r: bool)
    ensures
        r == is_optional_of(param@),
{
    let d = chars_of(param.description.as_str());
    contains_str(&d, "may be null") || contains_str(&d, "pass null")
}

/// Whether a parameter is for bots only.
pub fn param_is_for_bots_only(param: &Parameter) -> (r: bool)
    ensures
        r == for_bots_only(param@.description),
{
    let d = chars_of(param.description.as_str());
    contains_str(&d, "for bots only")
}

/// The documentation comment of a parameter.
pub fn param_description(param: &Parameter, indent: &str) -> (r: String)
    ensures
        r@ == doc_comment(param@.description, indent@),
{
    let mut out = String::new();
    push_doc_comment(&mut out, param.description.as_str(), indent);
    assert(out@ =~= doc_comment(param@.description, indent@));
    out
}

} // verus!
