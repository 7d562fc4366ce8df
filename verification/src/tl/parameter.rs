//! Parameters such as `chat_id:int53` in a definition.

use vstd::prelude::*;
use crate::text::{chars_of, field_after, field_after_vec, find_char, first_index, lemma_find_from, push_char, push_chars, string_from, sub_vec};
use crate::tl::ty::{lemma_first_index_at, lemma_type_roundtrip, lemma_type_text_avoids, type_names_avoid, well_formed_type};
use crate::tl::errors::{ParamParseError, ParamParseErrorView};
use crate::tl::ty::{parse_type_chars, spec_parse_type, type_text, Type, TypeView};

verus! {

/// A parameter of a definition.
#[derive(Debug, PartialEq)]
pub struct Parameter {
    /// The name of the parameter.
    pub name: String,
    /// The type of the parameter.
    pub ty: Type,
    /// The documentation of the parameter (filled in by the definition parser).
    pub description: String,
}

/// Mathematical model of a `Parameter`.
pub struct ParameterView {
    pub name: Seq<char>,
    pub ty: TypeView,
    pub description: Seq<char>,
}

impl View for Parameter {
    type V = ParameterView;

    open spec fn view(&self) -> ParameterView {
        ParameterView { name: self.name@, ty: self.ty@, description: self.description@ }
    }
}

/// Model of a parse result.
pub open spec fn param_result_view(r: Result<Parameter, ParamParseError>) -> Result<
    ParameterView,
    ParamParseErrorView,
> {
    match r {
        Ok(p) => Ok(p@),
        Err(e) => Err(e@),
    }
}

/// `s` ends with `suffix`.
pub open spec fn ends_with(s: Seq<char>, suffix: Seq<char>) -> bool {
    s.len() >= suffix.len() && s.subrange(s.len() - suffix.len(), s.len() as int) == suffix
}

/// How a parameter is read. `{X:Type}` declares a generic type instead of a
/// parameter; any other text starting with `{` is an error. Otherwise the
/// text is `name:type` (a text after a second `:` is ignored); without a `:`
/// the form is not handled, and an empty name is an error.
pub open spec fn spec_parse_param(s: Seq<char>) -> Result<ParameterView, ParamParseErrorView> {
    if s.len() > 0 && s[0] == '{' {
        let def = s.subrange(1, s.len() as int);
        if ends_with(def, ":Type}"@) {
            Err(ParamParseErrorView::TypeDef { name: def.subrange(0, def.len() - ":Type}"@.len()) })
        } else {
            Err(ParamParseErrorView::MissingDef)
        }
    } else {
        match first_index(s, ':') {
            None => Err(ParamParseErrorView::NotImplemented),
            Some(c) => {
                let name = s.subrange(0, c);
                if name.len() == 0 {
                    Err(ParamParseErrorView::Empty)
                } else {
                    match spec_parse_type(field_after(s, c, ':')) {
                        Ok(ty) => Ok(ParameterView { name, ty, description: Seq::empty() }),
                        Err(e) => Err(e),
                    }
                }
            },
        }
    }
}

/// The text of a parameter: `name:type`.
pub open spec fn param_text(p: ParameterView) -> Seq<char> {
    p.name + seq![':'] + type_text(p.ty)
}

/// A parameter that its text spells back: a non-empty name that does not
/// start with `{` and holds no `:`, and a well-formed type whose names hold
/// no `:`.
pub open spec fn well_formed_param(p: ParameterView) -> bool {
    &&& p.name.len() > 0
    &&& p.name[0] != '{'
    &&& forall|i: int| 0 <= i < p.name.len() ==> p.name[i] != ':'
    &&& well_formed_type(p.ty)
    &&& type_names_avoid(p.ty, ':')
}

/// Reading back the text of a well-formed parameter gives the parameter,
/// without its description, which the text does not carry.
pub proof fn lemma_param_roundtrip(p: ParameterView)
    requires
        well_formed_param(p),
    ensures
        spec_parse_param(param_text(p)) == Ok::<ParameterView, ParamParseErrorView>(
            ParameterView { name: p.name, ty: p.ty, description: Seq::empty() },
        ),
{
    let s = param_text(p);
    let n = p.name.len() as int;
    let t = type_text(p.ty);
    assert(s == p.name + seq![':'] + t);
    assert(s[0] == p.name[0]);
    assert forall|k: int| 0 <= k < n implies s[k] != ':' by {
        assert(s[k] == p.name[k]);
    }
    lemma_first_index_at(s, ':', n);
    assert(s.subrange(0, n) =~= p.name);
    let rest = s.subrange(n + 1, s.len() as int);
    assert(rest =~= t);
    lemma_type_text_avoids(p.ty, ':');
    lemma_find_from(rest, ':', 0);
    lemma_type_roundtrip(p.ty);
}

fn vec_ends_with(v: &Vec<char>, suffix: &Vec<char>) -> (r: bool)
    ensures
        r == ends_with(v@, suffix@),
{
    if v.len() < suffix.len() {
        return false;
    }
    let tail = sub_vec(v, v.len() - suffix.len(), v.len());
    crate::text::chars_eq(&tail, suffix)
}

/// Parses the parameter spelled by `v`.
pub fn parse_param_chars(v: &Vec<char>) -> (r: Result<Parameter, ParamParseError>)
    ensures
        param_result_view(r) == spec_parse_param(v@),
{
    if v.len() > 0 && v[0] == '{' {
        let def = sub_vec(v, 1, v.len());
        let suffix = chars_of(":Type}");
        if vec_ends_with(&def, &suffix) {
            let name = sub_vec(&def, 0, def.len() - suffix.len());
            return Err(ParamParseError::TypeDef { name: string_from(&name) });
        } else {
            return Err(ParamParseError::MissingDef);
        }
    }
    match find_char(v, ':', 0) {
        None => Err(ParamParseError::NotImplemented),
        Some(c) => {
            proof {
                lemma_find_from(v@, ':', 0);
            }
            if c == 0 {
                return Err(ParamParseError::Empty);
            }
            let field = field_after_vec(v, c, ':');
            match parse_type_chars(&field) {
                Ok(ty) => {
                    let name = string_of_prefix(v, c);
                    Ok(Parameter { name, ty, description: String::new() })
                },
                Err(e) => Err(e),
            }
        },
    }
}

fn string_of_prefix(v: &Vec<char>, n: usize) -> (r: String)
    requires
        n <= v.len(),
    ensures
        r@ == v@.subrange(0, n as int),
{
    crate::text::string_of(v, 0, n)
}

/// Appends the text of a parameter.
pub fn push_param_text(out: &mut String, p: &Parameter)
    ensures
        final(out)@ == old(out)@ + param_text(p@),
{
    let name = chars_of(p.name.as_str());
    push_chars(out, &name);
    push_char(out, ':');
    let t = p.ty.to_string();
    let tv = chars_of(t.as_str());
    push_chars(out, &tv);
    assert(out@ =~= old(out)@ + param_text(p@));
}

impl Parameter {
    /// Parses a parameter such as `chat_id:int53`.
    pub fn from_str(param: &str) -> (r: Result<Parameter, ParamParseError>)
        ensures
            param_result_view(r) == spec_parse_param(param@),
    {
        let v = chars_of(param);
        parse_param_chars(&v)
    }

    /// The text of the parameter, as it is written in a schema.
    pub fn to_string(&self) -> (r: String)
        ensures
            r@ == param_text(self@),
    {
        let mut out = String::new();
        push_param_text(&mut out, self);
        assert(out@ =~= param_text(self@));
        out
    }
}

impl std::str::FromStr for Parameter {
    type Err = ParamParseError;

    fn from_str(s: &str) -> (r: Result<Parameter, ParamParseError>)
        ensures
            param_result_view(r) == spec_parse_param(s@),
    {
        Parameter::from_str(s)
    }
}

} // verus!
