//! Types such as `Int`, `string` or `Vector<Message>`.

use vstd::prelude::*;
use crate::text::{chars_of, find_char, first_index, is_ascii_lower, lemma_find_from, push_char, push_chars, string_from, sub_vec};
use crate::tl::errors::{ParamParseError, ParamParseErrorView};

verus! {

/// The type of a definition or of a parameter.
#[derive(Debug, PartialEq)]
pub struct Type {
    /// The name of the type, e.g. `Vector` in `Vector<Message>`.
    pub name: String,
    /// Whether the type is bare: its name starts with an ASCII small letter.
    pub bare: bool,
    /// The generic argument, e.g. `Message` in `Vector<Message>`.
    pub generic_arg: Option<Box<Type>>,
}

/// Mathematical model of a `Type`.
pub struct TypeView {
    pub name: Seq<char>,
    pub bare: bool,
    pub generic_arg: Option<Box<TypeView>>,
}

/// The model of a type, field by field.
pub open spec fn type_view(t: Type) -> TypeView
    decreases t,
{
    TypeView {
        name: t.name@,
        bare: t.bare,
        generic_arg: match t.generic_arg {
            Some(b) => Some(Box::new(type_view(*b))),
            None => None,
        },
    }
}

impl View for Type {
    type V = TypeView;

    open spec fn view(&self) -> TypeView {
        type_view(*self)
    }
}

/// Model of a parse result.
pub open spec fn type_result_view(r: Result<Type, ParamParseError>) -> Result<
    TypeView,
    ParamParseErrorView,
> {
    match r {
        Ok(t) => Ok(t@),
        Err(e) => Err(e@),
    }
}

/// A type with the given name and generic argument; an empty name is an error.
pub open spec fn named_type(name: Seq<char>, generic_arg: Option<Box<TypeView>>) -> Result<
    TypeView,
    ParamParseErrorView,
> {
    if name.len() == 0 {
        Err(ParamParseErrorView::Empty)
    } else {
        Ok(TypeView { name, bare: is_ascii_lower(name[0]), generic_arg })
    }
}

/// How a type is read: `name<arg>` when the text holds a `<` (it must then end
/// in `>`, and `arg` is read the same way), else the whole text is the name.
pub open spec fn spec_parse_type(s: Seq<char>) -> Result<TypeView, ParamParseErrorView>
    decreases s.len(),
{
    match first_index(s, '<') {
        Some(pos) => {
            if s.len() == 0 || s.last() != '>' {
                Err(ParamParseErrorView::InvalidGeneric)
            } else if 0 <= pos < s.len() - 1 {
                match spec_parse_type(s.subrange(pos + 1, s.len() - 1)) {
                    Ok(arg) => named_type(s.subrange(0, pos), Some(Box::new(arg))),
                    Err(e) => Err(e),
                }
            } else {
                Err(ParamParseErrorView::InvalidGeneric)
            }
        },
        None => named_type(s, None),
    }
}

/// The text of a type: `name` or `name<arg>`.
pub open spec fn type_text(t: TypeView) -> Seq<char>
    decreases t,
{
    match t.generic_arg {
        Some(arg) => t.name + seq!['<'] + type_text(*arg) + seq!['>'],
        None => t.name,
    }
}

/// No name in the type (its own or that of a generic argument) holds `c`.
pub open spec fn type_names_avoid(t: TypeView, c: char) -> bool
    decreases t,
{
    &&& forall|i: int| 0 <= i < t.name.len() ==> t.name[i] != c
    &&& match t.generic_arg {
        Some(a) => type_names_avoid(*a, c),
        None => true,
    }
}

/// A type that its text spells back: every name is non-empty and holds no
/// `<`, and a type is bare exactly when its name starts with a small letter.
pub open spec fn well_formed_type(t: TypeView) -> bool
    decreases t,
{
    &&& t.name.len() > 0
    &&& type_names_avoid(t, '<')
    &&& t.bare == is_ascii_lower(t.name[0])
    &&& match t.generic_arg {
        Some(a) => well_formed_type(*a),
        None => true,
    }
}

/// A search finds the first position that holds `c`.
pub proof fn lemma_first_index_at(s: Seq<char>, c: char, n: int)
    requires
        0 <= n < s.len(),
        s[n] == c,
        forall|k: int| 0 <= k < n ==> s[k] != c,
    ensures
        first_index(s, c) == Some(n),
{
    lemma_find_from(s, c, 0);
}

/// The text of a type holds a character other than `<` and `>` only where
/// one of its names does.
pub proof fn lemma_type_text_avoids(t: TypeView, c: char)
    requires
        type_names_avoid(t, c),
        c != '<',
        c != '>',
    ensures
        forall|i: int| 0 <= i < type_text(t).len() ==> type_text(t)[i] != c,
    decreases t,
{
    match t.generic_arg {
        Some(a) => {
            lemma_type_text_avoids(*a, c);
            let inner = type_text(*a);
            assert(type_text(t) == t.name + seq!['<'] + inner + seq!['>']);
            assert forall|i: int| 0 <= i < type_text(t).len() implies type_text(t)[i] != c by {
                if i < t.name.len() {
                } else if i == t.name.len() {
                } else if i < t.name.len() + 1 + inner.len() {
                    assert(type_text(t)[i] == inner[i - t.name.len() - 1]);
                } else {
                }
            }
        },
        None => {},
    }
}

/// Reading back the text of a well-formed type gives the type.
pub proof fn lemma_type_roundtrip(t: TypeView)
    requires
        well_formed_type(t),
    ensures
        spec_parse_type(type_text(t)) == Ok::<TypeView, ParamParseErrorView>(t),
    decreases t,
{
    let s = type_text(t);
    match t.generic_arg {
        None => {
            lemma_find_from(s, '<', 0);
        },
        Some(a) => {
            lemma_type_roundtrip(*a);
            let inner = type_text(*a);
            let n = t.name.len() as int;
            assert(s == t.name + seq!['<'] + inner + seq!['>']);
            assert(s[n] == '<');
            assert forall|k: int| 0 <= k < n implies s[k] != '<' by {
                assert(s[k] == t.name[k]);
            }
            lemma_first_index_at(s, '<', n);
            assert(s.last() == '>');
            assert(s.subrange(n + 1, s.len() - 1) =~= inner);
            assert(s.subrange(0, n) =~= t.name);
        },
    }
}

fn make_named(name: &Vec<char>, generic_arg: Option<Box<Type>>) -> (r: Result<Type, ParamParseError>)
    ensures
        type_result_view(r) == named_type(
            name@,
            match generic_arg {
                Some(b) => Some(Box::new(b@)),
                None => None,
            },
        ),
{
    if name.len() == 0 {
        Err(ParamParseError::Empty)
    } else {
        let first = name[0];
        let t = Type { name: string_from(name), bare: 'a' <= first && first <= 'z', generic_arg };
        assert(t@.generic_arg == match generic_arg {
            Some(b) => Some(Box::new(b@)),
            None => None,
        });
        Ok(t)
    }
}

/// Parses the type spelled by `v`.
pub fn parse_type_chars(v: &Vec<char>) -> (r: Result<Type, ParamParseError>)
    ensures
        type_result_view(r) == spec_parse_type(v@),
    decreases v.len(),
{
    match find_char(v, '<', 0) {
        Some(pos) => {
            proof {
                lemma_find_from(v@, '<', 0);
            }
            if v.len() == 0 || v[v.len() - 1] != '>' {
                return Err(ParamParseError::InvalidGeneric);
            }
            let inner = sub_vec(v, pos + 1, v.len() - 1);
            match parse_type_chars(&inner) {
                Ok(arg) => {
                    let name = sub_vec(v, 0, pos);
                    make_named(&name, Some(Box::new(arg)))
                },
                Err(e) => Err(e),
            }
        },
        None => make_named(v, None),
    }
}

fn push_type_text(out: &mut String, t: &Type)
    ensures
        final(out)@ == old(out)@ + type_text(t@),
    decreases t,
{
    let name = chars_of(t.name.as_str());
    push_chars(out, &name);
    match &t.generic_arg {
        Some(arg) => {
            push_char(out, '<');
            push_type_text(out, arg);
            push_char(out, '>');
        },
        None => {},
    }
    assert(out@ =~= old(out)@ + type_text(t@));
}

impl Type {
    /// Parses a type such as `int32`, `Message` or `Vector<Message>`.
    pub fn from_str(ty: &str) -> (r: Result<Type, ParamParseError>)
        ensures
            type_result_view(r) == spec_parse_type(ty@),
    {
        let v = chars_of(ty);
        parse_type_chars(&v)
    }

    /// The text of the type, as it is written in a schema.
    pub fn to_string(&self) -> (r: String)
        ensures
            r@ == type_text(self@),
    {
        let mut out = String::new();
        push_type_text(&mut out, self);
        assert(out@ =~= type_text(self@));
        out
    }
}

impl std::str::FromStr for Type {
    type Err = ParamParseError;

    fn from_str(s: &str) -> (r: Result<Type, ParamParseError>)
        ensures
            type_result_view(r) == spec_parse_type(s@),
    {
        Type::from_str(s)
    }
}

} // verus!
