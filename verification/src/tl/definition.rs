//! Definitions such as `sendMessage chat_id:int53 text:string = Message`,
//! together with the documentation comments written above them.

use vstd::prelude::*;
use crate::text::{
    all_ws, chars_eq_str, chars_of, field_after, field_after_vec, find_char, find_from,
    first_index, is_ws_char, lemma_find_from, push_char, push_chars, split_words, string_from,
    sub_vec, trim, trim_vec, vecs_view, words, remove_all, remove_all_chars,
};
use crate::tl::docs::{doc_lookup, doc_without, docs_insert, docs_remove, docs_view};
use crate::tl::errors::{ParamParseError, ParamParseErrorView, ParseError, ParseErrorView};
use crate::tl::parameter::{param_text, parse_param_chars, push_param_text, spec_parse_param, Parameter, ParameterView};
use crate::tl::ty::{parse_type_chars, spec_parse_type, type_text, Type, TypeView};

verus! {

/// Whether a definition describes a data type or a callable function.
#[derive(Clone, Copy, Debug, PartialEq, Eq, Structural)]
pub enum Category {
    Types,
    Functions,
}

/// A [Type Language](https://core.telegram.org/mtproto/TL) definition.
#[derive(Debug, PartialEq)]
pub struct Definition {
    /// The name of this definition. Also known as "predicate" or "method".
    pub name: String,
    /// The description of this definition.
    pub description: String,
    /// A possibly-empty list of parameters this definition has.
    pub params: Vec<Parameter>,
    /// The type to which this definition belongs.
    pub ty: Type,
    /// The category to which this definition belongs.
    pub category: Category,
    /// Optional top-level class description (from `//@class ... @description ...`).
    pub class_description: Option<String>,
}

/// Mathematical model of a `Definition`.
pub struct DefinitionView {
    pub name: Seq<char>,
    pub description: Seq<char>,
    pub params: Seq<ParameterView>,
    pub ty: TypeView,
    pub category: Category,
    pub class_description: Option<Seq<char>>,
}

/// Models of a sequence of parameters.
pub open spec fn params_view(ps: Seq<Parameter>) -> Seq<ParameterView> {
    ps.map_values(|p: Parameter| p@)
}

impl View for Definition {
    type V = DefinitionView;

    open spec fn view(&self) -> DefinitionView {
        DefinitionView {
            name: self.name@,
            description: self.description@,
            params: params_view(self.params@),
            ty: self.ty@,
            category: self.category,
            class_description: match self.class_description {
                Some(c) => Some(c@),
                None => None,
            },
        }
    }
}

/// Model of a parse result.
pub open spec fn def_result_view(r: Result<Definition, ParseError>) -> Result<
    DefinitionView,
    ParseErrorView,
> {
    match r {
        Ok(d) => Ok(d@),
        Err(e) => Err(e@),
    }
}

/// What the documentation comments of a definition have established so far.
pub struct DocState {
    /// The `@name text` entries, in order.
    pub docs: Seq<(Seq<char>, Seq<char>)>,
    /// Whether a `@class` entry has been seen.
    pub has_class: bool,
    /// The first `@description` that follows a `@class` entry.
    pub class_description: Option<Seq<char>>,
}

/// `//` starts at position `i`.
pub open spec fn slashes_at(s: Seq<char>, i: int) -> bool {
    0 <= i && i + 1 < s.len() && s[i] == '/' && s[i + 1] == '/'
}

/// The last position before `j` at which `//` starts.
pub open spec fn rfind_slashes(s: Seq<char>, j: int) -> Option<int>
    decreases j,
{
    if j <= 0 {
        None
    } else if slashes_at(s, j - 1) {
        Some(j - 1)
    } else {
        rfind_slashes(s, j - 1)
    }
}

/// Where the comments end: the line break that ends the line of the last
/// `//`, or the start of the text when there is no such line break.
pub open spec fn comments_end(s: Seq<char>) -> int {
    match rfind_slashes(s, s.len() as int) {
        Some(st) => match find_from(s, '\n', st) {
            Some(e) => e,
            None => 0,
        },
        None => 0,
    }
}

/// The last `@` of the text, if any, stands before the end of the comments
/// (a text with a final `@` after them cannot be read).
pub open spec fn comments_delimited(s: Seq<char>) -> bool {
    forall|p: int|
        0 <= p < s.len() && s[p] == '@' && find_from(s, '@', p + 1) is None ==> p
            < comments_end(s)
}

/// How one comment `name text` updates the documentation state: `class`
/// marks a class comment, the first `description` after it is the class
/// description, and any other entry (or a comment without a space) is recorded.
pub open spec fn apply_comment(st: DocState, comment: Seq<char>) -> DocState {
    match first_index(comment, ' ') {
        Some(sp) => {
            let name = comment.subrange(0, sp);
            let content = comment.subrange(sp + 1, comment.len() as int);
            if name == "class"@ {
                DocState { docs: st.docs, has_class: true, class_description: st.class_description }
            } else if name == "description"@ && st.has_class && st.class_description is None {
                DocState {
                    docs: st.docs,
                    has_class: st.has_class,
                    class_description: Some(trim(content)),
                }
            } else {
                DocState {
                    docs: st.docs.push((name, content)),
                    has_class: st.has_class,
                    class_description: st.class_description,
                }
            }
        },
        None => DocState {
            docs: st.docs.push((comment, Seq::empty())),
            has_class: st.has_class,
            class_description: st.class_description,
        },
    }
}

/// The comment that starts after the `@` at `start` and ends at `end`:
/// comment markers removed, white space trimmed.
pub open spec fn comment_text(s: Seq<char>, start: int, end: int) -> Seq<char> {
    trim(remove_all(remove_all(s.subrange(start + 1, end), "//-"@), "//"@))
}

/// Reads the `@` comments from position `offset` on. Each one runs up to the
/// next `@`; the last one runs up to the end of the comments `ce`.
pub open spec fn scan_comments(s: Seq<char>, ce: int, offset: int, st: DocState) -> DocState
    decreases s.len() - offset,
{
    if offset < 0 || offset > s.len() {
        st
    } else {
        match find_from(s, '@', offset) {
            None => st,
            Some(start) => {
                let end = match find_from(s, '@', start + 1) {
                    Some(e) => e,
                    None => ce,
                };
                if offset <= start && start < end && end <= s.len() {
                    scan_comments(s, ce, end, apply_comment(st, comment_text(s, start, end)))
                } else {
                    st
                }
            },
        }
    }
}

/// The documentation state before any comment is read.
pub open spec fn initial_doc_state() -> DocState {
    DocState { docs: Seq::empty(), has_class: false, class_description: None }
}

/// The key under which the documentation of a parameter is found.
pub open spec fn doc_key(name: Seq<char>) -> Seq<char> {
    if name == "description"@ {
        "param_description"@
    } else {
        name
    }
}

/// Reads the parameters `words[k..]`, each taking (and consuming) its
/// documentation; the first invalid parameter makes the whole list invalid.
pub open spec fn spec_parse_params(
    words: Seq<Seq<char>>,
    k: int,
    docs: Seq<(Seq<char>, Seq<char>)>,
) -> Result<Seq<ParameterView>, ParseErrorView>
    decreases words.len() - k,
{
    if k < 0 || k >= words.len() {
        Ok(Seq::empty())
    } else {
        match spec_parse_param(words[k]) {
            Err(ParamParseErrorView::NotImplemented) => Err(ParseErrorView::NotImplemented),
            Err(e) => Err(ParseErrorView::InvalidParam(e)),
            Ok(p) => {
                let key = doc_key(p.name);
                let described = match doc_lookup(docs, key) {
                    Some(t) => ParameterView { name: p.name, ty: p.ty, description: t },
                    None => p,
                };
                match spec_parse_params(words, k + 1, doc_without(docs, key)) {
                    Ok(rest) => Ok(seq![described] + rest),
                    Err(e) => Err(e),
                }
            },
        }
    }
}

/// Reads `left = type` after the comments, given the documentation state.
/// A missing `=` or an invalid type is a missing type; `left` is the name
/// followed by the white-space separated parameters.
pub open spec fn spec_parse_body(body: Seq<char>, st: DocState) -> Result<
    DefinitionView,
    ParseErrorView,
> {
    match first_index(body, '=') {
        None => Err(ParseErrorView::MissingType),
        Some(eq) => {
            let left = trim(body.subrange(0, eq));
            match spec_parse_type(trim(field_after(body, eq, '='))) {
                Err(_) => Err(ParseErrorView::MissingType),
                Ok(ty) => {
                    let name = match first_index(left, ' ') {
                        Some(sp) => trim(left.subrange(0, sp)),
                        None => trim(left),
                    };
                    let middle = match first_index(left, ' ') {
                        Some(sp) => trim(left.subrange(sp, left.len() as int)),
                        None => Seq::empty(),
                    };
                    if name.len() == 0 {
                        Err(ParseErrorView::MissingName)
                    } else {
                        let description = match doc_lookup(st.docs, "description"@) {
                            Some(d) => d,
                            None => Seq::empty(),
                        };
                        match spec_parse_params(
                            words(middle),
                            0,
                            doc_without(st.docs, "description"@),
                        ) {
                            Err(e) => Err(e),
                            Ok(params) => Ok(
                                DefinitionView {
                                    name,
                                    description,
                                    params,
                                    ty,
                                    category: Category::Types,
                                    class_description: st.class_description,
                                },
                            ),
                        }
                    }
                },
            }
        },
    }
}

/// How a definition is read: an all-white-space text is empty; otherwise the
/// comments are read for documentation and the rest is the definition itself.
pub open spec fn spec_parse_definition(s: Seq<char>) -> Result<DefinitionView, ParseErrorView> {
    if all_ws(s) {
        Err(ParseErrorView::Empty)
    } else {
        let ce = comments_end(s);
        let st = scan_comments(s, ce, 0, initial_doc_state());
        spec_parse_body(s.subrange(ce, s.len() as int), st)
    }
}

/// The text of a list of parameters, each preceded by a space.
pub open spec fn params_text(ps: Seq<ParameterView>) -> Seq<char>
    decreases ps.len(),
{
    if ps.len() == 0 {
        Seq::empty()
    } else {
        params_text(ps.drop_last()) + seq![' '] + param_text(ps.last())
    }
}

/// The text of a definition: `name params = type`.
pub open spec fn def_text(d: DefinitionView) -> Seq<char> {
    d.name + params_text(d.params) + seq![' ', '=', ' '] + type_text(d.ty)
}

fn rfind_slashes_exec(s: &Vec<char>) -> (r: Option<usize>)
    ensures
        match r {
            Some(p) => rfind_slashes(s@, s.len() as int) == Some(p as int),
            None => rfind_slashes(s@, s.len() as int) is None,
        },
{
    let mut j: usize = s.len();
    while j > 0
        invariant
            j <= s.len(),
            rfind_slashes(s@, s.len() as int) == rfind_slashes(s@, j as int),
        decreases j,
    {
        if j < s.len() && s[j - 1] == '/' && s[j] == '/' {
            return Some(j - 1);
        }
        j -= 1;
    }
    None
}

fn comments_end_exec(s: &Vec<char>) -> (r: usize)
    ensures
        r == comments_end(s@),
        r <= s.len(),
{
    match rfind_slashes_exec(s) {
        Some(st) => match find_char(s, '\n', st) {
            Some(e) => {
                proof {
                    lemma_find_from(s@, '\n', st as int);
                }
                e
            },
            None => 0,
        },
        None => 0,
    }
}

/// Whether the text can be read as a definition: its last `@`, if any,
/// stands before the end of its comments.
pub fn is_comments_delimited(s: &Vec<char>) -> (r: bool)
    ensures
        r == comments_delimited(s@),
{
    let ce = comments_end_exec(s);
    let mut last: Option<usize> = None;
    let mut i: usize = 0;
    while i < s.len()
        invariant
            i <= s.len(),
            match last {
                Some(p) => p < i && s@[p as int] == '@' && forall|k: int| p < k < i ==> s@[k] != '@',
                None => forall|k: int| 0 <= k < i ==> s@[k] != '@',
            },
        decreases s.len() - i,
    {
        if s[i] == '@' {
            last = Some(i);
        }
        i += 1;
    }
    match last {
        Some(p) => {
            proof {
                lemma_find_from(s@, '@', p + 1);
                if p < ce {
                    assert forall|q: int|
                        0 <= q < s.len() && s@[q] == '@' && find_from(s@, '@', q + 1) is None implies q
                        < comments_end(s@) by {
                        lemma_find_from(s@, '@', q + 1);
                        if q < p {
                            assert(s@[p as int] == '@');
                        }
                        if q > p {
                            assert(s@[q] != '@');
                        }
                    }
                } else {
                    assert(find_from(s@, '@', p + 1) is None);
                    assert(!(p < comments_end(s@)));
                }
            }
            p < ce
        },
        None => true,
    }
}

fn all_ws_vec(s: &Vec<char>) -> (r: bool)
    ensures
        r == all_ws(s@),
{
    let mut i: usize = 0;
    while i < s.len()
        invariant
            i <= s.len(),
            forall|k: int| 0 <= k < i ==> crate::text::is_ws(s@[k]),
        decreases s.len() - i,
    {
        if !is_ws_char(s[i]) {
            return false;
        }
        i += 1;
    }
    true
}

fn apply_comment_exec(
    docs: &mut Vec<(Vec<char>, Vec<char>)>,
    has_class: &mut bool,
    class_description: &mut Option<Vec<char>>,
    comment: &Vec<char>,
)
    ensures
        ({
            let after = apply_comment(
                DocState {
                    docs: docs_view(old(docs)@),
                    has_class: *old(has_class),
                    class_description: match *old(class_description) {
                        Some(c) => Some(c@),
                        None => None,
                    },
                },
                comment@,
            );
            &&& docs_view(final(docs)@) == after.docs
            &&& *final(has_class) == after.has_class
            &&& match *final(class_description) {
                Some(c) => after.class_description == Some(c@),
                None => after.class_description is None,
            }
        }),
{
    match find_char(comment, ' ', 0) {
        Some(sp) => {
            proof {
                lemma_find_from(comment@, ' ', 0);
            }
            let name = sub_vec(comment, 0, sp);
            let content = sub_vec(comment, sp + 1, comment.len());
            if chars_eq_str(&name, "class") {
                *has_class = true;
            } else if chars_eq_str(&name, "description") && *has_class
                && class_description.is_none() {
                *class_description = Some(trim_vec(&content));
            } else {
                docs_insert(docs, name, content);
            }
        },
        None => {
            let whole = sub_vec(comment, 0, comment.len());
            assert(comment@.subrange(0, comment@.len() as int) =~= comment@);
            let nothing: Vec<char> = Vec::new();
            assert(nothing@ =~= Seq::<char>::empty());
            docs_insert(docs, whole, nothing);
        },
    }
}

fn comment_text_exec(s: &Vec<char>, start: usize, end: usize) -> (r: Vec<char>)
    requires
        start < end <= s.len(),
    ensures
        r@ == comment_text(s@, start as int, end as int),
{
    let raw = sub_vec(s, start + 1, end);
    let dash = chars_of("//-");
    let slashes = chars_of("//");
    let once = remove_all_chars(&raw, &dash);
    let twice = remove_all_chars(&once, &slashes);
    trim_vec(&twice)
}

fn parse_params_exec(words: &Vec<Vec<char>>, docs: &mut Vec<(Vec<char>, Vec<char>)>) -> (r: Result<
    Vec<Parameter>,
    ParseError,
>)
    ensures
        match r {
            Ok(ps) => spec_parse_params(vecs_view(words@), 0, docs_view(old(docs)@)) == Ok::<
                Seq<ParameterView>,
                ParseErrorView,
            >(params_view(ps@)),
            Err(e) => spec_parse_params(vecs_view(words@), 0, docs_view(old(docs)@)) == Err::<
                Seq<ParameterView>,
                ParseErrorView,
            >(e@),
        },
{
    let ghost ws = vecs_view(words@);
    let ghost whole = spec_parse_params(ws, 0, docs_view(docs@));
    let mut acc: Vec<Parameter> = Vec::new();
    let mut k: usize = 0;
    while k < words.len()
        invariant
            k <= words.len(),
            ws == vecs_view(words@),
            whole == spec_parse_params(ws, 0, docs_view(old(docs)@)),
            whole == match spec_parse_params(ws, k as int, docs_view(docs@)) {
                Ok(rest) => Ok(params_view(acc@) + rest),
                Err(e) => Err(e),
            },
        decreases words.len() - k,
    {
        assert(ws[k as int] == words@[k as int]@);
        match parse_param_chars(&words[k]) {
            Err(ParamParseError::NotImplemented) => {
                assert(whole == Err::<Seq<ParameterView>, ParseErrorView>(ParseErrorView::NotImplemented));
                return Err(ParseError::NotImplemented);
            },
            Err(e) => {
                assert(whole == Err::<Seq<ParameterView>, ParseErrorView>(ParseErrorView::InvalidParam(e@)));
                return Err(ParseError::InvalidParam(e));
            },
            Ok(p) => {
                let mut p = p;
                let name_chars = chars_of(p.name.as_str());
                let key = if chars_eq_str(&name_chars, "description") {
                    chars_of("param_description")
                } else {
                    name_chars
                };
                let ghost pv = p@;
                let ghost dv = docs_view(docs@);
                match docs_remove(docs, &key) {
                    Some(t) => {
                        p.description = string_from(&t);
                    },
                    None => {},
                }
                let ghost before = acc@;
                acc.push(p);
                assert(params_view(acc@) =~= params_view(before).push(p@));
                proof {
                    let rest = spec_parse_params(ws, k + 1, docs_view(docs@));
                    match rest {
                        Ok(r) => {
                            assert(params_view(before) + (seq![p@] + r) =~= params_view(acc@)
                                + r);
                        },
                        Err(_) => {},
                    }
                }
            },
        }
        k += 1;
    }
    assert(params_view(acc@) + Seq::<ParameterView>::empty() =~= params_view(acc@));
    Ok(acc)
}

/// Parses the definition spelled by `s`.
pub fn parse_definition_chars(s: &Vec<char>) -> (r: Result<Definition, ParseError>)
    requires
        comments_delimited(s@),
    ensures
        def_result_view(r) == spec_parse_definition(s@),
{
    if all_ws_vec(s) {
        return Err(ParseError::Empty);
    }
    let ce = comments_end_exec(s);
    let mut docs: Vec<(Vec<char>, Vec<char>)> = Vec::new();
    let mut has_class = false;
    let mut class_description: Option<Vec<char>> = None;
    let ghost goal = scan_comments(s@, ce as int, 0, initial_doc_state());
    assert(docs_view(docs@) =~= Seq::<(Seq<char>, Seq<char>)>::empty());
    let mut offset: usize = 0;
    loop
        invariant
            offset <= s.len(),
            ce == comments_end(s@),
            ce <= s.len(),
            comments_delimited(s@),
            goal == scan_comments(
                s@,
                ce as int,
                offset as int,
                DocState {
                    docs: docs_view(docs@),
                    has_class: has_class,
                    class_description: match class_description {
                        Some(c) => Some(c@),
                        None => None,
                    },
                },
            ),
        ensures
            goal == (DocState {
                docs: docs_view(docs@),
                has_class: has_class,
                class_description: match class_description {
                    Some(c) => Some(c@),
                    None => None,
                },
            }),
        decreases s.len() - offset,
    {
        match find_char(s, '@', offset) {
            None => {
                break;
            },
            Some(start) => {
                proof {
                    lemma_find_from(s@, '@', offset as int);
                    lemma_find_from(s@, '@', start + 1);
                }
                let end = match find_char(s, '@', start + 1) {
                    Some(e) => e,
                    None => ce,
                };
                let comment = comment_text_exec(s, start, end);
                apply_comment_exec(&mut docs, &mut has_class, &mut class_description, &comment);
                offset = end;
            },
        }
    }
    let ghost st = goal;
    let body = sub_vec(s, ce, s.len());
    let eq = match find_char(&body, '=', 0) {
        Some(eq) => eq,
        None => {
            return Err(ParseError::MissingType);
        },
    };
    proof {
        lemma_find_from(body@, '=', 0);
    }
    let left = trim_vec(&sub_vec(&body, 0, eq));
    let ty_text = trim_vec(&field_after_vec(&body, eq, '='));
    let ty = match parse_type_chars(&ty_text) {
        Ok(t) => t,
        Err(_) => {
            return Err(ParseError::MissingType);
        },
    };
    let (name, middle) = match find_char(&left, ' ', 0) {
        Some(sp) => {
            proof {
                lemma_find_from(left@, ' ', 0);
            }
            (trim_vec(&sub_vec(&left, 0, sp)), trim_vec(&sub_vec(&left, sp, left.len())))
        },
        None => {
            let nothing: Vec<char> = Vec::new();
            assert(nothing@ =~= Seq::<char>::empty());
            (trim_vec(&left), nothing)
        },
    };
    if name.len() == 0 {
        return Err(ParseError::MissingName);
    }
    let description_key = chars_of("description");
    let description = match docs_remove(&mut docs, &description_key) {
        Some(d) => string_from(&d),
        None => String::new(),
    };
    let word_list = split_words(&middle);
    let params = match parse_params_exec(&word_list, &mut docs) {
        Ok(ps) => ps,
        Err(e) => {
            return Err(e);
        },
    };
    let class_description = match class_description {
        Some(c) => Some(string_from(&c)),
        None => None,
    };
    Ok(
        Definition {
            name: string_from(&name),
            description,
            params,
            ty,
            category: Category::Types,
            class_description,
        },
    )
}

impl Definition {
    /// Parses a [Type Language](https://core.telegram.org/mtproto/TL)
    /// definition, with the `//@` documentation comments written above it.
    pub fn from_str(definition: &str) -> (r: Result<Definition, ParseError>)
        requires
            comments_delimited(definition@),
        ensures
            def_result_view(r) == spec_parse_definition(definition@),
    {
        let s = chars_of(definition);
        parse_definition_chars(&s)
    }

    /// The text of the definition: its name, its parameters and `= type`.
    pub fn to_string(&self) -> (r: String)
        ensures
            r@ == def_text(self@),
    {
        let mut out = String::new();
        let name = chars_of(self.name.as_str());
        push_chars(&mut out, &name);
        let mut i: usize = 0;
        while i < self.params.len()
            invariant
                i <= self.params.len(),
                out@ == self.name@ + params_text(params_view(self.params@).take(i as int)),
            decreases self.params.len() - i,
        {
            let ghost before = out@;
            push_char(&mut out, ' ');
            push_param_text(&mut out, &self.params[i]);
            i += 1;
            assert(params_view(self.params@).take(i as int).drop_last() =~= params_view(
                self.params@,
            ).take(i - 1));
            assert(out@ =~= self.name@ + params_text(params_view(self.params@).take(i as int)));
        }
        assert(params_view(self.params@).take(i as int) =~= params_view(self.params@));
        push_char(&mut out, ' ');
        push_char(&mut out, '=');
        push_char(&mut out, ' ');
        let t = self.ty.to_string();
        let tv = chars_of(t.as_str());
        push_chars(&mut out, &tv);
        assert(out@ =~= def_text(self@));
        out
    }
}

} // verus!
