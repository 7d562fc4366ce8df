//! Printing a well-formed definition and reading the text back gives the
//! definition again (without the documentation, which the text does not
//! carry).

use vstd::prelude::*;
use crate::text::{
    all_ws, first_index, is_ws, lemma_find_from, lemma_skip_non_ws, lemma_skip_ws,
    lemma_trim_end, skip_non_ws, skip_ws, trim, trim_end_from, words, words_from,
};
use crate::tl::definition::{
    comments_end, def_text, initial_doc_state, params_text, rfind_slashes, scan_comments,
    spec_parse_definition, spec_parse_params, Category, DefinitionView,
};
use crate::tl::docs::{doc_lookup, doc_without};
use crate::tl::errors::ParseErrorView;
use crate::tl::parameter::{lemma_param_roundtrip, param_text, well_formed_param, ParameterView};
use crate::tl::ty::{lemma_first_index_at, lemma_type_roundtrip, type_text, well_formed_type};

verus! {

/// No character of `s` is white space, `=`, `@` or `/`.
pub open spec fn plain_text(s: Seq<char>) -> bool {
    forall|i: int|
        0 <= i < s.len() ==> !is_ws(#[trigger] s[i]) && s[i] != '=' && s[i] != '@' && s[i] != '/'
}

/// The texts, each preceded by a space.
pub open spec fn spaced(ts: Seq<Seq<char>>) -> Seq<char>
    decreases ts.len(),
{
    if ts.len() == 0 {
        Seq::empty()
    } else {
        seq![' '] + ts[0] + spaced(ts.drop_first())
    }
}

/// Each text is non-empty and plain.
pub open spec fn all_plain(ts: Seq<Seq<char>>) -> bool {
    forall|k: int| 0 <= k < ts.len() ==> (#[trigger] ts[k]).len() > 0 && plain_text(ts[k])
}

proof fn lemma_spaced_push(ts: Seq<Seq<char>>, x: Seq<char>)
    ensures
        spaced(ts.push(x)) == spaced(ts) + seq![' '] + x,
    decreases ts.len(),
{
    if ts.len() > 0 {
        lemma_spaced_push(ts.drop_first(), x);
        assert(ts.push(x).drop_first() =~= ts.drop_first().push(x));
        assert(spaced(ts.push(x)) =~= spaced(ts) + seq![' '] + x);
    } else {
        assert(ts.push(x).drop_first() =~= Seq::<Seq<char>>::empty());
        assert(ts.push(x)[0] == x);
        assert(spaced(ts.push(x).drop_first()) == Seq::<char>::empty());
        assert(spaced(ts) == Seq::<char>::empty());
        assert(spaced(ts.push(x)) =~= spaced(ts) + seq![' '] + x);
    }
}

/// The texts of parameters.
pub open spec fn param_texts(ps: Seq<ParameterView>) -> Seq<Seq<char>> {
    ps.map_values(|p: ParameterView| param_text(p))
}

proof fn lemma_params_text_spaced(ps: Seq<ParameterView>)
    ensures
        params_text(ps) == spaced(param_texts(ps)),
    decreases ps.len(),
{
    if ps.len() > 0 {
        lemma_params_text_spaced(ps.drop_last());
        assert(param_texts(ps) =~= param_texts(ps.drop_last()).push(param_text(ps.last())));
        lemma_spaced_push(param_texts(ps.drop_last()), param_text(ps.last()));
    } else {
        assert(param_texts(ps) =~= Seq::<Seq<char>>::empty());
    }
}

/// Spaced plain texts hold no `=`, `@` or `/`, and their white space is the
/// separating spaces.
proof fn lemma_spaced_chars(ts: Seq<Seq<char>>)
    requires
        all_plain(ts),
    ensures
        forall|i: int|
            0 <= i < spaced(ts).len() ==> #[trigger] spaced(ts)[i] != '=' && spaced(ts)[i] != '@'
                && spaced(ts)[i] != '/',
        ts.len() > 0 ==> spaced(ts).len() > 1 && spaced(ts)[0] == ' ' && !is_ws(spaced(ts)[1])
            && !is_ws(spaced(ts).last()),
    decreases ts.len(),
{
    if ts.len() > 0 {
        let rest = ts.drop_first();
        assert(all_plain(rest)) by {
            assert forall|k: int| 0 <= k < rest.len() implies (#[trigger] rest[k]).len() > 0 && plain_text(
                rest[k],
            ) by {
                assert(rest[k] == ts[k + 1]);
            }
        }
        lemma_spaced_chars(rest);
        let s = spaced(ts);
        let t = ts[0];
        assert(t.len() > 0 && plain_text(t));
        assert(s == seq![' '] + t + spaced(rest));
        assert forall|i: int| 0 <= i < s.len() implies #[trigger] s[i] != '=' && s[i] != '@' && s[i] != '/' by {
            if i == 0 {
            } else if i < 1 + t.len() {
                assert(s[i] == t[i - 1]);
            } else {
                assert(s[i] == spaced(rest)[i - 1 - t.len()]);
            }
        }
        assert(s[1] == t[0]);
        if rest.len() == 0 {
            assert(s.last() == t.last());
        } else {
            assert(s.last() == spaced(rest).last());
        }
    }
}

/// Trimming white space around a text that starts and ends with other
/// characters gives the text.
proof fn lemma_trim_around(a: Seq<char>, x: Seq<char>, b: Seq<char>)
    requires
        all_ws(a),
        all_ws(b),
        x.len() > 0,
        !is_ws(x[0]),
        !is_ws(x.last()),
    ensures
        trim(a + x + b) == x,
{
    let y = a + x + b;
    lemma_skip_ws(y, 0);
    lemma_trim_end(y, y.len() as int);
    let r0 = skip_ws(y, 0);
    let r1 = trim_end_from(y, y.len() as int);
    let lo = a.len() as int;
    let hi = (a.len() + x.len()) as int;
    assert(y[lo] == x[0]);
    assert(y[hi - 1] == x.last());
    if r0 < lo {
        assert(y[r0] == a[r0]);
    }
    if r1 > hi {
        assert(y[r1 - 1] == b[r1 - 1 - hi]);
    }
    assert(r0 == lo);
    assert(r1 == hi);
    assert(y.subrange(lo, hi) =~= x);
}

/// Reading words from a white-space character that precedes a word is
/// reading them from the word.
proof fn lemma_words_skip_space(s: Seq<char>, j: int)
    requires
        0 <= j,
        j + 1 < s.len(),
        is_ws(s[j]),
        !is_ws(s[j + 1]),
    ensures
        words_from(s, j) == words_from(s, j + 1),
{
    assert(skip_ws(s, j + 1) == j + 1);
    assert(skip_ws(s, j) == j + 1);
    lemma_skip_non_ws(s, j + 1);
    assert(skip_non_ws(s, j + 1) > j + 1);
}

/// The words of plain texts joined by single spaces are the texts.
proof fn lemma_words_joined(s: Seq<char>, i: int, ts: Seq<Seq<char>>)
    requires
        0 <= i <= s.len(),
        ts.len() > 0,
        all_plain(ts),
        s.subrange(i, s.len() as int) == ts[0] + spaced(ts.drop_first()),
    ensures
        words_from(s, i) == ts,
    decreases ts.len(),
{
    let t = ts[0];
    let m = t.len() as int;
    let rest = ts.drop_first();
    assert(t.len() > 0 && plain_text(t));
    let sub = s.subrange(i, s.len() as int);
    assert(sub.len() == m + spaced(rest).len());
    assert(i + m <= s.len());
    assert forall|k: int| 0 <= k < m implies s[i + k] == t[k] by {
        assert(sub[k] == s[i + k]);
        assert((t + spaced(rest))[k] == t[k]);
    }
    assert(s[i] == t[0]);
    assert(skip_ws(s, i) == i);
    lemma_skip_non_ws(s, i);
    let b = skip_non_ws(s, i);
    if rest.len() == 0 {
        assert(spaced(rest) == Seq::<char>::empty());
        assert(s.len() == i + m);
    } else {
        assert(spaced(rest) == seq![' '] + rest[0] + spaced(rest.drop_first()));
        assert(spaced(rest)[0] == ' ');
        assert((t + spaced(rest))[m] == spaced(rest)[0]);
        assert(sub[m] == s[i + m]);
        assert(s[i + m] == ' ');
    }
    if b < i + m {
        assert(s[b] == t[b - i]);
        assert(!is_ws(t[b - i]));
    }
    if b > i + m {
        assert(!is_ws(s[i + m]));
    }
    assert(b == i + m);
    assert(s.subrange(i, b) =~= t);
    if rest.len() == 0 {
        assert(words_from(s, b) == Seq::<Seq<char>>::empty());
        assert(words_from(s, i) =~= ts);
    } else {
        assert(all_plain(rest)) by {
            assert forall|k: int| 0 <= k < rest.len() implies (#[trigger] rest[k]).len() > 0 && plain_text(
                rest[k],
            ) by {
                assert(rest[k] == ts[k + 1]);
            }
        }
        let r0 = rest[0];
        assert(r0.len() > 0 && plain_text(r0));
        assert(s.subrange(b + 1, s.len() as int) =~= rest[0] + spaced(rest.drop_first())) by {
            assert(s.subrange(b + 1, s.len() as int) =~= s.subrange(i, s.len() as int).subrange(m + 1, s.len() - i));
            assert(spaced(rest) == seq![' '] + rest[0] + spaced(rest.drop_first()));
        }
        assert(s[b + 1] == r0[0]) by {
            assert(s.subrange(b + 1, s.len() as int)[0] == s[b + 1]);
        }
        lemma_words_skip_space(s, b);
        lemma_words_joined(s, b + 1, rest);
        assert(words_from(s, i) =~= seq![t] + rest);
        assert(ts =~= seq![t] + rest);
    }
}

/// Parameters with their documentation left out.
pub open spec fn undocumented(ps: Seq<ParameterView>) -> Seq<ParameterView> {
    ps.map_values(|p: ParameterView| ParameterView { name: p.name, ty: p.ty, description: Seq::empty() })
}

proof fn lemma_parse_params_plain(ps: Seq<ParameterView>, k: int)
    requires
        forall|j: int| 0 <= j < ps.len() ==> well_formed_param(#[trigger] ps[j]),
        0 <= k <= ps.len(),
    ensures
        spec_parse_params(param_texts(ps), k, Seq::empty()) == Ok::<Seq<ParameterView>, ParseErrorView>(
            undocumented(ps).subrange(k, ps.len() as int),
        ),
    decreases ps.len() - k,
{
    let texts = param_texts(ps);
    if k < ps.len() {
        lemma_parse_params_plain(ps, k + 1);
        assert(well_formed_param(ps[k]));
        lemma_param_roundtrip(ps[k]);
        assert(texts[k] == param_text(ps[k]));
        let empty = Seq::<(Seq<char>, Seq<char>)>::empty();
        assert(doc_without(empty, Seq::<char>::empty()) == empty);
        assert(undocumented(ps).subrange(k, ps.len() as int) =~= seq![undocumented(ps)[k]] + undocumented(
            ps,
        ).subrange(k + 1, ps.len() as int));
    } else {
        assert(undocumented(ps).subrange(k, ps.len() as int) =~= Seq::<ParameterView>::empty());
    }
}

/// Without a `/`, no `//` is found.
proof fn lemma_no_slashes(s: Seq<char>, j: int)
    requires
        j <= s.len(),
        forall|i: int| 0 <= i < s.len() ==> s[i] != '/',
    ensures
        rfind_slashes(s, j) is None,
    decreases j,
{
    if j > 0 {
        lemma_no_slashes(s, j - 1);
    }
}

/// A definition that its text spells back: its name and the texts of its
/// parameters and type are non-empty and hold no white space, `=`, `@` or
/// `/`, and its parameters and type are well-formed.
pub open spec fn well_formed_def(d: DefinitionView) -> bool {
    &&& d.name.len() > 0
    &&& plain_text(d.name)
    &&& forall|k: int|
        0 <= k < d.params.len() ==> well_formed_param(#[trigger] d.params[k]) && plain_text(
            param_text(d.params[k]),
        )
    &&& well_formed_type(d.ty)
    &&& plain_text(type_text(d.ty))
}

/// The definition as its text describes it: no documentation, a data type.
pub open spec fn undocumented_def(d: DefinitionView) -> DefinitionView {
    DefinitionView {
        name: d.name,
        description: Seq::empty(),
        params: undocumented(d.params),
        ty: d.ty,
        category: Category::Types,
        class_description: None,
    }
}

/// Reading back the text of a well-formed definition gives the definition,
/// without the documentation that the text does not carry.
pub proof fn lemma_definition_roundtrip(d: DefinitionView)
    requires
        well_formed_def(d),
    ensures
        spec_parse_definition(def_text(d)) == Ok::<DefinitionView, ParseErrorView>(undocumented_def(d)),
{
    let ps = d.params;
    let texts = param_texts(ps);
    let name = d.name;
    let pt = params_text(ps);
    let t = type_text(d.ty);
    lemma_params_text_spaced(ps);
    assert(all_plain(texts)) by {
        assert forall|k: int| 0 <= k < texts.len() implies (#[trigger] texts[k]).len() > 0 && plain_text(
            texts[k],
        ) by {
            assert(texts[k] == param_text(ps[k]));
            assert(well_formed_param(ps[k]) && plain_text(param_text(ps[k])));
        }
    }
    lemma_spaced_chars(texts);
    assert(t.len() > 0 && t[0] == d.ty.name[0]);
    let s = def_text(d);
    let n = name.len() as int;
    let pl = pt.len() as int;
    let e = n + pl + 1;
    assert(s == name + pt + seq![' ', '=', ' '] + t);
    assert(s.len() == e + 2 + t.len());
    // Where each character of the text comes from.
    assert forall|i: int| 0 <= i < s.len() implies s[i] != '/' && s[i] != '@' && (i != e ==> s[i] != '=')
        by {
        if i < n {
            assert(s[i] == name[i]);
        } else if i < n + pl {
            assert(s[i] == pt[i - n]);
        } else if i < e + 2 {
        } else {
            assert(s[i] == t[i - e - 2]);
        }
    }
    assert(s[e] == '=');
    // No comments: they end at the start and hold no documentation.
    lemma_no_slashes(s, s.len() as int);
    assert(comments_end(s) == 0);
    lemma_find_from(s, '@', 0);
    assert(scan_comments(s, 0, 0, initial_doc_state()) == initial_doc_state());
    assert(s[0] == name[0]);
    assert(!all_ws(s));
    assert(s.subrange(0, s.len() as int) =~= s);
    // The `=` of the text.
    lemma_first_index_at(s, '=', e);
    // The left side: the name and the parameters.
    let left_raw = s.subrange(0, e);
    let np = name + pt;
    assert(left_raw =~= np + seq![' ']);
    assert(np[0] == name[0]);
    if pl == 0 {
        assert(np.last() == name.last());
    } else {
        assert(np.last() == pt.last());
    }
    assert(all_ws(seq![' ']));
    assert(all_ws(Seq::<char>::empty()));
    lemma_trim_around(Seq::empty(), np, seq![' ']);
    assert(Seq::<char>::empty() + np + seq![' '] =~= left_raw);
    let left = trim(left_raw);
    assert(left == np);
    // The type.
    let rest = s.subrange(e + 1, s.len() as int);
    assert(rest =~= seq![' '] + t);
    assert forall|i: int| 0 <= i < rest.len() implies rest[i] != '=' by {
        assert(rest[i] == s[e + 1 + i]);
    }
    lemma_find_from(rest, '=', 0);
    lemma_trim_around(seq![' '], t, Seq::empty());
    assert(seq![' '] + t + Seq::<char>::empty() =~= rest);
    lemma_type_roundtrip(d.ty);
    // The name and the parameter words.
    lemma_trim_around(Seq::empty(), name, Seq::empty());
    assert(Seq::<char>::empty() + name + Seq::<char>::empty() =~= name);
    if pl == 0 {
        assert(left =~= name);
        lemma_find_from(left, ' ', 0);
        assert(first_index(left, ' ') is None);
        assert(words(Seq::<char>::empty()) == Seq::<Seq<char>>::empty());
        assert(texts.len() == 0);
        assert(texts =~= Seq::<Seq<char>>::empty());
    } else {
        assert(left[n] == ' ');
        assert forall|k: int| 0 <= k < n implies left[k] != ' ' by {
            assert(left[k] == name[k]);
            assert(!is_ws(name[k]));
        }
        lemma_first_index_at(left, ' ', n);
        assert(left.subrange(0, n) =~= name);
        let x = pt.subrange(1, pl);
        assert(left.subrange(n, left.len() as int) =~= pt);
        assert(pt =~= seq![' '] + x);
        assert(x[0] == pt[1]);
        assert(x.last() == pt.last());
        lemma_trim_around(seq![' '], x, Seq::empty());
        assert(seq![' '] + x + Seq::<char>::empty() =~= pt);
        assert(pt == seq![' '] + texts[0] + spaced(texts.drop_first()));
        assert(x =~= texts[0] + spaced(texts.drop_first()));
        assert(x.subrange(0, x.len() as int) =~= x);
        lemma_words_joined(x, 0, texts);
    }
    // The parameters and the documentation.
    let empty = Seq::<(Seq<char>, Seq<char>)>::empty();
    assert(doc_without(empty, "description"@) == empty);
    assert(doc_lookup(empty, "description"@) is None);
    lemma_parse_params_plain(ps, 0);
    assert(undocumented(ps).subrange(0, ps.len() as int) =~= undocumented(ps));
}

} // verus!
