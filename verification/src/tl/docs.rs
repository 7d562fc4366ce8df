//! The documentation attached to a definition by its `//@name text`
//! comments, kept as an association list in which a later entry for a name
//! overrides an earlier one.

use vstd::prelude::*;
use crate::text::{chars_eq, sub_vec};

verus! {

/// The text documented for `key`: that of the last entry with this name.
pub open spec fn doc_lookup(d: Seq<(Seq<char>, Seq<char>)>, key: Seq<char>) -> Option<Seq<char>>
    decreases d.len(),
{
    if d.len() == 0 {
        None
    } else if d.last().0 == key {
        Some(d.last().1)
    } else {
        doc_lookup(d.drop_last(), key)
    }
}

/// The entries with every entry for `key` taken out.
pub open spec fn doc_without(d: Seq<(Seq<char>, Seq<char>)>, key: Seq<char>) -> Seq<
    (Seq<char>, Seq<char>),
>
    decreases d.len(),
{
    if d.len() == 0 {
        d
    } else if d.last().0 == key {
        doc_without(d.drop_last(), key)
    } else {
        doc_without(d.drop_last(), key).push(d.last())
    }
}

/// Model of the entries.
pub open spec fn docs_view(v: Seq<(Vec<char>, Vec<char>)>) -> Seq<(Seq<char>, Seq<char>)> {
    v.map_values(|p: (Vec<char>, Vec<char>)| (p.0@, p.1@))
}

fn copy_chars(v: &Vec<char>) -> (r: Vec<char>)
    ensures
        r@ == v@,
{
    let r = sub_vec(v, 0, v.len());
    assert(v@.subrange(0, v@.len() as int) =~= v@);
    r
}

/// Takes out the documentation of `key`, returning it.
pub fn docs_remove(docs: &mut Vec<(Vec<char>, Vec<char>)>, key: &Vec<char>) -> (r: Option<
    Vec<char>,
>)
    ensures
        match r {
            Some(t) => doc_lookup(docs_view(old(docs)@), key@) == Some(t@),
            None => doc_lookup(docs_view(old(docs)@), key@) is None,
        },
        docs_view(final(docs)@) == doc_without(docs_view(old(docs)@), key@),
{
    let ghost d0 = docs_view(docs@);
    let mut found: Option<Vec<char>> = None;
    let mut kept: Vec<(Vec<char>, Vec<char>)> = Vec::new();
    let mut i: usize = 0;
    while i < docs.len()
        invariant
            i <= docs.len(),
            d0 == docs_view(docs@),
            docs_view(kept@) == doc_without(d0.take(i as int), key@),
            match found {
                Some(t) => doc_lookup(d0.take(i as int), key@) == Some(t@),
                None => doc_lookup(d0.take(i as int), key@) is None,
            },
        decreases docs.len() - i,
    {
        let entry_key = copy_chars(&docs[i].0);
        let entry_text = copy_chars(&docs[i].1);
        assert(d0.take(i + 1).drop_last() =~= d0.take(i as int));
        assert(d0.take(i + 1).last() == d0[i as int]);
        if chars_eq(&entry_key, key) {
            found = Some(entry_text);
        } else {
            let ghost before = kept@;
            kept.push((entry_key, entry_text));
            assert(docs_view(kept@) =~= docs_view(before).push(d0[i as int]));
        }
        i += 1;
    }
    assert(d0.take(docs.len() as int) =~= d0);
    *docs = kept;
    found
}

/// Records the documentation `text` of `key`.
pub fn docs_insert(docs: &mut Vec<(Vec<char>, Vec<char>)>, key: Vec<char>, text: Vec<char>)
    ensures
        docs_view(final(docs)@) == docs_view(old(docs)@).push((key@, text@)),
{
    docs.push((key, text));
    assert(docs_view(docs@) =~= docs_view(old(docs)@).push((key@, text@)));
}

} // verus!
