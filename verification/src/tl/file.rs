//! Reading a whole Type Language file: definitions end with `;`, and the
//! separators `---functions---` and `---types---` switch the category of
//! the definitions that follow them.

use vstd::prelude::*;
use crate::text::{
    chars_of, find_char, find_from, lemma_find_from, starts_with, sub_vec, trim, trim_vec,
    vec_starts_with,
};
use crate::tl::definition::{
    comments_delimited, def_result_view, is_comments_delimited, parse_definition_chars,
    spec_parse_definition, Category, Definition, DefinitionView,
};
use crate::metadata::defs_view;
use crate::tl::errors::{ParseError, ParseErrorView};

verus! {

/// What one non-blank piece of a file stands for: a definition text and
/// the category in force, or a separator that is not known.
pub enum TlEntry {
    UnknownSeparator,
    Text(Seq<char>, Category),
}

/// The entry of a non-blank piece, and the category in force after it.
pub open spec fn entry_of(piece: Seq<char>, category: Category) -> (TlEntry, Category) {
    if starts_with(piece, "---"@) {
        if starts_with(piece, "---functions---"@) {
            (
                TlEntry::Text(trim(piece.subrange(15, piece.len() as int)), Category::Functions),
                Category::Functions,
            )
        } else if starts_with(piece, "---types---"@) {
            (TlEntry::Text(trim(piece.subrange(11, piece.len() as int)), Category::Types), Category::Types)
        } else {
            (TlEntry::UnknownSeparator, category)
        }
    } else {
        (TlEntry::Text(piece, category), category)
    }
}

/// Where the piece that starts at `i` ends: at the next `;`, or at the end.
pub open spec fn piece_end(s: Seq<char>, i: int) -> int {
    match find_from(s, ';', i) {
        Some(e) => if i <= e < s.len() {
            e
        } else {
            s.len() as int
        },
        None => s.len() as int,
    }
}

/// The entries of the pieces from position `i` on, with `category` in force.
pub open spec fn entries_from(s: Seq<char>, i: int, category: Category) -> Seq<TlEntry>
    decreases s.len() + 1 - i,
{
    if i < 0 || i >= s.len() {
        Seq::empty()
    } else {
        let end = piece_end(s, i);
        let piece = trim(s.subrange(i, end));
        if piece.len() == 0 {
            entries_from(s, end + 1, category)
        } else {
            seq![entry_of(piece, category).0] + entries_from(s, end + 1, entry_of(piece, category).1)
        }
    }
}

/// The entries of a file, which starts with data types.
pub open spec fn tl_entries(s: Seq<char>) -> Seq<TlEntry> {
    entries_from(s, 0, Category::Types)
}

/// What the file iterator yields for an entry: the definition parsed from
/// its text, in the category in force, or the error.
pub open spec fn entry_result(e: TlEntry) -> Result<DefinitionView, ParseErrorView> {
    match e {
        TlEntry::UnknownSeparator => Err(ParseErrorView::UnknownSeparator),
        TlEntry::Text(t, c) => match spec_parse_definition(t) {
            Ok(d) => Ok(
                DefinitionView {
                    name: d.name,
                    description: d.description,
                    params: d.params,
                    ty: d.ty,
                    category: c,
                    class_description: d.class_description,
                },
            ),
            Err(x) => Err(x),
        },
    }
}

/// An entry can be read: a definition text has no `@` after its comments.
pub open spec fn entry_readable(e: TlEntry) -> bool {
    match e {
        TlEntry::UnknownSeparator => true,
        TlEntry::Text(t, _) => comments_delimited(t),
    }
}

/// Every definition text of the file can be read.
pub open spec fn tl_readable(s: Seq<char>) -> bool {
    forall|k: int| 0 <= k < tl_entries(s).len() ==> entry_readable(#[trigger] tl_entries(s)[k])
}

/// Executable form of an entry.
enum Chunk {
    UnknownSeparator,
    Text(Vec<char>, Category),
}

impl View for Chunk {
    type V = TlEntry;

    closed spec fn view(&self) -> TlEntry {
        match self {
            Chunk::UnknownSeparator => TlEntry::UnknownSeparator,
            Chunk::Text(t, c) => TlEntry::Text(t@, *c),
        }
    }
}

fn chunk_of(piece: &Vec<char>, category: Category) -> (r: (Chunk, Category))
    ensures
        r.0@ == entry_of(piece@, category).0,
        r.1 == entry_of(piece@, category).1,
{
    let dashes = chars_of("---");
    if vec_starts_with(piece, &dashes) {
        let functions = chars_of("---functions---");
        let types = chars_of("---types---");
        proof {
            reveal_strlit("---functions---");
            reveal_strlit("---types---");
        }
        if vec_starts_with(piece, &functions) {
            let rest = trim_vec(&sub_vec(piece, 15, piece.len()));
            (Chunk::Text(rest, Category::Functions), Category::Functions)
        } else if vec_starts_with(piece, &types) {
            let rest = trim_vec(&sub_vec(piece, 11, piece.len()));
            (Chunk::Text(rest, Category::Types), Category::Types)
        } else {
            (Chunk::UnknownSeparator, category)
        }
    } else {
        let copy = sub_vec(piece, 0, piece.len());
        assert(copy@ =~= piece@);
        (Chunk::Text(copy, category), category)
    }
}

/// Models of chunks.
spec fn chunks_view(cs: Seq<Chunk>) -> Seq<TlEntry> {
    cs.map_values(|c: Chunk| c@)
}

/// Splits a file into its entries.
fn chunks(s: &Vec<char>) -> (r: Vec<Chunk>)
    ensures
        chunks_view(r@) == tl_entries(s@),
{
    let mut r: Vec<Chunk> = Vec::new();
    let mut i: usize = 0;
    let mut category = Category::Types;
    while i < s.len()
        invariant
            i <= s.len(),
            chunks_view(r@) + entries_from(s@, i as int, category) == tl_entries(s@),
        decreases s.len() - i,
    {
        proof {
            lemma_find_from(s@, ';', i as int);
        }
        let end = match find_char(s, ';', i) {
            Some(e) => e,
            None => s.len(),
        };
        let piece = trim_vec(&sub_vec(s, i, end));
        let ghost rest = entries_from(s@, end + 1, category);
        let next = if end < s.len() {
            end + 1
        } else {
            end
        };
        assert(entries_from(s@, next as int, category) == rest) by {
            if end == s.len() {
                assert(entries_from(s@, end + 1, category) =~= Seq::<TlEntry>::empty());
            }
        }
        if piece.len() == 0 {
            i = next;
        } else {
            let ghost before = r@;
            let ghost cat0 = category;
            let (c, cat) = chunk_of(&piece, category);
            r.push(c);
            category = cat;
            assert(chunks_view(r@) =~= chunks_view(before).push(entry_of(piece@, cat0).0));
            assert(entries_from(s@, end + 1, category) == entries_from(s@, next as int, category)) by {
                if end == s.len() {
                    assert(entries_from(s@, end + 1, category) =~= Seq::<TlEntry>::empty());
                }
            }
            assert(chunks_view(r@) + entries_from(s@, next as int, category) =~= chunks_view(before)
                + entries_from(s@, i as int, cat0));
            i = next;
        }
    }
    assert(chunks_view(r@) + Seq::<TlEntry>::empty() =~= chunks_view(r@));
    r
}

/// Whether every definition text of the file can be read (see
/// `tl_readable`); a file that fails this cannot be parsed.
pub fn tl_file_readable(contents: &str) -> (r: bool)
    ensures
        r == tl_readable(contents@),
{
    let s = chars_of(contents);
    let cs = chunks(&s);
    let mut k: usize = 0;
    while k < cs.len()
        invariant
            k <= cs.len(),
            chunks_view(cs@) == tl_entries(contents@),
            forall|j: int| 0 <= j < k ==> entry_readable(#[trigger] tl_entries(contents@)[j]),
        decreases cs.len() - k,
    {
        assert(cs@[k as int]@ == tl_entries(contents@)[k as int]);
        match &cs[k] {
            Chunk::UnknownSeparator => {},
            Chunk::Text(t, _) => {
                if !is_comments_delimited(t) {
                    return false;
                }
            },
        }
        k += 1;
    }
    true
}

/// Parses a whole Type Language file: one result per non-blank piece, in
/// order, each definition in the category that the last separator before
/// it set (data types until `---functions---`).
pub fn parse_tl_file(contents: &str) -> (r: Vec<Result<Definition, ParseError>>)
    requires
        tl_readable(contents@),
    ensures
        r.len() == tl_entries(contents@).len(),
        forall|k: int|
            0 <= k < r.len() ==> def_result_view(#[trigger] r@[k]) == entry_result(tl_entries(contents@)[k]),
{
    let s = chars_of(contents);
    let cs = chunks(&s);
    let mut r: Vec<Result<Definition, ParseError>> = Vec::new();
    let mut k: usize = 0;
    while k < cs.len()
        invariant
            k <= cs.len(),
            r.len() == k,
            chunks_view(cs@) == tl_entries(contents@),
            tl_readable(contents@),
            forall|j: int|
                0 <= j < k ==> def_result_view(#[trigger] r@[j]) == entry_result(tl_entries(contents@)[j]),
        decreases cs.len() - k,
    {
        assert(cs@[k as int]@ == tl_entries(contents@)[k as int]);
        assert(entry_readable(tl_entries(contents@)[k as int]));
        let item = match &cs[k] {
            Chunk::UnknownSeparator => Err(ParseError::UnknownSeparator),
            Chunk::Text(t, c) => match parse_definition_chars(t) {
                Ok(d) => {
                    let mut d = d;
                    d.category = *c;
                    Ok(d)
                },
                Err(e) => Err(e),
            },
        };
        r.push(item);
        k += 1;
    }
    r
}

/// The definitions among parse results, in order; the errors are dropped.
pub open spec fn ok_definitions(rs: Seq<Result<DefinitionView, ParseErrorView>>) -> Seq<DefinitionView>
    decreases rs.len(),
{
    if rs.len() == 0 {
        Seq::empty()
    } else {
        match rs.last() {
            Ok(d) => ok_definitions(rs.drop_last()).push(d),
            Err(_) => ok_definitions(rs.drop_last()),
        }
    }
}

/// The results of the entries of a file.
pub open spec fn tl_results(s: Seq<char>) -> Seq<Result<DefinitionView, ParseErrorView>> {
    tl_entries(s).map_values(|e: TlEntry| entry_result(e))
}

/// The definitions of a file that could be parsed, in order; the pieces
/// that could not are skipped.
pub fn parse_tl_definitions(contents: &str) -> (r: Vec<Definition>)
    requires
        tl_readable(contents@),
    ensures
        defs_view(r@) == ok_definitions(tl_results(contents@)),
{
    let s = chars_of(contents);
    let cs = chunks(&s);
    let ghost rs = tl_results(contents@);
    let mut kept: Vec<Definition> = Vec::new();
    let mut k: usize = 0;
    while k < cs.len()
        invariant
            k <= cs.len(),
            chunks_view(cs@) == tl_entries(contents@),
            rs == tl_results(contents@),
            rs.len() == cs.len(),
            tl_readable(contents@),
            defs_view(kept@) == ok_definitions(rs.take(k as int)),
        decreases cs.len() - k,
    {
        assert(cs@[k as int]@ == tl_entries(contents@)[k as int]);
        assert(entry_readable(tl_entries(contents@)[k as int]));
        assert(rs.take(k + 1).drop_last() =~= rs.take(k as int));
        assert(rs.take(k + 1).last() == rs[k as int]);
        assert(rs[k as int] == entry_result(tl_entries(contents@)[k as int]));
        match &cs[k] {
            Chunk::UnknownSeparator => {},
            Chunk::Text(t, c) => match parse_definition_chars(t) {
                Ok(d) => {
                    let mut d = d;
                    d.category = *c;
                    let ghost before = kept@;
                    kept.push(d);
                    assert(defs_view(kept@) =~= defs_view(before).push(kept@.last()@));
                },
                Err(_) => {},
            },
        }
        k += 1;
    }
    assert(rs.take(cs.len() as int) =~= rs);
    kept
}

} // verus!
