//! Character-level helpers over `Seq<char>` shared by the parser, the
//! domain classifier and the code builders.

use vstd::prelude::*;

verus! {

/// `c` is an ASCII capital letter.
pub open spec fn is_ascii_upper(c: char) -> bool {
    'A' <= c && c <= 'Z'
}

/// `c` is an ASCII small letter.
pub open spec fn is_ascii_lower(c: char) -> bool {
    'a' <= c && c <= 'z'
}

/// ASCII lower-casing of one character; other characters are unchanged.
pub open spec fn ascii_lower(c: char) -> char {
    if is_ascii_upper(c) {
        ((c as u32) + 32) as char
    } else {
        c
    }
}

/// ASCII lower-casing of a whole text.
pub open spec fn lower_seq(s: Seq<char>) -> Seq<char> {
    s.map_values(|c: char| ascii_lower(c))
}

/// `needle` occurs in `hay` starting at position `i`.
pub open spec fn occurs_at(hay: Seq<char>, needle: Seq<char>, i: int) -> bool {
    &&& 0 <= i
    &&& i + needle.len() <= hay.len()
    &&& hay.subrange(i, i + needle.len()) == needle
}

/// `needle` occurs somewhere in `hay`.
pub open spec fn contains_seq(hay: Seq<char>, needle: Seq<char>) -> bool {
    exists|i: int| occurs_at(hay, needle, i)
}

/// Copies the characters of a string slice into a vector.
pub fn chars_of(s: &str) -> (v: Vec<char>)
    ensures
        v@ == s@,
{
    let mut v: Vec<char> = Vec::new();
    for c in it: s.chars()
        invariant
            v@ == it.seq().take(it.index() as int),
    {
        v.push(c);
    }
    v
}

/// ASCII lower-casing of one character.
pub fn to_ascii_lower(c: char) -> (r: char)
    ensures
        r == ascii_lower(c),
{
    if 'A' <= c && c <= 'Z' {
        let code: u32 = c as u32;
        let lowered: u8 = (code + 32) as u8;
        lowered as char
    } else {
        c
    }
}

/// ASCII lower-casing of a sequence of characters.
pub fn lower_chars(v: &Vec<char>) -> (r: Vec<char>)
    ensures
        r@ == lower_seq(v@),
{
    let mut r: Vec<char> = Vec::new();
    let mut i: usize = 0;
    while i < v.len()
        invariant
            i <= v.len(),
            r@ == lower_seq(v@.take(i as int)),
        decreases v.len() - i,
    {
        r.push(to_ascii_lower(v[i]));
        i += 1;
        assert(lower_seq(v@.take(i as int)) =~= lower_seq(v@.take(i - 1 as int)).push(ascii_lower(v@[i - 1])));
    }
    assert(v@.take(v.len() as int) =~= v@);
    r
}

/// Whether `needle` occurs in `hay` at position `i`.
pub fn matches_at(hay: &Vec<char>, needle: &Vec<char>, i: usize) -> (r: bool)
    ensures
        r == occurs_at(hay@, needle@, i as int),
{
    if i > hay.len() || needle.len() > hay.len() - i {
        return false;
    }
    let mut j: usize = 0;
    while j < needle.len()
        invariant
            i + needle.len() <= hay.len(),
            j <= needle.len(),
            forall|k: int| 0 <= k < j ==> hay@[i + k] == needle@[k],
        decreases needle.len() - j,
    {
        if hay[i + j] != needle[j] {
            assert(hay@.subrange(i as int, i + needle.len())[j as int] != needle@[j as int]);
            return false;
        }
        j += 1;
    }
    assert(hay@.subrange(i as int, i + needle.len()) =~= needle@);
    true
}

/// Whether `needle` occurs anywhere in `hay`.
pub fn contains_chars(hay: &Vec<char>, needle: &Vec<char>) -> (r: bool)
    ensures
        r == contains_seq(hay@, needle@),
{
    let mut i: usize = 0;
    loop
        invariant
            i <= hay.len(),
            forall|k: int| 0 <= k < i ==> !occurs_at(hay@, needle@, k),
        ensures
            forall|k: int| 0 <= k <= hay.len() ==> !occurs_at(hay@, needle@, k),
        decreases hay.len() - i,
    {
        if matches_at(hay, needle, i) {
            return true;
        }
        if i == hay.len() {
            break;
        }
        i += 1;
    }
    assert forall|k: int| !occurs_at(hay@, needle@, k) by {
        if 0 <= k && k > hay.len() {
            assert(k + needle@.len() > hay@.len());
        }
    }
    false
}

/// Whether the text held in `hay` contains the string `needle`.
pub fn contains_str(hay: &Vec<char>, needle: &str) -> (r: bool)
    ensures
        r == contains_seq(hay@, needle@),
{
    let n = chars_of(needle);
    contains_chars(hay, &n)
}

/// Whether two character vectors are equal.
pub fn chars_eq(a: &Vec<char>, b: &Vec<char>) -> (r: bool)
    ensures
        r == (a@ == b@),
{
    if a.len() != b.len() {
        return false;
    }
    let mut i: usize = 0;
    while i < a.len()
        invariant
            a.len() == b.len(),
            i <= a.len(),
            forall|k: int| 0 <= k < i ==> a@[k] == b@[k],
        decreases a.len() - i,
    {
        if a[i] != b[i] {
            return false;
        }
        i += 1;
    }
    assert(a@ =~= b@);
    true
}

/// Whether the characters in `a` spell the string `b`.
pub fn chars_eq_str(a: &Vec<char>, b: &str) -> (r: bool)
    ensures
        r == (a@ == b@),
{
    let bv = chars_of(b);
    chars_eq(a, &bv)
}

/// Whether two strings are equal.
pub fn str_eq(a: &str, b: &str) -> (r: bool)
    ensures
        r == (a@ == b@),
{
    let av = chars_of(a);
    let bv = chars_of(b);
    chars_eq(&av, &bv)
}

/// The first position at or after `i` that holds `c`.
pub open spec fn find_from(s: Seq<char>, c: char, i: int) -> Option<int>
    decreases s.len() - i,
{
    if i < 0 || i >= s.len() {
        None
    } else if s[i] == c {
        Some(i)
    } else {
        find_from(s, c, i + 1)
    }
}

/// The first position of `c` in `s`.
pub open spec fn first_index(s: Seq<char>, c: char) -> Option<int> {
    find_from(s, c, 0)
}

/// What a search result says: the position holds `c` and no earlier one
/// at or after `i` does; with no result, no such position holds `c`.
pub proof fn lemma_find_from(s: Seq<char>, c: char, i: int)
    requires
        0 <= i,
    ensures
        match find_from(s, c, i) {
            Some(p) => i <= p < s.len() && s[p] == c && forall|k: int| i <= k < p ==> s[k] != c,
            None => forall|k: int| i <= k < s.len() ==> s[k] != c,
        },
    decreases s.len() - i,
{
    if i < s.len() && s[i] != c {
        lemma_find_from(s, c, i + 1);
    }
}

/// Searches `v` for `c` from position `from` on.
pub fn find_char(v: &Vec<char>, c: char, from: usize) -> (r: Option<usize>)
    ensures
        match r {
            Some(p) => find_from(v@, c, from as int) == Some(p as int),
            None => find_from(v@, c, from as int) is None,
        },
{
    let mut i = from;
    while i < v.len()
        invariant
            from <= i,
            find_from(v@, c, from as int) == find_from(v@, c, i as int),
        decreases v.len() - i,
    {
        if v[i] == c {
            return Some(i);
        }
        i += 1;
    }
    None
}

/// Copies `v[lo..hi]` into a new vector.
pub fn sub_vec(v: &Vec<char>, lo: usize, hi: usize) -> (r: Vec<char>)
    requires
        lo <= hi <= v.len(),
    ensures
        r@ == v@.subrange(lo as int, hi as int),
{
    let mut r: Vec<char> = Vec::new();
    let mut i = lo;
    while i < hi
        invariant
            lo <= i <= hi <= v.len(),
            r@ == v@.subrange(lo as int, i as int),
        decreases hi - i,
    {
        r.push(v[i]);
        i += 1;
        assert(r@ =~= v@.subrange(lo as int, i as int));
    }
    r
}

/// Appends a character to a string by `String::push`, which std documents
/// as appending the character to the end of the string; that is all the
/// contract claims.
#[verifier::external_body]
pub(crate) fn push_char(s: &mut String, c: char)
    ensures
        final(s)@ == old(s)@.push(c),
{
    s.push(c);
}

/// Builds a string from the characters `v[lo..hi]`.
pub fn string_of(v: &Vec<char>, lo: usize, hi: usize) -> (r: String)
    requires
        lo <= hi <= v.len(),
    ensures
        r@ == v@.subrange(lo as int, hi as int),
{
    let mut r = String::new();
    let mut i = lo;
    while i < hi
        invariant
            lo <= i <= hi <= v.len(),
            r@ == v@.subrange(lo as int, i as int),
        decreases hi - i,
    {
        push_char(&mut r, v[i]);
        i += 1;
        assert(r@ =~= v@.subrange(lo as int, i as int));
    }
    r
}

/// Builds a string from a whole character vector.
pub fn string_from(v: &Vec<char>) -> (r: String)
    ensures
        r@ == v@,
{
    let r = string_of(v, 0, v.len());
    assert(v@.subrange(0, v@.len() as int) =~= v@);
    r
}

/// Appends all characters of `v` to `s`.
pub fn push_chars(s: &mut String, v: &Vec<char>)
    ensures
        final(s)@ == old(s)@ + v@,
{
    let mut i: usize = 0;
    while i < v.len()
        invariant
            i <= v.len(),
            s@ == old(s)@ + v@.take(i as int),
        decreases v.len() - i,
    {
        push_char(s, v[i]);
        i += 1;
        assert(s@ =~= old(s)@ + v@.take(i as int));
    }
    assert(v@.take(v.len() as int) =~= v@);
}

/// Unicode `White_Space`, the set that `str::trim` and
/// `str::split_whitespace` strip.
pub open spec fn is_ws(c: char) -> bool {
    ||| ('\u{9}' <= c && c <= '\u{d}')
    ||| c == ' '
    ||| c == '\u{85}'
    ||| c == '\u{a0}'
    ||| c == '\u{1680}'
    ||| ('\u{2000}' <= c && c <= '\u{200a}')
    ||| c == '\u{2028}'
    ||| c == '\u{2029}'
    ||| c == '\u{202f}'
    ||| c == '\u{205f}'
    ||| c == '\u{3000}'
}

/// Whether `c` is Unicode white space.
pub fn is_ws_char(c: char) -> (r: bool)
    ensures
        r == is_ws(c),
{
    ('\u{9}' <= c && c <= '\u{d}') || c == ' ' || c == '\u{85}' || c == '\u{a0}' || c
        == '\u{1680}' || ('\u{2000}' <= c && c <= '\u{200a}') || c == '\u{2028}' || c
        == '\u{2029}' || c == '\u{202f}' || c == '\u{205f}' || c == '\u{3000}'
}

/// The first position at or after `i` that is not white space (or the length).
pub open spec fn skip_ws(s: Seq<char>, i: int) -> int
    decreases s.len() - i,
{
    if i < 0 {
        0
    } else if i < s.len() && is_ws(s[i]) {
        skip_ws(s, i + 1)
    } else {
        i
    }
}

/// The end of `s[..j]` once trailing white space is removed.
pub open spec fn trim_end_from(s: Seq<char>, j: int) -> int
    decreases j,
{
    if j > s.len() {
        s.len() as int
    } else if j > 0 && is_ws(s[j - 1]) {
        trim_end_from(s, j - 1)
    } else if j < 0 {
        0
    } else {
        j
    }
}

/// `s` with leading and trailing white space removed.
pub open spec fn trim(s: Seq<char>) -> Seq<char> {
    let a = skip_ws(s, 0);
    let b = trim_end_from(s, s.len() as int);
    if a < b {
        s.subrange(a, b)
    } else {
        Seq::empty()
    }
}

/// `s` holds nothing but white space.
pub open spec fn all_ws(s: Seq<char>) -> bool {
    forall|k: int| 0 <= k < s.len() ==> is_ws(s[k])
}

/// Skipping white space from `i` passes only white space and stops at the
/// first other character or at the end.
pub proof fn lemma_skip_ws(s: Seq<char>, i: int)
    requires
        0 <= i <= s.len(),
    ensures
        i <= skip_ws(s, i) <= s.len(),
        forall|k: int| i <= k < skip_ws(s, i) ==> is_ws(s[k]),
        skip_ws(s, i) < s.len() ==> !is_ws(s[skip_ws(s, i)]),
    decreases s.len() - i,
{
    if i < s.len() && is_ws(s[i]) {
        lemma_skip_ws(s, i + 1);
    }
}

/// Trimming the end of `s[..j]` passes only white space and stops after
/// the last other character.
pub proof fn lemma_trim_end(s: Seq<char>, j: int)
    requires
        0 <= j <= s.len(),
    ensures
        0 <= trim_end_from(s, j) <= j,
        forall|k: int| trim_end_from(s, j) <= k < j ==> is_ws(s[k]),
        trim_end_from(s, j) > 0 ==> !is_ws(s[trim_end_from(s, j) - 1]),
    decreases j,
{
    if j > 0 && is_ws(s[j - 1]) {
        lemma_trim_end(s, j - 1);
    }
}

/// Computes the bounds of `v` trimmed of white space.
pub fn trim_bounds(v: &Vec<char>) -> (r: (usize, usize))
    ensures
        r.0 <= r.1 <= v.len(),
        v@.subrange(r.0 as int, r.1 as int) == trim(v@),
{
    let mut a: usize = 0;
    while a < v.len() && is_ws_char(v[a])
        invariant
            a <= v.len(),
            skip_ws(v@, 0) == skip_ws(v@, a as int),
        decreases v.len() - a,
    {
        a += 1;
    }
    let mut b: usize = v.len();
    while b > 0 && is_ws_char(v[b - 1])
        invariant
            b <= v.len(),
            trim_end_from(v@, v.len() as int) == trim_end_from(v@, b as int),
        decreases b,
    {
        b -= 1;
    }
    if a < b {
        (a, b)
    } else {
        assert(v@.subrange(a as int, a as int) =~= Seq::<char>::empty());
        (a, a)
    }
}

/// Copies `v` trimmed of white space.
pub fn trim_vec(v: &Vec<char>) -> (r: Vec<char>)
    ensures
        r@ == trim(v@),
{
    let (a, b) = trim_bounds(v);
    sub_vec(v, a, b)
}

/// `s` from position `i` on with every occurrence of `pat` removed, matching
/// from left to right without overlap (what `str::replace(pat, "")` gives).
pub open spec fn remove_from(s: Seq<char>, pat: Seq<char>, i: int) -> Seq<char>
    decreases s.len() - i,
{
    if i < 0 || i >= s.len() {
        Seq::empty()
    } else if pat.len() > 0 && occurs_at(s, pat, i) {
        remove_from(s, pat, i + pat.len())
    } else {
        seq![s[i]] + remove_from(s, pat, i + 1)
    }
}

/// `s` with every occurrence of `pat` removed.
pub open spec fn remove_all(s: Seq<char>, pat: Seq<char>) -> Seq<char> {
    remove_from(s, pat, 0)
}

/// Removes every occurrence of `pat` from `s`.
pub fn remove_all_chars(s: &Vec<char>, pat: &Vec<char>) -> (r: Vec<char>)
    ensures
        r@ == remove_all(s@, pat@),
{
    let mut out: Vec<char> = Vec::new();
    let mut i: usize = 0;
    while i < s.len()
        invariant
            i <= s.len(),
            out@ + remove_from(s@, pat@, i as int) == remove_all(s@, pat@),
        decreases s.len() - i,
    {
        if pat.len() > 0 && matches_at(s, pat, i) {
            i = i + pat.len();
        } else {
            let ghost before = out@;
            out.push(s[i]);
            assert(out@ + remove_from(s@, pat@, i + 1) =~= before + remove_from(s@, pat@, i as int));
            i += 1;
        }
    }
    assert(out@ + remove_from(s@, pat@, i as int) =~= out@);
    out
}

/// The first position at or after `i` that is white space (or the length).
pub open spec fn skip_non_ws(s: Seq<char>, i: int) -> int
    decreases s.len() - i,
{
    if i < 0 {
        0
    } else if i < s.len() && !is_ws(s[i]) {
        skip_non_ws(s, i + 1)
    } else {
        i
    }
}

/// Skipping a word from `i` passes only characters other than white space
/// and stops at the first white space or at the end.
pub proof fn lemma_skip_non_ws(s: Seq<char>, i: int)
    requires
        0 <= i <= s.len(),
    ensures
        i <= skip_non_ws(s, i) <= s.len(),
        forall|k: int| i <= k < skip_non_ws(s, i) ==> !is_ws(s[k]),
        skip_non_ws(s, i) < s.len() ==> is_ws(s[skip_non_ws(s, i)]),
    decreases s.len() - i,
{
    if i < s.len() && !is_ws(s[i]) {
        lemma_skip_non_ws(s, i + 1);
    }
}

/// The white-space separated words of `s` from position `i` on (what
/// `str::split_whitespace` yields).
pub open spec fn words_from(s: Seq<char>, i: int) -> Seq<Seq<char>>
    decreases s.len() - i,
{
    if i < 0 || i >= s.len() {
        Seq::empty()
    } else {
        let a = skip_ws(s, i);
        let b = skip_non_ws(s, a);
        if a >= s.len() || b <= i || b > s.len() {
            Seq::empty()
        } else {
            seq![s.subrange(a, b)] + words_from(s, b)
        }
    }
}

/// The white-space separated words of `s`.
pub open spec fn words(s: Seq<char>) -> Seq<Seq<char>> {
    words_from(s, 0)
}

/// Models of a sequence of character vectors.
pub open spec fn vecs_view(v: Seq<Vec<char>>) -> Seq<Seq<char>> {
    v.map_values(|t: Vec<char>| t@)
}

/// Splits `s` into its white-space separated words.
pub fn split_words(s: &Vec<char>) -> (r: Vec<Vec<char>>)
    ensures
        vecs_view(r@) == words(s@),
{
    let mut out: Vec<Vec<char>> = Vec::new();
    let mut i: usize = 0;
    while i < s.len()
        invariant
            i <= s.len(),
            vecs_view(out@) + words_from(s@, i as int) == words(s@),
        decreases s.len() - i,
    {
        let mut a = i;
        while a < s.len() && is_ws_char(s[a])
            invariant
                i <= a <= s.len(),
                skip_ws(s@, i as int) == skip_ws(s@, a as int),
            decreases s.len() - a,
        {
            a += 1;
        }
        if a >= s.len() {
            assert(words_from(s@, i as int) =~= Seq::<Seq<char>>::empty());
            i = s.len();
        } else {
            let mut b = a;
            while b < s.len() && !is_ws_char(s[b])
                invariant
                    a <= b <= s.len(),
                    skip_non_ws(s@, a as int) == skip_non_ws(s@, b as int),
                decreases s.len() - b,
            {
                b += 1;
            }
            proof {
                lemma_skip_ws(s@, i as int);
                lemma_skip_non_ws(s@, a as int);
            }
            let word = sub_vec(s, a, b);
            let ghost before = out@;
            out.push(word);
            assert(vecs_view(out@) =~= vecs_view(before).push(word@));
            assert(vecs_view(out@) + words_from(s@, b as int) =~= vecs_view(before) + words_from(
                s@,
                i as int,
            ));
            i = b;
        }
    }
    assert(vecs_view(out@) + words_from(s@, i as int) =~= vecs_view(out@));
    out
}

/// The text after the separator at `pos`, up to the next occurrence of the
/// same separator (or the end): the second piece of `str::split(sep)`.
pub open spec fn field_after(s: Seq<char>, pos: int, sep: char) -> Seq<char> {
    let rest = s.subrange(pos + 1, s.len() as int);
    match first_index(rest, sep) {
        Some(d) => rest.subrange(0, d),
        None => rest,
    }
}

/// Copies the text after the separator at `pos`, up to the next separator.
pub fn field_after_vec(v: &Vec<char>, pos: usize, sep: char) -> (r: Vec<char>)
    requires
        pos < v.len(),
    ensures
        r@ == field_after(v@, pos as int, sep),
{
    let rest = sub_vec(v, pos + 1, v.len());
    match find_char(&rest, sep, 0) {
        Some(d) => {
            proof {
                lemma_find_from(rest@, sep, 0);
            }
            sub_vec(&rest, 0, d)
        },
        None => rest,
    }
}

/// The last position below `j` that holds `c`.
pub open spec fn rfind_below(s: Seq<char>, c: char, j: int) -> Option<int>
    decreases j,
{
    if j <= 0 || j > s.len() {
        None
    } else if s[j - 1] == c {
        Some(j - 1)
    } else {
        rfind_below(s, c, j - 1)
    }
}

/// What a backward search below `j` finds: the last position below `j`
/// that holds `c`, or nothing when none does.
pub proof fn lemma_rfind_below(s: Seq<char>, c: char, j: int)
    requires
        0 <= j <= s.len(),
    ensures
        match rfind_below(s, c, j) {
            Some(p) => 0 <= p < j && s[p] == c && forall|k: int| p < k < j ==> s[k] != c,
            None => forall|k: int| 0 <= k < j ==> s[k] != c,
        },
    decreases j,
{
    if j > 0 && s[j - 1] != c {
        lemma_rfind_below(s, c, j - 1);
    }
}

/// Searches `v[..j]` for the last `c`.
pub fn rfind_char(v: &Vec<char>, c: char, j: usize) -> (r: Option<usize>)
    requires
        j <= v.len(),
    ensures
        match r {
            Some(p) => rfind_below(v@, c, j as int) == Some(p as int) && p < j,
            None => rfind_below(v@, c, j as int) is None,
        },
{
    let mut k = j;
    while k > 0
        invariant
            k <= j <= v.len(),
            rfind_below(v@, c, j as int) == rfind_below(v@, c, k as int),
        decreases k,
    {
        if v[k - 1] == c {
            return Some(k - 1);
        }
        k -= 1;
    }
    None
}

/// `s` starts with `prefix`.
pub open spec fn starts_with(s: Seq<char>, prefix: Seq<char>) -> bool {
    prefix.len() <= s.len() && s.subrange(0, prefix.len() as int) == prefix
}

/// Whether `v` starts with `prefix`.
pub fn vec_starts_with(v: &Vec<char>, prefix: &Vec<char>) -> (r: bool)
    ensures
        r == starts_with(v@, prefix@),
{
    if prefix.len() > v.len() {
        return false;
    }
    let head = sub_vec(v, 0, prefix.len());
    chars_eq(&head, prefix)
}

/// `s` from position `i` on with every `c` replaced by `rep`.
pub open spec fn replace_char_from(s: Seq<char>, c: char, rep: Seq<char>, i: int) -> Seq<char>
    decreases s.len() - i,
{
    if i < 0 || i >= s.len() {
        Seq::empty()
    } else if s[i] == c {
        rep + replace_char_from(s, c, rep, i + 1)
    } else {
        seq![s[i]] + replace_char_from(s, c, rep, i + 1)
    }
}

/// `s` with every `c` replaced by `rep` (what `str::replace(c, rep)` gives).
pub open spec fn replace_char(s: Seq<char>, c: char, rep: Seq<char>) -> Seq<char> {
    replace_char_from(s, c, rep, 0)
}

/// Appends `v` with every `c` replaced by `rep`.
pub fn push_replacing(out: &mut String, v: &Vec<char>, c: char, rep: &Vec<char>)
    ensures
        final(out)@ == old(out)@ + replace_char(v@, c, rep@),
{
    let mut i: usize = 0;
    while i < v.len()
        invariant
            i <= v.len(),
            out@ + replace_char_from(v@, c, rep@, i as int) == old(out)@ + replace_char(v@, c, rep@),
        decreases v.len() - i,
    {
        let ghost before = out@;
        if v[i] == c {
            push_chars(out, rep);
            assert(out@ + replace_char_from(v@, c, rep@, i + 1) =~= before + replace_char_from(
                v@,
                c,
                rep@,
                i as int,
            ));
        } else {
            push_char(out, v[i]);
            assert(out@ + replace_char_from(v@, c, rep@, i + 1) =~= before + replace_char_from(
                v@,
                c,
                rep@,
                i as int,
            ));
        }
        i += 1;
    }
    assert(out@ + replace_char_from(v@, c, rep@, i as int) =~= out@);
}

/// `a` and `b` first differ at position `k`, where `a` is the smaller: `a`
/// ends there and `b` goes on, or `a` has the smaller character there.
pub open spec fn lex_less_at(a: Seq<char>, b: Seq<char>, k: int) -> bool {
    &&& 0 <= k <= a.len()
    &&& k <= b.len()
    &&& forall|i: int| 0 <= i < k ==> a[i] == b[i]
    &&& ((k == a.len() && k < b.len()) || (k < a.len() && k < b.len() && (a[k] as u32) < (
    b[k] as u32)))
}

/// `a` comes strictly before `b` in lexicographic order of characters, the
/// order in which `str` values compare.
pub open spec fn seq_less(a: Seq<char>, b: Seq<char>) -> bool {
    exists|k: int| lex_less_at(a, b, k)
}

/// No text comes before itself.
pub proof fn lemma_seq_less_irreflexive(a: Seq<char>)
    ensures
        !seq_less(a, a),
{
}

/// Lexicographic order is transitive.
pub proof fn lemma_seq_less_transitive(a: Seq<char>, b: Seq<char>, c: Seq<char>)
    requires
        seq_less(a, b),
        seq_less(b, c),
    ensures
        seq_less(a, c),
{
    let k1 = choose|k: int| lex_less_at(a, b, k);
    let k2 = choose|k: int| lex_less_at(b, c, k);
    if k1 <= k2 {
        assert(lex_less_at(a, c, k1));
    } else {
        assert(lex_less_at(a, c, k2));
    }
}

/// `s` from position `i` on with every occurrence of `pat` replaced by
/// `rep`, matching from left to right without overlap.
pub open spec fn replace_from(s: Seq<char>, pat: Seq<char>, rep: Seq<char>, i: int) -> Seq<char>
    decreases s.len() - i,
{
    if i < 0 || i >= s.len() {
        Seq::empty()
    } else if pat.len() > 0 && occurs_at(s, pat, i) {
        rep + replace_from(s, pat, rep, i + pat.len())
    } else {
        seq![s[i]] + replace_from(s, pat, rep, i + 1)
    }
}

/// `s` with every occurrence of the non-empty `pat` replaced by `rep` (what
/// `str::replace(pat, rep)` gives).
pub open spec fn replace_all(s: Seq<char>, pat: Seq<char>, rep: Seq<char>) -> Seq<char> {
    replace_from(s, pat, rep, 0)
}

/// Replaces every occurrence of the non-empty `pat` in `s` by `rep`.
pub fn replace_str(s: &str, pat: &str, rep: &str) -> (r: String)
    requires
        pat@.len() > 0,
    ensures
        r@ == replace_all(s@, pat@, rep@),
{
    let sv = chars_of(s);
    let pv = chars_of(pat);
    let mut out = String::new();
    let mut i: usize = 0;
    while i < sv.len()
        invariant
            i <= sv.len(),
            sv@ == s@,
            pv@ == pat@,
            pat@.len() > 0,
            out@ + replace_from(s@, pat@, rep@, i as int) == replace_all(s@, pat@, rep@),
        decreases sv.len() - i,
    {
        let ghost before = out@;
        if matches_at(&sv, &pv, i) {
            out.append(rep);
            assert(out@ + replace_from(s@, pat@, rep@, i + pat@.len()) =~= before + replace_from(
                s@,
                pat@,
                rep@,
                i as int,
            ));
            i = i + pv.len();
        } else {
            push_char(&mut out, sv[i]);
            assert(out@ + replace_from(s@, pat@, rep@, i + 1) =~= before + replace_from(
                s@,
                pat@,
                rep@,
                i as int,
            ));
            i += 1;
        }
    }
    assert(out@ + replace_from(s@, pat@, rep@, i as int) =~= out@);
    out
}

} // verus!
