//! Character sequences: case folding, searching, splitting and trimming.
//!
//! All text handled by the crate is held as `Vec<char>` or `&[char]`, whose
//! view is the `Seq<char>` that the descriptions of the syntax speak of.

use vstd::prelude::*;
use vstd::slice::slice_subrange;

verus! {

/// The lower-case form of an ASCII capital letter; any other character itself.
pub open spec fn lower_char(c: char) -> char {
    if 'A' <= c && c <= 'Z' {
        ((c as u8 + 32) as u8) as char
    } else {
        c
    }
}

/// A text with every ASCII capital letter replaced by its lower-case form.
pub open spec fn lower(s: Seq<char>) -> Seq<char> {
    Seq::new(s.len(), |i: int| lower_char(s[i]))
}

/// Blank characters that may surround a line.
pub open spec fn is_space(c: char) -> bool {
    c == ' ' || c == '\t' || c == '\r' || c == '\n'
}

/// An ASCII digit.
pub open spec fn is_digit(c: char) -> bool {
    '0' <= c && c <= '9'
}

/// An ASCII letter.
pub open spec fn is_letter(c: char) -> bool {
    ('a' <= c && c <= 'z') || ('A' <= c && c <= 'Z')
}

/// An ASCII letter or digit.
pub open spec fn is_alnum(c: char) -> bool {
    is_letter(c) || is_digit(c)
}

/// The first index at or after `from` that holds `c`; the length where there is none.
pub open spec fn find_char(s: Seq<char>, c: char, from: int) -> int
    decreases s.len() - from,
{
    if from < 0 || from >= s.len() {
        s.len() as int
    } else if s[from] == c {
        from
    } else {
        find_char(s, c, from + 1)
    }
}

/// The last index before `to` that holds `c`; -1 where there is none.
pub open spec fn rfind_char(s: Seq<char>, c: char, to: int) -> int
    decreases to,
{
    if to <= 0 || to > s.len() {
        -1
    } else if s[to - 1] == c {
        to - 1
    } else {
        rfind_char(s, c, to - 1)
    }
}

/// The pieces of `s` between the occurrences of `sep` at or after `from`.
pub open spec fn split_from(s: Seq<char>, sep: char, from: int) -> Seq<Seq<char>>
    decreases s.len() - from,
    via split_from_decreases
{
    if from < 0 || from > s.len() {
        Seq::empty()
    } else {
        let e = find_char(s, sep, from);
        if e >= s.len() {
            seq![s.subrange(from, s.len() as int)]
        } else {
            seq![s.subrange(from, e)] + split_from(s, sep, e + 1)
        }
    }
}

#[via_fn]
proof fn split_from_decreases(s: Seq<char>, sep: char, from: int) {
    if 0 <= from <= s.len() {
        lemma_find_char(s, sep, from);
    }
}

/// The pieces of `s` between the occurrences of `sep`. There is always at
/// least one piece; two adjacent separators enclose an empty piece.
pub open spec fn split(s: Seq<char>, sep: char) -> Seq<Seq<char>> {
    split_from(s, sep, 0)
}

/// The index of the first character at or after `from` that is not blank.
pub open spec fn skip_space(s: Seq<char>, from: int) -> int
    decreases s.len() - from,
{
    if 0 <= from < s.len() && is_space(s[from]) {
        skip_space(s, from + 1)
    } else {
        from
    }
}

/// The index behind the last character before `to` that is not blank.
pub open spec fn skip_space_back(s: Seq<char>, to: int) -> int
    decreases to,
{
    if 0 < to <= s.len() && is_space(s[to - 1]) {
        skip_space_back(s, to - 1)
    } else {
        to
    }
}

/// `s` without the blank characters at its two ends.
pub open spec fn trim(s: Seq<char>) -> Seq<char> {
    let a = skip_space(s, 0);
    let b = skip_space_back(s, s.len() as int);
    if a < b {
        s.subrange(a, b)
    } else {
        Seq::empty()
    }
}

/// The views of a list of texts.
pub open spec fn views(v: Seq<Vec<char>>) -> Seq<Seq<char>> {
    Seq::new(v.len(), |i: int| v[i]@)
}

/// No text of `a` is a text of `b`.
pub open spec fn texts_disjoint(a: Seq<Seq<char>>, b: Seq<Seq<char>>) -> bool {
    forall|i: int, j: int| #![trigger a[i], b[j]] 0 <= i < a.len() && 0 <= j < b.len() ==> a[i] != b[j]
}

/// Where `find_char` points: at the first `c` at or after `from`.
pub proof fn lemma_find_char(s: Seq<char>, c: char, from: int)
    requires
        0 <= from <= s.len(),
    ensures
        from <= find_char(s, c, from) <= s.len(),
        find_char(s, c, from) < s.len() ==> s[find_char(s, c, from)] == c,
        forall|k: int| from <= k < find_char(s, c, from) ==> s[k] != c,
    decreases s.len() - from,
{
    if from < s.len() && s[from] != c {
        lemma_find_char(s, c, from + 1);
    }
}

/// The lower-case form of an ASCII capital letter; any other character itself.
pub fn to_lower(c: char) -> (r: char)
    ensures
        r == lower_char(c),
{
    if c >= 'A' && c <= 'Z' {
        ((c as u8) + 32u8) as char
    } else {
        c
    }
}

/// Whether a character is blank.
pub fn space(c: char) -> (r: bool)
    ensures
        r == is_space(c),
{
    c == ' ' || c == '\t' || c == '\r' || c == '\n'
}

/// Whether a character is an ASCII letter or digit.
pub fn alnum(c: char) -> (r: bool)
    ensures
        r == is_alnum(c),
{
    (c >= 'a' && c <= 'z') || (c >= 'A' && c <= 'Z') || (c >= '0' && c <= '9')
}

/// Collects the characters of a string slice, in order.
pub fn chars_of(s: &str) -> (out: Vec<char>)
    ensures
        out@ == s@,
{
    let mut out: Vec<char> = Vec::new();
    for c in it: s.chars()
        invariant
            out@ == it.seq().take(it.index()),
            it.seq() == s@,
    {
        out.push(c);
    }
    out
}

/// A copy of `s` in lower case.
pub fn lowered(s: &[char]) -> (out: Vec<char>)
    ensures
        out@ == lower(s@),
{
    let mut out: Vec<char> = Vec::new();
    let mut i: usize = 0;
    while i < s.len()
        invariant
            i <= s.len(),
            out@.len() == i,
            forall|k: int| 0 <= k < i ==> out@[k] == lower_char(s@[k]),
        decreases s.len() - i,
    {
        out.push(to_lower(s[i]));
        i += 1;
    }
    assert(out@ =~= lower(s@));
    out
}

/// A copy of the part of `s` from `from` up to `to`.
pub fn copy_range(s: &[char], from: usize, to: usize) -> (out: Vec<char>)
    requires
        from <= to <= s.len(),
    ensures
        out@ == s@.subrange(from as int, to as int),
{
    let mut out: Vec<char> = Vec::new();
    let mut i: usize = from;
    while i < to
        invariant
            from <= i <= to <= s.len(),
            out@ == s@.subrange(from as int, i as int),
        decreases to - i,
    {
        out.push(s[i]);
        assert(out@ =~= s@.subrange(from as int, i + 1));
        i += 1;
    }
    assert(out@ =~= s@.subrange(from as int, to as int));
    out
}

/// Whether two texts hold the same characters.
pub fn same_text(a: &[char], b: &[char]) -> (r: bool)
    ensures
        r == (a@ == b@),
{
    if a.len() != b.len() {
        return false;
    }
    let mut i: usize = 0;
    while i < a.len()
        invariant
            i <= a.len(),
            a.len() == b.len(),
            forall|k: int| 0 <= k < i ==> a@[k] == b@[k],
        decreases a.len() - i,
    {
        if a[i] != b[i] {
            return false;
        }
        i += 1;
    }
    assert(a@ =~= b@);
    true
}

/// Whether a text holds exactly the characters of a string.
pub fn is_word(a: &[char], word: &str) -> (r: bool)
    ensures
        r == (a@ == word@),
{
    let w = chars_of(word);
    same_text(a, w.as_slice())
}

/// The first index at or after `from` that holds `c`, or the length.
pub fn index_of(s: &[char], c: char, from: usize) -> (r: usize)
    requires
        from <= s.len(),
    ensures
        r == find_char(s@, c, from as int),
        from <= r <= s.len(),
{
    let mut i: usize = from;
    while i < s.len() && s[i] != c
        invariant
            from <= i <= s.len(),
            find_char(s@, c, from as int) == find_char(s@, c, i as int),
        decreases s.len() - i,
    {
        i += 1;
    }
    i
}

/// The last index before `to` that holds `c`, if there is one.
pub fn last_index_of(s: &[char], c: char, to: usize) -> (r: Option<usize>)
    requires
        to <= s.len(),
    ensures
        match r {
            Some(i) => i == rfind_char(s@, c, to as int) && i < to,
            None => rfind_char(s@, c, to as int) == -1,
        },
{
    let mut i: usize = to;
    while i > 0 && s[i - 1] != c
        invariant
            i <= to <= s.len(),
            rfind_char(s@, c, to as int) == rfind_char(s@, c, i as int),
        decreases i,
    {
        i -= 1;
    }
    if i == 0 {
        None
    } else {
        Some(i - 1)
    }
}

/// The pieces of `s` between the occurrences of `sep`.
pub fn split_text(s: &[char], sep: char) -> (out: Vec<Vec<char>>)
    ensures
        views(out@) == split(s@, sep),
{
    let mut out: Vec<Vec<char>> = Vec::new();
    let mut pos: usize = 0;
    loop
        invariant
            pos <= s.len(),
            split(s@, sep) == views(out@) + split_from(s@, sep, pos as int),
        decreases s.len() - pos,
    {
        let e = index_of(s, sep, pos);
        let piece = copy_range(s, pos, e);
        let ghost before = views(out@);
        out.push(piece);
        assert(views(out@) =~= before + seq![s@.subrange(pos as int, e as int)]);
        if e >= s.len() {
            assert(split(s@, sep) =~= views(out@));
            return out;
        }
        assert(split(s@, sep) =~= views(out@) + split_from(s@, sep, e + 1));
        pos = e + 1;
    }
}

/// `s` without the blank characters at its two ends.
pub fn trimmed(s: &[char]) -> (out: &[char])
    ensures
        out@ == trim(s@),
{
    let mut a: usize = 0;
    while a < s.len() && space(s[a])
        invariant
            a <= s.len(),
            skip_space(s@, 0) == skip_space(s@, a as int),
        decreases s.len() - a,
    {
        a += 1;
    }
    let mut b: usize = s.len();
    while b > 0 && space(s[b - 1])
        invariant
            b <= s.len(),
            skip_space_back(s@, s.len() as int) == skip_space_back(s@, b as int),
        decreases b,
    {
        b -= 1;
    }
    if a < b {
        slice_subrange(s, a, b)
    } else {
        let e = slice_subrange(s, 0, 0);
        assert(e@ =~= Seq::<char>::empty());
        e
    }
}

/// The string that holds the characters of `s`.
pub fn string_of(s: &[char]) -> (out: String)
    ensures
        out@ == s@,
{
    let out = string_with_prefix("", s);
    proof {
        reveal_strlit("");
    }
    assert(out@ =~= s@);
    out
}

/// The string that holds the characters of `prefix` and then those of `s`.
pub fn string_with_prefix(prefix: &str, s: &[char]) -> (out: String)
    ensures
        out@ == prefix@ + s@,
{
    let mut out = prefix.to_owned();
    let mut i: usize = 0;
    while i < s.len()
        invariant
            i <= s.len(),
            out@ == prefix@ + s@.subrange(0, i as int),
        decreases s.len() - i,
    {
        out.push(s[i]);
        assert(out@ =~= prefix@ + s@.subrange(0, i + 1));
        i += 1;
    }
    assert(out@ =~= prefix@ + s@);
    out
}

/// Whether no text of `a` is a text of `b`.
pub fn disjoint_texts(a: &Vec<Vec<char>>, b: &Vec<Vec<char>>) -> (r: bool)
    ensures
        r == texts_disjoint(views(a@), views(b@)),
{
    let mut i: usize = 0;
    while i < a.len()
        invariant
            i <= a.len(),
            forall|x: int, y: int|
                #![trigger views(a@)[x], views(b@)[y]]
                0 <= x < i && 0 <= y < b.len() ==> views(a@)[x] != views(b@)[y],
        decreases a.len() - i,
    {
        let mut j: usize = 0;
        while j < b.len()
            invariant
                i < a.len(),
                j <= b.len(),
                forall|y: int| 0 <= y < j ==> views(a@)[i as int] != #[trigger] views(b@)[y],
            decreases b.len() - j,
        {
            if same_text(a[i].as_slice(), b[j].as_slice()) {
                assert(views(a@)[i as int] == views(b@)[j as int]);
                return false;
            }
            j += 1;
        }
        i += 1;
    }
    true
}

} // verus!
