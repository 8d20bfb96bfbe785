//! Plain patterns: literal text with wildcards, separators and anchors.
//!
//! A plain pattern is a list of tokens. It matches an address when its tokens
//! cover, one after the other, a stretch of the address that begins and ends
//! where the rule's anchor allows.

use vstd::prelude::*;
use crate::text::{alnum, is_alnum};

verus! {

/// One element of a plain pattern.
#[derive(Clone, Copy, PartialEq, Eq, Debug, Structural)]
pub enum Tok {
    /// Exactly this character.
    Lit(char),
    /// `*`: any stretch of characters, the empty one too.
    Any,
    /// `^`: one separator character, or the end of the address.
    Sep,
}

/// Where a pattern must lie in the address.
#[derive(Clone, Copy, PartialEq, Eq, Debug, Structural)]
pub enum Anchor {
    /// Anywhere in the address.
    Anywhere,
    /// At the very beginning of the address.
    Start,
    /// Up to the very end of the address.
    End,
    /// At the beginning of the host name, or of one of its labels.
    Hostname,
}

/// A separator is any character but a letter, a digit, `_`, `-`, `.` and `%`.
pub open spec fn is_separator(c: char) -> bool {
    !is_alnum(c) && c != '_' && c != '-' && c != '.' && c != '%'
}

/// The first `i` tokens cover the address exactly from `start` up to `j`.
/// A wildcard covers nothing, or one character more than it covered before.
pub open spec fn reach(toks: Seq<Tok>, url: Seq<char>, start: int, i: int, j: int) -> bool
    decreases i, j - start,
{
    if i <= 0 {
        j == start
    } else if i > toks.len() || j < start || j > url.len() {
        false
    } else {
        match toks[i - 1] {
            Tok::Lit(c) => j > start && url[j - 1] == c && reach(toks, url, start, i - 1, j - 1),
            Tok::Sep => (j > start && is_separator(url[j - 1]) && reach(
                toks,
                url,
                start,
                i - 1,
                j - 1,
            )) || (j == url.len() && reach(toks, url, start, i - 1, j)),
            Tok::Any => reach(toks, url, start, i - 1, j) || (j > start && reach(
                toks,
                url,
                start,
                i,
                j - 1,
            )),
        }
    }
}

/// Whether a match may begin at index `s` of an address whose host name
/// lies from `hs` up to `he`.
pub open spec fn start_allowed(anchor: Anchor, url: Seq<char>, hs: int, he: int, s: int) -> bool {
    0 <= s <= url.len() && match anchor {
        Anchor::Start => s == 0,
        Anchor::Hostname => hs <= s < he && (s == hs || url[s - 1] == '.'),
        _ => true,
    }
}

/// Whether a match may end at index `e` of the address.
pub open spec fn end_allowed(anchor: Anchor, url: Seq<char>, e: int) -> bool {
    anchor == Anchor::End ==> e == url.len()
}

/// The pattern matches the address: its tokens cover a stretch that begins
/// and ends where the anchor allows.
pub open spec fn plain_matches(anchor: Anchor, toks: Seq<Tok>, url: Seq<char>, hs: int, he: int) -> bool {
    exists|s: int, e: int|
        start_allowed(anchor, url, hs, he, s) && end_allowed(anchor, url, e) && #[trigger] reach(
            toks,
            url,
            s,
            toks.len() as int,
            e,
        )
}

/// The first `i` tokens cover a stretch that ends at `j` and begins where the anchor allows.
pub open spec fn layer(anchor: Anchor, toks: Seq<Tok>, url: Seq<char>, hs: int, he: int, i: int, j: int) -> bool {
    exists|s: int| start_allowed(anchor, url, hs, he, s) && #[trigger] reach(toks, url, s, i, j)
}

/// What the tokens cover lies inside the address, behind its beginning.
pub proof fn lemma_reach_bounds(toks: Seq<Tok>, url: Seq<char>, s: int, i: int, j: int)
    requires
        reach(toks, url, s, i, j),
        0 <= s <= url.len(),
    ensures
        s <= j <= url.len(),
{
}

proof fn lemma_layer_zero(anchor: Anchor, toks: Seq<Tok>, url: Seq<char>, hs: int, he: int, j: int)
    ensures
        layer(anchor, toks, url, hs, he, 0, j) == start_allowed(anchor, url, hs, he, j),
{
    if start_allowed(anchor, url, hs, he, j) {
        assert(reach(toks, url, j, 0, j));
    }
}

proof fn lemma_layer_step(anchor: Anchor, toks: Seq<Tok>, url: Seq<char>, hs: int, he: int, i: int, j: int)
    requires
        0 <= i < toks.len(),
        0 <= j <= url.len(),
    ensures
        layer(anchor, toks, url, hs, he, i + 1, j) == match toks[i] {
            Tok::Lit(c) => j >= 1 && url[j - 1] == c && layer(anchor, toks, url, hs, he, i, j - 1),
            Tok::Sep => (j >= 1 && is_separator(url[j - 1]) && layer(anchor, toks, url, hs, he, i, j - 1))
                || (j == url.len() && layer(anchor, toks, url, hs, he, i, j)),
            Tok::Any => layer(anchor, toks, url, hs, he, i, j) || (j >= 1 && layer(
                anchor,
                toks,
                url,
                hs,
                he,
                i + 1,
                j - 1,
            )),
        },
{
    let lhs = layer(anchor, toks, url, hs, he, i + 1, j);
    if lhs {
        let s = choose|s: int| start_allowed(anchor, url, hs, he, s) && #[trigger] reach(toks, url, s, i + 1, j);
        match toks[i] {
            Tok::Lit(c) => {
                assert(reach(toks, url, s, i, j - 1));
            },
            Tok::Sep => {
                if j > s && is_separator(url[j - 1]) && reach(toks, url, s, i, j - 1) {
                } else {
                    assert(reach(toks, url, s, i, j));
                }
            },
            Tok::Any => {
                if reach(toks, url, s, i, j) {
                } else {
                    assert(reach(toks, url, s, i + 1, j - 1));
                }
            },
        }
    }
    match toks[i] {
        Tok::Lit(c) => {
            if j >= 1 && url[j - 1] == c && layer(anchor, toks, url, hs, he, i, j - 1) {
                let s = choose|s: int| start_allowed(anchor, url, hs, he, s) && #[trigger] reach(toks, url, s, i, j - 1);
                lemma_reach_bounds(toks, url, s, i, j - 1);
                assert(reach(toks, url, s, i + 1, j));
            }
        },
        Tok::Sep => {
            if j >= 1 && is_separator(url[j - 1]) && layer(anchor, toks, url, hs, he, i, j - 1) {
                let s = choose|s: int| start_allowed(anchor, url, hs, he, s) && #[trigger] reach(toks, url, s, i, j - 1);
                lemma_reach_bounds(toks, url, s, i, j - 1);
                assert(reach(toks, url, s, i + 1, j));
            }
            if j == url.len() && layer(anchor, toks, url, hs, he, i, j) {
                let s = choose|s: int| start_allowed(anchor, url, hs, he, s) && #[trigger] reach(toks, url, s, i, j);
                lemma_reach_bounds(toks, url, s, i, j);
                assert(reach(toks, url, s, i + 1, j));
            }
        },
        Tok::Any => {
            if layer(anchor, toks, url, hs, he, i, j) {
                let s = choose|s: int| start_allowed(anchor, url, hs, he, s) && #[trigger] reach(toks, url, s, i, j);
                lemma_reach_bounds(toks, url, s, i, j);
                assert(reach(toks, url, s, i + 1, j));
            }
            if j >= 1 && layer(anchor, toks, url, hs, he, i + 1, j - 1) {
                let s = choose|s: int| start_allowed(anchor, url, hs, he, s) && #[trigger] reach(toks, url, s, i + 1, j - 1);
                lemma_reach_bounds(toks, url, s, i + 1, j - 1);
                assert(reach(toks, url, s, i + 1, j));
            }
        },
    }
}

proof fn lemma_layer_last(anchor: Anchor, toks: Seq<Tok>, url: Seq<char>, hs: int, he: int)
    ensures
        plain_matches(anchor, toks, url, hs, he) == (exists|e: int|
            0 <= e <= url.len() && end_allowed(anchor, url, e) && #[trigger] layer(
                anchor,
                toks,
                url,
                hs,
                he,
                toks.len() as int,
                e,
            )),
{
    let n = toks.len() as int;
    if plain_matches(anchor, toks, url, hs, he) {
        let (s, e) = choose|s: int, e: int|
            start_allowed(anchor, url, hs, he, s) && end_allowed(anchor, url, e) && #[trigger] reach(toks, url, s, n, e);
        lemma_reach_bounds(toks, url, s, n, e);
        assert(layer(anchor, toks, url, hs, he, n, e));
    }
    if exists|e: int| 0 <= e <= url.len() && end_allowed(anchor, url, e) && #[trigger] layer(anchor, toks, url, hs, he, n, e) {
        let e = choose|e: int| 0 <= e <= url.len() && end_allowed(anchor, url, e) && #[trigger] layer(anchor, toks, url, hs, he, n, e);
        let s = choose|s: int| start_allowed(anchor, url, hs, he, s) && #[trigger] reach(toks, url, s, n, e);
        assert(reach(toks, url, s, n, e));
    }
}

/// Whether a character is a separator.
pub fn separator(c: char) -> (r: bool)
    ensures
        r == is_separator(c),
{
    !alnum(c) && c != '_' && c != '-' && c != '.' && c != '%'
}

fn start_ok(anchor: Anchor, url: &[char], hs: usize, he: usize, s: usize) -> (r: bool)
    requires
        s <= url.len(),
    ensures
        r == start_allowed(anchor, url@, hs as int, he as int, s as int),
{
    match anchor {
        Anchor::Start => s == 0,
        Anchor::Hostname => hs <= s && s < he && (s == hs || url[s - 1] == '.'),
        _ => true,
    }
}

/// Applies token `i` to the ends reached by the tokens before it. The ends
/// before the last index are held in `cur`, the last one in `end`.
fn advance(
    toks: &[Tok],
    i: usize,
    url: &[char],
    cur: &Vec<bool>,
    end: bool,
    next: &mut Vec<bool>,
    Ghost(anchor): Ghost<Anchor>,
    Ghost(hs): Ghost<int>,
    Ghost(he): Ghost<int>,
) -> (new_end: bool)
    requires
        i < toks.len(),
        cur.len() == url.len(),
        forall|k: int| 0 <= k <= url.len() ==> #[trigger] cur@.push(end)[k] == layer(anchor, toks@, url@, hs, he, i as int, k),
    ensures
        final(next).len() == url.len(),
        forall|k: int| 0 <= k <= url.len() ==> #[trigger] final(next)@.push(new_end)[k] == layer(anchor, toks@, url@, hs, he, i + 1, k),
{
    let n = url.len();
    let tok = toks[i];
    let ghost prev = cur@.push(end);
    next.clear();
    let mut last = false;
    let mut j: usize = 0;
    while j < n
        invariant
            j <= n,
            n == url.len(),
            cur.len() == n,
            i < toks.len(),
            tok == toks@[i as int],
            prev == cur@.push(end),
            forall|k: int| 0 <= k <= n ==> #[trigger] prev[k] == layer(anchor, toks@, url@, hs, he, i as int, k),
            next.len() == j,
            forall|k: int| 0 <= k < j ==> #[trigger] next@[k] == layer(anchor, toks@, url@, hs, he, i + 1, k),
            j >= 1 ==> last == next@[j - 1],
        decreases n - j,
    {
        proof {
            lemma_layer_step(anchor, toks@, url@, hs, he, i as int, j as int);
            assert(prev[j as int] == cur@[j as int]);
            if j >= 1 {
                assert(prev[j - 1] == cur@[j - 1]);
            }
        }
        let v = match tok {
            Tok::Lit(c) => j >= 1 && url[j - 1] == c && cur[j - 1],
            Tok::Sep => j >= 1 && separator(url[j - 1]) && cur[j - 1],
            Tok::Any => cur[j] || (j >= 1 && last),
        };
        next.push(v);
        last = v;
        j += 1;
    }
    proof {
        lemma_layer_step(anchor, toks@, url@, hs, he, i as int, n as int);
        assert(prev[n as int] == end);
        if n >= 1 {
            assert(prev[n - 1] == cur@[n - 1]);
        }
    }
    let new_end = match tok {
        Tok::Lit(c) => n >= 1 && url[n - 1] == c && cur[n - 1],
        Tok::Sep => (n >= 1 && separator(url[n - 1]) && cur[n - 1]) || end,
        Tok::Any => end || (n >= 1 && last),
    };
    new_end
}

/// Whether a plain pattern matches an address whose host name lies from
/// `hs` up to `he`.
pub fn matches_plain(anchor: Anchor, toks: &[Tok], url: &[char], hs: usize, he: usize) -> (r: bool)
    ensures
        r == plain_matches(anchor, toks@, url@, hs as int, he as int),
{
    let n = url.len();
    let mut cur: Vec<bool> = Vec::new();
    let mut j: usize = 0;
    while j < n
        invariant
            j <= n,
            n == url.len(),
            cur.len() == j,
            forall|k: int| 0 <= k < j ==> #[trigger] cur@[k] == start_allowed(anchor, url@, hs as int, he as int, k),
        decreases n - j,
    {
        cur.push(start_ok(anchor, url, hs, he, j));
        j += 1;
    }
    let mut end = start_ok(anchor, url, hs, he, n);
    let mut next: Vec<bool> = Vec::new();
    let mut i: usize = 0;
    proof {
        assert forall|k: int| 0 <= k <= n implies #[trigger] cur@.push(end)[k] == layer(anchor, toks@, url@, hs as int, he as int, 0, k) by {
            lemma_layer_zero(anchor, toks@, url@, hs as int, he as int, k);
        }
    }
    while i < toks.len()
        invariant
            i <= toks.len(),
            n == url.len(),
            cur.len() == n,
            forall|k: int| 0 <= k <= n ==> #[trigger] cur@.push(end)[k] == layer(anchor, toks@, url@, hs as int, he as int, i as int, k),
        decreases toks.len() - i,
    {
        let new_end = advance(toks, i, url, &cur, end, &mut next, Ghost(anchor), Ghost(hs as int), Ghost(he as int));
        core::mem::swap(&mut cur, &mut next);
        end = new_end;
        i += 1;
    }
    let ghost last = cur@.push(end);
    let mut found = end;
    if anchor != Anchor::End {
        let mut j: usize = 0;
        while j < n
            invariant
                j <= n,
                cur.len() == n,
                last == cur@.push(end),
                found == (end || exists|k: int| 0 <= k < j && #[trigger] last[k]),
            decreases n - j,
        {
            let ghost before = found;
            found = found || cur[j];
            assert(found == (end || exists|k: int| 0 <= k <= j && #[trigger] last[k])) by {
                if before && !end {
                    let k = choose|k: int| 0 <= k < j && #[trigger] last[k];
                    assert(0 <= k <= j && last[k]);
                }
                if cur[j as int] {
                    assert(last[j as int]);
                }
            }
            j += 1;
        }
    }
    proof {
        lemma_layer_last(anchor, toks@, url@, hs as int, he as int);
        let m = toks@.len() as int;
        if found {
            if anchor == Anchor::End || end {
                assert(last[n as int]);
                assert(layer(anchor, toks@, url@, hs as int, he as int, m, n as int));
            } else {
                let k = choose|k: int| 0 <= k < n && #[trigger] last[k];
                assert(layer(anchor, toks@, url@, hs as int, he as int, m, k));
            }
        }
        if plain_matches(anchor, toks@, url@, hs as int, he as int) {
            let e = choose|e: int| 0 <= e <= n && end_allowed(anchor, url@, e) && #[trigger] layer(anchor, toks@, url@, hs as int, he as int, m, e);
            assert(last[e]);
        }
    }
    found
}

} // verus!
