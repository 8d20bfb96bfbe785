//! The shape of an address, and where its host name lies.
//!
//! An address has the shape `scheme://[userinfo@]host[:port][/path][?query][#fragment]`.
//! Only the scheme and the host are examined. An address without either is
//! malformed, and so is one whose host holds anything but letters, digits,
//! `-`, `.` and `_`.

use vstd::prelude::*;
use crate::text::{alnum, find_char, index_of, is_alnum, is_letter, last_index_of, lemma_find_char, rfind_char};

verus! {

/// The characters of a scheme: letters, digits, `+`, `-` and `.`.
pub open spec fn is_scheme_char(c: char) -> bool {
    is_alnum(c) || c == '+' || c == '-' || c == '.'
}

/// The characters of a host name: letters, digits, `-`, `.` and `_`.
pub open spec fn is_host_char(c: char) -> bool {
    is_alnum(c) || c == '-' || c == '.' || c == '_'
}

/// The characters that end the authority part of an address.
pub open spec fn ends_authority(c: char) -> bool {
    c == '/' || c == '?' || c == '#'
}

/// Every character from `from` up to `to` is one of a scheme.
pub open spec fn all_scheme_chars(u: Seq<char>, from: int, to: int) -> bool {
    forall|k: int| from <= k < to ==> is_scheme_char(#[trigger] u[k])
}

/// Every character from `from` up to `to` is one of a host name.
pub open spec fn all_host_chars(u: Seq<char>, from: int, to: int) -> bool {
    forall|k: int| from <= k < to ==> is_host_char(#[trigger] u[k])
}

/// The length of the scheme: the index of the first colon.
pub open spec fn scheme_len(u: Seq<char>) -> int {
    find_char(u, ':', 0)
}

/// The first index at or after `from` that ends the authority; the length
/// where nothing ends it.
pub open spec fn authority_end(u: Seq<char>, from: int) -> int
    decreases u.len() - from,
{
    if from < 0 || from >= u.len() {
        u.len() as int
    } else if ends_authority(u[from]) {
        from
    } else {
        authority_end(u, from + 1)
    }
}

/// Where the host name begins: behind `://`, and behind the last `@` of the
/// authority where it has one.
pub open spec fn host_start(u: Seq<char>) -> int {
    let a = scheme_len(u) + 3;
    let at = rfind_char(u, '@', authority_end(u, a));
    if at >= a {
        at + 1
    } else {
        a
    }
}

/// Where the host name ends: at the first colon behind its beginning, or
/// at the end of the authority.
pub open spec fn host_end(u: Seq<char>) -> int {
    let e = authority_end(u, scheme_len(u) + 3);
    let c = find_char(u, ':', host_start(u));
    if c < e {
        c
    } else {
        e
    }
}

/// The address has a scheme, `://` behind it, and a host name that is not empty.
pub open spec fn url_shape_ok(u: Seq<char>) -> bool {
    let n = scheme_len(u);
    &&& n >= 1
    &&& n + 3 <= u.len()
    &&& is_letter(u[0])
    &&& all_scheme_chars(u, 0, n)
    &&& u[n + 1] == '/'
    &&& u[n + 2] == '/'
    &&& host_start(u) < host_end(u)
    &&& all_host_chars(u, host_start(u), host_end(u))
}

/// The host name of a well-shaped address.
pub open spec fn host_of(u: Seq<char>) -> Seq<char> {
    u.subrange(host_start(u), host_end(u))
}

/// The authority ends at or after `from`, inside the address.
pub proof fn lemma_authority_end(u: Seq<char>, from: int)
    requires
        0 <= from <= u.len(),
    ensures
        from <= authority_end(u, from) <= u.len(),
    decreases u.len() - from,
{
    if from < u.len() && !ends_authority(u[from]) {
        lemma_authority_end(u, from + 1);
    }
}

/// In a well-shaped address the host name lies inside the address.
pub proof fn lemma_host_range(u: Seq<char>)
    requires
        url_shape_ok(u),
    ensures
        0 <= host_start(u) < host_end(u) <= u.len(),
{
    let a = scheme_len(u) + 3;
    lemma_find_char(u, ':', 0);
    lemma_authority_end(u, a);
}

fn scheme_char(c: char) -> (r: bool)
    ensures
        r == is_scheme_char(c),
{
    alnum(c) || c == '+' || c == '-' || c == '.'
}

fn host_char(c: char) -> (r: bool)
    ensures
        r == is_host_char(c),
{
    alnum(c) || c == '-' || c == '.' || c == '_'
}

fn letter(c: char) -> (r: bool)
    ensures
        r == is_letter(c),
{
    (c >= 'a' && c <= 'z') || (c >= 'A' && c <= 'Z')
}

fn find_authority_end(u: &[char], from: usize) -> (r: usize)
    requires
        from <= u.len(),
    ensures
        r == authority_end(u@, from as int),
        from <= r <= u.len(),
{
    let mut i: usize = from;
    while i < u.len() && !(u[i] == '/' || u[i] == '?' || u[i] == '#')
        invariant
            from <= i <= u.len(),
            authority_end(u@, from as int) == authority_end(u@, i as int),
        decreases u.len() - i,
    {
        i += 1;
    }
    i
}

fn scheme_chars_only(u: &[char], to: usize) -> (r: bool)
    requires
        to <= u.len(),
    ensures
        r == all_scheme_chars(u@, 0, to as int),
{
    let mut i: usize = 0;
    while i < to
        invariant
            i <= to <= u.len(),
            all_scheme_chars(u@, 0, i as int),
        decreases to - i,
    {
        if !scheme_char(u[i]) {
            return false;
        }
        i += 1;
    }
    true
}

/// Whether every character from `from` up to `to` is one of a host name.
pub fn host_chars_only(u: &[char], from: usize, to: usize) -> (r: bool)
    requires
        from <= to <= u.len(),
    ensures
        r == all_host_chars(u@, from as int, to as int),
{
    let mut i: usize = from;
    while i < to
        invariant
            from <= i <= to <= u.len(),
            all_host_chars(u@, from as int, i as int),
        decreases to - i,
    {
        if !host_char(u[i]) {
            return false;
        }
        i += 1;
    }
    true
}

/// Examines the shape of an address and finds its host name: the indices
/// at which the host name begins and ends, or nothing for a malformed address.
pub fn locate_host(u: &[char]) -> (r: Option<(usize, usize)>)
    ensures
        match r {
            Some((hs, he)) => url_shape_ok(u@) && hs == host_start(u@) && he == host_end(u@) && hs
                < he <= u.len(),
            None => !url_shape_ok(u@),
        },
{
    let n = index_of(u, ':', 0);
    if n < 1 || u.len() - n < 3 {
        return None;
    }
    if !letter(u[0]) || !scheme_chars_only(u, n) || u[n + 1] != '/' || u[n + 2] != '/' {
        return None;
    }
    let a = n + 3;
    let e = find_authority_end(u, a);
    let hs = match last_index_of(u, '@', e) {
        Some(at) => if at >= a {
            at + 1
        } else {
            a
        },
        None => a,
    };
    let c = index_of(u, ':', hs);
    let he = if c < e {
        c
    } else {
        e
    };
    if hs < he && host_chars_only(u, hs, he) {
        Some((hs, he))
    } else {
        None
    }
}

} // verus!
