//! The index of a rule set: which rules need to be looked at for an address.
//!
//! A plain pattern that holds four literal characters in a row can only match
//! an address that holds the same four characters in a row. The index keeps
//! such a rule in a bucket under the key of one such run of its pattern; a
//! rule without one is kept in a bucket of its own kind that every query
//! looks at. A query collects the buckets under the keys of all runs of four
//! characters of the address.

use std::collections::HashMap;
use vstd::prelude::*;
use crate::pattern::{lemma_reach_bounds, plain_matches, reach, start_allowed, Anchor, Tok};
use crate::request::Request;
use crate::rule::{FilterRule, Pattern, PatternView, RuleView};

verus! {

broadcast use vstd::std_specs::hash::group_hash_axioms;

/// The key of four characters in a row.
pub open spec fn gram_key(a: char, b: char, c: char, d: char) -> u64 {
    (((a as u64 * 31 + b as u64) * 31 + c as u64) * 31 + d as u64) as u64
}

/// The character of a literal token.
pub open spec fn lit_char(t: Tok) -> char {
    match t {
        Tok::Lit(c) => c,
        _ => ' ',
    }
}

/// Four literal tokens stand in a row at index `p`.
pub open spec fn gram_at(toks: Seq<Tok>, p: int) -> bool {
    0 <= p && p + 4 <= toks.len() && toks[p] is Lit && toks[p + 1] is Lit && toks[p + 2] is Lit && toks[p + 3] is Lit
}

/// The key of the four literal tokens at index `p`.
pub open spec fn tok_key(toks: Seq<Tok>, p: int) -> u64 {
    gram_key(lit_char(toks[p]), lit_char(toks[p + 1]), lit_char(toks[p + 2]), lit_char(toks[p + 3]))
}

/// The key of the four characters of the address at index `q`.
pub open spec fn url_key(url: Seq<char>, q: int) -> u64 {
    gram_key(url[q], url[q + 1], url[q + 2], url[q + 3])
}

/// Four characters in a row of the address have this key.
pub open spec fn url_has_key(url: Seq<char>, key: u64) -> bool {
    exists|q: int| 0 <= q && q + 4 <= url.len() && #[trigger] url_key(url, q) == key
}

/// The tokens of a plain pattern; none for a regular expression.
pub open spec fn plain_tokens(rule: RuleView) -> Seq<Tok> {
    match rule.pattern {
        PatternView::Plain(toks) => toks,
        PatternView::Regex(_) => Seq::empty(),
    }
}

/// What a list of rules says.
pub open spec fn rule_views(rules: Seq<FilterRule>) -> Seq<RuleView> {
    Seq::new(rules.len(), |i: int| rules[i]@)
}

proof fn lemma_reach_gram(toks: Seq<Tok>, url: Seq<char>, s: int, i: int, j: int, p: int)
    requires
        gram_at(toks, p),
        p + 4 <= i <= toks.len(),
        0 <= s <= url.len(),
        reach(toks, url, s, i, j),
    ensures
        url_has_key(url, tok_key(toks, p)),
    decreases i, j - s,
{
    lemma_reach_bounds(toks, url, s, i, j);
    if i == p + 4 {
        assert(reach(toks, url, s, i - 1, j - 1));
        assert(reach(toks, url, s, i - 2, j - 2));
        assert(reach(toks, url, s, i - 3, j - 3));
        assert(reach(toks, url, s, i - 4, j - 4));
        lemma_reach_bounds(toks, url, s, i - 4, j - 4);
        assert(url_key(url, j - 4) == tok_key(toks, p));
    } else {
        match toks[i - 1] {
            Tok::Lit(c) => {
                lemma_reach_gram(toks, url, s, i - 1, j - 1, p);
            },
            Tok::Sep => {
                if j > s && reach(toks, url, s, i - 1, j - 1) {
                    lemma_reach_gram(toks, url, s, i - 1, j - 1, p);
                } else {
                    lemma_reach_gram(toks, url, s, i - 1, j, p);
                }
            },
            Tok::Any => {
                if reach(toks, url, s, i - 1, j) {
                    lemma_reach_gram(toks, url, s, i - 1, j, p);
                } else {
                    lemma_reach_gram(toks, url, s, i, j - 1, p);
                }
            },
        }
    }
}

/// An address that a plain pattern matches holds every run of four literal
/// characters of the pattern.
pub proof fn lemma_match_has_gram(anchor: Anchor, toks: Seq<Tok>, url: Seq<char>, hs: int, he: int, p: int)
    requires
        gram_at(toks, p),
        plain_matches(anchor, toks, url, hs, he),
    ensures
        url_has_key(url, tok_key(toks, p)),
{
    let (s, e) = choose|s: int, e: int|
        start_allowed(anchor, url, hs, he, s) && crate::pattern::end_allowed(anchor, url, e) && #[trigger] reach(
            toks,
            url,
            s,
            toks.len() as int,
            e,
        );
    lemma_reach_gram(toks, url, s, toks.len() as int, e, p);
}

proof fn lemma_concat_contains(a: Seq<usize>, b: Seq<usize>)
    ensures
        forall|x: usize| a.contains(x) || b.contains(x) ==> #[trigger] (a + b).contains(x),
{
    assert forall|x: usize| a.contains(x) || b.contains(x) implies #[trigger] (a + b).contains(x) by {
        if a.contains(x) {
            let i = choose|i: int| 0 <= i < a.len() && a[i] == x;
            assert((a + b)[i] == x);
        } else {
            let i = choose|i: int| 0 <= i < b.len() && b[i] == x;
            assert((a + b)[a.len() + i] == x);
        }
    }
}

/// Every index of the list is below `n`.
pub open spec fn all_below(s: Seq<usize>, n: int) -> bool {
    forall|k: int| 0 <= k < s.len() ==> #[trigger] s[k] < n
}

fn key_of(a: char, b: char, c: char, d: char) -> (k: u64)
    ensures
        k == gram_key(a, b, c, d),
{
    (((a as u64) * 31 + (b as u64)) * 31 + (c as u64)) * 31 + (d as u64)
}

fn lit_of(t: Tok) -> (r: Option<char>)
    ensures
        r is Some == t is Lit,
        r is Some ==> r->0 == lit_char(t),
{
    match t {
        Tok::Lit(c) => Some(c),
        _ => None,
    }
}

/// The key of the four tokens at `p`, where all four are literal.
fn gram_key_at(toks: &[Tok], p: usize) -> (r: Option<u64>)
    requires
        p + 4 <= toks.len(),
    ensures
        r is Some == gram_at(toks@, p as int),
        r is Some ==> r->0 == tok_key(toks@, p as int),
{
    match (lit_of(toks[p]), lit_of(toks[p + 1]), lit_of(toks[p + 2]), lit_of(toks[p + 3])) {
        (Some(a), Some(b), Some(c), Some(d)) => Some(key_of(a, b, c, d)),
        _ => None,
    }
}

/// The buckets of the index, by key.
struct Buckets {
    map: HashMap<u64, Vec<usize>>,
}

impl Buckets {
    spec fn view(self) -> Map<u64, Vec<usize>> {
        self.map@
    }

    fn new() -> (r: Buckets)
        ensures
            r.view() == Map::<u64, Vec<usize>>::empty(),
    {
        Buckets { map: HashMap::new() }
    }

    fn lookup(&self, key: u64) -> (r: Option<&Vec<usize>>)
        ensures
            match r {
                Some(b) => self.view().contains_key(key) && self.view()[key] == *b,
                None => !self.view().contains_key(key),
            },
    {
        self.map.get(&key)
    }

    fn add(&mut self, key: u64, index: usize)
        ensures
            final(self).view().dom() == old(self).view().dom().insert(key),
            forall|k: u64| k != key && old(self).view().contains_key(k) ==> final(self).view()[k] == old(self).view()[k],
            final(self).view()[key]@ == (if old(self).view().contains_key(key) {
                old(self).view()[key]@
            } else {
                Seq::<usize>::empty()
            }).push(index),
    {
        let ghost before = self.map@;
        let mut bucket = match self.map.remove(&key) {
            Some(b) => b,
            None => Vec::new(),
        };
        bucket.push(index);
        self.map.insert(key, bucket);
        assert(self.map@.dom() =~= before.dom().insert(key));
    }
}

/// Picks the run of four literal tokens whose bucket is the smallest so
/// far; nothing where the pattern holds no such run.
fn pick_gram(toks: &[Tok], buckets: &Buckets) -> (r: Option<(usize, u64)>)
    ensures
        match r {
            Some((p, key)) => gram_at(toks@, p as int) && key == tok_key(toks@, p as int),
            None => forall|p: int| !gram_at(toks@, p),
        },
{
    let n = toks.len();
    let mut best: Option<(usize, u64)> = None;
    let mut best_size: usize = 0;
    let mut p: usize = 0;
    while n - p >= 4
        invariant
            p <= n,
            n == toks.len(),
            match best {
                Some((b, key)) => gram_at(toks@, b as int) && key == tok_key(toks@, b as int),
                None => forall|k: int| 0 <= k < p ==> !gram_at(toks@, k),
            },
        decreases n - p,
    {
        match gram_key_at(toks, p) {
            Some(key) => {
                let size = match buckets.lookup(key) {
                    Some(b) => b.len(),
                    None => 0,
                };
                if best.is_none() || size < best_size {
                    best = Some((p, key));
                    best_size = size;
                }
            },
            None => {},
        }
        p += 1;
    }
    best
}

/// The pattern is plain and holds four literal tokens in a row.
pub open spec fn has_gram(rule: RuleView) -> bool {
    rule.pattern is Plain && exists|p: int| gram_at(plain_tokens(rule), p)
}

/// A rule set, indexed for matching. It owns its rules and does not
/// change once it is built.
pub struct FilterIndex {
    rules: Vec<FilterRule>,
    buckets: Buckets,
    fallback: Vec<usize>,
    slots: Ghost<Seq<Option<int>>>,
}

/// Rule `i` is kept where its slot says: under the key of the run of its
/// pattern at the slot's index, or, having no such run, in the bucket that
/// every query looks at.
spec fn slot_ok(
    rules: Seq<FilterRule>,
    buckets: Map<u64, Vec<usize>>,
    fallback: Seq<usize>,
    slots: Seq<Option<int>>,
    i: int,
) -> bool {
    match slots[i] {
        Some(p) => {
            let toks = plain_tokens(rules[i]@);
            let key = tok_key(toks, p);
            &&& rules[i]@.pattern is Plain
            &&& gram_at(toks, p)
            &&& buckets.contains_key(key)
            &&& buckets[key]@.contains(i as usize)
        },
        None => fallback.contains(i as usize) && !has_gram(rules[i]@),
    }
}

/// Rule `j`, found under `key`, is one of the first `n` rules and is kept under that key.
spec fn entry_ok(rules: Seq<FilterRule>, slots: Seq<Option<int>>, key: u64, j: usize, n: int) -> bool {
    j < n && slots[j as int] is Some && tok_key(plain_tokens(rules[j as int]@), slots[j as int]->0) == key
}

/// The first `n` rules are laid out in the buckets, and nothing else is.
spec fn laid_out(
    rules: Seq<FilterRule>,
    buckets: Map<u64, Vec<usize>>,
    fallback: Seq<usize>,
    slots: Seq<Option<int>>,
    n: int,
) -> bool {
    &&& slots.len() == n
    &&& forall|i: int| 0 <= i < n ==> slot_ok(rules, buckets, fallback, slots, i)
    &&& forall|key: u64, m: int|
        #![trigger buckets[key]@[m]]
        buckets.contains_key(key) && 0 <= m < buckets[key]@.len() ==> entry_ok(rules, slots, key, buckets[key]@[m], n)
    &&& forall|m: int| 0 <= m < fallback.len() ==> #[trigger] fallback[m] < n && slots[fallback[m] as int] is None
}

/// Rule `j` needs to be looked at for the address: it is kept in the
/// common bucket, or the address holds the run under whose key it is kept.
spec fn wanted(rules: Seq<FilterRule>, slots: Seq<Option<int>>, url: Seq<char>, j: usize, n: int) -> bool {
    j < n && match slots[j as int] {
        Some(p) => url_has_key(url, tok_key(plain_tokens(rules[j as int]@), p)),
        None => true,
    }
}

impl View for FilterIndex {
    type V = Seq<RuleView>;

    closed spec fn view(&self) -> Seq<RuleView> {
        rule_views(self.rules@)
    }
}

impl FilterIndex {
    #[verifier::type_invariant]
    spec fn inv(self) -> bool {
        laid_out(self.rules@, self.buckets.view(), self.fallback@, self.slots@, self.rules.len() as int)
    }

    /// Where rule `j` is kept: the index, in its pattern, of the run of
    /// four literal tokens under whose key it is kept; nothing for a rule
    /// in the bucket that every query looks at.
    pub closed spec fn slot(&self, j: int) -> Option<int> {
        self.slots@[j]
    }

    /// The key under which rule `j` is kept.
    pub open spec fn key(&self, j: int) -> Option<u64> {
        match self.slot(j) {
            Some(p) => Some(tok_key(plain_tokens(self@[j]), p)),
            None => None,
        }
    }

    /// Every rule whose pattern holds a run of four literal tokens is kept
    /// under the key of one of them; the others in the bucket that every
    /// query looks at.
    pub open spec fn well_indexed(&self) -> bool {
        forall|j: int|
            0 <= j < self@.len() ==> match #[trigger] self.slot(j) {
                Some(p) => self@[j].pattern is Plain && gram_at(plain_tokens(self@[j]), p),
                None => !has_gram(self@[j]),
            }
    }

    proof fn lemma_well_indexed(self)
        requires
            self.inv(),
        ensures
            self.well_indexed(),
    {
        assert forall|j: int| 0 <= j < self@.len() implies match #[trigger] self.slot(j) {
            Some(p) => self@[j].pattern is Plain && gram_at(plain_tokens(self@[j]), p),
            None => !has_gram(self@[j]),
        } by {
            assert(slot_ok(self.rules@, self.buckets.view(), self.fallback@, self.slots@, j));
        }
    }

    /// Builds the index of a list of rules, in one pass over them.
    pub fn build(rules: Vec<FilterRule>) -> (r: FilterIndex)
        ensures
            r@ == rule_views(rules@),
            r.well_indexed(),
    {
        let mut buckets = Buckets::new();
        let mut fallback: Vec<usize> = Vec::new();
        let ghost mut slots: Seq<Option<int>> = Seq::empty();
        let n = rules.len();
        let mut i: usize = 0;
        while i < n
            invariant
                i <= n,
                n == rules.len(),
                laid_out(rules@, buckets.view(), fallback@, slots, i as int),
            decreases n - i,
        {
            let picked = match rules[i].pattern() {
                Pattern::Plain(toks) => pick_gram(toks.as_slice(), &buckets),
                Pattern::Regex(_) => None,
            };
            let ghost old_buckets = buckets.view();
            let ghost old_fallback = fallback@;
            let ghost old_slots = slots;
            match picked {
                Some((p, key)) => {
                    buckets.add(key, i);
                    proof {
                        slots = slots.push(Some(p as int));
                        let grown = buckets.view()[key]@;
                        assert(grown[grown.len() - 1] == i);
                        assert forall|j: int| 0 <= j < i + 1 implies slot_ok(rules@, buckets.view(), fallback@, slots, j) by {
                            if j < i {
                                assert(slot_ok(rules@, old_buckets, old_fallback, old_slots, j));
                                match old_slots[j] {
                                    Some(pj) => {
                                        let kj = tok_key(plain_tokens(rules@[j]@), pj);
                                        if kj == key {
                                            let m = choose|m: int| 0 <= m < old_buckets[key]@.len() && old_buckets[key]@[m] == j as usize;
                                            assert(grown[m] == j as usize);
                                        }
                                    },
                                    None => {},
                                }
                            }
                        }
                        assert forall|k: u64, m: int|
                            #![trigger buckets.view()[k]@[m]]
                            buckets.view().contains_key(k) && 0 <= m < buckets.view()[k]@.len() implies entry_ok(
                            rules@,
                            slots,
                            k,
                            buckets.view()[k]@[m],
                            i + 1,
                        ) by {
                            if k != key {
                                assert(entry_ok(rules@, old_slots, k, old_buckets[k]@[m], i as int));
                            } else if m < grown.len() - 1 {
                                assert(old_buckets.contains_key(key));
                                assert(entry_ok(rules@, old_slots, k, old_buckets[k]@[m], i as int));
                            }
                        }
                        assert forall|m: int| 0 <= m < fallback@.len() implies #[trigger] fallback@[m] < i + 1
                            && slots[fallback@[m] as int] is None by {
                            assert(old_fallback[m] < i);
                        }
                    }
                },
                None => {
                    fallback.push(i);
                    proof {
                        slots = slots.push(None);
                        assert(fallback@[fallback@.len() - 1] == i);
                        assert forall|j: int| 0 <= j < i + 1 implies slot_ok(rules@, buckets.view(), fallback@, slots, j) by {
                            if j < i {
                                assert(slot_ok(rules@, old_buckets, old_fallback, old_slots, j));
                                if old_slots[j] is None {
                                    let m = choose|m: int| 0 <= m < old_fallback.len() && old_fallback[m] == j as usize;
                                    assert(fallback@[m] == j as usize);
                                }
                            }
                        }
                        assert forall|k: u64, m: int|
                            #![trigger buckets.view()[k]@[m]]
                            buckets.view().contains_key(k) && 0 <= m < buckets.view()[k]@.len() implies entry_ok(
                            rules@,
                            slots,
                            k,
                            buckets.view()[k]@[m],
                            i + 1,
                        ) by {
                            assert(entry_ok(rules@, old_slots, k, old_buckets[k]@[m], i as int));
                        }
                        assert forall|m: int| 0 <= m < fallback@.len() implies #[trigger] fallback@[m] < i + 1
                            && slots[fallback@[m] as int] is None by {
                            if m < old_fallback.len() {
                                assert(old_fallback[m] < i);
                            }
                        }
                    }
                },
            }
            i += 1;
        }
        let index = FilterIndex { rules, buckets, fallback, slots: Ghost(slots) };
        proof {
            index.lemma_well_indexed();
        }
        index
    }

    /// The number of rules.
    pub fn len(&self) -> (r: usize)
        ensures
            r == self@.len(),
    {
        self.rules.len()
    }

    /// The rule at index `i`.
    pub fn rule(&self, i: usize) -> (r: &FilterRule)
        requires
            i < self@.len(),
        ensures
            r@ == self@[i as int],
    {
        &self.rules[i]
    }

    /// The rules that need to be looked at for a request. Among them is
    /// every rule whose pattern matches the requested address. Each of them
    /// is kept in the bucket that every query looks at, or under the key of
    /// four characters in a row of the address.
    pub fn candidates(&self, request: &Request) -> (r: Vec<usize>)
        ensures
            self.well_indexed(),
            all_below(r@, self@.len() as int),
            forall|j: usize| j < self@.len() && (#[trigger] self@[j as int]).pattern_applies(request@) ==> r@.contains(j),
            forall|m: int|
                0 <= m < r.len() ==> match self.key(#[trigger] r@[m] as int) {
                    Some(k) => url_has_key(request@.address(), k),
                    None => true,
                },
    {
        proof {
            use_type_invariant(self);
            self.lemma_well_indexed();
        }
        let url = request.address();
        let n = url.len();
        let ghost count = self.rules.len() as int;
        let mut out: Vec<usize> = Vec::new();
        out.extend_from_slice(self.fallback.as_slice());
        assert(out@ =~= self.fallback@);
        let mut q: usize = 0;
        while n - q >= 4
            invariant
                q <= n,
                n == url.len(),
                count == self.rules.len(),
                laid_out(self.rules@, self.buckets.view(), self.fallback@, self.slots@, count),
                forall|m: int| 0 <= m < out.len() ==> wanted(self.rules@, self.slots@, url@, #[trigger] out@[m], count),
                forall|x: usize| self.fallback@.contains(x) ==> out@.contains(x),
                forall|k: int, x: usize|
                    #![trigger url_key(url@, k), out@.contains(x)]
                    0 <= k < q && self.buckets.view().contains_key(url_key(url@, k)) && self.buckets.view()[url_key(url@, k)]@.contains(x)
                        ==> out@.contains(x),
            decreases n - q,
        {
            let key = key_of(url[q], url[q + 1], url[q + 2], url[q + 3]);
            match self.buckets.lookup(key) {
                Some(bucket) => {
                    let ghost before = out@;
                    out.extend_from_slice(bucket.as_slice());
                    proof {
                        assert(out@ =~= before + bucket@);
                        lemma_concat_contains(before, bucket@);
                        assert(url_key(url@, q as int) == key);
                        assert forall|m: int| 0 <= m < out.len() implies wanted(
                            self.rules@,
                            self.slots@,
                            url@,
                            #[trigger] out@[m],
                            count,
                        ) by {
                            if m >= before.len() {
                                let e = m - before.len();
                                assert(out@[m] == self.buckets.view()[key]@[e]);
                                assert(entry_ok(self.rules@, self.slots@, key, self.buckets.view()[key]@[e], count));
                            } else {
                                assert(out@[m] == before[m]);
                            }
                        }
                    }
                },
                None => {},
            }
            q += 1;
        }
        proof {
            let address = request@.address();
            assert forall|j: usize| j < self@.len() && (#[trigger] self@[j as int]).pattern_applies(request@) implies out@.contains(
                j,
            ) by {
                assert(slot_ok(self.rules@, self.buckets.view(), self.fallback@, self.slots@, j as int));
                match self.slots@[j as int] {
                    Some(p) => {
                        let toks = plain_tokens(self.rules@[j as int]@);
                        lemma_match_has_gram(
                            self@[j as int].anchor,
                            toks,
                            address,
                            request@.host_start(),
                            request@.host_end(),
                            p,
                        );
                        let k = choose|k: int| 0 <= k && k + 4 <= address.len() && #[trigger] url_key(address, k) == tok_key(toks, p);
                        assert(0 <= k < q);
                        assert(self.buckets.view()[url_key(url@, k)]@.contains(j));
                    },
                    None => {},
                }
            }
            assert forall|m: int| 0 <= m < out.len() implies match self.key(#[trigger] out@[m] as int) {
                Some(k) => url_has_key(address, k),
                None => true,
            } by {
                assert(wanted(self.rules@, self.slots@, url@, out@[m], count));
            }
        }
        out
    }
}

} // verus!
