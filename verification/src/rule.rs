//! Filter rules, and the conditions under which a rule applies to a request.

use vstd::prelude::*;
use crate::bridge::{compile_regex, regex_compiles, regex_is_match, regex_matches, regex_of};
use crate::pattern::{matches_plain, plain_matches, Anchor, Tok};
use crate::request::{Request, RequestView};
use crate::resource::TypeSet;
use crate::text::{copy_range, string_with_prefix, texts_disjoint, views};

verus! {

/// What a rule's pattern is: plain tokens, or a regular expression as it
/// was written between its two slashes.
pub enum PatternView {
    Plain(Seq<Tok>),
    Regex(Seq<char>),
}

/// The regular expression that is compiled for a written one: the same,
/// matched without regard to case.
pub open spec fn case_blind(written: Seq<char>) -> Seq<char> {
    "(?i)"@ + written
}

/// `domain` names `host` or a parent of it: the host is the domain, or ends
/// with a dot and the domain.
pub open spec fn domain_covers(domain: Seq<char>, host: Seq<char>) -> bool {
    host == domain || (host.len() > domain.len() && host[host.len() - domain.len() - 1] == '.'
        && host.subrange(host.len() - domain.len(), host.len() as int) == domain)
}

/// One of `domains` names `host` or a parent of it.
pub open spec fn covered_by_any(domains: Seq<Seq<char>>, host: Seq<char>) -> bool {
    exists|i: int| 0 <= i < domains.len() && domain_covers(#[trigger] domains[i], host)
}

/// What a filter rule says.
pub struct RuleView {
    pub pattern: PatternView,
    pub anchor: Anchor,
    pub is_exception: bool,
    pub resource_types: TypeSet,
    pub domains_included: Seq<Seq<char>>,
    pub domains_excluded: Seq<Seq<char>>,
    pub third_party_only: bool,
    pub first_party_only: bool,
}

impl RuleView {
    /// The length of the pattern: the number of its tokens, or of the
    /// characters of its regular expression.
    pub open spec fn pattern_len(self) -> nat {
        match self.pattern {
            PatternView::Plain(toks) => toks.len(),
            PatternView::Regex(written) => written.len(),
        }
    }

    /// The number of conditions that the options put on a request: one for
    /// each resource kind and each domain named, one for a party condition.
    pub open spec fn constraints(self) -> nat {
        self.resource_types.count() + self.domains_included.len() + self.domains_excluded.len() + (if self.third_party_only
            || self.first_party_only {
            1nat
        } else {
            0nat
        })
    }

    /// The score of a rule: the length of its pattern and the number of its conditions.
    pub open spec fn specificity(self) -> nat {
        self.pattern_len() + self.constraints()
    }

    /// No domain is both included and excluded.
    pub open spec fn domains_disjoint(self) -> bool {
        texts_disjoint(self.domains_included, self.domains_excluded)
    }

    /// What holds of every rule that was accepted.
    pub open spec fn well_formed(self) -> bool {
        &&& self.pattern_len() > 0
        &&& self.domains_disjoint()
        &&& !(self.third_party_only && self.first_party_only)
        &&& self.pattern is Regex ==> self.anchor == Anchor::Anywhere
    }

    /// The pattern matches the requested address.
    pub open spec fn pattern_applies(self, req: RequestView) -> bool {
        match self.pattern {
            PatternView::Plain(toks) => plain_matches(self.anchor, toks, req.address(), req.host_start(), req.host_end()),
            PatternView::Regex(written) => regex_matches(case_blind(written), req.url),
        }
    }

    /// The requesting page lies on a domain where the rule applies: on one
    /// of the included domains, where there are any, and on none of the excluded.
    pub open spec fn domain_applies(self, req: RequestView) -> bool {
        (self.domains_included.len() == 0 || covered_by_any(self.domains_included, req.source_domain()))
            && !covered_by_any(self.domains_excluded, req.source_domain())
    }

    /// The rule applies to the kind of resource asked for.
    pub open spec fn resource_applies(self, req: RequestView) -> bool {
        self.resource_types.is_empty() || self.resource_types.contains(req.resource_type)
    }

    /// The rule applies to the party of the request.
    pub open spec fn party_applies(self, req: RequestView) -> bool {
        !(self.third_party_only && !req.is_third_party()) && !(self.first_party_only && req.is_third_party())
    }

    /// The rule is a candidate match: its pattern matches and its three conditions hold.
    pub open spec fn matches(self, req: RequestView) -> bool {
        self.pattern_applies(req) && self.domain_applies(req) && self.resource_applies(req) && self.party_applies(req)
    }
}

/// A regular expression of a rule: as it was written, and compiled to
/// match without regard to case.
pub struct Expression {
    written: Vec<char>,
    compiled: regex::Regex,
}

impl View for Expression {
    type V = Seq<char>;

    /// The expression as it was written.
    closed spec fn view(&self) -> Seq<char> {
        self.written@
    }
}

impl Expression {
    #[verifier::type_invariant]
    spec fn inv(self) -> bool {
        regex_of(case_blind(self.written@)) == Some(self.compiled)
    }

    /// Compiles an expression, where it is a valid one.
    pub fn new(written: &[char]) -> (r: Option<Expression>)
        ensures
            r is Some == regex_compiles(case_blind(written@)),
            r is Some ==> r->0@ == written@,
    {
        let source = string_with_prefix("(?i)", written);
        match compile_regex(source.as_str()) {
            Ok(compiled) => {
                let copy = copy_range(written, 0, written.len());
                assert(copy@ =~= written@);
                Some(Expression { written: copy, compiled })
            },
            Err(_) => None,
        }
    }

    /// The expression as it was written.
    pub fn written(&self) -> (r: &[char])
        ensures
            r@ == self@,
    {
        self.written.as_slice()
    }

    /// Whether the expression finds a match anywhere in the haystack.
    pub fn is_match(&self, haystack: &str) -> (r: bool)
        ensures
            r == regex_matches(case_blind(self@), haystack@),
    {
        proof {
            use_type_invariant(self);
        }
        regex_is_match(&self.compiled, haystack)
    }
}

/// A rule's pattern, ready for matching.
pub enum Pattern {
    /// Plain tokens.
    Plain(Vec<Tok>),
    /// A regular expression.
    Regex(Expression),
}

impl View for Pattern {
    type V = PatternView;

    open spec fn view(&self) -> PatternView {
        match self {
            Pattern::Plain(toks) => PatternView::Plain(toks@),
            Pattern::Regex(e) => PatternView::Regex(e@),
        }
    }
}

/// One parsed filter rule. It does not change once it is made.
pub struct FilterRule {
    pattern: Pattern,
    anchor: Anchor,
    is_exception: bool,
    resource_types: TypeSet,
    domains_included: Vec<Vec<char>>,
    domains_excluded: Vec<Vec<char>>,
    third_party_only: bool,
    first_party_only: bool,
    specificity: u128,
}

impl View for FilterRule {
    type V = RuleView;

    closed spec fn view(&self) -> RuleView {
        RuleView {
            pattern: self.pattern@,
            anchor: self.anchor,
            is_exception: self.is_exception,
            resource_types: self.resource_types,
            domains_included: views(self.domains_included@),
            domains_excluded: views(self.domains_excluded@),
            third_party_only: self.third_party_only,
            first_party_only: self.first_party_only,
        }
    }
}

/// Whether `domain` names `host` or a parent of it.
pub fn covers(domain: &[char], host: &[char]) -> (r: bool)
    ensures
        r == domain_covers(domain@, host@),
{
    let d = domain.len();
    let h = host.len();
    if h < d {
        return false;
    }
    if h > d && host[h - d - 1] != '.' {
        return false;
    }
    let off = h - d;
    let mut i: usize = 0;
    while i < d
        invariant
            i <= d,
            d == domain.len(),
            h == host.len(),
            off == h - d,
            forall|k: int| 0 <= k < i ==> domain@[k] == host@[off + k],
        decreases d - i,
    {
        if domain[i] != host[off + i] {
            assert(host@.subrange(h - d, h as int)[i as int] != domain@[i as int]);
            return false;
        }
        i += 1;
    }
    assert(host@.subrange(h - d, h as int) =~= domain@);
    if h == d {
        assert(host@ =~= host@.subrange(0, h as int));
    }
    true
}

/// Whether one of `domains` names `host` or a parent of it.
pub fn any_covers(domains: &Vec<Vec<char>>, host: &[char]) -> (r: bool)
    ensures
        r == covered_by_any(views(domains@), host@),
{
    let mut i: usize = 0;
    while i < domains.len()
        invariant
            i <= domains.len(),
            forall|k: int| 0 <= k < i ==> !domain_covers(#[trigger] views(domains@)[k], host@),
        decreases domains.len() - i,
    {
        if covers(domains[i].as_slice(), host) {
            assert(domain_covers(views(domains@)[i as int], host@));
            return true;
        }
        i += 1;
    }
    false
}

impl FilterRule {
    #[verifier::type_invariant]
    spec fn inv(self) -> bool {
        &&& self@.well_formed()
        &&& self.specificity == self@.specificity()
    }

    /// Puts a rule together from its parts.
    pub(crate) fn assemble(
        pattern: Pattern,
        anchor: Anchor,
        is_exception: bool,
        resource_types: TypeSet,
        domains_included: Vec<Vec<char>>,
        domains_excluded: Vec<Vec<char>>,
        third_party_only: bool,
        first_party_only: bool,
    ) -> (r: FilterRule)
        requires
            (RuleView {
                pattern: pattern@,
                anchor,
                is_exception,
                resource_types,
                domains_included: views(domains_included@),
                domains_excluded: views(domains_excluded@),
                third_party_only,
                first_party_only,
            }).well_formed(),
        ensures
            r@ == (RuleView {
                pattern: pattern@,
                anchor,
                is_exception,
                resource_types,
                domains_included: views(domains_included@),
                domains_excluded: views(domains_excluded@),
                third_party_only,
                first_party_only,
            }),
    {
        let pattern_len = match &pattern {
            Pattern::Plain(toks) => toks.len(),
            Pattern::Regex(e) => e.written().len(),
        };
        let party: u128 = if third_party_only || first_party_only {
            1
        } else {
            0
        };
        let specificity: u128 = pattern_len as u128 + resource_types.size() as u128 + domains_included.len() as u128
            + domains_excluded.len() as u128 + party;
        FilterRule {
            pattern,
            anchor,
            is_exception,
            resource_types,
            domains_included,
            domains_excluded,
            third_party_only,
            first_party_only,
            specificity,
        }
    }

    /// The rule's pattern.
    pub fn pattern(&self) -> (r: &Pattern)
        ensures
            r@ == self@.pattern,
            self@.well_formed(),
    {
        proof {
            use_type_invariant(self);
        }
        &self.pattern
    }

    /// Where the pattern must lie in the address.
    pub fn anchor(&self) -> (r: Anchor)
        ensures
            r == self@.anchor,
    {
        self.anchor
    }

    /// Whether the rule allows what it matches, instead of blocking it.
    pub fn is_exception(&self) -> (r: bool)
        ensures
            r == self@.is_exception,
    {
        self.is_exception
    }

    /// The resource kinds that the rule is restricted to; none for all kinds.
    pub fn resource_types(&self) -> (r: TypeSet)
        ensures
            r == self@.resource_types,
    {
        self.resource_types
    }

    /// The domains on which alone the rule applies; none for all domains.
    pub fn domains_included(&self) -> (r: &Vec<Vec<char>>)
        ensures
            views(r@) == self@.domains_included,
    {
        &self.domains_included
    }

    /// The domains on which the rule does not apply.
    pub fn domains_excluded(&self) -> (r: &Vec<Vec<char>>)
        ensures
            views(r@) == self@.domains_excluded,
    {
        &self.domains_excluded
    }

    /// Whether the rule applies to requests that leave the page's site only.
    pub fn third_party_only(&self) -> (r: bool)
        ensures
            r == self@.third_party_only,
    {
        self.third_party_only
    }

    /// Whether the rule applies to requests that stay on the page's site only.
    pub fn first_party_only(&self) -> (r: bool)
        ensures
            r == self@.first_party_only,
    {
        self.first_party_only
    }

    /// The score of the rule: the length of its pattern and the number of its conditions.
    pub fn specificity(&self) -> (r: u128)
        ensures
            r == self@.specificity(),
    {
        proof {
            use_type_invariant(self);
        }
        self.specificity
    }

    /// Whether the rule's pattern matches the requested address.
    pub fn pattern_applies(&self, request: &Request) -> (r: bool)
        ensures
            r == self@.pattern_applies(request@),
    {
        proof {
            use_type_invariant(self);
        }
        match &self.pattern {
            Pattern::Plain(toks) => {
                let (hs, he) = request.host_range();
                matches_plain(self.anchor, toks.as_slice(), request.address(), hs, he)
            },
            Pattern::Regex(e) => e.is_match(request.url()),
        }
    }

    /// Whether the rule is a candidate match for the request.
    pub fn matches(&self, request: &Request) -> (r: bool)
        ensures
            r == self@.matches(request@),
    {
        resource_applies(self, request) && party_applies(self, request) && domain_applies(self, request)
            && self.pattern_applies(request)
    }
}

/// Whether the requesting page lies on a domain where the rule applies.
pub fn domain_applies(rule: &FilterRule, request: &Request) -> (r: bool)
    ensures
        r == rule@.domain_applies(request@),
{
    let host = request.source_domain();
    (rule.domains_included.len() == 0 || any_covers(&rule.domains_included, host)) && !any_covers(
        &rule.domains_excluded,
        host,
    )
}

/// Whether the rule applies to the kind of resource asked for.
pub fn resource_applies(rule: &FilterRule, request: &Request) -> (r: bool)
    ensures
        r == rule@.resource_applies(request@),
{
    rule.resource_types.has_none() || rule.resource_types.has(request.resource_type())
}

/// Whether the rule applies to the party of the request.
pub fn party_applies(rule: &FilterRule, request: &Request) -> (r: bool)
    ensures
        r == rule@.party_applies(request@),
{
    let third = request.is_third_party();
    !(rule.third_party_only && !third) && !(rule.first_party_only && third)
}

} // verus!
