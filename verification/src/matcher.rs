//! The verdict on a request: which rules match it, and which of them decides.
//!
//! An exception rule that matches allows the request, however many blocking
//! rules match it too. Without one, a blocking rule that matches blocks it.
//! The order of the rules plays no part.

use vstd::prelude::*;
use crate::index::{all_below, FilterIndex};
use crate::request::{Request, RequestView};
use crate::rule::RuleView;

verus! {

/// The verdict on a request.
#[derive(Clone, Copy, PartialEq, Eq, Debug, Structural)]
pub struct MatchResult {
    /// Whether the request is blocked.
    pub matched: bool,
    /// The index of a rule that decided: an exception rule that matches the
    /// request, or, where there is none, a blocking rule that matches it.
    pub rule: Option<usize>,
}

/// An exception rule is a candidate match for the request.
pub open spec fn exception_hit(rules: Seq<RuleView>, req: RequestView) -> bool {
    exists|i: int| 0 <= i < rules.len() && rules[i].is_exception && #[trigger] rules[i].matches(req)
}

/// A blocking rule is a candidate match for the request.
pub open spec fn block_hit(rules: Seq<RuleView>, req: RequestView) -> bool {
    exists|i: int| 0 <= i < rules.len() && !rules[i].is_exception && #[trigger] rules[i].matches(req)
}

/// The request is blocked: a blocking rule matches it and no exception rule does.
pub open spec fn blocked(rules: Seq<RuleView>, req: RequestView) -> bool {
    block_hit(rules, req) && !exception_hit(rules, req)
}

/// The result is the verdict of the rules on the request, and names a rule that decided.
pub open spec fn decides(rules: Seq<RuleView>, req: RequestView, r: MatchResult) -> bool {
    &&& r.matched == blocked(rules, req)
    &&& match r.rule {
        Some(i) => i < rules.len() && rules[i as int].matches(req) && rules[i as int].is_exception == exception_hit(
            rules,
            req,
        ),
        None => !exception_hit(rules, req) && !block_hit(rules, req),
    }
}

/// Evaluates a request against an indexed rule set.
pub fn match_request(index: &FilterIndex, request: &Request) -> (r: MatchResult)
    ensures
        decides(index@, request@, r),
{
    let cands = index.candidates(request);
    let n = index.len();
    let ghost rules = index@;
    let ghost req = request@;
    let mut hit: Option<usize> = None;
    let mut k: usize = 0;
    while k < cands.len()
        invariant
            k <= cands.len(),
            n == rules.len(),
            rules == index@,
            req == request@,
            all_below(cands@, rules.len() as int),
            forall|j: usize| j < rules.len() && (#[trigger] rules[j as int]).pattern_applies(req) ==> cands@.contains(j),
            match hit {
                Some(h) => h < rules.len() && !rules[h as int].is_exception && rules[h as int].matches(req),
                None => true,
            },
            forall|m: int|
                0 <= m < k && (#[trigger] rules[cands@[m] as int]).matches(req) ==> !rules[cands@[m] as int].is_exception
                    && hit is Some,
        decreases cands.len() - k,
    {
        let j = cands[k];
        let rule = index.rule(j);
        if rule.matches(request) {
            if rule.is_exception() {
                return MatchResult { matched: false, rule: Some(j) };
            }
            if hit.is_none() {
                hit = Some(j);
            }
        }
        k += 1;
    }
    proof {
        assert forall|j: int| 0 <= j < rules.len() && (#[trigger] rules[j]).matches(req) implies !rules[j].is_exception
            && hit is Some by {
            let u = j as usize;
            assert(rules[u as int].pattern_applies(req));
            let m = choose|m: int| 0 <= m < cands@.len() && cands@[m] == u;
            assert(rules[cands@[m] as int].matches(req));
        }
    }
    match hit {
        Some(h) => MatchResult { matched: true, rule: Some(h) },
        None => MatchResult { matched: false, rule: None },
    }
}

} // verus!
