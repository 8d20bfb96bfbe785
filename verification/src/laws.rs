//! What holds of every rule set and every request.

use vstd::prelude::*;
use crate::engine::{accepted_rules, compiled, request_of, verdict};
use crate::matcher::{block_hit, blocked, exception_hit};
use crate::parser::parsed_line;
use crate::request::RequestView;
use crate::rule::{covered_by_any, RuleView};
use crate::text::{find_char, lower, skip_space, skip_space_back, split, split_from, trim};
use crate::url::url_shape_ok;

verus! {

/// Two rule sets compiled from the same text give the same verdict on
/// every request.
pub proof fn law_same_text_same_verdict(
    text: Seq<char>,
    first: Seq<RuleView>,
    second: Seq<RuleView>,
    url: Seq<char>,
    source_url: Seq<char>,
    resource_type: Seq<char>,
)
    requires
        first == compiled(text),
        second == compiled(text),
    ensures
        verdict(first, url, source_url, resource_type) == verdict(second, url, source_url, resource_type),
{
}

proof fn lemma_hits_carry_over(a: Seq<RuleView>, b: Seq<RuleView>, req: RequestView)
    requires
        forall|r: RuleView| a.contains(r) ==> b.contains(r),
    ensures
        exception_hit(a, req) ==> exception_hit(b, req),
        block_hit(a, req) ==> block_hit(b, req),
{
    if exception_hit(a, req) {
        let i = choose|i: int| 0 <= i < a.len() && a[i].is_exception && #[trigger] a[i].matches(req);
        assert(a.contains(a[i]));
        let j = choose|j: int| 0 <= j < b.len() && b[j] == a[i];
        assert(b[j].matches(req));
    }
    if block_hit(a, req) {
        let i = choose|i: int| 0 <= i < a.len() && !a[i].is_exception && #[trigger] a[i].matches(req);
        assert(a.contains(a[i]));
        let j = choose|j: int| 0 <= j < b.len() && b[j] == a[i];
        assert(b[j].matches(req));
    }
}

/// The verdict depends on which rules a rule set holds, not on their
/// order, nor on how often a rule occurs.
pub proof fn law_order_plays_no_part(a: Seq<RuleView>, b: Seq<RuleView>, req: RequestView)
    requires
        forall|r: RuleView| a.contains(r) <==> b.contains(r),
    ensures
        blocked(a, req) == blocked(b, req),
{
    lemma_hits_carry_over(a, b, req);
    lemma_hits_carry_over(b, a, req);
}

/// An exception rule that matches a request allows it, whatever else the
/// rule set holds.
pub proof fn law_exception_overrides(rules: Seq<RuleView>, req: RequestView, i: int)
    requires
        0 <= i < rules.len(),
        rules[i].is_exception,
        rules[i].matches(req),
    ensures
        !blocked(rules, req),
{
}

/// A blocking rule and the exception rule with the same pattern and the
/// same options, in either order: a request that the pattern matches under
/// the options is not blocked.
pub proof fn law_exception_beats_its_twin(block: RuleView, req: RequestView)
    requires
        !block.is_exception,
        block.matches(req),
    ensures
        !blocked(seq![block, RuleView { is_exception: true, ..block }], req),
        !blocked(seq![RuleView { is_exception: true, ..block }, block], req),
{
    let twin = RuleView { is_exception: true, ..block };
    assert(twin.matches(req));
    law_exception_overrides(seq![block, twin], req, 1);
    law_exception_overrides(seq![twin, block], req, 0);
}

/// The empty text holds no rule.
pub proof fn law_empty_text_has_no_rules()
    ensures
        compiled(Seq::<char>::empty()) == Seq::<RuleView>::empty(),
{
    let text = Seq::<char>::empty();
    let lines = split(text, '\n');
    assert(find_char(text, '\n', 0) == 0);
    assert(text.subrange(0, 0) =~= text);
    assert(lines =~= seq![text]);
    assert(skip_space(text, 0) == 0);
    assert(skip_space_back(text, 0) == 0);
    assert(trim(text) =~= text);
    assert(parsed_line(text) == Ok::<Option<RuleView>, crate::parser::ParseError>(None));
    assert(lines.last() == text);
    assert(lines.drop_last() =~= Seq::<Seq<char>>::empty());
    assert(accepted_rules(lines.drop_last()) =~= Seq::<RuleView>::empty());
}

/// A rule set without rules blocks nothing.
pub proof fn law_no_rules_block_nothing(url: Seq<char>, source_url: Seq<char>, resource_type: Seq<char>)
    ensures
        !verdict(Seq::<RuleView>::empty(), url, source_url, resource_type),
        !verdict(compiled(Seq::<char>::empty()), url, source_url, resource_type),
{
    law_empty_text_has_no_rules();
}

/// Every rule that a line gives is well formed: its pattern is not
/// empty, no domain is both included and excluded, and it is not restricted
/// to both parties at once.
pub proof fn law_parsed_rule_is_well_formed(line: Seq<char>)
    ensures
        match parsed_line(line) {
            Ok(Some(rule)) => rule.well_formed(),
            _ => true,
        },
{
}

/// Every rule of a compiled rule set is well formed.
pub proof fn law_compiled_rules_are_well_formed(text: Seq<char>, i: int)
    requires
        0 <= i < compiled(text).len(),
    ensures
        compiled(text)[i].well_formed(),
{
    lemma_accepted_rules_are_well_formed(split(text, '\n'), i);
}

proof fn lemma_accepted_rules_are_well_formed(lines: Seq<Seq<char>>, i: int)
    requires
        0 <= i < accepted_rules(lines).len(),
    ensures
        accepted_rules(lines)[i].well_formed(),
    decreases lines.len(),
{
    if lines.len() > 0 {
        let before = accepted_rules(lines.drop_last());
        law_parsed_rule_is_well_formed(lines.last());
        if i < before.len() {
            lemma_accepted_rules_are_well_formed(lines.drop_last(), i);
        }
    }
}

/// A line that is not accepted changes nothing of the rule set: the rules
/// of the lines before it stay, and no rule is added.
pub proof fn law_bad_line_is_skipped(lines: Seq<Seq<char>>, line: Seq<char>)
    requires
        parsed_line(line) is Err,
    ensures
        accepted_rules(lines.push(line)) == accepted_rules(lines),
{
    assert(lines.push(line).drop_last() =~= lines);
}

/// The rules of a list of lines are the rules of its first part and then
/// those of the rest: what a line gives does not depend on the lines around it.
pub proof fn law_lines_are_independent(a: Seq<Seq<char>>, b: Seq<Seq<char>>)
    ensures
        accepted_rules(a + b) == accepted_rules(a) + accepted_rules(b),
    decreases b.len(),
{
    if b.len() == 0 {
        assert(a + b =~= a);
        assert(accepted_rules(a) + accepted_rules(b) =~= accepted_rules(a));
    } else {
        law_lines_are_independent(a, b.drop_last());
        assert((a + b).drop_last() =~= a + b.drop_last());
        assert((a + b).last() == b.last());
        match parsed_line(b.last()) {
            Ok(Some(rule)) => {
                assert(accepted_rules(a + b) =~= accepted_rules(a) + accepted_rules(b));
            },
            _ => {},
        }
    }
}

/// A rule restricted to domains does not match a request from a page on
/// none of them, and no rule matches a request from a page on a domain
/// that it excludes.
pub proof fn law_domain_scope(rule: RuleView, req: RequestView)
    requires
        (rule.domains_included.len() > 0 && !covered_by_any(rule.domains_included, req.source_domain())) || covered_by_any(
            rule.domains_excluded,
            req.source_domain(),
        ),
    ensures
        !rule.matches(req),
{
}

/// A rule restricted to resource kinds does not match a request for a
/// kind that is not among them.
pub proof fn law_resource_scope(rule: RuleView, req: RequestView)
    requires
        !rule.resource_types.is_empty(),
        !rule.resource_types.contains(req.resource_type),
    ensures
        !rule.matches(req),
{
}

/// A rule for third-party requests does not match a request whose host
/// is the host of the requesting page.
pub proof fn law_third_party_scope(rule: RuleView, req: RequestView)
    requires
        rule.third_party_only,
        req.url_domain() == req.source_domain(),
    ensures
        !req.is_third_party(),
        !rule.matches(req),
{
}

/// A request with a malformed address is not blocked, whatever the rule set.
pub proof fn law_malformed_never_blocks(
    rules: Seq<RuleView>,
    url: Seq<char>,
    source_url: Seq<char>,
    resource_type: Seq<char>,
)
    requires
        !url_shape_ok(lower(url)) || !url_shape_ok(lower(source_url)),
    ensures
        !verdict(rules, url, source_url, resource_type),
{
}

} // verus!
