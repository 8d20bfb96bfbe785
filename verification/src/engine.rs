//! The engine: a rule set compiled from its text, and queried for requests.

use vstd::prelude::*;
use crate::index::{rule_views, FilterIndex};
use crate::matcher::{blocked, decides, match_request, MatchResult};
use crate::parser::{parse_line, parsed_line, ParseError};
use crate::request::{Request, RequestView};
use crate::resource::resource_type_of;
use crate::rule::{FilterRule, RuleView};
use crate::text::{chars_of, split, split_text, views};

verus! {

/// A line of a rule set that was not accepted.
#[derive(Clone, Copy, PartialEq, Eq, Debug, Structural)]
pub struct LineError {
    /// The number of the line, counted from 0.
    pub line: usize,
    /// Why it was not accepted.
    pub error: ParseError,
}

/// The rules that the lines give, in their order. A line that is not
/// accepted gives none, and does not stop the lines behind it.
pub open spec fn accepted_rules(lines: Seq<Seq<char>>) -> Seq<RuleView>
    decreases lines.len(),
{
    if lines.len() == 0 {
        Seq::empty()
    } else {
        let before = accepted_rules(lines.drop_last());
        match parsed_line(lines.last()) {
            Ok(Some(rule)) => before.push(rule),
            _ => before,
        }
    }
}

/// The lines that are not accepted, each with its number and the reason.
pub open spec fn rejected_lines(lines: Seq<Seq<char>>) -> Seq<LineError>
    decreases lines.len(),
{
    if lines.len() == 0 {
        Seq::empty()
    } else {
        let before = rejected_lines(lines.drop_last());
        match parsed_line(lines.last()) {
            Err(e) => before.push(LineError { line: (lines.len() - 1) as usize, error: e }),
            _ => before,
        }
    }
}

/// The rule set that a text stands for: the rules of its lines.
pub open spec fn compiled(text: Seq<char>) -> Seq<RuleView> {
    accepted_rules(split(text, '\n'))
}

/// The request that two addresses and the name of a resource kind stand for.
pub open spec fn request_of(url: Seq<char>, source_url: Seq<char>, resource_type: Seq<char>) -> RequestView {
    RequestView { url, source_url, resource_type: resource_type_of(resource_type) }
}

/// Whether a rule set blocks what two addresses and a resource name ask
/// for. A malformed address is never blocked.
pub open spec fn verdict(rules: Seq<RuleView>, url: Seq<char>, source_url: Seq<char>, resource_type: Seq<char>) -> bool {
    request_of(url, source_url, resource_type).well_formed() && blocked(
        rules,
        request_of(url, source_url, resource_type),
    )
}

/// A compiled rule set. It does not change once it is made: a new rule
/// set is a new engine.
pub struct Engine {
    index: FilterIndex,
}

impl View for Engine {
    type V = Seq<RuleView>;

    closed spec fn view(&self) -> Seq<RuleView> {
        self.index@
    }
}

impl Engine {
    /// Compiles a rule set from its text, one rule to a line, and reports
    /// the lines that were not accepted.
    pub fn compile(text: &str) -> (r: (Engine, Vec<LineError>))
        ensures
            r.0@ == compiled(text@),
            r.1@ == rejected_lines(split(text@, '\n')),
    {
        let chars = chars_of(text);
        let lines = split_text(chars.as_slice(), '\n');
        let mut rules: Vec<FilterRule> = Vec::new();
        let mut errors: Vec<LineError> = Vec::new();
        let ghost all = views(lines@);
        let mut i: usize = 0;
        while i < lines.len()
            invariant
                i <= lines.len(),
                all == views(lines@),
                rule_views(rules@) == accepted_rules(all.take(i as int)),
                errors@ == rejected_lines(all.take(i as int)),
            decreases lines.len() - i,
        {
            let ghost before = rule_views(rules@);
            proof {
                assert(all.take(i + 1).drop_last() =~= all.take(i as int));
                assert(all.take(i + 1).last() == lines@[i as int]@);
            }
            match parse_line(lines[i].as_slice()) {
                Ok(Some(rule)) => {
                    rules.push(rule);
                    assert(rule_views(rules@) =~= before.push(rule@));
                },
                Ok(None) => {},
                Err(e) => {
                    errors.push(LineError { line: i, error: e });
                },
            }
            i += 1;
        }
        proof {
            assert(all.take(lines.len() as int) =~= all);
        }
        (Engine { index: FilterIndex::build(rules) }, errors)
    }

    /// Compiles a rule set from its text, one rule to a line. Lines that
    /// are not accepted are left out.
    pub fn from_rules(text: &str) -> (r: Engine)
        ensures
            r@ == compiled(text@),
    {
        Engine::compile(text).0
    }

    /// The number of rules.
    pub fn rule_count(&self) -> (r: usize)
        ensures
            r == self@.len(),
    {
        self.index.len()
    }

    /// The rule at index `i`.
    pub fn rule(&self, i: usize) -> (r: &FilterRule)
        requires
            i < self@.len(),
        ensures
            r@ == self@[i as int],
    {
        self.index.rule(i)
    }

    /// The verdict of the rule set on a request.
    pub fn check_network_request(&self, request: &Request) -> (r: MatchResult)
        ensures
            decides(self@, request@, r),
    {
        match_request(&self.index, request)
    }

    /// Whether the rule set blocks what two addresses and the name of a
    /// resource kind ask for. A malformed address is never blocked.
    pub fn check(&self, url: &str, source_url: &str, resource_type: &str) -> (r: bool)
        ensures
            r == verdict(self@, url@, source_url@, resource_type@),
    {
        match Request::new(url, source_url, resource_type) {
            Ok(request) => self.check_network_request(&request).matched,
            Err(_) => false,
        }
    }
}

/// An engine held for callers that create it, query it and give it up.
pub struct AdblockEngine {
    engine: Engine,
}

impl View for AdblockEngine {
    type V = Seq<RuleView>;

    closed spec fn view(&self) -> Seq<RuleView> {
        self.engine@
    }
}

/// Makes an engine of the text of a rule set.
pub fn adblock_engine_create(rules: &str) -> (r: AdblockEngine)
    ensures
        r@ == compiled(rules@),
{
    AdblockEngine { engine: Engine::from_rules(rules) }
}

/// Whether the engine blocks the request. A malformed address is never blocked.
pub fn adblock_engine_check(engine: &AdblockEngine, url: &str, source_url: &str, resource_type: &str) -> (r: bool)
    ensures
        r == verdict(engine@, url@, source_url@, resource_type@),
{
    engine.engine.check(url, source_url, resource_type)
}

} // verus!
