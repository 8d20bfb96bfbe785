//! The syntax of one line of a filter list.
//!
//! A line is blank, a comment, or a rule:
//!
//! ```text
//! [@@] pattern [$ option {, option}]
//! ```
//!
//! `@@` marks an exception. The pattern is a regular expression written
//! between two slashes, or plain text in which `*` stands for any stretch of
//! characters and `^` for a separator; plain text may begin with `||` (at the
//! host name) or `|` (at the beginning of the address), or end with `|` (at
//! the end of the address). An option is a resource kind, `third-party`,
//! `first-party`, each of which `~` negates, or `domain=` with a list of
//! domains between `|`, where `~` excludes a domain.

use vstd::prelude::*;
use vstd::slice::slice_subrange;
use crate::bridge::regex_compiles;
use crate::pattern::{Anchor, Tok};
use crate::resource::{named_type, type_named, TypeSet};
use crate::rule::{case_blind, Expression, FilterRule, Pattern, PatternView, RuleView};
use crate::text::{
    chars_of, disjoint_texts, find_char, index_of, is_word, last_index_of, lower, lower_char, lowered, rfind_char,
    split, split_text, texts_disjoint, to_lower, trim, trimmed, views,
};
use crate::url::{all_host_chars, host_chars_only};

verus! {

/// Why a line was not accepted as a rule.
#[derive(Clone, Copy, PartialEq, Eq, Debug, Structural)]
pub enum ParseError {
    /// Nothing is left of the pattern once its markers are taken off.
    EmptyPattern,
    /// The line is a rule of a kind that this engine does not evaluate (element hiding).
    Unsupported,
    /// An option is empty, has a value or a negation where none belongs, or lacks one it needs.
    MalformedOption,
    /// An option's key is not known.
    UnknownOption,
    /// The options exclude each other: no resource kind or no party is left.
    ConflictingOptions,
    /// A domain is both included and excluded.
    DomainConflict,
    /// The pattern is anchored at its beginning and at its end.
    InvalidPattern,
    /// The regular expression does not compile.
    InvalidRegex,
}

/// What the options read so far add up to.
pub struct OptionsView {
    pub wanted: TypeSet,
    pub unwanted: TypeSet,
    pub third: bool,
    pub first: bool,
    pub included: Seq<Seq<char>>,
    pub excluded: Seq<Seq<char>>,
}

impl OptionsView {
    /// No option at all.
    pub open spec fn none() -> OptionsView {
        OptionsView {
            wanted: TypeSet::empty(),
            unwanted: TypeSet::empty(),
            third: false,
            first: false,
            included: Seq::empty(),
            excluded: Seq::empty(),
        }
    }

    /// The resource kinds that the rule is restricted to: the kinds named,
    /// or all kinds where only negated ones were named, each time without
    /// the negated ones. Empty where no kind was named at all.
    pub open spec fn resource_types(self) -> TypeSet {
        if !self.wanted.is_empty() {
            self.wanted.minus(self.unwanted)
        } else if !self.unwanted.is_empty() {
            TypeSet::full().minus(self.unwanted)
        } else {
            TypeSet::empty()
        }
    }

    /// The options exclude each other.
    pub open spec fn conflicting(self) -> bool {
        ((!self.wanted.is_empty() || !self.unwanted.is_empty()) && self.resource_types().is_empty()) || (self.third
            && self.first)
    }
}

/// One entry of a domain list, added to the options.
pub open spec fn domain_added(acc: OptionsView, entry: Seq<char>) -> Result<OptionsView, ParseError> {
    let negated = entry.len() > 0 && entry[0] == '~';
    let name = if negated {
        entry.subrange(1, entry.len() as int)
    } else {
        entry
    };
    if name.len() == 0 || !all_host_chars(name, 0, name.len() as int) {
        Err(ParseError::MalformedOption)
    } else if negated {
        Ok(OptionsView { excluded: acc.excluded.push(lower(name)), ..acc })
    } else {
        Ok(OptionsView { included: acc.included.push(lower(name)), ..acc })
    }
}

/// The entries of a domain list from the `i`-th on, added one after the other.
pub open spec fn domains_added(acc: OptionsView, entries: Seq<Seq<char>>, i: int) -> Result<OptionsView, ParseError>
    decreases entries.len() - i,
{
    if i < 0 || i >= entries.len() {
        Ok(acc)
    } else {
        match domain_added(acc, entries[i]) {
            Ok(next) => domains_added(next, entries, i + 1),
            Err(e) => Err(e),
        }
    }
}

/// One option, added to the options read before it.
pub open spec fn option_added(acc: OptionsView, token: Seq<char>) -> Result<OptionsView, ParseError> {
    let negated = token.len() > 0 && token[0] == '~';
    let body = if negated {
        token.subrange(1, token.len() as int)
    } else {
        token
    };
    let eq = find_char(body, '=', 0);
    let key = body.subrange(0, eq);
    let has_value = eq < body.len();
    if key.len() == 0 {
        Err(ParseError::MalformedOption)
    } else if named_type(key) is Some {
        if has_value {
            Err(ParseError::MalformedOption)
        } else if negated {
            Ok(OptionsView { unwanted: acc.unwanted.with(named_type(key)->0), ..acc })
        } else {
            Ok(OptionsView { wanted: acc.wanted.with(named_type(key)->0), ..acc })
        }
    } else if key == "third-party"@ || key == "3p"@ {
        if has_value {
            Err(ParseError::MalformedOption)
        } else if negated {
            Ok(OptionsView { first: true, ..acc })
        } else {
            Ok(OptionsView { third: true, ..acc })
        }
    } else if key == "first-party"@ || key == "1p"@ {
        if has_value {
            Err(ParseError::MalformedOption)
        } else if negated {
            Ok(OptionsView { third: true, ..acc })
        } else {
            Ok(OptionsView { first: true, ..acc })
        }
    } else if key == "domain"@ {
        if negated || !has_value {
            Err(ParseError::MalformedOption)
        } else {
            domains_added(acc, split(body.subrange(eq + 1, body.len() as int), '|'), 0)
        }
    } else {
        Err(ParseError::UnknownOption)
    }
}

/// The options from the `i`-th on, added one after the other.
pub open spec fn options_added(acc: OptionsView, tokens: Seq<Seq<char>>, i: int) -> Result<OptionsView, ParseError>
    decreases tokens.len() - i,
{
    if i < 0 || i >= tokens.len() {
        Ok(acc)
    } else {
        match option_added(acc, tokens[i]) {
            Ok(next) => options_added(next, tokens, i + 1),
            Err(e) => Err(e),
        }
    }
}

/// What the text behind the `$` of a rule says: its options between
/// commas, read from left to right. The first option that is not accepted
/// gives the error; options that exclude each other are found at the end,
/// before a domain that is both included and excluded.
pub open spec fn parsed_options(text: Seq<char>) -> Result<OptionsView, ParseError> {
    match options_added(OptionsView::none(), split(text, ','), 0) {
        Err(e) => Err(e),
        Ok(o) => if o.conflicting() {
            Err(ParseError::ConflictingOptions)
        } else if !texts_disjoint(o.included, o.excluded) {
            Err(ParseError::DomainConflict)
        } else {
            Ok(o)
        },
    }
}

/// The token that a character of a plain pattern stands for.
pub open spec fn tok_of(c: char) -> Tok {
    if c == '*' {
        Tok::Any
    } else if c == '^' {
        Tok::Sep
    } else {
        Tok::Lit(lower_char(c))
    }
}

/// The tokens of a plain pattern's text.
pub open spec fn tokens_of(p: Seq<char>) -> Seq<Tok> {
    Seq::new(p.len(), |i: int| tok_of(p[i]))
}

/// A pattern written between two slashes is a regular expression.
pub open spec fn is_regex_text(p: Seq<char>) -> bool {
    p.len() >= 2 && p[0] == '/' && p[p.len() - 1] == '/'
}

/// How many characters at the beginning of a plain pattern are an anchor.
pub open spec fn lead_len(p: Seq<char>) -> int {
    if p.len() >= 2 && p[0] == '|' && p[1] == '|' {
        2
    } else if p.len() >= 1 && p[0] == '|' {
        1
    } else {
        0
    }
}

/// The anchor and the tokens of a plain pattern.
pub open spec fn parsed_plain(p: Seq<char>) -> Result<(Anchor, Seq<Tok>), ParseError> {
    let lead = lead_len(p);
    let tail = p.len() > lead && p[p.len() - 1] == '|';
    let end = if tail {
        p.len() - 1
    } else {
        p.len() as int
    };
    if tail && lead > 0 {
        Err(ParseError::InvalidPattern)
    } else if end <= lead {
        Err(ParseError::EmptyPattern)
    } else {
        Ok(
            (
                if tail {
                    Anchor::End
                } else if lead == 2 {
                    Anchor::Hostname
                } else if lead == 1 {
                    Anchor::Start
                } else {
                    Anchor::Anywhere
                },
                tokens_of(p.subrange(lead, end)),
            ),
        )
    }
}

/// The pattern and the anchor that a pattern's text stands for.
pub open spec fn parsed_pattern(p: Seq<char>) -> Result<(Anchor, PatternView), ParseError> {
    if is_regex_text(p) {
        let written = p.subrange(1, p.len() - 1);
        if written.len() == 0 {
            Err(ParseError::EmptyPattern)
        } else if !regex_compiles(case_blind(written)) {
            Err(ParseError::InvalidRegex)
        } else {
            Ok((Anchor::Anywhere, PatternView::Regex(written)))
        }
    } else {
        match parsed_plain(p) {
            Ok((anchor, toks)) => Ok((anchor, PatternView::Plain(toks))),
            Err(e) => Err(e),
        }
    }
}

/// A line that holds no rule: a blank one, a comment (`!`) or a header (`[`).
pub open spec fn is_comment(line: Seq<char>) -> bool {
    line.len() == 0 || line[0] == '!' || line[0] == '['
}

/// An element-hiding marker (`##`, `#@#`, `#?#`) stands at index `i`.
pub open spec fn hiding_marker_at(line: Seq<char>, i: int) -> bool {
    0 <= i && i + 1 < line.len() && line[i] == '#' && (line[i + 1] == '#' || (i + 2 < line.len() && (line[i + 1]
        == '@' || line[i + 1] == '?') && line[i + 2] == '#'))
}

/// The line is an element-hiding rule.
pub open spec fn is_hiding_rule(line: Seq<char>) -> bool {
    exists|i: int| hiding_marker_at(line, i)
}

/// The index of the `$` behind which the options stand: the last one of
/// the rule; -1 where the rule has no `$` or is one regular expression.
pub open spec fn options_mark(body: Seq<char>) -> int {
    if is_regex_text(body) {
        -1
    } else {
        rfind_char(body, '$', body.len() as int)
    }
}

/// The rule that a pattern, an anchor and options make.
pub open spec fn rule_of(anchor: Anchor, pattern: PatternView, exception: bool, o: OptionsView) -> RuleView {
    RuleView {
        pattern,
        anchor,
        is_exception: exception,
        resource_types: o.resource_types(),
        domains_included: o.included,
        domains_excluded: o.excluded,
        third_party_only: o.third,
        first_party_only: o.first,
    }
}

/// What a rule says once its exception marker is taken off: the options
/// are read before the pattern, so an error in them comes first.
pub open spec fn parsed_body(body: Seq<char>, exception: bool) -> Result<Option<RuleView>, ParseError> {
    let mark = options_mark(body);
    let options = if mark >= 0 {
        parsed_options(body.subrange(mark + 1, body.len() as int))
    } else {
        Ok(OptionsView::none())
    };
    let pattern_text = if mark >= 0 {
        body.subrange(0, mark)
    } else {
        body
    };
    match options {
        Err(e) => Err(e),
        Ok(o) => match parsed_pattern(pattern_text) {
            Err(e) => Err(e),
            Ok((anchor, pattern)) => Ok(Some(rule_of(anchor, pattern, exception, o))),
        },
    }
}

/// What one line of a filter list says: no rule (`Ok(None)`), a rule, or
/// the reason for which it is not accepted.
pub open spec fn parsed_line(line: Seq<char>) -> Result<Option<RuleView>, ParseError> {
    let t = trim(line);
    if is_comment(t) {
        Ok(None)
    } else if is_hiding_rule(t) {
        Err(ParseError::Unsupported)
    } else if t.len() >= 2 && t[0] == '@' && t[1] == '@' {
        parsed_body(t.subrange(2, t.len() as int), true)
    } else {
        parsed_body(t, false)
    }
}

/// What a parser's result says.
pub open spec fn outcome(r: Result<Option<FilterRule>, ParseError>) -> Result<Option<RuleView>, ParseError> {
    match r {
        Ok(Some(rule)) => Ok(Some(rule@)),
        Ok(None) => Ok(None),
        Err(e) => Err(e),
    }
}

struct OptionSet {
    wanted: TypeSet,
    unwanted: TypeSet,
    third: bool,
    first: bool,
    included: Vec<Vec<char>>,
    excluded: Vec<Vec<char>>,
}

impl OptionSet {
    spec fn view(self) -> OptionsView {
        OptionsView {
            wanted: self.wanted,
            unwanted: self.unwanted,
            third: self.third,
            first: self.first,
            included: views(self.included@),
            excluded: views(self.excluded@),
        }
    }
}

spec fn options_outcome(r: Result<OptionSet, ParseError>) -> Result<OptionsView, ParseError> {
    match r {
        Ok(o) => Ok(o.view()),
        Err(e) => Err(e),
    }
}

fn add_domain(acc: OptionSet, entry: &[char]) -> (r: Result<OptionSet, ParseError>)
    ensures
        options_outcome(r) == domain_added(acc.view(), entry@),
{
    let negated = entry.len() > 0 && entry[0] == '~';
    let name = if negated {
        slice_subrange(entry, 1, entry.len())
    } else {
        entry
    };
    if name.len() == 0 || !host_chars_only(name, 0, name.len()) {
        return Err(ParseError::MalformedOption);
    }
    let mut acc = acc;
    let ghost before = acc.view();
    if negated {
        acc.excluded.push(lowered(name));
        assert(views(acc.excluded@) =~= before.excluded.push(lower(name@)));
    } else {
        acc.included.push(lowered(name));
        assert(views(acc.included@) =~= before.included.push(lower(name@)));
    }
    Ok(acc)
}

fn add_domains(acc: OptionSet, list: &[char]) -> (r: Result<OptionSet, ParseError>)
    ensures
        options_outcome(r) == domains_added(acc.view(), split(list@, '|'), 0),
{
    let entries = split_text(list, '|');
    let ghost start = acc.view();
    let mut sum = acc;
    let mut i: usize = 0;
    while i < entries.len()
        invariant
            i <= entries.len(),
            views(entries@) == split(list@, '|'),
            start == acc.view(),
            domains_added(start, views(entries@), 0) == domains_added(sum.view(), views(entries@), i as int),
        decreases entries.len() - i,
    {
        assert(views(entries@)[i as int] == entries@[i as int]@);
        match add_domain(sum, entries[i].as_slice()) {
            Ok(next) => {
                sum = next;
            },
            Err(e) => {
                return Err(e);
            },
        }
        i += 1;
    }
    Ok(sum)
}

fn add_option(acc: OptionSet, token: &[char]) -> (r: Result<OptionSet, ParseError>)
    ensures
        options_outcome(r) == option_added(acc.view(), token@),
{
    let negated = token.len() > 0 && token[0] == '~';
    let body = if negated {
        slice_subrange(token, 1, token.len())
    } else {
        token
    };
    let eq = index_of(body, '=', 0);
    let key = slice_subrange(body, 0, eq);
    let has_value = eq < body.len();
    if key.len() == 0 {
        return Err(ParseError::MalformedOption);
    }
    let mut acc = acc;
    match type_named(key) {
        Some(t) => {
            if has_value {
                return Err(ParseError::MalformedOption);
            }
            if negated {
                acc.unwanted = acc.unwanted.insert(t);
            } else {
                acc.wanted = acc.wanted.insert(t);
            }
            return Ok(acc);
        },
        None => {},
    }
    if is_word(key, "third-party") || is_word(key, "3p") {
        if has_value {
            return Err(ParseError::MalformedOption);
        }
        if negated {
            acc.first = true;
        } else {
            acc.third = true;
        }
        Ok(acc)
    } else if is_word(key, "first-party") || is_word(key, "1p") {
        if has_value {
            return Err(ParseError::MalformedOption);
        }
        if negated {
            acc.third = true;
        } else {
            acc.first = true;
        }
        Ok(acc)
    } else if is_word(key, "domain") {
        if negated || !has_value {
            return Err(ParseError::MalformedOption);
        }
        add_domains(acc, slice_subrange(body, eq + 1, body.len()))
    } else {
        Err(ParseError::UnknownOption)
    }
}

fn parse_options(text: &[char]) -> (r: Result<OptionSet, ParseError>)
    ensures
        options_outcome(r) == parsed_options(text@),
{
    let tokens = split_text(text, ',');
    let mut acc = OptionSet {
        wanted: TypeSet::none(),
        unwanted: TypeSet::none(),
        third: false,
        first: false,
        included: Vec::new(),
        excluded: Vec::new(),
    };
    assert(acc.view() =~= OptionsView::none()) by {
        assert(views(acc.included@) =~= Seq::<Seq<char>>::empty());
        assert(views(acc.excluded@) =~= Seq::<Seq<char>>::empty());
    }
    let mut i: usize = 0;
    while i < tokens.len()
        invariant
            i <= tokens.len(),
            views(tokens@) == split(text@, ','),
            options_added(OptionsView::none(), views(tokens@), 0) == options_added(acc.view(), views(tokens@), i as int),
        decreases tokens.len() - i,
    {
        assert(views(tokens@)[i as int] == tokens@[i as int]@);
        match add_option(acc, tokens[i].as_slice()) {
            Ok(next) => {
                acc = next;
            },
            Err(e) => {
                return Err(e);
            },
        }
        i += 1;
    }
    let named = !acc.wanted.has_none() || !acc.unwanted.has_none();
    let left = if !acc.wanted.has_none() {
        acc.wanted.without(&acc.unwanted)
    } else if !acc.unwanted.has_none() {
        TypeSet::all().without(&acc.unwanted)
    } else {
        TypeSet::none()
    };
    if (named && left.has_none()) || (acc.third && acc.first) {
        return Err(ParseError::ConflictingOptions);
    }
    if !disjoint_texts(&acc.included, &acc.excluded) {
        return Err(ParseError::DomainConflict);
    }
    Ok(acc)
}

fn parse_plain(p: &[char]) -> (r: Result<(Anchor, Vec<Tok>), ParseError>)
    ensures
        match r {
            Ok((anchor, toks)) => parsed_plain(p@) == Ok::<(Anchor, Seq<Tok>), ParseError>((anchor, toks@)),
            Err(e) => parsed_plain(p@) == Err::<(Anchor, Seq<Tok>), ParseError>(e),
        },
{
    let n = p.len();
    let lead: usize = if n >= 2 && p[0] == '|' && p[1] == '|' {
        2
    } else if n >= 1 && p[0] == '|' {
        1
    } else {
        0
    };
    let tail = n > lead && p[n - 1] == '|';
    let end: usize = if tail {
        n - 1
    } else {
        n
    };
    if tail && lead > 0 {
        return Err(ParseError::InvalidPattern);
    }
    if end <= lead {
        return Err(ParseError::EmptyPattern);
    }
    let anchor = if tail {
        Anchor::End
    } else if lead == 2 {
        Anchor::Hostname
    } else if lead == 1 {
        Anchor::Start
    } else {
        Anchor::Anywhere
    };
    let mut toks: Vec<Tok> = Vec::new();
    let mut i: usize = lead;
    while i < end
        invariant
            lead <= i <= end <= p.len(),
            toks.len() == i - lead,
            forall|k: int| 0 <= k < i - lead ==> #[trigger] toks@[k] == tok_of(p@[lead + k]),
        decreases end - i,
    {
        let c = p[i];
        let tok = if c == '*' {
            Tok::Any
        } else if c == '^' {
            Tok::Sep
        } else {
            Tok::Lit(to_lower(c))
        };
        toks.push(tok);
        i += 1;
    }
    assert(toks@ =~= tokens_of(p@.subrange(lead as int, end as int)));
    Ok((anchor, toks))
}

fn hiding_rule(line: &[char]) -> (r: bool)
    ensures
        r == is_hiding_rule(line@),
{
    let n = line.len();
    let mut i: usize = 0;
    while i < n
        invariant
            i <= n,
            n == line.len(),
            forall|k: int| 0 <= k < i ==> !hiding_marker_at(line@, k),
        decreases n - i,
    {
        if n - i >= 2 && line[i] == '#' && (line[i + 1] == '#' || (n - i >= 3 && (line[i + 1] == '@' || line[i + 1]
            == '?') && line[i + 2] == '#')) {
            assert(hiding_marker_at(line@, i as int));
            return true;
        }
        i += 1;
    }
    false
}

fn parse_pattern(p: &[char]) -> (r: Result<(Anchor, Pattern), ParseError>)
    ensures
        match r {
            Ok((anchor, pattern)) => parsed_pattern(p@) == Ok::<(Anchor, PatternView), ParseError>((anchor, pattern@)),
            Err(e) => parsed_pattern(p@) == Err::<(Anchor, PatternView), ParseError>(e),
        },
{
    let n = p.len();
    if n >= 2 && p[0] == '/' && p[n - 1] == '/' {
        let written = slice_subrange(p, 1, n - 1);
        if written.len() == 0 {
            return Err(ParseError::EmptyPattern);
        }
        match Expression::new(written) {
            Some(e) => Ok((Anchor::Anywhere, Pattern::Regex(e))),
            None => Err(ParseError::InvalidRegex),
        }
    } else {
        match parse_plain(p) {
            Ok((anchor, toks)) => Ok((anchor, Pattern::Plain(toks))),
            Err(e) => Err(e),
        }
    }
}

fn no_options() -> (o: OptionSet)
    ensures
        o.view() == OptionsView::none(),
{
    let o = OptionSet {
        wanted: TypeSet::none(),
        unwanted: TypeSet::none(),
        third: false,
        first: false,
        included: Vec::new(),
        excluded: Vec::new(),
    };
    assert(views(o.included@) =~= Seq::<Seq<char>>::empty());
    assert(views(o.excluded@) =~= Seq::<Seq<char>>::empty());
    o
}

/// Puts a rule together from a pattern and options that were accepted.
fn make_rule(anchor: Anchor, pattern: Pattern, exception: bool, options: OptionSet) -> (r: FilterRule)
    requires
        rule_of(anchor, pattern@, exception, options.view()).well_formed(),
    ensures
        r@ == rule_of(anchor, pattern@, exception, options.view()),
{
    let types = if !options.wanted.has_none() {
        options.wanted.without(&options.unwanted)
    } else if !options.unwanted.has_none() {
        TypeSet::all().without(&options.unwanted)
    } else {
        TypeSet::none()
    };
    FilterRule::assemble(
        pattern,
        anchor,
        exception,
        types,
        options.included,
        options.excluded,
        options.third,
        options.first,
    )
}

proof fn lemma_rule_well_formed(p: Seq<char>, text: Seq<char>, has_options: bool, exception: bool)
    requires
        parsed_pattern(p) is Ok,
        has_options ==> parsed_options(text) is Ok,
    ensures
        rule_of(
            parsed_pattern(p)->Ok_0.0,
            parsed_pattern(p)->Ok_0.1,
            exception,
            if has_options {
                parsed_options(text)->Ok_0
            } else {
                OptionsView::none()
            },
        ).well_formed(),
{
}

fn parse_body(body: &[char], exception: bool) -> (r: Result<Option<FilterRule>, ParseError>)
    ensures
        outcome(r) == parsed_body(body@, exception),
{
    let n = body.len();
    let mark = if n >= 2 && body[0] == '/' && body[n - 1] == '/' {
        None
    } else {
        last_index_of(body, '$', n)
    };
    let ghost text = Seq::<char>::empty();
    let (options, pattern_text) = match mark {
        Some(m) => {
            proof {
                text = body@.subrange(m + 1, n as int);
            }
            match parse_options(slice_subrange(body, m + 1, n)) {
                Ok(o) => (o, slice_subrange(body, 0, m)),
                Err(e) => {
                    return Err(e);
                },
            }
        },
        None => (no_options(), body),
    };
    match parse_pattern(pattern_text) {
        Ok((anchor, pattern)) => {
            proof {
                lemma_rule_well_formed(pattern_text@, text, mark is Some, exception);
            }
            Ok(Some(make_rule(anchor, pattern, exception, options)))
        },
        Err(e) => Err(e),
    }
}

/// Reads one line of a filter list, given as characters.
pub fn parse_line(line: &[char]) -> (r: Result<Option<FilterRule>, ParseError>)
    ensures
        outcome(r) == parsed_line(line@),
{
    let t = trimmed(line);
    if t.len() == 0 || t[0] == '!' || t[0] == '[' {
        return Ok(None);
    }
    if hiding_rule(t) {
        return Err(ParseError::Unsupported);
    }
    if t.len() >= 2 && t[0] == '@' && t[1] == '@' {
        parse_body(slice_subrange(t, 2, t.len()), true)
    } else {
        parse_body(t, false)
    }
}

/// Reads one line of a filter list: `Ok(None)` for a blank line or a
/// comment, a rule, or the reason for which the line is not accepted.
pub fn parse_rule(line: &str) -> (r: Result<Option<FilterRule>, ParseError>)
    ensures
        outcome(r) == parsed_line(line@),
{
    let chars = chars_of(line);
    parse_line(chars.as_slice())
}

} // verus!
