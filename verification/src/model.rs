//! The data model: path rules, rule entries, and the ordered rule set.

use vstd::prelude::*;

verus! {

/// A single path rule from a robots.txt document.
///
/// `Allow` and `Disallow` carry the pattern exactly as written in the
/// document (never percent-decoded). `Extension` stands for a recognized but
/// unhandled directive; the current grammar never produces it, but it is kept
/// as a variant for forward compatibility.
#[derive(Debug, PartialEq, Eq, Clone)]
pub enum Rule {
    Allow(String),
    Disallow(String),
    Extension,
}

/// Abstract value of a [`Rule`]: the variant with its pattern as a character
/// sequence.
pub enum RuleView {
    Allow { pattern: Seq<char> },
    Disallow { pattern: Seq<char> },
    Extension,
}

impl View for Rule {
    type V = RuleView;

    open spec fn view(&self) -> RuleView {
        match self {
            Rule::Allow(s) => RuleView::Allow { pattern: s@ },
            Rule::Disallow(s) => RuleView::Disallow { pattern: s@ },
            Rule::Extension => RuleView::Extension,
        }
    }
}

/// One entry of a rule set.
///
/// `UserAgent` is a group: an agent token together with the ordered rules
/// that apply to that agent. `GlobalRule` is a bare rule that stands outside
/// any group and applies to every agent.
#[derive(Debug, PartialEq, Eq, Clone)]
pub enum Robots {
    UserAgent(String, Vec<Rule>),
    GlobalRule(Rule),
}

/// Abstract value of a [`Robots`] entry.
pub enum EntryView {
    UserAgent { token: Seq<char>, rules: Seq<RuleView> },
    GlobalRule { rule: RuleView },
}

/// Abstract value of a sequence of rules.
pub open spec fn rules_view(rs: Seq<Rule>) -> Seq<RuleView> {
    rs.map_values(|r: Rule| r@)
}

impl View for Robots {
    type V = EntryView;

    open spec fn view(&self) -> EntryView {
        match self {
            Robots::UserAgent(tok, rs) => EntryView::UserAgent {
                token: tok@,
                rules: rules_view(rs@),
            },
            Robots::GlobalRule(r) => EntryView::GlobalRule { rule: r@ },
        }
    }
}

/// An ordered rule set: entries in file order, which is semantically
/// significant, since the first applicable entry decides a query.
///
/// A `RobotsParser` is immutable once constructed; queries never change it.
#[derive(Debug, PartialEq, Eq, Clone)]
pub struct RobotsParser {
    pub rules: Vec<Robots>,
}

/// Abstract value of a sequence of entries.
pub open spec fn entries_view(es: Seq<Robots>) -> Seq<EntryView> {
    es.map_values(|e: Robots| e@)
}

impl View for RobotsParser {
    type V = Seq<EntryView>;

    open spec fn view(&self) -> Seq<EntryView> {
        entries_view(self.rules@)
    }
}

impl RobotsParser {
    /// Creates a new `RobotsParser` from the given `Robots` rules.
    pub fn new(rules: Vec<Robots>) -> (r: RobotsParser)
        ensures
            r@ == entries_view(rules@),
    {
        RobotsParser { rules }
    }
}

} // verus!
