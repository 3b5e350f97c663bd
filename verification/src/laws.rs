//! Laws of the library, each stated over the same spec functions that the
//! public functions' contracts use.

use vstd::prelude::*;
use crate::grammar::{make_rule, parse_spec, robots_txt_allow};
use crate::matching::{
    decision, entry_allowed, entry_applicable, group_decision, is_prefix, rule_is_allow,
    rule_matches,
};
use crate::model::{EntryView, RuleView};

verus! {

/// Parsing is deterministic: two parses of the same text yield structurally
/// equal rule sets.
pub proof fn lemma_parse_idempotent(text: Seq<char>, a: Seq<EntryView>, b: Seq<EntryView>)
    requires
        parse_spec(text) == Some(a),
        parse_spec(text) == Some(b),
    ensures
        a == b,
{
}

/// First-match precedence within a group: the first rule whose pattern
/// matches the path decides the group, whatever rules follow it.
pub proof fn lemma_group_first_match(rules: Seq<RuleView>, path: Seq<char>, k: int)
    requires
        0 <= k < rules.len(),
        rule_matches(rules[k], path),
        forall|j: int| 0 <= j < k ==> !rule_matches(#[trigger] rules[j], path),
    ensures
        group_decision(rules, path) == rule_is_allow(rules[k]),
    decreases k,
{
    if k > 0 {
        assert(!rule_matches(rules[0], path));
        assert forall|j: int| 0 <= j < k - 1 implies !rule_matches(
            #[trigger] rules.drop_first()[j],
            path,
        ) by {
            assert(rules.drop_first()[j] == rules[j + 1]);
        }
        assert(rules.drop_first()[k - 1] == rules[k]);
        lemma_group_first_match(rules.drop_first(), path, k - 1);
    }
}

/// First-match precedence across entries: the first applicable entry in
/// file order decides the fetch, whatever entries follow it.
pub proof fn lemma_first_applicable_decides(
    entries: Seq<EntryView>,
    agent: Seq<char>,
    path: Seq<char>,
    k: int,
)
    requires
        0 <= k < entries.len(),
        entry_applicable(entries[k], agent, path),
        forall|j: int| 0 <= j < k ==> !entry_applicable(#[trigger] entries[j], agent, path),
    ensures
        decision(entries, agent, path) == entry_allowed(entries[k], path),
    decreases k,
{
    if k > 0 {
        assert(!entry_applicable(entries[0], agent, path));
        assert forall|j: int| 0 <= j < k - 1 implies !entry_applicable(
            #[trigger] entries.drop_first()[j],
            agent,
            path,
        ) by {
            assert(entries.drop_first()[j] == entries[j + 1]);
        }
        assert(entries.drop_first()[k - 1] == entries[k]);
        lemma_first_applicable_decides(entries.drop_first(), agent, path, k - 1);
    }
}

/// The implicit allowance: every successfully parsed rule set permits every
/// path that begins with `/robots.txt`, to every agent, whatever the
/// document's own rules say.
pub proof fn lemma_robots_txt_allowed(
    text: Seq<char>,
    entries: Seq<EntryView>,
    agent: Seq<char>,
    path: Seq<char>,
)
    requires
        parse_spec(text) == Some(entries),
        is_prefix("/robots.txt"@, path),
    ensures
        decision(entries, agent, path),
{
    assert(entries[0] == robots_txt_allow());
    assert(entry_applicable(entries[0], agent, path));
    assert(entry_allowed(entries[0], path));
}

/// Empty-disallow sugar: the rule a bare `Disallow:` denotes permits every
/// path, so a group holding only that rule permits every path for its agent.
pub proof fn lemma_empty_disallow_allows_all(token: Seq<char>, path: Seq<char>)
    ensures
        make_rule(false, Seq::<char>::empty()) == (RuleView::Allow { pattern: seq!['*'] }),
        entry_allowed(
            EntryView::UserAgent { token, rules: seq![make_rule(false, Seq::<char>::empty())] },
            path,
        ),
{
    let rules = seq![make_rule(false, Seq::<char>::empty())];
    assert(rule_matches(rules[0], path));
    assert(rule_is_allow(rules[0]));
}

} // verus!
