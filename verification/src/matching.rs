//! The matching engine: walks a rule set in file order and lets the first
//! applicable entry decide whether a path may be fetched.

use vstd::prelude::*;
use vstd::string::StrSliceExecFns;
use crate::grammar::{char_eq_ci, eq_ci, seq_eq_ci};
use crate::model::{EntryView, Robots, RobotsParser, Rule, RuleView, rules_view};

verus! {

/// Is `pre` a prefix of `s`?
pub open spec fn is_prefix(pre: Seq<char>, s: Seq<char>) -> bool {
    pre.len() <= s.len() && forall|k: int| 0 <= k < pre.len() ==> pre[k] == s[k]
}

/// The pattern a rule matches against; an `Extension` rule has the empty
/// pattern, so it matches every path.
pub open spec fn rule_pattern(r: RuleView) -> Seq<char> {
    match r {
        RuleView::Allow { pattern } => pattern,
        RuleView::Disallow { pattern } => pattern,
        RuleView::Extension => Seq::empty(),
    }
}

/// A rule applies to a path when its pattern is `*` or a prefix of the path.
pub open spec fn rule_matches(r: RuleView, path: Seq<char>) -> bool {
    rule_pattern(r) == seq!['*'] || is_prefix(rule_pattern(r), path)
}

/// Does a rule, once it applies, permit the fetch?
pub open spec fn rule_is_allow(r: RuleView) -> bool {
    r is Allow
}

/// The portion of an agent identifier before its first `/`, or all of it.
pub open spec fn spec_find_slash(s: Seq<char>, i: int) -> int
    decreases s.len() - i,
{
    if i < 0 || i >= s.len() {
        i
    } else if s[i] == '/' {
        i
    } else {
        spec_find_slash(s, i + 1)
    }
}

pub open spec fn agent_prefix(agent: Seq<char>) -> Seq<char> {
    agent.subrange(0, spec_find_slash(agent, 0))
}

pub proof fn lemma_find_slash_bounds(s: Seq<char>, i: int)
    requires
        0 <= i <= s.len(),
    ensures
        i <= spec_find_slash(s, i) <= s.len(),
    decreases s.len() - i,
{
    if i < s.len() && s[i] != '/' {
        lemma_find_slash_bounds(s, i + 1);
    }
}

/// Is an entry applicable to a request? A group applies when its token is
/// `*` or equals, ASCII-case-insensitively, the agent's name before any `/`
/// version suffix; a global rule applies when its rule matches the path.
pub open spec fn entry_applicable(e: EntryView, agent: Seq<char>, path: Seq<char>) -> bool {
    match e {
        EntryView::UserAgent { token, .. } => token == seq!['*'] || seq_eq_ci(
            token,
            agent_prefix(agent),
        ),
        EntryView::GlobalRule { rule } => rule_matches(rule, path),
    }
}

/// The decision of a group: the first rule whose pattern matches decides;
/// when no rule in the group matches, the path is implicitly allowed.
pub open spec fn group_decision(rules: Seq<RuleView>, path: Seq<char>) -> bool
    decreases rules.len(),
{
    if rules.len() == 0 {
        true
    } else if rule_matches(rules[0], path) {
        rule_is_allow(rules[0])
    } else {
        group_decision(rules.drop_first(), path)
    }
}

/// The decision of an applicable entry.
pub open spec fn entry_allowed(e: EntryView, path: Seq<char>) -> bool {
    match e {
        EntryView::UserAgent { rules, .. } => group_decision(rules, path),
        EntryView::GlobalRule { rule } => rule_is_allow(rule),
    }
}

/// The fetch decision for a decoded path: the first applicable entry in file
/// order wins; when no entry applies, the fetch is denied.
pub open spec fn decision(entries: Seq<EntryView>, agent: Seq<char>, path: Seq<char>) -> bool
    decreases entries.len(),
{
    if entries.len() == 0 {
        false
    } else if entry_applicable(entries[0], agent, path) {
        entry_allowed(entries[0], path)
    } else {
        decision(entries.drop_first(), agent, path)
    }
}

// ---------------------------------------------------------------------------
// Executable matching
// ---------------------------------------------------------------------------

fn str_prefix_of(pre: &str, s: &str) -> (r: bool)
    ensures
        r == is_prefix(pre@, s@),
{
    let np = pre.unicode_len();
    let ns = s.unicode_len();
    if np > ns {
        return false;
    }
    let mut k: usize = 0;
    while k < np
        invariant
            0 <= k <= np,
            np == pre@.len(),
            ns == s@.len(),
            np <= ns,
            forall|j: int| 0 <= j < k ==> pre@[j] == s@[j],
        decreases np - k,
    {
        if pre.get_char(k) != s.get_char(k) {
            return false;
        }
        k = k + 1;
    }
    true
}

fn is_star(p: &str) -> (r: bool)
    ensures
        r == (p@ == seq!['*']),
{
    let n = p.unicode_len();
    if n == 1 && p.get_char(0) == '*' {
        proof {
            assert(p@ =~= seq!['*']);
        }
        true
    } else {
        false
    }
}

impl Rule {
    /// Does this rule apply to the given (already decoded) path?
    pub fn is_applicable(&self, path: &str) -> (r: bool)
        ensures
            r == rule_matches(self@, path@),
    {
        match self {
            Rule::Allow(p) => is_star(p.as_str()) || str_prefix_of(p.as_str(), path),
            Rule::Disallow(p) => is_star(p.as_str()) || str_prefix_of(p.as_str(), path),
            Rule::Extension => true,
        }
    }

    /// Does this rule, once it applies, permit the fetch?
    pub fn allowed(&self) -> (r: bool)
        ensures
            r == rule_is_allow(self@),
    {
        match self {
            Rule::Allow(_) => true,
            Rule::Disallow(_) => false,
            Rule::Extension => false,
        }
    }
}

fn find_slash(s: &str, n: usize) -> (r: usize)
    requires
        n == s@.len(),
    ensures
        r as int == spec_find_slash(s@, 0),
        r <= n,
{
    let mut j: usize = 0;
    loop
        invariant
            0 <= j <= n,
            n == s@.len(),
            spec_find_slash(s@, 0) == spec_find_slash(s@, j as int),
        decreases n - j,
    {
        if j == n {
            return j;
        }
        if s.get_char(j) == '/' {
            return j;
        }
        j = j + 1;
    }
}

/// Does a group's token cover the given agent?
fn agent_token_matches(tok: &str, agent: &str) -> (r: bool)
    ensures
        r == (tok@ == seq!['*'] || seq_eq_ci(tok@, agent_prefix(agent@))),
{
    if is_star(tok) {
        return true;
    }
    let na = agent.unicode_len();
    let sl = find_slash(agent, na);
    proof {
        lemma_find_slash_bounds(agent@, 0);
    }
    let nt = tok.unicode_len();
    if nt != sl {
        proof {
            assert(agent_prefix(agent@).len() == sl);
        }
        return false;
    }
    let mut k: usize = 0;
    while k < nt
        invariant
            0 <= k <= nt,
            nt == tok@.len(),
            nt == sl,
            sl as int == spec_find_slash(agent@, 0),
            sl <= na,
            na == agent@.len(),
            tok@ != seq!['*'],
            forall|j: int| 0 <= j < k ==> eq_ci(#[trigger] tok@[j], agent@[j]),
        decreases nt - k,
    {
        if !char_eq_ci(tok.get_char(k), agent.get_char(k)) {
            proof {
                assert(agent_prefix(agent@)[k as int] == agent@[k as int]);
                assert(!eq_ci(tok@[k as int], agent_prefix(agent@)[k as int]));
            }
            return false;
        }
        k = k + 1;
    }
    proof {
        assert(seq_eq_ci(tok@, agent_prefix(agent@))) by {
            assert forall|j: int| 0 <= j < tok@.len() implies eq_ci(
                #[trigger] tok@[j],
                agent_prefix(agent@)[j],
            ) by {
                assert(agent_prefix(agent@)[j] == agent@[j]);
            }
        }
    }
    true
}

/// The decision of a group's rule list for a path.
fn group_decide(rules: &Vec<Rule>, path: &str) -> (r: bool)
    ensures
        r == group_decision(rules_view(rules@), path@),
{
    let ghost full = rules_view(rules@);
    let len = rules.len();
    let mut idx: usize = 0;
    proof {
        assert(full.skip(0) =~= full);
    }
    loop
        invariant
            0 <= idx <= len,
            len == rules@.len(),
            full == rules_view(rules@),
            group_decision(full, path@) == group_decision(full.skip(idx as int), path@),
        decreases len - idx,
    {
        if idx == len {
            return true;
        }
        let ru = &rules[idx];
        if ru.is_applicable(path) {
            return ru.allowed();
        }
        proof {
            assert(full.skip(idx as int).drop_first() =~= full.skip(idx as int + 1));
        }
        idx = idx + 1;
    }
}

impl Robots {
    /// Is this entry applicable to a request by `agent` for `path`?
    pub fn is_applicable(&self, agent: &str, path: &str) -> (r: bool)
        ensures
            r == entry_applicable(self@, agent@, path@),
    {
        match self {
            Robots::UserAgent(tok, _) => agent_token_matches(tok.as_str(), agent),
            Robots::GlobalRule(ru) => ru.is_applicable(path),
        }
    }

    /// The decision of this entry, once it has been found applicable: a
    /// group is decided by the first of its rules that matches the path, and
    /// implicitly allows when none matches; a global rule decides by itself.
    pub fn is_allowed(&self, path: &str) -> (r: bool)
        ensures
            r == entry_allowed(self@, path@),
    {
        match self {
            Robots::UserAgent(_, rules) => group_decide(rules, path),
            Robots::GlobalRule(ru) => ru.allowed(),
        }
    }
}

impl RobotsParser {
    /// Decides if `agent` may fetch the already extracted and decoded `path`
    /// under this rule set: the first applicable entry in file order wins,
    /// and when no entry applies the fetch is denied.
    pub fn can_fetch_path(&self, agent: &str, path: &str) -> (r: bool)
        ensures
            r == decision(self@, agent@, path@),
    {
        let len = self.rules.len();
        let mut idx: usize = 0;
        proof {
            assert(self@.skip(0) =~= self@);
        }
        loop
            invariant
                0 <= idx <= len,
                len == self.rules@.len(),
                decision(self@, agent@, path@) == decision(self@.skip(idx as int), agent@, path@),
            decreases len - idx,
        {
            if idx == len {
                return false;
            }
            let e = &self.rules[idx];
            if e.is_applicable(agent, path) {
                return e.is_allowed(path);
            }
            proof {
                assert(self@.skip(idx as int).drop_first() =~= self@.skip(idx as int + 1));
            }
            idx = idx + 1;
        }
    }
}

// ---------------------------------------------------------------------------
// URL handling, through the outside url and percent-encoding crates
// ---------------------------------------------------------------------------

/// The path component of the absolute URL that a string denotes, or nothing
/// when the string is not an absolute URL.
pub uninterp spec fn url_path_of(url: Seq<char>) -> Option<Seq<char>>;

/// The percent-decoding of a path, or nothing when the decoded bytes are not
/// valid UTF-8.
pub uninterp spec fn percent_decoded(path: Seq<char>) -> Option<Seq<char>>;

/// Relies on `url::Url::parse` and `url::Url::path`: parsing yields an
/// absolute URL or fails, and `path` hands back its path component; both
/// are functions of the input characters alone.
#[verifier::external_body]
fn extract_url_path(url: &str) -> (r: Option<String>)
    ensures
        r is Some <==> url_path_of(url@) is Some,
        r matches Some(p) ==> url_path_of(url@) == Some(p@),
{
    match url::Url::parse(url) {
        Ok(u) => Some(u.path().to_owned()),
        Err(_) => None,
    }
}

/// Relies on `percent_encoding::percent_decode_str` and
/// `PercentDecode::decode_utf8`: each `%` followed by two hex digits becomes
/// the byte they denote, and the result comes back exactly when it is valid
/// UTF-8; a function of the input characters alone.
#[verifier::external_body]
fn percent_decode_path(path: &str) -> (r: Option<String>)
    ensures
        r is Some <==> percent_decoded(path@) is Some,
        r matches Some(d) ==> percent_decoded(path@) == Some(d@),
{
    match percent_encoding::percent_decode_str(path).decode_utf8() {
        Ok(c) => Some(c.into_owned()),
        Err(_) => None,
    }
}

/// The fetch decision for a full URL: its path is extracted and
/// percent-decoded, and the rule set decides; a URL that is not absolute, or
/// whose decoded path is not text, is never fetchable.
pub open spec fn spec_can_fetch(entries: Seq<EntryView>, agent: Seq<char>, url: Seq<char>) -> bool {
    match url_path_of(url) {
        Some(p) => match percent_decoded(p) {
            Some(d) => decision(entries, agent, d),
            None => false,
        },
        None => false,
    }
}

impl RobotsParser {
    /// Decides if a path given by a full URL can be fetched by an agent.
    ///
    /// The URL's path component is percent-decoded and compared against the
    /// stored patterns, which are never decoded. A URL that cannot be parsed
    /// is simply not fetchable: the answer is `false`, never an error.
    pub fn can_fetch(&self, agent: &str, url: &str) -> (r: bool)
        ensures
            r == spec_can_fetch(self@, agent@, url@),
    {
        match extract_url_path(url) {
            Some(p) => match percent_decode_path(p.as_str()) {
                Some(d) => self.can_fetch_path(agent, d.as_str()),
                None => false,
            },
            None => false,
        }
    }
}

} // verus!
