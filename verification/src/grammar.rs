//! The grammar: a specification-level description of the robots.txt format
//! and a verified scanner that follows it exactly.
//!
//! Lines are terminated by CRLF (a final line may go without a terminator),
//! `#` starts a comment that runs to the line terminator, directive keywords
//! are matched case-insensitively, and a run of consecutive `User-agent:`
//! declarations shares the rule block that follows it.

use vstd::prelude::*;
use vstd::string::StrSliceExecFns;
use crate::model::{EntryView, Robots, RobotsParser, Rule, RuleView, entries_view, rules_view};

verus! {

// ---------------------------------------------------------------------------
// Character classes
// ---------------------------------------------------------------------------

/// Horizontal whitespace: what may separate a directive from its value.
pub open spec fn is_hspace(c: char) -> bool {
    c == ' ' || c == '\t'
}

/// A character of a user-agent token: ASCII alphanumeric or `*`.
pub open spec fn is_token_char(c: char) -> bool {
    ('a' as u32 <= c as u32 && c as u32 <= 'z' as u32)
    || ('A' as u32 <= c as u32 && c as u32 <= 'Z' as u32)
    || ('0' as u32 <= c as u32 && c as u32 <= '9' as u32)
    || c == '*'
}

/// A character that ends a path value: whitespace or the start of a comment.
pub open spec fn is_value_end(c: char) -> bool {
    c == ' ' || c == '\t' || c == '\r' || c == '\n' || c == '#'
}

/// ASCII-case-insensitive character equality.
pub open spec fn eq_ci(a: char, b: char) -> bool {
    a == b
    || ('A' as u32 <= a as u32 && a as u32 <= 'Z' as u32 && a as u32 + 32 == b as u32)
    || ('A' as u32 <= b as u32 && b as u32 <= 'Z' as u32 && b as u32 + 32 == a as u32)
}

/// ASCII-case-insensitive sequence equality.
pub open spec fn seq_eq_ci(x: Seq<char>, y: Seq<char>) -> bool {
    x.len() == y.len() && forall|k: int| 0 <= k < x.len() ==> eq_ci(#[trigger] x[k], #[trigger] y[k])
}

fn hspace(c: char) -> (r: bool)
    ensures
        r == is_hspace(c),
{
    c == ' ' || c == '\t'
}

fn token_char(c: char) -> (r: bool)
    ensures
        r == is_token_char(c),
{
    let u = c as u32;
    (97 <= u && u <= 122) || (65 <= u && u <= 90) || (48 <= u && u <= 57) || c == '*'
}

fn value_end_char(c: char) -> (r: bool)
    ensures
        r == is_value_end(c),
{
    c == ' ' || c == '\t' || c == '\r' || c == '\n' || c == '#'
}

pub(crate) fn char_eq_ci(a: char, b: char) -> (r: bool)
    ensures
        r == eq_ci(a, b),
{
    let au = a as u32;
    let bu = b as u32;
    a == b || (65 <= au && au <= 90 && au + 32 == bu) || (65 <= bu && bu <= 90 && bu + 32 == au)
}

// ---------------------------------------------------------------------------
// Primitive scanners
// ---------------------------------------------------------------------------

/// Position of the first non-space character at or after `i`.
pub open spec fn spec_skip_spaces(s: Seq<char>, i: int) -> int
    decreases s.len() - i,
{
    if i < 0 || i >= s.len() {
        i
    } else if is_hspace(s[i]) {
        spec_skip_spaces(s, i + 1)
    } else {
        i
    }
}

pub proof fn lemma_skip_spaces_bounds(s: Seq<char>, i: int)
    requires
        0 <= i <= s.len(),
    ensures
        i <= spec_skip_spaces(s, i) <= s.len(),
    decreases s.len() - i,
{
    if i < s.len() && is_hspace(s[i]) {
        lemma_skip_spaces_bounds(s, i + 1);
    }
}

/// End of the user-agent token that starts at `i`.
pub open spec fn spec_token_end(s: Seq<char>, i: int) -> int
    decreases s.len() - i,
{
    if i < 0 || i >= s.len() {
        i
    } else if is_token_char(s[i]) {
        spec_token_end(s, i + 1)
    } else {
        i
    }
}

pub proof fn lemma_token_end_bounds(s: Seq<char>, i: int)
    requires
        0 <= i <= s.len(),
    ensures
        i <= spec_token_end(s, i) <= s.len(),
    decreases s.len() - i,
{
    if i < s.len() && is_token_char(s[i]) {
        lemma_token_end_bounds(s, i + 1);
    }
}

/// End of the path value that starts at `i`.
pub open spec fn spec_value_end(s: Seq<char>, i: int) -> int
    decreases s.len() - i,
{
    if i < 0 || i >= s.len() {
        i
    } else if !is_value_end(s[i]) {
        spec_value_end(s, i + 1)
    } else {
        i
    }
}

pub proof fn lemma_value_end_bounds(s: Seq<char>, i: int)
    requires
        0 <= i <= s.len(),
    ensures
        i <= spec_value_end(s, i) <= s.len(),
    decreases s.len() - i,
{
    if i < s.len() && !is_value_end(s[i]) {
        lemma_value_end_bounds(s, i + 1);
    }
}

/// Does a CRLF line terminator stand at position `i`?
pub open spec fn crlf_at(s: Seq<char>, i: int) -> bool {
    0 <= i && i + 2 <= s.len() && s[i] == '\r' && s[i + 1] == '\n'
}

/// Position of the first CRLF at or after `i`, if any.
pub open spec fn spec_find_crlf(s: Seq<char>, i: int) -> Option<int>
    decreases s.len() - i,
{
    if i < 0 || i + 2 > s.len() {
        None
    } else if s[i] == '\r' && s[i + 1] == '\n' {
        Some(i)
    } else {
        spec_find_crlf(s, i + 1)
    }
}

pub proof fn lemma_find_crlf_bounds(s: Seq<char>, i: int)
    requires
        spec_find_crlf(s, i) is Some,
    ensures
        i <= spec_find_crlf(s, i)->Some_0,
        crlf_at(s, spec_find_crlf(s, i)->Some_0),
    decreases s.len() - i,
{
    if !(i < 0 || i + 2 > s.len()) && !(s[i] == '\r' && s[i + 1] == '\n') {
        lemma_find_crlf_bounds(s, i + 1);
    }
}

// ---------------------------------------------------------------------------
// Executable primitive scanners
// ---------------------------------------------------------------------------

fn skip_spaces(s: &str, n: usize, i: usize) -> (r: usize)
    requires
        n == s@.len(),
        i <= n,
    ensures
        r == spec_skip_spaces(s@, i as int),
        i <= r <= n,
{
    let mut j = i;
    while j < n && hspace(s.get_char(j))
        invariant
            i <= j <= n,
            n == s@.len(),
            spec_skip_spaces(s@, i as int) == spec_skip_spaces(s@, j as int),
        decreases n - j,
    {
        j = j + 1;
    }
    j
}

fn token_end(s: &str, n: usize, i: usize) -> (r: usize)
    requires
        n == s@.len(),
        i <= n,
    ensures
        r == spec_token_end(s@, i as int),
        i <= r <= n,
{
    let mut j = i;
    while j < n && token_char(s.get_char(j))
        invariant
            i <= j <= n,
            n == s@.len(),
            spec_token_end(s@, i as int) == spec_token_end(s@, j as int),
        decreases n - j,
    {
        j = j + 1;
    }
    j
}

fn value_end(s: &str, n: usize, i: usize) -> (r: usize)
    requires
        n == s@.len(),
        i <= n,
    ensures
        r == spec_value_end(s@, i as int),
        i <= r <= n,
{
    let mut j = i;
    while j < n && !value_end_char(s.get_char(j))
        invariant
            i <= j <= n,
            n == s@.len(),
            spec_value_end(s@, i as int) == spec_value_end(s@, j as int),
        decreases n - j,
    {
        j = j + 1;
    }
    j
}

fn find_crlf(s: &str, n: usize, i: usize) -> (r: Option<usize>)
    requires
        n == s@.len(),
        i <= n,
    ensures
        r is Some <==> spec_find_crlf(s@, i as int) is Some,
        r matches Some(q) ==> spec_find_crlf(s@, i as int) == Some(q as int) && q + 2 <= n,
{
    let mut j = i;
    loop
        invariant
            i <= j <= n,
            n == s@.len(),
            spec_find_crlf(s@, i as int) == spec_find_crlf(s@, j as int),
        decreases n - j,
    {
        if n - j < 2 {
            return None;
        }
        if s.get_char(j) == '\r' && s.get_char(j + 1) == '\n' {
            return Some(j);
        }
        j = j + 1;
    }
}

// ---------------------------------------------------------------------------
// Directives: keywords, comments, rule lines, user-agent groups
// ---------------------------------------------------------------------------

/// The `User-agent:` keyword, in its canonical lower-case spelling.
pub open spec fn kw_user_agent() -> Seq<char> {
    "user-agent:"@
}

/// The `Allow:` keyword, in its canonical lower-case spelling.
pub open spec fn kw_allow() -> Seq<char> {
    "allow:"@
}

/// The `Disallow:` keyword, in its canonical lower-case spelling.
pub open spec fn kw_disallow() -> Seq<char> {
    "disallow:"@
}

/// Does the keyword `kw` stand at position `i`, compared case-insensitively?
pub open spec fn matches_kw(s: Seq<char>, i: int, kw: Seq<char>) -> bool {
    0 <= i && i + kw.len() <= s.len() && seq_eq_ci(s.subrange(i, i + kw.len()), kw)
}

/// A comment at `i`: a `#` whose line still has a CRLF terminator. The
/// result is the position of that terminator, which is not consumed.
pub open spec fn spec_comment(s: Seq<char>, i: int) -> Option<int> {
    if 0 <= i < s.len() && s[i] == '#' && spec_find_crlf(s, i + 1) is Some {
        Some(spec_find_crlf(s, i + 1)->Some_0)
    } else {
        None
    }
}

/// A whole comment line: the comment together with its CRLF terminator.
pub open spec fn spec_comment_line(s: Seq<char>, i: int) -> Option<int> {
    match spec_comment(s, i) {
        Some(q) => Some(q + 2),
        None => None,
    }
}

/// Position after an optional trailing comment; its terminator stays.
pub open spec fn spec_after_opt_comment(s: Seq<char>, i: int) -> int {
    match spec_comment(s, i) {
        Some(q) => q,
        None => i,
    }
}

pub proof fn lemma_comment_bounds(s: Seq<char>, i: int)
    requires
        spec_comment(s, i) is Some,
    ensures
        i < spec_comment(s, i)->Some_0,
        crlf_at(s, spec_comment(s, i)->Some_0),
{
    lemma_find_crlf_bounds(s, i + 1);
}

pub proof fn lemma_comment_line_bounds(s: Seq<char>, i: int)
    requires
        spec_comment_line(s, i) is Some,
    ensures
        i < spec_comment_line(s, i)->Some_0 <= s.len(),
{
    lemma_comment_bounds(s, i);
}

pub proof fn lemma_after_opt_comment_bounds(s: Seq<char>, i: int)
    requires
        0 <= i <= s.len(),
    ensures
        i <= spec_after_opt_comment(s, i) <= s.len(),
{
    if spec_comment(s, i) is Some {
        lemma_comment_bounds(s, i);
    }
}

/// The value this rule line denotes. An empty `Disallow:` is sugar for
/// "allow everything" and is rewritten to `Allow` with the pattern `*`; all
/// other patterns are stored verbatim.
pub open spec fn make_rule(is_allow: bool, pattern: Seq<char>) -> RuleView {
    if !is_allow && pattern.len() == 0 {
        RuleView::Allow { pattern: seq!['*'] }
    } else if is_allow {
        RuleView::Allow { pattern }
    } else {
        RuleView::Disallow { pattern }
    }
}

/// The rest of a rule line after its keyword: optional spaces, the pattern,
/// an optional comment, then a CRLF terminator, which only the final line of
/// the input may leave out.
pub open spec fn spec_rule_tail(s: Seq<char>, p: int, is_allow: bool) -> Option<(int, RuleView)> {
    let j = spec_skip_spaces(s, p);
    let k = spec_value_end(s, j);
    let m = spec_after_opt_comment(s, k);
    let pattern = s.subrange(j, k);
    if m == s.len() {
        Some((m, make_rule(is_allow, pattern)))
    } else if crlf_at(s, m) {
        Some((m + 2, make_rule(is_allow, pattern)))
    } else {
        None
    }
}

/// One rule line: `Allow:` or `Disallow:`, its pattern, and its terminator.
pub open spec fn spec_rule(s: Seq<char>, i: int) -> Option<(int, RuleView)> {
    if matches_kw(s, i, kw_allow()) {
        spec_rule_tail(s, i + kw_allow().len(), true)
    } else if matches_kw(s, i, kw_disallow()) {
        spec_rule_tail(s, i + kw_disallow().len(), false)
    } else {
        None
    }
}

pub proof fn lemma_rule_tail_bounds(s: Seq<char>, p: int, is_allow: bool)
    requires
        0 <= p <= s.len(),
        spec_rule_tail(s, p, is_allow) is Some,
    ensures
        p <= (spec_rule_tail(s, p, is_allow)->Some_0).0 <= s.len(),
{
    lemma_skip_spaces_bounds(s, p);
    let j = spec_skip_spaces(s, p);
    lemma_value_end_bounds(s, j);
    let k = spec_value_end(s, j);
    lemma_after_opt_comment_bounds(s, k);
}

pub proof fn lemma_rule_bounds(s: Seq<char>, i: int)
    requires
        spec_rule(s, i) is Some,
    ensures
        i < (spec_rule(s, i)->Some_0).0 <= s.len(),
{
    reveal_strlit("allow:");
    reveal_strlit("disallow:");
    if matches_kw(s, i, kw_allow()) {
        lemma_rule_tail_bounds(s, i + kw_allow().len(), true);
    } else {
        lemma_rule_tail_bounds(s, i + kw_disallow().len(), false);
    }
}

/// The header of a user-agent group: the `User-agent:` keyword, optional
/// spaces, a non-empty token, an optional comment, and a CRLF terminator,
/// which a header may never leave out.
pub open spec fn spec_ua_header(s: Seq<char>, i: int) -> Option<(int, Seq<char>)> {
    if matches_kw(s, i, kw_user_agent()) {
        let j = spec_skip_spaces(s, i + kw_user_agent().len());
        let k = spec_token_end(s, j);
        if k == j {
            None
        } else {
            let m = spec_after_opt_comment(s, k);
            if crlf_at(s, m) {
                Some((m + 2, s.subrange(j, k)))
            } else {
                None
            }
        }
    } else {
        None
    }
}

pub proof fn lemma_ua_header_bounds(s: Seq<char>, i: int)
    requires
        spec_ua_header(s, i) is Some,
    ensures
        i < (spec_ua_header(s, i)->Some_0).0 <= s.len(),
{
    reveal_strlit("user-agent:");
    lemma_skip_spaces_bounds(s, i + kw_user_agent().len());
    let j = spec_skip_spaces(s, i + kw_user_agent().len());
    lemma_token_end_bounds(s, j);
    let k = spec_token_end(s, j);
    lemma_after_opt_comment_bounds(s, k);
}

/// A run of rule lines with interleaved comment lines: the rules collected
/// and the position where neither a rule nor a comment line matches.
pub open spec fn spec_rules_list(s: Seq<char>, i: int) -> (int, Seq<RuleView>)
    decreases s.len() - i,
    via spec_rules_list_decreases
{
    match spec_rule(s, i) {
        Some((j, r)) => {
            let jr = spec_rules_list(s, j);
            (jr.0, seq![r] + jr.1)
        },
        None => match spec_comment_line(s, i) {
            Some(j) => spec_rules_list(s, j),
            None => (i, Seq::<RuleView>::empty()),
        },
    }
}

#[via_fn]
proof fn spec_rules_list_decreases(s: Seq<char>, i: int) {
    if spec_rule(s, i) is Some {
        lemma_rule_bounds(s, i);
    } else if spec_comment_line(s, i) is Some {
        lemma_comment_line_bounds(s, i);
    }
}

pub proof fn lemma_rules_list_bounds(s: Seq<char>, i: int)
    requires
        0 <= i <= s.len(),
    ensures
        i <= spec_rules_list(s, i).0 <= s.len(),
    decreases s.len() - i,
{
    if spec_rule(s, i) is Some {
        lemma_rule_bounds(s, i);
        lemma_rules_list_bounds(s, (spec_rule(s, i)->Some_0).0);
    } else if spec_comment_line(s, i) is Some {
        lemma_comment_line_bounds(s, i);
        lemma_rules_list_bounds(s, spec_comment_line(s, i)->Some_0);
    }
}

/// A user-agent group: its header, then the run of rule lines that follows.
/// A group whose run is empty takes its rules from the group that follows
/// it, if one begins right there: this is how several consecutive
/// `User-agent:` declarations come to share one rule block. The lookahead
/// consumes nothing; the following group is parsed again as its own entry.
pub open spec fn spec_user_agent(s: Seq<char>, i: int) -> Option<(int, EntryView)>
    decreases s.len() - i,
    via spec_user_agent_decreases
{
    match spec_ua_header(s, i) {
        None => None,
        Some((hdr_end, tok)) => {
            let jr = spec_rules_list(s, hdr_end);
            let j2 = jr.0;
            let rules = jr.1;
            if rules.len() == 0 {
                match spec_user_agent(s, j2) {
                    Some((_, EntryView::UserAgent { token: _, rules: r2 })) => Some(
                        (j2, EntryView::UserAgent { token: tok, rules: r2 }),
                    ),
                    _ => Some((j2, EntryView::UserAgent { token: tok, rules })),
                }
            } else {
                Some((j2, EntryView::UserAgent { token: tok, rules }))
            }
        },
    }
}

#[via_fn]
proof fn spec_user_agent_decreases(s: Seq<char>, i: int) {
    if spec_ua_header(s, i) is Some {
        lemma_ua_header_bounds(s, i);
        lemma_rules_list_bounds(s, (spec_ua_header(s, i)->Some_0).0);
    }
}

pub proof fn lemma_user_agent_bounds(s: Seq<char>, i: int)
    requires
        spec_user_agent(s, i) is Some,
    ensures
        i < (spec_user_agent(s, i)->Some_0).0 <= s.len(),
{
    lemma_ua_header_bounds(s, i);
    lemma_rules_list_bounds(s, (spec_ua_header(s, i)->Some_0).0);
}

/// The top-level scan: comment lines and blank lines are skipped, a
/// user-agent header opens a group, and a bare rule line becomes a global
/// rule. The scan fails when none of the alternatives matches before the
/// input ends.
pub open spec fn spec_scan(s: Seq<char>, i: int) -> Option<Seq<EntryView>>
    decreases s.len() - i,
    via spec_scan_decreases
{
    if i >= s.len() {
        Some(Seq::<EntryView>::empty())
    } else {
        match spec_comment_line(s, i) {
            Some(j) => spec_scan(s, j),
            None => if crlf_at(s, i) {
                spec_scan(s, i + 2)
            } else {
                match spec_user_agent(s, i) {
                    Some((j, e)) => match spec_scan(s, j) {
                        Some(rest) => Some(seq![e] + rest),
                        None => None,
                    },
                    None => match spec_rule(s, i) {
                        Some((j, r)) => match spec_scan(s, j) {
                            Some(rest) => Some(seq![EntryView::GlobalRule { rule: r }] + rest),
                            None => None,
                        },
                        None => None,
                    },
                }
            },
        }
    }
}

#[via_fn]
proof fn spec_scan_decreases(s: Seq<char>, i: int) {
    if i < s.len() {
        if spec_comment_line(s, i) is Some {
            lemma_comment_line_bounds(s, i);
        } else if !crlf_at(s, i) {
            if spec_user_agent(s, i) is Some {
                lemma_user_agent_bounds(s, i);
            } else if spec_rule(s, i) is Some {
                lemma_rule_bounds(s, i);
            }
        }
    }
}

/// The synthesized first entry of every rule set: the robots.txt resource
/// itself is always fetchable.
pub open spec fn robots_txt_allow() -> EntryView {
    EntryView::GlobalRule { rule: RuleView::Allow { pattern: "/robots.txt"@ } }
}

/// The whole parse: the synthesized `/robots.txt` allowance, then the
/// entries of the scanned document, in file order.
pub open spec fn parse_spec(s: Seq<char>) -> Option<Seq<EntryView>> {
    match spec_scan(s, 0) {
        Some(es) => Some(seq![robots_txt_allow()] + es),
        None => None,
    }
}

// ---------------------------------------------------------------------------
// Executable scanner
// ---------------------------------------------------------------------------

fn match_kw(s: &str, n: usize, i: usize, kw: &str) -> (r: bool)
    requires
        n == s@.len(),
        i <= n,
    ensures
        r == matches_kw(s@, i as int, kw@),
{
    let m = kw.unicode_len();
    if m > n - i {
        return false;
    }
    let ghost sub = s@.subrange(i as int, i as int + kw@.len());
    let mut k: usize = 0;
    while k < m
        invariant
            0 <= k <= m,
            n == s@.len(),
            i + m <= n,
            m == kw@.len(),
            sub == s@.subrange(i as int, i as int + kw@.len()),
            forall|j: int| 0 <= j < k ==> eq_ci(#[trigger] sub[j], kw@[j]),
        decreases m - k,
    {
        if !char_eq_ci(s.get_char(i + k), kw.get_char(k)) {
            proof {
                assert(sub[k as int] == s@[i + k]);
            }
            return false;
        }
        proof {
            assert(sub[k as int] == s@[i + k]);
        }
        k = k + 1;
    }
    proof {
        assert(seq_eq_ci(sub, kw@));
    }
    true
}

fn crlf_check(s: &str, n: usize, i: usize) -> (r: bool)
    requires
        n == s@.len(),
        i <= n,
    ensures
        r == crlf_at(s@, i as int),
{
    n - i >= 2 && s.get_char(i) == '\r' && s.get_char(i + 1) == '\n'
}

fn after_opt_comment(s: &str, n: usize, i: usize) -> (r: usize)
    requires
        n == s@.len(),
        i <= n,
    ensures
        r == spec_after_opt_comment(s@, i as int),
        i <= r <= n,
{
    if i < n && s.get_char(i) == '#' {
        match find_crlf(s, n, i + 1) {
            Some(q) => {
                proof {
                    lemma_find_crlf_bounds(s@, i + 1);
                }
                q
            },
            None => i,
        }
    } else {
        i
    }
}

fn scan_comment(s: &str, n: usize, i: usize) -> (r: Option<usize>)
    requires
        n == s@.len(),
        i <= n,
    ensures
        r is Some <==> spec_comment(s@, i as int) is Some,
        r matches Some(q) ==> spec_comment(s@, i as int) == Some(q as int) && i < q && q + 2 <= n,
{
    if i < n && s.get_char(i) == '#' {
        match find_crlf(s, n, i + 1) {
            Some(q) => {
                proof {
                    lemma_find_crlf_bounds(s@, i + 1);
                }
                Some(q)
            },
            None => None,
        }
    } else {
        None
    }
}

fn scan_comment_line(s: &str, n: usize, i: usize) -> (r: Option<usize>)
    requires
        n == s@.len(),
        i <= n,
    ensures
        r is Some <==> spec_comment_line(s@, i as int) is Some,
        r matches Some(j) ==> spec_comment_line(s@, i as int) == Some(j as int) && i < j <= n,
{
    match scan_comment(s, n, i) {
        Some(q) => Some(q + 2),
        None => None,
    }
}

/// Builds the rule a line denotes from its pattern's bounds.
fn mk_rule(is_allow: bool, s: &str, n: usize, j: usize, k: usize) -> (r: Rule)
    requires
        n == s@.len(),
        j <= k <= n,
    ensures
        r@ == make_rule(is_allow, s@.subrange(j as int, k as int)),
{
    if !is_allow && j == k {
        proof {
            reveal_strlit("*");
            assert("*"@ =~= seq!['*']);
        }
        Rule::Allow("*".to_owned())
    } else {
        let pattern = s.substring_char(j, k).to_owned();
        if is_allow {
            Rule::Allow(pattern)
        } else {
            Rule::Disallow(pattern)
        }
    }
}

fn scan_rule_tail(s: &str, n: usize, p: usize, is_allow: bool) -> (r: Option<(usize, Rule)>)
    requires
        n == s@.len(),
        p <= n,
    ensures
        r is Some <==> spec_rule_tail(s@, p as int, is_allow) is Some,
        r matches Some((j, ru)) ==> spec_rule_tail(s@, p as int, is_allow) == Some(
            (j as int, ru@),
        ) && p <= j <= n,
{
    let j = skip_spaces(s, n, p);
    let k = value_end(s, n, j);
    let m = after_opt_comment(s, n, k);
    if m == n {
        Some((m, mk_rule(is_allow, s, n, j, k)))
    } else if crlf_check(s, n, m) {
        Some((m + 2, mk_rule(is_allow, s, n, j, k)))
    } else {
        None
    }
}

fn scan_rule(s: &str, n: usize, i: usize) -> (r: Option<(usize, Rule)>)
    requires
        n == s@.len(),
        i <= n,
    ensures
        r is Some <==> spec_rule(s@, i as int) is Some,
        r matches Some((j, ru)) ==> spec_rule(s@, i as int) == Some((j as int, ru@)) && i < j
            <= n,
{
    if match_kw(s, n, i, "allow:") {
        let p = i + "allow:".unicode_len();
        let r = scan_rule_tail(s, n, p, true);
        proof {
            if spec_rule(s@, i as int) is Some {
                lemma_rule_bounds(s@, i as int);
            }
        }
        r
    } else if match_kw(s, n, i, "disallow:") {
        let p = i + "disallow:".unicode_len();
        let r = scan_rule_tail(s, n, p, false);
        proof {
            if spec_rule(s@, i as int) is Some {
                lemma_rule_bounds(s@, i as int);
            }
        }
        r
    } else {
        None
    }
}

/// Collects the run of rule lines and interleaved comment lines at `i`.
fn scan_rules(s: &str, n: usize, i: usize) -> (r: (usize, Vec<Rule>))
    requires
        n == s@.len(),
        i <= n,
    ensures
        r.0 as int == spec_rules_list(s@, i as int).0,
        rules_view(r.1@) == spec_rules_list(s@, i as int).1,
        i <= r.0 <= n,
{
    let mut cur = i;
    let mut acc: Vec<Rule> = Vec::new();
    loop
        invariant
            i <= cur <= n,
            n == s@.len(),
            spec_rules_list(s@, i as int).0 == spec_rules_list(s@, cur as int).0,
            spec_rules_list(s@, i as int).1 == rules_view(acc@) + spec_rules_list(
                s@,
                cur as int,
            ).1,
        decreases n - cur,
    {
        match scan_rule(s, n, cur) {
            Some((j, ru)) => {
                proof {
                    assert(rules_view(acc@.push(ru)) =~= rules_view(acc@).push(ru@));
                    assert(rules_view(acc@) + (seq![ru@] + spec_rules_list(s@, j as int).1)
                        =~= rules_view(acc@).push(ru@) + spec_rules_list(s@, j as int).1);
                }
                acc.push(ru);
                cur = j;
            },
            None => {
                match scan_comment_line(s, n, cur) {
                    Some(j) => {
                        cur = j;
                    },
                    None => {
                        proof {
                            assert(rules_view(acc@) + Seq::<RuleView>::empty() =~= rules_view(
                                acc@,
                            ));
                        }
                        return (cur, acc);
                    },
                }
            },
        }
    }
}

/// Scans one user-agent group, with the lookahead that lets a run of bare
/// headers share the rule block that follows them.
fn scan_user_agent(s: &str, n: usize, i: usize) -> (r: Option<(usize, Robots)>)
    requires
        n == s@.len(),
        i <= n,
    ensures
        r is Some <==> spec_user_agent(s@, i as int) is Some,
        r matches Some((j, e)) ==> spec_user_agent(s@, i as int) == Some((j as int, e@)) && i
            < j <= n,
    decreases n - i,
{
    if !match_kw(s, n, i, "user-agent:") {
        return None;
    }
    let p = i + "user-agent:".unicode_len();
    let j = skip_spaces(s, n, p);
    let k = token_end(s, n, j);
    if k == j {
        return None;
    }
    let m = after_opt_comment(s, n, k);
    if !crlf_check(s, n, m) {
        return None;
    }
    let hdr_end = m + 2;
    let tok = s.substring_char(j, k).to_owned();
    let (j2, rules) = scan_rules(s, n, hdr_end);
    proof {
        lemma_ua_header_bounds(s@, i as int);
    }
    let rules2 = if rules.len() == 0 {
        proof {
            assert(rules_view(rules@).len() == 0);
        }
        match scan_user_agent(s, n, j2) {
            Some((_, e)) => match e {
                Robots::UserAgent(_, r2) => r2,
                Robots::GlobalRule(_) => rules,
            },
            None => rules,
        }
    } else {
        rules
    };
    Some((j2, Robots::UserAgent(tok, rules2)))
}

/// Scans the whole document into its entries, in file order.
fn scan_entries(s: &str, n: usize) -> (r: Option<Vec<Robots>>)
    requires
        n == s@.len(),
    ensures
        r is Some <==> spec_scan(s@, 0) is Some,
        r matches Some(es) ==> spec_scan(s@, 0) == Some(entries_view(es@)),
{
    let mut cur: usize = 0;
    let mut acc: Vec<Robots> = Vec::new();
    loop
        invariant
            0 <= cur <= n,
            n == s@.len(),
            spec_scan(s@, cur as int) matches Some(t) ==> spec_scan(s@, 0) == Some(
                entries_view(acc@) + t,
            ),
            spec_scan(s@, cur as int) is None ==> spec_scan(s@, 0) is None,
        decreases n - cur,
    {
        if cur == n {
            proof {
                assert(entries_view(acc@) + Seq::<EntryView>::empty() =~= entries_view(acc@));
            }
            return Some(acc);
        }
        match scan_comment_line(s, n, cur) {
            Some(j) => {
                cur = j;
            },
            None => {
                if crlf_check(s, n, cur) {
                    cur = cur + 2;
                } else {
                    match scan_user_agent(s, n, cur) {
                        Some((j, e)) => {
                            proof {
                                assert(entries_view(acc@.push(e)) =~= entries_view(acc@).push(
                                    e@,
                                ));
                                if spec_scan(s@, j as int) is Some {
                                    let t = spec_scan(s@, j as int)->Some_0;
                                    assert(entries_view(acc@) + (seq![e@] + t) =~= entries_view(
                                        acc@,
                                    ).push(e@) + t);
                                }
                            }
                            acc.push(e);
                            cur = j;
                        },
                        None => {
                            match scan_rule(s, n, cur) {
                                Some((j, ru)) => {
                                    let e = Robots::GlobalRule(ru);
                                    proof {
                                        assert(entries_view(acc@.push(e)) =~= entries_view(
                                            acc@,
                                        ).push(e@));
                                        if spec_scan(s@, j as int) is Some {
                                            let t = spec_scan(s@, j as int)->Some_0;
                                            assert(entries_view(acc@) + (seq![e@] + t)
                                                =~= entries_view(acc@).push(e@) + t);
                                        }
                                    }
                                    acc.push(e);
                                    cur = j;
                                },
                                None => {
                                    return None;
                                },
                            }
                        },
                    }
                }
            },
        }
    }
}

impl RobotsParser {
    /// Parses a robots.txt document.
    ///
    /// Succeeds exactly when the grammar accepts the whole input, and then
    /// returns the rule set the grammar gives it: the synthesized
    /// `/robots.txt` allowance first, then the document's entries in file
    /// order. A malformed line anywhere makes the whole parse fail.
    pub fn parse(input: &str) -> (r: Result<RobotsParser, &'static str>)
        ensures
            r is Ok <==> parse_spec(input@) is Some,
            r matches Ok(p) ==> parse_spec(input@) == Some(p@),
    {
        let n = input.unicode_len();
        match scan_entries(input, n) {
            Some(es) => {
                let ghost es0 = es@;
                let g = Robots::GlobalRule(Rule::Allow("/robots.txt".to_owned()));
                proof {
                    assert(g@ == robots_txt_allow());
                }
                let mut rules = es;
                rules.insert(0, g);
                proof {
                    assert(rules@ =~= seq![rules@[0]] + es0);
                    assert(entries_view(rules@) =~= seq![robots_txt_allow()] + entries_view(es0));
                }
                Ok(RobotsParser { rules })
            },
            None => Err("Could not parse Robots.txt"),
        }
    }

    /// Scans one comment at the start of `input`: a `#` running to a CRLF
    /// terminator, which is not consumed. Returns the terminator's position.
    pub fn comment_parser(input: &str) -> (r: Option<usize>)
        ensures
            r is Some <==> spec_comment(input@, 0) is Some,
            r matches Some(q) ==> spec_comment(input@, 0) == Some(q as int),
    {
        let n = input.unicode_len();
        scan_comment(input, n, 0)
    }

    /// Scans one whole comment line at the start of `input`, terminator
    /// included. Returns the position after it.
    pub fn comment_line_parser(input: &str) -> (r: Option<usize>)
        ensures
            r is Some <==> spec_comment_line(input@, 0) is Some,
            r matches Some(j) ==> spec_comment_line(input@, 0) == Some(j as int),
    {
        let n = input.unicode_len();
        scan_comment_line(input, n, 0)
    }

    /// Scans exactly one rule line at the start of `input`. Returns the
    /// position after the line and the rule it denotes.
    pub fn parse_rule(input: &str) -> (r: Option<(usize, Rule)>)
        ensures
            r is Some <==> spec_rule(input@, 0) is Some,
            r matches Some((j, ru)) ==> spec_rule(input@, 0) == Some((j as int, ru@)),
    {
        let n = input.unicode_len();
        scan_rule(input, n, 0)
    }

    /// Scans as many rule lines (with interleaved comment lines) as stand at
    /// the start of `input`. Returns where the run ends and the rules found.
    pub fn parse_rules(input: &str) -> (r: (usize, Vec<Rule>))
        ensures
            r.0 as int == spec_rules_list(input@, 0).0,
            rules_view(r.1@) == spec_rules_list(input@, 0).1,
    {
        let n = input.unicode_len();
        scan_rules(input, n, 0)
    }

    /// Scans one user-agent group at the start of `input`, with the shared
    /// rule block of stacked declarations resolved. Returns the position
    /// after the group and its entry.
    pub fn parse_user_agent(input: &str) -> (r: Option<(usize, Robots)>)
        ensures
            r is Some <==> spec_user_agent(input@, 0) is Some,
            r matches Some((j, e)) ==> spec_user_agent(input@, 0) == Some((j as int, e@)),
    {
        let n = input.unicode_len();
        scan_user_agent(input, n, 0)
    }
}

} // verus!
