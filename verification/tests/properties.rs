use robots::Robots;
use robots::RobotsParser;
use robots::Rule;

#[test]
fn parse_twice_yields_equal_rule_sets() {
    let text = "User-agent: a\r\nDisallow: /x\r\n\r\nAllow: /y\r\n";
    let first = RobotsParser::parse(text);
    let second = RobotsParser::parse(text);
    assert!(first.is_ok());
    assert_eq!(first.unwrap(), second.unwrap());
}

#[test]
fn robots_txt_is_always_fetchable() {
    let text = "User-agent: *\r\nDisallow: /\r\n";
    let parsed = RobotsParser::parse(text).unwrap();
    assert!(parsed.can_fetch("anybot", "http://example.com/robots.txt"));
    assert!(parsed.can_fetch("*", "http://example.com/robots.txt"));
    assert!(!parsed.can_fetch("anybot", "http://example.com/other.txt"));
}

#[test]
fn empty_disallow_permits_every_path() {
    let text = "User-agent: lucky\r\nDisallow: \r\n";
    let parsed = RobotsParser::parse(text).unwrap();
    assert!(parsed.can_fetch("lucky", "http://example.com/"));
    assert!(parsed.can_fetch("lucky", "http://example.com/a/b/c.html"));
    assert!(parsed.can_fetch("lucky", "http://example.com/deep?query=1"));
}

#[test]
fn empty_disallow_becomes_allow_star() {
    let parsed = RobotsParser::parse_rule("Disallow: \r\n");
    assert_eq!(parsed, Some((12, Rule::Allow("*".to_owned()))));
}

#[test]
fn first_match_wins_over_later_more_specific_rule() {
    let text = "User-agent: bot\r\nDisallow: /a\r\nAllow: /a/b\r\n";
    let parsed = RobotsParser::parse(text).unwrap();
    assert!(!parsed.can_fetch("bot", "http://example.com/a/b"));
    assert!(!parsed.can_fetch("bot", "http://example.com/a"));
    assert!(parsed.can_fetch("bot", "http://example.com/c"));
}

#[test]
fn agent_grouping_is_case_insensitive() {
    let text = "User-agent: excite\r\nDisallow: /x\r\n";
    let parsed = RobotsParser::parse(text).unwrap();
    // The group matches, so /x is denied and everything else is allowed.
    assert!(!parsed.can_fetch("Excite/2.0", "http://example.com/x"));
    assert!(parsed.can_fetch("Excite/2.0", "http://example.com/y"));
    // An unrelated agent matches no group and is denied outright.
    assert!(!parsed.can_fetch("Other/1.0", "http://example.com/y"));
}

#[test]
fn malformed_url_is_not_fetchable() {
    let text = "User-agent: *\r\nDisallow: \r\n";
    let parsed = RobotsParser::parse(text).unwrap();
    assert!(!parsed.can_fetch("*", "not a url"));
    assert!(!parsed.can_fetch("*", ""));
    assert!(!parsed.can_fetch("*", "/relative/path"));
}

#[test]
fn stacked_agents_share_one_rule_block() {
    let text = "User-agent: a\r\nUser-agent: b\r\nDisallow: /x\r\n";
    let parsed = RobotsParser::parse(text).unwrap();
    let expected = RobotsParser::new(vec![
        Robots::GlobalRule(Rule::Allow("/robots.txt".to_owned())),
        Robots::UserAgent("a".to_owned(), vec![Rule::Disallow("/x".to_owned())]),
        Robots::UserAgent("b".to_owned(), vec![Rule::Disallow("/x".to_owned())]),
    ]);
    assert_eq!(parsed, expected);
}

#[test]
fn malformed_line_aborts_the_parse() {
    assert!(RobotsParser::parse("this is not a directive\r\n").is_err());
    assert!(RobotsParser::parse("User-agent: *\r\nNonsense: /\r\n").is_err());
}

#[test]
fn rule_before_any_group_is_global() {
    let text = "Allow: /free\r\nUser-agent: bot\r\nDisallow: /\r\n";
    let parsed = RobotsParser::parse(text).unwrap();
    let expected = RobotsParser::new(vec![
        Robots::GlobalRule(Rule::Allow("/robots.txt".to_owned())),
        Robots::GlobalRule(Rule::Allow("/free".to_owned())),
        Robots::UserAgent("bot".to_owned(), vec![Rule::Disallow("/".to_owned())]),
    ]);
    assert_eq!(parsed, expected);
    // The global rule applies to every agent.
    assert!(parsed.can_fetch("someone", "http://example.com/free/page.html"));
}

#[test]
fn empty_document_denies_by_default() {
    let parsed = RobotsParser::parse("").unwrap();
    let expected = RobotsParser::new(vec![Robots::GlobalRule(Rule::Allow(
        "/robots.txt".to_owned(),
    ))]);
    assert_eq!(parsed, expected);
    assert!(!parsed.can_fetch("*", "http://example.com/anything"));
    assert!(parsed.can_fetch("*", "http://example.com/robots.txt"));
}

#[test]
fn percent_decoding_applies_to_the_request_only() {
    let text = "User-agent: *\r\nAllow: /~mak\r\nDisallow: /\r\n";
    let parsed = RobotsParser::parse(text).unwrap();
    // The encoded request decodes to /~mak..., which the stored pattern matches.
    assert!(parsed.can_fetch("*", "http://example.com/%7Emak/page.html"));
    assert!(!parsed.can_fetch("*", "http://example.com/%7Ejim/page.html"));
}

#[test]
fn direct_path_queries_skip_url_parsing() {
    let text = "User-agent: bot\r\nDisallow: /private\r\nAllow: /\r\n";
    let parsed = RobotsParser::parse(text).unwrap();
    assert!(!parsed.can_fetch_path("bot", "/private/file.html"));
    assert!(parsed.can_fetch_path("bot", "/public/file.html"));
    assert!(!parsed.can_fetch_path("stranger", "/public/file.html"));
}

#[test]
fn rule_applicability_and_decision() {
    let a = Rule::Allow("/serv".to_owned());
    assert!(a.is_applicable("/services/fast.html"));
    assert!(!a.is_applicable("/x"));
    assert!(a.allowed());
    let d = Rule::Disallow("*".to_owned());
    assert!(d.is_applicable("/anything"));
    assert!(!d.allowed());
    assert!(Rule::Extension.is_applicable("/whatever"));
    assert!(!Rule::Extension.allowed());
}

#[test]
fn entry_applicability_and_decision() {
    let group = Robots::UserAgent("bot".to_owned(), vec![]);
    assert!(group.is_applicable("Bot/1.0", "/x"));
    assert!(!group.is_applicable("other", "/x"));
    // A group with no matching rule implicitly allows.
    assert!(group.is_allowed("/x"));
    let global = Robots::GlobalRule(Rule::Disallow("/priv".to_owned()));
    assert!(global.is_applicable("anyone", "/private"));
    assert!(!global.is_applicable("anyone", "/public"));
    assert!(!global.is_allowed("/private"));
}

#[test]
fn trailing_comment_after_value() {
    let parsed = RobotsParser::parse_rule("Allow: /#1234 \r\n");
    assert_eq!(parsed, Some((16, Rule::Allow("/".to_owned()))));
}
