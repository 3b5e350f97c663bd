use robots::Robots;
use robots::RobotsParser;
use robots::Rule;

#[test]
fn user_agent_different_spellings() {
    assert!(RobotsParser::parse_user_agent("User-Agent: test\r\n\r\n").is_some());
    assert!(RobotsParser::parse_user_agent("user-agent: test\r\n\r\n").is_some());
    assert!(RobotsParser::parse_user_agent("USER-AGENT: test\r\n\r\n").is_some());
}

#[test]
fn user_agent_empty() {
    assert!(RobotsParser::parse_user_agent("User-Agent:\r\n").is_none());
}

#[test]
fn comment() {
    assert!(RobotsParser::comment_parser("# testtest\r\n").is_some());
    assert!(RobotsParser::comment_parser("testtest\r\n").is_none());
    assert!(RobotsParser::comment_parser("#testtest").is_none());
    assert!(RobotsParser::comment_line_parser("# testtest\r\n").is_some());
    assert!(RobotsParser::comment_line_parser("testtest\r\n").is_none());
    assert!(RobotsParser::comment_line_parser("#testtest").is_none());
}

#[test]
fn rule() {
    assert!(RobotsParser::parse_rule("Allow: /\r\n").is_some());
    assert!(RobotsParser::parse_rule("Disallow: /\r\n").is_some());
    assert!(RobotsParser::parse_rule("Allow: /#1234 \r\n").is_some());
    assert!(RobotsParser::parse_rule("Disallow: /\r\n").is_some());
    assert!(RobotsParser::parse_rule("Disallow: \r\n").is_some());
    assert!(RobotsParser::parse_rule("Disallow: /org/plans.html\r\n").is_some());
    assert!(RobotsParser::parse_rule("Disallow: /org/\r\n").is_some());
    assert!(RobotsParser::parse_rule("Allow: /serv\r\n").is_some());
    assert!(RobotsParser::parse_rule("Allow: /~mak\r\n").is_some());
    assert!(RobotsParser::parse_rule("Allow: /~mak\r\n").is_some());
}

#[test]
fn rules() {
    let rules = "Disallow: /index.html?\r\nDisallow: /?\r
Allow: /?hl=\r
Disallow: /?hl=*&\r
Allow: /?hl=*&gws_rd=ssl$\r
Disallow: /?hl=*&*&gws_rd=ssl\r
Allow: /?gws_rd=ssl$";
    let result = vec![
        Rule::Disallow("/index.html?".to_owned()),
        Rule::Disallow("/?".to_owned()),
        Rule::Allow("/?hl=".to_owned()),
        Rule::Disallow("/?hl=*&".to_owned()),
        Rule::Allow("/?hl=*&gws_rd=ssl$".to_owned()),
        Rule::Disallow("/?hl=*&*&gws_rd=ssl".to_owned()),
        Rule::Allow("/?gws_rd=ssl$".to_owned()),
    ];
    let (_, parsed) = RobotsParser::parse_rules(rules);
    assert_eq!(parsed, result);
}

#[test]
fn full_robots() {
    //Taken from https://www.robotstxt.org/norobots-rfc.txt Section 4
    let rules = "# /robots.txt for http://www.fict.org/\r
# comments to webmaster@fict.org\r
\r
User-agent: unhipbot\r
Disallow: /\r
User-agent: webcrawler\r
User-agent: excite\r
Disallow: \r
\r
User-agent: *\r
Disallow: /org/plans.html\r
Allow: /org/\r
Allow: /serv\r
Allow: /~mak\r
Disallow: /";

    let result = RobotsParser::new(vec![
        Robots::GlobalRule(Rule::Allow("/robots.txt".to_owned())),
        Robots::UserAgent("unhipbot".to_owned(), vec![Rule::Disallow("/".to_owned())]),
        Robots::UserAgent("webcrawler".to_owned(), vec![Rule::Allow("*".to_owned())]),
        Robots::UserAgent("excite".to_owned(), vec![Rule::Allow("*".to_owned())]),
        Robots::UserAgent(
            "*".to_owned(),
            vec![
                Rule::Disallow("/org/plans.html".to_owned()),
                Rule::Allow("/org/".to_owned()),
                Rule::Allow("/serv".to_owned()),
                Rule::Allow("/~mak".to_owned()),
                Rule::Disallow("/".to_owned()),
            ],
        ),
    ]);
    let parsed = RobotsParser::parse(rules);
    assert!(parsed.is_ok());
    let parsed = parsed.unwrap();
    assert_eq!(parsed, result);
}

#[test]
fn full_path_check() {
    //Taken from https://www.robotstxt.org/norobots-rfc.txt Section 4
    let rules = "# /robots.txt for http://www.fict.org/\r
# comments to webmaster@fict.org\r
\r
User-agent: unhipbot\r
Disallow: /\r
User-agent: webcrawler\r
User-agent: excite\r
Disallow: \r
\r
User-agent: *\r
Disallow: /org/plans.html\r
Allow: /org/\r
Allow: /serv\r
Allow: /~mak\r
Disallow: /";

    let parsed = RobotsParser::parse(rules);
    assert!(parsed.is_ok());
    let parsed = parsed.unwrap();

    assert!(!parsed.can_fetch("*", "http://www.fict.org/"));
    assert!(!parsed.can_fetch("*", "http://www.fict.org/index.html"));
    assert!(parsed.can_fetch("*", "http://www.fict.org/robots.txt"));
    assert!(parsed.can_fetch("*", "http://www.fict.org/server.html"));
    assert!(parsed.can_fetch("*", "http://www.fict.org/services/fast.html"));
    assert!(parsed.can_fetch("*", "http://www.fict.org/services/slow.html"));
    assert!(!parsed.can_fetch("*", "http://www.fict.org/orgo.gif"));
    assert!(parsed.can_fetch("*", "http://www.fict.org/org/about.html"));
    assert!(!parsed.can_fetch("*", "http://www.fict.org/org/plans.html"));
    assert!(!parsed.can_fetch("*", "http://www.fict.org/%7Ejim/jim.html"));
    assert!(parsed.can_fetch("*", "http://www.fict.org/%7Emak/mak.html"));

    assert!(!parsed.can_fetch("unhipbot", "http://www.fict.org/"));
    assert!(!parsed.can_fetch("unhipbot", "http://www.fict.org/index.html"));
    assert!(parsed.can_fetch("unhipbot", "http://www.fict.org/robots.txt"));
    assert!(!parsed.can_fetch("unhipbot", "http://www.fict.org/server.html"));
    assert!(!parsed.can_fetch("unhipbot", "http://www.fict.org/services/fast.html"));
    assert!(!parsed.can_fetch("unhipbot", "http://www.fict.org/services/slow.html"));
    assert!(!parsed.can_fetch("unhipbot", "http://www.fict.org/orgo.gif"));
    assert!(!parsed.can_fetch("unhipbot", "http://www.fict.org/org/about.html"));
    assert!(!parsed.can_fetch("unhipbot", "http://www.fict.org/org/plans.html"));
    assert!(!parsed.can_fetch("unhipbot", "http://www.fict.org/%7Ejim/jim.html"));
    assert!(!parsed.can_fetch("unhipbot", "http://www.fict.org/%7Emak/mak.html"));

    assert!(parsed.can_fetch("webcrawler", "http://www.fict.org/"));
    assert!(parsed.can_fetch("webcrawler", "http://www.fict.org/index.html"));
    assert!(parsed.can_fetch("webcrawler", "http://www.fict.org/robots.txt"));
    assert!(parsed.can_fetch("webcrawler", "http://www.fict.org/server.html"));
    assert!(parsed.can_fetch("webcrawler", "http://www.fict.org/services/fast.html"));
    assert!(parsed.can_fetch("webcrawler", "http://www.fict.org/services/slow.html"));
    assert!(parsed.can_fetch("webcrawler", "http://www.fict.org/orgo.gif"));
    assert!(parsed.can_fetch("webcrawler", "http://www.fict.org/org/about.html"));
    assert!(parsed.can_fetch("webcrawler", "http://www.fict.org/org/plans.html"));
    assert!(parsed.can_fetch("webcrawler", "http://www.fict.org/%7Ejim/jim.html"));
    assert!(parsed.can_fetch("webcrawler", "http://www.fict.org/%7Emak/mak.html"));

    assert!(parsed.can_fetch("excite", "http://www.fict.org/"));
    assert!(parsed.can_fetch("excite", "http://www.fict.org/index.html"));
    assert!(parsed.can_fetch("excite", "http://www.fict.org/robots.txt"));
    assert!(parsed.can_fetch("excite", "http://www.fict.org/server.html"));
    assert!(parsed.can_fetch("excite", "http://www.fict.org/services/fast.html"));
    assert!(parsed.can_fetch("excite", "http://www.fict.org/services/slow.html"));
    assert!(parsed.can_fetch("excite", "http://www.fict.org/orgo.gif"));
    assert!(parsed.can_fetch("excite", "http://www.fict.org/org/about.html"));
    assert!(parsed.can_fetch("excite", "http://www.fict.org/org/plans.html"));
    assert!(parsed.can_fetch("excite", "http://www.fict.org/%7Ejim/jim.html"));
    assert!(parsed.can_fetch("excite", "http://www.fict.org/%7Emak/mak.html"));
}
