use adblock::engine::{adblock_engine_check, adblock_engine_create, Engine, LineError};
use adblock::matcher::MatchResult;
use adblock::parser::{parse_rule, ParseError};
use adblock::pattern::{matches_plain, Anchor, Tok};
use adblock::request::{site, QueryInputError, Request};
use adblock::resource::ResourceType;
use adblock::rule::{covers, domain_applies, party_applies, resource_applies, FilterRule};
use adblock::text::chars_of;
use adblock::url::locate_host;

fn rule(line: &str) -> FilterRule {
    match parse_rule(line) {
        Ok(Some(r)) => r,
        _ => panic!("no rule in {:?}", line),
    }
}

fn request(url: &str, source: &str, kind: &str) -> Request {
    match Request::new(url, source, kind) {
        Ok(r) => r,
        Err(e) => panic!("{:?}", e),
    }
}

fn blocks(rules: &str, url: &str, source: &str, kind: &str) -> bool {
    Engine::from_rules(rules).check(url, source, kind)
}

fn hits(line: &str, url: &str) -> bool {
    rule(line).matches(&request(url, "https://page.example/", "other"))
}

fn host(url: &str) -> Option<String> {
    let u = chars_of(url);
    locate_host(&u).map(|(a, b)| u[a..b].iter().collect())
}

#[test]
fn host_is_located() {
    assert_eq!(host("https://ads.example/banner.js"), Some("ads.example".to_string()));
    assert_eq!(host("http://a.example"), Some("a.example".to_string()));
    assert_eq!(host("https://a.example:8080/x"), Some("a.example".to_string()));
    assert_eq!(host("https://user:pw@a.example:8080/x@y"), Some("a.example".to_string()));
    assert_eq!(host("https://a.example?q=1"), Some("a.example".to_string()));
    assert_eq!(host("https://a.example#top"), Some("a.example".to_string()));
    assert_eq!(host("ws+x.1://h/"), Some("h".to_string()));
    assert_eq!(locate_host(&chars_of("https://ads.example/banner.js")), Some((8, 19)));
}

#[test]
fn malformed_addresses_have_no_host() {
    assert_eq!(host("not a url"), None);
    assert_eq!(host(""), None);
    assert_eq!(host("://a.example"), None);
    assert_eq!(host("https:/a.example"), None);
    assert_eq!(host("https//a.example"), None);
    assert_eq!(host("https://"), None);
    assert_eq!(host("https:///path"), None);
    assert_eq!(host("1http://a.example"), None);
    assert_eq!(host("ht tp://a.example"), None);
    assert_eq!(host("https://a b.example/"), None);
    assert_eq!(host("https://user@/x"), None);
    assert_eq!(host("https://:80/"), None);
    assert_eq!(host("a.example/path"), None);
}

#[test]
fn request_is_derived_from_its_addresses() {
    let r = request("HTTPS://Ads.Example/Banner.JS", "https://Shop.Example/page", "script");
    assert_eq!(r.url(), "HTTPS://Ads.Example/Banner.JS");
    assert_eq!(r.source_url(), "https://Shop.Example/page");
    assert_eq!(r.resource_type(), ResourceType::Script);
    assert_eq!(r.address().iter().collect::<String>(), "https://ads.example/banner.js");
    assert_eq!(r.host_range(), (8, 19));
    assert_eq!(r.url_domain().iter().collect::<String>(), "ads.example");
    assert_eq!(r.source_domain().iter().collect::<String>(), "shop.example");
    assert!(r.is_third_party());
}

#[test]
fn request_errors() {
    assert!(matches!(
        Request::new("not a url", "https://a.example", "document"),
        Err(QueryInputError::MalformedUrl)
    ));
    assert!(matches!(
        Request::new("not a url", "neither", "document"),
        Err(QueryInputError::MalformedUrl)
    ));
    assert!(matches!(
        Request::new("https://a.example/", "", "document"),
        Err(QueryInputError::MalformedSourceUrl)
    ));
}

#[test]
fn resource_names() {
    let kind = |name: &str| request("https://a.example/", "https://a.example/", name).resource_type();
    assert_eq!(kind("script"), ResourceType::Script);
    assert_eq!(kind("image"), ResourceType::Image);
    assert_eq!(kind("stylesheet"), ResourceType::Stylesheet);
    assert_eq!(kind("xhr"), ResourceType::Xhr);
    assert_eq!(kind("xmlhttprequest"), ResourceType::Xhr);
    assert_eq!(kind("document"), ResourceType::Document);
    assert_eq!(kind("other"), ResourceType::Other);
    assert_eq!(kind("font"), ResourceType::Other);
    assert_eq!(kind(""), ResourceType::Other);
    assert_eq!(kind("Script"), ResourceType::Other);
}

#[test]
fn site_is_the_registrable_domain() {
    let s = |h: &str| site(&chars_of(h)).iter().collect::<String>();
    assert_eq!(s("www.example.com"), "example.com");
    assert_eq!(s("example.com"), "example.com");
    assert_eq!(s("a.b.example.co.uk"), "example.co.uk");
    assert_eq!(s("sub.shop.example"), "shop.example");
    assert_eq!(s("localhost"), "localhost");
    assert_eq!(s("192.168.1.1"), "192.168.1.1");
    assert_eq!(s("co.uk"), "co.uk");
}

#[test]
fn party_goes_by_the_site() {
    let third = |u: &str, s: &str| request(u, s, "other").is_third_party();
    assert!(!third("https://cdn.example.com/x", "https://www.example.com/"));
    assert!(!third("https://example.com/x", "https://example.com/"));
    assert!(third("https://ads.example/x", "https://shop.example/"));
    assert!(third("https://a.co.uk/x", "https://b.co.uk/"));
    assert!(!third("https://x.a.co.uk/x", "https://y.a.co.uk/"));
    assert!(third("https://10.0.1.1/x", "https://192.168.1.1/"));
    assert!(!third("https://10.0.1.1/x", "https://10.0.1.1:8080/"));
}

#[test]
fn literal_pattern_matches_anywhere() {
    assert!(hits("/banner/1", "https://a.example/banner/1.png"));
    assert!(hits("banner", "https://banner.example/"));
    assert!(!hits("/banner/1", "https://a.example/banners/1.png"));
    assert!(hits("/Banner/1", "https://a.example/BANNER/1.png"));
    assert!(hits("e", "https://a.example/"));
}

#[test]
fn wildcard_matches_any_stretch() {
    assert!(hits("/ads/*/banner", "https://a.example/ads/2024/big/banner.png"));
    assert!(hits("/ads/*/banner", "https://a.example/ads//banner.png"));
    assert!(!hits("/ads/*/banner", "https://a.example/ads/banner.png"));
    assert!(hits("a*b*c", "https://x.example/a1b2c"));
    assert!(!hits("c*b*a.", "https://x.example/a1b2c3"));
    assert!(hits("*", "https://x.example/"));
    assert!(hits("*banner*", "https://x.example/banner"));
}

#[test]
fn separator_matches_a_delimiter_or_the_end() {
    assert!(hits("example^", "https://a.example/"));
    assert!(hits("example^", "https://a.example:8080/"));
    assert!(hits("example^", "https://a.example"));
    assert!(hits("example^", "https://a.example?x"));
    assert!(!hits("example^", "https://a.example.org/"));
    assert!(!hits("example^", "https://a.example-b.org/"));
    assert!(!hits("/x^", "https://a.example/x_y"));
    assert!(!hits("/x^", "https://a.example/x%20"));
    assert!(!hits("/x^", "https://a.example/x-y"));
    assert!(!hits("/x^", "https://a.example/x.y"));
    assert!(!hits("/x^", "https://a.example/xy"));
    assert!(hits("/x^", "https://a.example/x,y"));
    assert!(hits("/x^", "https://a.example/x y"));
    assert!(hits("^x^", "https://a.example/x"));
    assert!(hits("x^^", "https://a.example/x"));
    assert!(hits("x^*", "https://a.example/x"));
    assert!(hits("x=1^", "https://a.example/p?x=1&y=2"));
}

#[test]
fn start_anchor() {
    assert!(hits("|https://a.", "https://a.example/"));
    assert!(!hits("|a.example", "https://a.example/"));
    assert!(!hits("|https://a.", "http://x.example/?u=https://a.example"));
    assert!(hits("|*a.example", "https://a.example/"));
}

#[test]
fn end_anchor() {
    assert!(hits(".swf|", "https://a.example/movie.swf"));
    assert!(!hits(".swf|", "https://a.example/movie.swf?x=1"));
    assert!(hits("swf*|", "https://a.example/movie.swf?x=1"));
}

#[test]
fn hostname_anchor() {
    assert!(hits("||ads.example^", "https://ads.example/x"));
    assert!(hits("||ads.example^", "https://www.ads.example/x"));
    assert!(hits("||ads.example^", "http://ads.example"));
    assert!(hits("||ads.example^", "https://user@ads.example:81/x"));
    assert!(!hits("||ads.example^", "https://badads.example/x"));
    assert!(!hits("||ads.example^", "https://a.example/ads.example/"));
    assert!(!hits("||ads.example^", "https://a.example/?u=https://ads.example/"));
    assert!(!hits("||ads.example^", "https://ads.example.org/"));
    assert!(hits("||example/ads", "https://a.example/ads"));
    assert!(!hits("||https", "https://a.example/"));
    assert!(!hits("||/x", "https://a.example/x"));
}

#[test]
fn matcher_on_tokens() {
    let url = chars_of("ab.cd/x");
    let t = |s: &str| -> Vec<Tok> {
        s.chars()
            .map(|c| match c {
                '*' => Tok::Any,
                '^' => Tok::Sep,
                c => Tok::Lit(c),
            })
            .collect()
    };
    assert!(matches_plain(Anchor::Anywhere, &t(""), &url, 0, 5));
    assert!(matches_plain(Anchor::Anywhere, &t("cd/"), &url, 0, 5));
    assert!(matches_plain(Anchor::Start, &t("ab"), &url, 0, 5));
    assert!(!matches_plain(Anchor::Start, &t("b."), &url, 0, 5));
    assert!(matches_plain(Anchor::End, &t("/x"), &url, 0, 5));
    assert!(!matches_plain(Anchor::End, &t("cd"), &url, 0, 5));
    assert!(matches_plain(Anchor::End, &t("cd*"), &url, 0, 5));
    assert!(matches_plain(Anchor::Hostname, &t("cd"), &url, 0, 5));
    assert!(matches_plain(Anchor::Hostname, &t("ab"), &url, 0, 5));
    assert!(!matches_plain(Anchor::Hostname, &t("b."), &url, 0, 5));
    assert!(!matches_plain(Anchor::Hostname, &t("x"), &url, 0, 5));
    assert!(!matches_plain(Anchor::Hostname, &t("cd"), &url, 0, 2));
    assert!(matches_plain(Anchor::Anywhere, &t("x^"), &url, 0, 5));
    assert!(matches_plain(Anchor::End, &t(""), &[], 0, 0));
    assert!(matches_plain(Anchor::Anywhere, &t("*"), &[], 0, 0));
    assert!(matches_plain(Anchor::Anywhere, &t("^"), &[], 0, 0));
    assert!(!matches_plain(Anchor::Anywhere, &t("a"), &[], 0, 0));
}

#[test]
fn regular_expression_rules_match_without_regard_to_case() {
    assert!(hits("/ad[0-9]+\\.js/", "https://a.example/ad42.js"));
    assert!(hits("/ad[0-9]+\\.js/", "https://a.example/AD42.JS"));
    assert!(hits("/AD[0-9]+/", "https://a.example/ad42.js"));
    assert!(!hits("/ad[0-9]+\\.js/", "https://a.example/ad.js"));
    assert!(hits("/^https:\\/\\/[a-z]\\./", "https://a.example/"));
    assert!(!hits("/^example/", "https://a.example/"));
    assert!(hits("/\\.js$/", "https://a.example/x.js"));
    assert!(!hits("/\\.js$/", "https://a.example/x.js?v=1"));
}

#[test]
fn domains_cover_their_subdomains() {
    let c = |d: &str, h: &str| covers(&chars_of(d), &chars_of(h));
    assert!(c("example.com", "example.com"));
    assert!(c("example.com", "sub.example.com"));
    assert!(c("example.com", "a.b.example.com"));
    assert!(!c("example.com", "badexample.com"));
    assert!(!c("example.com", "example.com.org"));
    assert!(!c("sub.example.com", "example.com"));
    assert!(!c("example.com", "com"));
    assert!(c("", ""));
    assert!(c("", "a."));
    assert!(!c("", "a"));
}

#[test]
fn option_predicates() {
    let r = rule("banner$script,third-party,domain=shop.example|~old.shop.example");
    let q = |u: &str, s: &str, k: &str| request(u, s, k);
    let a = q("https://ads.example/banner", "https://shop.example/", "script");
    assert!(domain_applies(&r, &a) && resource_applies(&r, &a) && party_applies(&r, &a));
    assert!(r.pattern_applies(&a) && r.matches(&a));
    let b = q("https://ads.example/banner", "https://old.shop.example/", "script");
    assert!(!domain_applies(&r, &b) && resource_applies(&r, &b) && party_applies(&r, &b));
    assert!(!r.matches(&b));
    let c = q("https://ads.example/banner", "https://www.shop.example/", "image");
    assert!(domain_applies(&r, &c) && !resource_applies(&r, &c) && party_applies(&r, &c));
    assert!(!r.matches(&c));
    let d = q("https://cdn.shop.example/banner", "https://shop.example/", "script");
    assert!(domain_applies(&r, &d) && resource_applies(&r, &d) && !party_applies(&r, &d));
    assert!(r.pattern_applies(&d) && !r.matches(&d));
    let e = q("https://ads.example/other", "https://shop.example/", "script");
    assert!(!r.pattern_applies(&e) && !r.matches(&e));
    let f = rule("banner$~third-party");
    assert!(party_applies(&f, &d) && !party_applies(&f, &a));
    let g = rule("banner$domain=~shop.example");
    assert!(!domain_applies(&g, &a));
    assert!(domain_applies(&g, &q("https://ads.example/banner", "https://other.example/", "script")));
}

#[test]
fn same_text_compiled_twice_gives_the_same_verdicts() {
    let text = "||ads.example^\n@@||ads.example/ok^\n/banner/*$image\n/track[0-9]+/\nbad$$$\n-ad-$third-party\n";
    let first = Engine::from_rules(text);
    let second = Engine::from_rules(text);
    assert_eq!(first.rule_count(), second.rule_count());
    let urls = [
        "https://ads.example/x",
        "https://ads.example/ok",
        "https://a.example/banner/1.png",
        "https://a.example/track77",
        "https://a.example/-ad-/x",
        "https://shop.example/-ad-/x",
        "https://a.example/",
        "nonsense",
    ];
    for url in urls {
        for kind in ["image", "script", "other"] {
            let a = first.check(url, "https://shop.example/", kind);
            let b = second.check(url, "https://shop.example/", kind);
            assert_eq!(a, b, "{} as {}", url, kind);
            assert_eq!(first.check(url, "https://shop.example/", kind), a);
        }
    }
}

#[test]
fn order_of_rules_plays_no_part() {
    let lines = ["||ads.example^", "@@||ads.example/ok^", "/banner/", "@@/banner/good", "-ad-$script"];
    let forward = Engine::from_rules(&lines.join("\n"));
    let mut turned = lines.to_vec();
    turned.reverse();
    let backward = Engine::from_rules(&turned.join("\n"));
    for url in [
        "https://ads.example/x",
        "https://ads.example/ok",
        "https://a.example/banner/1",
        "https://a.example/banner/good",
        "https://a.example/-ad-",
        "https://a.example/",
    ] {
        for kind in ["script", "image"] {
            assert_eq!(
                forward.check(url, "https://p.example/", kind),
                backward.check(url, "https://p.example/", kind),
                "{}",
                url
            );
        }
    }
}

#[test]
fn exception_overrides_blocking_rules() {
    let u = "https://ads.example/banner.js";
    let s = "https://shop.example/";
    assert!(blocks("||ads.example^", u, s, "script"));
    assert!(!blocks("||ads.example^\n@@||ads.example^", u, s, "script"));
    assert!(!blocks("@@||ads.example^\n||ads.example^", u, s, "script"));
    assert!(!blocks("||ads.example^\nbanner\n/banner\\.js/\n.js|\n@@||ads.example^\n*", u, s, "script"));
    assert!(!blocks("||ads.example^$script\n@@||ads.example^$script", u, s, "script"));
    assert!(!blocks("@@banner", u, s, "script"));
    assert!(blocks("||ads.example^\n@@||ads.example^$image", u, s, "script"));
    assert!(blocks("||ads.example^\n@@||other.example^", u, s, "script"));
    assert!(!blocks("/banner\\.js/\n@@/ADS\\.EXAMPLE/", u, s, "script"));
}

#[test]
fn deciding_rule_is_reported() {
    let e = Engine::from_rules("||ads.example^\n@@||ads.example/ok^\n/never/");
    let s = "https://shop.example/";
    assert_eq!(
        e.check_network_request(&request("https://ads.example/x", s, "other")),
        MatchResult { matched: true, rule: Some(0) }
    );
    assert_eq!(
        e.check_network_request(&request("https://ads.example/ok", s, "other")),
        MatchResult { matched: false, rule: Some(1) }
    );
    assert_eq!(
        e.check_network_request(&request("https://a.example/", s, "other")),
        MatchResult { matched: false, rule: None }
    );
    assert!(e.rule(1).is_exception());
    assert!(!e.rule(0).is_exception());
}

#[test]
fn empty_ruleset_blocks_nothing() {
    let e = Engine::from_rules("");
    assert_eq!(e.rule_count(), 0);
    assert!(!e.check("https://ads.example/banner.js", "https://shop.example/", "script"));
    assert!(!e.check("https://a.example/", "https://a.example/", "document"));
    assert!(!e.check("not a url", "https://a.example", "document"));
    let e = Engine::from_rules("\n\n! only comments\n   \n");
    assert_eq!(e.rule_count(), 0);
    assert!(!e.check("https://ads.example/banner.js", "https://shop.example/", "script"));
}

#[test]
fn domain_scoping() {
    let rules = "ads.example$domain=shop.example";
    let u = "https://ads.example/banner.js";
    assert!(!blocks(rules, u, "https://other.example/", "script"));
    assert!(blocks(rules, u, "https://shop.example/", "script"));
    assert!(blocks(rules, u, "https://sub.shop.example/page", "script"));
    assert!(!blocks(rules, u, "https://notshop.example/", "script"));
    assert!(!blocks(rules, u, "https://shop.example.org/", "script"));
    let rules = "ads.example$domain=shop.example|~sub.shop.example";
    assert!(blocks(rules, u, "https://shop.example/", "script"));
    assert!(!blocks(rules, u, "https://sub.shop.example/", "script"));
    assert!(!blocks(rules, u, "https://a.sub.shop.example/", "script"));
}

#[test]
fn resource_type_scoping() {
    let rules = "||ads.example^$script";
    let u = "https://ads.example/x";
    let s = "https://shop.example/";
    assert!(blocks(rules, u, s, "script"));
    assert!(!blocks(rules, u, s, "image"));
    assert!(!blocks(rules, u, s, "unknown"));
    assert!(blocks("||ads.example^$~script", u, s, "image"));
    assert!(!blocks("||ads.example^$~script", u, s, "script"));
    assert!(blocks("||ads.example^$other", u, s, "unknown"));
}

#[test]
fn third_party_scoping() {
    let rules = "/banner$third-party";
    assert!(!blocks(rules, "https://shop.example/banner", "https://shop.example/", "image"));
    assert!(!blocks(rules, "https://cdn.shop.example/banner", "https://www.shop.example/", "image"));
    assert!(blocks(rules, "https://ads.example/banner", "https://shop.example/", "image"));
    let rules = "/banner$first-party";
    assert!(blocks(rules, "https://shop.example/banner", "https://shop.example/", "image"));
    assert!(!blocks(rules, "https://ads.example/banner", "https://shop.example/", "image"));
}

#[test]
fn malformed_input_never_blocks() {
    for rules in ["*", "not\n/url/\n||not^", "/.*/", "a\nb\nc\n \n", "url"] {
        let e = Engine::from_rules(rules);
        assert!(e.rule_count() > 0);
        assert!(!e.check("not a url", "https://a.example", "document"), "{}", rules);
        assert!(!e.check("", "https://a.example", "document"));
        assert!(!e.check("https://a.example/", "not a url", "document"));
        assert!(!e.check("https://a.example/", "", "document"));
        assert!(e.check("https://not.example/a/b/c/url", "https://a.example", "document"));
    }
}

#[test]
fn repeated_queries_do_not_disturb_each_other() {
    let e = Engine::from_rules("||ads.example^\n@@||ads.example/ok^\n/banner/$image");
    let queries = [
        ("https://ads.example/x", "script", true),
        ("https://ads.example/ok", "script", false),
        ("https://a.example/banner/", "image", true),
        ("https://a.example/banner/", "script", false),
        ("nonsense", "script", false),
    ];
    for round in 0..3 {
        for (i, (url, kind, want)) in queries.iter().enumerate() {
            assert_eq!(e.check(url, "https://shop.example/", kind), *want, "round {} query {}", round, i);
        }
        for (url, kind, want) in queries.iter().rev() {
            assert_eq!(e.check(url, "https://shop.example/", kind), *want);
        }
    }
}

#[test]
fn bad_lines_are_skipped_and_reported() {
    let text = "||ads.example^\nbanner$popup\n! comment\n\n@@\n/ad(/\n/banner/\r\nx$domain=a.example|~a.example";
    let (e, errors) = Engine::compile(text);
    assert_eq!(e.rule_count(), 2);
    assert_eq!(
        errors,
        vec![
            LineError { line: 1, error: ParseError::UnknownOption },
            LineError { line: 4, error: ParseError::EmptyPattern },
            LineError { line: 5, error: ParseError::InvalidRegex },
            LineError { line: 7, error: ParseError::DomainConflict },
        ]
    );
    assert!(e.check("https://ads.example/", "https://shop.example/", "other"));
    assert!(e.check("https://a.example/banner/", "https://shop.example/", "other"));
    assert!(!e.check("https://a.example/x", "https://shop.example/", "other"));
    assert_eq!(e.rule(1).specificity(), 6);
}

#[test]
fn large_ruleset_finds_the_one_rule() {
    let mut text = String::new();
    for i in 0..3000 {
        text.push_str(&format!("||host{}.example^\n", i));
        text.push_str(&format!("/path{}/*$script\n", i));
    }
    text.push_str("@@||host77.example/allowed^\n");
    text.push_str("-x-\n/re[0-9]/\n");
    let e = Engine::from_rules(&text);
    assert_eq!(e.rule_count(), 6003);
    let s = "https://shop.example/";
    assert!(e.check("https://host2999.example/", s, "image"));
    assert!(e.check("https://www.host0.example/a", s, "image"));
    assert!(!e.check("https://host3000.example/", s, "image"));
    assert!(e.check("https://a.example/path1234/x", s, "script"));
    assert!(!e.check("https://a.example/path1234/x", s, "image"));
    assert!(!e.check("https://host77.example/allowed", s, "image"));
    assert!(e.check("https://host77.example/other", s, "image"));
    assert!(e.check("https://a.example/-x-", s, "image"));
    assert!(e.check("https://a.example/re5", s, "image"));
    assert!(!e.check("https://a.example/", s, "image"));
}

#[test]
fn short_addresses_and_short_patterns() {
    let s = "https://p.example/";
    assert!(blocks("a", "x://a", s, "other"));
    assert!(blocks("||a^", "x://a", s, "other"));
    assert!(!blocks("||ab^", "x://a", s, "other"));
    assert!(blocks("abc\nabcd\nabcde", "x://h/abc", s, "other"));
    assert!(blocks("abcd", "x://h/abcd", s, "other"));
    assert!(!blocks("abcde", "x://h/abcd", s, "other"));
    assert!(blocks("ab*cdef", "x://h/ab/cdef", s, "other"));
    assert!(blocks("abcd^efgh", "x://h/abcd/efgh", s, "other"));
    assert!(!blocks("abcd^efgh", "x://h/abcdefgh", s, "other"));
}

#[test]
fn handle_functions() {
    let h = adblock_engine_create("||ads.example^\n@@||ads.example/ok^\nbroken$what");
    assert!(adblock_engine_check(&h, "https://ads.example/x", "https://shop.example/", "script"));
    assert!(!adblock_engine_check(&h, "https://ads.example/ok", "https://shop.example/", "script"));
    assert!(!adblock_engine_check(&h, "https://a.example/", "https://shop.example/", "script"));
    assert!(!adblock_engine_check(&h, "not a url", "https://a.example", "document"));
    assert!(!adblock_engine_check(&h, "", "", ""));
    let empty = adblock_engine_create("");
    assert!(!adblock_engine_check(&empty, "https://ads.example/x", "https://shop.example/", "script"));
}
