use adblock::engine::Engine;
use adblock::index::FilterIndex;
use adblock::matcher::match_request;
use adblock::parser::parse_rule;
use adblock::request::Request;
use adblock::rule::FilterRule;

fn rules(lines: &[&str]) -> Vec<FilterRule> {
    lines
        .iter()
        .map(|l| match parse_rule(l) {
            Ok(Some(r)) => r,
            _ => panic!("no rule in {:?}", l),
        })
        .collect()
}

fn request(url: &str) -> Request {
    match Request::new(url, "https://page.example/", "other") {
        Ok(r) => r,
        Err(e) => panic!("{:?}", e),
    }
}

#[test]
fn index_keeps_the_rules_in_order() {
    let index = FilterIndex::build(rules(&["||ads.example^", "@@xy", "/re+/", "||other.test^"]));
    assert_eq!(index.len(), 4);
    assert_eq!(index.rule(0).specificity(), 12);
    assert!(index.rule(1).is_exception());
    assert_eq!(index.rule(2).specificity(), 3);
    assert_eq!(index.rule(3).specificity(), 11);
    assert_eq!(FilterIndex::build(Vec::new()).len(), 0);
}

#[test]
fn candidates_hold_what_matches_and_leave_out_what_cannot() {
    let index = FilterIndex::build(rules(&["||ads.example^", "xy", "/re+/", "||other.test^", "-banner-*.png"]));
    let c = index.candidates(&request("https://ads.example/xy"));
    assert!(c.contains(&0) && c.contains(&1) && c.contains(&2));
    assert!(!c.contains(&3) && !c.contains(&4));
    let c = index.candidates(&request("https://www.other.test/a-banner-1.png"));
    assert!(c.contains(&1) && c.contains(&2) && c.contains(&3) && c.contains(&4));
    assert!(!c.contains(&0));
    let mut c = index.candidates(&request("https://zzz.invalid/"));
    c.sort();
    c.dedup();
    assert_eq!(c, vec![1, 2]);
    assert!(c.iter().all(|&i| i < index.len()));
}

#[test]
fn candidates_of_a_short_address() {
    let index = FilterIndex::build(rules(&["abcd", "abc", "a*bcd"]));
    let mut c = index.candidates(&request("x://abc"));
    c.sort();
    c.dedup();
    assert_eq!(c, vec![1, 2]);
    let mut c = index.candidates(&request("a://b"));
    c.sort();
    c.dedup();
    assert_eq!(c, vec![1, 2]);
    let c = index.candidates(&request("x://abcd"));
    assert!(c.contains(&0) && c.contains(&1) && c.contains(&2));
}

#[test]
fn matcher_agrees_with_a_scan_of_all_rules() {
    let lines = [
        "||ads.example^",
        "@@||ads.example/ok^",
        "/track[0-9]+/",
        "-banner-",
        "@@-banner-good",
        "ab",
        "@@/zz",
        "|https://start.",
        ".swf|",
        "a*b*c*d.e",
    ];
    let index = FilterIndex::build(rules(&lines));
    let all = rules(&lines);
    let urls = [
        "https://ads.example/x",
        "https://ads.example/ok",
        "https://a.test/track12",
        "https://a.test/-banner-1",
        "https://a.test/-banner-good",
        "https://q.test/ab",
        "https://q.test/ab/zz",
        "https://start.test/",
        "https://q.test/?u=https://start.",
        "https://q.test/m.swf",
        "https://q.test/m.swf?",
        "https://q.test/a1b2c3d.e",
        "https://q.test/",
        "x://y",
    ];
    for url in urls {
        let req = request(url);
        let exception = all.iter().any(|r| r.is_exception() && r.matches(&req));
        let block = all.iter().any(|r| !r.is_exception() && r.matches(&req));
        let got = match_request(&index, &req);
        assert_eq!(got.matched, block && !exception, "{}", url);
        match got.rule {
            Some(i) => {
                assert!(all[i].matches(&req), "{}", url);
                assert_eq!(all[i].is_exception(), exception, "{}", url);
            }
            None => assert!(!block && !exception, "{}", url),
        }
    }
}

fn shareable<T: Send + Sync>() {}

#[test]
fn engine_can_be_shared_by_concurrent_callers() {
    shareable::<Engine>();
    shareable::<FilterIndex>();
    shareable::<FilterRule>();
    shareable::<Request>();
    shareable::<adblock::engine::AdblockEngine>();
}

#[test]
fn interleaved_queries_agree_with_sequential_ones() {
    let engine = Engine::from_rules("||ads.example^\n@@||ads.example/ok^\n/track[0-9]+/$image\n-banner-$third-party");
    let queries: Vec<(String, &str)> = (0..64)
        .map(|i| {
            let url = match i % 5 {
                0 => format!("https://ads.example/{}", i),
                1 => format!("https://ads.example/ok?{}", i),
                2 => format!("https://a.test/track{}", i),
                3 => format!("https://a.test/-banner-{}", i),
                _ => format!("https://a.test/{}", i),
            };
            (url, if i % 2 == 0 { "image" } else { "script" })
        })
        .collect();
    let sequential: Vec<bool> =
        queries.iter().map(|(u, k)| engine.check(u, "https://shop.example/", k)).collect();
    let shared = &engine;
    let mut interleaved: Vec<bool> =
        queries.iter().rev().map(|(u, k)| shared.check(u, "https://shop.example/", k)).collect();
    interleaved.reverse();
    assert_eq!(sequential, interleaved);
    assert!(sequential.iter().any(|b| *b) && sequential.iter().any(|b| !*b));
}
