use kirafan_newsbot_rust::legacy::module as legacy_module;
use kirafan_newsbot_rust::module::{
    compiled_regex, compiled_selector, count_twitter_str, find_first_group, is_re_match, parse_html, re_find,
    scraping, try_compiled_regex, try_compiled_selector, try_scraping, PatternError,
};

const PAGE: &str = r#"<html><head>
<script src="/js/app.js?ver=1"></script>
<link rel="stylesheet" href="/css/style.css?v=2">
</head><body>
<div class="newsPost"><a href="javascript:Unity.call('https://kirara.star-api.com/news/101/?auser_id=7')"><dl><dt>2021/03/04</dt><dd>First news</dd></dl></a></div>
<div class="newsPost"><a href="javascript:Unity.call('https://kirara.star-api.com/news/102/?auser_id=7')"><dl><dt>2021/03/05</dt><dd>Second/news</dd></dl></a></div>
<a class="page-numbers" href="https://kirara.star-api.com/cat_news/information/?page=2">2</a>
<a class="page-numbers" href="https://kirara.star-api.com/cat_news/information/?page=13">13</a>
</body></html>"#;

#[test]
fn re_find_takes_group_one() {
    let re = compiled_regex(r"/(\d+)/$");
    assert_eq!(re_find(&re, "https://kirara.star-api.com/news/123/"), "123");
    assert!(is_re_match(&re, "https://x/news/9/"));
    assert!(!is_re_match(&re, "https://x/news/abc/"));
    assert_eq!(find_first_group(&re, "https://x/news/abc/"), None);
    assert_eq!(find_first_group(&re, "/5/"), Some(String::from("5")));
}

#[test]
fn a_match_without_group_one_does_not_count() {
    let re = compiled_regex(r"^/");
    assert!(!is_re_match(&re, "/root/relative"));
    let legacy = compiled_regex(r"^(/)");
    assert_eq!(legacy_module::is_re_match(&legacy, "/root/relative"), Ok(()));
    assert_eq!(legacy_module::is_re_match(&legacy, "relative"), Err(()));
}

#[test]
fn refused_patterns_are_reported() {
    assert!(matches!(try_compiled_regex("("), Err(PatternError::InvalidRegex)));
    assert!(try_compiled_regex("a+").is_ok());
    assert!(matches!(try_compiled_selector("<<"), Err(PatternError::InvalidSelector)));
    assert!(try_compiled_selector("div > a").is_ok());
}

#[test]
fn scraping_reads_titles_and_links() {
    let doc = parse_html(PAGE);
    let titles = scraping(&compiled_regex(">([^<]+)<"), &compiled_selector(".newsPost > a > dl > dd"), &doc);
    assert_eq!(titles, vec!["First news", "Second/news"]);
    let urls = scraping(
        &compiled_regex(r"Unity\.call\('([^?]+)\?auser_id="),
        &compiled_selector(".newsPost > a"),
        &doc,
    );
    assert_eq!(urls, vec!["https://kirara.star-api.com/news/101/", "https://kirara.star-api.com/news/102/"]);
    let pages = scraping(&compiled_regex(r"=(\d+)"), &compiled_selector("a.page-numbers"), &doc);
    assert_eq!(pages, vec!["2", "13"]);
    let js = scraping(&compiled_regex(r#""([^?"]+)"#), &compiled_selector("script[src]"), &doc);
    assert_eq!(js, vec!["/js/app.js"]);
}

#[test]
fn scraping_nothing_selected_is_empty() {
    let doc = parse_html(PAGE);
    let none = scraping(&compiled_regex("(x)"), &compiled_selector("table"), &doc);
    assert!(none.is_empty());
}

#[test]
fn try_scraping_refuses_an_element_without_match() {
    let doc = parse_html(PAGE);
    assert_eq!(try_scraping(&compiled_regex(r"=(\d+)"), &compiled_selector(".newsPost > a > dl > dd"), &doc), None);
    assert_eq!(
        try_scraping(&compiled_regex(">([^<]+)<"), &compiled_selector(".newsPost > a > dl > dt"), &doc),
        Some(vec![String::from("2021/03/04"), String::from("2021/03/05")])
    );
}

#[test]
fn twitter_weighted_length() {
    assert_eq!(count_twitter_str("hello"), 5);
    assert_eq!(count_twitter_str("あいう"), 6);
    assert_eq!(count_twitter_str(""), 0);
}
