use kirafan_newsbot_rust::archive::ArchiveJob;
use kirafan_newsbot_rust::module::parse_html;
use kirafan_newsbot_rust::news::{
    append_decimal, article_job, categories, category_page_url, category_url, last_page, listing_links,
    page_asset_jobs, page_numbers, parse_i32, NewsPatterns,
};

const LISTING: &str = r#"<html><head>
<script src="/js/app.js?ver=1"></script>
<link rel="stylesheet" href="/css/style.css?v=2">
</head><body>
<div class="newsPost"><a href="javascript:Unity.call('https://kirara.star-api.com/news/101/?auser_id=7')"><dl><dt>2021/03/04</dt><dd>First news</dd></dl></a></div>
<a class="page-numbers" href="https://kirara.star-api.com/cat_news/information/?page=2">2</a>
<a class="page-numbers" href="https://kirara.star-api.com/cat_news/information/?page=13">13</a>
</body></html>"#;

fn fields(j: &ArchiveJob) -> [&str; 6] {
    [&j.url, &j.filetype, &j.savepath, &j.baseurl, &j.date, &j.title]
}

#[test]
fn page_urls() {
    assert_eq!(categories(), ["information", "maintenance", "update"]);
    assert_eq!(
        category_url("https://kirara.star-api.com", "information"),
        "https://kirara.star-api.com/cat_news/information"
    );
    assert_eq!(
        category_page_url("https://kirara.star-api.com", "update", 12),
        "https://kirara.star-api.com/cat_news/update/?page=12"
    );
    assert_eq!(category_page_url("h", "c", 0), "h/cat_news/c/?page=0");
    let mut s = String::from("n=");
    append_decimal(&mut s, 4294967295);
    assert_eq!(s, "n=4294967295");
}

#[test]
fn parse_i32_follows_std() {
    for text in ["12", "+7", "-0", "-2147483648", "2147483647", "2147483648", "", "-", "+", "1a", " 1", "99999999999", "007"] {
        assert_eq!(parse_i32(text), text.parse::<i32>().ok(), "{:?}", text);
    }
    assert_eq!(parse_i32("13"), Some(13));
    assert_eq!(parse_i32("２"), None);
}

#[test]
fn last_page_reads_the_last_number() {
    assert_eq!(last_page(&vec![String::from("2"), String::from("13")]), Some(13));
    assert_eq!(last_page(&Vec::new()), None);
    assert_eq!(last_page(&vec![String::from("x")]), None);
}

#[test]
fn listing_page_is_read() {
    let pats = NewsPatterns::new().unwrap();
    let doc = parse_html(LISTING);
    let pages = page_numbers(&doc, &pats).unwrap();
    assert_eq!(pages, vec!["2", "13"]);
    let links = listing_links(&doc, &pats).unwrap();
    assert_eq!(links.titles, vec!["First news"]);
    assert_eq!(links.urls, vec!["https://kirara.star-api.com/news/101/"]);
    assert_eq!(links.dates, vec!["2021/03/04"]);
    assert_eq!(links.js, vec!["/js/app.js"]);
    assert_eq!(links.css, vec!["/css/style.css"]);
}

#[test]
fn listing_with_unreadable_link_is_refused() {
    let pats = NewsPatterns::new().unwrap();
    let doc = parse_html(r#"<div class="newsPost"><a href="/plain"><dl><dt>d</dt><dd>t</dd></dl></a></div>"#);
    assert!(listing_links(&doc, &pats).is_none());
}

#[test]
fn asset_and_article_jobs() {
    let host = "https://kirara.star-api.com";
    let jobs = page_asset_jobs(host, &vec![String::from("/js/a.js")], &vec![String::from("/css/b.css")]);
    assert_eq!(jobs.len(), 2);
    assert_eq!(fields(&jobs[0]), ["https://kirara.star-api.com/js/a.js", "js", "", host, "", ""]);
    assert_eq!(fields(&jobs[1]), ["https://kirara.star-api.com/css/b.css", "css", "", host, "", ""]);
    let titles = vec![String::from("T0"), String::from("T1")];
    let dates = vec![String::from("D0")];
    let job = article_job(host, "https://x/news/1/", 0, &titles, &dates).unwrap();
    assert_eq!(fields(&job), ["https://x/news/1/", "html", "", host, "D0", "T0"]);
    assert!(article_job(host, "https://x/news/2/", 1, &titles, &dates).is_none());
}
