use kirafan_newsbot_rust::module::parse_html;
use kirafan_newsbot_rust::savenews::{savenews_jobs, savenews_links, SavenewsLinks, SavenewsPatterns};

const ITEM: &str = r#"<html><head>
<script src="/js/item.js?v=3"></script>
<link rel="stylesheet" href="/css/item.css">
<link rel="icon" href="/favicon.ico">
</head><body>
<div style="background-image: url(/img/bg.png)">x</div>
<img src="https://kirara.star-api.com/img/a.png?x=1"><img src="/img/b.png">
</body></html>"#;

#[test]
fn item_page_links() {
    let pats = SavenewsPatterns::new().unwrap();
    let links = savenews_links(&parse_html(ITEM), &pats).unwrap();
    assert_eq!(links.js, vec!["/js/item.js"]);
    assert_eq!(links.css, vec!["/css/item.css"]);
    assert_eq!(links.img, vec!["https://kirara.star-api.com/img/a.png", "/img/b.png"]);
    assert_eq!(links.assets, vec!["/img/bg.png"]);
}

#[test]
fn item_page_with_bad_image_is_refused() {
    let pats = SavenewsPatterns::new().unwrap();
    assert!(savenews_links(&parse_html(r#"<img src="?only">"#), &pats).is_none());
}

#[test]
fn item_jobs_in_order() {
    let links = SavenewsLinks {
        js: vec![String::from("j")],
        css: vec![String::from("c")],
        img: vec![String::from("i1"), String::from("i2")],
        assets: vec![String::from("a")],
    };
    let jobs = savenews_jobs("https://p/", "information", "12_T", &links);
    let got: Vec<[&str; 6]> = jobs
        .iter()
        .map(|j| [j.url.as_str(), &j.filetype, &j.savepath, &j.baseurl, &j.date, &j.title])
        .collect();
    assert_eq!(
        got,
        vec![
            ["j", "js", "", "https://p/", "", ""],
            ["c", "css", "", "https://p/", "", ""],
            ["a", "asset", "", "https://p/", "", ""],
            ["i1", "img", "information/12_T/", "https://p/", "", ""],
            ["i2", "img", "information/12_T/", "https://p/", "", ""],
        ]
    );
}
