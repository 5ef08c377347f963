use kirafan_newsbot_rust::announce::{announcement_header, record_tweeted, untweeted_posts};

fn owned(v: &[&str]) -> Vec<String> {
    v.iter().map(|s| s.to_string()).collect()
}

#[test]
fn only_new_titles_are_announced() {
    let titles = owned(&["A", "B", "C"]);
    let urls = owned(&["ua", "ub", "uc"]);
    let tweeted = owned(&["B"]);
    let (t, u) = untweeted_posts(&titles, &urls, &tweeted).unwrap();
    assert_eq!(t, owned(&["A", "C"]));
    assert_eq!(u, owned(&["ua", "uc"]));
}

#[test]
fn announced_titles_are_not_announced_again() {
    let titles = owned(&["A", "B", "A"]);
    let urls = owned(&["ua", "ub", "ua2"]);
    let mut tweeted = owned(&["X"]);
    let (t, _) = untweeted_posts(&titles, &urls, &tweeted).unwrap();
    assert_eq!(t, owned(&["A", "B", "A"]));
    record_tweeted(&mut tweeted, &t);
    assert_eq!(tweeted, owned(&["X", "A", "B", "A"]));
    let (again, urls_again) = untweeted_posts(&titles, &urls, &tweeted).unwrap();
    assert!(again.is_empty());
    assert!(urls_again.is_empty());
}

#[test]
fn a_new_title_without_link_is_refused() {
    assert!(untweeted_posts(&owned(&["A", "B"]), &owned(&["ua"]), &Vec::new()).is_none());
    assert!(untweeted_posts(&owned(&["A", "B"]), &owned(&["ua"]), &owned(&["B"])).is_some());
}

#[test]
fn headers_by_category() {
    assert_eq!(announcement_header(0), "新しいお知らせがあります\n");
    assert_eq!(announcement_header(1), "新しいメンテナンスのお知らせがあります\n");
    assert_eq!(announcement_header(2), "新しいアップデートのお知らせがあります\n");
}
