use kirafan_newsbot_rust::archive::{
    archive_plan, is_never_downloaded, no_download_list, resolve_archive_url, save_target, ArchivePatterns,
    ArchivePlan, HOMEPATH,
};
use kirafan_newsbot_rust::legacy::archive as legacy_archive;

const LISTED: &str = "https://krr-dev-web.star-api.com/wp-content/uploads/2018/08/29002000用帯.png";

#[test]
fn listed_urls_are_never_downloaded() {
    let pats = ArchivePatterns::new().unwrap();
    for url in no_download_list() {
        assert!(is_never_downloaded(url));
        assert!(matches!(archive_plan(url, "https://kirara.star-api.com/", "", "", &pats), ArchivePlan::Skip));
        assert_eq!(resolve_archive_url(url, "https://kirara.star-api.com/", &pats), None);
    }
    assert!(is_never_downloaded(LISTED));
    assert!(!is_never_downloaded("https://krr-dev-web.star-api.com/other.png"));
}

#[test]
fn save_target_files_an_image() {
    let pats = ArchivePatterns::new().unwrap();
    let url = "https://kirara.star-api.com/wp-content/uploads/2021/03/a.png";
    let target = save_target(url, "2021/03/04", "A/B", &pats);
    assert_eq!(
        target.dir,
        format!("{}/kirara.star-api.com/wp-content/uploads/2021/03//2021／03／04A／B/", HOMEPATH)
    );
    assert_eq!(target.file, format!("{}/kirara.star-api.com/wp-content/uploads/2021/03/a.png", HOMEPATH));
}

#[test]
fn archive_plan_saves_a_page() {
    let pats = ArchivePatterns::new().unwrap();
    let url = "https://kirara.star-api.com/news/101/";
    match archive_plan(url, "https://kirara.star-api.com", "2021/03/04", "Title", &pats) {
        ArchivePlan::Save { url: got, target } => {
            assert_eq!(got, url);
            assert_eq!(target.dir, format!("{}/kirara.star-api.com/news/101//2021／03／04Title/", HOMEPATH));
            assert_eq!(target.file, format!("{}/kirara.star-api.com/news/101/", HOMEPATH));
        }
        other => panic!("unexpected plan {:?}", other),
    }
}

#[test]
fn root_relative_link_is_left_unresolved() {
    let pats = ArchivePatterns::new().unwrap();
    assert_eq!(
        resolve_archive_url("/wp/x.css", "https://kirara.star-api.com/news/1/", &pats),
        Some(String::from("/wp/x.css"))
    );
    assert!(matches!(
        archive_plan("/wp/x.css", "https://kirara.star-api.com/news/1/", "", "", &pats),
        ArchivePlan::Unreadable
    ));
}

#[test]
fn legacy_plan_files_by_type() {
    let pats = legacy_archive::ArchivePatterns::new().unwrap();
    match legacy_archive::archive_plan("/wp/x.css", "css", "", "https://kirara.star-api.com/news/1/", &pats) {
        legacy_archive::ArchivePlan::Save { url, path } => {
            assert_eq!(url, "https://kirara.star-api.com/wp/x.css");
            assert_eq!(path, "/home/y52en/kirafan-news_rs/assets/css/x.css");
        }
        other => panic!("unexpected plan {:?}", other),
    }
    match legacy_archive::archive_plan("https://a.b/c/d.png", "img", "information/12_T", "https://a.b/", &pats) {
        legacy_archive::ArchivePlan::Save { path, .. } => {
            assert_eq!(path, "/home/y52en/kirafan-news_rs/news/information/12_T/d.png");
        }
        other => panic!("unexpected plan {:?}", other),
    }
    match legacy_archive::archive_plan("https://a.b/news/12/", "html", "information/12_T", "https://a.b/", &pats) {
        legacy_archive::ArchivePlan::Save { path, .. } => {
            assert_eq!(path, "/home/y52en/kirafan-news_rs/news/information/12_T/index.html");
        }
        other => panic!("unexpected plan {:?}", other),
    }
}

#[test]
fn legacy_plan_errors() {
    let pats = legacy_archive::ArchivePatterns::new().unwrap();
    assert!(matches!(
        legacy_archive::archive_plan("https://a.b/c/d.png", "pdf", "", "https://a.b/", &pats),
        legacy_archive::ArchivePlan::UnknownFiletype
    ));
    assert!(matches!(
        legacy_archive::archive_plan("https://a.b/dir/", "js", "", "https://a.b/", &pats),
        legacy_archive::ArchivePlan::Unreadable
    ));
    assert!(matches!(
        legacy_archive::archive_plan("/x.js", "js", "", "nohost", &pats),
        legacy_archive::ArchivePlan::Unreadable
    ));
    assert!(matches!(
        legacy_archive::archive_plan(LISTED, "pdf", "", "", &pats),
        legacy_archive::ArchivePlan::Skip
    ));
}
