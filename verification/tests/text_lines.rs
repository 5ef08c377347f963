use kirafan_newsbot_rust::legacy::module as legacy_module;
use kirafan_newsbot_rust::module::{
    file_text_from_lines, is_array_contein, is_vec_contein, lines_from_file_text, split_by_line,
};
use kirafan_newsbot_rust::text::{join_with_line_breaks, replace_slashes, str_eq};

fn owned(v: &[&str]) -> Vec<String> {
    v.iter().map(|s| s.to_string()).collect()
}

#[test]
fn split_by_line_splits_at_every_break() {
    assert_eq!(split_by_line("a\nb\n\nc"), owned(&["a", "b", "", "c"]));
    assert_eq!(split_by_line("a\n"), owned(&["a", ""]));
    assert_eq!(split_by_line(""), owned(&[""]));
    assert_eq!(split_by_line("\n"), owned(&["", ""]));
    assert_eq!(split_by_line("日本\n語"), owned(&["日本", "語"]));
}

#[test]
fn legacy_split_by_line_gives_slices() {
    let text = String::from("x\ny\n");
    assert_eq!(legacy_module::split_by_line(&text), vec!["x", "y", ""]);
    assert_eq!(legacy_module::split_by_line(&String::new()), vec![""]);
}

#[test]
fn split_then_join_gives_back_the_text() {
    for text in ["", "\n", "a", "a\nb", "\n\nx\n", "ニュース\nお知らせ\n"] {
        let parts = split_by_line(text);
        assert_eq!(join_with_line_breaks(&parts), text);
        assert!(parts.iter().all(|p| !p.contains('\n')));
    }
}

#[test]
fn join_with_line_breaks_matches_join() {
    let parts = owned(&["a", "", "b"]);
    assert_eq!(join_with_line_breaks(&parts), "a\n\nb");
    assert_eq!(join_with_line_breaks(&Vec::new()), "");
}

#[test]
fn stored_lines_read_back() {
    let lines = owned(&["first title", "second", "三番目"]);
    let text = file_text_from_lines(&lines);
    assert_eq!(text, "first title\nsecond\n三番目\n");
    assert_eq!(lines_from_file_text(&text), lines);
}

#[test]
fn stored_text_edge_cases() {
    assert_eq!(file_text_from_lines(&Vec::new()), "");
    assert_eq!(file_text_from_lines(&owned(&[""])), "");
    assert_eq!(file_text_from_lines(&owned(&["", "a"])), "a\n");
    assert_eq!(lines_from_file_text(""), owned(&[""]));
    assert_eq!(lines_from_file_text("a\n\n"), owned(&["a", ""]));
    assert_eq!(lines_from_file_text("a\nb"), owned(&["a", "b"]));
    assert_eq!(lines_from_file_text(&file_text_from_lines(&owned(&[""]))), owned(&[""]));
}

#[test]
fn stored_list_loses_leading_empty_line() {
    let lines = owned(&["", "a"]);
    assert_eq!(lines_from_file_text(&file_text_from_lines(&lines)), owned(&["a"]));
}

#[test]
fn array_membership() {
    let list = ["a", "bb", "ccc", "日本"];
    assert!(is_array_contein(list, "bb"));
    assert!(is_array_contein(list, "日本"));
    assert!(!is_array_contein(list, "b"));
    assert!(!is_array_contein(list, ""));
    assert!(legacy_module::is_array_contein(list, &String::from("ccc")));
    assert!(!legacy_module::is_array_contein(list, &String::from("cc")));
}

#[test]
fn vec_membership() {
    let v = owned(&["one", "two"]);
    assert!(is_vec_contein(&v, "two"));
    assert!(!is_vec_contein(&v, "three"));
    assert!(!is_vec_contein(&Vec::new(), ""));
}

#[test]
fn text_equality_and_slashes() {
    assert!(str_eq("abc", "abc"));
    assert!(!str_eq("abc", "abd"));
    assert!(!str_eq("ab", "abc"));
    assert_eq!(replace_slashes("2021/03/04"), "2021／03／04");
    assert_eq!(replace_slashes("no slash"), "no slash");
    assert_eq!(replace_slashes(""), "");
}
