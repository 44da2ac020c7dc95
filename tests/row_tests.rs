use joskilo::row::{insert_into, join_range, remove_from, render_clusters};
use joskilo::Row;

#[test]
fn row_length_counts_clusters() {
    let row = Row::from("ae\u{301}c");
    assert_eq!(row.len(), 3);
    assert!(!row.is_empty());
    assert!(Row::from("").is_empty());
    assert_eq!(Row::default().len(), 0);
}

#[test]
fn combining_mark_joins_cluster_on_insert() {
    let mut row = Row::from("ac");
    row.insert(1, 'e');
    assert_eq!(row.len(), 3);
    row.insert(2, '\u{301}');
    assert_eq!(row.as_str(), "ae\u{301}c");
    assert_eq!(row.len(), 3);
}

#[test]
fn delete_removes_whole_cluster() {
    let mut row = Row::from("ae\u{301}c");
    row.delete(1);
    assert_eq!(row.as_str(), "ac");
    assert_eq!(row.len(), 2);
}

#[test]
fn delete_past_end_is_noop() {
    let mut row = Row::from("abc");
    row.delete(3);
    assert_eq!(row.as_str(), "abc");
    row.delete(100);
    assert_eq!(row.as_str(), "abc");
}

#[test]
fn insert_past_end_appends() {
    let mut row = Row::from("ab");
    row.insert(10, 'z');
    assert_eq!(row.as_str(), "abz");
    assert_eq!(row.len(), 3);
}

#[test]
fn insert_before_multibyte_cluster() {
    let mut row = Row::from("h\u{e9}llo");
    row.insert(2, 'X');
    assert_eq!(row.as_str(), "h\u{e9}Xllo");
    row.insert(0, '>');
    assert_eq!(row.as_str(), ">h\u{e9}Xllo");
}

#[test]
fn insert_then_delete_restores_line() {
    for at in 0..=5 {
        let mut row = Row::from("h\u{e9}llo");
        row.insert(at, 'X');
        assert_eq!(row.len(), 6);
        row.delete(at);
        assert_eq!(row.as_str(), "h\u{e9}llo");
    }
}

#[test]
fn split_then_append_restores_line() {
    for at in 0..=6 {
        let mut row = Row::from("ae\u{301}cd\u{1F600}");
        let rest = row.split(at);
        row.append(&rest);
        assert_eq!(row.as_str(), "ae\u{301}cd\u{1F600}");
        assert_eq!(row.len(), 5);
    }
}

#[test]
fn split_keeps_head_and_returns_tail() {
    let mut row = Row::from("ae\u{301}cd");
    let rest = row.split(2);
    assert_eq!(row.as_str(), "ae\u{301}");
    assert_eq!(rest.as_str(), "cd");
    assert_eq!(row.len(), 2);
    assert_eq!(rest.len(), 2);
    let mut whole = Row::from("ab");
    let nothing = whole.split(9);
    assert_eq!(whole.as_str(), "ab");
    assert_eq!(nothing.as_str(), "");
}

#[test]
fn append_joins_text() {
    let mut row = Row::from("ab");
    row.append(&Row::from("cd"));
    assert_eq!(row.as_str(), "abcd");
    assert_eq!(row.len(), 4);
}

#[test]
fn render_shows_tab_as_space_and_clamps() {
    let row = Row::from("a\tbe\u{301}");
    assert_eq!(row.render(0, 10), "a be\u{301}");
    assert_eq!(row.render(1, 3), " b");
    assert_eq!(row.render(3, 4), "e\u{301}");
    assert_eq!(row.render(5, 2), "");
    assert_eq!(row.render(2, 1), "");
    assert_eq!(row.render(0, usize::MAX), "a be\u{301}");
}

fn clusters(parts: &[&str]) -> Vec<String> {
    parts.iter().map(|p| p.to_string()).collect()
}

#[test]
fn cluster_joins_work_on_given_clusters() {
    let g = clusters(&["a", "e\u{301}", "\t", "\u{1F600}"]);
    assert_eq!(join_range(&g, 1, 3), "e\u{301}\t");
    assert_eq!(insert_into(&g, 1, 'X'), "aXe\u{301}\t\u{1F600}");
    assert_eq!(insert_into(&g, 4, 'X'), "ae\u{301}\t\u{1F600}X");
    assert_eq!(remove_from(&g, 1), "a\t\u{1F600}");
    assert_eq!(render_clusters(&g, 1, 9), "e\u{301} \u{1F600}");
    assert_eq!(render_clusters(&g, 3, 2), "");
}
