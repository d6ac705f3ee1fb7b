use clack::row::Row;
use clack::utils::SearchDirection;

#[test]
fn row_from_counts_clusters() {
    let row = Row::from("ae\u{301}b");
    assert_eq!(row.len(), 3);
    assert_eq!(row.as_str(), "ae\u{301}b");
    assert!(!row.is_empty());
}

#[test]
fn row_empty_has_no_clusters() {
    let row = Row::from("");
    assert_eq!(row.len(), 0);
    assert!(row.is_empty());
    assert_eq!(row.as_str(), "");
}

#[test]
fn row_crlf_is_one_cluster() {
    let row = Row::from("a\r\nb");
    assert_eq!(row.len(), 3);
}

#[test]
fn row_insert_in_the_middle() {
    let mut row = Row::from("ac");
    row.insert(1, 'b');
    assert_eq!(row.as_str(), "abc");
    assert_eq!(row.len(), 3);
}

#[test]
fn row_insert_at_front() {
    let mut row = Row::from("bc");
    row.insert(0, 'a');
    assert_eq!(row.as_str(), "abc");
    assert_eq!(row.len(), 3);
}

#[test]
fn row_insert_past_the_end_appends() {
    let mut row = Row::from("ab");
    row.insert(7, 'c');
    assert_eq!(row.as_str(), "abc");
    assert_eq!(row.len(), 3);
}

#[test]
fn row_insert_goes_in_front_of_a_whole_cluster() {
    let mut row = Row::from("e\u{301}x");
    row.insert(1, 'z');
    assert_eq!(row.as_str(), "e\u{301}zx");
    assert_eq!(row.len(), 3);
}

#[test]
fn row_insert_combining_mark_keeps_count_true() {
    let mut row = Row::from("e");
    row.insert(1, '\u{301}');
    assert_eq!(row.as_str(), "e\u{301}");
    assert_eq!(row.len(), 1);
}

#[test]
fn row_delete_removes_one_cluster() {
    let mut row = Row::from("ae\u{301}b");
    row.delete(1);
    assert_eq!(row.as_str(), "ab");
    assert_eq!(row.len(), 2);
}

#[test]
fn row_delete_past_the_end_is_ignored() {
    let mut row = Row::from("ab");
    row.delete(2);
    assert_eq!(row.as_str(), "ab");
    assert_eq!(row.len(), 2);
}

#[test]
fn row_insert_then_delete_restores() {
    let words = ["", "a", "hello", "ae\u{301}b", "日本語"];
    for word in words {
        let count = Row::from(word).len();
        for at in 0..=count {
            let mut row = Row::from(word);
            row.insert(at, 'x');
            assert_eq!(row.len(), count + 1);
            row.delete(at);
            assert_eq!(row.as_str(), word);
            assert_eq!(row.len(), count);
        }
    }
}

#[test]
fn row_split_then_append_restores() {
    let words = ["", "a", "hello", "ae\u{301}b", "日本語"];
    for word in words {
        let count = Row::from(word).len();
        for at in 0..=count {
            let mut head = Row::from(word);
            let tail = head.split(at);
            assert_eq!(head.len(), at);
            assert_eq!(tail.len(), count - at);
            head.append(&tail);
            assert_eq!(head.as_str(), word);
            assert_eq!(head.len(), count);
        }
    }
}

#[test]
fn row_split_cuts_between_clusters() {
    let mut head = Row::from("ae\u{301}b");
    let tail = head.split(2);
    assert_eq!(head.as_str(), "ae\u{301}");
    assert_eq!(tail.as_str(), "b");
    assert_eq!(head.len(), 2);
    assert_eq!(tail.len(), 1);
}

#[test]
fn row_split_past_the_end_gives_empty_tail() {
    let mut head = Row::from("ab");
    let tail = head.split(9);
    assert_eq!(head.as_str(), "ab");
    assert_eq!(tail.as_str(), "");
    assert!(tail.is_empty());
}

#[test]
fn row_append_joins_texts() {
    let mut row = Row::from("ab");
    row.append(&Row::from("cd"));
    assert_eq!(row.as_str(), "abcd");
    assert_eq!(row.len(), 4);
}

#[test]
fn row_update_len_keeps_text() {
    let mut row = Row::from("abc");
    row.update_len();
    assert_eq!(row.len(), 3);
    assert_eq!(row.as_str(), "abc");
}

#[test]
fn row_render_shows_tab_as_space() {
    let row = Row::from("a\tb");
    assert_eq!(row.render(0, 3), "a b");
    assert_eq!(row.render(1, 100), " b");
    assert_eq!(row.render(1, 2), " ");
}

#[test]
fn row_render_clips_bounds() {
    let row = Row::from("hello");
    assert_eq!(row.render(0, 0), "");
    assert_eq!(row.render(3, 2), "");
    assert_eq!(row.render(9, 12), "");
    assert_eq!(row.render(1, 4), "ell");
}

#[test]
fn row_render_counts_clusters_not_bytes() {
    let row = Row::from("ae\u{301}b");
    assert_eq!(row.render(1, 2), "e\u{301}");
    assert_eq!(row.render(2, 3), "b");
}

#[test]
fn row_as_bytes_is_utf8() {
    let row = Row::from("hé");
    assert_eq!(row.as_bytes(), &[0x68, 0xc3, 0xa9]);
}

#[test]
fn row_word_at_cluster() {
    let row = Row::from("hello world");
    assert_eq!(row.get_word_at(0), Some(String::from("hello")));
    assert_eq!(row.get_word_at(4), Some(String::from("hello")));
    assert_eq!(row.get_word_at(5), Some(String::from(" ")));
    assert_eq!(row.get_word_at(6), Some(String::from("world")));
    assert_eq!(row.get_word_at(10), Some(String::from("world")));
    assert_eq!(row.get_word_at(11), None);
}

#[test]
fn row_word_at_counts_clusters_not_bytes() {
    let row = Row::from("héé ab");
    assert_eq!(row.get_word_at(2), Some(String::from("héé")));
    assert_eq!(row.get_word_at(3), Some(String::from(" ")));
    assert_eq!(row.get_word_at(4), Some(String::from("ab")));
    assert_eq!(row.get_word_at(6), None);
}

#[test]
fn row_word_at_empty_row() {
    assert_eq!(Row::from("").get_word_at(0), None);
}

#[test]
fn row_find_forward_from_start() {
    let row = Row::from("abcd");
    assert_eq!(row.find("cd", 0, SearchDirection::Forward), Some(2));
    assert_eq!(row.find("a", 0, SearchDirection::Forward), Some(0));
    assert_eq!(row.find("x", 0, SearchDirection::Forward), None);
}

#[test]
fn row_find_answers_in_clusters() {
    let row = Row::from("héllo");
    assert_eq!(row.find("llo", 0, SearchDirection::Forward), Some(2));
    let row = Row::from("ae\u{301}b");
    assert_eq!(row.find("b", 0, SearchDirection::Forward), Some(2));
}

#[test]
fn row_find_inside_a_cluster_is_no_hit() {
    let row = Row::from("ae\u{301}b");
    assert_eq!(row.find("\u{301}", 0, SearchDirection::Forward), None);
}

#[test]
fn row_find_forward_from_column() {
    let row = Row::from("abcabc");
    assert_eq!(row.find("abc", 1, SearchDirection::Forward), Some(3));
    assert_eq!(row.find("abc", 3, SearchDirection::Forward), Some(3));
    assert_eq!(row.find("abc", 4, SearchDirection::Forward), None);
    assert_eq!(row.find("abc", 7, SearchDirection::Forward), None);
}

#[test]
fn row_find_backward_from_column() {
    let row = Row::from("abcabc");
    assert_eq!(row.find("abc", 6, SearchDirection::Backward), Some(3));
    assert_eq!(row.find("abc", 5, SearchDirection::Backward), Some(0));
    assert_eq!(row.find("abc", 2, SearchDirection::Backward), None);
    assert_eq!(row.find("abc", 7, SearchDirection::Backward), None);
}

#[test]
fn row_default_is_empty() {
    let row = Row::default();
    assert_eq!(row.len(), 0);
    assert_eq!(row.as_str(), "");
}
