use rskr::title::{has_bad_char, is_bad_title, title_char};

#[test]
fn good_titles() {
    assert_eq!(is_bad_title("index"), false);
    assert_eq!(is_bad_title("_pages"), false);
    assert_eq!(is_bad_title("A-z_09"), false);
    assert_eq!(is_bad_title(""), false);
}

#[test]
fn bad_titles() {
    assert_eq!(is_bad_title("../etc"), true);
    assert_eq!(is_bad_title("caf\u{e9}"), true);
    assert_eq!(is_bad_title("a.b"), true);
    assert_eq!(is_bad_title("a/b"), true);
    assert_eq!(is_bad_title("a b"), true);
    assert_eq!(is_bad_title("index\n"), true);
    assert_eq!(is_bad_title("가"), true);
}

#[test]
fn title_chars_at_the_edges_of_the_ranges() {
    for c in ['A', 'Z', 'a', 'z', '0', '9', '_', '-'] {
        assert!(title_char(c));
    }
    for c in ['@', '[', '`', '{', '/', ':', '.', ' ', '%', '\u{e9}'] {
        assert!(!title_char(c));
    }
}

#[test]
fn bad_char_in_a_prefix_only() {
    let title: Vec<char> = "ab.md".chars().collect();
    assert_eq!(has_bad_char(&title, 2), false);
    assert_eq!(has_bad_char(&title, 3), true);
    assert_eq!(has_bad_char(&title, 0), false);
}
