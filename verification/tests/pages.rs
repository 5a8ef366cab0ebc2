use rskr::fetched::Fetched;
use rskr::pages::{insert_sorted, list_pages, page_title_of, render_page_list, sorted_page_titles, text_before};

fn names(list: &[&str]) -> Fetched<Vec<String>> {
    Fetched::Found(list.iter().map(|s| s.to_string()).collect())
}

fn chars(s: &str) -> Vec<char> {
    s.chars().collect()
}

#[test]
fn list_two_pages_and_a_file_that_is_no_page() {
    assert_eq!(
        list_pages(&names(&["a.md", "b.md", "notes.txt"])),
        "<ul>\n<li><a href=\"/pages/a\">a</a></li><li><a href=\"/pages/b\">b</a></li></ul>"
    );
}

#[test]
fn list_is_sorted() {
    assert_eq!(
        list_pages(&names(&["b.md", "index.md", "a.md", "B.md", "_x.md", "a-b.md", "ab.md", "0.md"])),
        "<ul>\n<li><a href=\"/pages/0\">0</a></li><li><a href=\"/pages/B\">B</a></li>\
         <li><a href=\"/pages/_x\">_x</a></li><li><a href=\"/pages/a\">a</a></li>\
         <li><a href=\"/pages/a-b\">a-b</a></li><li><a href=\"/pages/ab\">ab</a></li>\
         <li><a href=\"/pages/b\">b</a></li><li><a href=\"/pages/index\">index</a></li></ul>"
    );
}

#[test]
fn list_leaves_out_bad_stems() {
    assert_eq!(
        list_pages(&names(&[".md", "a.b.md", "caf\u{e9}.md", "a b.md", "ok.md", "x.MD", "md", "y.mdx", "z.md.bak"])),
        "<ul>\n<li><a href=\"/pages/ok\">ok</a></li></ul>"
    );
}

#[test]
fn list_keeps_a_title_that_comes_twice() {
    assert_eq!(
        list_pages(&names(&["a.md", "a.md"])),
        "<ul>\n<li><a href=\"/pages/a\">a</a></li><li><a href=\"/pages/a\">a</a></li></ul>"
    );
}

#[test]
fn list_without_pages() {
    assert_eq!(list_pages(&names(&[])), "No pages found");
    assert_eq!(list_pages(&names(&["notes.txt", ".md"])), "No pages found");
    assert_eq!(list_pages(&Fetched::Missing), "No pages found");
}

#[test]
fn list_of_a_directory_that_cannot_be_read() {
    assert_eq!(list_pages(&Fetched::Unreadable), "Error during reading dir");
}

#[test]
fn page_title_of_a_file_name() {
    assert_eq!(page_title_of("a.md"), Some(chars("a")));
    assert_eq!(page_title_of("_pages.md"), Some(chars("_pages")));
    assert_eq!(page_title_of(".md"), None);
    assert_eq!(page_title_of("md"), None);
    assert_eq!(page_title_of(""), None);
    assert_eq!(page_title_of("a.txt"), None);
    assert_eq!(page_title_of("a.md.md"), None);
    assert_eq!(page_title_of("가.md"), None);
}

#[test]
fn text_order() {
    assert!(text_before(&chars(""), &chars("")));
    assert!(text_before(&chars(""), &chars("a")));
    assert!(!text_before(&chars("a"), &chars("")));
    assert!(text_before(&chars("a"), &chars("a")));
    assert!(text_before(&chars("a"), &chars("ab")));
    assert!(!text_before(&chars("ab"), &chars("a")));
    assert!(text_before(&chars("ab"), &chars("b")));
    assert!(!text_before(&chars("b"), &chars("ab")));
    assert!(text_before(&chars("B"), &chars("a")));
    assert!(text_before(&chars("a-"), &chars("a_")));
}

#[test]
fn insert_keeps_the_order() {
    let mut titles = vec![chars("a"), chars("c")];
    insert_sorted(&mut titles, chars("b"));
    insert_sorted(&mut titles, chars(""));
    insert_sorted(&mut titles, chars("d"));
    insert_sorted(&mut titles, chars("c"));
    assert_eq!(titles, vec![chars(""), chars("a"), chars("b"), chars("c"), chars("c"), chars("d")]);
}

#[test]
fn sorted_titles_of_names() {
    let found = vec!["z.md".to_string(), "x".to_string(), "y.md".to_string()];
    assert_eq!(sorted_page_titles(&found), vec![chars("y"), chars("z")]);
}

#[test]
fn render_list_in_the_order_given() {
    assert_eq!(
        render_page_list(&vec![chars("b"), chars("a")]),
        "<ul>\n<li><a href=\"/pages/b\">b</a></li><li><a href=\"/pages/a\">a</a></li></ul>"
    );
    assert_eq!(render_page_list(&vec![]), "No pages found");
}
