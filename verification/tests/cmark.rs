use rskr::cmark::to_html;

#[test]
fn markdown_heading() {
    assert_eq!(to_html("# Hi"), "<h1>Hi</h1>\n");
}

#[test]
fn markdown_list() {
    assert_eq!(
        to_html("\nhello\n=====\n\n* alpha\n* beta\n"),
        "<h1>hello</h1>\n<ul>\n<li>alpha</li>\n<li>beta</li>\n</ul>\n"
    );
}

#[test]
fn markdown_empty() {
    assert_eq!(to_html(""), "");
}

#[test]
fn markdown_same_text_same_html() {
    let text = "A [link](/pages/a) and *more*.\n";
    assert_eq!(to_html(text), to_html(text));
    assert_eq!(to_html(text), "<p>A <a href=\"/pages/a\">link</a> and <em>more</em>.</p>\n");
}
