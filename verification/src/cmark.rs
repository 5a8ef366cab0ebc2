//! Markdown to HTML, by `pulldown_cmark`.

use vstd::prelude::*;
use pulldown_cmark::html::push_html;
use pulldown_cmark::Parser;

verus! {

/// The HTML that `pulldown_cmark` renders for a markdown text, with no
/// extension switched on.
pub uninterp spec fn markdown_html(markdown: Seq<char>) -> Seq<char>;

/// Renders markdown as HTML: `pulldown_cmark::html::push_html` into an empty
/// buffer, over the events of `pulldown_cmark::Parser::new`. The outcome
/// depends on the text alone; nothing else is known of it here.
#[verifier::external_body]
pub fn to_html(s: &str) -> (html: String)
    ensures
        html@ == markdown_html(s@),
{
    let parser = Parser::new(s);
    let mut buffer = String::new();
    push_html(&mut buffer, parser);
    buffer
}

} // verus!
