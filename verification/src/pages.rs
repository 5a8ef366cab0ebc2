//! The page index: which files of the document root are pages, and the
//! HTML list that links to them.

use vstd::prelude::*;
use vstd::relations::{sorted_by, total_ordering};
use vstd::string::StringExecFns;
use crate::fetched::Fetched;
use crate::text::{chars_of, string_of};
use crate::title::{has_bad_char, is_bad};

verus! {

broadcast use vstd::seq_lib::group_to_multiset_ensures;

/// The texts of a sequence of strings.
pub open spec fn texts(names: Seq<String>) -> Seq<Seq<char>> {
    names.map_values(|name: String| name@)
}

/// The texts of a sequence of character vectors.
pub open spec fn lines(titles: Seq<Vec<char>>) -> Seq<Seq<char>> {
    titles.map_values(|title: Vec<char>| title@)
}

/// The title of the page that a file holds: the file's name without its
/// `.md`, where the name ends so and what is left is a title that is not
/// empty and not bad.
pub open spec fn page_title(name: Seq<char>) -> Option<Seq<char>> {
    let stem = name.take(name.len() - 3);
    if name.len() > 3 && name.skip(name.len() - 3) == ".md"@ && !is_bad(stem) {
        Some(stem)
    } else {
        None
    }
}

/// The titles of the pages among `names`, in the order of `names`.
pub open spec fn page_titles(names: Seq<Seq<char>>) -> Seq<Seq<char>>
    decreases names.len(),
{
    if names.len() == 0 {
        Seq::empty()
    } else {
        match page_title(names.last()) {
            Some(title) => page_titles(names.drop_last()).push(title),
            None => page_titles(names.drop_last()),
        }
    }
}

/// Lexicographic order by code point: `a` is a prefix of `b`, or at the
/// first place where they differ `a` holds the smaller code point.
pub open spec fn text_le(a: Seq<char>, b: Seq<char>) -> bool
    decreases a.len(),
{
    if a.len() == 0 {
        true
    } else if b.len() == 0 {
        false
    } else if a[0] != b[0] {
        a[0] < b[0]
    } else {
        text_le(a.drop_first(), b.drop_first())
    }
}

/// `text_le` as a relation.
pub open spec fn text_order() -> spec_fn(Seq<char>, Seq<char>) -> bool {
    |a: Seq<char>, b: Seq<char>| text_le(a, b)
}

/// The page titles among `names`, sorted.
pub open spec fn sorted_titles(names: Seq<Seq<char>>) -> Seq<Seq<char>> {
    page_titles(names).sort_by(text_order())
}

/// The list item that links to the page `title`.
pub open spec fn link_item(title: Seq<char>) -> Seq<char> {
    "<li><a href=\"/pages/"@ + title + "\">"@ + title + "</a></li>"@
}

/// The list items for `titles`, one after the other.
pub open spec fn link_items(titles: Seq<Seq<char>>) -> Seq<char>
    decreases titles.len(),
{
    if titles.len() == 0 {
        Seq::empty()
    } else {
        link_items(titles.drop_last()) + link_item(titles.last())
    }
}

/// The HTML for a list of page titles: an unordered list of links, or a
/// fixed sentence where there is no title.
pub open spec fn page_list(titles: Seq<Seq<char>>) -> Seq<char> {
    if titles.len() == 0 {
        "No pages found"@
    } else {
        "<ul>\n"@ + link_items(titles) + "</ul>"@
    }
}

/// The page index for what was found at the document root, where what was
/// found is the names of the files, not of the directories, directly in it.
pub open spec fn listing_html(listing: Fetched<Vec<String>>) -> Seq<char> {
    match listing {
        Fetched::Missing => "No pages found"@,
        Fetched::Unreadable => "Error during reading dir"@,
        Fetched::Found(names) => page_list(sorted_titles(texts(names@))),
    }
}

/// Every text is at most itself.
pub proof fn lemma_text_le_reflexive(a: Seq<char>)
    ensures
        text_le(a, a),
    decreases a.len(),
{
    if a.len() > 0 {
        lemma_text_le_reflexive(a.drop_first());
    }
}

/// Two texts that are each at most the other are the same text.
pub proof fn lemma_text_le_antisymmetric(a: Seq<char>, b: Seq<char>)
    requires
        text_le(a, b),
        text_le(b, a),
    ensures
        a == b,
    decreases a.len(),
{
    if a.len() > 0 {
        lemma_text_le_antisymmetric(a.drop_first(), b.drop_first());
        assert(a == seq![a[0]] + a.drop_first());
        assert(b == seq![b[0]] + b.drop_first());
    } else {
        assert(a == b);
    }
}

/// The order carries over a text in between.
pub proof fn lemma_text_le_transitive(a: Seq<char>, b: Seq<char>, c: Seq<char>)
    requires
        text_le(a, b),
        text_le(b, c),
    ensures
        text_le(a, c),
    decreases a.len(),
{
    if a.len() > 0 && a[0] == b[0] && b[0] == c[0] {
        lemma_text_le_transitive(a.drop_first(), b.drop_first(), c.drop_first());
    }
}

/// Of two texts, one is at most the other.
pub proof fn lemma_text_le_total(a: Seq<char>, b: Seq<char>)
    ensures
        text_le(a, b) || text_le(b, a),
    decreases a.len(),
{
    if a.len() > 0 && b.len() > 0 && a[0] == b[0] {
        lemma_text_le_total(a.drop_first(), b.drop_first());
    }
}

/// Lexicographic order is a total order on texts.
pub proof fn lemma_text_order_total()
    ensures
        total_ordering(text_order()),
{
    let le = text_order();
    assert forall|a: Seq<char>| #[trigger] le(a, a) by {
        lemma_text_le_reflexive(a);
    }
    assert forall|a: Seq<char>, b: Seq<char>| #[trigger] le(a, b) && #[trigger] le(b, a) implies a
        == b by {
        lemma_text_le_antisymmetric(a, b);
    }
    assert forall|a: Seq<char>, b: Seq<char>, c: Seq<char>| #[trigger]
        le(a, b) && #[trigger] le(b, c) implies le(a, c) by {
        lemma_text_le_transitive(a, b, c);
    }
    assert forall|a: Seq<char>, b: Seq<char>| #[trigger] le(a, b) || #[trigger] le(b, a) by {
        lemma_text_le_total(a, b);
    }
}

/// Every page title is a title that may be asked for: it is not empty and
/// not bad, and it is the name of one of the files without its `.md`.
pub proof fn lemma_page_titles_are_good(names: Seq<Seq<char>>, i: int)
    requires
        0 <= i < page_titles(names).len(),
    ensures
        page_titles(names)[i].len() > 0,
        !is_bad(page_titles(names)[i]),
        exists|k: int| 0 <= k < names.len() && names[k] == page_titles(names)[i] + ".md"@,
    decreases names.len(),
{
    if names.len() > 0 {
        let rest = names.drop_last();
        let title = page_titles(names)[i];
        if page_title(names.last()) is Some && i == page_titles(rest).len() {
            let name = names.last();
            assert(name == name.take(name.len() - 3) + name.skip(name.len() - 3));
            assert(names[names.len() - 1] == title + ".md"@);
        } else {
            lemma_page_titles_are_good(rest, i);
            let k = choose|k: int| 0 <= k < rest.len() && rest[k] == title + ".md"@;
            assert(names[k] == title + ".md"@);
        }
    }
}

/// The sorted page titles are the one sorted sequence that holds each page
/// title as often as `names` holds its file.
pub proof fn lemma_sorted_titles(names: Seq<Seq<char>>, sorted: Seq<Seq<char>>)
    requires
        sorted_by(sorted, text_order()),
        sorted.to_multiset() == page_titles(names).to_multiset(),
    ensures
        sorted == sorted_titles(names),
{
    lemma_text_order_total();
    page_titles(names).lemma_sort_by_ensures(text_order());
    vstd::seq_lib::lemma_sorted_unique(sorted, sorted_titles(names), text_order());
}

/// The page title in a file's name, if it holds one.
pub fn page_title_of(name: &str) -> (title: Option<Vec<char>>)
    ensures
        match page_title(name@) {
            Some(stem) => title matches Some(t) && t@ == stem,
            None => title is None,
        },
{
    let mut chars = chars_of(name);
    let n = chars.len();
    proof {
        reveal_strlit(".md");
    }
    if n <= 3 {
        return None;
    }
    if chars[n - 3] != '.' || chars[n - 2] != 'm' || chars[n - 1] != 'd' {
        assert(name@.skip(n - 3)[0] == chars[n - 3] && name@.skip(n - 3)[1] == chars[n - 2]
            && name@.skip(n - 3)[2] == chars[n - 1]);
        return None;
    }
    assert(name@.skip(n - 3) == ".md"@);
    if has_bad_char(&chars, n - 3) {
        return None;
    }
    chars.truncate(n - 3);
    assert(chars@ == name@.take(n - 3));
    Some(chars)
}

/// Whether `a` comes before `b`, or is `b`, in lexicographic order.
pub fn text_before(a: &Vec<char>, b: &Vec<char>) -> (before: bool)
    ensures
        before == text_le(a@, b@),
{
    let mut i: usize = 0;
    assert(a@.skip(0) == a@ && b@.skip(0) == b@);
    while i < a.len() && i < b.len()
        invariant
            i <= a.len(),
            i <= b.len(),
            text_le(a@, b@) == text_le(a@.skip(i as int), b@.skip(i as int)),
        decreases a.len() - i,
    {
        assert(a@.skip(i as int)[0] == a[i as int] && b@.skip(i as int)[0] == b[i as int]);
        if a[i] != b[i] {
            return a[i] < b[i];
        }
        assert(a@.skip(i as int).drop_first() == a@.skip(i + 1));
        assert(b@.skip(i as int).drop_first() == b@.skip(i + 1));
        i += 1;
    }
    i == a.len()
}

/// Puts `title` into the sorted `titles`, at its place.
pub fn insert_sorted(titles: &mut Vec<Vec<char>>, title: Vec<char>)
    requires
        sorted_by(lines(old(titles)@), text_order()),
    ensures
        sorted_by(lines(final(titles)@), text_order()),
        lines(final(titles)@).to_multiset() == lines(old(titles)@).to_multiset().insert(title@),
{
    let mut at: usize = 0;
    while at < titles.len() && text_before(&titles[at], &title)
        invariant
            at <= titles.len(),
            *titles == *old(titles),
            forall|k: int| 0 <= k < at ==> text_le(#[trigger] lines(titles@)[k], title@),
        decreases titles.len() - at,
    {
        at += 1;
    }
    let ghost before = lines(titles@);
    titles.insert(at, title);
    proof {
        let after = lines(titles@);
        assert(after == before.insert(at as int, title@));
        assert(after.remove(at as int) == before);
        assert forall|i: int, j: int| 0 <= i < j < after.len() implies text_le(
            after[i],
            after[j],
        ) by {
            if j == at {
                assert(after[i] == before[i]);
            } else if i == at {
                let first = before[at as int];
                let other = before[j - 1];
                assert(after[j] == other);
                lemma_text_le_total(first, title@);
                if j - 1 > at {
                    assert(text_order()(first, other));
                    lemma_text_le_transitive(title@, first, other);
                }
            } else {
                let x = if i < at { i } else { i - 1 };
                let y = if j < at { j } else { j - 1 };
                assert(after[i] == before[x] && after[j] == before[y]);
                assert(text_order()(before[x], before[y]));
            }
        }
    }
}

/// The page titles among `names`, sorted.
pub fn sorted_page_titles(names: &Vec<String>) -> (titles: Vec<Vec<char>>)
    ensures
        lines(titles@) == sorted_titles(texts(names@)),
{
    let mut titles: Vec<Vec<char>> = Vec::new();
    let mut i: usize = 0;
    while i < names.len()
        invariant
            i <= names.len(),
            sorted_by(lines(titles@), text_order()),
            lines(titles@).to_multiset() == page_titles(
                texts(names@).take(i as int),
            ).to_multiset(),
        decreases names.len() - i,
    {
        assert(texts(names@).take(i + 1).drop_last() == texts(names@).take(i as int));
        assert(texts(names@).take(i + 1).last() == names@[i as int]@);
        if let Some(title) = page_title_of(names[i].as_str()) {
            insert_sorted(&mut titles, title);
        }
        i += 1;
    }
    proof {
        assert(texts(names@).take(i as int) == texts(names@));
        lemma_sorted_titles(texts(names@), lines(titles@));
    }
    titles
}

/// The HTML list that links to the pages `titles`, in their order.
pub fn render_page_list(titles: &Vec<Vec<char>>) -> (html: String)
    ensures
        html@ == page_list(lines(titles@)),
{
    if titles.len() == 0 {
        return String::from_str("No pages found");
    }
    let mut html = String::from_str("<ul>\n");
    let mut i: usize = 0;
    while i < titles.len()
        invariant
            i <= titles.len(),
            html@ == "<ul>\n"@ + link_items(lines(titles@).take(i as int)),
        decreases titles.len() - i,
    {
        assert(lines(titles@).take(i + 1).drop_last() == lines(titles@).take(i as int));
        let title = string_of(&titles[i], 0, titles[i].len());
        assert(title@ == titles@[i as int]@);
        html.append("<li><a href=\"/pages/");
        html.append(title.as_str());
        html.append("\">");
        html.append(title.as_str());
        html.append("</a></li>");
        assert(html@ == "<ul>\n"@ + link_items(lines(titles@).take(i + 1)));
        i += 1;
    }
    assert(lines(titles@).take(i as int) == lines(titles@));
    html.append("</ul>");
    html
}

/// The page index: the titles of the `.md` files found, sorted, as an
/// HTML list of links to `/pages/<title>`.
pub fn list_pages(listing: &Fetched<Vec<String>>) -> (html: String)
    ensures
        html@ == listing_html(*listing),
{
    match listing {
        Fetched::Missing => String::from_str("No pages found"),
        Fetched::Unreadable => String::from_str("Error during reading dir"),
        Fetched::Found(names) => {
            let titles = sorted_page_titles(names);
            render_page_list(&titles)
        },
    }
}

} // verus!
