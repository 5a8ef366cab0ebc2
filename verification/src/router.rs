//! Prefix routing: the first route whose prefix begins the path wins.

use vstd::prelude::*;
use crate::text::{chars_of, string_of};

verus! {

/// The handler that a route leads to.
#[derive(Debug, Clone, Copy, PartialEq, Eq)]
pub enum Route {
    /// A file under the static root.
    Static,
    /// A page by its title.
    Page,
    /// The index page.
    Index,
}

/// A route table as plain text: prefix and handler of each route, in order.
pub open spec fn table_of(table: Seq<(&str, Route)>) -> Seq<(Seq<char>, Route)> {
    table.map_values(|entry: (&str, Route)| (entry.0@, entry.1))
}

/// The routes of the site, in their order of priority.
pub open spec fn routes() -> Seq<(Seq<char>, Route)> {
    seq![("/static/"@, Route::Static), ("/pages/"@, Route::Page), ("/"@, Route::Index)]
}

/// The first route at or after `from` whose prefix begins `path`.
pub open spec fn first_match(table: Seq<(Seq<char>, Route)>, path: Seq<char>, from: int) -> Option<
    int,
>
    decreases table.len() - from,
{
    if from < 0 || from >= table.len() {
        None
    } else if table[from].0.is_prefix_of(path) {
        Some(from)
    } else {
        first_match(table, path, from + 1)
    }
}

/// The handler of the first route whose prefix begins `path`, and what
/// follows that prefix in `path`.
pub open spec fn dispatch(table: Seq<(Seq<char>, Route)>, path: Seq<char>) -> Option<
    (Route, Seq<char>),
> {
    match first_match(table, path, 0) {
        Some(i) => Some((table[i].1, path.skip(table[i].0.len() as int))),
        None => None,
    }
}

/// First match wins: the route found matches and none before it does;
/// where none is found, none matches.
pub proof fn lemma_first_match(table: Seq<(Seq<char>, Route)>, path: Seq<char>, from: int)
    requires
        0 <= from,
    ensures
        match first_match(table, path, from) {
            Some(i) => from <= i < table.len() && table[i].0.is_prefix_of(path) && forall|k: int|
                from <= k < i ==> !(#[trigger] table[k]).0.is_prefix_of(path),
            None => forall|k: int|
                from <= k < table.len() ==> !(#[trigger] table[k]).0.is_prefix_of(path),
        },
    decreases table.len() - from,
{
    if from < table.len() && !table[from].0.is_prefix_of(path) {
        lemma_first_match(table, path, from + 1);
    }
}

/// Every path that begins with `/` has a route in the site's table,
/// because `/` is its last prefix.
pub proof fn lemma_routes_cover(path: Seq<char>)
    requires
        path.len() > 0,
        path[0] == '/',
    ensures
        dispatch(routes(), path) is Some,
{
    reveal_strlit("/");
    assert("/"@ == path.subrange(0, 1));
    assert(routes()[2].0.is_prefix_of(path));
    lemma_first_match(routes(), path, 0);
}

/// The site's route table.
pub fn route_table() -> (table: Vec<(&'static str, Route)>)
    ensures
        table_of(table@) == routes(),
{
    let mut table: Vec<(&'static str, Route)> = Vec::new();
    table.push(("/static/", Route::Static));
    table.push(("/pages/", Route::Page));
    table.push(("/", Route::Index));
    assert(table_of(table@) == routes());
    table
}

/// Whether `prefix` begins `text`.
pub fn starts_with(text: &Vec<char>, prefix: &Vec<char>) -> (begins: bool)
    ensures
        begins == prefix@.is_prefix_of(text@),
{
    if prefix.len() > text.len() {
        return false;
    }
    let mut i: usize = 0;
    while i < prefix.len()
        invariant
            i <= prefix.len() <= text.len(),
            forall|k: int| 0 <= k < i ==> prefix@[k] == text@[k],
        decreases prefix.len() - i,
    {
        if prefix[i] != text[i] {
            assert(text@.subrange(0, prefix.len() as int)[i as int] != prefix@[i as int]);
            return false;
        }
        i += 1;
    }
    assert(prefix@ == text@.subrange(0, prefix.len() as int));
    true
}

/// Routes `path` by `table`: the handler of the first route whose prefix
/// begins `path`, and the rest of `path` after that prefix.
pub fn route(table: &[(&str, Route)], path: &str) -> (found: Option<(Route, String)>)
    ensures
        match dispatch(table_of(table@), path@) {
            Some((handler, rest)) => found matches Some(f) && f.0 == handler && f.1@ == rest,
            None => found is None,
        },
{
    let chars = chars_of(path);
    let mut i: usize = 0;
    while i < table.len()
        invariant
            i <= table.len(),
            chars@ == path@,
            first_match(table_of(table@), path@, 0) == first_match(
                table_of(table@),
                path@,
                i as int,
            ),
        decreases table.len() - i,
    {
        let prefix = chars_of(table[i].0);
        assert(table_of(table@)[i as int] == (table@[i as int].0@, table@[i as int].1));
        if starts_with(&chars, &prefix) {
            let rest = string_of(&chars, prefix.len(), chars.len());
            return Some((table[i].1, rest));
        }
        i += 1;
    }
    None
}

} // verus!
