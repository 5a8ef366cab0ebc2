use rskr::router::{route, route_table, starts_with, Route};

fn routed(path: &str) -> Option<(Route, String)> {
    route(&route_table(), path)
}

#[test]
fn route_table_in_order() {
    assert_eq!(
        route_table(),
        vec![("/static/", Route::Static), ("/pages/", Route::Page), ("/", Route::Index)]
    );
}

#[test]
fn route_page() {
    assert_eq!(routed("/pages/foo"), Some((Route::Page, "foo".to_owned())));
    assert_eq!(routed("/pages/"), Some((Route::Page, "".to_owned())));
    assert_eq!(routed("/pages/a/b"), Some((Route::Page, "a/b".to_owned())));
}

#[test]
fn route_index() {
    assert_eq!(routed("/"), Some((Route::Index, "".to_owned())));
    assert_eq!(routed("/pages"), Some((Route::Index, "pages".to_owned())));
    assert_eq!(routed("/favicon.ico"), Some((Route::Index, "favicon.ico".to_owned())));
}

#[test]
fn route_static() {
    assert_eq!(routed("/static/site.css"), Some((Route::Static, "site.css".to_owned())));
    assert_eq!(routed("/static/pages/x"), Some((Route::Static, "pages/x".to_owned())));
}

#[test]
fn route_none() {
    assert_eq!(routed(""), None);
    assert_eq!(routed("pages/foo"), None);
    assert_eq!(routed("*"), None);
}

#[test]
fn route_first_match_wins() {
    let general_first = [("/", Route::Index), ("/pages/", Route::Page)];
    assert_eq!(route(&general_first, "/pages/foo"), Some((Route::Index, "pages/foo".to_owned())));
    let specific_first = [("/pages/", Route::Page), ("/", Route::Index)];
    assert_eq!(route(&specific_first, "/pages/foo"), Some((Route::Page, "foo".to_owned())));
    assert_eq!(route(&[], "/pages/foo"), None);
    assert_eq!(route(&[("", Route::Static)], "/x"), Some((Route::Static, "/x".to_owned())));
}

#[test]
fn route_remainder_counts_code_points() {
    let table = [("/문서/", Route::Page)];
    assert_eq!(route(&table, "/문서/가나"), Some((Route::Page, "가나".to_owned())));
}

#[test]
fn starts_with_prefix() {
    let text: Vec<char> = "/pages/x".chars().collect();
    let yes: Vec<char> = "/pages/".chars().collect();
    let no: Vec<char> = "/pagex/".chars().collect();
    let long: Vec<char> = "/pages/xy".chars().collect();
    assert!(starts_with(&text, &yes));
    assert!(starts_with(&text, &text));
    assert!(starts_with(&text, &vec![]));
    assert!(!starts_with(&text, &no));
    assert!(!starts_with(&text, &long));
}
