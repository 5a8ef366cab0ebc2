use rskr::jinja2::Template;
use rskr::jinja2::Token::{JinjaText, JinjaVariable};

fn text(s: &str) -> rskr::jinja2::Token {
    JinjaText(s.to_owned())
}

fn var(s: &str) -> rskr::jinja2::Token {
    JinjaVariable(s.to_owned())
}

#[test]
fn test_parse() {
    let text = "Hello {{name}}!";
    let output = Template::new(text);
    let expected = Template {
        elements: vec![
            JinjaText("Hello ".to_owned()),
            JinjaVariable("name".to_owned()),
            JinjaText("!".to_owned()),
        ],
    };
    assert_eq!(output, expected);
}

#[test]
fn parse_empty_source() {
    assert_eq!(Template::new("").elements, vec![]);
}

#[test]
fn parse_text_only() {
    assert_eq!(Template::new("no markers").elements, vec![text("no markers")]);
}

#[test]
fn parse_marker_at_the_start_and_at_the_end() {
    assert_eq!(Template::new("{{a}}").elements, vec![text(""), var("a")]);
    assert_eq!(Template::new("{{a}}{{b}}").elements, vec![text(""), var("a"), text(""), var("b")]);
    assert_eq!(Template::new("x{{a}}").elements, vec![text("x"), var("a")]);
}

#[test]
fn parse_keeps_the_name_untrimmed() {
    assert_eq!(Template::new("{{ name }}").elements, vec![text(""), var(" name ")]);
    assert_eq!(Template::new("{{}}").elements, vec![text(""), var("")]);
}

#[test]
fn parse_lone_brace_is_text() {
    assert_eq!(Template::new("a{b").elements, vec![text("a{b")]);
    assert_eq!(Template::new("{").elements, vec![text("{")]);
    assert_eq!(Template::new("a{").elements, vec![text("a{")]);
    assert_eq!(Template::new("a{b{{c}}d").elements, vec![text("a{b"), var("c"), text("d")]);
    assert_eq!(Template::new("{ {x} }").elements, vec![text("{ {x} }")]);
}

#[test]
fn parse_unterminated_marker_is_text() {
    assert_eq!(Template::new("x{{y").elements, vec![text("x{{y")]);
    assert_eq!(Template::new("{{").elements, vec![text("{{")]);
    assert_eq!(Template::new("{{a}}b{{c}").elements, vec![text(""), var("a"), text("b{{c}")]);
    assert_eq!(Template::new("{{a}").elements, vec![text("{{a}")]);
}

#[test]
fn parse_closing_marker_is_sought_after_the_opening_one() {
    assert_eq!(Template::new("}}{{a}}").elements, vec![text("}}"), var("a")]);
    assert_eq!(Template::new("{{{a}}").elements, vec![text(""), var("{a")]);
    assert_eq!(Template::new("{{a}}}").elements, vec![text(""), var("a"), text("}")]);
    assert_eq!(Template::new("{{a {{b}} c}}").elements, vec![text(""), var("a {{b"), text(" c}}")]);
    assert_eq!(Template::new("{{}}}").elements, vec![text(""), var(""), text("}")]);
}

#[test]
fn parse_text_that_is_not_ascii() {
    assert_eq!(Template::new("헐 {{제목}} 헐").elements, vec![text("헐 "), var("제목"), text(" 헐")]);
}

#[test]
fn compiling_twice_gives_equal_templates() {
    for source in ["", "Hello {{name}}!", "a{b{{c}}d", "{{", "<h1>{{title}}</h1>\n{{content}}"] {
        assert_eq!(Template::new(source), Template::new(source));
    }
}

#[test]
fn render_with_a_value() {
    let template = Template::new("Hello {{name}}!");
    assert_eq!(template.replace(&[("name", "World")]), "Hello World!");
}

#[test]
fn render_without_a_value() {
    let template = Template::new("Hello {{name}}!");
    assert_eq!(template.replace(&[]), "Hello !");
    assert_eq!(template.replace(&[("title", "x")]), "Hello !");
    assert_eq!(template.replace(&[("nam", "x"), ("name ", "y"), ("Name", "z")]), "Hello !");
}

#[test]
fn render_takes_the_first_entry_of_a_name() {
    let template = Template::new("{{a}}-{{b}}-{{a}}");
    assert_eq!(template.replace(&[("b", "2"), ("a", "1"), ("a", "3"), ("b", "4")]), "1-2-1");
}

#[test]
fn render_does_not_expand_values() {
    let template = Template::new("{{a}}");
    assert_eq!(template.replace(&[("a", "{{b}}"), ("b", "x")]), "{{b}}");
}

#[test]
fn render_title_and_content() {
    let template = Template::new("<title>{{title}}</title><body>{{content}}</body>");
    assert_eq!(
        template.replace(&[("title", "index"), ("content", "<p>hi</p>")]),
        "<title>index</title><body><p>hi</p></body>"
    );
}

#[test]
fn render_a_template_built_by_hand() {
    let template = Template { elements: vec![var("x"), text("{{x}}"), var("x")] };
    assert_eq!(template.replace(&[("x", "1")]), "1{{x}}1");
    assert_eq!(Template { elements: vec![] }.replace(&[("x", "1")]), "");
}

#[test]
fn compile_keeps_the_source() {
    for source in ["a{{b}}c", "{{x}}{{y}}", "lone { and }} and {{z}} end", "{{open", ""] {
        let template = Template::new(source);
        let spelled: String = template
            .elements
            .iter()
            .map(|token| match token {
                JinjaText(t) => t.clone(),
                JinjaVariable(name) => format!("{{{{{}}}}}", name),
            })
            .collect();
        assert_eq!(spelled, source);
    }
}

#[test]
fn tokens_compare_by_kind_and_text() {
    assert_eq!(text("a"), text("a"));
    assert_ne!(text("a"), var("a"));
    assert_ne!(text("a"), text("b"));
    assert_ne!(Template { elements: vec![text("a")] }, Template { elements: vec![] });
    assert_ne!(
        Template { elements: vec![text("a"), var("b")] },
        Template { elements: vec![text("a"), var("c")] }
    );
}
