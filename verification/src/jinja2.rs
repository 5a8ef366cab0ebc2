//! A minimal template engine: literal text with `{{name}}` markers.

use vstd::prelude::*;
use vstd::std_specs::cmp::{PartialEqSpec, PartialEqSpecImpl};
use vstd::string::StringExecFns;
use crate::text::{chars_of, str_eq, string_of};

verus! {

/// One piece of a compiled template.
#[derive(Debug, Clone, Eq)]
pub enum Token {
    /// Text that is copied to the output as it stands.
    JinjaText(String),
    /// A marker; the text between `{{` and `}}` is the variable's name, untrimmed.
    JinjaVariable(String),
}

/// A compiled template: its tokens in source order.
#[derive(Debug, Clone, Eq)]
pub struct Template {
    pub elements: Vec<Token>,
}

/// What a token is, as plain text.
pub enum Piece {
    Text(Seq<char>),
    Variable(Seq<char>),
}

impl View for Token {
    type V = Piece;

    open spec fn view(&self) -> Piece {
        match *self {
            Token::JinjaText(t) => Piece::Text(t@),
            Token::JinjaVariable(v) => Piece::Variable(v@),
        }
    }
}

impl View for Template {
    type V = Seq<Piece>;

    open spec fn view(&self) -> Seq<Piece> {
        self.elements@.map_values(|e: Token| e@)
    }
}

/// Two tokens are equal when they are of the same kind and hold the same text.
impl PartialEq for Token {
    fn eq(&self, other: &Token) -> (same: bool) {
        match (self, other) {
            (Token::JinjaText(a), Token::JinjaText(b)) => str_eq(a.as_str(), b.as_str()),
            (Token::JinjaVariable(a), Token::JinjaVariable(b)) => str_eq(a.as_str(), b.as_str()),
            _ => false,
        }
    }
}

impl PartialEqSpecImpl for Token {
    open spec fn obeys_eq_spec() -> bool {
        true
    }

    open spec fn eq_spec(&self, other: &Token) -> bool {
        self@ == other@
    }
}

/// Two templates are equal when they hold equal tokens in the same order.
impl PartialEq for Template {
    fn eq(&self, other: &Template) -> (same: bool) {
        if self.elements.len() != other.elements.len() {
            assert(self@.len() != other@.len());
            return false;
        }
        let mut i: usize = 0;
        while i < self.elements.len()
            invariant
                i <= self.elements.len(),
                self.elements.len() == other.elements.len(),
                forall|k: int| 0 <= k < i ==> self@[k] == other@[k],
            decreases self.elements.len() - i,
        {
            if !(self.elements[i] == other.elements[i]) {
                assert(self@[i as int] != other@[i as int]);
                return false;
            }
            i += 1;
        }
        assert(self@ =~= other@);
        true
    }
}

impl PartialEqSpecImpl for Template {
    open spec fn obeys_eq_spec() -> bool {
        true
    }

    open spec fn eq_spec(&self, other: &Template) -> bool {
        self@ == other@
    }
}

/// Whether `c` stands at both `i` and `i + 1` in `s`.
pub open spec fn pair_at(s: Seq<char>, c: char, i: int) -> bool {
    0 <= i && i + 1 < s.len() && s[i] == c && s[i + 1] == c
}

/// The first index at or after `from` where `c` stands twice in a row.
pub open spec fn first_pair(s: Seq<char>, c: char, from: int) -> Option<int>
    decreases s.len() - from,
{
    if from < 0 || from + 1 >= s.len() {
        None
    } else if pair_at(s, c, from) {
        Some(from)
    } else {
        first_pair(s, c, from + 1)
    }
}

/// `first_pair` finds a pair, the leftmost one at or after `from`; it finds
/// none only where there is none.
pub proof fn lemma_first_pair(s: Seq<char>, c: char, from: int)
    requires
        0 <= from,
    ensures
        match first_pair(s, c, from) {
            Some(i) => from <= i && pair_at(s, c, i) && forall|k: int|
                from <= k < i ==> !pair_at(s, c, k),
            None => forall|k: int| from <= k ==> !pair_at(s, c, k),
        },
    decreases s.len() - from,
{
    if from + 1 < s.len() && !pair_at(s, c, from) {
        lemma_first_pair(s, c, from + 1);
    }
}

/// The first marker at or after `pos`: where its `{{` opens and where the
/// first `}}` after that stands. `None` when no `{{` follows, or when the
/// first one is never closed.
pub open spec fn next_marker(s: Seq<char>, pos: int) -> Option<(int, int)> {
    match first_pair(s, '{', pos) {
        Some(open) => match first_pair(s, '}', open + 2) {
            Some(close) => Some((open, close)),
            None => None,
        },
        None => None,
    }
}

/// The tokens of the source text from `pos` on.
///
/// Each marker yields the text before it (empty or not) and the variable
/// it names. What follows the last marker, if anything, is one closing text;
/// a `{{` that is never closed belongs to that text, as does a lone `{`.
pub open spec fn tokens_from(s: Seq<char>, pos: int) -> Seq<Piece>
    decreases s.len() - pos,
    via tokens_from_decreases
{
    if pos < 0 || pos >= s.len() {
        Seq::empty()
    } else {
        match next_marker(s, pos) {
            Some((open, close)) => seq![
                Piece::Text(s.subrange(pos, open)),
                Piece::Variable(s.subrange(open + 2, close)),
            ] + tokens_from(s, close + 2),
            None => seq![Piece::Text(s.subrange(pos, s.len() as int))],
        }
    }
}

#[via_fn]
proof fn tokens_from_decreases(s: Seq<char>, pos: int) {
    if 0 <= pos < s.len() {
        lemma_first_pair(s, '{', pos);
        if let Some(open) = first_pair(s, '{', pos) {
            lemma_first_pair(s, '}', open + 2);
        }
    }
}

/// The tokens of a whole source text.
pub open spec fn tokens_of(s: Seq<char>) -> Seq<Piece> {
    tokens_from(s, 0)
}

/// The source text that a token was compiled from.
pub open spec fn piece_source(piece: Piece) -> Seq<char> {
    match piece {
        Piece::Text(text) => text,
        Piece::Variable(name) => "{{"@ + name + "}}"@,
    }
}

/// The source text that a token sequence was compiled from.
pub open spec fn source_of(tokens: Seq<Piece>) -> Seq<char>
    decreases tokens.len(),
{
    if tokens.len() == 0 {
        Seq::empty()
    } else {
        piece_source(tokens[0]) + source_of(tokens.drop_first())
    }
}

/// The tokens from `pos` on spell out the source from `pos` on.
pub proof fn lemma_tokens_spell_source(s: Seq<char>, pos: int)
    requires
        0 <= pos <= s.len(),
    ensures
        source_of(tokens_from(s, pos)) == s.subrange(pos, s.len() as int),
    decreases s.len() - pos,
{
    reveal_strlit("{{");
    reveal_strlit("}}");
    let end = s.len() as int;
    if pos < end {
        lemma_first_pair(s, '{', pos);
        match next_marker(s, pos) {
            Some((open, close)) => {
                lemma_first_pair(s, '}', open + 2);
                lemma_tokens_spell_source(s, close + 2);
                let text = Piece::Text(s.subrange(pos, open));
                let variable = Piece::Variable(s.subrange(open + 2, close));
                let rest = tokens_from(s, close + 2);
                let all = seq![text, variable] + rest;
                assert(all.drop_first() == seq![variable] + rest);
                assert(all.drop_first().drop_first() == rest);
                assert("{{"@ == s.subrange(open, open + 2));
                assert("}}"@ == s.subrange(close, close + 2));
                assert(source_of(all.drop_first()) == piece_source(variable) + source_of(rest));
                assert(source_of(all) == piece_source(text) + (piece_source(variable) + source_of(
                    rest,
                )));
                assert(s.subrange(pos, open) + ((s.subrange(open, open + 2) + s.subrange(
                    open + 2,
                    close,
                ) + s.subrange(close, close + 2)) + s.subrange(close + 2, end)) == s.subrange(
                    pos,
                    end,
                ));
            },
            None => {
                let all = seq![Piece::Text(s.subrange(pos, end))];
                assert(all.drop_first() == Seq::<Piece>::empty());
                assert(source_of(all.drop_first()) == Seq::<char>::empty());
                assert(s.subrange(pos, end) + Seq::<char>::empty() == s.subrange(pos, end));
            },
        }
    } else {
        assert(s.subrange(pos, end) == Seq::<char>::empty());
    }
}

/// Compiling loses nothing: the texts of the tokens, with `{{` and `}}`
/// put back around each variable's name, spell out the source.
pub proof fn lemma_compile_keeps_source(source: Seq<char>)
    ensures
        source_of(tokens_of(source)) == source,
{
    lemma_tokens_spell_source(source, 0);
    assert(source.subrange(0, source.len() as int) == source);
}

/// Compiling is a function of the source text: two templates compiled
/// from one source are equal, token for token.
pub proof fn lemma_compile_deterministic(a: Template, b: Template, source: Seq<char>)
    requires
        a@ == tokens_of(source),
        b@ == tokens_of(source),
    ensures
        PartialEqSpec::eq_spec(&a, &b),
        a.elements.len() == b.elements.len(),
        forall|i: int|
            0 <= i < a.elements.len() ==> PartialEqSpec::eq_spec(
                #[trigger] &a.elements[i],
                &b.elements[i],
            ),
{
    assert(a@.len() == b@.len());
    assert forall|i: int| 0 <= i < a.elements.len() implies PartialEqSpec::eq_spec(
        #[trigger] &a.elements[i],
        &b.elements[i],
    ) by {
        assert(a@[i] == b@[i]);
    }
}

/// A template without variables renders as its source, whatever the context.
pub proof fn lemma_render_plain(tokens: Seq<Piece>, values: Seq<(Seq<char>, Seq<char>)>)
    requires
        forall|i: int| 0 <= i < tokens.len() ==> tokens[i] is Text,
    ensures
        render(tokens, values) == source_of(tokens),
    decreases tokens.len(),
{
    if tokens.len() > 0 {
        lemma_render_plain(tokens.drop_last(), values);
        lemma_source_of_push(tokens.drop_last(), tokens.last());
        assert(tokens.drop_last().push(tokens.last()) == tokens);
    }
}

/// The source of a token sequence with one more token at its end.
pub proof fn lemma_source_of_push(tokens: Seq<Piece>, last: Piece)
    ensures
        source_of(tokens.push(last)) == source_of(tokens) + piece_source(last),
    decreases tokens.len(),
{
    let all = tokens.push(last);
    if tokens.len() == 0 {
        assert(all.drop_first() == Seq::<Piece>::empty());
        assert(source_of(all.drop_first()) == Seq::<char>::empty());
        assert(piece_source(last) + Seq::<char>::empty() == Seq::<char>::empty() + piece_source(
            last,
        ));
    } else {
        lemma_source_of_push(tokens.drop_first(), last);
        assert(all.drop_first() == tokens.drop_first().push(last));
        assert(all[0] == tokens[0]);
        assert(piece_source(tokens[0]) + (source_of(tokens.drop_first()) + piece_source(last))
            == (piece_source(tokens[0]) + source_of(tokens.drop_first())) + piece_source(last));
    }
}

/// The value that the first entry named `name` gives, or nothing.
pub open spec fn lookup(values: Seq<(Seq<char>, Seq<char>)>, name: Seq<char>) -> Seq<char>
    decreases values.len(),
{
    if values.len() == 0 {
        Seq::empty()
    } else if values[0].0 == name {
        values[0].1
    } else {
        lookup(values.drop_first(), name)
    }
}

/// What one token contributes to the output.
pub open spec fn expand(piece: Piece, values: Seq<(Seq<char>, Seq<char>)>) -> Seq<char> {
    match piece {
        Piece::Text(t) => t,
        Piece::Variable(name) => lookup(values, name),
    }
}

/// The output of a token sequence: the tokens' contributions in order.
pub open spec fn render(tokens: Seq<Piece>, values: Seq<(Seq<char>, Seq<char>)>) -> Seq<char>
    decreases tokens.len(),
{
    if tokens.len() == 0 {
        Seq::empty()
    } else {
        render(tokens.drop_last(), values) + expand(tokens.last(), values)
    }
}

/// A context as plain text: name and value of each entry, in order.
pub open spec fn context_of(values: Seq<(&str, &str)>) -> Seq<(Seq<char>, Seq<char>)> {
    values.map_values(|p: (&str, &str)| (p.0@, p.1@))
}

/// Where `c` first stands twice in a row at or after `from`.
fn find_pair(s: &Vec<char>, c: char, from: usize) -> (found: Option<usize>)
    ensures
        match found {
            Some(i) => first_pair(s@, c, from as int) == Some(i as int),
            None => first_pair(s@, c, from as int) is None,
        },
{
    let n = s.len();
    let mut i: usize = from;
    while i < n && i + 1 < n
        invariant
            from <= i,
            n == s.len(),
            first_pair(s@, c, from as int) == first_pair(s@, c, i as int),
        decreases n - i,
    {
        if s[i] == c && s[i + 1] == c {
            return Some(i);
        }
        i += 1;
    }
    None
}

/// The value of the first entry of `values` named `name`, or the empty text.
fn find_value<'a>(values: &[(&'a str, &'a str)], name: &str) -> (value: &'a str)
    ensures
        value@ == lookup(context_of(values@), name@),
{
    let mut i: usize = 0;
    assert(context_of(values@).skip(0) == context_of(values@));
    while i < values.len()
        invariant
            i <= values.len(),
            lookup(context_of(values@), name@) == lookup(
                context_of(values@).skip(i as int),
                name@,
            ),
        decreases values.len() - i,
    {
        let ghost rest = context_of(values@).skip(i as int);
        assert(rest[0] == (values@[i as int].0@, values@[i as int].1@));
        assert(rest.drop_first() == context_of(values@).skip(i + 1));
        if str_eq(values[i].0, name) {
            return values[i].1;
        }
        i += 1;
    }
    proof {
        reveal_strlit("");
    }
    ""
}

impl Template {
    /// Compiles a template source.
    pub fn new(s: &str) -> (template: Template)
        ensures
            template@ == tokens_of(s@),
    {
        let src = chars_of(s);
        let n = src.len();
        let mut elements: Vec<Token> = Vec::new();
        let mut pos: usize = 0;
        while pos < n
            invariant
                pos <= n,
                n == src.len(),
                tokens_of(src@) == elements@.map_values(|e: Token| e@) + tokens_from(
                    src@,
                    pos as int,
                ),
            decreases n - pos,
        {
            let ghost before = elements@.map_values(|e: Token| e@);
            let mut marker: Option<(usize, usize)> = None;
            if let Some(open) = find_pair(&src, '{', pos) {
                proof {
                    lemma_first_pair(src@, '{', pos as int);
                }
                if let Some(close) = find_pair(&src, '}', open + 2) {
                    proof {
                        lemma_first_pair(src@, '}', open + 2);
                    }
                    marker = Some((open, close));
                }
            }
            match marker {
                Some((open, close)) => {
                    elements.push(Token::JinjaText(string_of(&src, pos, open)));
                    elements.push(Token::JinjaVariable(string_of(&src, open + 2, close)));
                    assert(elements@.map_values(|e: Token| e@) == before + seq![
                        Piece::Text(src@.subrange(pos as int, open as int)),
                        Piece::Variable(src@.subrange(open + 2, close as int)),
                    ]);
                    pos = close + 2;
                },
                None => {
                    elements.push(Token::JinjaText(string_of(&src, pos, n)));
                    assert(elements@.map_values(|e: Token| e@) == before + seq![
                        Piece::Text(src@.subrange(pos as int, n as int)),
                    ]);
                    pos = n;
                },
            }
        }
        Template { elements }
    }

    /// Renders the template: each text as it stands, each variable replaced
    /// by the value of the first entry of `values` with its name, or by
    /// nothing where no entry has that name.
    pub fn replace(&self, values: &[(&str, &str)]) -> (out: String)
        ensures
            out@ == render(self@, context_of(values@)),
    {
        let mut out = String::new();
        let mut i: usize = 0;
        while i < self.elements.len()
            invariant
                i <= self.elements.len(),
                out@ == render(self@.take(i as int), context_of(values@)),
            decreases self.elements.len() - i,
        {
            assert(self@.take(i + 1).drop_last() == self@.take(i as int));
            match &self.elements[i] {
                Token::JinjaText(t) => {
                    out.append(t.as_str());
                },
                Token::JinjaVariable(name) => {
                    out.append(find_value(values, name.as_str()));
                },
            }
            i += 1;
        }
        assert(self@.take(i as int) == self@);
        out
    }
}

} // verus!
