//! Page titles: the characters a title may be made of.

use vstd::prelude::*;

verus! {

broadcast use vstd::string::group_string_axioms;

/// The characters a page title may hold: ASCII letters, digits, `_` and `-`.
pub open spec fn is_title_char(c: char) -> bool {
    ||| 'A' <= c <= 'Z'
    ||| 'a' <= c <= 'z'
    ||| '0' <= c <= '9'
    ||| c == '_'
    ||| c == '-'
}

/// A title is bad when any of its characters is no title character. So is
/// every title with a `.` or a `/` in it, and every title that is not ASCII.
pub open spec fn is_bad(title: Seq<char>) -> bool {
    exists|i: int| 0 <= i < title.len() && !is_title_char(#[trigger] title[i])
}

/// Whether `c` may stand in a page title.
pub fn title_char(c: char) -> (allowed: bool)
    ensures
        allowed == is_title_char(c),
{
    ('A' <= c && c <= 'Z') || ('a' <= c && c <= 'z') || ('0' <= c && c <= '9') || c == '_' || c
        == '-'
}

/// Whether any of the first `len` characters of `title` is no title character.
pub fn has_bad_char(title: &Vec<char>, len: usize) -> (bad: bool)
    requires
        len <= title.len(),
    ensures
        bad == is_bad(title@.take(len as int)),
{
    let mut i: usize = 0;
    while i < len
        invariant
            i <= len <= title.len(),
            forall|k: int| 0 <= k < i ==> is_title_char(title@[k]),
        decreases len - i,
    {
        if !title_char(title[i]) {
            assert(!is_title_char(title@.take(len as int)[i as int]));
            return true;
        }
        i += 1;
    }
    false
}

/// Whether `title` is bad: whether it holds a character outside
/// `[A-Za-z0-9_-]`.
pub fn is_bad_title(title: &str) -> (bad: bool)
    ensures
        bad == is_bad(title@),
{
    let mut bad = false;
    for c in it: title.chars()
        invariant
            it.seq() == title@,
            bad == is_bad(it.seq().take(it.index())),
    {
        let ghost seen = it.seq().take(it.index());
        let ghost next = it.seq().take(it.index() + 1);
        proof {
            assert(next.drop_last() == seen);
            if is_bad(seen) {
                let k = choose|k: int| 0 <= k < seen.len() && !is_title_char(#[trigger] seen[k]);
                assert(!is_title_char(next[k]));
            }
            if is_bad(next) && is_title_char(c) {
                let k = choose|k: int| 0 <= k < next.len() && !is_title_char(#[trigger] next[k]);
                assert(!is_title_char(seen[k]));
            }
            if !is_title_char(c) {
                assert(!is_title_char(next[it.index()]));
            }
        }
        if !title_char(c) {
            bad = true;
        }
    }
    assert(title@.take(title@.len() as int) == title@);
    bad
}

} // verus!
