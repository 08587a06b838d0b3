//! Word motions over the captured lines, in stream order (line by line,
//! left to right).
//!
//! A word is a run of `[a-zA-Z0-9_]` characters on one line; a WORD a run of
//! characters that are not whitespace. `w`/`W` go to the start of the next
//! one, `b`/`B` to the start of the previous one, `e`/`E` to the end of the
//! current or next one; where there is none the cursor stays.

use vstd::prelude::*;
use vstd::string::StrSliceExecFns;
use crate::viewer::{Viewer, ViewerModel, at_scrolled, lines_view, valid, valid_position};

verus! {

/// A character of a word: an ASCII letter, a digit or `_`.
pub open spec fn is_word_char(c: char) -> bool {
    ('a' <= c <= 'z') || ('A' <= c <= 'Z') || ('0' <= c <= '9') || c == '_'
}

/// Whitespace: space, tab, line feed, vertical tab, form feed, carriage return.
pub open spec fn is_blank(c: char) -> bool {
    c == ' ' || c == '\t' || c == '\n' || c == '\x0B' || c == '\x0C' || c == '\r'
}

/// Whether `(l, c)` is a character of a word (of a WORD where `big`).
pub open spec fn in_class(lines: Seq<Seq<char>>, big: bool, l: int, c: int) -> bool {
    &&& 0 <= l < lines.len()
    &&& 0 <= c < lines[l].len()
    &&& if big {
        !is_blank(lines[l][c])
    } else {
        is_word_char(lines[l][c])
    }
}

/// The first character of a word: in the class, its left neighbour not.
pub open spec fn starts_word(lines: Seq<Seq<char>>, big: bool, l: int, c: int) -> bool {
    in_class(lines, big, l, c) && !in_class(lines, big, l, c - 1)
}

/// The last character of a word: in the class, its right neighbour not.
pub open spec fn ends_word(lines: Seq<Seq<char>>, big: bool, l: int, c: int) -> bool {
    in_class(lines, big, l, c) && !in_class(lines, big, l, c + 1)
}

/// The positions a forward motion stops at: word ends where `end`, else word starts.
pub open spec fn stop(lines: Seq<Seq<char>>, big: bool, end: bool, l: int, c: int) -> bool {
    if end {
        ends_word(lines, big, l, c)
    } else {
        starts_word(lines, big, l, c)
    }
}

/// Stream order: `a` comes before `b`.
pub open spec fn precedes(a: (int, int), b: (int, int)) -> bool {
    a.0 < b.0 || (a.0 == b.0 && a.1 < b.1)
}

/// `q` is the first stop after `from`.
pub open spec fn is_next(lines: Seq<Seq<char>>, big: bool, end: bool, from: (int, int), q: (int, int)) -> bool {
    &&& stop(lines, big, end, q.0, q.1)
    &&& precedes(from, q)
    &&& forall|r: (int, int)|
        precedes(from, r) && precedes(r, q) ==> !#[trigger] stop(lines, big, end, r.0, r.1)
}

/// `q` is the last word start before `from`.
pub open spec fn is_prev(lines: Seq<Seq<char>>, big: bool, from: (int, int), q: (int, int)) -> bool {
    &&& starts_word(lines, big, q.0, q.1)
    &&& precedes(q, from)
    &&& forall|r: (int, int)|
        precedes(q, r) && precedes(r, from) ==> !#[trigger] starts_word(lines, big, r.0, r.1)
}

/// `w`, `W` (`end` false) and `e`, `E` (`end` true): the cursor on the first
/// stop after it, the view following; where there is none it stays.
pub open spec fn moved_forward(m: ViewerModel, big: bool, end: bool) -> ViewerModel {
    let from = (m.line, m.col);
    if exists|q: (int, int)| is_next(m.lines, big, end, from, q) {
        let q = choose|q: (int, int)| is_next(m.lines, big, end, from, q);
        at_scrolled(m, q.0, q.1)
    } else {
        m
    }
}

/// `b`, `B`: the cursor on the last word start before it, the view
/// following; where there is none it stays.
pub open spec fn moved_backward(m: ViewerModel, big: bool) -> ViewerModel {
    let from = (m.line, m.col);
    if exists|q: (int, int)| is_prev(m.lines, big, from, q) {
        let q = choose|q: (int, int)| is_prev(m.lines, big, from, q);
        at_scrolled(m, q.0, q.1)
    } else {
        m
    }
}

/// `w`, `b` and `e` see words as maximal runs of ASCII letters, ASCII
/// digits and `_`: a position starts such a word exactly when its character
/// is one of them and the character before it on the line, if any, is not;
/// `W`, `B` and `E` see runs of anything but whitespace.
pub proof fn lemma_word_starts(lines: Seq<Seq<char>>, l: int, c: int)
    requires
        0 <= l < lines.len(),
        0 <= c < lines[l].len(),
    ensures
        ({
            let wc = |ch: char|
                ('a' <= ch && ch <= 'z') || ('A' <= ch && ch <= 'Z') || ('0' <= ch && ch <= '9') || ch == '_';
            let bl = |ch: char|
                ch == ' ' || ch == '\t' || ch == '\n' || ch == '\x0B' || ch == '\x0C' || ch == '\r';
            &&& starts_word(lines, false, l, c) <==> (wc(lines[l][c]) && (c == 0 || !wc(lines[l][c - 1])))
            &&& starts_word(lines, true, l, c) <==> (!bl(lines[l][c]) && (c == 0 || bl(lines[l][c - 1])))
            &&& ends_word(lines, false, l, c) <==> (wc(lines[l][c]) && (c + 1 == lines[l].len() || !wc(
                lines[l][c + 1],
            )))
        }),
{
}

/// There is at most one first stop after a position.
pub proof fn lemma_next_is_unique(
    lines: Seq<Seq<char>>,
    big: bool,
    end: bool,
    from: (int, int),
    q1: (int, int),
    q2: (int, int),
)
    requires
        is_next(lines, big, end, from, q1),
        is_next(lines, big, end, from, q2),
    ensures
        q1 == q2,
{
    if precedes(q1, q2) {
        assert(!stop(lines, big, end, q1.0, q1.1));
    } else if precedes(q2, q1) {
        assert(!stop(lines, big, end, q2.0, q2.1));
    }
}

/// There is at most one last word start before a position.
pub proof fn lemma_prev_is_unique(
    lines: Seq<Seq<char>>,
    big: bool,
    from: (int, int),
    q1: (int, int),
    q2: (int, int),
)
    requires
        is_prev(lines, big, from, q1),
        is_prev(lines, big, from, q2),
    ensures
        q1 == q2,
{
    if precedes(q1, q2) {
        assert(!starts_word(lines, big, q2.0, q2.1));
    } else if precedes(q2, q1) {
        assert(!starts_word(lines, big, q1.0, q1.1));
    }
}

/// A word motion lands on a word (at its first character, or its last for
/// `e`, `E`) after the cursor for `w`, `W`, `e`, `E` and before it for `b`,
/// `B`, with no other such position in between; else the cursor stays.
pub proof fn lemma_motions_land_on_words(m: ViewerModel, big: bool, end: bool)
    ensures
        moved_forward(m, big, end) == m || (stop(
            m.lines,
            big,
            end,
            moved_forward(m, big, end).line,
            moved_forward(m, big, end).col,
        ) && precedes((m.line, m.col), (moved_forward(m, big, end).line, moved_forward(m, big, end).col))),
        moved_backward(m, big) == m || (starts_word(
            m.lines,
            big,
            moved_backward(m, big).line,
            moved_backward(m, big).col,
        ) && precedes((moved_backward(m, big).line, moved_backward(m, big).col), (m.line, m.col))),
        moved_forward(m, big, end).lines == m.lines,
        moved_backward(m, big).lines == m.lines,
{
}

fn class_at(s: &str, big: bool, c: usize) -> (r: bool)
    requires
        c < s@.len(),
    ensures
        r == if big {
            !is_blank(s@[c as int])
        } else {
            is_word_char(s@[c as int])
        },
{
    let ch = s.get_char(c);
    if big {
        !(ch == ' ' || ch == '\t' || ch == '\n' || ch == '\x0B' || ch == '\x0C' || ch == '\r')
    } else {
        ('a' <= ch && ch <= 'z') || ('A' <= ch && ch <= 'Z') || ('0' <= ch && ch <= '9') || ch == '_'
    }
}

fn stop_at(lines: &Vec<String>, l: usize, len: usize, big: bool, end: bool, c: usize) -> (r: bool)
    requires
        l < lines@.len(),
        len == lines@[l as int]@.len(),
    ensures
        r == stop(lines_view(lines@), big, end, l as int, c as int),
{
    let ghost ls = lines_view(lines@);
    assert(ls[l as int] == lines@[l as int]@);
    if c >= len {
        return false;
    }
    let s = lines[l].as_str();
    if !class_at(s, big, c) {
        return false;
    }
    if end {
        c + 1 >= len || !class_at(s, big, c + 1)
    } else {
        c == 0 || !class_at(s, big, c - 1)
    }
}

/// The first stop after the cursor, if any.
fn find_forward(v: &Viewer, big: bool, end: bool) -> (r: Option<(usize, usize)>)
    ensures
        match r {
            Some(q) => is_next(v@.lines, big, end, (v@.line, v@.col), (q.0 as int, q.1 as int))
                && valid_position(v@.lines, q.0 as int, q.1 as int),
            None => !exists|q: (int, int)| is_next(v@.lines, big, end, (v@.line, v@.col), q),
        },
{
    v.check_valid();
    let ghost m = v@;
    let ghost from = (m.line, m.col);
    let lines = v.lines();
    let n = lines.len();
    if n == 0 {
        assert forall|q: (int, int)| !is_next(m.lines, big, end, from, q) by {}
        return None;
    }
    let (l0, c0) = v.cursor();
    let mut l = l0;
    let mut c = c0;
    let mut len = lines[l].as_str().unicode_len();
    assert(lines_view(lines@)[l as int] == lines@[l as int]@);
    loop
        invariant
            m == v@,
            lines_view(lines@) == m.lines,
            n == lines@.len() > 0,
            from == (l0 as int, c0 as int),
            from == (m.line, m.col),
            l < n,
            len == lines@[l as int]@.len(),
            c <= len,
            precedes(from, (l as int, c as int)) || from == (l as int, c as int),
            forall|r: (int, int)|
                precedes(from, r) && !precedes((l as int, c as int), r) ==> !#[trigger] stop(
                    m.lines,
                    big,
                    end,
                    r.0,
                    r.1,
                ),
        decreases n - l, len - c,
    {
        let ghost prev = (l as int, c as int);
        if c < len {
            c = c + 1;
        } else {
            if l + 1 >= n {
                assert forall|q: (int, int)| !is_next(m.lines, big, end, from, q) by {
                    if is_next(m.lines, big, end, from, q) {
                        if !precedes(prev, q) {
                            assert(!stop(m.lines, big, end, q.0, q.1));
                        }
                    }
                }
                return None;
            }
            l = l + 1;
            c = 0;
            len = lines[l].as_str().unicode_len();
            assert(lines_view(lines@)[l as int] == lines@[l as int]@);
        }
        let here = stop_at(lines, l, len, big, end, c);
        if here {
            proof {
                let q = (l as int, c as int);
                assert forall|r: (int, int)| precedes(from, r) && precedes(r, q) implies !#[trigger] stop(
                    m.lines,
                    big,
                    end,
                    r.0,
                    r.1,
                ) by {
                    if precedes(prev, r) {
                        assert(!in_class(m.lines, big, r.0, r.1));
                    }
                }
            }
            return Some((l, c));
        }
        proof {
            assert forall|r: (int, int)|
                precedes(from, r) && !precedes((l as int, c as int), r) implies !#[trigger] stop(
                m.lines,
                big,
                end,
                r.0,
                r.1,
            ) by {
                if precedes(prev, r) && r != (l as int, c as int) {
                    assert(!in_class(m.lines, big, r.0, r.1));
                }
            }
        }
    }
}

/// The last word start before the cursor, if any.
fn find_backward(v: &Viewer, big: bool) -> (r: Option<(usize, usize)>)
    ensures
        match r {
            Some(q) => is_prev(v@.lines, big, (v@.line, v@.col), (q.0 as int, q.1 as int))
                && valid_position(v@.lines, q.0 as int, q.1 as int),
            None => !exists|q: (int, int)| is_prev(v@.lines, big, (v@.line, v@.col), q),
        },
{
    v.check_valid();
    let ghost m = v@;
    let ghost from = (m.line, m.col);
    let lines = v.lines();
    let n = lines.len();
    if n == 0 {
        assert forall|q: (int, int)| !is_prev(m.lines, big, from, q) by {}
        return None;
    }
    let (l0, c0) = v.cursor();
    let mut l = l0;
    let mut c = c0;
    assert(lines_view(lines@)[l as int] == lines@[l as int]@);
    loop
        invariant
            m == v@,
            lines_view(lines@) == m.lines,
            n == lines@.len() > 0,
            from == (l0 as int, c0 as int),
            from == (m.line, m.col),
            l < n,
            c <= lines@[l as int]@.len(),
            precedes((l as int, c as int), from) || from == (l as int, c as int),
            forall|r: (int, int)|
                precedes(r, from) && !precedes(r, (l as int, c as int)) ==> !#[trigger] starts_word(
                    m.lines,
                    big,
                    r.0,
                    r.1,
                ),
        decreases l, c,
    {
        let ghost prev = (l as int, c as int);
        if c > 0 {
            c = c - 1;
        } else {
            if l == 0 {
                assert forall|q: (int, int)| !is_prev(m.lines, big, from, q) by {
                    if is_prev(m.lines, big, from, q) {
                        if !precedes(q, prev) {
                            assert(!starts_word(m.lines, big, q.0, q.1));
                        }
                    }
                }
                return None;
            }
            l = l - 1;
            c = lines[l].as_str().unicode_len();
            assert(lines_view(lines@)[l as int] == lines@[l as int]@);
        }
        let len = lines[l].as_str().unicode_len();
        let here = stop_at(lines, l, len, big, false, c);
        if here {
            proof {
                let q = (l as int, c as int);
                assert forall|r: (int, int)| precedes(q, r) && precedes(r, from) implies !#[trigger] starts_word(
                    m.lines,
                    big,
                    r.0,
                    r.1,
                ) by {
                    if precedes(r, prev) {
                        assert(!in_class(m.lines, big, r.0, r.1));
                    }
                }
            }
            return Some((l, c));
        }
        proof {
            assert forall|r: (int, int)|
                precedes(r, from) && !precedes(r, (l as int, c as int)) implies !#[trigger] starts_word(
                m.lines,
                big,
                r.0,
                r.1,
            ) by {
                if precedes(r, prev) && r != (l as int, c as int) {
                    assert(!in_class(m.lines, big, r.0, r.1));
                }
            }
        }
    }
}

/// `w` (`big` false) or `W` where `end` is false, `e` or `E` where it is
/// true: the cursor to the first stop after it, the view following.
pub fn move_forward(v: &mut Viewer, big: bool, end: bool)
    ensures
        final(v)@ == moved_forward(old(v)@, big, end),
{
    let found = find_forward(v, big, end);
    let ghost m = v@;
    match found {
        Some((l, c)) => {
            proof {
                let q = (l as int, c as int);
                let chosen = choose|q: (int, int)| is_next(m.lines, big, end, (m.line, m.col), q);
                lemma_next_is_unique(m.lines, big, end, (m.line, m.col), q, chosen);
            }
            v.move_to(l, c);
        },
        None => {},
    }
}

/// `b` (`big` false) or `B`: the cursor to the last word start before it,
/// the view following.
pub fn move_backward(v: &mut Viewer, big: bool)
    ensures
        final(v)@ == moved_backward(old(v)@, big),
{
    let found = find_backward(v, big);
    let ghost m = v@;
    match found {
        Some((l, c)) => {
            proof {
                let q = (l as int, c as int);
                let chosen = choose|q: (int, int)| is_prev(m.lines, big, (m.line, m.col), q);
                lemma_prev_is_unique(m.lines, big, (m.line, m.col), q, chosen);
            }
            v.move_to(l, c);
        },
        None => {},
    }
}

} // verus!
