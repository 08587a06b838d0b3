//! Text search over the captured lines: where a query occurs, and the
//! occurrence after or before a position, in stream order.

use vstd::prelude::*;
use vstd::string::StrSliceExecFns;
use crate::motion::precedes;
use crate::viewer::lines_view;

verus! {

/// The query occurs in `text` from column `c`.
pub open spec fn occurs_in(text: Seq<char>, q: Seq<char>, c: int) -> bool {
    &&& q.len() > 0
    &&& 0 <= c
    &&& c + q.len() <= text.len()
    &&& text.subrange(c, c + q.len()) == q
}

/// The query occurs at `(l, c)`.
pub open spec fn occurs(lines: Seq<Seq<char>>, q: Seq<char>, l: int, c: int) -> bool {
    0 <= l < lines.len() && occurs_in(lines[l], q, c)
}

/// Column `c` of `text` lies in an occurrence of the query.
pub open spec fn in_match(text: Seq<char>, q: Seq<char>, c: int) -> bool {
    exists|s: int| s <= c < s + q.len() && #[trigger] occurs_in(text, q, s)
}

/// `p` is the first occurrence after `from`.
pub open spec fn is_next_match(lines: Seq<Seq<char>>, q: Seq<char>, from: (int, int), p: (int, int)) -> bool {
    &&& occurs(lines, q, p.0, p.1)
    &&& precedes(from, p)
    &&& forall|r: (int, int)| precedes(from, r) && precedes(r, p) ==> !#[trigger] occurs(lines, q, r.0, r.1)
}

/// `p` is the last occurrence before `from`.
pub open spec fn is_prev_match(lines: Seq<Seq<char>>, q: Seq<char>, from: (int, int), p: (int, int)) -> bool {
    &&& occurs(lines, q, p.0, p.1)
    &&& precedes(p, from)
    &&& forall|r: (int, int)| precedes(p, r) && precedes(r, from) ==> !#[trigger] occurs(lines, q, r.0, r.1)
}

/// The first occurrence after `from`, if any.
pub open spec fn next_match(lines: Seq<Seq<char>>, q: Seq<char>, from: (int, int)) -> Option<(int, int)> {
    if exists|p: (int, int)| is_next_match(lines, q, from, p) {
        Some(choose|p: (int, int)| is_next_match(lines, q, from, p))
    } else {
        None
    }
}

/// The last occurrence before `from`, if any.
pub open spec fn prev_match(lines: Seq<Seq<char>>, q: Seq<char>, from: (int, int)) -> Option<(int, int)> {
    if exists|p: (int, int)| is_prev_match(lines, q, from, p) {
        Some(choose|p: (int, int)| is_prev_match(lines, q, from, p))
    } else {
        None
    }
}

/// The first occurrence at or after `from`, if any.
pub open spec fn match_from(lines: Seq<Seq<char>>, q: Seq<char>, from: (int, int)) -> Option<(int, int)> {
    if occurs(lines, q, from.0, from.1) {
        Some(from)
    } else {
        next_match(lines, q, from)
    }
}

/// The first occurrence at or after `from`, else the first of all.
pub open spec fn match_from_wrapping(lines: Seq<Seq<char>>, q: Seq<char>, from: (int, int)) -> Option<
    (int, int),
> {
    match match_from(lines, q, from) {
        Some(p) => Some(p),
        None => match_from(lines, q, (0, 0)),
    }
}

/// The first occurrence after `from`, else the first of all.
pub open spec fn next_wrapping(lines: Seq<Seq<char>>, q: Seq<char>, from: (int, int)) -> Option<(int, int)> {
    match next_match(lines, q, from) {
        Some(p) => Some(p),
        None => match_from(lines, q, (0, 0)),
    }
}

/// The last occurrence before `from`, else the last of all.
pub open spec fn prev_wrapping(lines: Seq<Seq<char>>, q: Seq<char>, from: (int, int)) -> Option<(int, int)> {
    match prev_match(lines, q, from) {
        Some(p) => Some(p),
        None => prev_match(lines, q, (lines.len() as int, 0)),
    }
}

proof fn lemma_next_match_unique(lines: Seq<Seq<char>>, q: Seq<char>, from: (int, int), a: (int, int), b: (int, int))
    requires
        is_next_match(lines, q, from, a),
        is_next_match(lines, q, from, b),
    ensures
        a == b,
{
    if precedes(a, b) {
        assert(!occurs(lines, q, a.0, a.1));
    } else if precedes(b, a) {
        assert(!occurs(lines, q, b.0, b.1));
    }
}

proof fn lemma_prev_match_unique(lines: Seq<Seq<char>>, q: Seq<char>, from: (int, int), a: (int, int), b: (int, int))
    requires
        is_prev_match(lines, q, from, a),
        is_prev_match(lines, q, from, b),
    ensures
        a == b,
{
    if precedes(a, b) {
        assert(!occurs(lines, q, b.0, b.1));
    } else if precedes(b, a) {
        assert(!occurs(lines, q, a.0, a.1));
    }
}

/// Every position the search goes to is an occurrence of the query: the
/// first at or after a position, the next and the previous, round the text.
pub proof fn lemma_search_lands_on_occurrences(lines: Seq<Seq<char>>, q: Seq<char>, from: (int, int))
    ensures
        match_from_wrapping(lines, q, from) matches Some(p) ==> occurs(lines, q, p.0, p.1),
        next_wrapping(lines, q, from) matches Some(p) ==> occurs(lines, q, p.0, p.1)
            && (precedes(from, p) || next_match(lines, q, from) is None),
        prev_wrapping(lines, q, from) matches Some(p) ==> occurs(lines, q, p.0, p.1)
            && (precedes(p, from) || prev_match(lines, q, from) is None),
        q.len() == 0 ==> match_from_wrapping(lines, q, from) is None,
{
    if q.len() == 0 {
        assert forall|p: (int, int)| !is_next_match(lines, q, from, p) by {}
        assert forall|p: (int, int)| !is_next_match(lines, q, (0, 0), p) by {}
    }
}

/// The number of occurrences in `text` that start at column `c` or later.
pub open spec fn count_from(text: Seq<char>, q: Seq<char>, c: int) -> nat
    decreases text.len() + 1 - c,
{
    if c < 0 || c > text.len() {
        0
    } else {
        (if occurs_in(text, q, c) {
            1nat
        } else {
            0nat
        }) + count_from(text, q, c + 1)
    }
}

/// The number of occurrences in the first `l` lines.
pub open spec fn count_lines(lines: Seq<Seq<char>>, q: Seq<char>, l: int) -> nat
    decreases l,
{
    if l <= 0 {
        0
    } else {
        count_lines(lines, q, l - 1) + count_from(lines[l - 1], q, 0)
    }
}

/// The number of occurrences in all the lines.
pub open spec fn total_matches(lines: Seq<Seq<char>>, q: Seq<char>) -> nat {
    count_lines(lines, q, lines.len() as int)
}

/// The 1-based number of the occurrence at `p` in stream order: the
/// occurrences before it, plus one.
pub open spec fn match_number(lines: Seq<Seq<char>>, q: Seq<char>, p: (int, int)) -> nat {
    (count_lines(lines, q, p.0) + count_from(lines[p.0], q, 0) - count_from(lines[p.0], q, p.1) + 1) as nat
}

proof fn lemma_count_from_bound(text: Seq<char>, q: Seq<char>, c: int)
    requires
        0 <= c <= text.len(),
    ensures
        count_from(text, q, c) <= text.len() - c,
        count_from(text, q, 0) >= count_from(text, q, c),
    decreases text.len() + 1 - c,
{
    if c < text.len() {
        lemma_count_from_bound(text, q, c + 1);
    } else {
        assert(count_from(text, q, c + 1) == 0);
    }
    lemma_count_from_mono(text, q, 0, c);
}

proof fn lemma_count_from_mono(text: Seq<char>, q: Seq<char>, a: int, b: int)
    requires
        0 <= a <= b <= text.len(),
    ensures
        count_from(text, q, a) >= count_from(text, q, b),
    decreases b - a,
{
    if a < b {
        lemma_count_from_mono(text, q, a + 1, b);
    }
}

/// The number of occurrences in `s` from column `from` on.
fn count_in(s: &str, q: &Vec<char>, from: usize) -> (r: usize)
    requires
        from <= s@.len(),
    ensures
        r == count_from(s@, q@, from as int),
{
    let len = s.unicode_len();
    let mut c = len;
    let mut acc: usize = if occurs_at(s, q, len) {
        1
    } else {
        0
    };
    proof {
        assert(count_from(s@, q@, len as int + 1) == 0);
    }
    while c > from
        invariant
            from <= c <= len == s@.len(),
            acc == count_from(s@, q@, c as int),
        decreases c - from,
    {
        proof {
            lemma_count_from_bound(s@, q@, c as int);
        }
        c = c - 1;
        if occurs_at(s, q, c) {
            acc = acc + 1;
        }
    }
    acc
}

/// The number of occurrences in all the lines, and the number of the one
/// at `p` where `p` is given.
pub fn match_counts(lines: &Vec<String>, q: &Vec<char>, p: Option<(usize, usize)>) -> (r: (u128, u128))
    requires
        p matches Some(x) ==> x.0 < lines@.len() && x.1 <= lines@[x.0 as int]@.len(),
    ensures
        r.1 == total_matches(lines_view(lines@), q@),
        r.0 == match p {
            Some(x) => match_number(lines_view(lines@), q@, (x.0 as int, x.1 as int)),
            None => 0,
        },
{
    let ghost ls = lines_view(lines@);
    let n = lines.len();
    let mut total: u128 = 0;
    let mut number: u128 = 0;
    let mut l: usize = 0;
    while l < n
        invariant
            l <= n == lines@.len(),
            ls == lines_view(lines@),
            total == count_lines(ls, q@, l as int),
            total <= l * 0x1_0000_0000_0000_0000,
            p matches Some(x) ==> x.0 < lines@.len() && x.1 <= lines@[x.0 as int]@.len(),
            p matches Some(x) ==> (x.0 < l ==> number == match_number(ls, q@, (x.0 as int, x.1 as int))),
            p is None ==> number == 0,
        decreases n - l,
    {
        assert(ls[l as int] == lines@[l as int]@);
        let s = lines[l].as_str();
        let k = count_in(s, q, 0);
        proof {
            lemma_count_from_bound(ls[l as int], q@, 0);
        }
        if let Some(x) = p {
            if x.0 == l {
                let rest = count_in(s, q, x.1);
                proof {
                    lemma_count_from_bound(ls[l as int], q@, x.1 as int);
                }
                number = total + (k - rest) as u128 + 1;
            }
        }
        assert(total + k <= (l + 1) * 0x1_0000_0000_0000_0000) by (nonlinear_arith)
            requires
                total <= l * 0x1_0000_0000_0000_0000,
                k < 0x1_0000_0000_0000_0000,
        ;
        assert((l + 1) * 0x1_0000_0000_0000_0000 <= 0x1_0000_0000_0000_0000 * 0x1_0000_0000_0000_0000) by (nonlinear_arith)
            requires
                l + 1 <= 0x1_0000_0000_0000_0000,
        ;
        total = total + k as u128;
        l = l + 1;
    }
    (number, total)
}

/// Whether the query occurs in `s` from column `c`.
pub fn occurs_at(s: &str, q: &Vec<char>, c: usize) -> (r: bool)
    ensures
        r == occurs_in(s@, q@, c as int),
{
    let len = s.unicode_len();
    let n = q.len();
    if n == 0 || c > len || n > len - c {
        return false;
    }
    let mut i: usize = 0;
    while i < n
        invariant
            i <= n == q@.len(),
            len == s@.len(),
            c + n <= len,
            s@.subrange(c as int, c + i) == q@.subrange(0, i as int),
        decreases n - i,
    {
        if s.get_char(c + i) != q[i] {
            assert(s@.subrange(c as int, c + n)[i as int] != q@[i as int]);
            return false;
        }
        assert(s@.subrange(c as int, c + i + 1) =~= s@.subrange(c as int, c + i).push(s@[c + i]));
        assert(q@.subrange(0, i + 1) =~= q@.subrange(0, i as int).push(q@[i as int]));
        i = i + 1;
    }
    assert(q@.subrange(0, n as int) =~= q@);
    true
}

/// Whether column `c` of `s` lies in an occurrence of the query.
pub fn in_match_at(s: &str, q: &Vec<char>, c: usize) -> (r: bool)
    ensures
        r == in_match(s@, q@, c as int),
{
    let n = q.len();
    if n == 0 {
        return false;
    }
    let lo: usize = if c >= n - 1 {
        c - (n - 1)
    } else {
        0
    };
    let count = c - lo + 1;
    let mut k: usize = 0;
    while k < count
        invariant
            count == c - lo + 1,
            k <= count,
            lo == 0 || lo + n == c + 1,
            lo + n > c,
            n == q@.len() > 0,
            forall|t: int| lo <= t < lo + k ==> !#[trigger] occurs_in(s@, q@, t),
        decreases count - k,
    {
        if occurs_at(s, q, lo + k) {
            assert(lo + k <= c < lo + k + q@.len());
            return true;
        }
        k = k + 1;
    }
    assert forall|t: int| t <= c < t + q@.len() implies !#[trigger] occurs_in(s@, q@, t) by {
        if t < lo && lo > 0 {
            assert(t + q@.len() <= c);
        }
    }
    false
}

fn occurs_line(lines: &Vec<String>, q: &Vec<char>, l: usize, c: usize) -> (r: bool)
    requires
        l < lines@.len(),
    ensures
        r == occurs(lines_view(lines@), q@, l as int, c as int),
{
    assert(lines_view(lines@)[l as int] == lines@[l as int]@);
    occurs_at(lines[l].as_str(), q, c)
}

/// The first occurrence after `(l0, c0)`, if any.
pub fn find_next_match(lines: &Vec<String>, q: &Vec<char>, l0: usize, c0: usize) -> (r: Option<(usize, usize)>)
    requires
        l0 < lines@.len(),
        c0 <= lines@[l0 as int]@.len(),
    ensures
        r matches Some(p) ==> next_match(lines_view(lines@), q@, (l0 as int, c0 as int)) == Some(
            (p.0 as int, p.1 as int),
        ) && p.0 < lines@.len(),
        r is None ==> next_match(lines_view(lines@), q@, (l0 as int, c0 as int)) is None,
{
    let ghost ls = lines_view(lines@);
    let ghost from = (l0 as int, c0 as int);
    let n = lines.len();
    let mut l = l0;
    let mut c = c0;
    let mut len = lines[l].as_str().unicode_len();
    loop
        invariant
            ls == lines_view(lines@),
            from == (l0 as int, c0 as int),
            n == lines@.len(),
            l < n,
            len == lines@[l as int]@.len(),
            c <= len,
            precedes(from, (l as int, c as int)) || from == (l as int, c as int),
            forall|r: (int, int)|
                precedes(from, r) && !precedes((l as int, c as int), r) ==> !#[trigger] occurs(ls, q@, r.0, r.1),
        decreases n - l, len - c,
    {
        let ghost prev = (l as int, c as int);
        assert(ls[l as int] == lines@[l as int]@);
        if c < len {
            c = c + 1;
        } else {
            if l + 1 >= n {
                assert forall|p: (int, int)| !is_next_match(ls, q@, from, p) by {
                    if is_next_match(ls, q@, from, p) && precedes(prev, p) {
                        if 0 <= p.0 < ls.len() {
                            assert(ls[p.0] == lines@[p.0]@);
                        }
                    }
                }
                return None;
            }
            l = l + 1;
            c = 0;
            len = lines[l].as_str().unicode_len();
        }
        assert(ls[l as int] == lines@[l as int]@);
        if occurs_line(lines, q, l, c) {
            proof {
                let p = (l as int, c as int);
                assert forall|r: (int, int)| precedes(from, r) && precedes(r, p) implies !#[trigger] occurs(
                    ls,
                    q@,
                    r.0,
                    r.1,
                ) by {
                    if precedes(prev, r) {
                        if 0 <= r.0 < ls.len() {
                            if 0 <= r.0 < ls.len() {
                        assert(ls[r.0] == lines@[r.0]@);
                    }
                        }
                    }
                }
                assert(is_next_match(ls, q@, from, p));
                let chosen = choose|x: (int, int)| is_next_match(ls, q@, from, x);
                lemma_next_match_unique(ls, q@, from, p, chosen);
            }
            return Some((l, c));
        }
        proof {
            assert forall|r: (int, int)|
                precedes(from, r) && !precedes((l as int, c as int), r) implies !#[trigger] occurs(ls, q@, r.0, r.1) by {
                if precedes(prev, r) && r != (l as int, c as int) {
                    if 0 <= r.0 < ls.len() {
                        assert(ls[r.0] == lines@[r.0]@);
                    }
                }
            }
        }
    }
}

/// The last occurrence before `(l0, c0)`, if any; `l0` may be one past the
/// last line, to search from the end.
pub fn find_prev_match(lines: &Vec<String>, q: &Vec<char>, l0: usize, c0: usize) -> (r: Option<(usize, usize)>)
    requires
        l0 < lines@.len() && c0 <= lines@[l0 as int]@.len() || (l0 == lines@.len() && c0 == 0),
    ensures
        r matches Some(p) ==> prev_match(lines_view(lines@), q@, (l0 as int, c0 as int)) == Some(
            (p.0 as int, p.1 as int),
        ) && p.0 < lines@.len(),
        r is None ==> prev_match(lines_view(lines@), q@, (l0 as int, c0 as int)) is None,
{
    let ghost ls = lines_view(lines@);
    let ghost from = (l0 as int, c0 as int);
    let n = lines.len();
    let mut l = l0;
    let mut c = c0;
    loop
        invariant
            ls == lines_view(lines@),
            from == (l0 as int, c0 as int),
            n == lines@.len(),
            l < n && c <= lines@[l as int]@.len() || (l == n && c == 0),
            precedes((l as int, c as int), from) || from == (l as int, c as int),
            forall|r: (int, int)|
                precedes(r, from) && !precedes(r, (l as int, c as int)) ==> !#[trigger] occurs(ls, q@, r.0, r.1),
        decreases l, c,
    {
        let ghost prev = (l as int, c as int);
        if c > 0 {
            c = c - 1;
        } else {
            if l == 0 {
                assert forall|p: (int, int)| !is_prev_match(ls, q@, from, p) by {
                    if is_prev_match(ls, q@, from, p) && !precedes(p, prev) {
                        assert(!occurs(ls, q@, p.0, p.1));
                    }
                }
                return None;
            }
            l = l - 1;
            c = lines[l].as_str().unicode_len();
        }
        assert(ls[l as int] == lines@[l as int]@);
        if occurs_line(lines, q, l, c) {
            proof {
                let p = (l as int, c as int);
                assert forall|r: (int, int)| precedes(p, r) && precedes(r, from) implies !#[trigger] occurs(
                    ls,
                    q@,
                    r.0,
                    r.1,
                ) by {
                    if precedes(r, prev) {
                        if 0 <= r.0 < ls.len() {
                            if 0 <= r.0 < ls.len() {
                        assert(ls[r.0] == lines@[r.0]@);
                    }
                        }
                    }
                }
                assert(is_prev_match(ls, q@, from, p));
                let chosen = choose|x: (int, int)| is_prev_match(ls, q@, from, x);
                lemma_prev_match_unique(ls, q@, from, p, chosen);
            }
            return Some((l, c));
        }
        proof {
            assert forall|r: (int, int)|
                precedes(r, from) && !precedes(r, (l as int, c as int)) implies !#[trigger] occurs(ls, q@, r.0, r.1) by {
                if precedes(r, prev) && r != (l as int, c as int) {
                    if 0 <= r.0 < ls.len() {
                        assert(ls[r.0] == lines@[r.0]@);
                    }
                }
            }
        }
    }
}

/// The first occurrence at or after `(l0, c0)`, if any.
pub fn find_match_from(lines: &Vec<String>, q: &Vec<char>, l0: usize, c0: usize) -> (r: Option<(usize, usize)>)
    requires
        l0 < lines@.len(),
        c0 <= lines@[l0 as int]@.len(),
    ensures
        r matches Some(p) ==> match_from(lines_view(lines@), q@, (l0 as int, c0 as int)) == Some(
            (p.0 as int, p.1 as int),
        ) && p.0 < lines@.len(),
        r is None ==> match_from(lines_view(lines@), q@, (l0 as int, c0 as int)) is None,
{
    if occurs_line(lines, q, l0, c0) {
        Some((l0, c0))
    } else {
        find_next_match(lines, q, l0, c0)
    }
}

} // verus!
