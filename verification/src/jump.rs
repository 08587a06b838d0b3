//! Word-jump mode: the positions on the shown lines where the typed text
//! occurs, and the labels they get.
//!
//! Matching ignores ASCII case; where the typed text ends with a space, the
//! lines are taken to end in spaces, so that a word at the end of a line can
//! be matched with its following space. A match's continuation is the
//! character after the typed text on its line, taken in lower case. A match
//! whose continuation no other match shares gets that character as its
//! label; the other matches, nearest to the cursor first (the line distance
//! weighing 10 000 columns, ties in stream order), get the labels of the
//! pool in turn: the configured label characters less those typed and
//! those that continue a match, in either case. Where the pool is too small
//! for them, no match gets a label.

use vstd::prelude::*;
use vstd::string::StrSliceExecFns;
use crate::viewer::{Viewer, ViewerModel, lines_view};
use crate::view::{first_shown, end_shown};

verus! {

/// ASCII lower case.
pub open spec fn lower(c: char) -> char {
    if 'A' <= c <= 'Z' {
        ((c as int) + 32) as char
    } else {
        c
    }
}

/// The spaces the lines are taken to end in: as many as the typed text is
/// long where it ends with a space, else none.
pub open spec fn pad(t: Seq<char>) -> int {
    if t.len() > 0 && t.last() == ' ' {
        t.len() as int
    } else {
        0
    }
}

/// Character `k` of a line taken to end in spaces.
pub open spec fn ext_at(line: Seq<char>, k: int) -> char {
    if k < line.len() {
        line[k]
    } else {
        ' '
    }
}

/// The typed text `t` matches `line` from column `c`, a column of the line.
pub open spec fn jmatch(line: Seq<char>, t: Seq<char>, c: int) -> bool {
    &&& t.len() > 0
    &&& 0 <= c < line.len()
    &&& c + t.len() <= line.len() + pad(t)
    &&& forall|i: int| 0 <= i < t.len() ==> lower(ext_at(line, c + i)) == lower(#[trigger] t[i])
}

/// The matches on line `l` (holding `line`) before column `c`, left to right.
pub open spec fn row_matches(line: Seq<char>, l: int, t: Seq<char>, c: int) -> Seq<(int, int)>
    decreases c,
{
    if c <= 0 {
        Seq::empty()
    } else {
        row_matches(line, l, t, c - 1) + if jmatch(line, t, c - 1) {
            seq![(l, c - 1)]
        } else {
            Seq::empty()
        }
    }
}

/// The matches on lines `first` to `l - 1`, in stream order.
pub open spec fn matches_upto(lines: Seq<Seq<char>>, t: Seq<char>, first: int, l: int) -> Seq<(int, int)>
    decreases l - first,
{
    if l <= first {
        Seq::empty()
    } else {
        matches_upto(lines, t, first, l - 1) + row_matches(lines[l - 1], l - 1, t, lines[l - 1].len() as int)
    }
}

/// The matches on the shown lines, in stream order.
pub open spec fn jump_matches(v: ViewerModel, t: Seq<char>) -> Seq<(int, int)> {
    if v.lines.len() == 0 {
        Seq::empty()
    } else {
        matches_upto(v.lines, t, first_shown(v), end_shown(v, v.content_rows))
    }
}

/// The continuation of the match at `m`: the character after the typed
/// text, in lower case, where the line goes on.
pub open spec fn cont(lines: Seq<Seq<char>>, t: Seq<char>, m: (int, int)) -> Option<char> {
    if m.1 + t.len() < lines[m.0].len() {
        Some(lower(lines[m.0][m.1 + t.len()]))
    } else {
        None
    }
}

/// The continuations of the matches.
pub open spec fn conts_of(lines: Seq<Seq<char>>, t: Seq<char>, list: Seq<(int, int)>) -> Seq<Option<char>> {
    list.map_values(|m: (int, int)| cont(lines, t, m))
}

/// How many of the first `n` continuations are `k`.
pub open spec fn count_eq(cs: Seq<Option<char>>, k: char, n: int) -> nat
    decreases n,
{
    if n <= 0 {
        0
    } else {
        count_eq(cs, k, n - 1) + if cs[n - 1] == Some(k) {
            1nat
        } else {
            0nat
        }
    }
}

/// Match `i`'s continuation is its own.
pub open spec fn is_unique(cs: Seq<Option<char>>, i: int) -> bool {
    match cs[i] {
        Some(k) => count_eq(cs, k, cs.len() as int) == 1,
        None => false,
    }
}

/// A typed character is `x` in lower case.
pub open spec fn has_lower(t: Seq<char>, x: char) -> bool {
    exists|i: int| 0 <= i < t.len() && lower(#[trigger] t[i]) == x
}

/// The pool from the first `n` label characters: those whose lower case is
/// neither typed nor a continuation.
pub open spec fn pool_upto(base: Seq<char>, t: Seq<char>, cs: Seq<Option<char>>, n: int) -> Seq<char>
    decreases n,
{
    if n <= 0 {
        Seq::empty()
    } else {
        let p = pool_upto(base, t, cs, n - 1);
        let x = base[n - 1];
        if !has_lower(t, lower(x)) && count_eq(cs, lower(x), cs.len() as int) == 0 {
            p.push(x)
        } else {
            p
        }
    }
}

/// How many of the first `n` matches have no continuation of their own.
pub open spec fn unresolved_upto(cs: Seq<Option<char>>, n: int) -> nat
    decreases n,
{
    if n <= 0 {
        0
    } else {
        unresolved_upto(cs, n - 1) + if !is_unique(cs, n - 1) {
            1nat
        } else {
            0nat
        }
    }
}

pub open spec fn dist(a: int, b: int) -> int {
    if a >= b {
        a - b
    } else {
        b - a
    }
}

/// The distance of `p` from the cursor at `from`: lines weigh 10 000 columns.
pub open spec fn key(p: (int, int), from: (int, int)) -> int {
    dist(p.0, from.0) * 10000 + dist(p.1, from.1)
}

/// Match `j` comes before match `i` in label order.
pub open spec fn comes_before(list: Seq<(int, int)>, from: (int, int), j: int, i: int) -> bool {
    key(list[j], from) < key(list[i], from) || (key(list[j], from) == key(list[i], from) && j < i)
}

/// How many of the first `n` matches without a continuation of their own
/// come before match `i`.
pub open spec fn rank_upto(cs: Seq<Option<char>>, list: Seq<(int, int)>, from: (int, int), i: int, n: int) -> nat
    decreases n,
{
    if n <= 0 {
        0
    } else {
        rank_upto(cs, list, from, i, n - 1) + if !is_unique(cs, n - 1) && comes_before(list, from, n - 1, i) {
            1nat
        } else {
            0nat
        }
    }
}

/// The label pool of the shown matches.
pub open spec fn jump_pool(v: ViewerModel, t: Seq<char>, base: Seq<char>) -> Seq<char> {
    let cs = conts_of(v.lines, t, jump_matches(v, t));
    pool_upto(base, t, cs, base.len() as int)
}

/// Whether the matches get labels: the pool covers those without a
/// continuation of their own.
pub open spec fn jump_labelled(v: ViewerModel, t: Seq<char>, base: Seq<char>) -> bool {
    let cs = conts_of(v.lines, t, jump_matches(v, t));
    unresolved_upto(cs, cs.len() as int) <= jump_pool(v, t, base).len()
}

/// The label of each shown match, in the order of [`jump_matches`].
pub open spec fn jump_labels(v: ViewerModel, t: Seq<char>, base: Seq<char>) -> Seq<Option<char>> {
    let list = jump_matches(v, t);
    let cs = conts_of(v.lines, t, list);
    let pool = jump_pool(v, t, base);
    Seq::new(
        list.len(),
        |i: int|
            if !jump_labelled(v, t, base) {
                None
            } else if is_unique(cs, i) {
                cs[i]
            } else {
                Some(pool[rank_upto(cs, list, (v.line, v.col), i, list.len() as int) as int])
            },
    )
}

/// The first match labelled `c`.
pub open spec fn label_index(labels: Seq<Option<char>>, c: char, n: int) -> Option<int>
    decreases n,
{
    if n <= 0 {
        None
    } else {
        match label_index(labels, c, n - 1) {
            Some(i) => Some(i),
            None => if labels[n - 1] == Some(c) {
                Some(n - 1)
            } else {
                None
            },
        }
    }
}

/// The match key `c` jumps to, if any.
pub open spec fn jump_target(v: ViewerModel, t: Seq<char>, base: Seq<char>, c: char) -> Option<(int, int)> {
    let labels = jump_labels(v, t, base);
    match label_index(labels, c, labels.len() as int) {
        Some(i) => Some(jump_matches(v, t)[i]),
        None => None,
    }
}

/// The plain value of a list of positions.
pub open spec fn list_view(list: Seq<(usize, usize)>) -> Seq<(int, int)> {
    list.map_values(|m: (usize, usize)| (m.0 as int, m.1 as int))
}

/// A match that needs a pool label ranks below the number of such
/// matches.
proof fn lemma_rank_bound(cs: Seq<Option<char>>, list: Seq<(int, int)>, from: (int, int), i: int, n: int)
    requires
        0 <= i < n,
        !is_unique(cs, i),
    ensures
        rank_upto(cs, list, from, i, n) < unresolved_upto(cs, n),
    decreases n,
{
    if n - 1 > i {
        lemma_rank_bound(cs, list, from, i, n - 1);
    } else {
        lemma_rank_le(cs, list, from, i, n - 1);
    }
}

proof fn lemma_rank_le(cs: Seq<Option<char>>, list: Seq<(int, int)>, from: (int, int), i: int, n: int)
    ensures
        rank_upto(cs, list, from, i, n) <= unresolved_upto(cs, n),
    decreases n,
{
    if n > 0 {
        lemma_rank_le(cs, list, from, i, n - 1);
    }
}

/// The labels of a jump: the shown matches, their labels, and whether
/// they got labels.
pub struct JumpData {
    pub list: Vec<(usize, usize)>,
    pub labels: Vec<Option<char>>,
    pub labelled: bool,
}

/// ASCII lower case.
pub fn lower_of(c: char) -> (r: char)
    ensures
        r == lower(c),
{
    if 'A' <= c && c <= 'Z' {
        ((c as u32 + 32) as u8) as char
    } else {
        c
    }
}

/// Whether `t` matches `s` from column `c`.
pub fn jmatch_at(s: &str, t: &Vec<char>, c: usize) -> (r: bool)
    ensures
        r == jmatch(s@, t@, c as int),
{
    let len = s.unicode_len();
    let n = t.len();
    if n == 0 || c >= len {
        return false;
    }
    let padn = if t[n - 1] == ' ' {
        n
    } else {
        0
    };
    assert(padn == pad(t@));
    if n - padn > len - c {
        return false;
    }
    let mut i: usize = 0;
    while i < n
        invariant
            i <= n == t@.len() > 0,
            len == s@.len(),
            c < len,
            forall|k: int| 0 <= k < i ==> lower(ext_at(s@, c + k)) == lower(#[trigger] t@[k]),
        decreases n - i,
    {
        let ch = if i < len - c {
            s.get_char(c + i)
        } else {
            ' '
        };
        assert(ch == ext_at(s@, c + i));
        if lower_of(ch) != lower_of(t[i]) {
            return false;
        }
        i = i + 1;
    }
    true
}

fn count_in(cs: &Vec<Option<char>>, k: char) -> (r: usize)
    ensures
        r == count_eq(cs@, k, cs@.len() as int),
{
    let mut n: usize = 0;
    let mut i: usize = 0;
    while i < cs.len()
        invariant
            i <= cs@.len(),
            n == count_eq(cs@, k, i as int),
            n <= i,
        decreases cs@.len() - i,
    {
        if cs[i] == Some(k) {
            n = n + 1;
        }
        i = i + 1;
    }
    n
}

fn typed_has(t: &Vec<char>, x: char) -> (r: bool)
    ensures
        r == has_lower(t@, x),
{
    let mut i: usize = 0;
    while i < t.len()
        invariant
            i <= t@.len(),
            forall|k: int| 0 <= k < i ==> lower(#[trigger] t@[k]) != x,
        decreases t@.len() - i,
    {
        if lower_of(t[i]) == x {
            return true;
        }
        i = i + 1;
    }
    false
}

fn unique_at(cs: &Vec<Option<char>>, i: usize) -> (r: bool)
    requires
        i < cs@.len(),
    ensures
        r == is_unique(cs@, i as int),
{
    match cs[i] {
        Some(k) => count_in(cs, k) == 1,
        None => false,
    }
}

/// The shown matches of `t` in stream order.
fn find_matches(v: &Viewer, t: &Vec<char>) -> (r: Vec<(usize, usize)>)
    ensures
        list_view(r@) == jump_matches(v@, t@),
        forall|i: int|
            0 <= i < r@.len() ==> (#[trigger] r@[i]).0 < v@.lines.len() && r@[i].1 < v@.lines[r@[i].0 as int].len(),
{
    v.check_valid();
    let ghost m = v@;
    let lines = v.lines();
    let total = lines.len();
    let mut out: Vec<(usize, usize)> = Vec::new();
    if total == 0 {
        assert(list_view(out@) =~= Seq::<(int, int)>::empty());
        return out;
    }
    let scroll = v.scroll_y();
    let first = if scroll < total - 1 {
        scroll
    } else {
        total - 1
    };
    let rows = v.content_rows();
    let end = if rows < total - first {
        first + rows
    } else {
        total
    };
    let mut l = first;
    assert(list_view(out@) =~= matches_upto(m.lines, t@, first as int, first as int));
    while l < end
        invariant
            m == v@,
            lines_view(lines@) == m.lines,
            total == lines@.len(),
            first <= l <= end <= total,
            first == first_shown(m),
            end == end_shown(m, m.content_rows),
            list_view(out@) == matches_upto(m.lines, t@, first as int, l as int),
            forall|i: int|
                0 <= i < out@.len() ==> (#[trigger] out@[i]).0 < m.lines.len() && out@[i].1 < m.lines[out@[i].0 as int].len(),
        decreases end - l,
    {
        assert(m.lines[l as int] == lines@[l as int]@);
        let s = lines[l].as_str();
        let len = s.unicode_len();
        let ghost before = list_view(out@);
        let mut c: usize = 0;
        while c < len
            invariant
                m == v@,
                lines_view(lines@) == m.lines,
                l < total == lines@.len(),
                len == s@.len(),
                s@ == m.lines[l as int],
                c <= len,
                list_view(out@) == before + row_matches(s@, l as int, t@, c as int),
                forall|i: int|
                    0 <= i < out@.len() ==> (#[trigger] out@[i]).0 < m.lines.len() && out@[i].1 < m.lines[out@[i].0 as int].len(),
            decreases len - c,
        {
            let ghost prev = out@;
            if jmatch_at(s, t, c) {
                out.push((l, c));
                assert(list_view(out@) =~= list_view(prev).push((l as int, c as int)));
            }
            assert(list_view(out@) =~= before + row_matches(s@, l as int, t@, c + 1));
            c = c + 1;
        }
        l = l + 1;
    }
    out
}

/// The matches of `t` on the shown lines of `v` and their labels, from the
/// label characters `base`.
pub fn jump_data(v: &Viewer, t: &Vec<char>, base: &Vec<char>) -> (r: JumpData)
    ensures
        list_view(r.list@) == jump_matches(v@, t@),
        r.labels@ == jump_labels(v@, t@, base@),
        r.labelled == jump_labelled(v@, t@, base@),
        forall|i: int|
            0 <= i < r.list@.len() ==> (#[trigger] r.list@[i]).0 < v@.lines.len() && r.list@[i].1 < v@.lines[r.list@[i].0 as int].len(),
{
    let ghost m = v@;
    let list = find_matches(v, t);
    let ghost lv = list_view(list@);
    let lines = v.lines();
    let n = list.len();
    // Continuations.
    let mut cs: Vec<Option<char>> = Vec::new();
    let mut i: usize = 0;
    while i < n
        invariant
            m == v@,
            lines_view(lines@) == m.lines,
            n == list@.len(),
            lv == list_view(list@),
            i <= n,
            cs@.len() == i,
            forall|k: int| 0 <= k < i ==> cs@[k] == cont(m.lines, t@, #[trigger] lv[k]),
            forall|k: int|
                0 <= k < list@.len() ==> (#[trigger] list@[k]).0 < m.lines.len() && list@[k].1 < m.lines[list@[k].0 as int].len(),
        decreases n - i,
    {
        let (l, c) = list[i];
        assert(m.lines[l as int] == lines@[l as int]@);
        let s = lines[l].as_str();
        let len = s.unicode_len();
        let k = if t.len() < len - c {
            Some(lower_of(s.get_char(c + t.len())))
        } else {
            None
        };
        assert(lv[i as int] == (l as int, c as int));
        cs.push(k);
        i = i + 1;
    }
    let ghost csv = conts_of(m.lines, t@, lv);
    assert(cs@ =~= csv);
    // The pool.
    let mut pool: Vec<char> = Vec::new();
    let mut b: usize = 0;
    while b < base.len()
        invariant
            b <= base@.len(),
            cs@ == csv,
            pool@ == pool_upto(base@, t@, csv, b as int),
        decreases base@.len() - b,
    {
        let x = lower_of(base[b]);
        if !typed_has(t, x) && count_in(&cs, x) == 0 {
            pool.push(base[b]);
        }
        b = b + 1;
    }
    // Matches needing a pool label.
    let mut unresolved: usize = 0;
    let mut j: usize = 0;
    while j < n
        invariant
            j <= n == cs@.len(),
            cs@ == csv,
            unresolved == unresolved_upto(csv, j as int),
            unresolved <= j,
        decreases n - j,
    {
        if !unique_at(&cs, j) {
            unresolved = unresolved + 1;
        }
        j = j + 1;
    }
    let labelled = unresolved <= pool.len();
    let ghost from = (m.line, m.col);
    let (cl, cc) = v.cursor();
    let mut labels: Vec<Option<char>> = Vec::new();
    let ghost target = jump_labels(m, t@, base@);
    let mut i: usize = 0;
    while i < n
        invariant
            m == v@,
            from == (m.line, m.col),
            cl == m.line,
            cc == m.col,
            n == list@.len() == cs@.len(),
            lv == list_view(list@),
            lv == jump_matches(m, t@),
            cs@ == csv,
            csv == conts_of(m.lines, t@, lv),
            pool@ == jump_pool(m, t@, base@),
            unresolved == unresolved_upto(csv, n as int),
            labelled == jump_labelled(m, t@, base@),
            target == jump_labels(m, t@, base@),
            i <= n,
            labels@ == target.subrange(0, i as int),
            forall|k: int|
                0 <= k < list@.len() ==> (#[trigger] list@[k]).0 < m.lines.len() && list@[k].1 < m.lines[list@[k].0 as int].len(),
        decreases n - i,
    {
        let lab = if !labelled {
            None
        } else if unique_at(&cs, i) {
            cs[i]
        } else {
            // The rank of match `i` among the matches needing a pool label.
            let mut rank: usize = 0;
            let mut q: usize = 0;
            let (li, ci) = list[i];
            let ki = (if li >= cl { li - cl } else { cl - li }) as u128 * 10000 + (if ci >= cc { ci - cc } else { cc - ci }) as u128;
            while q < n
                invariant
                    q <= n == list@.len() == cs@.len(),
                    i < n,
                    lv == list_view(list@),
                    cs@ == csv,
                    from == (cl as int, cc as int),
                    (li as int, ci as int) == lv[i as int],
                    ki == key(lv[i as int], from),
                    rank == rank_upto(csv, lv, from, i as int, q as int),
                    rank <= q,
                decreases n - q,
            {
                let (lq, cq) = list[q];
                assert(lv[q as int] == (lq as int, cq as int));
                let kq = (if lq >= cl { lq - cl } else { cl - lq }) as u128 * 10000 + (if cq >= cc { cq - cc } else { cc - cq }) as u128;
                assert(kq == key(lv[q as int], from));
                if !unique_at(&cs, q) && (kq < ki || (kq == ki && q < i)) {
                    rank = rank + 1;
                }
                q = q + 1;
            }
            proof {
                lemma_rank_bound(csv, lv, from, i as int, n as int);
            }
            Some(pool[rank])
        };
        labels.push(lab);
        assert(labels@ =~= target.subrange(0, i + 1));
        i = i + 1;
    }
    assert(labels@ =~= target);
    JumpData { list, labels, labelled }
}

/// The first match labelled `c`, if any.
pub fn find_label(labels: &Vec<Option<char>>, c: char) -> (r: Option<usize>)
    ensures
        match r {
            Some(i) => label_index(labels@, c, labels@.len() as int) == Some(i as int) && i < labels@.len(),
            None => label_index(labels@, c, labels@.len() as int) is None,
        },
{
    let mut i: usize = 0;
    while i < labels.len()
        invariant
            i <= labels@.len(),
            label_index(labels@, c, i as int) is None,
        decreases labels@.len() - i,
    {
        if labels[i] == Some(c) {
            assert(label_index(labels@, c, i + 1) == Some(i as int));
            proof {
                lemma_label_index_stays(labels@, c, i + 1, labels@.len() as int);
            }
            return Some(i);
        }
        i = i + 1;
    }
    None
}

proof fn lemma_label_index_stays(labels: Seq<Option<char>>, c: char, a: int, b: int)
    requires
        0 <= a <= b,
        label_index(labels, c, a) is Some,
    ensures
        label_index(labels, c, b) == label_index(labels, c, a),
    decreases b - a,
{
    if a < b {
        lemma_label_index_stays(labels, c, a, b - 1);
    }
}


proof fn lemma_label_index(labels: Seq<Option<char>>, c: char, n: int)
    requires
        0 <= n <= labels.len(),
    ensures
        match label_index(labels, c, n) {
            Some(j) => 0 <= j < n && labels[j] == Some(c),
            None => forall|j: int| 0 <= j < n ==> labels[j] != Some(c),
        },
    decreases n,
{
    if n > 0 {
        lemma_label_index(labels, c, n - 1);
    }
}

proof fn lemma_lower_idem(c: char)
    ensures
        lower(lower(c)) == lower(c),
{
}

/// A continuation counts itself, and two matches that share it count twice.
proof fn lemma_count_at(cs: Seq<Option<char>>, k: char, i: int, j: int, n: int)
    requires
        0 <= i < n <= cs.len(),
        cs[i] == Some(k),
    ensures
        count_eq(cs, k, n) >= 1,
        0 <= j < n && j != i && cs[j] == Some(k) ==> count_eq(cs, k, n) >= 2,
    decreases n,
{
    if n - 1 > i {
        lemma_count_at(cs, k, i, j, n - 1);
    } else if 0 <= j < n - 1 && cs[j] == Some(k) {
        lemma_count_at(cs, k, j, j, n - 1);
    }
}

/// Every pool character continues no match, in either case.
proof fn lemma_pool_free(base: Seq<char>, t: Seq<char>, cs: Seq<Option<char>>, n: int, r: int)
    requires
        0 <= n <= base.len(),
        0 <= r < pool_upto(base, t, cs, n).len(),
    ensures
        count_eq(cs, lower(pool_upto(base, t, cs, n)[r]), cs.len() as int) == 0,
    decreases n,
{
    if n > 0 {
        let p = pool_upto(base, t, cs, n - 1);
        if r < p.len() {
            lemma_pool_free(base, t, cs, n - 1, r);
        }
    }
}

/// The character after the typed text is safe to type: where it continues
/// one match alone it is that match's label and leads there; where it
/// continues several, or the matches have no labels, no match is labelled
/// with it, so typing it narrows the search.
pub proof fn lemma_continuation_is_safe(v: ViewerModel, t: Seq<char>, base: Seq<char>, i: int)
    requires
        0 <= i < jump_matches(v, t).len(),
        cont(v.lines, t, jump_matches(v, t)[i]) is Some,
    ensures
        ({
            let cs = conts_of(v.lines, t, jump_matches(v, t));
            let k = cont(v.lines, t, jump_matches(v, t)[i])->0;
            &&& is_unique(cs, i) && jump_labelled(v, t, base) ==> jump_target(v, t, base, k) == Some(
                jump_matches(v, t)[i],
            )
            &&& !is_unique(cs, i) ==> jump_target(v, t, base, k) is None
            &&& !jump_labelled(v, t, base) ==> jump_target(v, t, base, k) is None
        }),
{
    let list = jump_matches(v, t);
    let cs = conts_of(v.lines, t, list);
    let k = cont(v.lines, t, list[i])->0;
    let labels = jump_labels(v, t, base);
    let pool = jump_pool(v, t, base);
    let n = list.len() as int;
    let from = (v.line, v.col);
    assert(cs[i] == Some(k));
    lemma_lower_idem(v.lines[list[i].0][list[i].1 + t.len()]);
    assert(lower(k) == k);
    lemma_label_index(labels, k, n);
    // A pool label is never a continuation.
    assert forall|j: int| 0 <= j < n && !is_unique(cs, j) && jump_labelled(v, t, base) implies labels[j] != Some(k) by {
        lemma_rank_bound(cs, list, from, j, n);
        let r = rank_upto(cs, list, from, j, n) as int;
        lemma_pool_free(base, t, cs, base.len() as int, r);
        lemma_count_at(cs, k, i, i, n);
        if pool[r] == k {
            assert(count_eq(cs, lower(pool[r]), n) == 0);
        }
    }
    if is_unique(cs, i) && jump_labelled(v, t, base) {
        assert forall|j: int| 0 <= j < n && j != i implies labels[j] != Some(k) by {
            if is_unique(cs, j) {
                lemma_count_at(cs, k, i, j, n);
            }
        }
        assert(labels[i] == Some(k));
        match label_index(labels, k, n) {
            Some(j) => assert(j == i),
            None => assert(labels[i] != Some(k)),
        }
    }
    if !is_unique(cs, i) {
        lemma_count_at(cs, k, i, i, n);
        assert forall|j: int| 0 <= j < n implies labels[j] != Some(k) by {
            if jump_labelled(v, t, base) && is_unique(cs, j) && cs[j] == Some(k) {
                lemma_count_at(cs, k, j, i, n);
            }
        }
    }
}

/// The pool takes each label character at most once, from those given.
proof fn lemma_pool_from_base(base: Seq<char>, t: Seq<char>, cs: Seq<Option<char>>, n: int)
    requires
        0 <= n <= base.len(),
        crate::config::no_dups(base),
    ensures
        crate::config::no_dups(pool_upto(base, t, cs, n)),
        forall|r: int|
            #![trigger pool_upto(base, t, cs, n)[r]]
            0 <= r < pool_upto(base, t, cs, n).len() ==> exists|k: int|
                0 <= k < n && #[trigger] base[k] == pool_upto(base, t, cs, n)[r],
    decreases n,
{
    if n > 0 {
        lemma_pool_from_base(base, t, cs, n - 1);
        let p = pool_upto(base, t, cs, n - 1);
        let x = base[n - 1];
        assert forall|r: int| 0 <= r < p.len() implies p[r] != x by {
            let k = choose|k: int| 0 <= k < n - 1 && #[trigger] base[k] == p[r];
            assert(base[k] != base[n - 1]);
        }
        let q = pool_upto(base, t, cs, n);
        assert forall|r: int| #![trigger q[r]] 0 <= r < q.len() implies exists|k: int| 0 <= k < n && #[trigger] base[k] == q[r] by {
            if r < p.len() {
                let k = choose|k: int| 0 <= k < n - 1 && #[trigger] base[k] == p[r];
                assert(base[k] == q[r]);
            } else {
                assert(base[n - 1] == q[r]);
            }
        }
    }
}

/// A match that comes before another ranks below it among the matches
/// without a continuation of their own.
proof fn lemma_rank_order(cs: Seq<Option<char>>, list: Seq<(int, int)>, from: (int, int), j: int, i: int, n: int)
    requires
        0 <= i < list.len(),
        0 <= j < list.len(),
        n <= list.len(),
        comes_before(list, from, j, i),
    ensures
        rank_upto(cs, list, from, i, n) >= rank_upto(cs, list, from, j, n) + if j < n && !is_unique(cs, j) {
            1int
        } else {
            0int
        },
    decreases n,
{
    if n > 0 {
        lemma_rank_order(cs, list, from, j, i, n - 1);
        let l = n - 1;
        if comes_before(list, from, l, j) {
            assert(comes_before(list, from, l, i));
        }
    }
}

/// Two matches never share a label, where the label characters do not
/// repeat.
proof fn lemma_labels_differ(v: ViewerModel, t: Seq<char>, base: Seq<char>, i: int, j: int)
    requires
        crate::config::no_dups(base),
        jump_labelled(v, t, base),
        0 <= i < jump_matches(v, t).len(),
        0 <= j < jump_matches(v, t).len(),
        i != j,
    ensures
        jump_labels(v, t, base)[i] is Some,
        jump_labels(v, t, base)[i] != jump_labels(v, t, base)[j],
{
    let list = jump_matches(v, t);
    let cs = conts_of(v.lines, t, list);
    let labels = jump_labels(v, t, base);
    let pool = jump_pool(v, t, base);
    let n = list.len() as int;
    let from = (v.line, v.col);
    lemma_pool_from_base(base, t, cs, base.len() as int);
    if !is_unique(cs, i) {
        lemma_rank_bound(cs, list, from, i, n);
    }
    if !is_unique(cs, j) {
        lemma_rank_bound(cs, list, from, j, n);
    }
    if is_unique(cs, i) && is_unique(cs, j) {
        let k = cs[i]->0;
        if cs[j] == Some(k) {
            lemma_count_at(cs, k, i, j, n);
        }
    } else if is_unique(cs, i) || is_unique(cs, j) {
        let (u, o) = if is_unique(cs, i) {
            (i, j)
        } else {
            (j, i)
        };
        let k = cs[u]->0;
        let r = rank_upto(cs, list, from, o, n) as int;
        lemma_lower_idem(v.lines[list[u].0][list[u].1 + t.len()]);
        lemma_pool_free(base, t, cs, base.len() as int, r);
        if pool[r] == k {
            assert(count_eq(cs, lower(pool[r]), n) == 0);
        }
    } else {
        if comes_before(list, from, j, i) {
            lemma_rank_order(cs, list, from, j, i, n);
        } else {
            lemma_rank_order(cs, list, from, i, j, n);
        }
    }
}

/// An ASCII letter in the other case; other characters as they are.
pub open spec fn other_case(c: char) -> char {
    if 'a' <= c <= 'z' {
        ((c as int) - 32) as char
    } else if 'A' <= c <= 'Z' {
        ((c as int) + 32) as char
    } else {
        c
    }
}

proof fn lemma_jmatch_case(line: Seq<char>, t: Seq<char>, k: int, c: int)
    requires
        0 <= k < t.len(),
    ensures
        jmatch(line, t.update(k, other_case(t[k])), c) == jmatch(line, t, c),
{
    let u = t.update(k, other_case(t[k]));
    assert(lower(other_case(t[k])) == lower(t[k]));
    assert(pad(u) == pad(t));
    if jmatch(line, t, c) {
        assert forall|i: int| 0 <= i < u.len() implies lower(ext_at(line, c + i)) == lower(#[trigger] u[i]) by {
            assert(lower(ext_at(line, c + i)) == lower(t[i]));
        }
    }
    if jmatch(line, u, c) {
        assert forall|i: int| 0 <= i < t.len() implies lower(ext_at(line, c + i)) == lower(#[trigger] t[i]) by {
            assert(lower(ext_at(line, c + i)) == lower(u[i]));
        }
    }
}

proof fn lemma_row_matches_case(line: Seq<char>, l: int, t: Seq<char>, k: int, c: int)
    requires
        0 <= k < t.len(),
    ensures
        row_matches(line, l, t.update(k, other_case(t[k])), c) == row_matches(line, l, t, c),
    decreases c,
{
    if c > 0 {
        lemma_row_matches_case(line, l, t, k, c - 1);
        lemma_jmatch_case(line, t, k, c - 1);
    }
}

proof fn lemma_matches_upto_case(lines: Seq<Seq<char>>, t: Seq<char>, k: int, first: int, l: int)
    requires
        0 <= k < t.len(),
    ensures
        matches_upto(lines, t.update(k, other_case(t[k])), first, l) == matches_upto(lines, t, first, l),
    decreases l - first,
{
    if l > first {
        lemma_matches_upto_case(lines, t, k, first, l - 1);
        lemma_row_matches_case(lines[l - 1], l - 1, t, k, lines[l - 1].len() as int);
    }
}

/// Matching ignores the case of ASCII letters: typing a letter in the
/// other case finds the same matches.
pub proof fn lemma_matches_ignore_case(v: ViewerModel, t: Seq<char>, k: int)
    requires
        0 <= k < t.len(),
    ensures
        jump_matches(v, t.update(k, other_case(t[k]))) == jump_matches(v, t),
{
    if v.lines.len() > 0 {
        lemma_matches_upto_case(v.lines, t, k, first_shown(v), end_shown(v, v.content_rows));
    }
}

/// Every pool character's lower case is typed nowhere.
proof fn lemma_pool_untyped(base: Seq<char>, t: Seq<char>, cs: Seq<Option<char>>, n: int, r: int)
    requires
        0 <= n <= base.len(),
        0 <= r < pool_upto(base, t, cs, n).len(),
    ensures
        !has_lower(t, lower(pool_upto(base, t, cs, n)[r])),
    decreases n,
{
    if n > 0 {
        let p = pool_upto(base, t, cs, n - 1);
        if r < p.len() {
            lemma_pool_untyped(base, t, cs, n - 1, r);
        }
    }
}

/// A match without a continuation of its own gets a label that is no typed
/// character, in either case.
pub proof fn lemma_pool_labels_are_not_typed(v: ViewerModel, t: Seq<char>, base: Seq<char>, i: int, k: int)
    requires
        jump_labelled(v, t, base),
        0 <= i < jump_matches(v, t).len(),
        !is_unique(conts_of(v.lines, t, jump_matches(v, t)), i),
        0 <= k < t.len(),
    ensures
        jump_labels(v, t, base)[i] is Some,
        lower(jump_labels(v, t, base)[i]->0) != lower(t[k]),
        jump_labels(v, t, base)[i]->0 != t[k],
        jump_labels(v, t, base)[i]->0 != other_case(t[k]),
{
    let list = jump_matches(v, t);
    let cs = conts_of(v.lines, t, list);
    let n = list.len() as int;
    let from = (v.line, v.col);
    lemma_rank_bound(cs, list, from, i, n);
    let r = rank_upto(cs, list, from, i, n) as int;
    lemma_pool_untyped(base, t, cs, base.len() as int, r);
    let x = jump_pool(v, t, base)[r];
    assert(jump_labels(v, t, base)[i] == Some(x));
    if lower(x) == lower(t[k]) {
        assert(has_lower(t, lower(x)));
    }
    assert(lower(other_case(t[k])) == lower(t[k]));
}

/// Pool labels go nearest first, and the line distance dominates: of two
/// matches without a continuation of their own, one on a line nearer the
/// cursor line gets an earlier label of the pool than one on a farther
/// line, where the nearer one lies fewer than 10 000 columns from the
/// cursor column; at the same line distance, the one fewer columns away
/// does, and at the same distance both ways, the one earlier in the text.
pub proof fn lemma_nearer_match_earlier_label(v: ViewerModel, t: Seq<char>, base: Seq<char>, i: int, j: int)
    requires
        jump_labelled(v, t, base),
        0 <= i < jump_matches(v, t).len(),
        0 <= j < jump_matches(v, t).len(),
        !is_unique(conts_of(v.lines, t, jump_matches(v, t)), i),
        !is_unique(conts_of(v.lines, t, jump_matches(v, t)), j),
        ({
            let (pi, pj) = (jump_matches(v, t)[i], jump_matches(v, t)[j]);
            ||| dist(pj.0, v.line) < dist(pi.0, v.line) && dist(pj.1, v.col) < 10000
            ||| dist(pj.0, v.line) == dist(pi.0, v.line) && dist(pj.1, v.col) < dist(pi.1, v.col)
            ||| dist(pj.0, v.line) == dist(pi.0, v.line) && dist(pj.1, v.col) == dist(pi.1, v.col) && j < i
        }),
    ensures
        exists|a: int, b: int|
            0 <= a < b < jump_pool(v, t, base).len() && jump_labels(v, t, base)[j] == Some(
                #[trigger] jump_pool(v, t, base)[a],
            ) && jump_labels(v, t, base)[i] == Some(#[trigger] jump_pool(v, t, base)[b]),
{
    let list = jump_matches(v, t);
    let cs = conts_of(v.lines, t, list);
    let n = list.len() as int;
    let from = (v.line, v.col);
    let pool = jump_pool(v, t, base);
    let tie = dist(list[j].0, v.line) == dist(list[i].0, v.line) && dist(list[j].1, v.col) == dist(list[i].1, v.col);
    if !tie {
        assert(key(list[j], from) < key(list[i], from)) by (nonlinear_arith)
            requires
                key(list[j], from) == dist(list[j].0, v.line) * 10000 + dist(list[j].1, v.col),
                key(list[i], from) == dist(list[i].0, v.line) * 10000 + dist(list[i].1, v.col),
                dist(list[j].1, v.col) >= 0,
                dist(list[i].1, v.col) >= 0,
                (dist(list[j].0, v.line) < dist(list[i].0, v.line) && dist(list[j].1, v.col) < 10000) || (dist(
                    list[j].0,
                    v.line,
                ) == dist(list[i].0, v.line) && dist(list[j].1, v.col) < dist(list[i].1, v.col)),
        ;
    }
    assert(comes_before(list, from, j, i));
    lemma_rank_order(cs, list, from, j, i, n);
    lemma_rank_bound(cs, list, from, i, n);
    let a = rank_upto(cs, list, from, j, n) as int;
    let b = rank_upto(cs, list, from, i, n) as int;
    assert(jump_labels(v, t, base)[j] == Some(pool[a]));
    assert(jump_labels(v, t, base)[i] == Some(pool[b]));
}

/// Where the matches get labels, each has one, no two share it, and its key
/// leads to that match.
pub proof fn lemma_label_leads_to_its_match(v: ViewerModel, t: Seq<char>, base: Seq<char>, i: int)
    requires
        crate::config::no_dups(base),
        jump_labelled(v, t, base),
        0 <= i < jump_matches(v, t).len(),
    ensures
        jump_labels(v, t, base)[i] is Some,
        forall|j: int|
            0 <= j < jump_matches(v, t).len() && j != i ==> #[trigger] jump_labels(v, t, base)[j]
                != jump_labels(v, t, base)[i],
        jump_target(v, t, base, jump_labels(v, t, base)[i]->0) == Some(jump_matches(v, t)[i]),
{
    let labels = jump_labels(v, t, base);
    let n = jump_matches(v, t).len() as int;
    assert forall|j: int| 0 <= j < n && j != i implies labels[j] != labels[i] by {
        lemma_labels_differ(v, t, base, i, j);
    }
    let c = labels[i]->0;
    lemma_label_index(labels, c, n);
    match label_index(labels, c, n) {
        Some(j) => assert(j == i),
        None => assert(labels[i] != Some(c)),
    }
}

/// What the rows need of a jump: the matches, their labels, the length of
/// the typed text, and whether the matches got labels.
pub struct JumpCells {
    pub list: Seq<(int, int)>,
    pub labels: Seq<Option<char>>,
    pub tlen: int,
    pub labelled: bool,
}

/// The plain value of a jump's data with the length of its typed text.
pub open spec fn jump_cells(j: Option<(&JumpData, usize)>) -> Option<JumpCells> {
    match j {
        Some((d, n)) => Some(
            JumpCells { list: list_view(d.list@), labels: d.labels@, tlen: n as int, labelled: d.labelled },
        ),
        None => None,
    }
}

/// The column a match's label overlays: its last matched character, at
/// most the last character of the line.
pub open spec fn glyph_col(c: int, tlen: int, len: int) -> int {
    if c + tlen - 1 < len - 1 {
        c + tlen - 1
    } else {
        len - 1
    }
}

/// The label shown at `(abs, col)` of a line `len` long: that of the first
/// labelled match among the first `n` whose label overlays it.
pub open spec fn glyph_search(j: JumpCells, abs: int, col: int, len: int, n: int) -> Option<char>
    decreases n,
{
    if n <= 0 {
        None
    } else {
        match glyph_search(j, abs, col, len, n - 1) {
            Some(g) => Some(g),
            None => if j.labels[n - 1] is Some && j.list[n - 1].0 == abs && glyph_col(
                j.list[n - 1].1,
                j.tlen,
                len,
            ) == col {
                j.labels[n - 1]
            } else {
                None
            },
        }
    }
}

/// The label shown at `(abs, col)`, if any.
pub open spec fn glyph_at(j: JumpCells, abs: int, col: int, len: int) -> Option<char> {
    glyph_search(j, abs, col, len, j.list.len() as int)
}

/// `(abs, col)` is a matched character before the label of a labelled match.
pub open spec fn in_prefix(j: JumpCells, abs: int, col: int, len: int) -> bool {
    exists|i: int|
        0 <= i < j.list.len() && j.labels[i] is Some && (#[trigger] j.list[i]).0 == abs && j.list[i].1 <= col
            < glyph_col(j.list[i].1, j.tlen, len)
}

/// `(abs, col)` is a matched character while the matches have no labels.
pub open spec fn in_partial(j: JumpCells, abs: int, col: int, len: int) -> bool {
    &&& !j.labelled
    &&& exists|i: int|
        0 <= i < j.list.len() && (#[trigger] j.list[i]).0 == abs && j.list[i].1 <= col < j.list[i].1 + j.tlen
            && col < len
}

fn glyph_col_of(c: usize, tlen: usize, len: usize) -> (r: i128)
    ensures
        r == glyph_col(c as int, tlen as int, len as int),
{
    let a = c as i128 + tlen as i128 - 1;
    let b = len as i128 - 1;
    if a < b {
        a
    } else {
        b
    }
}

/// The label shown at `(abs, col)` of a line `len` long.
pub fn glyph_find(d: &JumpData, tlen: usize, abs: usize, col: usize, len: usize) -> (r: Option<char>)
    requires
        d.labels@.len() == d.list@.len(),
    ensures
        r == glyph_at(jump_cells(Some((d, tlen)))->0, abs as int, col as int, len as int),
{
    let ghost j = jump_cells(Some((d, tlen)))->0;
    let n = d.list.len();
    let mut i: usize = 0;
    while i < n
        invariant
            i <= n == d.list@.len() == d.labels@.len(),
            j == jump_cells(Some((d, tlen)))->0,
            glyph_search(j, abs as int, col as int, len as int, i as int) is None,
        decreases n - i,
    {
        let (l, c) = d.list[i];
        assert(j.list[i as int] == (l as int, c as int));
        if d.labels[i].is_some() && l == abs && glyph_col_of(c, tlen, len) == col as i128 {
            proof {
                lemma_glyph_stays(j, abs as int, col as int, len as int, i + 1, n as int);
            }
            return d.labels[i];
        }
        i = i + 1;
    }
    None
}

proof fn lemma_glyph_stays(j: JumpCells, abs: int, col: int, len: int, a: int, b: int)
    requires
        0 <= a <= b,
        glyph_search(j, abs, col, len, a) is Some,
    ensures
        glyph_search(j, abs, col, len, b) == glyph_search(j, abs, col, len, a),
    decreases b - a,
{
    if a < b {
        lemma_glyph_stays(j, abs, col, len, a, b - 1);
    }
}

/// Whether `(abs, col)` is a matched character before a label.
pub fn prefix_find(d: &JumpData, tlen: usize, abs: usize, col: usize, len: usize) -> (r: bool)
    requires
        d.labels@.len() == d.list@.len(),
    ensures
        r == in_prefix(jump_cells(Some((d, tlen)))->0, abs as int, col as int, len as int),
{
    let ghost j = jump_cells(Some((d, tlen)))->0;
    let n = d.list.len();
    let mut i: usize = 0;
    while i < n
        invariant
            i <= n == d.list@.len() == d.labels@.len(),
            j == jump_cells(Some((d, tlen)))->0,
            forall|k: int|
                0 <= k < i ==> !(j.labels[k] is Some && (#[trigger] j.list[k]).0 == abs && j.list[k].1 <= col
                    < glyph_col(j.list[k].1, j.tlen, len as int)),
        decreases n - i,
    {
        let (l, c) = d.list[i];
        assert(j.list[i as int] == (l as int, c as int));
        if d.labels[i].is_some() && l == abs && c <= col && (col as i128) < glyph_col_of(c, tlen, len) {
            return true;
        }
        i = i + 1;
    }
    false
}

/// Whether `(abs, col)` is a matched character while there are no labels.
pub fn partial_find(d: &JumpData, tlen: usize, abs: usize, col: usize, len: usize) -> (r: bool)
    requires
        d.labels@.len() == d.list@.len(),
    ensures
        r == in_partial(jump_cells(Some((d, tlen)))->0, abs as int, col as int, len as int),
{
    let ghost j = jump_cells(Some((d, tlen)))->0;
    if d.labelled {
        return false;
    }
    let n = d.list.len();
    let mut i: usize = 0;
    while i < n
        invariant
            i <= n == d.list@.len() == d.labels@.len(),
            j == jump_cells(Some((d, tlen)))->0,
            !d.labelled,
            forall|k: int|
                0 <= k < i ==> !((#[trigger] j.list[k]).0 == abs && j.list[k].1 <= col < j.list[k].1 + j.tlen
                    && col < len),
        decreases n - i,
    {
        let (l, c) = d.list[i];
        assert(j.list[i as int] == (l as int, c as int));
        if l == abs && c <= col && (col as i128) < c as i128 + tlen as i128 && col < len {
            assert(!j.labelled);
            assert(0 <= i < j.list.len() && j.list[i as int].0 == abs && j.list[i as int].1 <= col < j.list[
                i as int].1 + j.tlen && col < len);
            return true;
        }
        i = i + 1;
    }
    false
}

} // verus!
