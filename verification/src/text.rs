//! Decimal numbers and padding as sequences of characters.

use vstd::prelude::*;

verus! {

/// `String::push` appends one character.
pub assume_specification[ String::push ](s: &mut String, ch: char)
    ensures
        final(s)@ == old(s)@.push(ch),
;

/// The character of a decimal digit.
pub open spec fn digit_char(d: nat) -> char {
    (48 + d) as char
}

/// The decimal representation of `n`, without leading zeros.
pub open spec fn decimal(n: nat) -> Seq<char>
    decreases n,
{
    if n < 10 {
        seq![digit_char(n)]
    } else {
        decimal(n / 10).push(digit_char(n % 10))
    }
}

/// `k` spaces.
pub open spec fn spaces(k: nat) -> Seq<char> {
    Seq::new(k, |i: int| ' ')
}

/// `n` in decimal, right-aligned with spaces to at least `width` characters.
pub open spec fn right_aligned(n: nat, width: nat) -> Seq<char> {
    let d = decimal(n);
    if d.len() < width {
        spaces((width - d.len()) as nat) + d
    } else {
        d
    }
}

fn digit(d: u128) -> (c: char)
    requires
        d < 10,
    ensures
        c == digit_char(d as nat),
{
    let b: u8 = 48u8 + (d as u8);
    b as char
}

/// Appends the decimal representation of `n` to `out`.
pub fn push_decimal(out: &mut String, n: u128)
    ensures
        final(out)@ == old(out)@ + decimal(n as nat),
    decreases n,
{
    if n >= 10 {
        push_decimal(out, n / 10);
    }
    out.push(digit(n % 10));
}

/// Ten to the power `k`.
pub open spec fn pow10(k: nat) -> nat
    decreases k,
{
    if k == 0 {
        1
    } else {
        10 * pow10((k - 1) as nat)
    }
}

/// A number below `10^k` has at most `k` digits.
pub proof fn lemma_decimal_len_bound(n: nat, k: nat)
    requires
        n < pow10(k),
        1 <= k,
    ensures
        decimal(n).len() <= k,
        1 <= decimal(n).len(),
    decreases n,
{
    if n >= 10 {
        assert(k >= 2) by {
            if k == 1 {
                assert(pow10(1) == 10 * pow10(0));
            }
        }
        let k1 = (k - 1) as nat;
        assert(n / 10 < pow10(k1)) by (nonlinear_arith)
            requires
                n < 10 * pow10(k1),
        ;
        lemma_decimal_len_bound(n / 10, k1);
    }
}

/// The number of digits of `n` in decimal.
pub fn decimal_len(n: u128) -> (len: usize)
    ensures
        len == decimal(n as nat).len(),
        1 <= len <= 39,
    decreases n,
{
    proof {
        reveal_with_fuel(pow10, 40);
        assert(n < pow10(39));
        lemma_decimal_len_bound(n as nat, 39);
    }
    if n >= 10 {
        decimal_len(n / 10) + 1
    } else {
        1
    }
}

/// Appends `n` in decimal, right-aligned with spaces to at least `width` characters.
pub fn push_right_aligned(out: &mut String, n: u128, width: usize)
    ensures
        final(out)@ == old(out)@ + right_aligned(n as nat, width as nat),
{
    let len = decimal_len(n);
    let mut i: usize = len;
    while i < width
        invariant
            len <= i,
            i <= width || i == len,
            out@ == old(out)@ + spaces((i - len) as nat),
        decreases width - i,
    {
        out.push(' ');
        i = i + 1;
        assert(out@ =~= old(out)@ + spaces((i - len) as nat));
    }
    let ghost before = out@;
    push_decimal(out, n);
    assert(out@ =~= old(out)@ + right_aligned(n as nat, width as nat));
}

} // verus!
