//! Decimal and hexadecimal rendering of integers into strings.
use vstd::prelude::*;

verus! {

/// Lower-case hexadecimal digit for `d` in `0..16`.
pub open spec fn hex_digit(d: int) -> char {
    if d < 10 {
        (('0' as int) + d) as char
    } else {
        (('a' as int) + d - 10) as char
    }
}

/// The last `n` hexadecimal digits of `v`, most significant first, zero
/// padded.
pub open spec fn hex_n(v: nat, n: nat) -> Seq<char>
    decreases n,
{
    if n == 0 {
        seq![]
    } else {
        hex_n(v / 16, (n - 1) as nat).push(hex_digit((v % 16) as int))
    }
}

/// `v` as eight lower-case hexadecimal digits (`{:08x}`).
pub open spec fn hex8(v: u32) -> Seq<char> {
    hex_n(v as nat, 8)
}

/// `hex_n(v, n)` has `n` digits.
pub proof fn lemma_hex_n_len(v: nat, n: nat)
    ensures
        hex_n(v, n).len() == n,
    decreases n,
{
    if n > 0 {
        lemma_hex_n_len(v / 16, (n - 1) as nat);
    }
}

/// Distinct values below `16^n` have distinct `n`-digit renderings.
pub proof fn hex_n_injective(v: nat, w: nat, n: nat)
    requires
        v < vstd::arithmetic::power::pow(16, n),
        w < vstd::arithmetic::power::pow(16, n),
        hex_n(v, n) == hex_n(w, n),
    ensures
        v == w,
    decreases n,
{
    if n == 0 {
        vstd::arithmetic::power::lemma_pow0(16);
    } else {
        let hv = hex_n(v, n);
        let hw = hex_n(w, n);
        assert(hv.last() == hex_digit((v % 16) as int));
        assert(hw.last() == hex_digit((w % 16) as int));
        assert(hv.drop_last() == hex_n(v / 16, (n - 1) as nat));
        assert(hw.drop_last() == hex_n(w / 16, (n - 1) as nat));
        assert(v % 16 == w % 16);
        vstd::arithmetic::power::lemma_pow_adds(16, 1, (n - 1) as nat);
        vstd::arithmetic::power::lemma_pow1(16);
        let p = vstd::arithmetic::power::pow(16, (n - 1) as nat);
        assert(v / 16 < p) by (nonlinear_arith)
            requires
                v < 16 * p,
        ;
        assert(w / 16 < p) by (nonlinear_arith)
            requires
                w < 16 * p,
        ;
        hex_n_injective(v / 16, w / 16, (n - 1) as nat);
        assert(v == 16 * (v / 16) + v % 16) by (nonlinear_arith);
        assert(w == 16 * (w / 16) + w % 16) by (nonlinear_arith);
    }
}

/// Distinct 32-bit values have distinct eight-digit renderings.
pub proof fn hex8_injective(v: u32, w: u32)
    requires
        hex8(v) == hex8(w),
    ensures
        v == w,
{
    assert(vstd::arithmetic::power::pow(16, 8) == 0x1_0000_0000) by {
        reveal_with_fuel(vstd::arithmetic::power::pow, 9);
    }
    hex_n_injective(v as nat, w as nat, 8);
}

/// `v` in decimal without leading zeros (`{}`).
pub open spec fn dec(v: nat) -> Seq<char>
    decreases v,
{
    if v < 10 {
        seq![hex_digit(v as int)]
    } else {
        dec(v / 10).push(hex_digit((v % 10) as int))
    }
}

/// `-` followed by the digits for negative values.
pub open spec fn dec_signed(v: int) -> Seq<char> {
    if v < 0 {
        seq!['-'] + dec((-v) as nat)
    } else {
        dec(v as nat)
    }
}

/// The one-character string of digit `d`.
pub fn digit_str(d: u64) -> (s: &'static str)
    requires
        d < 16,
    ensures
        s@ == seq![hex_digit(d as int)],
{
    proof {
        reveal_strlit("0");
        reveal_strlit("1");
        reveal_strlit("2");
        reveal_strlit("3");
        reveal_strlit("4");
        reveal_strlit("5");
        reveal_strlit("6");
        reveal_strlit("7");
        reveal_strlit("8");
        reveal_strlit("9");
        reveal_strlit("a");
        reveal_strlit("b");
        reveal_strlit("c");
        reveal_strlit("d");
        reveal_strlit("e");
        reveal_strlit("f");
    }
    let s = match d {
        0 => "0",
        1 => "1",
        2 => "2",
        3 => "3",
        4 => "4",
        5 => "5",
        6 => "6",
        7 => "7",
        8 => "8",
        9 => "9",
        10 => "a",
        11 => "b",
        12 => "c",
        13 => "d",
        14 => "e",
        _ => "f",
    };
    assert(s@ =~= seq![hex_digit(d as int)]);
    s
}

/// Appends the last `n` hexadecimal digits of `v`, zero padded.
pub fn push_hex(out: &mut String, v: u64, n: usize)
    ensures
        final(out)@ == old(out)@ + hex_n(v as nat, n as nat),
    decreases n,
{
    if n == 0 {
        assert(old(out)@ + hex_n(v as nat, 0) =~= old(out)@);
        return;
    }
    push_hex(out, v / 16, n - 1);
    out.append(digit_str(v % 16));
    assert(out@ =~= old(out)@ + hex_n(v as nat, n as nat));
}

/// Appends `v` in decimal.
pub fn push_dec(out: &mut String, v: u64)
    ensures
        final(out)@ == old(out)@ + dec(v as nat),
    decreases v,
{
    if v < 10 {
        out.append(digit_str(v));
        return;
    }
    push_dec(out, v / 10);
    out.append(digit_str(v % 10));
    assert(out@ =~= old(out)@ + dec(v as nat));
}

/// Appends `v` in decimal, with a leading `-` when negative.
pub fn push_dec_signed(out: &mut String, v: i64)
    ensures
        final(out)@ == old(out)@ + dec_signed(v as int),
{
    if v < 0 {
        proof {
            reveal_strlit("-");
        }
        out.append("-");
        let m: u64 = if v == i64::MIN {
            0x8000_0000_0000_0000u64
        } else {
            (-v) as u64
        };
        push_dec(out, m);
        assert(out@ =~= old(out)@ + dec_signed(v as int));
    } else {
        push_dec(out, v as u64);
    }
}

/// Appends the character `c` to `out`.
///
/// Trusted: std's `String::push`, documented to append the given `char` to
/// the end of the string.
#[verifier::external_body]
pub(crate) fn push_char(out: &mut String, c: char)
    ensures
        final(out)@ == old(out)@.push(c),
{
    out.push(c);
}

/// Whether `a` and `b` hold the same characters.
pub fn str_equal(a: &str, b: &str) -> (r: bool)
    ensures
        r == (a@ == b@),
{
    let n = a.unicode_len();
    if n != b.unicode_len() {
        return false;
    }
    let mut i: usize = 0;
    while i < n
        invariant
            n == a@.len() == b@.len(),
            i <= n,
            a@.take(i as int) == b@.take(i as int),
        decreases n - i,
    {
        if a.get_char(i) != b.get_char(i) {
            return false;
        }
        assert(a@.take(i + 1) =~= a@.take(i as int).push(a@[i as int]));
        assert(b@.take(i + 1) =~= b@.take(i as int).push(b@[i as int]));
        i = i + 1;
    }
    assert(a@ =~= a@.take(n as int));
    assert(b@ =~= b@.take(n as int));
    true
}

} // verus!
