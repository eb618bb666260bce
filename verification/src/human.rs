//! Human-readable file sizes, computed exactly in integers.
//!
//! A size below 1024 is written in bytes. Larger ones are written in KB or MB
//! with one decimal: the size is converted to `f64` (exact below 2^53, else
//! rounded to the nearest representable value, ties to even), divided by 1024
//! or 1024 * 1024 (exact, powers of two), and the quotient is rounded to one
//! decimal, ties to even, as Rust's `{:.1}` formatting does.
use vstd::prelude::*;
use crate::text::{digit_char, nat_text, push_char, push_str, push_u64_text};

verus! {

/// `2^e`.
pub open spec fn pow2n(e: nat) -> nat
    decreases e,
{
    if e == 0 {
        1
    } else {
        2 * pow2n((e - 1) as nat)
    }
}

/// `num / den` rounded to the nearest integer, ties to the even one.
pub open spec fn round_half_even(num: nat, den: nat) -> nat
    recommends
        den > 0,
{
    let q = num / den;
    let r = num % den;
    if 2 * r > den {
        (q + 1) as nat
    } else if 2 * r < den {
        q
    } else if q % 2 == 0 {
        q
    } else {
        (q + 1) as nat
    }
}

/// The spacing of the `f64` values around `n`: `2^e` for the least `e` (at most
/// 11, enough for any `u64`) with `n < 2^(53 + e)`.
pub open spec fn f64_spacing_from(n: nat, e: nat) -> nat
    decreases 11 - e,
{
    if e >= 11 || n < pow2n(53 + e) {
        pow2n(e)
    } else {
        f64_spacing_from(n, e + 1)
    }
}

/// The value of `n as f64`: the nearest multiple of the spacing, ties to even.
pub open spec fn f64_value(n: nat) -> nat {
    let unit = f64_spacing_from(n, 0);
    round_half_even(n, unit) * unit
}

/// `t` tenths written with one decimal, as in `"12.5"`.
pub open spec fn tenths_text(t: nat) -> Seq<char> {
    nat_text(t / 10) + seq!['.', digit_char((t % 10) as int)]
}

/// The human-readable size of `n` bytes.
pub open spec fn size_human_spec(n: u64) -> Seq<char> {
    if n < 1024 {
        nat_text(n as nat) + seq![' ', 'B']
    } else if n < 1048576 {
        tenths_text(round_half_even((n * 10) as nat, 1024)) + seq![' ', 'K', 'B']
    } else {
        tenths_text(round_half_even(f64_value(n as nat) * 10, 1048576)) + seq![' ', 'M', 'B']
    }
}

proof fn lemma_pow2n_add(a: nat, b: nat)
    ensures
        pow2n(a + b) == pow2n(a) * pow2n(b),
    decreases b,
{
    if b > 0 {
        lemma_pow2n_add(a, (b - 1) as nat);
        assert((a + b - 1) as nat == a + (b - 1) as nat);
        assert(pow2n(a + b) == 2 * pow2n((a + b - 1) as nat));
        assert(pow2n(a) * pow2n(b) == pow2n(a) * (2 * pow2n((b - 1) as nat)));
        assert(pow2n(a) * (2 * pow2n((b - 1) as nat)) == 2 * (pow2n(a) * pow2n((b - 1) as nat)))
            by (nonlinear_arith);
        assert(pow2n(a) * pow2n((b - 1) as nat) == pow2n(a + (b - 1) as nat));
        assert(pow2n(a + b) == pow2n(a) * pow2n(b));
    } else {
        assert(a + b == a);
        assert(pow2n(b) == 1);
        assert(pow2n(a) * 1 == pow2n(a));
    }
}

proof fn lemma_pow2n_53()
    ensures
        pow2n(53) == 9007199254740992,
{
    assert(pow2n(0) == 1);
    assert(pow2n(1) == 2);
    assert(pow2n(2) == 4);
    assert(pow2n(3) == 8);
    assert(pow2n(4) == 16);
    assert(pow2n(5) == 32);
    assert(pow2n(6) == 64);
    assert(pow2n(7) == 128);
    assert(pow2n(8) == 256);
    assert(pow2n(9) == 512);
    assert(pow2n(10) == 1024);
    assert(pow2n(11) == 2048);
    assert(pow2n(12) == 4096);
    assert(pow2n(13) == 8192);
    assert(pow2n(14) == 16384);
    assert(pow2n(15) == 32768);
    assert(pow2n(16) == 65536);
    assert(pow2n(17) == 131072);
    assert(pow2n(18) == 262144);
    assert(pow2n(19) == 524288);
    assert(pow2n(20) == 1048576);
    lemma_pow2n_add(20, 20);
    assert(pow2n(40) == 1099511627776);
    lemma_pow2n_add(40, 13);
}

/// `round_half_even(num, den)` for `den > 0`.
fn round_half_even_exec(num: u128, den: u128) -> (r: u128)
    requires
        den > 0,
        den <= 0x1000_0000,
        num < 0x1000_0000_0000_0000_0000_0000,
    ensures
        r == round_half_even(num as nat, den as nat),
        r <= num / den + 1,
{
    let q = num / den;
    let r = num % den;
    if 2 * r > den {
        q + 1
    } else if 2 * r < den {
        q
    } else if q % 2 == 0 {
        q
    } else {
        q + 1
    }
}

/// Appends `t` tenths with one decimal.
fn push_tenths(s: &mut String, t: u64)
    ensures
        final(s)@ == old(s)@ + tenths_text(t as nat),
{
    push_u64_text(s, t / 10);
    push_char(s, '.');
    let d = t % 10;
    let c = if d == 0 { '0' }
        else if d == 1 { '1' }
        else if d == 2 { '2' }
        else if d == 3 { '3' }
        else if d == 4 { '4' }
        else if d == 5 { '5' }
        else if d == 6 { '6' }
        else if d == 7 { '7' }
        else if d == 8 { '8' }
        else { '9' };
    push_char(s, c);
    assert(final(s)@ =~= old(s)@ + tenths_text(t as nat));
}

/// The human-readable size of `n` bytes, as in `"512 B"`, `"1.5 KB"`, `"2.0 MB"`.
pub fn size_human_text(n: u64) -> (s: String)
    ensures
        s@ == size_human_spec(n),
{
    let mut s = String::new();
    if n < 1024 {
        push_u64_text(&mut s, n);
        push_str(&mut s, " B");
        proof {
            reveal_strlit(" B");
        }
        assert(s@ =~= size_human_spec(n));
    } else if n < 1048576 {
        let t = round_half_even_exec((n as u128) * 10, 1024);
        assert(t <= 10485760);
        push_tenths(&mut s, t as u64);
        push_str(&mut s, " KB");
        proof {
            reveal_strlit(" KB");
        }
        assert(s@ =~= size_human_spec(n));
    } else {
        // the spacing of f64 values around n
        let mut unit: u128 = 1;
        let mut e: u64 = 0;
        proof {
            lemma_pow2n_53();
        }
        while e < 11 && (n as u128) >= 9007199254740992u128 * unit
            invariant
                e <= 11,
                unit == pow2n(e as nat),
                unit <= 2048,
                1 <= unit,
                pow2n(53) == 9007199254740992,
                f64_spacing_from(n as nat, 0) == f64_spacing_from(n as nat, e as nat),
            decreases 11 - e,
        {
            proof {
                lemma_pow2n_add(53, e as nat);
                assert(pow2n((e + 1) as nat) == 2 * pow2n(e as nat));
                lemma_pow2n_11();
                if e < 10 {
                    assert(pow2n((e + 1) as nat) <= pow2n(11)) by {
                        lemma_pow2n_add((e + 1) as nat, (10 - e) as nat);
                        assert(pow2n((10 - e) as nat) >= 1) by {
                            lemma_pow2n_pos((10 - e) as nat);
                        }
                        assert(pow2n((e + 1) as nat) * pow2n((10 - e) as nat) >= pow2n((e + 1) as nat))
                            by (nonlinear_arith)
                            requires pow2n((10 - e) as nat) >= 1;
                    }
                }
            }
            unit = unit * 2;
            e = e + 1;
        }
        proof {
            lemma_pow2n_add(53, e as nat);
            assert(f64_spacing_from(n as nat, e as nat) == pow2n(e as nat));
        }
        let q = round_half_even_exec(n as u128, unit);
        assert(q <= 18446744073709551616) by {
            assert((n as u128) / unit <= n as u128) by (nonlinear_arith)
                requires unit >= 1;
        }
        assert(q * unit <= 18446744073709551616 * 2048) by (nonlinear_arith)
            requires q <= 18446744073709551616, unit <= 2048;
        let v = q * unit;
        let t = round_half_even_exec(v * 10, 1048576);
        assert(t < 18446744073709551616);
        push_tenths(&mut s, t as u64);
        push_str(&mut s, " MB");
        proof {
            reveal_strlit(" MB");
        }
        assert(s@ =~= size_human_spec(n));
    }
    s
}

proof fn lemma_pow2n_11()
    ensures
        pow2n(11) == 2048,
{
    assert(pow2n(0) == 1);
    assert(pow2n(1) == 2);
    assert(pow2n(2) == 4);
    assert(pow2n(3) == 8);
    assert(pow2n(4) == 16);
    assert(pow2n(5) == 32);
    assert(pow2n(6) == 64);
    assert(pow2n(7) == 128);
    assert(pow2n(8) == 256);
    assert(pow2n(9) == 512);
    assert(pow2n(10) == 1024);
}

proof fn lemma_pow2n_pos(e: nat)
    ensures
        pow2n(e) >= 1,
    decreases e,
{
    if e > 0 {
        lemma_pow2n_pos((e - 1) as nat);
    }
}

} // verus!
