//! Decimal and hexadecimal text for machine integers.
//!
//! On-chain values are 256-bit integers carried end-to-end as decimal
//! digit strings; the small counters (rounds, timestamps, decimal
//! precisions) are machine integers that are rendered to the same
//! textual form without ever passing through a lossy numeric type.

use vstd::prelude::*;
use vstd::string::*;

verus! {

/// The character for one decimal digit value.
pub open spec fn dec_digit(d: int) -> char {
    if d == 0 { '0' }
    else if d == 1 { '1' }
    else if d == 2 { '2' }
    else if d == 3 { '3' }
    else if d == 4 { '4' }
    else if d == 5 { '5' }
    else if d == 6 { '6' }
    else if d == 7 { '7' }
    else if d == 8 { '8' }
    else { '9' }
}

/// The canonical decimal rendering of a non-negative integer:
/// no sign, no leading zero except for zero itself.
pub open spec fn dec_str(n: int) -> Seq<char>
    decreases n,
{
    if n < 10 {
        seq![dec_digit(n)]
    } else {
        dec_str(n / 10).push(dec_digit(n % 10))
    }
}

/// The character for one hexadecimal digit value, lower case.
pub open spec fn hex_digit(d: int) -> char {
    if d < 10 { dec_digit(d) }
    else if d == 10 { 'a' }
    else if d == 11 { 'b' }
    else if d == 12 { 'c' }
    else if d == 13 { 'd' }
    else if d == 14 { 'e' }
    else { 'f' }
}

/// The fixed-width hexadecimal rendering of the low `width` nibbles of `v`.
pub open spec fn hex_str_fixed(v: int, width: nat) -> Seq<char>
    decreases width,
{
    if width == 0 {
        Seq::empty()
    } else {
        hex_str_fixed(v / 16, (width - 1) as nat).push(hex_digit(v % 16))
    }
}

/// The numeric value of one decimal digit character.
pub open spec fn digit_val(c: char) -> int {
    c as int - '0' as int
}

/// Whether every character of `s` is a decimal digit.
pub open spec fn all_dec_digits(s: Seq<char>) -> bool {
    forall|i: int| 0 <= i < s.len() ==> '0' <= #[trigger] s[i] <= '9'
}

/// The integer value of a sequence of decimal digit characters.
pub open spec fn dec_val(s: Seq<char>) -> int
    decreases s.len(),
{
    if s.len() == 0 {
        0
    } else {
        dec_val(s.drop_last()) * 10 + digit_val(s.last())
    }
}

/// A canonical decimal numeral: non-empty, all digits, and no leading
/// zero unless the numeral is exactly "0".
pub open spec fn is_canonical_dec(s: Seq<char>) -> bool {
    &&& s.len() > 0
    &&& all_dec_digits(s)
    &&& (s.len() > 1 ==> s[0] != '0')
}

fn dec_digit_str(d: u32) -> (r: &'static str)
    requires
        d < 10,
    ensures
        r@ =~= seq![dec_digit(d as int)],
{
    proof {
        reveal_strlit("0");
        reveal_strlit("1");
        reveal_strlit("2");
        reveal_strlit("3");
        reveal_strlit("4");
        reveal_strlit("5");
        reveal_strlit("6");
        reveal_strlit("7");
        reveal_strlit("8");
        reveal_strlit("9");
    }
    match d {
        0 => "0",
        1 => "1",
        2 => "2",
        3 => "3",
        4 => "4",
        5 => "5",
        6 => "6",
        7 => "7",
        8 => "8",
        _ => "9",
    }
}

fn hex_digit_str(d: u32) -> (r: &'static str)
    requires
        d < 16,
    ensures
        r@ =~= seq![hex_digit(d as int)],
{
    proof {
        reveal_strlit("a");
        reveal_strlit("b");
        reveal_strlit("c");
        reveal_strlit("d");
        reveal_strlit("e");
        reveal_strlit("f");
    }
    if d < 10 {
        dec_digit_str(d)
    } else {
        match d {
            10 => "a",
            11 => "b",
            12 => "c",
            13 => "d",
            14 => "e",
            _ => "f",
        }
    }
}

/// Renders a 32-bit integer as its canonical decimal numeral.
pub fn u32_to_dec(n: u32) -> (r: String)
    ensures
        r@ == dec_str(n as int),
    decreases n,
{
    if n < 10 {
        dec_digit_str(n).to_owned()
    } else {
        let mut s = u32_to_dec(n / 10);
        s.append(dec_digit_str(n % 10));
        proof {
            assert(s@ =~= dec_str(n as int));
        }
        s
    }
}

/// Renders the low `width` nibbles of `v` as fixed-width lower-case hex.
pub fn u128_to_hex_fixed(v: u128, width: usize) -> (r: String)
    requires
        width <= 32,
    ensures
        r@ == hex_str_fixed(v as int, width as nat),
    decreases width,
{
    if width == 0 {
        String::new()
    } else {
        let mut s = u128_to_hex_fixed(v / 16, width - 1);
        s.append(hex_digit_str((v % 16) as u32));
        proof {
            assert(s@ =~= hex_str_fixed(v as int, width as nat));
        }
        s
    }
}

/// The value of a digit string is never negative.
pub proof fn lemma_dec_val_nonneg(s: Seq<char>)
    requires
        all_dec_digits(s),
    ensures
        dec_val(s) >= 0,
    decreases s.len(),
{
    if s.len() > 0 {
        assert(all_dec_digits(s.drop_last()));
        lemma_dec_val_nonneg(s.drop_last());
        assert('0' <= s.last() <= '9');
        assert(dec_val(s.drop_last()) * 10 >= 0) by (nonlinear_arith)
            requires dec_val(s.drop_last()) >= 0;
    }
}

/// A digit string's value never falls below the value of any digit prefix.
pub proof fn lemma_dec_val_prefix(s: Seq<char>, k: int)
    requires
        0 <= k <= s.len(),
        all_dec_digits(s),
    ensures
        dec_val(s.take(k)) <= dec_val(s),
    decreases s.len() - k,
{
    if k < s.len() {
        let t = s.take(k + 1);
        assert(t.drop_last() =~= s.take(k));
        assert(t.last() == s[k]);
        assert(dec_val(t) == dec_val(s.take(k)) * 10 + digit_val(s[k]));
        assert('0' <= s[k] <= '9');
        assert(all_dec_digits(s.take(k)));
        lemma_dec_val_nonneg(s.take(k));
        assert(dec_val(s.take(k)) * 10 >= dec_val(s.take(k))) by (nonlinear_arith)
            requires dec_val(s.take(k)) >= 0;
        lemma_dec_val_prefix(s, k + 1);
    } else {
        assert(s.take(k) =~= s);
    }
}

/// Rendering is loss-free: the canonical numeral of a non-negative
/// integer is made of digits, has no spurious leading zero, and
/// evaluates back to exactly that integer.
pub proof fn lemma_dec_str_value(n: int)
    requires
        n >= 0,
    ensures
        dec_val(dec_str(n)) == n,
        is_canonical_dec(dec_str(n)),
        n >= 1 ==> dec_str(n)[0] != '0',
    decreases n,
{
    if n < 10 {
        let s = dec_str(n);
        reveal_with_fuel(dec_val, 3);
        assert(s =~= seq![dec_digit(n)]);
        assert(s.drop_last() =~= Seq::<char>::empty());
        assert(dec_val(s) == digit_val(dec_digit(n)));
    } else {
        lemma_dec_str_value(n / 10);
        let s = dec_str(n);
        assert(s.drop_last() =~= dec_str(n / 10));
        assert(s.last() == dec_digit(n % 10));
        assert(dec_val(s) == dec_val(dec_str(n / 10)) * 10 + digit_val(dec_digit(n % 10)));
        assert('0' <= dec_digit(n % 10) <= '9');
        assert(all_dec_digits(s)) by {
            assert(forall|i: int|
                0 <= i < s.len() - 1 ==> s[i] == #[trigger] dec_str(n / 10)[i]);
        }
        assert(s[0] == dec_str(n / 10)[0]);
    }
}

/// Parses a string of decimal digits into a 32-bit integer.
///
/// Returns the numeral's value exactly when the string is non-empty,
/// holds only decimal digits, and the value fits in a `u32`; returns
/// `None` otherwise.
pub fn dec_to_u32(s: &str) -> (r: Option<u32>)
    ensures
        r is Some <==> (s@.len() > 0 && all_dec_digits(s@) && dec_val(s@) <= u32::MAX),
        r is Some ==> r == Some((dec_val(s@)) as u32),
{
    let n = s.unicode_len();
    if n == 0 {
        return None;
    }
    let mut acc: u32 = 0;
    let mut i: usize = 0;
    while i < n
        invariant
            0 < n == s@.len(),
            0 <= i <= n,
            all_dec_digits(s@.take(i as int)),
            acc == dec_val(s@.take(i as int)),
        decreases n - i,
    {
        let c = s.get_char(i);
        let u = c as u32;
        if u < 48 || u > 57 {
            proof {
                assert(s@[i as int] == c);
                assert(!('0' <= c <= '9'));
            }
            return None;
        }
        let d = u - 48;
        let wide: u64 = (acc as u64) * 10 + (d as u64);
        proof {
            assert(s@.take(i + 1).drop_last() =~= s@.take(i as int));
            assert(s@.take(i + 1).last() == c);
            assert(digit_val(c) == d);
            assert(dec_val(s@.take(i + 1)) == acc * 10 + d);
        }
        if wide > u32::MAX as u64 {
            proof {
                if all_dec_digits(s@) {
                    lemma_dec_val_prefix(s@, i + 1);
                }
            }
            return None;
        }
        acc = wide as u32;
        i = i + 1;
    }
    proof {
        assert(s@.take(n as int) =~= s@);
    }
    Some(acc)
}

} // verus!
