//! Character-level helpers for rendering and parsing fixed-width decimal
//! fields, used by the timestamp formats and the sidecar document renderer.
use vstd::prelude::*;
use vstd::string::StringExecFns;
use vstd::string::StrSliceExecFns;

verus! {

/// The decimal digit character for a value below ten.
pub open spec fn digit_char(d: int) -> char {
    if d == 0 {
        '0'
    } else if d == 1 {
        '1'
    } else if d == 2 {
        '2'
    } else if d == 3 {
        '3'
    } else if d == 4 {
        '4'
    } else if d == 5 {
        '5'
    } else if d == 6 {
        '6'
    } else if d == 7 {
        '7'
    } else if d == 8 {
        '8'
    } else {
        '9'
    }
}

pub open spec fn is_digit(c: char) -> bool {
    c == '0' || c == '1' || c == '2' || c == '3' || c == '4' || c == '5' || c == '6' || c == '7'
        || c == '8' || c == '9'
}

/// The numeric value of a decimal digit character.
pub open spec fn digit_val(c: char) -> int {
    if c == '0' {
        0
    } else if c == '1' {
        1
    } else if c == '2' {
        2
    } else if c == '3' {
        3
    } else if c == '4' {
        4
    } else if c == '5' {
        5
    } else if c == '6' {
        6
    } else if c == '7' {
        7
    } else if c == '8' {
        8
    } else {
        9
    }
}

pub open spec fn all_digits(s: Seq<char>) -> bool {
    forall|i: int| 0 <= i < s.len() ==> is_digit(#[trigger] s[i])
}

/// The value of a sequence of decimal digit characters, most significant first.
pub open spec fn digits_val(s: Seq<char>) -> int
    decreases s.len(),
{
    if s.len() == 0 {
        0
    } else {
        digits_val(s.drop_last()) * 10 + digit_val(s.last())
    }
}

pub open spec fn pow10(w: nat) -> nat
    decreases w,
{
    if w == 0 {
        1
    } else {
        10 * pow10((w - 1) as nat)
    }
}

/// A number rendered as exactly `w` decimal digits (its low `w` digits).
pub open spec fn fixed_chars(n: nat, w: nat) -> Seq<char>
    decreases w,
{
    if w == 0 {
        Seq::empty()
    } else {
        fixed_chars(n / 10, (w - 1) as nat) + seq![digit_char((n % 10) as int)]
    }
}

/// A number rendered in ordinary decimal notation, without leading zeros.
pub open spec fn dec_chars(n: nat) -> Seq<char>
    decreases n,
{
    if n < 10 {
        seq![digit_char(n as int)]
    } else {
        dec_chars(n / 10) + seq![digit_char((n % 10) as int)]
    }
}

pub proof fn lemma_digit_roundtrip(d: int)
    requires
        0 <= d < 10,
    ensures
        is_digit(digit_char(d)),
        digit_val(digit_char(d)) == d,
{
}

pub proof fn lemma_fixed_chars_len(n: nat, w: nat)
    ensures
        fixed_chars(n, w).len() == w,
        all_digits(fixed_chars(n, w)),
    decreases w,
{
    if w > 0 {
        lemma_fixed_chars_len(n / 10, (w - 1) as nat);
        let s = fixed_chars(n / 10, (w - 1) as nat);
        let full = fixed_chars(n, w);
        assert(full == s + seq![digit_char((n % 10) as int)]);
        lemma_digit_roundtrip((n % 10) as int);
        assert forall|i: int| 0 <= i < full.len() implies is_digit(#[trigger] full[i]) by {
            if i < s.len() {
                assert(full[i] == s[i]);
            } else {
                assert(full[i] == digit_char((n % 10) as int));
            }
        }
    }
}

/// Parsing the fixed-width rendering of `n < 10^w` gives back `n`.
pub proof fn lemma_fixed_chars_val(n: nat, w: nat)
    requires
        n < pow10(w),
    ensures
        digits_val(fixed_chars(n, w)) == n,
    decreases w,
{
    if w == 0 {
        assert(n == 0);
    } else {
        let wl = (w - 1) as nat;
        assert(pow10(w) == 10 * pow10(wl));
        assert(n / 10 < pow10(wl)) by (nonlinear_arith)
            requires
                n < 10 * pow10(wl),
                pow10(wl) >= 1,
        ;
        lemma_fixed_chars_val(n / 10, wl);
        let s = fixed_chars(n / 10, wl);
        let full = fixed_chars(n, w);
        let d = digit_char((n % 10) as int);
        assert(full == s + seq![d]);
        assert((s + seq![d]).drop_last() =~= s);
        assert((s + seq![d]).last() == d);
        lemma_digit_roundtrip((n % 10) as int);
        assert(digits_val(full) == (n / 10) * 10 + n % 10);
        assert(n == (n / 10) * 10 + n % 10) by (nonlinear_arith);
    }
}

/// A digit string's value is below `10^length`.
pub proof fn lemma_digits_val_bound(s: Seq<char>)
    requires
        all_digits(s),
    ensures
        0 <= digits_val(s) < pow10(s.len()),
    decreases s.len(),
{
    if s.len() > 0 {
        assert(is_digit(s[s.len() - 1]));
        lemma_digits_val_bound(s.drop_last());
        let v = digits_val(s.drop_last());
        let p = pow10((s.len() - 1) as nat);
        assert(pow10(s.len()) == 10 * p);
        assert(0 <= digit_val(s.last()) < 10);
        assert(v * 10 + 9 < 10 * p) by (nonlinear_arith)
            requires
                0 <= v < p,
        ;
    }
}

/// A digit character survives the round trip through its value.
pub proof fn lemma_char_roundtrip(c: char)
    requires
        is_digit(c),
    ensures
        digit_char(digit_val(c)) == c,
{
}

/// A digit string is exactly the fixed-width rendering of its own value.
pub proof fn lemma_digits_to_fixed(s: Seq<char>)
    requires
        all_digits(s),
    ensures
        fixed_chars(digits_val(s) as nat, s.len()) =~= s,
    decreases s.len(),
{
    lemma_digits_val_bound(s);
    if s.len() > 0 {
        let pre = s.drop_last();
        let c = s.last();
        assert(is_digit(c));
        assert(all_digits(pre)) by {
            assert forall|i: int| 0 <= i < pre.len() implies is_digit(#[trigger] pre[i]) by {
                assert(pre[i] == s[i]);
            }
        }
        lemma_digits_to_fixed(pre);
        lemma_digits_val_bound(pre);
        let v = digits_val(s);
        let vp = digits_val(pre);
        assert(v == vp * 10 + digit_val(c));
        assert(v % 10 == digit_val(c) && v / 10 == vp) by (nonlinear_arith)
            requires
                v == vp * 10 + digit_val(c),
                0 <= digit_val(c) < 10,
                vp >= 0,
        ;
        lemma_char_roundtrip(c);
        assert(fixed_chars(v as nat, s.len()) == fixed_chars((v as nat) / 10, (s.len() - 1) as nat)
            + seq![digit_char(((v as nat) % 10) as int)]);
        assert(fixed_chars(v as nat, s.len()) =~= s);
    }
}

pub proof fn lemma_pow10_9()
    ensures
        pow10(0) == 1,
        pow10(1) == 10,
        pow10(2) == 100,
        pow10(4) == 10000,
        pow10(9) == 1000000000,
{
    assert(pow10(0) == 1);
    assert(pow10(1) == 10);
    assert(pow10(2) == 100);
    assert(pow10(3) == 1000);
    assert(pow10(4) == 10000);
    assert(pow10(5) == 100000);
    assert(pow10(6) == 1000000);
    assert(pow10(7) == 10000000);
    assert(pow10(8) == 100000000);
    assert(pow10(9) == 1000000000);
}

/// The lower-case hexadecimal digit character for a value below sixteen.
pub open spec fn hex_digit_char(d: int) -> char {
    if d < 10 {
        digit_char(d)
    } else if d == 10 {
        'a'
    } else if d == 11 {
        'b'
    } else if d == 12 {
        'c'
    } else if d == 13 {
        'd'
    } else if d == 14 {
        'e'
    } else {
        'f'
    }
}

/// A one-character string slice for a lower-case hexadecimal digit.
pub fn hex_str(d: u8) -> (r: &'static str)
    requires
        d < 16,
    ensures
        r@ =~= seq![hex_digit_char(d as int)],
{
    proof {
        reveal_strlit("a");
        reveal_strlit("b");
        reveal_strlit("c");
        reveal_strlit("d");
        reveal_strlit("e");
        reveal_strlit("f");
    }
    if d < 10 {
        digit_str(d)
    } else if d == 10 {
        "a"
    } else if d == 11 {
        "b"
    } else if d == 12 {
        "c"
    } else if d == 13 {
        "d"
    } else if d == 14 {
        "e"
    } else {
        "f"
    }
}

/// Relies on String::push: appends exactly the one given character.
#[verifier::external_body]
pub fn push_char(s: &mut String, c: char)
    ensures
        final(s)@ == old(s)@.push(c),
{
    s.push(c);
}

/// A one-character string slice for a decimal digit.
pub fn digit_str(d: u8) -> (r: &'static str)
    requires
        d < 10,
    ensures
        r@ =~= seq![digit_char(d as int)],
{
    proof {
        reveal_strlit("0");
        reveal_strlit("1");
        reveal_strlit("2");
        reveal_strlit("3");
        reveal_strlit("4");
        reveal_strlit("5");
        reveal_strlit("6");
        reveal_strlit("7");
        reveal_strlit("8");
        reveal_strlit("9");
    }
    if d == 0 {
        "0"
    } else if d == 1 {
        "1"
    } else if d == 2 {
        "2"
    } else if d == 3 {
        "3"
    } else if d == 4 {
        "4"
    } else if d == 5 {
        "5"
    } else if d == 6 {
        "6"
    } else if d == 7 {
        "7"
    } else if d == 8 {
        "8"
    } else {
        "9"
    }
}

/// Appends the low `w` decimal digits of `n` to `out`.
pub fn push_fixed(out: &mut String, n: u64, w: u64)
    requires
        w <= 9,
    ensures
        final(out)@ == old(out)@ + fixed_chars(n as nat, w as nat),
    decreases w,
{
    if w == 0 {
        assert(old(out)@ + fixed_chars(n as nat, 0) =~= old(out)@);
    } else {
        push_fixed(out, n / 10, w - 1);
        out.append(digit_str((n % 10) as u8));
        assert(out@ =~= old(out)@ + fixed_chars(n as nat, w as nat));
    }
}

/// Appends the decimal rendering of `n` to `out`.
pub fn push_dec(out: &mut String, n: u64)
    ensures
        final(out)@ == old(out)@ + dec_chars(n as nat),
    decreases n,
{
    if n < 10 {
        out.append(digit_str(n as u8));
        assert(out@ =~= old(out)@ + dec_chars(n as nat));
    } else {
        push_dec(out, n / 10);
        out.append(digit_str((n % 10) as u8));
        assert(out@ =~= old(out)@ + dec_chars(n as nat));
    }
}

/// The numeric value of one digit character, or `None` when it is not a digit.
pub fn char_digit(c: char) -> (r: Option<u64>)
    ensures
        r matches Some(v) ==> is_digit(c) && v == digit_val(c),
        r is None ==> !is_digit(c),
{
    match c {
        '0' => Some(0),
        '1' => Some(1),
        '2' => Some(2),
        '3' => Some(3),
        '4' => Some(4),
        '5' => Some(5),
        '6' => Some(6),
        '7' => Some(7),
        '8' => Some(8),
        '9' => Some(9),
        _ => None,
    }
}

/// Reads `w` characters of `s` starting at `start` as a fixed-width decimal
/// number; `None` when any of them is not a digit.
pub fn read_fixed(s: &str, start: usize, w: usize) -> (r: Option<u64>)
    requires
        start + w <= s@.len(),
        start + w <= usize::MAX,
        w <= 9,
    ensures
        r matches Some(v) ==> all_digits(s@.subrange(start as int, start + w)) && v == digits_val(
            s@.subrange(start as int, start + w),
        ) && v < pow10(w as nat),
        r is None ==> !all_digits(s@.subrange(start as int, start + w)),
{
    let ghost whole = s@.subrange(start as int, start + w);
    let mut acc: u64 = 0;
    let mut i: usize = 0;
    proof {
        lemma_pow10_9();
    }
    while i < w
        invariant
            i <= w,
            w <= 9,
            start + w <= s@.len(),
            start + w <= usize::MAX,
            whole == s@.subrange(start as int, start + w),
            all_digits(whole.subrange(0, i as int)),
            acc == digits_val(whole.subrange(0, i as int)),
            acc < pow10(i as nat),
            pow10(9) == 1000000000,
        decreases w - i,
    {
        let c = s.get_char(start + i);
        assert(c == whole[i as int]);
        match char_digit(c) {
            Some(d) => {
                proof {
                    let pre = whole.subrange(0, i as int);
                    let ext = whole.subrange(0, i + 1);
                    assert(ext.drop_last() =~= pre);
                    assert(ext.last() == c);
                    assert(pow10((i + 1) as nat) == 10 * pow10(i as nat));
                    assert(pow10(i as nat) <= pow10(9)) by {
                        lemma_pow10_mono(i as nat, 9);
                    }
                    assert(acc * 10 + d < 10 * pow10(i as nat)) by (nonlinear_arith)
                        requires
                            acc < pow10(i as nat),
                            d < 10,
                    ;
                }
                acc = acc * 10 + d;
                i = i + 1;
            },
            None => {
                assert(!is_digit(whole[i as int]));
                return None;
            },
        }
    }
    assert(whole.subrange(0, w as int) =~= whole);
    Some(acc)
}

pub proof fn lemma_pow10_mono(a: nat, b: nat)
    requires
        a <= b,
    ensures
        pow10(a) <= pow10(b),
        pow10(a) >= 1,
    decreases b,
{
    lemma_pow10_pos(a);
    if a < b {
        lemma_pow10_mono(a, (b - 1) as nat);
    }
}

pub proof fn lemma_pow10_pos(w: nat)
    ensures
        pow10(w) >= 1,
    decreases w,
{
    if w > 0 {
        lemma_pow10_pos((w - 1) as nat);
    }
}

} // verus!
