//! Display helpers: decimal rendering of fixed-point quantities.

use vstd::prelude::*;

verus! {

use crate::quantity::Quantity;

// ---------------------------------------------------------------------------
// Decimal rendering of fixed-point quantities.
//
// A quantity of `m` millis stands for the value `m / 1000`. Its rendering
// follows the value's magnitude:
//   value < 1        ->  "0" or "0.25"-style, trailing zeros trimmed
//   value < 1000     ->  whole units, fraction rounded half-up ("12")
//   value < 1e6      ->  thousands with one rounded decimal ("1.5 K")
//   value < 1e9      ->  millions with one rounded decimal ("2.0 M")
//   otherwise        ->  scientific with three truncated decimals ("1.234e10")
// ---------------------------------------------------------------------------

/// The character of one decimal digit.
pub open spec fn digit_char(d: nat) -> char {
    if d == 0 {
        '0'
    } else if d == 1 {
        '1'
    } else if d == 2 {
        '2'
    } else if d == 3 {
        '3'
    } else if d == 4 {
        '4'
    } else if d == 5 {
        '5'
    } else if d == 6 {
        '6'
    } else if d == 7 {
        '7'
    } else if d == 8 {
        '8'
    } else {
        '9'
    }
}

/// The decimal digits of a number, most significant first, no sign and no
/// leading zeros (a lone zero for zero).
pub open spec fn dec_digits(n: nat) -> Seq<char>
    decreases n,
{
    if n < 10 {
        seq![digit_char(n)]
    } else {
        dec_digits(n / 10).push(digit_char(n % 10))
    }
}

/// The fractional digits of a sub-unit amount of `m` millis (`0 < m <
/// 1000`): three zero-padded digits with trailing zeros trimmed.
pub open spec fn frac_digits(m: nat) -> Seq<char> {
    let d1 = m / 100;
    let d2 = (m / 10) % 10;
    let d3 = m % 10;
    if d3 != 0 {
        seq![digit_char(d1), digit_char(d2), digit_char(d3)]
    } else if d2 != 0 {
        seq![digit_char(d1), digit_char(d2)]
    } else {
        seq![digit_char(d1)]
    }
}

/// How many decimal digits a number has (one for zero).
pub open spec fn num_digits(n: nat) -> nat
    decreases n,
{
    if n < 10 {
        1
    } else {
        1 + num_digits(n / 10)
    }
}

/// Ten to the `e`.
pub open spec fn pow10(e: nat) -> nat
    decreases e,
{
    if e == 0 {
        1
    } else {
        10 * pow10((e - 1) as nat)
    }
}

/// A whole-and-tenths amount `t` (in tenths) rendered as "<units>.<tenth>"
/// followed by a scale suffix.
pub open spec fn tenths_chars(t: nat, suffix: Seq<char>) -> Seq<char> {
    dec_digits(t / 10) + seq!['.', digit_char(t % 10)] + suffix
}

/// A quantity of `m` millis at or above one trillion millis, rendered in
/// scientific notation: the four leading digits of `m`, truncated, as
/// "d.ddd", then "e" and the decimal exponent of the value `m / 1000`.
pub open spec fn sci_chars(m: nat) -> Seq<char> {
    let lead = m / pow10((num_digits(m) - 4) as nat);
    seq![digit_char(lead / 1000), '.', digit_char((lead / 100) % 10), digit_char(
        (lead / 10) % 10,
    ), digit_char(lead % 10), 'e'] + dec_digits((num_digits(m) - 4) as nat)
}

/// The rendering of a quantity of `m` millis, by the value's magnitude.
pub open spec fn format_chars(m: nat) -> Seq<char> {
    if m == 0 {
        seq!['0']
    } else if m < 1000 {
        seq!['0', '.'] + frac_digits(m)
    } else if m < 1000000 {
        dec_digits((m + 500) / 1000)
    } else if m < 1000000000 {
        tenths_chars((m + 50000) / 100000, seq![' ', 'K'])
    } else if m < 1000000000000 {
        tenths_chars((m + 50000000) / 100000000, seq![' ', 'M'])
    } else {
        sci_chars(m)
    }
}

/// One decimal digit as a string slice.
fn digit_str(d: u64) -> (r: &'static str)
    requires
        d < 10,
    ensures
        r@ == seq![digit_char(d as nat)],
{
    proof {
        reveal_strlit("0");
        reveal_strlit("1");
        reveal_strlit("2");
        reveal_strlit("3");
        reveal_strlit("4");
        reveal_strlit("5");
        reveal_strlit("6");
        reveal_strlit("7");
        reveal_strlit("8");
        reveal_strlit("9");
    }
    if d == 0 {
        proof {
            assert("0"@ =~= seq![digit_char(0)]);
        }
        "0"
    } else if d == 1 {
        proof {
            assert("1"@ =~= seq![digit_char(1)]);
        }
        "1"
    } else if d == 2 {
        proof {
            assert("2"@ =~= seq![digit_char(2)]);
        }
        "2"
    } else if d == 3 {
        proof {
            assert("3"@ =~= seq![digit_char(3)]);
        }
        "3"
    } else if d == 4 {
        proof {
            assert("4"@ =~= seq![digit_char(4)]);
        }
        "4"
    } else if d == 5 {
        proof {
            assert("5"@ =~= seq![digit_char(5)]);
        }
        "5"
    } else if d == 6 {
        proof {
            assert("6"@ =~= seq![digit_char(6)]);
        }
        "6"
    } else if d == 7 {
        proof {
            assert("7"@ =~= seq![digit_char(7)]);
        }
        "7"
    } else if d == 8 {
        proof {
            assert("8"@ =~= seq![digit_char(8)]);
        }
        "8"
    } else {
        proof {
            assert("9"@ =~= seq![digit_char(9)]);
        }
        "9"
    }
}

/// Appends the decimal digits of `n`, most significant first.
fn push_dec_digits(w: &mut String, n: u64)
    ensures
        final(w)@ == old(w)@ + dec_digits(n as nat),
    decreases n,
{
    let ghost w0 = w@;
    if n < 10 {
        w.append(digit_str(n));
    } else {
        push_dec_digits(w, n / 10);
        w.append(digit_str(n % 10));
        proof {
            assert(w@ =~= w0 + dec_digits(n as nat));
        }
    }
}

proof fn lemma_pow10_pos(e: nat)
    ensures
        pow10(e) >= 1,
    decreases e,
{
    if e > 0 {
        lemma_pow10_pos((e - 1) as nat);
    }
}

proof fn lemma_pow10_monotone(a: nat, b: nat)
    requires
        a <= b,
    ensures
        pow10(a) <= pow10(b),
    decreases b,
{
    if a < b {
        lemma_pow10_monotone(a, (b - 1) as nat);
        lemma_pow10_pos((b - 1) as nat);
    }
}

proof fn lemma_pow10_add(a: nat, b: nat)
    ensures
        pow10(a + b) == pow10(a) * pow10(b),
    decreases b,
{
    if b == 0 {
        assert(pow10(b) == 1);
        assert(pow10(a) * 1 == pow10(a)) by (nonlinear_arith);
    } else {
        lemma_pow10_add(a, (b - 1) as nat);
        assert(pow10(a + b) == 10 * pow10((a + b - 1) as nat));
        assert((a + b - 1) as nat == a + (b - 1) as nat);
        assert(pow10(b) == 10 * pow10((b - 1) as nat));
        assert(10 * (pow10(a) * pow10((b - 1) as nat)) == pow10(a) * (10 * pow10(
            (b - 1) as nat,
        ))) by (nonlinear_arith);
        assert(pow10(a + b) == pow10(a) * pow10(b));
    }
}

/// A number sits between the powers of ten that its digit count names.
proof fn lemma_num_digits_bounds(n: nat)
    ensures
        n < pow10(num_digits(n)),
        n >= 1 ==> pow10((num_digits(n) - 1) as nat) <= n,
    decreases n,
{
    if n < 10 {
        assert(pow10(1) == 10 * pow10(0));
    } else {
        let m = n / 10;
        let d = num_digits(m);
        lemma_num_digits_bounds(m);
        vstd::arithmetic::div_mod::lemma_fundamental_div_mod(n as int, 10);
        vstd::arithmetic::div_mod::lemma_mod_bound(n as int, 10);
        assert(n == 10 * m + (n as int % 10));
        assert(m + 1 <= pow10(d));
        assert(10 * (m + 1) <= 10 * pow10(d));
        assert(pow10((d + 1) as nat) == 10 * pow10(d));
        assert(n < pow10(num_digits(n)));
        assert(m >= 1);
        assert(pow10(d) == 10 * pow10((d - 1) as nat));
        assert(10 * pow10((d - 1) as nat) <= 10 * m);
        assert(pow10((num_digits(n) - 1) as nat) <= n);
    }
}

/// A `u64` has at most twenty decimal digits.
proof fn lemma_num_digits_u64(n: u64)
    ensures
        num_digits(n as nat) <= 20,
{
    lemma_num_digits_bounds(n as nat);
    let d = num_digits(n as nat);
    if d > 20 {
        lemma_pow10_monotone(20, (d - 1) as nat);
        lemma_pow10_concrete();
        assert(pow10((d - 1) as nat) >= pow10(20));
        assert(false);
    }
}

/// The powers of ten up to the largest a `u64` quotient here needs.
proof fn lemma_pow10_concrete()
    ensures
        pow10(3) == 1000,
        pow10(16) == 0x2386f26fc10000,
        pow10(20) == 100000000000000000000,
{
    assert(pow10(1) == 10 * pow10(0));
    assert(pow10(2) == 10 * pow10(1));
    assert(pow10(3) == 10 * pow10(2));
    assert(pow10(4) == 10 * pow10(3));
    assert(pow10(5) == 10 * pow10(4));
    assert(pow10(6) == 10 * pow10(5));
    assert(pow10(7) == 10 * pow10(6));
    assert(pow10(8) == 10 * pow10(7));
    assert(pow10(9) == 10 * pow10(8));
    assert(pow10(10) == 10 * pow10(9));
    assert(pow10(11) == 10 * pow10(10));
    assert(pow10(12) == 10 * pow10(11));
    assert(pow10(13) == 10 * pow10(12));
    assert(pow10(14) == 10 * pow10(13));
    assert(pow10(15) == 10 * pow10(14));
    assert(pow10(16) == 10 * pow10(15));
    assert(pow10(17) == 10 * pow10(16));
    assert(pow10(18) == 10 * pow10(17));
    assert(pow10(19) == 10 * pow10(18));
    assert(pow10(20) == 10 * pow10(19));
}

/// How many decimal digits `n` has.
fn num_digits_u64(n: u64) -> (r: u32)
    ensures
        r as nat == num_digits(n as nat),
        1 <= r <= 20,
{
    proof {
        lemma_num_digits_u64(n);
    }
    let mut t = n;
    let mut nd: u32 = 1;
    while t >= 10
        invariant
            num_digits(n as nat) == nd - 1 + num_digits(t as nat),
            1 <= nd,
            num_digits(n as nat) <= 20,
        decreases t,
    {
        t = t / 10;
        nd = nd + 1;
        proof {
            if num_digits(t as nat) < 1 {
                assert(false);
            }
        }
    }
    nd
}

/// Ten to the `e`, for exponents whose power fits a `u64`.
fn pow10_u64(e: u32) -> (r: u64)
    requires
        pow10(e as nat) <= u64::MAX,
    ensures
        r as nat == pow10(e as nat),
{
    let mut acc: u64 = 1;
    let mut i: u32 = 0;
    while i < e
        invariant
            i <= e,
            acc as nat == pow10(i as nat),
            pow10(e as nat) <= u64::MAX,
        decreases e - i,
    {
        proof {
            lemma_pow10_monotone((i + 1) as nat, e as nat);
            assert(pow10((i + 1) as nat) == 10 * pow10(i as nat));
        }
        acc = acc * 10;
        i = i + 1;
    }
    acc
}

/// Appends a whole-and-tenths amount `t` (in tenths) as
/// "<units>.<tenth><suffix>".
fn push_tenths(w: &mut String, t: u64, suffix: &str)
    ensures
        final(w)@ == old(w)@ + tenths_chars(t as nat, suffix@),
{
    let ghost w0 = w@;
    push_dec_digits(w, t / 10);
    proof {
        reveal_strlit(".");
        vstd::arithmetic::div_mod::lemma_mod_bound(t as int, 10);
    }
    w.append(".");
    w.append(digit_str(t % 10));
    w.append(suffix);
    proof {
        assert(w@ =~= w0 + tenths_chars(t as nat, suffix@));
    }
}

/// Appends the rendering of the quantity, as `format_chars` describes it:
/// sub-unit amounts with their trimmed fraction, larger ones rounded to
/// whole units, then to tenths of thousands and of millions, and the
/// largest in scientific notation.
pub fn write_format_quantity(w: &mut String, x: Quantity)
    ensures
        final(w)@ == old(w)@ + format_chars(x.millis as nat),
{
    let ghost w0 = w@;
    let m = x.millis;
    if m == 0 {
        proof {
            reveal_strlit("0");
            assert("0"@ =~= seq![digit_char(0)]);
        }
        w.append("0");
        proof {
            assert(w@ =~= w0 + format_chars(0));
        }
    } else if m < 1000 {
        proof {
            reveal_strlit("0.");
            assert("0."@ =~= seq!['0', '.']);
            vstd::arithmetic::div_mod::lemma_mod_bound(m as int, 10);
            vstd::arithmetic::div_mod::lemma_mod_bound((m / 10) as int, 10);
        }
        w.append("0.");
        let d1 = m / 100;
        let d2 = (m / 10) % 10;
        let d3 = m % 10;
        w.append(digit_str(d1));
        if d3 != 0 {
            w.append(digit_str(d2));
            w.append(digit_str(d3));
        } else if d2 != 0 {
            w.append(digit_str(d2));
        }
        proof {
            assert(w@ =~= w0 + format_chars(m as nat));
        }
    } else if m < 1000000 {
        push_dec_digits(w, (m + 500) / 1000);
    } else if m < 1000000000 {
        proof {
            reveal_strlit(" K");
            assert(" K"@ =~= seq![' ', 'K']);
        }
        push_tenths(w, (m + 50000) / 100000, " K");
    } else if m < 1000000000000 {
        proof {
            reveal_strlit(" M");
            assert(" M"@ =~= seq![' ', 'M']);
        }
        push_tenths(w, (m + 50000000) / 100000000, " M");
    } else {
        let nd = num_digits_u64(m);
        proof {
            lemma_num_digits_bounds(m as nat);
            lemma_pow10_concrete();
            lemma_pow10_monotone((nd - 4) as nat, 16);
        }
        let div = pow10_u64(nd - 4);
        proof {
            lemma_pow10_pos((nd - 4) as nat);
            assert(div >= 1);
        }
        let lead = m / div;
        proof {
            lemma_pow10_add((nd - 4) as nat, 3);
            lemma_pow10_add((nd - 4) as nat, 4);
            // lower bound: m >= pow10(nd - 1) == div * 1000, so lead >= 1000
            assert(pow10((nd - 1) as nat) == div as nat * pow10(3));
            vstd::arithmetic::div_mod::lemma_div_multiples_vanish(1000, div as int);
            vstd::arithmetic::div_mod::lemma_div_is_ordered(
                div as int * 1000,
                m as int,
                div as int,
            );
            assert(lead >= 1000);
            // upper bound: m < pow10(nd) == div * 10000, so lead < 10000
            assert(pow10(nd as nat) == div as nat * pow10(4));
            assert(pow10(4) == 10 * pow10(3));
            vstd::arithmetic::div_mod::lemma_multiply_divide_lt(m as int, div as int, 10000);
            assert(lead < 10000);
            vstd::arithmetic::div_mod::lemma_mod_bound(lead as int, 10);
            vstd::arithmetic::div_mod::lemma_mod_bound((lead / 100) as int, 10);
            vstd::arithmetic::div_mod::lemma_mod_bound((lead / 10) as int, 10);
            reveal_strlit(".");
            reveal_strlit("e");
        }
        w.append(digit_str(lead / 1000));
        w.append(".");
        w.append(digit_str((lead / 100) % 10));
        w.append(digit_str((lead / 10) % 10));
        w.append(digit_str(lead % 10));
        w.append("e");
        push_dec_digits(w, (nd - 4) as u64);
        proof {
            assert(w@ =~= w0 + sci_chars(m as nat));
        }
    }
}

/// The rendering of the quantity, as `format_chars` describes it.
pub fn format_quantity(x: Quantity) -> (r: String)
    ensures
        r@ == format_chars(x.millis as nat),
{
    let mut buf = String::new();
    write_format_quantity(&mut buf, x);
    proof {
        assert(buf@ =~= format_chars(x.millis as nat));
    }
    buf
}

} // verus!
