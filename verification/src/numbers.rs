//! Numbers as a manuscript shows them: thousands separators and word counts
//! rounded to the nearest hundred.
use vstd::prelude::*;
use vstd::arithmetic::div_mod::*;
use crate::chars::{decimal, digit_char, push_decimal, string_push};

verus! {

/// The three decimal digits of `m < 1000`, zero-padded.
pub open spec fn three_digits(m: nat) -> Seq<char> {
    seq![digit_char((m / 100) as int), digit_char(((m / 10) % 10) as int), digit_char((m % 10) as int)]
}

/// `n` in decimal with a comma between each group of three digits,
/// counted from the right: 1234567 is "1,234,567".
pub open spec fn grouped(n: nat) -> Seq<char>
    decreases n,
{
    if n < 1000 {
        decimal(n)
    } else {
        grouped(n / 1000) + seq![','] + three_digits(n % 1000)
    }
}

/// `s` without its commas.
pub open spec fn without_commas(s: Seq<char>) -> Seq<char>
    decreases s.len(),
{
    if s.len() == 0 {
        s
    } else if s.last() == ',' {
        without_commas(s.drop_last())
    } else {
        without_commas(s.drop_last()).push(s.last())
    }
}

proof fn lemma_without_commas_add(a: Seq<char>, b: Seq<char>)
    ensures
        without_commas(a + b) == without_commas(a) + without_commas(b),
    decreases b.len(),
{
    if b.len() == 0 {
        assert(a + b == a);
    } else {
        lemma_without_commas_add(a, b.drop_last());
        assert((a + b).drop_last() == a + b.drop_last());
        assert((a + b).last() == b.last());
    }
}

fn push_three_digits(s: &mut String, m: usize)
    requires
        m < 1000,
    ensures
        final(s)@ == old(s)@ + three_digits(m as nat),
{
    let ghost s0 = s@;
    push_decimal_digit(s, m / 100);
    push_decimal_digit(s, (m / 10) % 10);
    push_decimal_digit(s, m % 10);
    assert(s@ == s0 + three_digits(m as nat));
}

fn push_decimal_digit(s: &mut String, d: usize)
    requires
        d < 10,
    ensures
        final(s)@ == old(s)@.push(digit_char(d as int)),
{
    let ghost s0 = s@;
    push_decimal(s, d);
    assert(decimal(d as nat) == seq![digit_char(d as int)]);
    assert(s@ == s0.push(digit_char(d as int)));
}

fn push_grouped(s: &mut String, n: usize)
    ensures
        final(s)@ == old(s)@ + grouped(n as nat),
    decreases n,
{
    if n < 1000 {
        push_decimal(s, n);
    } else {
        let ghost s0 = s@;
        push_grouped(s, n / 1000);
        string_push(s, ',');
        push_three_digits(s, n % 1000);
        assert(s@ == s0 + grouped(n as nat));
    }
}

/// Formats `n` with a comma as thousands separator, as the title page shows
/// a word count: 80000 is "80,000", 500 is "500", 0 is "0".
pub fn format_number(n: usize) -> (r: String)
    ensures
        r@ == grouped(n as nat),
{
    let mut s = String::new();
    push_grouped(&mut s, n);
    assert(s@ == Seq::<char>::empty() + grouped(n as nat));
    s
}

/// `w` rounded to the nearest multiple of one hundred, halves rounding up.
pub open spec fn round_to_hundred(w: nat) -> nat {
    ((w + 50) / 100 * 100) as nat
}

/// Rounds a word count to the nearest hundred (50 rounds up to 100).
pub fn round_word_count(w: usize) -> (r: usize)
    requires
        w + 50 <= usize::MAX,
    ensures
        r == round_to_hundred(w as nat),
{
    let q = (w + 50) / 100;
    assert(q * 100 <= w + 50) by (nonlinear_arith)
        requires
            q == (w + 50) / 100,
    ;
    q * 100
}

proof fn lemma_decimal_has_no_comma(n: nat)
    ensures
        without_commas(decimal(n)) == decimal(n),
    decreases n,
{
    let d = decimal(n);
    if n >= 10 {
        lemma_decimal_has_no_comma(n / 10);
        assert(d.drop_last() == decimal(n / 10));
        assert(d.last() == digit_char((n % 10) as int));
        assert(d.last() != ',');
        assert(d == d.drop_last().push(d.last()));
    } else {
        assert(d.drop_last() == Seq::<char>::empty());
        assert(d.last() == digit_char(n as int));
        assert(d.last() != ',');
        assert(without_commas(Seq::<char>::empty()) == Seq::<char>::empty());
        assert(d == d.drop_last().push(d.last()));
    }
}

/// For `n >= 1000`, the decimal digits split into those of `n / 1000` and
/// the three of `n % 1000`.
proof fn lemma_decimal_thousands(n: nat)
    requires
        n >= 1000,
    ensures
        decimal(n) == decimal(n / 1000) + three_digits(n % 1000),
{
    let a = n / 10;
    let b = n / 100;
    lemma_div_denominator(n as int, 10, 10);
    lemma_div_denominator(n as int, 100, 10);
    lemma_div_denominator(n as int, 10, 100);
    assert(b == a / 10);
    assert(n / 1000 == b / 10);
    assert(a >= 100 && b >= 10) by {
        lemma_div_is_ordered(1000, n as int, 10);
        lemma_div_is_ordered(1000, n as int, 100);
    }
    let m = n % 1000;
    // the last three digits of n are those of m
    assert(m / 100 == b % 10 && (m / 10) % 10 == a % 10 && m % 10 == n % 10) by (nonlinear_arith)
        requires
            a == n / 10,
            b == n / 100,
            m == n % 1000,
            n >= 1000,
    {
        lemma_fundamental_div_mod(n as int, 1000);
    }
    assert(decimal(n) == decimal(a).push(digit_char((n % 10) as int)));
    assert(decimal(a) == decimal(b).push(digit_char((a % 10) as int)));
    assert(decimal(b) == decimal(b / 10).push(digit_char((b % 10) as int)));
    assert(decimal(n) == decimal(n / 1000) + three_digits(m));
}

/// Law: the thousands separators are the only thing `format_number` adds to
/// the plain decimal digits of `n`.
pub proof fn law_grouping_keeps_digits(n: nat)
    ensures
        without_commas(grouped(n)) == decimal(n),
    decreases n,
{
    if n < 1000 {
        lemma_decimal_has_no_comma(n);
    } else {
        law_grouping_keeps_digits(n / 1000);
        lemma_decimal_thousands(n);
        let t = three_digits(n % 1000);
        let g = grouped(n / 1000);
        lemma_without_commas_add(g + seq![','], t);
        lemma_without_commas_add(g, seq![',']);
        assert(without_commas(seq![',']) == Seq::<char>::empty()) by {
            let c = seq![','];
            assert(c.len() == 1 && c.last() == ',');
            assert(c.drop_last() == Seq::<char>::empty());
            assert(without_commas(Seq::<char>::empty()) == Seq::<char>::empty());
        }
        assert(without_commas(t) == t) by {
            let t1 = t.drop_last();
            let t2 = t1.drop_last();
            let t3 = t2.drop_last();
            assert(t3 == Seq::<char>::empty());
            assert(without_commas(t3) == t3);
            assert(t2.last() != ',' && t1.last() != ',' && t.last() != ',');
            assert(t2 == t3.push(t2.last()));
            assert(without_commas(t2) == t2);
            assert(t1 == t2.push(t1.last()));
            assert(without_commas(t1) == t1);
            assert(t == t1.push(t.last()));
        }
        assert(g + seq![','] + t == grouped(n));
        assert(without_commas(grouped(n)) == decimal(n / 1000) + t);
    }
}

/// Law: rounding a word count gives a multiple of one hundred that is at
/// most fifty away, rounding halves up.
pub proof fn law_rounding_is_nearest_hundred(w: nat)
    ensures
        round_to_hundred(w) % 100 == 0,
        w < round_to_hundred(w) + 50,
        round_to_hundred(w) <= w + 50,
{
    let q = (w + 50) / 100;
    assert(q * 100 % 100 == 0 && w < q * 100 + 50 && q * 100 <= w + 50) by (nonlinear_arith)
        requires
            q == (w + 50) / 100,
            w >= 0,
    {
        lemma_fundamental_div_mod((w + 50) as int, 100);
        lemma_mod_multiples_basic(q as int, 100);
    }
}

/// Rounding to the nearest hundred keeps the order of word counts.
pub proof fn lemma_rounding_monotone(a: nat, b: nat)
    requires
        a <= b,
    ensures
        round_to_hundred(a) <= round_to_hundred(b),
{
    lemma_div_is_ordered((a + 50) as int, (b + 50) as int, 100);
}

} // verus!
