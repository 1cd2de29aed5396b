use vstd::prelude::*;
use vstd::string::StrSliceExecFns;
use crate::text::{decimal_digits, push_char, push_decimal, push_padded, zero_padded};

verus! {

/// The most integer digits a price literal may have.
pub const MAX_INT_DIGITS: usize = 15;

/// A price in US dollars, held as a whole number of cents and a sign.
/// A negative zero is kept as such: it renders as `-0.00`.
#[derive(Clone, Copy, Debug, PartialEq, Eq, Structural)]
pub struct Price {
    pub negative: bool,
    pub cents: u64,
}

impl Price {
    /// The signed value in cents.
    pub open spec fn value(self) -> int {
        if self.negative {
            -(self.cents as int)
        } else {
            self.cents as int
        }
    }
}

pub open spec fn is_digit(c: char) -> bool {
    '0' <= c && c <= '9'
}

pub open spec fn digit_value(c: char) -> nat {
    (c as u32 - '0' as u32) as nat
}

/// The number that a run of decimal digits denotes.
pub open spec fn digits_value(s: Seq<char>) -> nat
    decreases s.len(),
{
    if s.len() == 0 {
        0
    } else {
        digits_value(s.drop_last()) * 10 + digit_value(s.last())
    }
}

/// The first index at or after `i` that does not hold a digit.
pub open spec fn digit_run_end(s: Seq<char>, i: int) -> int
    decreases s.len() - i,
{
    if i < 0 || i >= s.len() || !is_digit(s[i]) {
        i
    } else {
        digit_run_end(s, i + 1)
    }
}

/// Where the integer digits of a literal start: after a leading minus sign.
pub open spec fn int_start(s: Seq<char>) -> int {
    if s.len() > 0 && s[0] == '-' {
        1
    } else {
        0
    }
}

pub open spec fn int_end(s: Seq<char>) -> int {
    digit_run_end(s, int_start(s))
}

/// `s` reads `-?D+(.D+)?` with `D` a decimal digit.
pub open spec fn is_price_literal(s: Seq<char>) -> bool {
    let a = int_start(s);
    let k = int_end(s);
    k > a && (k == s.len() || (s[k] == '.' && k + 1 < s.len() && digit_run_end(s, k + 1)
        == s.len()))
}

/// The fractional digits of a literal, empty where it has none.
pub open spec fn fraction_digits(s: Seq<char>) -> Seq<char> {
    let k = int_end(s);
    if k < s.len() {
        s.subrange(k + 1, s.len() as int)
    } else {
        Seq::empty()
    }
}

/// The fraction in cents: its first two digits, plus one where the third is
/// 5 or more (half rounds up).
pub open spec fn fraction_cents(f: Seq<char>) -> nat {
    (if f.len() > 0 { digit_value(f[0]) * 10 } else { 0 }) + (if f.len() > 1 {
        digit_value(f[1])
    } else {
        0
    }) + (if f.len() > 2 && digit_value(f[2]) >= 5 { 1nat } else { 0 })
}

/// The price that a literal denotes, rounded to the cent.
pub open spec fn literal_price(s: Seq<char>) -> Price {
    Price {
        negative: int_start(s) == 1,
        cents: (digits_value(s.subrange(int_start(s), int_end(s))) * 100 + fraction_cents(
            fraction_digits(s),
        )) as u64,
    }
}

/// A literal is taken where it is well formed and has at most
/// `MAX_INT_DIGITS` integer digits.
pub open spec fn accepts_literal(s: Seq<char>) -> bool {
    is_price_literal(s) && int_end(s) - int_start(s) <= MAX_INT_DIGITS
}

/// The text of a price: an optional minus sign, the whole dollars, a point
/// and exactly two digits of cents.
pub open spec fn price_text(p: Price) -> Seq<char> {
    (if p.negative { seq!['-'] } else { Seq::empty() }) + decimal_digits((p.cents / 100) as nat)
        + seq!['.'] + zero_padded((p.cents % 100) as nat, 2)
}

proof fn lemma_digits_push(s: Seq<char>, c: char)
    ensures
        digits_value(s.push(c)) == digits_value(s) * 10 + digit_value(c),
{
    assert(s.push(c).drop_last() =~= s);
}

fn digit_of(c: char) -> (d: u64)
    requires
        is_digit(c),
    ensures
        d as nat == digit_value(c),
        d < 10,
{
    ((c as u32) - ('0' as u32)) as u64
}

/// Reads a decimal price literal such as `65000.5` or `-0.125`, rounding
/// half up to the cent. `None` where the text is not such a literal or has
/// more than `MAX_INT_DIGITS` integer digits.
#[verifier::rlimit(40)]
pub fn parse_price(text: &str) -> (r: Option<Price>)
    ensures
        r == (if accepts_literal(text@) {
            Some(literal_price(text@))
        } else {
            None::<Price>
        }),
{
    let ghost s = text@;
    let n = text.unicode_len();
    let mut i: usize = 0;
    let negative = n > 0 && text.get_char(0) == '-';
    if negative {
        i = 1;
    }
    let a = i;
    assert(a == int_start(s));
    let mut units: u64 = 0;
    while i < n && is_digit_char(text.get_char(i))
        invariant
            s == text@,
            n == s.len(),
            a == int_start(s),
            a <= i <= n,
            i - a <= MAX_INT_DIGITS,
            digit_run_end(s, a as int) == digit_run_end(s, i as int),
            forall|j: int| a <= j < i ==> is_digit(#[trigger] s[j]),
            units as nat == digits_value(s.subrange(a as int, i as int)),
            units < pow10((i - a) as nat),
        decreases n - i,
    {
        if i - a == MAX_INT_DIGITS {
            proof {
                lemma_run_longer(s, a as int, i as int);
            }
            return None;
        }
        let c = text.get_char(i);
        let d = digit_of(c);
        proof {
            lemma_digits_push(s.subrange(a as int, i as int), c);
            assert(s.subrange(a as int, i + 1) =~= s.subrange(a as int, i as int).push(c));
            lemma_pow10_step(units as nat, d as nat, (i - a) as nat);
            lemma_pow10_mono((i - a + 1) as nat, 15);
            reveal_with_fuel(pow10, 16);
        }
        units = units * 10 + d;
        i = i + 1;
    }
    assert(i as int == int_end(s));
    if i == a {
        return None;
    }
    proof {
        lemma_pow10_mono((i - a) as nat, 15);
        reveal_with_fuel(pow10, 16);
        assert(pow10(15) == 1_000_000_000_000_000);
    }
    let mut cents: u64 = units * 100;
    if i < n {
        if text.get_char(i) != '.' || i + 1 >= n {
            return None;
        }
        let f = i + 1;
        let mut j: usize = f;
        while j < n && is_digit_char(text.get_char(j))
            invariant
                s == text@,
                n == s.len(),
                f + 1 <= j + 1,
                j <= n,
                digit_run_end(s, f as int) == digit_run_end(s, j as int),
            decreases n - j,
        {
            proof {
                lemma_run_step(s, j as int);
            }
            j = j + 1;
        }
        if j < n {
            return None;
        }
        let ghost fr = fraction_digits(s);
        assert(fr =~= s.subrange(f as int, n as int));
        proof {
            lemma_run_all_digits(s, f as int);
        }
        assert(forall|m: int| 0 <= m < fr.len() ==> is_digit(#[trigger] fr[m]));
        cents = cents + digit_of(text.get_char(f)) * 10;
        if f + 1 < n {
            cents = cents + digit_of(text.get_char(f + 1));
        }
        if f + 2 < n && digit_of(text.get_char(f + 2)) >= 5 {
            cents = cents + 1;
        }
    }
    Some(Price { negative, cents })
}

fn is_digit_char(c: char) -> (r: bool)
    ensures
        r == is_digit(c),
{
    '0' <= c && c <= '9'
}

pub open spec fn pow10(e: nat) -> nat
    decreases e,
{
    if e == 0 {
        1
    } else {
        10 * pow10((e - 1) as nat)
    }
}

proof fn lemma_pow10_step(u: nat, d: nat, e: nat)
    requires
        u < pow10(e),
        d < 10,
    ensures
        u * 10 + d < pow10(e + 1),
{
    assert(pow10(e + 1) == 10 * pow10(e));
    assert(u * 10 + d < 10 * pow10(e)) by (nonlinear_arith)
        requires
            u < pow10(e),
            d < 10,
    ;
}

proof fn lemma_run_step(s: Seq<char>, i: int)
    requires
        0 <= i < s.len(),
        is_digit(s[i]),
    ensures
        digit_run_end(s, i) == digit_run_end(s, i + 1),
{
}

proof fn lemma_pow10_mono(e: nat, f: nat)
    requires
        e <= f,
    ensures
        pow10(e) <= pow10(f),
    decreases f,
{
    if e < f {
        lemma_pow10_mono(e, (f - 1) as nat);
    }
}

/// A run of digits that reaches index `i` ends no earlier than `i`.
proof fn lemma_run_longer(s: Seq<char>, a: int, i: int)
    requires
        0 <= a <= i < s.len(),
        digit_run_end(s, a) == digit_run_end(s, i),
        is_digit(s[i]),
    ensures
        digit_run_end(s, a) > i,
    decreases s.len() - i,
{
    lemma_run_bounds(s, i + 1);
}

proof fn lemma_run_bounds(s: Seq<char>, i: int)
    requires
        0 <= i <= s.len(),
    ensures
        i <= digit_run_end(s, i) <= s.len(),
    decreases s.len() - i,
{
    if i < s.len() && is_digit(s[i]) {
        lemma_run_bounds(s, i + 1);
    }
}

/// A run of digits from `i` that reaches the end covers only digits.
proof fn lemma_run_all_digits(s: Seq<char>, i: int)
    requires
        0 <= i <= s.len(),
        digit_run_end(s, i) == s.len(),
    ensures
        forall|j: int| i <= j < s.len() ==> is_digit(#[trigger] s[j]),
    decreases s.len() - i,
{
    if i < s.len() {
        lemma_run_all_digits(s, i + 1);
    }
}

/// Appends the text of a price.
pub(crate) fn push_price(s: &mut String, p: Price)
    ensures
        final(s)@ == old(s)@ + price_text(p),
{
    let ghost start = s@;
    if p.negative {
        push_char(s, '-');
    }
    push_decimal(s, p.cents / 100);
    push_char(s, '.');
    push_padded(s, p.cents % 100, 2);
    assert(s@ =~= start + price_text(p));
}

/// The text of a price, always with two digits of cents (`100` gives
/// `100.00`).
pub fn format_price(p: Price) -> (r: String)
    ensures
        r@ == price_text(p),
{
    let mut s = String::new();
    push_price(&mut s, p);
    assert(s@ =~= price_text(p));
    s
}

} // verus!
