use vstd::prelude::*;

verus! {

/// The character of a decimal digit `d < 10`.
pub open spec fn digit_char(d: nat) -> char {
    ((d + 48) as u8) as char
}

/// The decimal digits of `n`, most significant first, with no leading zero.
pub open spec fn decimal_digits(n: nat) -> Seq<char>
    decreases n,
{
    if n < 10 {
        seq![digit_char(n)]
    } else {
        decimal_digits(n / 10).push(digit_char(n % 10))
    }
}

/// `n` in decimal, with zeros in front up to `width` characters.
pub open spec fn zero_padded(n: nat, width: nat) -> Seq<char> {
    let d = decimal_digits(n);
    if d.len() < width {
        Seq::new((width - d.len()) as nat, |i: int| '0') + d
    } else {
        d
    }
}

/// Relies on `String::push`: the character is added at the end.
#[verifier::external_body]
pub(crate) fn push_char(s: &mut String, c: char)
    ensures
        final(s)@ == old(s)@.push(c),
{
    s.push(c);
}

fn digit(d: u64) -> (c: char)
    requires
        d < 10,
    ensures
        c == digit_char(d as nat),
{
    let code: u8 = (d as u8) + 48;
    code as char
}

/// The number of decimal digits of `n`.
pub(crate) fn digit_count(n: u64) -> (r: u64)
    ensures
        r as nat == decimal_digits(n as nat).len(),
        1 <= r <= n as nat + 1,
    decreases n,
{
    if n < 10 {
        1
    } else {
        let r = digit_count(n / 10);
        r + 1
    }
}

/// Appends `n` in decimal.
pub(crate) fn push_decimal(s: &mut String, n: u64)
    ensures
        final(s)@ == old(s)@ + decimal_digits(n as nat),
    decreases n,
{
    if n >= 10 {
        push_decimal(s, n / 10);
    }
    push_char(s, digit(n % 10));
    proof {
        if n >= 10 {
            assert(decimal_digits(n as nat) == decimal_digits((n / 10) as nat).push(
                digit_char((n % 10) as nat),
            ));
        }
    }
    assert(final(s)@ =~= old(s)@ + decimal_digits(n as nat));
}

/// Appends `n` in decimal, with zeros in front up to `width` characters.
pub(crate) fn push_padded(s: &mut String, n: u64, width: u64)
    ensures
        final(s)@ == old(s)@ + zero_padded(n as nat, width as nat),
{
    let count = digit_count(n);
    let ghost start = s@;
    let mut k: u64 = count;
    while k < width
        invariant
            count <= k <= width || (k == count && width < count),
            count as nat == decimal_digits(n as nat).len(),
            s@ == start + Seq::new((k - count) as nat, |i: int| '0'),
        decreases width - k,
    {
        push_char(s, '0');
        k = k + 1;
        assert(s@ =~= start + Seq::new((k - count) as nat, |i: int| '0'));
    }
    let ghost zeros = s@;
    push_decimal(s, n);
    proof {
        if count < width {
            assert(s@ =~= start + zero_padded(n as nat, width as nat));
        } else {
            assert(zeros =~= start);
            assert(s@ =~= start + zero_padded(n as nat, width as nat));
        }
    }
}

} // verus!
