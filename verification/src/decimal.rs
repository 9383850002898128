//! Decimal text of integers: plain, padded with zeros to a width, and with an
//! explicit sign. The time point and the records print their numbers this way.

use vstd::prelude::*;
use vstd::string::StringExecFns;

verus! {

/// The character of a decimal digit; `'9'` for anything above 8.
pub open spec fn digit(d: int) -> char {
    if d <= 0 {
        '0'
    } else if d == 1 {
        '1'
    } else if d == 2 {
        '2'
    } else if d == 3 {
        '3'
    } else if d == 4 {
        '4'
    } else if d == 5 {
        '5'
    } else if d == 6 {
        '6'
    } else if d == 7 {
        '7'
    } else if d == 8 {
        '8'
    } else {
        '9'
    }
}

/// The digits of `n`, most significant first, without leading zeros.
pub open spec fn decimal(n: nat) -> Seq<char>
    decreases n,
{
    if n < 10 {
        seq![digit(n as int)]
    } else {
        decimal(n / 10).push(digit((n % 10) as int))
    }
}

/// `count` zeros.
pub open spec fn zeros(count: nat) -> Seq<char> {
    Seq::new(count, |i: int| '0')
}

/// The digits of `n` with zeros in front until there are at least `width`
/// characters.
pub open spec fn zero_padded(n: nat, width: nat) -> Seq<char> {
    if decimal(n).len() >= width {
        decimal(n)
    } else {
        zeros((width - decimal(n).len()) as nat) + decimal(n)
    }
}

/// The magnitude of an integer.
pub open spec fn magnitude(value: int) -> nat {
    if value < 0 {
        (-value) as nat
    } else {
        value as nat
    }
}

/// `value` in a field of at least `width` characters, filled with zeros
/// behind the sign: a minus sign for a negative value, no sign otherwise.
pub open spec fn padded(value: int, width: nat) -> Seq<char> {
    if value < 0 {
        seq!['-'] + zero_padded(
            magnitude(value),
            if width > 0 {
                (width - 1) as nat
            } else {
                0
            },
        )
    } else {
        zero_padded(magnitude(value), width)
    }
}

/// `value` with its sign always written, plus or minus, in a field of at
/// least `width` characters filled with zeros behind the sign.
pub open spec fn signed_padded(value: int, width: nat) -> Seq<char> {
    seq![if value < 0 {
        '-'
    } else {
        '+'
    }] + zero_padded(
        magnitude(value),
        if width > 0 {
            (width - 1) as nat
        } else {
            0
        },
    )
}

/// A count of tenths as a decimal number: the whole part, then a point and
/// one digit unless that digit is zero; a negative count begins with a minus
/// sign.
pub open spec fn tenths(value: int) -> Seq<char> {
    (if value < 0 {
        seq!['-']
    } else {
        Seq::<char>::empty()
    }) + decimal(magnitude(value) / 10) + (if magnitude(value) % 10 != 0 {
        seq!['.', digit((magnitude(value) % 10) as int)]
    } else {
        Seq::<char>::empty()
    })
}

/// A number has at least one digit, and no more digits than its value plus one.
pub proof fn lemma_decimal_len(n: nat)
    ensures
        1 <= decimal(n).len() <= n + 1,
    decreases n,
{
    if n >= 10 {
        lemma_decimal_len(n / 10);
    }
}

/// The text of one decimal digit.
pub fn digit_text(d: u64) -> (r: &'static str)
    requires
        d < 10,
    ensures
        r@ == seq![digit(d as int)],
{
    proof {
        reveal_strlit("0");
        reveal_strlit("1");
        reveal_strlit("2");
        reveal_strlit("3");
        reveal_strlit("4");
        reveal_strlit("5");
        reveal_strlit("6");
        reveal_strlit("7");
        reveal_strlit("8");
        reveal_strlit("9");
    }
    let r = match d {
        0 => "0",
        1 => "1",
        2 => "2",
        3 => "3",
        4 => "4",
        5 => "5",
        6 => "6",
        7 => "7",
        8 => "8",
        _ => "9",
    };
    assert(r@ =~= seq![digit(d as int)]);
    r
}

/// How many digits `n` has.
pub fn count_digits(n: u64) -> (r: u64)
    ensures
        r == decimal(n as nat).len(),
    decreases n,
{
    if n < 10 {
        1
    } else {
        proof {
            lemma_decimal_len((n / 10) as nat);
        }
        1 + count_digits(n / 10)
    }
}

/// Appends the digits of `n`.
pub fn push_decimal(text: &mut String, n: u64)
    ensures
        final(text)@ == old(text)@ + decimal(n as nat),
    decreases n,
{
    if n >= 10 {
        push_decimal(text, n / 10);
    }
    text.append(digit_text(n % 10));
    assert(text@ =~= old(text)@ + decimal(n as nat));
}

/// Appends the digits of `n` behind as many zeros as bring them to `width`
/// characters.
pub fn push_zero_padded(text: &mut String, n: u64, width: u64)
    ensures
        final(text)@ == old(text)@ + zero_padded(n as nat, width as nat),
{
    let digits = count_digits(n);
    let mut written: u64 = digits;
    while written < width
        invariant
            digits <= written,
            written <= width || written == digits,
            text@ == old(text)@ + zeros((written - digits) as nat),
        decreases width - written,
    {
        proof {
            reveal_strlit("0");
        }
        text.append("0");
        written = written + 1;
        assert(text@ =~= old(text)@ + zeros((written - digits) as nat));
    }
    push_decimal(text, n);
    assert(text@ =~= old(text)@ + zero_padded(n as nat, width as nat));
}

/// The magnitude of `value` as an unsigned number.
pub fn magnitude_of(value: i64) -> (r: u64)
    ensures
        r == magnitude(value as int),
{
    if value < 0 {
        (-(value + 1)) as u64 + 1
    } else {
        value as u64
    }
}

/// Appends `value` in a field of `width` characters filled with zeros; a
/// negative value begins with its minus sign, which counts towards the width.
pub fn push_padded(text: &mut String, value: i64, width: u64)
    ensures
        final(text)@ == old(text)@ + padded(value as int, width as nat),
{
    let digits_width = if value < 0 && width > 0 {
        width - 1
    } else {
        width
    };
    if value < 0 {
        proof {
            reveal_strlit("-");
        }
        text.append("-");
    }
    push_zero_padded(text, magnitude_of(value), digits_width);
    assert(text@ =~= old(text)@ + padded(value as int, width as nat));
}

/// Appends `value` behind its sign, plus or minus, in a field of `width`
/// characters filled with zeros; the sign counts towards the width.
pub fn push_signed_padded(text: &mut String, value: i64, width: u64)
    ensures
        final(text)@ == old(text)@ + signed_padded(value as int, width as nat),
{
    let digits_width = if width > 0 {
        width - 1
    } else {
        0
    };
    proof {
        reveal_strlit("-");
        reveal_strlit("+");
    }
    if value < 0 {
        text.append("-");
    } else {
        text.append("+");
    }
    push_zero_padded(text, magnitude_of(value), digits_width);
    assert(text@ =~= old(text)@ + signed_padded(value as int, width as nat));
}

/// Appends a count of tenths as a decimal number, such as `15.1` for 151 and
/// `15` for 150.
pub fn push_tenths(text: &mut String, value: i64)
    ensures
        final(text)@ == old(text)@ + tenths(value as int),
{
    proof {
        reveal_strlit("-");
        reveal_strlit(".");
    }
    let size = magnitude_of(value);
    if value < 0 {
        text.append("-");
    }
    push_decimal(text, size / 10);
    if size % 10 != 0 {
        text.append(".");
        text.append(digit_text(size % 10));
    }
    assert(text@ =~= old(text)@ + tenths(value as int));
}

} // verus!
