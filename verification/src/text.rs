//! Text helpers: decimal rendering of identifiers and counters.
use vstd::prelude::*;
use vstd::string::StringExecFns;

verus! {

/// The character that writes a single decimal digit.
pub open spec fn digit_char(d: int) -> char {
    if d == 0 {
        '0'
    } else if d == 1 {
        '1'
    } else if d == 2 {
        '2'
    } else if d == 3 {
        '3'
    } else if d == 4 {
        '4'
    } else if d == 5 {
        '5'
    } else if d == 6 {
        '6'
    } else if d == 7 {
        '7'
    } else if d == 8 {
        '8'
    } else {
        '9'
    }
}

/// The decimal digits of a natural number, most significant first, without
/// leading zeros.
pub open spec fn decimal_digits(n: nat) -> Seq<char>
    decreases n,
{
    if n < 10 {
        seq![digit_char(n as int)]
    } else {
        decimal_digits(n / 10).push(digit_char((n % 10) as int))
    }
}

/// The one-character text of a decimal digit.
fn digit_text(d: u128) -> (text: &'static str)
    requires
        d < 10,
    ensures
        text@ == seq![digit_char(d as int)],
{
    proof {
        reveal_strlit("0");
        reveal_strlit("1");
        reveal_strlit("2");
        reveal_strlit("3");
        reveal_strlit("4");
        reveal_strlit("5");
        reveal_strlit("6");
        reveal_strlit("7");
        reveal_strlit("8");
        reveal_strlit("9");
    }
    let text = if d == 0 {
        "0"
    } else if d == 1 {
        "1"
    } else if d == 2 {
        "2"
    } else if d == 3 {
        "3"
    } else if d == 4 {
        "4"
    } else if d == 5 {
        "5"
    } else if d == 6 {
        "6"
    } else if d == 7 {
        "7"
    } else if d == 8 {
        "8"
    } else {
        "9"
    };
    assert(text@ =~= seq![digit_char(d as int)]);
    text
}

/// Renders a number in decimal.
pub fn decimal_string(n: u128) -> (text: String)
    ensures
        text@ == decimal_digits(n as nat),
    decreases n,
{
    if n < 10 {
        String::from_str(digit_text(n))
    } else {
        let mut text = decimal_string(n / 10);
        text.append(digit_text(n % 10));
        assert(text@ =~= decimal_digits(n as nat));
        text
    }
}

/// The decimal digits of an integer, with a minus sign in front of a
/// negative one.
pub open spec fn signed_decimal_digits(v: int) -> Seq<char> {
    if v < 0 {
        seq!['-'] + decimal_digits((-v) as nat)
    } else {
        decimal_digits(v as nat)
    }
}

/// Renders a signed number in decimal.
pub fn signed_decimal_string(v: i128) -> (text: String)
    ensures
        text@ == signed_decimal_digits(v as int),
{
    if v < 0 {
        let magnitude: u128 = if v == i128::MIN {
            0x8000_0000_0000_0000_0000_0000_0000_0000
        } else {
            (-v) as u128
        };
        proof {
            reveal_strlit("-");
        }
        let mut text = String::from_str("-");
        let digits = decimal_string(magnitude);
        text.append(digits.as_str());
        assert(text@ =~= signed_decimal_digits(v as int));
        text
    } else {
        decimal_string(v as u128)
    }
}

/// The last `width` decimal digits of a number, leading zeros included.
pub open spec fn padded_digits(n: nat, width: nat) -> Seq<char>
    decreases width,
{
    if width == 0 {
        Seq::empty()
    } else {
        padded_digits(n / 10, (width - 1) as nat).push(digit_char((n % 10) as int))
    }
}

/// The digits of a fraction of `width` decimal places, without trailing
/// zeros; empty for a fraction of zero.
pub open spec fn fraction_digits(n: nat, width: nat) -> Seq<char>
    decreases width,
{
    if width == 0 || n == 0 {
        Seq::empty()
    } else if n % 10 == 0 {
        fraction_digits(n / 10, (width - 1) as nat)
    } else {
        padded_digits(n, width)
    }
}

/// A fixed-point number in millionths written as a decimal: a minus sign
/// for a negative number, the whole part, and the fraction, if there is
/// one, after a point and without trailing zeros.
pub open spec fn fixed_decimal_digits(v: int) -> Seq<char> {
    let magnitude = if v < 0 {
        (-v) as nat
    } else {
        v as nat
    };
    let sign = if v < 0 {
        seq!['-']
    } else {
        Seq::empty()
    };
    let whole = decimal_digits(magnitude / 1_000_000);
    if magnitude % 1_000_000 == 0 {
        sign + whole
    } else {
        sign + whole + seq!['.'] + fraction_digits(magnitude % 1_000_000, 6)
    }
}

/// Renders the last `width` decimal digits of a number.
fn padded_string(n: u128, width: u8) -> (text: String)
    ensures
        text@ == padded_digits(n as nat, width as nat),
    decreases width,
{
    if width == 0 {
        String::new()
    } else {
        let mut text = padded_string(n / 10, width - 1);
        text.append(digit_text(n % 10));
        assert(text@ =~= padded_digits(n as nat, width as nat));
        text
    }
}

/// Renders a fraction of `width` decimal places without trailing zeros.
fn fraction_string(n: u128, width: u8) -> (text: String)
    ensures
        text@ == fraction_digits(n as nat, width as nat),
    decreases width,
{
    if width == 0 || n == 0 {
        String::new()
    } else if n % 10 == 0 {
        fraction_string(n / 10, width - 1)
    } else {
        padded_string(n, width)
    }
}

/// Renders a fixed-point number in millionths as a decimal.
pub fn fixed_decimal_string(v: i128) -> (text: String)
    ensures
        text@ == fixed_decimal_digits(v as int),
{
    let magnitude: u128 = if v == i128::MIN {
        0x8000_0000_0000_0000_0000_0000_0000_0000
    } else if v < 0 {
        (-v) as u128
    } else {
        v as u128
    };
    proof {
        reveal_strlit("-");
        reveal_strlit(".");
    }
    let mut text = if v < 0 {
        String::from_str("-")
    } else {
        String::new()
    };
    let whole = decimal_string(magnitude / 1_000_000);
    text.append(whole.as_str());
    if magnitude % 1_000_000 != 0 {
        text.append(".");
        let fraction = fraction_string(magnitude % 1_000_000, 6);
        text.append(fraction.as_str());
    }
    assert(text@ =~= fixed_decimal_digits(v as int));
    text
}

/// Texts joined by a separator.
pub open spec fn joined(parts: Seq<Seq<char>>, separator: Seq<char>) -> Seq<char>
    decreases parts.len(),
{
    if parts.len() == 0 {
        Seq::empty()
    } else if parts.len() == 1 {
        parts[0]
    } else {
        joined(parts.drop_last(), separator) + separator + parts.last()
    }
}

/// The characters of each text of a list.
pub open spec fn text_views(parts: Seq<String>) -> Seq<Seq<char>> {
    Seq::new(parts.len(), |i: int| parts[i]@)
}

/// Joins texts with a separator.
pub fn join_texts(parts: &Vec<String>, separator: &str) -> (text: String)
    ensures
        text@ == joined(text_views(parts@), separator@),
{
    let ghost all = text_views(parts@);
    let mut text = String::new();
    let mut i: usize = 0;
    assert(all.take(0) =~= Seq::empty());
    while i < parts.len()
        invariant
            i <= parts@.len(),
            all == text_views(parts@),
            text@ == joined(all.take(i as int), separator@),
        decreases parts@.len() - i,
    {
        if i > 0 {
            text.append(separator);
        }
        text.append(parts[i].as_str());
        proof {
            assert(all.take(i + 1).drop_last() =~= all.take(i as int));
            assert(all.take(i + 1).last() == parts@[i as int]@);
            assert(text@ =~= joined(all.take(i + 1), separator@));
        }
        i += 1;
    }
    assert(all.take(parts@.len() as int) =~= all);
    text
}

/// Whether two texts hold the same characters.
pub fn same_text(a: &str, b: &str) -> (same: bool)
    ensures
        same == (a@ == b@),
{
    let left = String::from_str(a);
    let right = String::from_str(b);
    left == right
}

} // verus!
