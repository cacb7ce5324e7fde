//! Whole numbers written in decimal.
use vstd::prelude::*;

verus! {

/// The digit character for a value below ten.
pub open spec fn digit(value: int) -> char {
    if value == 0 {
        '0'
    } else if value == 1 {
        '1'
    } else if value == 2 {
        '2'
    } else if value == 3 {
        '3'
    } else if value == 4 {
        '4'
    } else if value == 5 {
        '5'
    } else if value == 6 {
        '6'
    } else if value == 7 {
        '7'
    } else if value == 8 {
        '8'
    } else {
        '9'
    }
}

/// A natural number in decimal, without leading zeros.
pub open spec fn digits(value: nat) -> Seq<char>
    decreases value,
{
    if value < 10 {
        seq![digit(value as int)]
    } else {
        digits(value / 10).push(digit((value % 10) as int))
    }
}

/// A whole number in decimal, a negative one with a leading minus sign.
pub open spec fn decimal(value: int) -> Seq<char> {
    if value < 0 {
        seq!['-'] + digits((-value) as nat)
    } else {
        digits(value as nat)
    }
}

fn digit_char(value: u64) -> (c: char)
    requires
        value < 10,
    ensures
        c == digit(value as int),
{
    match value {
        0 => '0',
        1 => '1',
        2 => '2',
        3 => '3',
        4 => '4',
        5 => '5',
        6 => '6',
        7 => '7',
        8 => '8',
        _ => '9',
    }
}

/// Writes an unsigned number in decimal.
pub fn write_unsigned(value: u64) -> (text: String)
    ensures
        text@ == digits(value as nat),
        text@ == decimal(value as int),
    decreases value,
{
    if value < 10 {
        let mut text = String::new();
        text.push(digit_char(value));
        text
    } else {
        let mut text = write_unsigned(value / 10);
        text.push(digit_char(value % 10));
        text
    }
}

/// Writes a signed number in decimal.
pub fn write_signed(value: i64) -> (text: String)
    ensures
        text@ == decimal(value as int),
{
    if value >= 0 {
        return write_unsigned(value as u64);
    }
    let magnitude: u64 = if value == i64::MIN {
        0x8000_0000_0000_0000u64
    } else {
        (-value) as u64
    };
    let digits_text = write_unsigned(magnitude);
    let mut text = String::new();
    text.push('-');
    text.append(digits_text.as_str());
    assert(text@ =~= seq!['-'] + digits_text@);
    text
}

/// The value of a digit character.
pub open spec fn digit_value(c: char) -> int {
    c as int - '0' as int
}

/// The number that decimal digits stand for, each place worth ten times the next.
pub open spec fn digits_value(text: Seq<char>) -> int
    decreases text.len(),
{
    if text.len() == 0 {
        0
    } else {
        10 * digits_value(text.drop_last()) + digit_value(text.last())
    }
}

/// The number that a text in decimal stands for.
pub open spec fn decimal_value(text: Seq<char>) -> int {
    if text.len() > 0 && text[0] == '-' {
        -digits_value(text.drop_first())
    } else {
        digits_value(text)
    }
}

proof fn digits_read_back(value: nat)
    ensures
        digits_value(digits(value)) == value,
        digits(value).len() > 0,
        forall|i: int| 0 <= i < digits(value).len() ==> '0' <= #[trigger] digits(value)[i] <= '9',
        value > 0 ==> digits(value)[0] != '0',
    decreases value,
{
    if value < 10 {
        assert(digits(value).drop_last() =~= seq![]);
        assert(digits_value(Seq::<char>::empty()) == 0);
    } else {
        digits_read_back(value / 10);
        assert(digits(value).drop_last() =~= digits(value / 10));
    }
}

/// A number written in decimal reads as the same number, has digits alone behind a minus sign that
/// stands before negative numbers, and no leading zero unless it is zero.
pub proof fn decimal_reads_back(value: int)
    ensures
        decimal_value(decimal(value)) == value,
        decimal(value).len() > 0,
        (decimal(value)[0] == '-') == (value < 0),
        forall|i: int|
            (if value < 0 {
                1int
            } else {
                0
            }) <= i < decimal(value).len() ==> '0' <= #[trigger] decimal(value)[i] <= '9',
        value > 0 ==> decimal(value)[0] != '0',
{
    if value < 0 {
        digits_read_back((-value) as nat);
        assert(decimal(value).drop_first() =~= digits((-value) as nat));
        assert forall|i: int| 1 <= i < decimal(value).len() implies '0' <= #[trigger] decimal(
            value,
        )[i] <= '9' by {
            assert(decimal(value)[i] == digits((-value) as nat)[i - 1]);
        }
    } else {
        digits_read_back(value as nat);
    }
}

/// Different numbers are written differently.
pub proof fn decimal_tells_apart(a: int, b: int)
    requires
        decimal(a) == decimal(b),
    ensures
        a == b,
{
    decimal_reads_back(a);
    decimal_reads_back(b);
}

} // verus!
