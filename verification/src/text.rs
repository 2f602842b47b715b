//! Unsigned numbers in decimal notation, and the characters of a text.

use vstd::prelude::*;
use vstd::string::*;

verus! {

/// The characters of `text`, one by one.
pub fn chars_of(text: &str) -> (chars: Vec<char>)
    ensures
        chars@ == text@,
{
    let mut chars: Vec<char> = Vec::new();
    for c in it: text.chars()
        invariant
            chars@ == it.seq().take(it.index() as int),
    {
        chars.push(c);
    }
    assert(chars@ =~= text@);
    chars
}

/// The character that writes the decimal digit `digit`.
pub open spec fn digit_char(digit: nat) -> char
    recommends
        digit < 10,
{
    if digit == 0 {
        '0'
    } else if digit == 1 {
        '1'
    } else if digit == 2 {
        '2'
    } else if digit == 3 {
        '3'
    } else if digit == 4 {
        '4'
    } else if digit == 5 {
        '5'
    } else if digit == 6 {
        '6'
    } else if digit == 7 {
        '7'
    } else if digit == 8 {
        '8'
    } else {
        '9'
    }
}

/// The decimal notation of `number`, without sign and without leading zeros.
pub open spec fn decimal(number: nat) -> Seq<char>
    decreases number,
{
    if number < 10 {
        seq![digit_char(number)]
    } else {
        decimal(number / 10).push(digit_char(number % 10))
    }
}

/// The one-character text of a decimal digit.
fn digit_text(digit: usize) -> (text: &'static str)
    requires
        digit < 10,
    ensures
        text@ == seq![digit_char(digit as nat)],
{
    proof {
        reveal_strlit("0");
        reveal_strlit("1");
        reveal_strlit("2");
        reveal_strlit("3");
        reveal_strlit("4");
        reveal_strlit("5");
        reveal_strlit("6");
        reveal_strlit("7");
        reveal_strlit("8");
        reveal_strlit("9");
    }
    let text = if digit == 0 {
        "0"
    } else if digit == 1 {
        "1"
    } else if digit == 2 {
        "2"
    } else if digit == 3 {
        "3"
    } else if digit == 4 {
        "4"
    } else if digit == 5 {
        "5"
    } else if digit == 6 {
        "6"
    } else if digit == 7 {
        "7"
    } else if digit == 8 {
        "8"
    } else {
        "9"
    };
    assert(text@ =~= seq![digit_char(digit as nat)]);
    text
}

/// The decimal notation of `number`, as `to_string` writes an unsigned integer.
pub fn decimal_string(number: usize) -> (text: String)
    ensures
        text@ == decimal(number as nat),
    decreases number,
{
    if number < 10 {
        digit_text(number).to_owned()
    } else {
        let mut text = decimal_string(number / 10);
        text.append(digit_text(number % 10));
        assert(text@ =~= decimal(number as nat));
        text
    }
}

/// `prefix` followed by the decimal notation of `number`.
pub fn with_number(prefix: &str, number: usize) -> (text: String)
    ensures
        text@ == prefix@ + decimal(number as nat),
{
    let mut text = prefix.to_owned();
    let digits = decimal_string(number);
    text.append(digits.as_str());
    text
}

/// `count` zeros.
pub open spec fn zeros(count: nat) -> Seq<char> {
    Seq::new(count, |i: int| '0')
}

/// The decimal notation of `number` with zeros before it, as many as it
/// takes to fill `width` characters, and none where the notation is that
/// long by itself.
pub open spec fn zero_padded(number: nat, width: nat) -> Seq<char> {
    if decimal(number).len() < width {
        zeros((width - decimal(number).len()) as nat) + decimal(number)
    } else {
        decimal(number)
    }
}

/// The decimal notation of `number`, filled up with zeros to `width`
/// characters: see [`zero_padded`].
pub fn zero_padded_string(number: usize, width: usize) -> (text: String)
    ensures
        text@ == zero_padded(number as nat, width as nat),
{
    let digits = decimal_string(number);
    let length: usize = digits.as_str().unicode_len();
    let mut text = String::new();
    let mut filled: usize = length;
    while filled < width
        invariant
            length <= filled,
            filled <= width || filled == length,
            text@ == zeros((filled - length) as nat),
        decreases width - filled,
    {
        proof {
            reveal_strlit("0");
        }
        text.append("0");
        filled += 1;
        assert(text@ =~= zeros((filled - length) as nat));
    }
    text.append(digits.as_str());
    assert(text@ =~= zero_padded(number as nat, width as nat));
    text
}

} // verus!
