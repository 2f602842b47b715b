//! The numbers of the language, and the array that stores the constants
//! of a chunk.

use crate::text::chars_of;
use vstd::prelude::*;

verus! {

/// A number of the language: the only kind of value a program computes.
///
/// A value stands for a double-precision number. The library carries values
/// from the source text to the constant pool, from there to the operand
/// stack and back to the caller, and never looks at the number itself.
#[derive(Debug)]
pub enum Value {
    /// The number as the source text writes it: digits, optionally followed
    /// by a point and more digits. It stands for the double nearest to it.
    Literal(String),
    /// The number by the 64 bits of its IEEE 754 binary64 encoding.
    Bits(u64),
}

/// What a [`Value`] is in contracts.
pub enum ValueView {
    Literal(Seq<char>),
    Bits(u64),
}

impl View for Value {
    type V = ValueView;

    open spec fn view(&self) -> ValueView {
        match self {
            Value::Literal(text) => ValueView::Literal(text@),
            Value::Bits(bits) => ValueView::Bits(*bits),
        }
    }
}

impl Clone for Value {
    fn clone(&self) -> (copy: Self)
        ensures
            copy == *self,
    {
        match self {
            Value::Literal(text) => Value::Literal(text.clone()),
            Value::Bits(bits) => Value::Bits(*bits),
        }
    }
}

/// Whether `c` is one of the ten decimal digits.
pub open spec fn is_digit(c: char) -> bool {
    '0' <= c <= '9'
}

/// Whether every character of `text` from `from` up to `to` is a digit.
pub open spec fn all_digits(text: Seq<char>, from: int, to: int) -> bool {
    forall|i: int| from <= i < to ==> is_digit(#[trigger] text[i])
}

/// Whether `text` is a number literal whose whole part ends at `point`:
/// one or more digits up to `point`, and nothing behind them or else a
/// point and one or more digits.
pub open spec fn is_number_with_point(text: Seq<char>, point: int) -> bool {
    &&& 0 < point <= text.len()
    &&& all_digits(text, 0, point)
    &&& point < text.len() ==> text[point] == '.' && point + 1 < text.len() && all_digits(
        text,
        point + 1,
        text.len() as int,
    )
}

/// Whether `text` is a number literal: one or more digits, optionally
/// followed by one point and one or more digits.
pub open spec fn is_number_literal(text: Seq<char>) -> bool {
    exists|point: int| #[trigger] is_number_with_point(text, point)
}

impl ValueView {
    /// Whether the value denotes a number: every bit pattern does, and a
    /// literal does when it is a number literal.
    pub open spec fn is_number(self) -> bool {
        match self {
            ValueView::Literal(text) => is_number_literal(text),
            ValueView::Bits(_) => true,
        }
    }
}

impl Value {
    /// Whether the value denotes a number: see [`ValueView::is_number`].
    pub fn is_number(&self) -> (number: bool)
        ensures
            number == self@.is_number(),
    {
        match self {
            Value::Literal(text) => is_number_text(text.as_str()),
            Value::Bits(_) => true,
        }
    }
}

/// Whether `text` is a number literal: see [`is_number_literal`].
pub fn is_number_text(text: &str) -> (number: bool)
    ensures
        number == is_number_literal(text@),
{
    let chars = chars_of(text);
    let length: usize = chars.len();
    let point: usize = digits_end(&chars, 0);
    assert forall|other: int| is_number_with_point(text@, other) implies other == point by {
        if other < point {
            assert(is_digit(text@[other]));
        }
    }
    if point == 0 {
        return false;
    }
    if point == length {
        assert(is_number_with_point(text@, point as int));
        return true;
    }
    if chars[point] != '.' || point + 1 >= length {
        return false;
    }
    let end: usize = digits_end(&chars, point + 1);
    if end == length {
        assert(is_number_with_point(text@, point as int));
        true
    } else {
        assert(!is_digit(text@[end as int]));
        false
    }
}

/// Where the digits of `chars` that start at `from` end.
fn digits_end(chars: &Vec<char>, from: usize) -> (end: usize)
    requires
        from <= chars.len(),
    ensures
        from <= end <= chars.len(),
        all_digits(chars@, from as int, end as int),
        end < chars.len() ==> !is_digit(chars@[end as int]),
{
    let mut end: usize = from;
    while end < chars.len() && '0' <= chars[end] && chars[end] <= '9'
        invariant
            from <= end <= chars.len(),
            all_digits(chars@, from as int, end as int),
        decreases chars.len() - end,
    {
        end += 1;
    }
    end
}

/// The views of the values of `values`, in the same order.
pub open spec fn views_of(values: Seq<Value>) -> Seq<ValueView> {
    Seq::new(values.len(), |i: int| values[i]@)
}

/// A growable array of values: the storage of a constant pool.
#[derive(Debug)]
pub struct ValueArray {
    pub values: Vec<Value>,
}

impl View for ValueArray {
    type V = Seq<ValueView>;

    open spec fn view(&self) -> Seq<ValueView> {
        views_of(self.values@)
    }
}

impl ValueArray {
    /// An empty array.
    pub fn new() -> (array: Self)
        ensures
            array@ == Seq::<ValueView>::empty(),
    {
        let array = Self { values: Vec::new() };
        assert(array@ =~= Seq::<ValueView>::empty());
        array
    }

    /// Appends `value` and returns the index at which it now stands.
    pub fn write(&mut self, value: Value) -> (index: usize)
        ensures
            final(self)@ == old(self)@.push(value@),
            index == old(self)@.len(),
    {
        self.values.push(value);
        assert(self@ =~= old(self)@.push(value@));
        self.values.len() - 1
    }

    /// Removes every value.
    pub fn free(&mut self)
        ensures
            final(self)@ == Seq::<ValueView>::empty(),
    {
        self.values.clear();
        assert(self@ =~= Seq::<ValueView>::empty());
    }
}

impl Default for ValueArray {
    fn default() -> (array: Self)
        ensures
            array@ == Seq::<ValueView>::empty(),
    {
        Self::new()
    }
}

} // verus!
