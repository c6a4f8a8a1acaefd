//! Building the texts that the library shows: decimal numbers and the last
//! segment of a path.

use vstd::prelude::*;

verus! {

/// `String::push`: appends one character to the end of the string.
pub assume_specification[ String::push ](text: &mut String, character: char)
    ensures
        final(text)@ == old(text)@.push(character),
;

/// `String::push_str`: appends a string slice to the end of the string.
pub assume_specification[ String::push_str ](text: &mut String, other: &str)
    ensures
        final(text)@ == old(text)@ + other@,
;

/// The character of a decimal digit.
pub open spec fn digit_char(digit: nat) -> char {
    if digit == 0 {
        '0'
    } else if digit == 1 {
        '1'
    } else if digit == 2 {
        '2'
    } else if digit == 3 {
        '3'
    } else if digit == 4 {
        '4'
    } else if digit == 5 {
        '5'
    } else if digit == 6 {
        '6'
    } else if digit == 7 {
        '7'
    } else if digit == 8 {
        '8'
    } else {
        '9'
    }
}

/// The decimal digits of a number, the most significant first, without
/// leading zeros; zero is written `0`.
pub open spec fn decimal(number: nat) -> Seq<char>
    decreases number,
{
    if number < 10 {
        seq![digit_char(number)]
    } else {
        decimal(number / 10).push(digit_char(number % 10))
    }
}

/// The character of a decimal digit.
fn digit_to_char(digit: u64) -> (character: char)
    requires
        digit < 10,
    ensures
        character == digit_char(digit as nat),
{
    if digit == 0 {
        '0'
    } else if digit == 1 {
        '1'
    } else if digit == 2 {
        '2'
    } else if digit == 3 {
        '3'
    } else if digit == 4 {
        '4'
    } else if digit == 5 {
        '5'
    } else if digit == 6 {
        '6'
    } else if digit == 7 {
        '7'
    } else if digit == 8 {
        '8'
    } else {
        '9'
    }
}

/// Appends the decimal digits of a number to a text.
pub fn push_decimal(text: &mut String, number: u64)
    ensures
        final(text)@ == old(text)@ + decimal(number as nat),
{
    // The digits, the least significant first.
    let mut digits: Vec<char> = Vec::new();
    let mut rest: u64 = number;
    digits.push(digit_to_char(rest % 10));
    rest = rest / 10;
    while rest > 0
        invariant
            digits@.len() >= 1,
            decimal(number as nat) == if rest == 0 {
                digits@.reverse()
            } else {
                decimal(rest as nat) + digits@.reverse()
            },
        decreases rest,
    {
        let ghost before = digits@;
        let ghost whole = rest;
        digits.push(digit_to_char(rest % 10));
        rest = rest / 10;
        proof {
            let digit = digit_char((whole % 10) as nat);
            assert(digits@.reverse() =~= seq![digit] + before.reverse());
            if whole < 10 {
                assert(decimal(whole as nat) == seq![digit]);
            } else {
                assert(decimal(whole as nat) == decimal(rest as nat).push(digit));
                assert(decimal(rest as nat).push(digit) + before.reverse() =~= decimal(
                    rest as nat,
                ) + (seq![digit] + before.reverse()));
            }
        }
    }
    let mut left: usize = digits.len();
    while left > 0
        invariant
            left <= digits@.len(),
            text@ == old(text)@ + digits@.reverse().take(digits@.len() - left),
        decreases left,
    {
        left = left - 1;
        text.push(digits[left]);
        proof {
            let reversed = digits@.reverse();
            assert(reversed.take(digits@.len() - left) =~= reversed.take(
                digits@.len() - left - 1,
            ).push(digits@[left as int]));
        }
    }
    proof {
        assert(digits@.reverse().take(digits@.len() as int) =~= digits@.reverse());
    }
}

/// The decimal digits of a number as a text.
pub fn decimal_text(number: u64) -> (text: String)
    ensures
        text@ == decimal(number as nat),
{
    let mut text = String::new();
    push_decimal(&mut text, number);
    assert(Seq::<char>::empty() + decimal(number as nat) =~= decimal(number as nat));
    text
}

/// Where the last segment of a path begins, given that the segment that
/// holds position `position` begins at `start`.  Segments are separated by
/// `::`, and the separators are found from the left.
pub open spec fn last_segment_start(path: Seq<char>, position: int, start: int) -> int
    decreases path.len() - position,
{
    if position < 0 || position + 1 >= path.len() {
        start
    } else if path[position] == ':' && path[position + 1] == ':' {
        last_segment_start(path, position + 2, position + 2)
    } else {
        last_segment_start(path, position + 1, start)
    }
}

/// The last of the segments of a path that `::` separates: the whole of a
/// path without separator.
pub open spec fn last_segment(path: Seq<char>) -> Seq<char> {
    path.skip(last_segment_start(path, 0, 0))
}

/// The start of the last segment lies within the path.
pub proof fn lemma_last_segment_start_in_range(path: Seq<char>, position: int, start: int)
    requires
        0 <= start <= position <= path.len(),
    ensures
        start <= last_segment_start(path, position, start) <= path.len(),
    decreases path.len() - position,
{
    if position + 1 >= path.len() {
    } else if path[position] == ':' && path[position + 1] == ':' {
        lemma_last_segment_start_in_range(path, position + 2, position + 2);
    } else {
        lemma_last_segment_start_in_range(path, position + 1, start);
    }
}

/// Appends the last segment of a path to a text.
pub fn push_last_segment(text: &mut String, path: &str)
    ensures
        final(text)@ == old(text)@ + last_segment(path@),
{
    let length = path.unicode_len();
    let mut position: usize = 0;
    let mut start: usize = 0;
    while position < length && length - position >= 2
        invariant
            length == path@.len(),
            start <= position <= length,
            last_segment_start(path@, 0, 0) == last_segment_start(
                path@,
                position as int,
                start as int,
            ),
        decreases length - position,
    {
        if path.get_char(position) == ':' && path.get_char(position + 1) == ':' {
            position = position + 2;
            start = position;
        } else {
            position = position + 1;
        }
    }
    let mut next: usize = start;
    while next < length
        invariant
            length == path@.len(),
            start <= next <= length,
            text@ == old(text)@ + path@.subrange(start as int, next as int),
        decreases length - next,
    {
        text.push(path.get_char(next));
        proof {
            assert(path@.subrange(start as int, next + 1) =~= path@.subrange(
                start as int,
                next as int,
            ).push(path@[next as int]));
        }
        next = next + 1;
    }
    proof {
        assert(path@.subrange(start as int, length as int) =~= path@.skip(start as int));
    }
}

} // verus!
