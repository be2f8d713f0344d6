//! Small helpers for building the textual encodings character by character.

use vstd::prelude::*;

verus! {

/// Relies on String::push: appends exactly the given character.
#[verifier::external_body]
pub fn push_char(s: &mut String, c: char)
    ensures
        final (s)@ == old(s)@.push(c),
{
    s.push(c);
}

/// Relies on String::push_str: appends exactly the given text.
#[verifier::external_body]
pub fn push_str(s: &mut String, t: &str)
    ensures
        final (s)@ == old(s)@ + t@,
{
    s.push_str(t);
}

/// The decimal digits of a value below one thousand.
pub open spec fn spec_num_chars(v: int) -> Seq<char> {
    if v >= 100 {
        seq![
            spec_digit_char(v / 100),
            spec_digit_char((v / 10) % 10),
            spec_digit_char(v % 10),
        ]
    } else if v >= 10 {
        seq![spec_digit_char(v / 10), spec_digit_char(v % 10)]
    } else {
        seq![spec_digit_char(v)]
    }
}

/// Append the decimal digits of a value below one thousand.
pub fn push_num(s: &mut String, v: u32)
    requires
        v < 1000,
    ensures
        final (s)@ == old(s)@ + spec_num_chars(v as int),
{
    if v >= 100 {
        push_char(s, digit_char((v / 100) as u8));
        push_char(s, digit_char(((v / 10) % 10) as u8));
        push_char(s, digit_char((v % 10) as u8));
    } else if v >= 10 {
        push_char(s, digit_char((v / 10) as u8));
        push_char(s, digit_char((v % 10) as u8));
    } else {
        push_char(s, digit_char(v as u8));
    }
    assert(s@ =~= old(s)@ + spec_num_chars(v as int));
}

/// The decimal digit character for a value below ten.
pub open spec fn spec_digit_char(d: int) -> char {
    if d == 0 {
        '0'
    } else if d == 1 {
        '1'
    } else if d == 2 {
        '2'
    } else if d == 3 {
        '3'
    } else if d == 4 {
        '4'
    } else if d == 5 {
        '5'
    } else if d == 6 {
        '6'
    } else if d == 7 {
        '7'
    } else if d == 8 {
        '8'
    } else {
        '9'
    }
}

pub fn digit_char(d: u8) -> (r: char)
    requires
        d < 10,
    ensures
        r == spec_digit_char(d as int),
{
    if d == 0 {
        '0'
    } else if d == 1 {
        '1'
    } else if d == 2 {
        '2'
    } else if d == 3 {
        '3'
    } else if d == 4 {
        '4'
    } else if d == 5 {
        '5'
    } else if d == 6 {
        '6'
    } else if d == 7 {
        '7'
    } else if d == 8 {
        '8'
    } else {
        '9'
    }
}

/// The numeric value of a decimal digit character, or ten for any other.
pub open spec fn spec_digit_val(c: char) -> int {
    if c == '0' {
        0
    } else if c == '1' {
        1
    } else if c == '2' {
        2
    } else if c == '3' {
        3
    } else if c == '4' {
        4
    } else if c == '5' {
        5
    } else if c == '6' {
        6
    } else if c == '7' {
        7
    } else if c == '8' {
        8
    } else if c == '9' {
        9
    } else {
        10
    }
}

pub fn digit_val(c: char) -> (r: usize)
    ensures
        r == spec_digit_val(c),
{
    if c == '0' {
        0
    } else if c == '1' {
        1
    } else if c == '2' {
        2
    } else if c == '3' {
        3
    } else if c == '4' {
        4
    } else if c == '5' {
        5
    } else if c == '6' {
        6
    } else if c == '7' {
        7
    } else if c == '8' {
        8
    } else if c == '9' {
        9
    } else {
        10
    }
}

} // verus!
