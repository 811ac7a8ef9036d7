//! Specifications for the functions of `std` that the scanner calls and that
//! `vstd` leaves unspecified. Nothing in this file is proved: every contract
//! here is an assumption about `std`.

use vstd::prelude::*;

verus! {

/// What `char::is_whitespace` answers for `c`: whether `c` has the Unicode
/// `White_Space` property.
pub uninterp spec fn is_whitespace_char(c: char) -> bool;

/// What `char::is_alphabetic` answers for `c`: whether `c` has the Unicode
/// `Alphabetic` property.
pub uninterp spec fn is_alphabetic_char(c: char) -> bool;

/// What `char::is_numeric` answers for `c`: whether `c` is in one of the
/// Unicode general categories for numbers (`Nd`, `Nl`, `No`).
pub uninterp spec fn is_numeric_char(c: char) -> bool;

/// `char::is_whitespace` is a function of the character alone; its answer is
/// named [`is_whitespace_char`]. Nothing else is assumed about it.
pub assume_specification[ char::is_whitespace ](c: char) -> (b: bool)
    ensures
        b == is_whitespace_char(c),
;

/// `char::is_alphabetic` is a function of the character alone; its answer is
/// named [`is_alphabetic_char`]. Nothing else is assumed about it.
pub assume_specification[ char::is_alphabetic ](c: char) -> (b: bool)
    ensures
        b == is_alphabetic_char(c),
;

/// `char::is_numeric` is a function of the character alone; its answer is
/// named [`is_numeric_char`]. Nothing else is assumed about it.
pub assume_specification[ char::is_numeric ](c: char) -> (b: bool)
    ensures
        b == is_numeric_char(c),
;

/// `String::push` appends `ch` to the end of the string and leaves the
/// characters before it as they were.
pub assume_specification[ String::push ](s: &mut String, ch: char)
    ensures
        final(s)@ == old(s)@.push(ch),
;

/// `==` on `str` holds exactly when the two strings are the same sequence of
/// characters.
pub assume_specification[ <str as PartialEq>::eq ](a: &str, b: &str) -> (r: bool)
    ensures
        r == (a@ == b@),
;

} // verus!
