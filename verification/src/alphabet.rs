//! The 62-symbol alphabet of the course text.

use vstd::prelude::*;

verus! {

/// The symbol written for a number outside the alphabet.
pub const FALLBACK: char = '~';

/// The symbol for `i`: lower-case letters for `0..26`, upper-case letters
/// for `26..52`, digits for `52..62`, and the fallback for everything else.
pub open spec fn symbol_of(i: int) -> char {
    if 0 <= i < 26 {
        ('a' as int + i) as char
    } else if 26 <= i < 52 {
        ('A' as int + (i - 26)) as char
    } else if 52 <= i < 62 {
        ('0' as int + (i - 52)) as char
    } else {
        FALLBACK
    }
}

/// The symbol written for `index`.
pub fn symbol(index: i32) -> (c: char)
    ensures
        c == symbol_of(index as int),
{
    if 0 <= index && index < 26 {
        ('a' as u8 + index as u8) as char
    } else if 26 <= index && index < 52 {
        ('A' as u8 + (index - 26) as u8) as char
    } else if 52 <= index && index < 62 {
        ('0' as u8 + (index - 52) as u8) as char
    } else {
        FALLBACK
    }
}

/// The number read from `c`: its position in the alphabet, and 0 for a
/// character that is not in it.
pub open spec fn code_of(c: char) -> int {
    if 'a' <= c <= 'z' {
        c as int - 'a' as int
    } else if 'A' <= c <= 'Z' {
        26 + (c as int - 'A' as int)
    } else if '0' <= c <= '9' {
        52 + (c as int - '0' as int)
    } else {
        0
    }
}

/// What is left of `i` after it was written and read again: `i` itself
/// inside the alphabet, 0 outside.
pub open spec fn squash(i: int) -> int {
    if 0 <= i < 62 {
        i
    } else {
        0
    }
}

/// `String::push` of the standard library: afterwards the string holds the
/// characters it held before, followed by `ch`.
pub assume_specification[ String::push ](s: &mut String, ch: char)
    ensures
        final(s)@ == old(s)@.push(ch),
;

/// The one-character text for `index`.
pub fn char_i(index: i32) -> (s: String)
    ensures
        s@ == seq![symbol_of(index as int)],
{
    let mut s = String::new();
    s.push(symbol(index));
    s
}

/// The number that the character `c` stands for.
pub fn i_char(c: char) -> (i: i32)
    ensures
        i == code_of(c),
        0 <= i < 62,
{
    if 'a' <= c && c <= 'z' {
        (c as u32 - 'a' as u32) as i32
    } else if 'A' <= c && c <= 'Z' {
        (26 + (c as u32 - 'A' as u32)) as i32
    } else if '0' <= c && c <= '9' {
        (52 + (c as u32 - '0' as u32)) as i32
    } else {
        0
    }
}

/// Reading a written number gives the number back inside the alphabet and
/// 0 outside; in particular the fallback symbol reads as 0.
pub proof fn lemma_code_of_symbol(i: int)
    ensures
        code_of(symbol_of(i)) == squash(i),
        0 <= code_of(symbol_of(i)) < 62,
{
}

/// Written one after the other, the 62 symbols spell the lower-case
/// letters, the upper-case letters and the digits.
pub proof fn lemma_alphabet_text()
    ensures
        "abcdefghijklmnopqrstuvwxyzABCDEFGHIJKLMNOPQRSTUVWXYZ0123456789"@ == Seq::new(
            62,
            |i: int| symbol_of(i),
        ),
{
    reveal_strlit("abcdefghijklmnopqrstuvwxyzABCDEFGHIJKLMNOPQRSTUVWXYZ0123456789");
    assert("abcdefghijklmnopqrstuvwxyzABCDEFGHIJKLMNOPQRSTUVWXYZ0123456789"@ =~= Seq::new(
        62,
        |i: int| symbol_of(i),
    ));
}

} // verus!
