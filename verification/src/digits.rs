//! The decimal digits of all scripts.

use vstd::prelude::*;

verus! {

/// The characters of Unicode's category `Decimal_Number`, as of version 16.
#[verifier::opaque]
pub open spec fn is_decimal_digit(c: char) -> bool {
    ||| '0' <= c <= '9'
    ||| '\u{660}' <= c <= '\u{669}'
    ||| '\u{6f0}' <= c <= '\u{6f9}'
    ||| '\u{7c0}' <= c <= '\u{7c9}'
    ||| '\u{966}' <= c <= '\u{96f}'
    ||| '\u{9e6}' <= c <= '\u{9ef}'
    ||| '\u{a66}' <= c <= '\u{a6f}'
    ||| '\u{ae6}' <= c <= '\u{aef}'
    ||| '\u{b66}' <= c <= '\u{b6f}'
    ||| '\u{be6}' <= c <= '\u{bef}'
    ||| '\u{c66}' <= c <= '\u{c6f}'
    ||| '\u{ce6}' <= c <= '\u{cef}'
    ||| '\u{d66}' <= c <= '\u{d6f}'
    ||| '\u{de6}' <= c <= '\u{def}'
    ||| '\u{e50}' <= c <= '\u{e59}'
    ||| '\u{ed0}' <= c <= '\u{ed9}'
    ||| '\u{f20}' <= c <= '\u{f29}'
    ||| '\u{1040}' <= c <= '\u{1049}'
    ||| '\u{1090}' <= c <= '\u{1099}'
    ||| '\u{17e0}' <= c <= '\u{17e9}'
    ||| '\u{1810}' <= c <= '\u{1819}'
    ||| '\u{1946}' <= c <= '\u{194f}'
    ||| '\u{19d0}' <= c <= '\u{19d9}'
    ||| '\u{1a80}' <= c <= '\u{1a89}'
    ||| '\u{1a90}' <= c <= '\u{1a99}'
    ||| '\u{1b50}' <= c <= '\u{1b59}'
    ||| '\u{1bb0}' <= c <= '\u{1bb9}'
    ||| '\u{1c40}' <= c <= '\u{1c49}'
    ||| '\u{1c50}' <= c <= '\u{1c59}'
    ||| '\u{a620}' <= c <= '\u{a629}'
    ||| '\u{a8d0}' <= c <= '\u{a8d9}'
    ||| '\u{a900}' <= c <= '\u{a909}'
    ||| '\u{a9d0}' <= c <= '\u{a9d9}'
    ||| '\u{a9f0}' <= c <= '\u{a9f9}'
    ||| '\u{aa50}' <= c <= '\u{aa59}'
    ||| '\u{abf0}' <= c <= '\u{abf9}'
    ||| '\u{ff10}' <= c <= '\u{ff19}'
    ||| '\u{104a0}' <= c <= '\u{104a9}'
    ||| '\u{10d30}' <= c <= '\u{10d39}'
    ||| '\u{10d40}' <= c <= '\u{10d49}'
    ||| '\u{11066}' <= c <= '\u{1106f}'
    ||| '\u{110f0}' <= c <= '\u{110f9}'
    ||| '\u{11136}' <= c <= '\u{1113f}'
    ||| '\u{111d0}' <= c <= '\u{111d9}'
    ||| '\u{112f0}' <= c <= '\u{112f9}'
    ||| '\u{11450}' <= c <= '\u{11459}'
    ||| '\u{114d0}' <= c <= '\u{114d9}'
    ||| '\u{11650}' <= c <= '\u{11659}'
    ||| '\u{116c0}' <= c <= '\u{116c9}'
    ||| '\u{116d0}' <= c <= '\u{116e3}'
    ||| '\u{11730}' <= c <= '\u{11739}'
    ||| '\u{118e0}' <= c <= '\u{118e9}'
    ||| '\u{11950}' <= c <= '\u{11959}'
    ||| '\u{11bf0}' <= c <= '\u{11bf9}'
    ||| '\u{11c50}' <= c <= '\u{11c59}'
    ||| '\u{11d50}' <= c <= '\u{11d59}'
    ||| '\u{11da0}' <= c <= '\u{11da9}'
    ||| '\u{11f50}' <= c <= '\u{11f59}'
    ||| '\u{16130}' <= c <= '\u{16139}'
    ||| '\u{16a60}' <= c <= '\u{16a69}'
    ||| '\u{16ac0}' <= c <= '\u{16ac9}'
    ||| '\u{16b50}' <= c <= '\u{16b59}'
    ||| '\u{16d70}' <= c <= '\u{16d79}'
    ||| '\u{1ccf0}' <= c <= '\u{1ccf9}'
    ||| '\u{1d7ce}' <= c <= '\u{1d7ff}'
    ||| '\u{1e140}' <= c <= '\u{1e149}'
    ||| '\u{1e2f0}' <= c <= '\u{1e2f9}'
    ||| '\u{1e4f0}' <= c <= '\u{1e4f9}'
    ||| '\u{1e5f1}' <= c <= '\u{1e5fa}'
    ||| '\u{1e950}' <= c <= '\u{1e959}'
    ||| '\u{1fbf0}' <= c <= '\u{1fbf9}'
}

/// The digits of ASCII are digits. All others stand far behind it.
pub proof fn lemma_digits_of_ascii(c: char)
    ensures
        (c as int) < 0x660 ==> (is_decimal_digit(c) <==> '0' <= c <= '9'),
{
    reveal(is_decimal_digit);
}

} // verus!
