//! Character classes of the surface syntax, built on the Unicode
//! `XID_Start` / `XID_Continue` properties.

use vstd::prelude::*;

verus! {

/// The canonical lambda character of the surface syntax.
pub const LAMBDA: char = 'λ';

/// Whether the character has the Unicode `XID_Start` property.
pub uninterp spec fn xid_start(c: char) -> bool;

/// Whether the character has the Unicode `XID_Continue` property.
pub uninterp spec fn xid_continue(c: char) -> bool;

/// Relies on `unicode_xid::UnicodeXID::is_xid_start`: whether the
/// character has the `XID_Start` property of Unicode Standard Annex 31,
/// a function of the character alone, read from the crate's tables.
#[verifier::external_body]
pub(crate) fn unicode_is_xid_start(c: char) -> (r: bool)
    ensures
        r == xid_start(c),
{
    unicode_xid::UnicodeXID::is_xid_start(c)
}

/// Relies on `unicode_xid::UnicodeXID::is_xid_continue`: whether the
/// character has the `XID_Continue` property of Unicode Standard Annex
/// 31, a function of the character alone, read from the crate's tables.
#[verifier::external_body]
pub(crate) fn unicode_is_xid_continue(c: char) -> (r: bool)
    ensures
        r == xid_continue(c),
{
    unicode_xid::UnicodeXID::is_xid_continue(c)
}

/// Whether `c` may start an identifier: an `XID_Start` character other
/// than the lambda character, or an ASCII digit.
pub fn is_xid_start(c: char) -> (r: bool)
    ensures
        r == (xid_start(c) && c != 'λ' || '0' <= c && c <= '9'),
{
    unicode_is_xid_start(c) && c != LAMBDA || matches!(c, '0'..='9')
}

/// Whether `c` may continue an identifier: an `XID_Continue` character
/// other than the lambda character.
pub fn is_xid_continue(c: char) -> (r: bool)
    ensures
        r == (xid_continue(c) && c != 'λ'),
{
    unicode_is_xid_continue(c) && c != LAMBDA
}

/// The ASCII symbol characters (after the Haskell 2010 report's
/// `ascSymbol`), without `&` and `.`, which the grammar claims, and with
/// `,` and `;`, which it leaves free.
pub open spec fn spec_ascii_symbol(c: char) -> bool {
    c == '!' || c == '#' || c == '$' || c == '%' || c == '⋆' || c == '+' || c == '/' || c == '<'
        || c == '=' || c == '>' || c == '?' || c == '@' || c == '\\' || c == '^' || c == '|' || c
        == '-' || c == '~' || c == ':' || c == ';' || c == ','
}

/// Whether `c` is one of the symbol characters usable in schemes.
pub fn is_ascii_symbol(c: char) -> (r: bool)
    ensures
        r == spec_ascii_symbol(c),
{
    matches!(
        c,
        '!' | '#' | '$' | '%' | '⋆' | '+' | '/' | '<' | '=' | '>' | '?' | '@' | '\\' | '^' | '|'
            | '-' | '~' | ':' | ';' | ',',
    )
}

} // verus!
