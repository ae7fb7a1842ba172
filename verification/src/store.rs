//! The compact string that holds an identifier's text.
//!
//! `smol_str::SmolStr` keeps short strings inline, which is what identifiers
//! are. Nothing of its inside is visible here: the items below state, without
//! proof, that it gives back the text it was made from.

use vstd::prelude::*;
use smol_str::SmolStr;

verus! {

/// `smol_str::SmolStr`, carried as an opaque value.
#[verifier::external_type_specification]
#[verifier::external_body]
pub struct ExSmolStr(smol_str::SmolStr);

/// The characters that a `SmolStr` holds.
pub uninterp spec fn smol_text(s: SmolStr) -> Seq<char>;

/// `SmolStr::new`: the new string holds exactly the characters of `text`.
#[verifier::external_body]
pub(crate) fn smol_new(text: &str) -> (s: SmolStr)
    ensures
        smol_text(s) == text@,
{
    SmolStr::new(text)
}

/// `SmolStr::as_str`: a view of the characters held, unchanged.
#[verifier::external_body]
pub(crate) fn smol_as_str(s: &SmolStr) -> (text: &str)
    ensures
        text@ == smol_text(*s),
{
    s.as_str()
}

/// `String::from` on a `SmolStr`: an owned string with the characters held.
#[verifier::external_body]
pub(crate) fn smol_into_string(s: SmolStr) -> (text: String)
    ensures
        text@ == smol_text(s),
{
    String::from(s)
}

/// `SmolStr::clone`: the copy holds the same characters.
pub assume_specification[ <SmolStr as Clone>::clone ](s: &SmolStr) -> (copy: SmolStr)
    ensures
        smol_text(copy) == smol_text(*s),
;

/// `SmolStr`'s `==` on two of its own: true exactly when both hold the same
/// characters, whether they are kept inline or on the heap.
pub assume_specification[ <SmolStr as PartialEq<SmolStr>>::eq ](a: &SmolStr, b: &SmolStr) -> (same:
    bool)
    ensures
        same == (smol_text(*a) == smol_text(*b)),
;

} // verus!
