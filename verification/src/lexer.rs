//! The character-level matchers, taken from `nom` and `std`.
//!
//! Nothing in this file is proved: each contract restates what the called
//! function is documented to do, and the parsers are proved against it.

use vstd::prelude::*;
use crate::grammar::{is_alphanumeric, is_blank, trimmed};

verus! {

/// `nom::Err`, the failure of a `nom` parser. Carried through, never read.
#[verifier::external_type_specification]
#[verifier::external_body]
#[verifier::reject_recursive_types(E)]
pub struct ExNomErr<E>(nom::Err<E>);

/// `nom::error::Error`, the position and code of a `nom` failure. Carried
/// through, never read.
#[verifier::external_type_specification]
#[verifier::external_body]
#[verifier::reject_recursive_types(I)]
pub struct ExNomError<I>(nom::error::Error<I>);

/// Calls `nom::bytes::complete::tag`. It succeeds exactly when `input`
/// begins with `pattern`, and then splits `input` right after it.
#[verifier::external_body]
pub(crate) fn tag<'a>(input: &'a str, pattern: &str) -> (r: Result<
    (&'a str, &'a str),
    nom::Err<nom::error::Error<&'a str>>,
>)
    ensures
        match r {
            Ok((rest, token)) => {
                &&& pattern@.is_prefix_of(input@)
                &&& token@ == pattern@
                &&& rest@ == input@.skip(pattern@.len() as int)
            },
            Err(_) => !pattern@.is_prefix_of(input@),
        },
{
    nom::bytes::complete::tag(pattern)(input)
}

/// Calls `nom::bytes::complete::is_not`. It splits `input` before the first
/// character that occurs in `stops`, or at the end where there is none, and
/// fails exactly when that leaves an empty token.
#[verifier::external_body]
pub(crate) fn is_not<'a>(input: &'a str, stops: &str) -> (r: Result<
    (&'a str, &'a str),
    nom::Err<nom::error::Error<&'a str>>,
>)
    ensures
        match r {
            Ok((rest, token)) => {
                &&& token@ + rest@ == input@
                &&& token@.len() > 0
                &&& forall|i: int| 0 <= i < token@.len() ==> !stops@.contains(#[trigger] token@[i])
                &&& rest@.len() > 0 ==> stops@.contains(rest@[0])
            },
            Err(_) => input@.len() == 0 || stops@.contains(input@[0]),
        },
{
    nom::bytes::complete::is_not(stops)(input)
}

/// Calls `nom::character::complete::alphanumeric1`. It splits `input`
/// before the first character that is no ASCII letter or digit, or at the
/// end where there is none, and fails exactly when that leaves an empty
/// token.
#[verifier::external_body]
pub(crate) fn alphanumeric1<'a>(input: &'a str) -> (r: Result<
    (&'a str, &'a str),
    nom::Err<nom::error::Error<&'a str>>,
>)
    ensures
        match r {
            Ok((rest, token)) => {
                &&& token@ + rest@ == input@
                &&& token@.len() > 0
                &&& forall|i: int| 0 <= i < token@.len() ==> is_alphanumeric(#[trigger] token@[i])
                &&& rest@.len() > 0 ==> !is_alphanumeric(rest@[0])
            },
            Err(_) => input@.len() == 0 || !is_alphanumeric(input@[0]),
        },
{
    nom::character::complete::alphanumeric1(input)
}

/// Calls `nom::character::complete::space0`. It always succeeds, and splits
/// `input` before the first character that is neither a space nor a tab, or
/// at the end where there is none.
#[verifier::external_body]
pub(crate) fn space0<'a>(input: &'a str) -> (r: Result<
    (&'a str, &'a str),
    nom::Err<nom::error::Error<&'a str>>,
>)
    ensures
        match r {
            Ok((rest, token)) => {
                &&& token@ + rest@ == input@
                &&& forall|i: int| 0 <= i < token@.len() ==> is_blank(#[trigger] token@[i])
                &&& rest@.len() > 0 ==> !is_blank(rest@[0])
            },
            Err(_) => false,
        },
{
    nom::character::complete::space0(input)
}

/// `str::trim` returns the slice of `text` that is left when the
/// characters with the Unicode property `White_Space` are removed from its
/// two ends.
pub assume_specification<'a>[ str::trim ](text: &'a str) -> (r: &'a str)
    ensures
        r@ == trimmed(text@),
;

} // verus!
