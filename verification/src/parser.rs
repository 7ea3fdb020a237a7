//! The parsers, each proved to compute its matcher of the grammar.

use vstd::prelude::*;
use crate::{ParseError, RawCall};
use crate::grammar::{
    argument_match, argument_maybe_match, argument_spaced_match, arguments_match, call_match,
    call_name_match, consumed, is_alphanumeric, is_separator, sep_argument_match, sep_match,
    sep_spaced_match, separator_count, skip_blanks, CallView, CharClass, Match,
};
use crate::laws::{
    lemma_arguments_match_separators, lemma_call_match_is_well_formed,
    lemma_sep_argument_takes_one_separator,
};
use crate::lexer::{alphanumeric1, is_not, space0, tag};
use crate::runs::lemma_run_of_split;

verus! {

/// What a parser returned, as the grammar sees it.
pub open spec fn outcome(r: Result<(&str, &str), ParseError>) -> Match {
    match r {
        Ok((rest, token)) => Some((rest@, token@)),
        Err(_) => None,
    }
}

/// The characters of each text of a list.
pub open spec fn texts(items: Seq<&str>) -> Seq<Seq<char>> {
    Seq::new(items.len(), |i: int| items[i]@)
}

/// What `call` returned, as the grammar sees it.
pub open spec fn call_outcome(r: Result<(&str, RawCall), ParseError>) -> Option<
    (Seq<char>, CallView),
> {
    match r {
        Ok((rest, call)) => Some((rest@, call@)),
        Err(_) => None,
    }
}

/// A pattern of one character stands at the head of a text exactly when
/// the text begins with that character.
proof fn lemma_single_prefix(pattern: Seq<char>, c: char, s: Seq<char>)
    requires
        pattern.len() == 1,
        pattern[0] == c,
    ensures
        pattern.is_prefix_of(s) <==> s.len() > 0 && s[0] == c,
        pattern.is_prefix_of(s) ==> pattern == s.take(1),
{
    if s.len() > 0 {
        assert(s.subrange(0, 1)[0] == s[0]);
        if s[0] == c {
            assert(pattern =~= s.subrange(0, 1));
        }
    }
}

/// Recognises one separator character and returns it as the token.
///
/// Succeeds exactly when `input` begins with `,`, `(` or `)`; the token is
/// then that one character and the rest is all that follows it.
pub fn sep(input: &str) -> (r: Result<(&str, &str), ParseError>)
    ensures
        outcome(r) == sep_match(input@),
        r is Ok <==> input@.len() > 0 && is_separator(input@[0]),
        r matches Ok((rest, token)) ==> token@ == seq![input@[0]] && rest@ == input@.skip(1),
{
    proof {
        reveal_strlit(",");
        reveal_strlit("(");
        reveal_strlit(")");
        lemma_single_prefix(","@, ',', input@);
        lemma_single_prefix("("@, '(', input@);
        lemma_single_prefix(")"@, ')', input@);
        if input@.len() > 0 {
            assert(input@.take(1) =~= seq![input@[0]]);
        }
    }
    match tag(input, ",") {
        Ok(found) => Ok(found),
        Err(_) => match tag(input, "(") {
            Ok(found) => Ok(found),
            Err(_) => match tag(input, ")") {
                Ok(found) => Ok(found),
                Err(_) => Err(ParseError::NoMatch),
            },
        },
    }
}

/// Recognises a separator with any number of spaces and tabs around it,
/// and returns the separator alone.
pub fn sep_spaced(input: &str) -> (r: Result<(&str, &str), ParseError>)
    ensures
        outcome(r) == sep_spaced_match(input@),
        r is Ok <==> sep_match(skip_blanks(input@)) is Some,
{
    let at_sep = match space0(input) {
        Ok((rest, blanks)) => {
            proof {
                lemma_run_of_split(blanks@, rest@, CharClass::Blank);
            }
            rest
        },
        Err(_) => {
            return Err(ParseError::NoMatch);
        },
    };
    let (after_sep, token) = match sep(at_sep) {
        Ok(found) => found,
        Err(e) => {
            return Err(e);
        },
    };
    match space0(after_sep) {
        Ok((rest, blanks)) => {
            proof {
                lemma_run_of_split(blanks@, rest@, CharClass::Blank);
            }
            Ok((rest, token))
        },
        Err(_) => Err(ParseError::NoMatch),
    }
}

/// Recognises the text up to the next separator or the end of the input.
/// Fails where that text is empty.
pub fn argument(input: &str) -> (r: Result<(&str, &str), ParseError>)
    ensures
        outcome(r) == argument_match(input@),
        r is Err <==> input@.len() == 0 || is_separator(input@[0]),
{
    proof {
        reveal_strlit(",()");
        assert forall|c: char| #[trigger] ",()"@.contains(c) <==> is_separator(c) by {
            if is_separator(c) {
                assert(",()"@[0] == ',' && ",()"@[1] == '(' && ",()"@[2] == ')');
            }
        }
    }
    match is_not(input, ",()") {
        Ok((rest, token)) => {
            proof {
                lemma_run_of_split(token@, rest@, CharClass::Text);
            }
            Ok((rest, token))
        },
        Err(_) => Err(ParseError::NoMatch),
    }
}

/// Recognises an argument and strips the whitespace from both of its ends.
/// Fails exactly when `argument` does.
pub fn argument_spaced(input: &str) -> (r: Result<(&str, &str), ParseError>)
    ensures
        outcome(r) == argument_spaced_match(input@),
        r is Ok <==> argument_match(input@) is Some,
{
    match argument(input) {
        Ok((rest, token)) => Ok((rest, token.trim())),
        Err(e) => Err(e),
    }
}

/// Recognises a trimmed argument, or, where there is none, the empty
/// argument without consuming anything. Never fails.
pub fn argument_maybe(input: &str) -> (r: Result<(&str, &str), ParseError>)
    ensures
        r matches Ok((rest, token)) && (rest@, token@) == argument_maybe_match(input@),
{
    proof {
        reveal_strlit("");
    }
    match argument_spaced(input) {
        Ok(found) => Ok(found),
        Err(_) => {
            assert(""@ =~= Seq::<char>::empty());
            Ok((input, ""))
        },
    }
}

/// Recognises a spaced separator and the argument behind it, which may be
/// empty, and returns the argument. Fails exactly when no separator stands
/// at the head of the input, blanks aside.
pub fn sep_argument(input: &str) -> (r: Result<(&str, &str), ParseError>)
    ensures
        outcome(r) == sep_argument_match(input@),
        r is Ok <==> sep_spaced_match(input@) is Some,
{
    match sep_spaced(input) {
        Ok((rest, _)) => argument_maybe(rest),
        Err(e) => Err(e),
    }
}

/// Recognises a call's name: the longest run of ASCII letters and digits.
/// Fails where the input does not begin with one.
pub fn call_name(input: &str) -> (r: Result<(&str, &str), ParseError>)
    ensures
        outcome(r) == call_name_match(input@),
        r is Err <==> input@.len() == 0 || !is_alphanumeric(input@[0]),
{
    match alphanumeric1(input) {
        Ok((rest, token)) => {
            proof {
                lemma_run_of_split(token@, rest@, CharClass::Alphanumeric);
            }
            Ok((rest, token))
        },
        Err(_) => Err(ParseError::NoMatch),
    }
}

/// Collects the argument of every separator from the head of the input on,
/// and stops, without failing, where no separator stands. Never fails; the
/// list is empty where the input does not begin with a separator.
pub fn arguments(input: &str) -> (r: Result<(&str, Vec<&str>), ParseError>)
    ensures
        r matches Ok((rest, args)) && (rest@, texts(args@)) == arguments_match(input@),
        r matches Ok((rest, args)) && args@.len() == separator_count(consumed(input@, rest@)),
{
    let mut rest = input;
    let mut args: Vec<&str> = Vec::new();
    loop
        invariant
            arguments_match(input@).0 == arguments_match(rest@).0,
            arguments_match(input@).1 == texts(args@) + arguments_match(rest@).1,
        decreases rest@.len(),
    {
        match sep_argument(rest) {
            Ok((next, argument)) => {
                proof {
                    lemma_sep_argument_takes_one_separator(rest@);
                    assert(texts(args@.push(argument)) =~= texts(args@) + seq![argument@]);
                    assert((texts(args@) + seq![argument@]) + arguments_match(next@).1
                        =~= texts(args@) + (seq![argument@] + arguments_match(next@).1));
                }
                args.push(argument);
                rest = next;
            },
            Err(_) => {
                proof {
                    assert(texts(args@) + Seq::<Seq<char>>::empty() =~= texts(args@));
                    lemma_arguments_match_separators(input@);
                }
                return Ok((rest, args));
            },
        }
    }
}

/// Parses a call: a name, then the arguments that follow it. Fails exactly
/// when the input does not begin with a name. Text behind the last argument
/// is returned unconsumed.
pub fn call(input: &str) -> (r: Result<(&str, RawCall), ParseError>)
    ensures
        call_outcome(r) == call_match(input@),
        r is Err <==> input@.len() == 0 || !is_alphanumeric(input@[0]),
        r matches Ok((rest, call)) ==> call.is_well_formed() && call.args@.len()
            == separator_count(consumed(input@, rest@)),
{
    proof {
        if call_match(input@) is Some {
            lemma_call_match_is_well_formed(input@);
        }
    }
    let (after_name, name) = match call_name(input) {
        Ok(found) => found,
        Err(e) => {
            return Err(e);
        },
    };
    match arguments(after_name) {
        Ok((rest, args)) => Ok((rest, RawCall { name, args })),
        Err(e) => Err(e),
    }
}

} // verus!
