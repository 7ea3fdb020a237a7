//! Parser for script calls: an identifier followed by a flat list of
//! arguments, as in `say(2)` or `createcrewman,0,0,red,0,followplayer`.
//!
//! The characters `,`, `(` and `)` all mark the boundary between two
//! arguments; brackets are not matched against each other.

use vstd::prelude::*;
use grammar::{is_alphanumeric, is_plain, is_tight, CallView};

pub mod grammar;
pub mod laws;
pub mod lexer;
pub mod parser;
pub mod runs;

pub use parser::{
    argument, argument_maybe, argument_spaced, arguments, call, call_name, sep, sep_argument,
    sep_spaced,
};

verus! {

/// The one way in which parsing fails: the text at the current position is
/// not what the grammar asks for there.
#[derive(Debug, Clone, Copy, PartialEq, Eq)]
pub enum ParseError {
    NoMatch,
}

/// A call as it stands in a script: its name and its arguments in order,
/// each a slice of the text that was parsed.
#[derive(Debug, PartialEq, Eq)]
pub struct RawCall<'a> {
    pub name: &'a str,
    pub args: Vec<&'a str>,
}

impl<'a> RawCall<'a> {
    /// What holds of every call that was parsed: the name is a non-empty
    /// run of ASCII letters and digits, and no argument holds a separator
    /// or has whitespace at either end.
    pub open spec fn is_well_formed(&self) -> bool {
        &&& self@.name.len() > 0
        &&& forall|i: int| 0 <= i < self@.name.len() ==> is_alphanumeric(#[trigger] self@.name[i])
        &&& forall|k: int|
            0 <= k < self@.args.len() ==> is_plain(#[trigger] self@.args[k]) && is_tight(
                self@.args[k],
            )
    }
}

impl<'a> View for RawCall<'a> {
    type V = CallView;

    open spec fn view(&self) -> CallView {
        CallView { name: self.name@, args: parser::texts(self.args@) }
    }
}

} // verus!
