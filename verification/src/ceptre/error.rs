//! What can go wrong when a program is turned into a game.

use crate::ceptre::boxsy_info::GameType;
use crate::ceptre::json::BuiltinTypes;
use vstd::prelude::*;

verus! {

/// The errors of this part of the library.
#[derive(Clone, Copy, Debug)]
pub enum Error<'e> {
    /// The command line was not as expected.
    CommandLine(&'e str),
    /// An annotation could not be read.
    Parse,
    /// The program does not name a built-in type.
    BuiltinNotFound(BuiltinTypes),
    /// No type of the program plays the part of a kind of thing in the game.
    TypeNotFound(GameType),
    /// A rule is none of the events of the game.
    RuleNotFound(&'e str),
    /// A predicate is none of the facts of the game.
    PredNotFound(&'e str),
    /// The initial state could not be set up.
    State(&'e str),
    /// Anything else.
    Custom(&'e str),
}

/// Whether two texts are the same.
pub fn same_text(a: &str, b: &str) -> (same: bool)
    ensures
        same == (a@ == b@),
{
    a.to_owned() == b.to_owned()
}

} // verus!
