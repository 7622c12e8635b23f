//! Which event of the game a rule stands for.

use crate::ceptre::boxsy_info::{Event, GameType};
use crate::ceptre::builtins::Builtins;
use crate::ceptre::ctypes::CeptreTypes;
use crate::ceptre::error::Error;
use crate::ceptre::json::{Predicate, Rule};
use crate::ceptre::pred::CData;
use vstd::prelude::*;

verus! {

/// An event of the game, as a rule describes it.
#[derive(Clone, Copy, PartialEq, Eq, Structural, Debug)]
pub enum CEvent {
    /// Something passes from one kind of thing to another.
    ChangeResource { giver: GameType, receiver: GameType, amount: i16 },
    /// The player goes to another room.
    MoveRoom,
}

/// The event that a rule with the given annotation stands for: a change of
/// resources where the annotation names the logics of one, a move to another
/// room where it names the logics of that, and else none.
pub open spec fn event_of(r: Rule) -> Option<CEvent> {
    match r.annote {
        Some(a) => if a.logics()@ == Event::ChangeResource.spec_associated_logics() {
            Some(
                CEvent::ChangeResource {
                    giver: GameType::Character,
                    receiver: GameType::Player,
                    amount: 1,
                },
            )
        } else if a.logics()@ == Event::MoveRoom.spec_associated_logics() {
            Some(CEvent::MoveRoom)
        } else {
            None
        },
        None => None,
    }
}

/// Works out which event a rule stands for, from the logics that its
/// annotation names. A rule that stands for none is an error, which carries the
/// name of the rule.
pub fn process_rule<'a>(
    r: &'a Rule,
    builtins: &'a Builtins,
    types: &'a CeptreTypes,
    queries: &'a Vec<(CData, Predicate)>,
) -> (event: Result<CEvent, Error<'a>>)
    ensures
        match event {
            Ok(e) => event_of(*r) == Some(e),
            Err(Error::RuleNotFound(name)) => event_of(*r).is_none() && name@ == r.name@,
            Err(_) => false,
        },
{
    if let Some(a) = &r.annote {
        let logics = a.get_logics();
        let change = Event::ChangeResource.associated_logics();
        let go = Event::MoveRoom.associated_logics();
        proof {
            logics.lemma_equal_views(change);
            logics.lemma_equal_views(go);
        }
        if *logics == change {
            return Ok(
                CEvent::ChangeResource {
                    giver: GameType::Character,
                    receiver: GameType::Player,
                    amount: 1,
                },
            );
        } else if *logics == go {
            return Ok(CEvent::MoveRoom);
        }
    }
    Err(Error::RuleNotFound(r.name.as_str()))
}

} // verus!
