//! Operational logics for small games, with their rules proved.
//!
//! A game built from these pieces has no single `update` that knows
//! everything. Its loop sets up a handful of logics, tells each what changed,
//! lets each take its step, and reads back what happened.

use vstd::prelude::*;

pub mod boxsy;
pub mod ceptre;
pub mod collision;
pub mod control;
pub mod entity_state;
pub mod geometry;
pub mod graph;
pub mod graphics;
pub mod lending_iterator;
pub mod linking;
pub mod paddles;
pub mod physics;
pub mod resources;
pub mod tilemap;

pub use lending_iterator::LendingIterator;

verus! {

/// The kinds of event that a logic reports.
pub trait EventType {

}

/// Something that happened in a logic during its step.
pub trait Event {
    type EventType: EventType;

    /// What kind of event this is.
    fn get_type(&self) -> &Self::EventType;
}

/// A change that a logic can be told to make.
pub trait Reaction {

}

/// An operational logic: a part of a game that keeps some state, takes a step
/// on it, reports what happened, and accepts changes from outside.
pub trait Logic {
    /// The events that this logic reports.
    type Event: Event + Copy;

    /// The changes that this logic accepts.
    type Reaction: Reaction;

    /// What names one unit of the logic.
    type Ident: Copy;

    /// What the logic holds of one unit.
    type IdentData<'logic> where Self: 'logic;

    /// A walk over all units, each with what names it.
    type DataIter<'logic> where Self: 'logic;

    /// The logic is in a state that its functions can work on. Unless a logic
    /// says otherwise, it always is.
    open spec fn wf(&self) -> bool {
        true
    }

    /// The reaction can be applied to the logic as it stands. Unless a logic
    /// says otherwise, every reaction can.
    open spec fn accepts(&self, reaction: &Self::Reaction) -> bool {
        true
    }

    /// `ident` names a unit of the logic. Unless a logic says otherwise, every
    /// value does.
    open spec fn has(&self, ident: Self::Ident) -> bool {
        true
    }

    /// Applies a reaction, at once.
    fn handle_predicate(&mut self, reaction: &Self::Reaction)
        requires
            old(self).wf(),
            old(self).accepts(reaction),
        ensures
            final(self).wf(),
    ;

    /// What the logic holds of one unit.
    fn get_ident_data(&mut self, ident: Self::Ident) -> Self::IdentData<'_>
        requires
            old(self).wf(),
            old(self).has(ident),
    ;

    /// A walk over all units.
    fn data_iter(&mut self) -> Self::DataIter<'_>
        requires
            old(self).wf(),
    ;

    /// What happened in the last step.
    fn events(&self) -> &[Self::Event];
}

} // verus!
