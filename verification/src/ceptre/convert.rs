//! From a program to the parts of a game.

use crate::ceptre::builtins::Builtins;
use crate::ceptre::ctypes::{cast, CeptreTypes};
use crate::ceptre::error::Error;
use crate::ceptre::json::{Annote, Predicate, Program, Rule, Stage};
use crate::ceptre::pred::{fact_of, names_of, parts_of, process_pred, CData};
use crate::ceptre::rules::{event_of, process_rule, CEvent};
use crate::ceptre::state::{process_state, query_names, state_outcome, Queries, State, StateRead};
use vstd::prelude::*;

verus! {

/// What a program says of a game: which types play which part, which
/// predicates stand for which facts, which events its rules stand for, and the
/// state in which the game begins.
#[derive(Debug)]
pub struct Ceptre {
    pub types: CeptreTypes,
    pub queries: Vec<(CData, Predicate)>,
    pub rules: Vec<CEvent>,
    pub init_state: State,
}

/// The fact that a predicate stands for, if it is marked as a query and stands
/// for one.
pub open spec fn query_of(types: CeptreTypes, pred: Predicate) -> Option<CData> {
    if pred.annote matches Some(Annote::Query(_)) {
        fact_of(
            names_of(parts_of(pred.terms@, types, pred.terms@.len() as int)).to_set(),
            types,
        )
    } else {
        None
    }
}

/// The queries among the first `n` predicates: for each that stands for a
/// fact, the fact and the name of the predicate, in order.
pub open spec fn queries_in(types: CeptreTypes, preds: Seq<Predicate>, n: int) -> Queries
    decreases n,
{
    if n <= 0 {
        Seq::empty()
    } else {
        match query_of(types, preds[n - 1]) {
            Some(kind) => queries_in(types, preds, n - 1).push((kind, preds[n - 1].name@)),
            None => queries_in(types, preds, n - 1),
        }
    }
}

/// The event that a rule stands for, if it is marked as an integration and
/// stands for one.
pub open spec fn integration_of(rule: Rule) -> Option<CEvent> {
    if rule.annote matches Some(Annote::Integration(_)) {
        event_of(rule)
    } else {
        None
    }
}

/// The events of the first `n` rules of a stage, in order.
pub open spec fn events_in(rules: Seq<Rule>, n: int) -> Seq<CEvent>
    decreases n,
{
    if n <= 0 {
        Seq::empty()
    } else {
        match integration_of(rules[n - 1]) {
            Some(event) => events_in(rules, n - 1).push(event),
            None => events_in(rules, n - 1),
        }
    }
}

/// The events of the first `n` stages, stage by stage.
pub open spec fn events_of(stages: Seq<Stage>, n: int) -> Seq<CEvent>
    decreases n,
{
    if n <= 0 {
        Seq::empty()
    } else {
        events_of(stages, n - 1) + events_in(stages[n - 1].body@, stages[n - 1].body@.len() as int)
    }
}

impl Ceptre {
    /// Works out what a program says of a game.
    ///
    /// The names of the natural numbers and the five parts must be found. Of
    /// the predicates, those marked as queries that stand for a fact are kept;
    /// of the rules, the events of those marked as integrations. The initial
    /// state is read from the atoms of the program.
    pub fn from_program(program: Program) -> (made: Result<Self, Error<'static>>)
        ensures
            match made {
                Ok(c) => {
                    &&& !Builtins::spec_missing(program.builtins@)
                    &&& cast(program.header.types@, c.types)
                    &&& query_names(c.queries@) == queries_in(
                        c.types,
                        program.header.preds@,
                        program.header.preds@.len() as int,
                    )
                    &&& c.rules@ == events_of(program.stages@, program.stages@.len() as int)
                    &&& state_outcome(c.types, query_names(c.queries@), program.init_state@)
                        == Ok::<_, Seq<char>>(c.init_state@)
                },
                Err(Error::BuiltinNotFound(_)) => Builtins::spec_missing(program.builtins@),
                Err(Error::TypeNotFound(_)) => !Builtins::spec_missing(program.builtins@)
                    && forall|types: CeptreTypes| !cast(program.header.types@, types),
                Err(Error::State(text)) => !Builtins::spec_missing(program.builtins@)
                    && exists|types: CeptreTypes|
                    #![auto]
                    cast(program.header.types@, types) && state_outcome(
                        types,
                        queries_in(
                            types,
                            program.header.preds@,
                            program.header.preds@.len() as int,
                        ),
                        program.init_state@,
                    ) == Err::<StateRead, _>(text@),
                Err(_) => false,
            },
    {
        let builtins = match Builtins::new(&program) {
            Ok(builtins) => builtins,
            Err(e) => {
                return Err(e);
            },
        };
        let types = match CeptreTypes::get_types(&program) {
            Ok(types) => types,
            Err(e) => {
                return Err(e);
            },
        };
        let mut queries: Vec<(CData, Predicate)> = Vec::new();
        assert(query_names(queries@) =~= Seq::<(CData, Seq<char>)>::empty());
        let mut k: usize = 0;
        while k < program.header.preds.len()
            invariant
                k <= program.header.preds@.len(),
                query_names(queries@) == queries_in(types, program.header.preds@, k as int),
            decreases program.header.preds@.len() - k,
        {
            let ghost before = query_names(queries@);
            let pred = &program.header.preds[k];
            if let Some(Annote::Query(_)) = pred.annote {
                if let Ok((kind, copy)) = process_pred(pred, &types) {
                    queries.push((kind, copy));
                    assert(query_names(queries@) =~= before.push((kind, pred.name@)));
                }
            }
            k += 1;
        }
        let mut rules: Vec<CEvent> = Vec::new();
        let mut s: usize = 0;
        while s < program.stages.len()
            invariant
                s <= program.stages@.len(),
                rules@ == events_of(program.stages@, s as int),
            decreases program.stages@.len() - s,
        {
            let ghost stages_before = rules@;
            let stage = &program.stages[s];
            let mut r: usize = 0;
            while r < stage.body.len()
                invariant
                    r <= stage.body@.len(),
                    rules@ == stages_before + events_in(stage.body@, r as int),
                decreases stage.body@.len() - r,
            {
                let rule = &stage.body[r];
                if let Some(Annote::Integration(_)) = rule.annote {
                    if let Ok(event) = process_rule(rule, &builtins, &types, &queries) {
                        rules.push(event);
                    }
                }
                r += 1;
                assert(rules@ =~= stages_before + events_in(stage.body@, r as int));
            }
            s += 1;
        }
        let init_state = match process_state(program.init_state, &types, &queries, rules.as_slice()) {
            Ok(state) => state,
            Err(e) => {
                return Err(e);
            },
        };
        Ok(Ceptre { types, queries, rules, init_state })
    }
}

impl State {
    /// The number of a room once the room of the player has been put first:
    /// the room of the player becomes room `0`, the rooms before it move up by
    /// one, and the rooms behind it keep their number.
    pub open spec fn spec_shift_room(&self, link_to: usize) -> int {
        if link_to == self.player.in_room {
            0
        } else if link_to > self.player.in_room {
            link_to as int
        } else {
            link_to + 1
        }
    }

    /// The number of a room once the room of the player has been put first.
    pub fn shift_room(&self, link_to: usize) -> (room: usize)
        ensures
            room == self.spec_shift_room(link_to),
    {
        if link_to == self.player.in_room {
            0
        } else if link_to > self.player.in_room {
            link_to
        } else {
            link_to + 1
        }
    }
}

} // verus!
