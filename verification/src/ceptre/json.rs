//! A Ceptre program as data, in the shape in which it is written down.

use crate::ceptre::boxsy_info::LogicSet;
use vstd::prelude::*;

verus! {

/// The built-in types of Ceptre.
#[allow(non_camel_case_types)]
#[derive(Clone, Copy, PartialEq, Eq, Structural, Debug)]
pub enum BuiltinTypes {
    NAT,
    NAT_ZERO,
    NAT_SUCC,
}

impl BuiltinTypes {
    /// The name of the built-in type, as it is written in messages.
    pub fn name(&self) -> (name: &'static str)
        ensures
            name@ == match *self {
                BuiltinTypes::NAT => "BuiltinTypes::NAT"@,
                BuiltinTypes::NAT_ZERO => "BuiltinTypes::NAT_ZERO"@,
                BuiltinTypes::NAT_SUCC => "BuiltinTypes::NAT_SUCC"@,
            },
    {
        match self {
            BuiltinTypes::NAT => "BuiltinTypes::NAT",
            BuiltinTypes::NAT_ZERO => "BuiltinTypes::NAT_ZERO",
            BuiltinTypes::NAT_SUCC => "BuiltinTypes::NAT_SUCC",
        }
    }
}

/// The name that a program gives to a built-in type.
#[derive(Clone, Debug)]
pub struct Builtin {
    pub name: String,
    pub builtin: BuiltinTypes,
}

/// One way of making a value of a type: a name, and the types of what it is
/// applied to.
#[derive(Clone, Debug)]
pub struct Tp {
    pub name: String,
    pub args: Vec<String>,
}

/// What an annotation says of the thing it stands on, with the logics it
/// names.
#[derive(Clone, Copy, PartialEq, Eq, Structural, Debug)]
pub enum Annote {
    /// The thing belongs to these logics by its structure.
    Synthesis(LogicSet),
    /// The thing is data of these logics.
    Data(LogicSet),
    /// The thing belongs to these logics by its structure and is data of them.
    SynthData(LogicSet),
    /// The thing checks how these logics stand to each other while the game
    /// runs.
    Query(LogicSet),
    /// The thing changes one of these logics in answer to another.
    Integration(LogicSet),
}

impl Annote {
    /// The logics that the annotation names.
    pub open spec fn logics(self) -> LogicSet {
        match self {
            Annote::Integration(l) => l,
            Annote::Synthesis(l) => l,
            Annote::SynthData(l) => l,
            Annote::Query(l) => l,
            Annote::Data(l) => l,
        }
    }

    /// This annotation with other logics.
    pub open spec fn with_logics(self, logics: LogicSet) -> Annote {
        match self {
            Annote::Integration(_) => Annote::Integration(logics),
            Annote::Synthesis(_) => Annote::Synthesis(logics),
            Annote::SynthData(_) => Annote::SynthData(logics),
            Annote::Query(_) => Annote::Query(logics),
            Annote::Data(_) => Annote::Data(logics),
        }
    }

    /// The logics that the annotation names, to change in place.
    pub fn get_logics_mut(&mut self) -> (logics: &mut LogicSet)
        ensures
            *logics == old(self).logics(),
            *final(self) == old(self).with_logics(*final(logics)),
    {
        match self {
            Annote::Integration(l) => l,
            Annote::Synthesis(l) => l,
            Annote::SynthData(l) => l,
            Annote::Query(l) => l,
            Annote::Data(l) => l,
        }
    }

    /// The logics that the annotation names.
    pub fn get_logics(&self) -> (logics: &LogicSet)
        ensures
            *logics == self.logics(),
    {
        match self {
            Annote::Integration(l) => l,
            Annote::Synthesis(l) => l,
            Annote::SynthData(l) => l,
            Annote::Query(l) => l,
            Annote::Data(l) => l,
        }
    }
}

/// The text of an annotation, before it is read.
pub struct AnnoteString(pub String);

impl AnnoteString {
    pub fn new(s: &str) -> (text: Self)
        ensures
            text.0@ == s@,
    {
        Self(s.to_owned())
    }

    pub fn get_str(&self) -> (s: &str)
        ensures
            s@ == self.0@,
    {
        self.0.as_str()
    }
}

/// A type of the program, with the ways of making its values.
#[derive(Clone, Debug)]
pub struct Type {
    pub name: String,
    pub tp: Vec<Tp>,
    pub annote: Option<Annote>,
}

/// A term, as text.
#[derive(Clone, Debug)]
pub struct Term(pub String);

impl Term {
    /// The text of the term.
    pub fn str(&self) -> (s: &str)
        ensures
            s@ == self.0@,
    {
        self.0.as_str()
    }
}

/// A predicate: a name, and the types of its terms.
#[derive(Clone, Debug)]
pub struct Predicate {
    pub name: String,
    pub terms: Vec<Term>,
    pub annote: Option<Annote>,
}

/// What a program declares: its types and its predicates.
#[derive(Clone, Debug)]
pub struct Header {
    pub types: Vec<Type>,
    pub preds: Vec<Predicate>,
}

/// A backward-chaining rule. Nothing of it is read.
#[derive(Clone, Copy, Debug)]
pub struct BwdRule {

}

/// How a stage picks among the rules that can fire.
#[derive(Clone, Copy, PartialEq, Eq, Structural, Debug)]
pub enum Nondet {
    Random,
    Interactive,
    Ordered,
}

/// Whether an atom is used up when a rule reads it.
#[derive(Clone, Copy, PartialEq, Eq, Structural, Debug)]
pub enum Mode {
    /// The atom stays.
    Pers,
    /// The atom is used up.
    Lin,
}

/// A predicate applied to terms.
#[derive(Clone, Debug)]
pub struct Atom {
    pub name: String,
    pub mode: Mode,
    pub terms: Vec<Term>,
}

/// A rule: what it uses up and what it produces.
#[derive(Clone, Debug)]
pub struct Rule {
    pub name: String,
    pub pivars: u32,
    pub lhs: Vec<Atom>,
    pub rhs: Vec<Atom>,
    pub annote: Option<Annote>,
}

/// A stage: a named set of rules.
#[derive(Clone, Debug)]
pub struct Stage {
    pub name: String,
    pub nondet: Nondet,
    pub body: Vec<Rule>,
}

/// A rule that leads from one stage to another.
#[derive(Clone, Debug)]
pub struct StageRule {
    pub name: String,
    pub pivars: u32,
    pub pre_stage: String,
    pub post_stage: String,
    pub lhs: Vec<Atom>,
    pub rhs: Vec<Atom>,
}

/// A whole program.
#[derive(Clone, Debug)]
pub struct Program {
    pub builtins: Vec<Builtin>,
    pub header: Header,
    pub bwd_rules: Vec<BwdRule>,
    /// The stages, ordered by name, each name once.
    pub stages: Vec<Stage>,
    pub links: Vec<StageRule>,
    pub init_stage: String,
    pub init_state: Vec<Atom>,
}

} // verus!
