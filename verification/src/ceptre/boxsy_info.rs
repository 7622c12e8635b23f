//! What a room-and-tile game is made of, and which logics each part needs.

use crate::ceptre::error::same_text;
use vstd::prelude::*;

verus! {

/// The kinds of thing in a game.
#[derive(Clone, Copy, PartialEq, Eq, Structural, Debug)]
pub enum GameType {
    Character,
    Tile,
    Player,
    Rsrc,
    Room,
}

/// The logics that a game is built from.
#[derive(Clone, Copy, PartialEq, Eq, PartialOrd, Ord, Structural, Debug)]
pub enum Logic {
    Collision,
    Control,
    Linking,
    Resource,
}

/// The kinds of thing that happen in a game.
#[derive(Clone, Copy, PartialEq, Eq, Structural, Debug)]
pub enum Event {
    ChangeResource,
    MoveRoom,
}

/// A set of logics.
#[derive(Clone, Copy, PartialEq, Eq, Structural, Debug)]
pub struct LogicSet {
    pub collision: bool,
    pub control: bool,
    pub linking: bool,
    pub resource: bool,
}

impl View for LogicSet {
    type V = Set<Logic>;

    /// The logics that are in the set.
    open spec fn view(&self) -> Set<Logic> {
        Set::new(|logic: Logic| self.spec_contains(logic))
    }
}

impl LogicSet {
    /// `logic` is in the set.
    pub open spec fn spec_contains(self, logic: Logic) -> bool {
        match logic {
            Logic::Collision => self.collision,
            Logic::Control => self.control,
            Logic::Linking => self.linking,
            Logic::Resource => self.resource,
        }
    }

    /// The set without logics.
    pub open spec fn spec_new() -> LogicSet {
        LogicSet { collision: false, control: false, linking: false, resource: false }
    }

    /// This set and `logic`.
    pub open spec fn spec_with(self, logic: Logic) -> LogicSet {
        match logic {
            Logic::Collision => LogicSet { collision: true, ..self },
            Logic::Control => LogicSet { control: true, ..self },
            Logic::Linking => LogicSet { linking: true, ..self },
            Logic::Resource => LogicSet { resource: true, ..self },
        }
    }

    /// The set without logics.
    #[verifier::when_used_as_spec(spec_new)]
    pub fn new() -> (set: Self)
        ensures
            set == LogicSet::spec_new(),
            set@ == Set::<Logic>::empty(),
            forall|logic: Logic| !set.spec_contains(logic),
    {
        let set = Self { collision: false, control: false, linking: false, resource: false };
        assert(set@ =~= Set::<Logic>::empty());
        set
    }

    /// Whether `logic` is in the set.
    #[verifier::when_used_as_spec(spec_contains)]
    pub fn contains(self, logic: Logic) -> (found: bool)
        ensures
            found == self.spec_contains(logic),
            found == self@.contains(logic),
    {
        match logic {
            Logic::Collision => self.collision,
            Logic::Control => self.control,
            Logic::Linking => self.linking,
            Logic::Resource => self.resource,
        }
    }

    /// Puts `logic` into the set.
    pub fn insert(&mut self, logic: Logic)
        ensures
            *final(self) == old(self).spec_with(logic),
            final(self)@ == old(self)@.insert(logic),
    {
        match logic {
            Logic::Collision => {
                self.collision = true;
            },
            Logic::Control => {
                self.control = true;
            },
            Logic::Linking => {
                self.linking = true;
            },
            Logic::Resource => {
                self.resource = true;
            },
        }
        assert(self@ =~= old(self)@.insert(logic));
    }

    /// The set of the logics in `logics`.
    pub fn from_logics(logics: &[Logic]) -> (set: Self)
        ensures
            set@ == logics@.to_set(),
    {
        let mut set = LogicSet::new();
        let mut k: usize = 0;
        while k < logics.len()
            invariant
                k <= logics@.len(),
                forall|l: Logic|
                    set.spec_contains(l) <==> exists|at: int|
                        0 <= at < k && #[trigger] logics@[at] == l,
            decreases logics@.len() - k,
        {
            let ghost before = set;
            set.insert(logics[k]);
            assert forall|l: Logic|
                set.spec_contains(l) <==> exists|at: int|
                    0 <= at < k + 1 && #[trigger] logics@[at] == l by {
                assert(set@.contains(l) == (before@.contains(l) || l == logics@[k as int]));
                if before.spec_contains(l) {
                    let at = choose|at: int| 0 <= at < k && #[trigger] logics@[at] == l;
                    assert(0 <= at < k + 1 && logics@[at] == l);
                }
                if l == logics@[k as int] {
                    assert(0 <= k < k + 1 && logics@[k as int] == l);
                }
            }
            k += 1;
        }
        assert(set@ =~= logics@.to_set()) by {
            assert forall|l: Logic| set@.contains(l) <==> logics@.to_set().contains(l) by {
                if logics@.contains(l) {
                    let at = choose|at: int| 0 <= at < logics@.len() && logics@[at] == l;
                    assert(0 <= at < k && logics@[at] == l);
                }
            }
        }
        set
    }

    /// Two sets hold the same logics exactly when they are equal as values.
    pub proof fn lemma_equal_views(self, other: LogicSet)
        ensures
            (self@ == other@) <==> (self == other),
    {
        if self@ == other@ {
            assert(self@.contains(Logic::Collision) == other@.contains(Logic::Collision));
            assert(self@.contains(Logic::Control) == other@.contains(Logic::Control));
            assert(self@.contains(Logic::Linking) == other@.contains(Logic::Linking));
            assert(self@.contains(Logic::Resource) == other@.contains(Logic::Resource));
        }
    }
}

impl GameType {
    /// The logics that a thing of this kind takes part in.
    pub open spec fn spec_associated_logics(self) -> Set<Logic> {
        match self {
            GameType::Player => set![Logic::Collision, Logic::Control, Logic::Resource],
            GameType::Tile => set![Logic::Collision, Logic::Linking],
            GameType::Character => set![Logic::Collision, Logic::Resource, Logic::Linking],
            GameType::Rsrc => set![Logic::Resource],
            GameType::Room => set![Logic::Linking],
        }
    }

    /// The logics that a thing of this kind takes part in, as a value.
    pub open spec fn logic_set(self) -> LogicSet {
        match self {
            GameType::Player => LogicSet {
                collision: true,
                control: true,
                linking: false,
                resource: true,
            },
            GameType::Tile => LogicSet {
                collision: true,
                control: false,
                linking: true,
                resource: false,
            },
            GameType::Character => LogicSet {
                collision: true,
                control: false,
                linking: true,
                resource: true,
            },
            GameType::Rsrc => LogicSet {
                collision: false,
                control: false,
                linking: false,
                resource: true,
            },
            GameType::Room => LogicSet {
                collision: false,
                control: false,
                linking: true,
                resource: false,
            },
        }
    }

    /// The logics that a thing of this kind takes part in.
    pub fn associated_logics(&self) -> (logics: LogicSet)
        ensures
            logics@ == self.spec_associated_logics(),
            logics == self.logic_set(),
    {
        let logics = match self {
            GameType::Player => LogicSet {
                collision: true,
                control: true,
                linking: false,
                resource: true,
            },
            GameType::Tile => LogicSet {
                collision: true,
                control: false,
                linking: true,
                resource: false,
            },
            GameType::Character => LogicSet {
                collision: true,
                control: false,
                linking: true,
                resource: true,
            },
            GameType::Rsrc => LogicSet {
                collision: false,
                control: false,
                linking: false,
                resource: true,
            },
            GameType::Room => LogicSet {
                collision: false,
                control: false,
                linking: true,
                resource: false,
            },
        };
        assert(logics@ =~= self.spec_associated_logics());
        logics
    }

    /// The name of the kind, as it is written in messages.
    pub fn name(&self) -> (name: &'static str)
        ensures
            name@ == match *self {
                GameType::Character => "GameType::Character"@,
                GameType::Tile => "GameType::Tile"@,
                GameType::Player => "GameType::Player"@,
                GameType::Rsrc => "GameType::Rsrc"@,
                GameType::Room => "GameType::Room"@,
            },
    {
        match self {
            GameType::Character => "GameType::Character",
            GameType::Tile => "GameType::Tile",
            GameType::Player => "GameType::Player",
            GameType::Rsrc => "GameType::Rsrc",
            GameType::Room => "GameType::Room",
        }
    }
}

impl Event {
    /// The logics that an event of this kind involves.
    pub open spec fn spec_associated_logics(self) -> Set<Logic> {
        match self {
            Event::ChangeResource => set![Logic::Resource, Logic::Collision, Logic::Control],
            Event::MoveRoom => set![Logic::Linking, Logic::Collision, Logic::Control],
        }
    }

    /// The logics that an event of this kind involves.
    pub fn associated_logics(&self) -> (logics: LogicSet)
        ensures
            logics@ == self.spec_associated_logics(),
    {
        let logics = match self {
            Event::ChangeResource => LogicSet {
                collision: true,
                control: true,
                linking: false,
                resource: true,
            },
            Event::MoveRoom => LogicSet {
                collision: true,
                control: true,
                linking: true,
                resource: false,
            },
        };
        assert(logics@ =~= self.spec_associated_logics());
        logics
    }
}

/// A text in lower case, as `str::to_lowercase` gives it.
pub uninterp spec fn lowercase_of(text: Seq<char>) -> Seq<char>;

/// A text in lower case.
///
/// This calls `str::to_lowercase`, which gives each character its lower case
/// as Unicode defines it. The result depends on the text alone; what it is
/// is not said here.
#[verifier::external_body]
fn lowercase(text: &str) -> (lowered: String)
    ensures
        lowered@ == lowercase_of(text@),
{
    text.to_lowercase()
}

/// The logic that a name in lower case stands for, or why there is none.
pub open spec fn spec_logic_named(name: Seq<char>) -> Result<Logic, Seq<char>> {
    if name == "collision"@ {
        Ok(Logic::Collision)
    } else if name == "control"@ {
        Ok(Logic::Control)
    } else if name == "linking"@ {
        Ok(Logic::Linking)
    } else if name == "resource"@ {
        Ok(Logic::Resource)
    } else {
        Err("logic not in this list"@)
    }
}

/// The logic that a name in lower case stands for, or why there is none.
pub fn logic_named(name: &str) -> (logic: Result<Logic, &'static str>)
    ensures
        match logic {
            Ok(found) => spec_logic_named(name@) == Ok::<Logic, Seq<char>>(found),
            Err(why) => spec_logic_named(name@) == Err::<Logic, Seq<char>>(why@),
        },
{
    if same_text(name, "collision") {
        Ok(Logic::Collision)
    } else if same_text(name, "control") {
        Ok(Logic::Control)
    } else if same_text(name, "linking") {
        Ok(Logic::Linking)
    } else if same_text(name, "resource") {
        Ok(Logic::Resource)
    } else {
        Err("logic not in this list")
    }
}

impl Logic {
    /// The logic that a name stands for, in whatever case the name is
    /// written.
    pub fn try_from(value: &str) -> (logic: Result<Logic, &'static str>)
        ensures
            match logic {
                Ok(found) => spec_logic_named(lowercase_of(value@)) == Ok::<Logic, Seq<char>>(
                    found,
                ),
                Err(why) => spec_logic_named(lowercase_of(value@)) == Err::<Logic, Seq<char>>(
                    why@,
                ),
            },
    {
        let lowered = lowercase(value);
        logic_named(lowered.as_str())
    }
}

impl Logic {
    /// The name of the logic, as it is written in messages.
    pub fn name(&self) -> (name: &'static str)
        ensures
            name@ == match *self {
                Logic::Collision => "Logic::Collision"@,
                Logic::Control => "Logic::Control"@,
                Logic::Linking => "Logic::Linking"@,
                Logic::Resource => "Logic::Resource"@,
            },
    {
        match self {
            Logic::Collision => "Logic::Collision",
            Logic::Control => "Logic::Control",
            Logic::Linking => "Logic::Linking",
            Logic::Resource => "Logic::Resource",
        }
    }
}

} // verus!
