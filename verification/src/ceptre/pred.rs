//! Which fact of the game a predicate stands for.

use crate::ceptre::ctypes::{has_text, texts, CType, CeptreTypes};
use crate::ceptre::error::Error;
use crate::ceptre::json::{Annote, Predicate, Term};
use vstd::prelude::*;

verus! {

/// A predicate with the parts that its terms play.
#[derive(Debug)]
pub struct Pred {
    pub name: String,
    pub types: Vec<CType>,
    pub annote: Annote,
}

/// The facts that the state of a game is made of.
#[derive(Clone, Copy, PartialEq, Eq, PartialOrd, Ord, Structural, Debug)]
pub enum CData {
    PlayerInRoom,
    PlayerHasItem,
    CharInRoom,
    CharHasItem,
    CharToRoom,
    TileInRoom,
    TileToRoom,
}

/// The parts that the first `n` of `terms` play: for each term that names one
/// of the five parts, that part, in the order of the terms.
pub open spec fn parts_of(terms: Seq<Term>, types: CeptreTypes, n: int) -> Seq<CType>
    decreases n,
{
    if n <= 0 {
        Seq::empty()
    } else {
        match types.spec_find_type(terms[n - 1].0@) {
            Some(part) => parts_of(terms, types, n - 1).push(part),
            None => parts_of(terms, types, n - 1),
        }
    }
}

/// The names of a sequence of parts.
pub open spec fn names_of(parts: Seq<CType>) -> Seq<Seq<char>> {
    Seq::new(parts.len(), |k: int| parts[k].name@)
}

impl Predicate {
    /// A copy of this predicate.
    pub fn copy(&self) -> (copy: Predicate)
        ensures
            copy.name@ == self.name@,
            copy.annote == self.annote,
            copy.terms@.len() == self.terms@.len(),
            forall|k: int| 0 <= k < self.terms@.len() ==> (#[trigger] copy.terms@[k]).0@
                == self.terms@[k].0@,
    {
        let mut terms: Vec<Term> = Vec::new();
        let mut k: usize = 0;
        while k < self.terms.len()
            invariant
                k <= self.terms@.len(),
                terms@.len() == k,
                forall|m: int| 0 <= m < k ==> (#[trigger] terms@[m]).0@ == self.terms@[m].0@,
            decreases self.terms@.len() - k,
        {
            terms.push(Term(self.terms[k].0.clone()));
            k += 1;
        }
        Predicate { name: self.name.clone(), terms, annote: self.annote }
    }
}

impl Pred {
    /// A predicate with the parts of its terms. A predicate without an
    /// annotation is an error.
    pub fn from_predicate(p: Predicate, types: &CeptreTypes) -> (made: Result<
        Self,
        Error<'static>,
    >)
        ensures
            match made {
                Ok(pred) => {
                    &&& p.annote == Some(pred.annote)
                    &&& pred.name@ == p.name@
                    &&& pred.types@.len() == parts_of(p.terms@, *types, p.terms@.len() as int).len()
                    &&& forall|k: int|
                        0 <= k < pred.types@.len() ==> (#[trigger] pred.types@[k]).alike(
                            &parts_of(p.terms@, *types, p.terms@.len() as int)[k],
                        )
                },
                Err(Error::Custom(text)) => p.annote.is_none() && text@ == "no annote"@,
                Err(_) => false,
            },
    {
        let mut parts: Vec<CType> = Vec::new();
        let mut k: usize = 0;
        while k < p.terms.len()
            invariant
                k <= p.terms@.len(),
                parts@.len() == parts_of(p.terms@, *types, k as int).len(),
                forall|m: int|
                    0 <= m < parts@.len() ==> (#[trigger] parts@[m]).alike(
                        &parts_of(p.terms@, *types, k as int)[m],
                    ),
            decreases p.terms@.len() - k,
        {
            if let Some(part) = types.find_type(p.terms[k].str()) {
                parts.push(part.copy());
            }
            k += 1;
        }
        match p.annote {
            Some(annote) => Ok(Pred { name: p.name, types: parts, annote }),
            None => Err(Error::Custom("no annote")),
        }
    }
}

impl CData {
    /// The names of the two parts that a fact of this kind relates.
    pub open spec fn spec_associated_types(self, types: CeptreTypes) -> Set<Seq<char>> {
        match self {
            CData::PlayerInRoom => set![types.player.name@, types.room.name@],
            CData::PlayerHasItem => set![types.player.name@, types.rsrc.name@],
            CData::CharInRoom => set![types.character.name@, types.room.name@],
            CData::CharHasItem => set![types.character.name@, types.rsrc.name@],
            CData::CharToRoom => set![types.character.name@, types.link.name@],
            CData::TileInRoom => set![types.link.name@, types.room.name@],
            CData::TileToRoom => set![types.link.name@, types.room.name@],
        }
    }

    /// The names of the two parts that a fact of this kind relates, as the
    /// program calls them.
    pub fn associated_types(&self, types: &CeptreTypes) -> (names: Vec<String>)
        ensures
            texts(names@).to_set() == self.spec_associated_types(*types),
    {
        let (first, second) = match self {
            CData::PlayerInRoom => (&types.player.name, &types.room.name),
            CData::PlayerHasItem => (&types.player.name, &types.rsrc.name),
            CData::CharInRoom => (&types.character.name, &types.room.name),
            CData::CharHasItem => (&types.character.name, &types.rsrc.name),
            CData::CharToRoom => (&types.character.name, &types.link.name),
            CData::TileInRoom => (&types.link.name, &types.room.name),
            CData::TileToRoom => (&types.link.name, &types.room.name),
        };
        let mut names: Vec<String> = Vec::new();
        names.push(first.clone());
        names.push(second.clone());
        proof {
            let found = texts(names@);
            assert(found[0] == first@ && found[1] == second@);
            assert(found.to_set() =~= set![first@, second@]) by {
                assert forall|name: Seq<char>| found.to_set().contains(name) <==> set![
                    first@,
                    second@,
                ].contains(name) by {
                    if found.contains(name) {
                        let at = choose|at: int| 0 <= at < found.len() && found[at] == name;
                    }
                    if name == first@ {
                        assert(found[0] == name);
                    }
                    if name == second@ {
                        assert(found[1] == name);
                    }
                }
            }
        }
        names
    }
}

/// Whether every name of `names` is among `others`.
pub fn names_within(names: &Vec<String>, others: &Vec<String>) -> (within: bool)
    ensures
        within == texts(names@).to_set().subset_of(texts(others@).to_set()),
{
    let mut k: usize = 0;
    while k < names.len()
        invariant
            k <= names@.len(),
            forall|m: int| 0 <= m < k ==> texts(others@).contains(#[trigger] texts(names@)[m]),
        decreases names@.len() - k,
    {
        if !has_text(others, names[k].as_str()) {
            assert(texts(names@).to_set().contains(texts(names@)[k as int]));
            return false;
        }
        k += 1;
    }
    assert forall|name: Seq<char>| texts(names@).to_set().contains(name) implies texts(
        others@,
    ).to_set().contains(name) by {
        let at = choose|at: int| 0 <= at < names@.len() && texts(names@)[at] == name;
        assert(texts(others@).contains(texts(names@)[at]));
    }
    true
}

/// Whether two lists hold the same names, in whatever order and however
/// often.
pub fn same_names(names: &Vec<String>, others: &Vec<String>) -> (same: bool)
    ensures
        same == (texts(names@).to_set() == texts(others@).to_set()),
{
    let same = names_within(names, others) && names_within(others, names);
    proof {
        if same {
            assert(texts(names@).to_set() =~= texts(others@).to_set());
        }
    }
    same
}

/// The fact that a predicate with the given set of part names stands for: the
/// first, in the order of `CData`, that relates just those parts.
pub open spec fn fact_of(involved: Set<Seq<char>>, types: CeptreTypes) -> Option<CData> {
    if involved == CData::PlayerInRoom.spec_associated_types(types) {
        Some(CData::PlayerInRoom)
    } else if involved == CData::PlayerHasItem.spec_associated_types(types) {
        Some(CData::PlayerHasItem)
    } else if involved == CData::CharInRoom.spec_associated_types(types) {
        Some(CData::CharInRoom)
    } else if involved == CData::CharHasItem.spec_associated_types(types) {
        Some(CData::CharHasItem)
    } else if involved == CData::CharToRoom.spec_associated_types(types) {
        Some(CData::CharToRoom)
    } else if involved == CData::TileInRoom.spec_associated_types(types) {
        Some(CData::TileInRoom)
    } else if involved == CData::TileToRoom.spec_associated_types(types) {
        Some(CData::TileToRoom)
    } else {
        None
    }
}

/// Works out which fact a predicate stands for, from the parts that its terms
/// play. A predicate that stands for none is an error, which carries the name
/// of the predicate.
pub fn process_pred<'a>(p: &'a Predicate, types: &'a CeptreTypes) -> (fact: Result<
    (CData, Predicate),
    Error<'a>,
>)
    ensures
        ({
            let involved = names_of(parts_of(p.terms@, *types, p.terms@.len() as int)).to_set();
            match fact {
                Ok((kind, copy)) => {
                    &&& fact_of(involved, *types) == Some(kind)
                    &&& copy.name@ == p.name@
                    &&& copy.annote == p.annote
                    &&& copy.terms@.len() == p.terms@.len()
                    &&& forall|k: int|
                        0 <= k < p.terms@.len() ==> (#[trigger] copy.terms@[k]).0@
                            == p.terms@[k].0@
                },
                Err(Error::PredNotFound(name)) => fact_of(involved, *types).is_none() && name@
                    == p.name@,
                Err(_) => false,
            }
        }),
{
    let mut involved: Vec<String> = Vec::new();
    let mut k: usize = 0;
    while k < p.terms.len()
        invariant
            k <= p.terms@.len(),
            texts(involved@) == names_of(parts_of(p.terms@, *types, k as int)),
        decreases p.terms@.len() - k,
    {
        let ghost before = texts(involved@);
        if let Some(part) = types.find_type(p.terms[k].str()) {
            involved.push(part.name.clone());
            assert(texts(involved@) =~= before.push(part.name@));
        }
        k += 1;
        assert(texts(involved@) =~= names_of(parts_of(p.terms@, *types, k as int)));
    }
    let ty = if same_names(&involved, &CData::PlayerInRoom.associated_types(types)) {
        CData::PlayerInRoom
    } else if same_names(&involved, &CData::PlayerHasItem.associated_types(types)) {
        CData::PlayerHasItem
    } else if same_names(&involved, &CData::CharInRoom.associated_types(types)) {
        CData::CharInRoom
    } else if same_names(&involved, &CData::CharHasItem.associated_types(types)) {
        CData::CharHasItem
    } else if same_names(&involved, &CData::CharToRoom.associated_types(types)) {
        CData::CharToRoom
    } else if same_names(&involved, &CData::TileInRoom.associated_types(types)) {
        CData::TileInRoom
    } else if same_names(&involved, &CData::TileToRoom.associated_types(types)) {
        CData::TileToRoom
    } else {
        return Err(Error::PredNotFound(p.name.as_str()));
    };
    Ok((ty, p.copy()))
}

} // verus!
