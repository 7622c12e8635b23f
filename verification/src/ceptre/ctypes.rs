//! The types of a program that play the parts of a game.

use crate::ceptre::boxsy_info::{GameType, LogicSet};
use crate::ceptre::builtins::Builtins;
use crate::ceptre::error::{same_text, Error};
use crate::ceptre::json::{Annote, Program, Tp, Type};
use vstd::prelude::*;

verus! {

/// The texts of a sequence of strings.
pub open spec fn texts(strings: Seq<String>) -> Seq<Seq<char>> {
    Seq::new(strings.len(), |k: int| strings[k]@)
}

/// Two ways of making a value are alike: they have the same name and take the
/// same types.
pub open spec fn same_tp(a: Tp, b: Tp) -> bool {
    a.name@ == b.name@ && texts(a.args@) == texts(b.args@)
}

/// Two lists of ways of making a value are alike, entry by entry.
pub open spec fn same_tps(a: Seq<Tp>, b: Seq<Tp>) -> bool {
    a.len() == b.len() && forall|k: int| 0 <= k < a.len() ==> same_tp(#[trigger] a[k], b[k])
}

/// A copy of a list of strings.
pub fn copy_strings(strings: &Vec<String>) -> (copy: Vec<String>)
    ensures
        texts(copy@) == texts(strings@),
{
    let mut copy: Vec<String> = Vec::new();
    let mut k: usize = 0;
    while k < strings.len()
        invariant
            k <= strings@.len(),
            copy@.len() == k,
            forall|m: int| 0 <= m < k ==> (#[trigger] copy@[m])@ == strings@[m]@,
        decreases strings@.len() - k,
    {
        copy.push(strings[k].clone());
        k += 1;
    }
    assert(texts(copy@) =~= texts(strings@));
    copy
}

/// A copy of a list of ways of making a value.
pub fn copy_tps(tps: &Vec<Tp>) -> (copy: Vec<Tp>)
    ensures
        same_tps(copy@, tps@),
{
    let mut copy: Vec<Tp> = Vec::new();
    let mut k: usize = 0;
    while k < tps.len()
        invariant
            k <= tps@.len(),
            copy@.len() == k,
            forall|m: int| 0 <= m < k ==> same_tp(#[trigger] copy@[m], tps@[m]),
        decreases tps@.len() - k,
    {
        copy.push(Tp { name: tps[k].name.clone(), args: copy_strings(&tps[k].args) });
        k += 1;
    }
    copy
}

/// A type of the program in the part that it plays: its name, the ways of
/// making its values, and the type that holds its data, if it has one.
#[derive(Debug)]
pub struct CType {
    pub name: String,
    pub data: Option<Box<CType>>,
    pub tp: Vec<Tp>,
    pub annote: Annote,
}

/// The first position in `tps`, from `from` on, of a way named `name`; the
/// length of `tps` where there is none.
pub open spec fn first_tp(tps: Seq<Tp>, name: Seq<char>, from: int) -> int
    decreases tps.len() - from,
{
    if from < 0 || from >= tps.len() {
        tps.len() as int
    } else if tps[from].name@ == name {
        from
    } else {
        first_tp(tps, name, from + 1)
    }
}

impl CType {
    /// `other` has the same name, ways and annotation, and the same data type
    /// or none as well.
    pub open spec fn alike(&self, other: &CType) -> bool
        decreases self,
    {
        &&& self.name@ == other.name@
        &&& same_tps(self.tp@, other.tp@)
        &&& self.annote == other.annote
        &&& match (self.data, other.data) {
            (Some(a), Some(b)) => a.alike(&*b),
            (None, None) => true,
            _ => false,
        }
    }

    /// A type in a part, from a type of the program. There is no data type
    /// yet. A type without an annotation plays no part.
    pub fn try_from(t: &Type) -> (made: Result<CType, Error<'static>>)
        ensures
            match made {
                Ok(ctype) => {
                    &&& t.annote == Some(ctype.annote)
                    &&& ctype.name@ == t.name@
                    &&& same_tps(ctype.tp@, t.tp@)
                    &&& ctype.data.is_none()
                },
                Err(Error::Custom(text)) => t.annote.is_none() && text@ == "no annote"@,
                Err(_) => false,
            },
    {
        match t.annote {
            Some(annote) => Ok(
                CType { name: t.name.clone(), data: None, tp: copy_tps(&t.tp), annote },
            ),
            None => Err(Error::Custom("no annote")),
        }
    }

    /// A copy of this type.
    pub fn copy(&self) -> (copy: CType)
        ensures
            copy.alike(self),
        decreases self,
    {
        let data = match &self.data {
            Some(inner) => Some(Box::new(inner.copy())),
            None => None,
        };
        CType { name: self.name.clone(), data, tp: copy_tps(&self.tp), annote: self.annote }
    }

    /// Where the way named `name` is found: in the data type, if there is one
    /// and it has such a way; else among the ways of this type.
    pub open spec fn spec_find_tp(&self, name: Seq<char>) -> Option<(usize, Tp)>
        decreases self,
    {
        let inner = match self.data {
            Some(data) => data.spec_find_tp(name),
            None => None,
        };
        if inner.is_some() {
            inner
        } else {
            let at = first_tp(self.tp@, name, 0);
            if at < self.tp@.len() {
                Some((at as usize, self.tp@[at]))
            } else {
                None
            }
        }
    }

    /// Finds the way named `name`, with its position. The data type is searched
    /// before the type itself.
    pub fn find_tp(&self, name: &str) -> (found: Option<(usize, &Tp)>)
        ensures
            match found {
                Some((at, tp)) => self.spec_find_tp(name@) == Some((at, *tp)),
                None => self.spec_find_tp(name@).is_none(),
            },
        decreases self,
    {
        if let Some(data) = &self.data {
            let inner = data.find_tp(name);
            if inner.is_some() {
                return inner;
            }
        }
        let mut k: usize = 0;
        while k < self.tp.len()
            invariant
                k <= self.tp@.len(),
                first_tp(self.tp@, name@, 0) == first_tp(self.tp@, name@, k as int),
                self.data matches Some(data) ==> data.spec_find_tp(name@).is_none(),
            decreases self.tp@.len() - k,
        {
            if same_text(self.tp[k].name.as_str(), name) {
                return Some((k, &self.tp[k]));
            }
            k += 1;
        }
        None
    }
}

/// The types of a program that play the five parts of a game, and the names
/// of its natural numbers.
#[derive(Debug)]
pub struct CeptreTypes {
    pub player: CType,
    pub character: CType,
    pub room: CType,
    pub link: CType,
    pub rsrc: CType,
    pub builtins: Builtins,
}

impl CeptreTypes {
    /// The part that the type named `s` plays: the first of player, character,
    /// room, link and resource that has that name.
    pub open spec fn spec_find_type(&self, s: Seq<char>) -> Option<CType> {
        if self.player.name@ == s {
            Some(self.player)
        } else if self.character.name@ == s {
            Some(self.character)
        } else if self.room.name@ == s {
            Some(self.room)
        } else if self.link.name@ == s {
            Some(self.link)
        } else if self.rsrc.name@ == s {
            Some(self.rsrc)
        } else {
            None
        }
    }

    /// Finds the type named `s` among the five parts.
    pub fn find_type(&self, s: &str) -> (found: Option<&CType>)
        ensures
            match found {
                Some(ctype) => self.spec_find_type(s@) == Some(*ctype),
                None => self.spec_find_type(s@).is_none(),
            },
    {
        if same_text(self.player.name.as_str(), s) {
            Some(&self.player)
        } else if same_text(self.character.name.as_str(), s) {
            Some(&self.character)
        } else if same_text(self.room.name.as_str(), s) {
            Some(&self.room)
        } else if same_text(self.link.name.as_str(), s) {
            Some(&self.link)
        } else if same_text(self.rsrc.name.as_str(), s) {
            Some(&self.rsrc)
        } else {
            None
        }
    }
}

/// The annotation marks a thing as belonging to logics by its structure.
pub open spec fn is_synthesis(annote: Option<Annote>) -> bool {
    annote matches Some(a) && (a is Synthesis || a is SynthData)
}

/// The annotation marks a thing as data of logics.
pub open spec fn is_data(annote: Option<Annote>) -> bool {
    annote matches Some(a) && (a is Data || a is SynthData)
}

/// The annotation names exactly the logics of `logics`.
pub open spec fn names_logics(annote: Option<Annote>, logics: LogicSet) -> bool {
    annote matches Some(a) && a.logics() == logics
}

/// The last position among the first `n` types of a type that belongs to
/// exactly `logics` by its structure; `-1` where there is none.
pub open spec fn last_synthesis(types: Seq<Type>, logics: LogicSet, n: int) -> int
    decreases n,
{
    if n <= 0 {
        -1
    } else if is_synthesis(types[n - 1].annote) && names_logics(types[n - 1].annote, logics) {
        n - 1
    } else {
        last_synthesis(types, logics, n - 1)
    }
}

/// The first position, from `from` on, of a type that is data of exactly
/// `logics`; the number of types where there is none.
pub open spec fn first_data(types: Seq<Type>, logics: LogicSet, from: int) -> int
    decreases types.len() - from,
{
    if from < 0 || from >= types.len() {
        types.len() as int
    } else if is_data(types[from].annote) && names_logics(types[from].annote, logics) {
        from
    } else {
        first_data(types, logics, from + 1)
    }
}

/// The position of the type that plays the part with the given logics: the
/// last type that belongs to them by its structure, and where there is none the
/// first type that is data of them.
pub open spec fn part_at(types: Seq<Type>, logics: LogicSet) -> Option<int> {
    if last_synthesis(types, logics, types.len() as int) >= 0 {
        Some(last_synthesis(types, logics, types.len() as int))
    } else if first_data(types, logics, 0) < types.len() {
        Some(first_data(types, logics, 0))
    } else {
        None
    }
}

/// Every way of `tps` takes a value of the type called `name`.
pub open spec fn all_take(tps: Seq<Tp>, name: Seq<char>) -> bool {
    forall|k: int| 0 <= k < tps.len() ==> texts((#[trigger] tps[k]).args@).contains(name)
}

/// The first position, from `from` on, of a data type that every way of
/// `tps` takes a value of; the number of types where there is none.
pub open spec fn data_at(types: Seq<Type>, tps: Seq<Tp>, from: int) -> int
    decreases types.len() - from,
{
    if from < 0 || from >= types.len() {
        types.len() as int
    } else if is_data(types[from].annote) && all_take(tps, types[from].name@) {
        from
    } else {
        data_at(types, tps, from + 1)
    }
}

/// `ctype` is type `k` of the program without a data type.
pub open spec fn made_from(ctype: CType, types: Seq<Type>, k: int) -> bool {
    &&& types[k].annote == Some(ctype.annote)
    &&& ctype.name@ == types[k].name@
    &&& same_tps(ctype.tp@, types[k].tp@)
    &&& ctype.data.is_none()
}

/// `ctype` is type `k` of the program in its part: with the first data type
/// that all its ways take a value of as its data type, if there is one.
pub open spec fn plays(ctype: CType, types: Seq<Type>, k: int) -> bool {
    &&& types[k].annote == Some(ctype.annote)
    &&& ctype.name@ == types[k].name@
    &&& same_tps(ctype.tp@, types[k].tp@)
    &&& if data_at(types, types[k].tp@, 0) < types.len() {
        ctype.data matches Some(data) && made_from(*data, types, data_at(types, types[k].tp@, 0))
    } else {
        ctype.data.is_none()
    }
}

/// The five parts are played by the types of the program that `part_at`
/// gives, each with its data type.
pub open spec fn cast(types: Seq<Type>, parts: CeptreTypes) -> bool {
    &&& part_at(types, GameType::Player.logic_set()) matches Some(k) && plays(
        parts.player,
        types,
        k,
    )
    &&& part_at(types, GameType::Character.logic_set()) matches Some(k) && plays(
        parts.character,
        types,
        k,
    )
    &&& part_at(types, GameType::Room.logic_set()) matches Some(k) && plays(parts.room, types, k)
    &&& part_at(types, GameType::Tile.logic_set()) matches Some(k) && plays(parts.link, types, k)
    &&& part_at(types, GameType::Rsrc.logic_set()) matches Some(k) && plays(parts.rsrc, types, k)
}

/// Whether `name` is among `names`.
pub fn has_text(names: &Vec<String>, name: &str) -> (found: bool)
    ensures
        found == texts(names@).contains(name@),
{
    let mut k: usize = 0;
    while k < names.len()
        invariant
            k <= names@.len(),
            forall|m: int| 0 <= m < k ==> texts(names@)[m] != name@,
        decreases names@.len() - k,
    {
        if same_text(names[k].as_str(), name) {
            assert(texts(names@)[k as int] == name@);
            return true;
        }
        k += 1;
    }
    false
}

/// Whether every way of `tps` takes a value of the type called `name`.
pub fn every_way_takes(tps: &Vec<Tp>, name: &str) -> (all: bool)
    ensures
        all == all_take(tps@, name@),
{
    let mut k: usize = 0;
    while k < tps.len()
        invariant
            k <= tps@.len(),
            forall|m: int| 0 <= m < k ==> texts((#[trigger] tps@[m]).args@).contains(name@),
        decreases tps@.len() - k,
    {
        if !has_text(&tps[k].args, name) {
            return false;
        }
        k += 1;
    }
    true
}

/// Whether the annotation marks a thing as belonging to logics by its
/// structure.
pub fn marks_synthesis(annote: &Option<Annote>) -> (marks: bool)
    ensures
        marks == is_synthesis(*annote),
{
    match annote {
        Some(Annote::Synthesis(_)) => true,
        Some(Annote::SynthData(_)) => true,
        _ => false,
    }
}

/// Whether the annotation marks a thing as data of logics.
pub fn marks_data(annote: &Option<Annote>) -> (marks: bool)
    ensures
        marks == is_data(*annote),
{
    match annote {
        Some(Annote::Data(_)) => true,
        Some(Annote::SynthData(_)) => true,
        _ => false,
    }
}

/// Whether the annotation names exactly the logics of `logics`.
pub fn annote_names(annote: &Option<Annote>, logics: LogicSet) -> (names: bool)
    ensures
        names == names_logics(*annote, logics),
{
    match annote {
        Some(a) => *a.get_logics() == logics,
        None => false,
    }
}

/// Finds the type that plays the part with the given logics.
pub fn find_part(types: &Vec<Type>, logics: LogicSet) -> (at: Option<usize>)
    ensures
        match at {
            Some(k) => part_at(types@, logics) == Some(k as int) && k < types@.len()
                && types@[k as int].annote.is_some(),
            None => part_at(types@, logics).is_none(),
        },
{
    let mut found: Option<usize> = None;
    let mut k: usize = 0;
    while k < types.len()
        invariant
            k <= types@.len(),
            match found {
                Some(at) => at == last_synthesis(types@, logics, k as int) && at < k,
                None => last_synthesis(types@, logics, k as int) == -1,
            },
        decreases types@.len() - k,
    {
        if marks_synthesis(&types[k].annote) && annote_names(&types[k].annote, logics) {
            found = Some(k);
        }
        k += 1;
    }
    if found.is_some() {
        proof {
            lemma_last_synthesis(types@, logics, types@.len() as int);
        }
        return found;
    }
    let mut k: usize = 0;
    while k < types.len()
        invariant
            k <= types@.len(),
            last_synthesis(types@, logics, types@.len() as int) == -1,
            first_data(types@, logics, 0) == first_data(types@, logics, k as int),
        decreases types@.len() - k,
    {
        if marks_data(&types[k].annote) && annote_names(&types[k].annote, logics) {
            return Some(k);
        }
        k += 1;
    }
    None
}

/// A type that `last_synthesis` finds has an annotation.
pub proof fn lemma_last_synthesis(types: Seq<Type>, logics: LogicSet, n: int)
    requires
        0 <= n <= types.len(),
    ensures
        -1 <= last_synthesis(types, logics, n) < n,
        last_synthesis(types, logics, n) >= 0 ==> types[last_synthesis(
            types,
            logics,
            n,
        )].annote.is_some(),
    decreases n,
{
    if n > 0 {
        lemma_last_synthesis(types, logics, n - 1);
    }
}

/// Finds the data type that every way of `tps` takes a value of.
pub fn find_data(types: &Vec<Type>, tps: &Vec<Tp>) -> (at: Option<usize>)
    ensures
        match at {
            Some(k) => k == data_at(types@, tps@, 0) && k < types@.len()
                && types@[k as int].annote.is_some(),
            None => data_at(types@, tps@, 0) == types@.len(),
        },
{
    let mut k: usize = 0;
    while k < types.len()
        invariant
            k <= types@.len(),
            data_at(types@, tps@, 0) == data_at(types@, tps@, k as int),
        decreases types@.len() - k,
    {
        if marks_data(&types[k].annote) && every_way_takes(tps, types[k].name.as_str()) {
            return Some(k);
        }
        k += 1;
    }
    None
}

/// Type `k` of the program in its part, with its data type.
pub fn part(types: &Vec<Type>, k: usize) -> (ctype: CType)
    requires
        k < types@.len(),
        types@[k as int].annote.is_some(),
    ensures
        plays(ctype, types@, k as int),
{
    let data = match find_data(types, &types[k].tp) {
        Some(d) => Some(Box::new(CType::try_from(&types[d]).unwrap())),
        None => None,
    };
    CType {
        name: types[k].name.clone(),
        data,
        tp: copy_tps(&types[k].tp),
        annote: types[k].annote.unwrap(),
    }
}

impl CeptreTypes {
    /// Matches the types of a program with the parts of a game.
    ///
    /// The names of the natural numbers must be there. Then each of player,
    /// character, room, link and resource is played by the type that `part_at`
    /// gives for the logics of that kind of thing; a link has the logics of a
    /// tile. The first part that no type plays is an error.
    pub fn get_types(program: &Program) -> (found: Result<CeptreTypes, Error<'static>>)
        ensures
            ({
                let types = program.header.types@;
                let player = part_at(types, GameType::Player.logic_set());
                let character = part_at(types, GameType::Character.logic_set());
                let room = part_at(types, GameType::Room.logic_set());
                let link = part_at(types, GameType::Tile.logic_set());
                let rsrc = part_at(types, GameType::Rsrc.logic_set());
                match found {
                    Ok(parts) => cast(types, parts),
                    Err(Error::BuiltinNotFound(_)) => true,
                    Err(Error::TypeNotFound(GameType::Player)) => player.is_none(),
                    Err(Error::TypeNotFound(GameType::Character)) => player.is_some()
                        && character.is_none(),
                    Err(Error::TypeNotFound(GameType::Room)) => player.is_some()
                        && character.is_some() && room.is_none(),
                    Err(Error::TypeNotFound(GameType::Tile)) => player.is_some()
                        && character.is_some() && room.is_some() && link.is_none(),
                    Err(Error::TypeNotFound(GameType::Rsrc)) => player.is_some()
                        && character.is_some() && room.is_some() && link.is_some()
                        && rsrc.is_none(),
                    Err(_) => false,
                }
            }),
            found matches Err(Error::BuiltinNotFound(_)) <==> Builtins::spec_missing(
                program.builtins@,
            ),
    {
        let builtins = match Builtins::new(program) {
            Ok(builtins) => builtins,
            Err(e) => {
                return Err(e);
            },
        };
        let types = &program.header.types;
        let player = match find_part(types, GameType::Player.associated_logics()) {
            Some(k) => part(types, k),
            None => {
                return Err(Error::TypeNotFound(GameType::Player));
            },
        };
        let character = match find_part(types, GameType::Character.associated_logics()) {
            Some(k) => part(types, k),
            None => {
                return Err(Error::TypeNotFound(GameType::Character));
            },
        };
        let room = match find_part(types, GameType::Room.associated_logics()) {
            Some(k) => part(types, k),
            None => {
                return Err(Error::TypeNotFound(GameType::Room));
            },
        };
        let link = match find_part(types, GameType::Tile.associated_logics()) {
            Some(k) => part(types, k),
            None => {
                return Err(Error::TypeNotFound(GameType::Tile));
            },
        };
        let rsrc = match find_part(types, GameType::Rsrc.associated_logics()) {
            Some(k) => part(types, k),
            None => {
                return Err(Error::TypeNotFound(GameType::Rsrc));
            },
        };
        Ok(CeptreTypes { player, character, room, link, rsrc, builtins })
    }
}

} // verus!
