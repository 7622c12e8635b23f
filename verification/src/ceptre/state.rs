//! The initial state of a game, from the atoms of a program.

use crate::ceptre::ctypes::{texts, CType, CeptreTypes};
use crate::ceptre::error::{same_text, Error};
use crate::ceptre::json::{Atom, Predicate, Term, Tp};
use crate::ceptre::pred::CData;
use crate::ceptre::rules::CEvent;
use crate::ceptre::parse::{parse_i16, parse_term, spec_parse_i16, spec_parse_term};
use vstd::prelude::*;
use vstd::string::StrSliceExecFns;

verus! {

/// A number of things of one kind.
#[derive(Clone, Debug)]
pub struct Rsrc {
    pub id: String,
    pub count: i16,
}

/// Where the player is, and what the player has.
#[derive(Debug)]
pub struct Player {
    pub in_room: usize,
    pub items: Vec<Rsrc>,
}

/// A character: where it is, what it has, and the room that it leads to, if
/// it leads to one.
#[derive(Debug)]
pub struct Character {
    pub id: String,
    pub items: Vec<Rsrc>,
    pub in_room: usize,
    pub link_to: Option<usize>,
}

/// A tile that leads from one room to another.
#[derive(Debug)]
pub struct Tile {
    pub id: String,
    pub in_room: usize,
    pub link_to: usize,
}

/// What has been learned of an item while the terms of an atom are read.
pub struct ItemRead {
    /// The kind of thing, once a term has named one.
    pub id: Option<Seq<char>>,
    /// The number, once a term has given one.
    pub count: Option<i16>,
    /// A number was expected and could not be read.
    pub failed: bool,
}

/// What is known of an item once one word of a term has been looked at. `arg`
/// is the type that the word is a value of.
///
/// A word that names a way of the resource type gives the kind of thing. A
/// word that is a natural number gives the number; if it cannot be read as one,
/// the reading fails.
pub open spec fn read_word(types: CeptreTypes, so_far: ItemRead, arg: Seq<char>, val: Seq<char>) -> ItemRead {
    if so_far.failed {
        so_far
    } else {
        let id = match types.rsrc.spec_find_tp(val) {
            Some((_, tp)) => Some(tp.name@),
            None => so_far.id,
        };
        if arg == types.builtins.nat@ {
            match spec_parse_i16(val) {
                Some(count) => ItemRead { id, count: Some(count), failed: false },
                None => ItemRead { id, count: so_far.count, failed: true },
            }
        } else {
            ItemRead { id, count: so_far.count, failed: false }
        }
    }
}

/// What is known of an item once the first `n` words of a term have been
/// looked at.
pub open spec fn read_words(
    types: CeptreTypes,
    so_far: ItemRead,
    args: Seq<Seq<char>>,
    vals: Seq<Seq<char>>,
    n: int,
) -> ItemRead
    decreases n,
{
    if n <= 0 {
        so_far
    } else {
        read_word(types, read_words(types, so_far, args, vals, n - 1), args[n - 1], vals[n - 1])
    }
}

/// The lesser of two lengths.
pub open spec fn shorter(a: nat, b: nat) -> nat {
    if a <= b {
        a
    } else {
        b
    }
}

/// What is known of an item once a term has been looked at. A term that is
/// no value of the resource type tells nothing. Of one that is, each word is
/// looked at with the type that the way takes in its place, as far as the way
/// takes any.
pub open spec fn read_item_term(types: CeptreTypes, so_far: ItemRead, term: Seq<char>) -> ItemRead {
    if so_far.failed {
        so_far
    } else {
        match spec_parse_term(term, types.rsrc.tp@) {
            Some((_, read)) => {
                let args = texts(types.rsrc.tp@[read.way].args@);
                read_words(types, so_far, args, read.vals, shorter(args.len(), read.vals.len()) as int)
            },
            None => so_far,
        }
    }
}

/// What is known of an item once the first `n` terms of an atom have been
/// looked at.
pub open spec fn read_item_terms(types: CeptreTypes, terms: Seq<Term>, n: int) -> ItemRead
    decreases n,
{
    if n <= 0 {
        ItemRead { id: None, count: None, failed: false }
    } else {
        read_item_term(types, read_item_terms(types, terms, n - 1), terms[n - 1].0@)
    }
}

/// The item that an atom speaks of, if it speaks of one: a kind of thing and
/// a number. `Some(Err(..))` where a number could not be read, and `None` where
/// the atom names no kind of thing or gives no number.
pub fn build_item(atom: &Atom, types: &CeptreTypes) -> (item: Option<Result<Rsrc, Error<'static>>>)
    ensures
        ({
            let read = read_item_terms(*types, atom.terms@, atom.terms@.len() as int);
            match item {
                Some(Ok(rsrc)) => !read.failed && read.id == Some(rsrc.id@) && read.count == Some(
                    rsrc.count,
                ),
                Some(Err(Error::State(text))) => read.failed && text@ == "unable to parse number"@,
                Some(Err(_)) => false,
                None => !read.failed && (read.id.is_none() || read.count.is_none()),
            }
        }),
{
    let mut id: Option<String> = None;
    let mut count: Option<i16> = None;
    let mut t: usize = 0;
    while t < atom.terms.len()
        invariant
            t <= atom.terms@.len(),
            ({
                let read = read_item_terms(*types, atom.terms@, t as int);
                &&& !read.failed
                &&& read.count == count
                &&& match id {
                    Some(name) => read.id == Some(name@),
                    None => read.id.is_none(),
                }
            }),
        decreases atom.terms@.len() - t,
    {
        let ghost before = read_item_terms(*types, atom.terms@, t as int);
        if let Ok((_, at)) = parse_term(atom.terms[t].str(), &types.rsrc) {
            let ghost args = texts(at.tp.args@);
            let ghost vals = texts(at.vals@);
            let n: usize = if at.tp.args.len() <= at.vals.len() {
                at.tp.args.len()
            } else {
                at.vals.len()
            };
            assert(read_item_terms(*types, atom.terms@, t + 1) == read_words(
                *types,
                before,
                args,
                vals,
                n as int,
            ));
            let mut k: usize = 0;
            while k < n
                invariant
                    k <= n,
                    n <= at.tp.args@.len(),
                    n <= at.vals@.len(),
                    t < atom.terms@.len(),
                    args == texts(at.tp.args@),
                    vals == texts(at.vals@),
                    read_item_terms(*types, atom.terms@, t + 1) == read_words(
                        *types,
                        before,
                        args,
                        vals,
                        n as int,
                    ),
                    ({
                        let read = read_words(*types, before, args, vals, k as int);
                        &&& !read.failed
                        &&& read.count == count
                        &&& match id {
                            Some(name) => read.id == Some(name@),
                            None => read.id.is_none(),
                        }
                    }),
                decreases n - k,
            {
                let val: &str = at.vals[k].as_str();
                assert(val@ == vals[k as int]);
                assert(at.tp.args@[k as int]@ == args[k as int]);
                if let Some((_, rsrc_id)) = types.rsrc.find_tp(val) {
                    id = Some(rsrc_id.name.clone());
                }
                if same_text(at.tp.args[k].as_str(), types.builtins.nat.as_str()) {
                    match parse_i16(val) {
                        Some(c) => {
                            count = Some(c);
                        },
                        None => {
                            proof {
                                lemma_failed_words(*types, before, args, vals, k + 1, n as int);
                                lemma_failed_terms(
                                    *types,
                                    atom.terms@,
                                    t + 1,
                                    atom.terms@.len() as int,
                                );
                            }
                            return Some(Err(Error::State("unable to parse number")));
                        },
                    }
                }
                k += 1;
            }
        }
        t += 1;
    }
    match id {
        Some(id) => match count {
            Some(count) => Some(Ok(Rsrc { id, count })),
            None => None,
        },
        None => None,
    }
}

/// Once the reading of an item has failed, further words change nothing.
pub proof fn lemma_failed_words(
    types: CeptreTypes,
    so_far: ItemRead,
    args: Seq<Seq<char>>,
    vals: Seq<Seq<char>>,
    k: int,
    n: int,
)
    requires
        0 <= k <= n,
        read_words(types, so_far, args, vals, k).failed,
    ensures
        read_words(types, so_far, args, vals, n) == read_words(types, so_far, args, vals, k),
    decreases n - k,
{
    if k < n {
        lemma_failed_words(types, so_far, args, vals, k, n - 1);
    }
}

/// Once the reading of an item has failed, further terms change nothing.
pub proof fn lemma_failed_terms(types: CeptreTypes, terms: Seq<Term>, k: int, n: int)
    requires
        0 <= k <= n,
        read_item_terms(types, terms, k).failed,
    ensures
        read_item_terms(types, terms, n).failed,
    decreases n - k,
{
    if k < n {
        lemma_failed_terms(types, terms, k, n - 1);
    }
}

/// What an item is made of: its kind and its number.
pub open spec fn item_view(items: Seq<Rsrc>) -> Seq<(Seq<char>, i16)> {
    Seq::new(items.len(), |k: int| (items[k].id@, items[k].count))
}

/// The item that an atom speaks of: see `build_item`.
pub open spec fn item_in(types: CeptreTypes, atom: Atom) -> Option<Result<(Seq<char>, i16), ()>> {
    let read = read_item_terms(types, atom.terms@, atom.terms@.len() as int);
    if read.failed {
        Some(Err(()))
    } else if read.id.is_some() && read.count.is_some() {
        Some(Ok((read.id->0, read.count->0)))
    } else {
        None
    }
}

/// The items that the first `n` atoms speak of, in order; an error where the
/// number of one cannot be read.
pub open spec fn items_in(types: CeptreTypes, atoms: Seq<Atom>, n: int) -> Result<
    Seq<(Seq<char>, i16)>,
    (),
>
    decreases n,
{
    if n <= 0 {
        Ok(Seq::empty())
    } else {
        match items_in(types, atoms, n - 1) {
            Err(e) => Err(e),
            Ok(items) => match item_in(types, atoms[n - 1]) {
                Some(Ok(item)) => Ok(items.push(item)),
                Some(Err(e)) => Err(e),
                None => Ok(items),
            },
        }
    }
}

/// Collects the items that atoms speak of.
pub fn build_items(atoms: &Vec<Atom>, types: &CeptreTypes) -> (items: Result<
    Vec<Rsrc>,
    Error<'static>,
>)
    ensures
        match items {
            Ok(found) => items_in(*types, atoms@, atoms@.len() as int) == Ok::<_, ()>(
                item_view(found@),
            ),
            Err(Error::State(text)) => items_in(*types, atoms@, atoms@.len() as int).is_err()
                && text@ == "unable to parse number"@,
            Err(_) => false,
        },
{
    let mut items: Vec<Rsrc> = Vec::new();
    assert(item_view(items@) =~= Seq::<(Seq<char>, i16)>::empty());
    let mut k: usize = 0;
    while k < atoms.len()
        invariant
            k <= atoms@.len(),
            items_in(*types, atoms@, k as int) == Ok::<_, ()>(item_view(items@)),
        decreases atoms@.len() - k,
    {
        let ghost before = item_view(items@);
        match build_item(&atoms[k], types) {
            Some(Ok(item)) => {
                items.push(item);
                assert(item_view(items@) =~= before.push((item.id@, item.count)));
            },
            Some(Err(e)) => {
                proof {
                    lemma_items_fail(*types, atoms@, k + 1, atoms@.len() as int);
                }
                return Err(e);
            },
            None => {},
        }
        k += 1;
    }
    Ok(items)
}

/// Once an item could not be read, the atoms behind it change nothing.
pub proof fn lemma_items_fail(types: CeptreTypes, atoms: Seq<Atom>, k: int, n: int)
    requires
        0 <= k <= n,
        items_in(types, atoms, k).is_err(),
    ensures
        items_in(types, atoms, n).is_err(),
    decreases n - k,
{
    if k < n {
        lemma_items_fail(types, atoms, k, n - 1);
    }
}

/// One of the first `n` terms names a way of the player type.
pub open spec fn names_player(types: CeptreTypes, terms: Seq<Term>, n: int) -> bool
    decreases n,
{
    if n <= 0 {
        false
    } else {
        names_player(types, terms, n - 1) || types.player.spec_find_tp(terms[n - 1].0@).is_some()
    }
}

/// The room that a term names where the player is: the term is read as a
/// value of the room type, and what of it does not count as read names a way of
/// the room type. The room is the position of that way.
pub open spec fn room_named(types: CeptreTypes, term: Seq<char>) -> Option<usize> {
    match spec_parse_term(term, types.room.tp@) {
        Some((end, _)) => match types.room.spec_find_tp(term.subrange(end, term.len() as int)) {
            Some((room, _)) => Some(room),
            None => None,
        },
        None => None,
    }
}

/// The room that the first of the terms from `from` on names which names
/// one.
pub open spec fn first_room_named(types: CeptreTypes, terms: Seq<Term>, from: int) -> Option<usize>
    decreases terms.len() - from,
{
    if from < 0 || from >= terms.len() {
        None
    } else if room_named(types, terms[from].0@).is_some() {
        room_named(types, terms[from].0@)
    } else {
        first_room_named(types, terms, from + 1)
    }
}

/// Whether one of the terms names a way of the player type.
pub fn has_player_term(terms: &Vec<Term>, types: &CeptreTypes) -> (found: bool)
    ensures
        found == names_player(*types, terms@, terms@.len() as int),
{
    let mut k: usize = 0;
    while k < terms.len()
        invariant
            k <= terms@.len(),
            !names_player(*types, terms@, k as int),
        decreases terms@.len() - k,
    {
        if types.player.find_tp(terms[k].str()).is_some() {
            proof {
                lemma_names_player(*types, terms@, k + 1, terms@.len() as int);
            }
            return true;
        }
        k += 1;
    }
    false
}

/// A term that names the player still does when more terms are looked at.
pub proof fn lemma_names_player(types: CeptreTypes, terms: Seq<Term>, k: int, n: int)
    requires
        0 <= k <= n,
        names_player(types, terms, k),
    ensures
        names_player(types, terms, n),
    decreases n - k,
{
    if k < n {
        lemma_names_player(types, terms, k, n - 1);
    }
}

/// The room that a term names where the player is.
pub fn player_room(term: &str, types: &CeptreTypes) -> (room: Option<usize>)
    ensures
        room == room_named(*types, term@),
{
    match parse_term(term, &types.room) {
        Ok((end, _)) => {
            let rest = term.substring_char(end, term.unicode_len());
            match types.room.find_tp(rest) {
                Some((room, _)) => Some(room),
                None => None,
            }
        },
        Err(_) => None,
    }
}

/// Where the player is and what the player has.
///
/// `player_in_room` is the atom that places the player. One of its terms must
/// name a way of the player type. The room is the one that the first of its
/// terms names which names a room. `player_has_item` are the atoms that give
/// the player things.
pub fn build_player(
    player_in_room: Option<&Atom>,
    player_has_item: Vec<Atom>,
    types: &CeptreTypes,
) -> (player: Result<Player, Error<'static>>)
    ensures
        ({
            let outcome = player_outcome(
                *types,
                match player_in_room {
                    Some(atom) => Some(*atom),
                    None => None,
                },
                player_has_item@,
            );
            match player {
                Ok(p) => outcome == Ok::<_, Seq<char>>((p.in_room, item_view(p.items@))),
                Err(Error::State(text)) => outcome == Err::<(usize, Seq<(Seq<char>, i16)>), _>(
                    text@,
                ),
                Err(_) => false,
            }
        }),
{
    let atom = match player_in_room {
        Some(atom) => atom,
        None => {
            return Err(Error::State("player initial position not found"));
        },
    };
    if !has_player_term(&atom.terms, types) {
        return Err(Error::State("player tp used could not be found in type definition"));
    }
    let mut room: Option<usize> = None;
    let mut k: usize = 0;
    while k < atom.terms.len()
        invariant_except_break
            room.is_none(),
            first_room_named(*types, atom.terms@, 0) == first_room_named(
                *types,
                atom.terms@,
                k as int,
            ),
        invariant
            k <= atom.terms@.len(),
        ensures
            room == first_room_named(*types, atom.terms@, 0),
        decreases atom.terms@.len() - k,
    {
        let named = player_room(atom.terms[k].str(), types);
        if named.is_some() {
            room = named;
            break ;
        }
        k += 1;
    }
    let in_room = match room {
        Some(room) => room,
        None => {
            return Err(Error::State("player initial position not found"));
        },
    };
    proof {
        reveal_strlit("player initial position not found");
        reveal_strlit("player tp used could not be found in type definition");
        reveal_strlit("unable to parse number");
    }
    let items = match build_items(&player_has_item, types) {
        Ok(items) => items,
        Err(e) => {
            return Err(e);
        },
    };
    Ok(Player { in_room, items })
}

/// The way of the type `ty` that a term names: the term is read as a value
/// of the type, and the way that it uses is looked up in the type by its name.
/// Gives the position at which the way is found and its name.
pub open spec fn way_named(ty: CType, term: Seq<char>) -> Option<(usize, Seq<char>)> {
    match spec_parse_term(term, ty.tp@) {
        Some((_, read)) => match ty.spec_find_tp(ty.tp@[read.way].name@) {
            Some((at, tp)) => Some((at, tp.name@)),
            None => None,
        },
        None => None,
    }
}

/// The way of the type `ty` that a term names, with its position.
pub fn find_way_named<'a>(term: &str, ty: &'a CType) -> (found: Option<(usize, &'a Tp)>)
    ensures
        match found {
            Some((at, tp)) => way_named(*ty, term@) == Some((at, tp.name@)),
            None => way_named(*ty, term@).is_none(),
        },
{
    match parse_term(term, ty) {
        Ok((_, read)) => ty.find_tp(read.tp.name.as_str()),
        Err(_) => None,
    }
}

/// The room that the words of a link lead to, once the first `n` words have
/// been looked at: the room that the last word names whose place takes a room.
/// An error where such a word names no room.
pub open spec fn room_led_to(
    types: CeptreTypes,
    so_far: Option<usize>,
    args: Seq<Seq<char>>,
    vals: Seq<Seq<char>>,
    n: int,
) -> Result<Option<usize>, ()>
    decreases n,
{
    if n <= 0 {
        Ok(so_far)
    } else {
        match room_led_to(types, so_far, args, vals, n - 1) {
            Err(e) => Err(e),
            Ok(room) => if args[n - 1] == types.room.name@ {
                match types.room.spec_find_tp(vals[n - 1]) {
                    Some((at, _)) => Ok(Some(at)),
                    None => Err(()),
                }
            } else {
                Ok(room)
            },
        }
    }
}

/// The room that a term leads to, read as a link: see `room_led_to`. `None`
/// where the term is no link or no place of it takes a room.
pub open spec fn exit_named(types: CeptreTypes, term: Seq<char>) -> Result<Option<usize>, ()> {
    match spec_parse_term(term, types.link.tp@) {
        Some((_, read)) => {
            let args = texts(types.link.tp@[read.way].args@);
            room_led_to(types, None, args, read.vals, shorter(read.vals.len(), args.len()) as int)
        },
        None => Ok(None),
    }
}

/// The room that a term leads to, read as a link.
pub fn find_exit(term: &str, types: &CeptreTypes) -> (exit: Result<Option<usize>, Error<'static>>)
    ensures
        match exit {
            Ok(room) => exit_named(*types, term@) == Ok::<_, ()>(room),
            Err(Error::State(text)) => exit_named(*types, term@).is_err() && text@
                == "link to a room that is not there"@,
            Err(_) => false,
        },
{
    match parse_term(term, &types.link) {
        Ok((_, read)) => {
            let ghost args = texts(read.tp.args@);
            let ghost vals = texts(read.vals@);
            let n: usize = if read.vals.len() <= read.tp.args.len() {
                read.vals.len()
            } else {
                read.tp.args.len()
            };
            let mut link: Option<usize> = None;
            let mut k: usize = 0;
            while k < n
                invariant
                    k <= n,
                    n <= read.tp.args@.len(),
                    n <= read.vals@.len(),
                    args == texts(read.tp.args@),
                    vals == texts(read.vals@),
                    room_led_to(*types, None, args, vals, k as int) == Ok::<_, ()>(link),
                    exit_named(*types, term@) == room_led_to(*types, None, args, vals, n as int),
                decreases n - k,
            {
                assert(read.vals@[k as int]@ == vals[k as int]);
                assert(read.tp.args@[k as int]@ == args[k as int]);
                if same_text(read.tp.args[k].as_str(), types.room.name.as_str()) {
                    match types.room.find_tp(read.vals[k].as_str()) {
                        Some((l, _)) => {
                            link = Some(l);
                        },
                        None => {
                            proof {
                                lemma_no_room(*types, None, args, vals, k + 1, n as int);
                            }
                            return Err(Error::State("link to a room that is not there"));
                        },
                    }
                }
                k += 1;
            }
            Ok(link)
        },
        Err(_) => Ok(None),
    }
}

/// Once a word names no room, further words change nothing.
pub proof fn lemma_no_room(
    types: CeptreTypes,
    so_far: Option<usize>,
    args: Seq<Seq<char>>,
    vals: Seq<Seq<char>>,
    k: int,
    n: int,
)
    requires
        0 <= k <= n,
        room_led_to(types, so_far, args, vals, k).is_err(),
    ensures
        room_led_to(types, so_far, args, vals, n).is_err(),
    decreases n - k,
{
    if k < n {
        lemma_no_room(types, so_far, args, vals, k, n - 1);
    }
}

/// What has been learned of a tile while the terms of an atom are read.
pub struct TileRead {
    /// The room in which the tile lies, once a term has named one.
    pub room: Option<usize>,
    /// The room that the tile leads to, once a term has named one.
    pub exit: Option<usize>,
    /// A link leads to a room that is not there.
    pub failed: bool,
}

/// What is known of a tile once a term has been looked at. While no room is
/// known, a term that names a room gives it. A term that does not is looked at
/// as a link while no exit is known, and gives the exit if it leads to a room.
pub open spec fn read_tile_term(types: CeptreTypes, so_far: TileRead, term: Seq<char>) -> TileRead {
    if so_far.failed {
        so_far
    } else {
        match way_named(types.room, term) {
            Some((room, _)) if so_far.room.is_none() => TileRead { room: Some(room), ..so_far },
            _ => if so_far.exit.is_none() {
                match exit_named(types, term) {
                    Ok(exit) => TileRead { exit, ..so_far },
                    Err(_) => TileRead { failed: true, ..so_far },
                }
            } else {
                so_far
            },
        }
    }
}

/// What is known of a tile once the first `n` terms of an atom have been
/// looked at.
pub open spec fn read_tile_terms(types: CeptreTypes, terms: Seq<Term>, n: int) -> TileRead
    decreases n,
{
    if n <= 0 {
        TileRead { room: None, exit: None, failed: false }
    } else {
        read_tile_term(types, read_tile_terms(types, terms, n - 1), terms[n - 1].0@)
    }
}

/// Once the reading of a tile has failed, further terms change nothing.
pub proof fn lemma_tile_failed(types: CeptreTypes, terms: Seq<Term>, k: int, n: int)
    requires
        0 <= k <= n,
        read_tile_terms(types, terms, k).failed,
    ensures
        read_tile_terms(types, terms, n).failed,
    decreases n - k,
{
    if k < n {
        lemma_tile_failed(types, terms, k, n - 1);
    }
}

/// Reads from an atom where a tile lies and where it leads.
pub fn read_tile(atom: &Atom, types: &CeptreTypes) -> (read: Result<
    (Option<usize>, Option<usize>),
    Error<'static>,
>)
    ensures
        ({
            let whole = read_tile_terms(*types, atom.terms@, atom.terms@.len() as int);
            match read {
                Ok((room, exit)) => !whole.failed && whole.room == room && whole.exit == exit,
                Err(Error::State(text)) => whole.failed && text@
                    == "link to a room that is not there"@,
                Err(_) => false,
            }
        }),
{
    let mut room: Option<usize> = None;
    let mut exit: Option<usize> = None;
    let mut k: usize = 0;
    while k < atom.terms.len()
        invariant
            k <= atom.terms@.len(),
            read_tile_terms(*types, atom.terms@, k as int) == (TileRead {
                room,
                exit,
                failed: false,
            }),
        decreases atom.terms@.len() - k,
    {
        let term: &str = atom.terms[k].str();
        k += 1;
        if room.is_none() {
            if let Some((r, _)) = find_way_named(term, &types.room) {
                room = Some(r);
                continue ;
            }
        }
        if exit.is_none() {
            match find_exit(term, types) {
                Ok(found) => {
                    exit = found;
                },
                Err(e) => {
                    proof {
                        lemma_tile_failed(*types, atom.terms@, k as int, atom.terms@.len() as int);
                    }
                    return Err(e);
                },
            }
        }
    }
    Ok((room, exit))
}

/// The tiles that the first `n` atoms describe, as pairs of the room in which
/// the tile lies and the room to which it leads; an error where a link leads to
/// a room that is not there.
pub open spec fn tiles_in(types: CeptreTypes, atoms: Seq<Atom>, n: int) -> Result<
    Seq<(usize, usize)>,
    (),
>
    decreases n,
{
    if n <= 0 {
        Ok(Seq::empty())
    } else {
        match tiles_in(types, atoms, n - 1) {
            Err(e) => Err(e),
            Ok(tiles) => {
                let read = read_tile_terms(types, atoms[n - 1].terms@, atoms[n - 1].terms@.len() as int);
                if read.failed {
                    Err(())
                } else if read.room.is_some() && read.exit.is_some() {
                    Ok(tiles.push((read.room->0, read.exit->0)))
                } else {
                    Ok(tiles)
                }
            },
        }
    }
}

/// Once a tile could not be read, the atoms behind it change nothing.
pub proof fn lemma_tiles_fail(types: CeptreTypes, atoms: Seq<Atom>, k: int, n: int)
    requires
        0 <= k <= n,
        tiles_in(types, atoms, k).is_err(),
    ensures
        tiles_in(types, atoms, n).is_err(),
    decreases n - k,
{
    if k < n {
        lemma_tiles_fail(types, atoms, k, n - 1);
    }
}

/// Where each tile lies and leads.
pub open spec fn tile_view(tiles: Seq<Tile>) -> Seq<(usize, usize)> {
    Seq::new(tiles.len(), |k: int| (tiles[k].in_room, tiles[k].link_to))
}

/// Adds to `tiles` the tiles that `atoms` describe.
pub fn add_tiles(tiles: &mut Vec<Tile>, atoms: &Vec<Atom>, types: &CeptreTypes) -> (done: Result<
    (),
    Error<'static>,
>)
    ensures
        match done {
            Ok(()) => tiles_in(*types, atoms@, atoms@.len() as int) matches Ok(found)
                && tile_view(final(tiles)@) == tile_view(old(tiles)@) + found,
            Err(Error::State(text)) => tiles_in(*types, atoms@, atoms@.len() as int).is_err()
                && text@ == "link to a room that is not there"@,
            Err(_) => false,
        },
        forall|k: int| old(tiles)@.len() <= k < final(tiles)@.len() ==> (#[trigger] final(tiles)@[k]).id@ == "1"@,
        forall|k: int| 0 <= k < old(tiles)@.len() ==> final(tiles)@[k] == old(tiles)@[k],
        old(tiles)@.len() <= final(tiles)@.len(),
{
    let ghost start = tile_view(tiles@);
    let mut k: usize = 0;
    assert(tile_view(tiles@) =~= start + Seq::<(usize, usize)>::empty());
    while k < atoms.len()
        invariant
            k <= atoms@.len(),
            start == tile_view(old(tiles)@),
            tiles_in(*types, atoms@, k as int) matches Ok(found) && tile_view(tiles@) == start
                + found,
            old(tiles)@.len() <= tiles@.len(),
            forall|m: int| old(tiles)@.len() <= m < tiles@.len() ==> (#[trigger] tiles@[m]).id@ == "1"@,
            forall|m: int| 0 <= m < old(tiles)@.len() ==> tiles@[m] == old(tiles)@[m],
        decreases atoms@.len() - k,
    {
        let ghost found = tiles_in(*types, atoms@, k as int)->Ok_0;
        let ghost before = tile_view(tiles@);
        match read_tile(&atoms[k], types) {
            Ok((Some(r), Some(x))) => {
                tiles.push(Tile { id: "1".to_owned(), in_room: r, link_to: x });
                assert(tile_view(tiles@) =~= before.push((r, x)));
                assert(before.push((r, x)) =~= start + found.push((r, x)));
            },
            Ok(_) => {},
            Err(e) => {
                proof {
                    lemma_tiles_fail(*types, atoms@, k + 1, atoms@.len() as int);
                }
                return Err(e);
            },
        }
        k += 1;
    }
    Ok(())
}

/// The tiles that lead from room to room: those that the atoms of
/// `tile_in_room` describe, and then those that the atoms of `tile_link_to`
/// describe. An atom describes a tile where one of its terms names a room and
/// another is a link that leads to a room.
pub fn build_tiles(tile_in_room: Vec<Atom>, tile_link_to: Vec<Atom>, types: &CeptreTypes) -> (tiles:
    Result<Vec<Tile>, Error<'static>>)
    ensures
        ({
            let outcome = tiles_outcome(*types, tile_in_room@, tile_link_to@);
            match tiles {
                Ok(found) => {
                    &&& outcome == Ok::<_, Seq<char>>(tile_view(found@))
                    &&& forall|k: int| 0 <= k < found@.len() ==> (#[trigger] found@[k]).id@ == "1"@
                },
                Err(Error::State(text)) => outcome == Err::<Seq<(usize, usize)>, _>(text@),
                Err(_) => false,
            }
        }),
{
    let mut tiles: Vec<Tile> = Vec::new();
    match add_tiles(&mut tiles, &tile_in_room, types) {
        Ok(()) => {},
        Err(e) => {
            return Err(e);
        },
    }
    let ghost first = tile_view(tiles@);
    assert(first =~= tiles_in(*types, tile_in_room@, tile_in_room@.len() as int)->Ok_0);
    match add_tiles(&mut tiles, &tile_link_to, types) {
        Ok(()) => {},
        Err(e) => {
            return Err(e);
        },
    }
    Ok(tiles)
}

/// What is known of a character while the atoms of a state are read.
pub struct CharRead {
    /// What the character is called.
    pub id: Seq<char>,
    /// The room in which the character is.
    pub in_room: usize,
    /// What the character has, once an atom has said so.
    pub items: Option<Seq<(Seq<char>, i16)>>,
    /// The room that the character leads to, once an atom has said so.
    pub link_to: Option<usize>,
}

/// A character in the making.
#[derive(Debug)]
pub struct CharBuilder {
    pub id: String,
    pub in_room: usize,
    pub items: Option<Vec<Rsrc>>,
    pub link_to: Option<usize>,
}

impl View for CharBuilder {
    type V = CharRead;

    open spec fn view(&self) -> CharRead {
        CharRead {
            id: self.id@,
            in_room: self.in_room,
            items: match self.items {
                Some(items) => Some(item_view(items@)),
                None => None,
            },
            link_to: self.link_to,
        }
    }
}

/// What is known of each of a list of characters.
pub open spec fn char_views(builders: Seq<CharBuilder>) -> Seq<CharRead> {
    Seq::new(builders.len(), |k: int| builders[k]@)
}

/// The first position in `chars`, from `from` on, of the character called
/// `id`; the length of `chars` where there is none.
pub open spec fn first_char(chars: Seq<CharRead>, id: Seq<char>, from: int) -> int
    decreases chars.len() - from,
{
    if from < 0 || from >= chars.len() {
        chars.len() as int
    } else if chars[from].id == id {
        from
    } else {
        first_char(chars, id, from + 1)
    }
}

/// The character that the terms of an atom name: the first way of the
/// character type that one of the first `n` terms names.
pub open spec fn char_named(types: CeptreTypes, terms: Seq<Term>, n: int) -> Option<Seq<char>>
    decreases n,
{
    if n <= 0 {
        None
    } else {
        match char_named(types, terms, n - 1) {
            Some(id) => Some(id),
            None => match way_named(types.character, terms[n - 1].0@) {
                Some((_, id)) => Some(id),
                None => None,
            },
        }
    }
}

/// What has been learned of the place of a character while the terms of an
/// atom are read.
pub struct PlaceRead {
    pub id: Option<Seq<char>>,
    pub room: Option<usize>,
}

/// What is known of where a character is once the first `n` terms of an atom
/// have been looked at. While no character is known, a term that names one
/// gives it; a term that does not gives the room, while none is known, if it
/// names one.
pub open spec fn place_read(types: CeptreTypes, terms: Seq<Term>, n: int) -> PlaceRead
    decreases n,
{
    if n <= 0 {
        PlaceRead { id: None, room: None }
    } else {
        let so_far = place_read(types, terms, n - 1);
        match way_named(types.character, terms[n - 1].0@) {
            Some((_, id)) if so_far.id.is_none() => PlaceRead { id: Some(id), ..so_far },
            _ => match way_named(types.room, terms[n - 1].0@) {
                Some((room, _)) if so_far.room.is_none() => PlaceRead {
                    room: Some(room),
                    ..so_far
                },
                _ => so_far,
            },
        }
    }
}

/// `chars` with the character `made` put in: in place of the first character
/// of its name, or behind the others where there is none.
pub open spec fn with_char(chars: Seq<CharRead>, made: CharRead) -> Seq<CharRead> {
    let at = first_char(chars, made.id, 0);
    if at < chars.len() {
        chars.update(at, made)
    } else {
        chars.push(made)
    }
}

/// The characters that the first `n` atoms place, each in its room, with
/// nothing known of what it has or where it leads. An atom places a character
/// where one of its terms names the character and another names a room. A
/// character that is placed twice is where it was placed last.
pub open spec fn chars_placed(types: CeptreTypes, atoms: Seq<Atom>, n: int) -> Seq<CharRead>
    decreases n,
{
    if n <= 0 {
        Seq::empty()
    } else {
        let so_far = chars_placed(types, atoms, n - 1);
        let place = place_read(types, atoms[n - 1].terms@, atoms[n - 1].terms@.len() as int);
        if place.id.is_some() && place.room.is_some() {
            with_char(
                so_far,
                CharRead { id: place.id->0, in_room: place.room->0, items: None, link_to: None },
            )
        } else {
            so_far
        }
    }
}

/// The characters once the first `n` atoms that give them things have been
/// looked at. An atom gives the character that it names the one item that it
/// speaks of, or nothing, in place of whatever the character had. An error
/// where the number of an item cannot be read.
pub open spec fn chars_given(types: CeptreTypes, chars: Seq<CharRead>, atoms: Seq<Atom>, n: int) -> Result<
    Seq<CharRead>,
    (),
>
    decreases n,
{
    if n <= 0 {
        Ok(chars)
    } else {
        match chars_given(types, chars, atoms, n - 1) {
            Err(e) => Err(e),
            Ok(so_far) => {
                let atom = atoms[n - 1];
                let items = match item_in(types, atom) {
                    Some(Ok(item)) => Ok(seq![item]),
                    Some(Err(e)) => Err(e),
                    None => Ok(Seq::empty()),
                };
                match items {
                    Err(e) => Err(e),
                    Ok(items) => match char_named(types, atom.terms@, atom.terms@.len() as int) {
                        Some(id) => {
                            let at = first_char(so_far, id, 0);
                            if at < so_far.len() {
                                Ok(so_far.update(at, CharRead { items: Some(items), ..so_far[at] }))
                            } else {
                                Ok(so_far)
                            }
                        },
                        None => Ok(so_far),
                    },
                }
            },
        }
    }
}

/// What has been learned of the link of a character while the terms of an
/// atom are read.
pub struct LinkRead {
    pub id: Option<Seq<char>>,
    pub link: Option<usize>,
    pub failed: bool,
}

/// What is known of where a character leads once the first `n` terms of an
/// atom have been looked at.
pub open spec fn link_read(types: CeptreTypes, terms: Seq<Term>, n: int) -> LinkRead
    decreases n,
{
    if n <= 0 {
        LinkRead { id: None, link: None, failed: false }
    } else {
        let so_far = link_read(types, terms, n - 1);
        if so_far.failed {
            so_far
        } else {
            match way_named(types.character, terms[n - 1].0@) {
                Some((_, id)) if so_far.id.is_none() => LinkRead { id: Some(id), ..so_far },
                _ => if so_far.link.is_none() {
                    match exit_named(types, terms[n - 1].0@) {
                        Ok(link) => LinkRead { link, ..so_far },
                        Err(_) => LinkRead { failed: true, ..so_far },
                    }
                } else {
                    so_far
                },
            }
        }
    }
}

/// The characters once the first `n` atoms that say where they lead have been
/// looked at. An error where a link leads to a room that is not there.
pub open spec fn chars_linked(types: CeptreTypes, chars: Seq<CharRead>, atoms: Seq<Atom>, n: int) -> Result<
    Seq<CharRead>,
    (),
>
    decreases n,
{
    if n <= 0 {
        Ok(chars)
    } else {
        match chars_linked(types, chars, atoms, n - 1) {
            Err(e) => Err(e),
            Ok(so_far) => {
                let read = link_read(types, atoms[n - 1].terms@, atoms[n - 1].terms@.len() as int);
                if read.failed {
                    Err(())
                } else if read.id.is_some() && read.link.is_some() {
                    let at = first_char(so_far, read.id->0, 0);
                    if at < so_far.len() {
                        Ok(so_far.update(at, CharRead { link_to: read.link, ..so_far[at] }))
                    } else {
                        Ok(so_far)
                    }
                } else {
                    Ok(so_far)
                }
            },
        }
    }
}

/// The characters among the first `n` of `chars` of which it is known what
/// they have, in order.
pub open spec fn chars_made(chars: Seq<CharRead>, n: int) -> Seq<CharRead>
    decreases n,
{
    if n <= 0 {
        Seq::empty()
    } else if chars[n - 1].items.is_some() {
        chars_made(chars, n - 1).push(chars[n - 1])
    } else {
        chars_made(chars, n - 1)
    }
}

/// What a character is: its name, its room, what it has, and where it leads.
pub open spec fn character_views(chars: Seq<Character>) -> Seq<CharRead> {
    Seq::new(
        chars.len(),
        |k: int|
            CharRead {
                id: chars[k].id@,
                in_room: chars[k].in_room,
                items: Some(item_view(chars[k].items@)),
                link_to: chars[k].link_to,
            },
    )
}

/// The position of the character called `id`, or `None`.
pub fn find_char(builders: &Vec<CharBuilder>, id: &str) -> (at: Option<usize>)
    ensures
        match at {
            Some(k) => k < builders@.len() && k == first_char(char_views(builders@), id@, 0),
            None => first_char(char_views(builders@), id@, 0) == builders@.len(),
        },
{
    let mut k: usize = 0;
    while k < builders.len()
        invariant
            k <= builders@.len(),
            first_char(char_views(builders@), id@, 0) == first_char(
                char_views(builders@),
                id@,
                k as int,
            ),
        decreases builders@.len() - k,
    {
        if same_text(builders[k].id.as_str(), id) {
            return Some(k);
        }
        k += 1;
    }
    None
}

/// Reads from the terms of an atom which character it names.
pub fn read_char<'a>(atom: &Atom, types: &'a CeptreTypes) -> (id: Option<&'a Tp>)
    ensures
        match id {
            Some(tp) => char_named(*types, atom.terms@, atom.terms@.len() as int) == Some(
                tp.name@,
            ),
            None => char_named(*types, atom.terms@, atom.terms@.len() as int).is_none(),
        },
{
    let mut k: usize = 0;
    while k < atom.terms.len()
        invariant
            k <= atom.terms@.len(),
            char_named(*types, atom.terms@, k as int).is_none(),
        decreases atom.terms@.len() - k,
    {
        if let Some((_, c)) = find_way_named(atom.terms[k].str(), &types.character) {
            proof {
                lemma_char_named(*types, atom.terms@, k + 1, atom.terms@.len() as int);
            }
            return Some(c);
        }
        k += 1;
    }
    None
}

/// The character that an atom names is the first that one of its terms
/// names.
pub proof fn lemma_char_named(types: CeptreTypes, terms: Seq<Term>, k: int, n: int)
    requires
        0 <= k <= n,
        char_named(types, terms, k).is_some(),
    ensures
        char_named(types, terms, n) == char_named(types, terms, k),
    decreases n - k,
{
    if k < n {
        lemma_char_named(types, terms, k, n - 1);
    }
}

/// Reads from the terms of an atom which character it places in which room.
pub fn read_place<'a>(atom: &Atom, types: &'a CeptreTypes) -> (place: (Option<&'a Tp>, Option<usize>))
    ensures
        ({
            let read = place_read(*types, atom.terms@, atom.terms@.len() as int);
            &&& read.room == place.1
            &&& match place.0 {
                Some(tp) => read.id == Some(tp.name@),
                None => read.id.is_none(),
            }
        }),
{
    let mut room: Option<usize> = None;
    let mut ch: Option<&Tp> = None;
    let mut k: usize = 0;
    while k < atom.terms.len()
        invariant
            k <= atom.terms@.len(),
            ({
                let read = place_read(*types, atom.terms@, k as int);
                &&& read.room == room
                &&& match ch {
                    Some(tp) => read.id == Some(tp.name@),
                    None => read.id.is_none(),
                }
            }),
        decreases atom.terms@.len() - k,
    {
        let term: &str = atom.terms[k].str();
        k += 1;
        if ch.is_none() {
            if let Some((_, c)) = find_way_named(term, &types.character) {
                ch = Some(c);
                continue ;
            }
        }
        if room.is_none() {
            if let Some((r, _)) = find_way_named(term, &types.room) {
                room = Some(r);
            }
        }
    }
    (ch, room)
}

/// Reads from the terms of an atom which character it says leads where.
pub fn read_link<'a>(atom: &Atom, types: &'a CeptreTypes) -> (read: Result<
    (Option<&'a Tp>, Option<usize>),
    Error<'static>,
>)
    ensures
        ({
            let whole = link_read(*types, atom.terms@, atom.terms@.len() as int);
            match read {
                Ok((id, link)) => {
                    &&& !whole.failed
                    &&& whole.link == link
                    &&& match id {
                        Some(tp) => whole.id == Some(tp.name@),
                        None => whole.id.is_none(),
                    }
                },
                Err(Error::State(text)) => whole.failed && text@
                    == "link to a room that is not there"@,
                Err(_) => false,
            }
        }),
{
    let mut link: Option<usize> = None;
    let mut ch: Option<&Tp> = None;
    let mut k: usize = 0;
    while k < atom.terms.len()
        invariant
            k <= atom.terms@.len(),
            ({
                let whole = link_read(*types, atom.terms@, k as int);
                &&& !whole.failed
                &&& whole.link == link
                &&& match ch {
                    Some(tp) => whole.id == Some(tp.name@),
                    None => whole.id.is_none(),
                }
            }),
        decreases atom.terms@.len() - k,
    {
        let term: &str = atom.terms[k].str();
        k += 1;
        if ch.is_none() {
            if let Some((_, c)) = find_way_named(term, &types.character) {
                ch = Some(c);
                continue ;
            }
        }
        if link.is_none() {
            match find_exit(term, types) {
                Ok(found) => {
                    link = found;
                },
                Err(e) => {
                    proof {
                        lemma_link_failed(*types, atom.terms@, k as int, atom.terms@.len() as int);
                    }
                    return Err(e);
                },
            }
        }
    }
    Ok((ch, link))
}

/// Once the reading of a link has failed, further terms change nothing.
pub proof fn lemma_link_failed(types: CeptreTypes, terms: Seq<Term>, k: int, n: int)
    requires
        0 <= k <= n,
        link_read(types, terms, k).failed,
    ensures
        link_read(types, terms, n).failed,
    decreases n - k,
{
    if k < n {
        lemma_link_failed(types, terms, k, n - 1);
    }
}

/// Once an item could not be read, the atoms behind it change nothing.
pub proof fn lemma_given_fail(types: CeptreTypes, chars: Seq<CharRead>, atoms: Seq<Atom>, k: int, n: int)
    requires
        0 <= k <= n,
        chars_given(types, chars, atoms, k).is_err(),
    ensures
        chars_given(types, chars, atoms, n).is_err(),
    decreases n - k,
{
    if k < n {
        lemma_given_fail(types, chars, atoms, k, n - 1);
    }
}

/// Once a link could not be read, the atoms behind it change nothing.
pub proof fn lemma_linked_fail(types: CeptreTypes, chars: Seq<CharRead>, atoms: Seq<Atom>, k: int, n: int)
    requires
        0 <= k <= n,
        chars_linked(types, chars, atoms, k).is_err(),
    ensures
        chars_linked(types, chars, atoms, n).is_err(),
    decreases n - k,
{
    if k < n {
        lemma_linked_fail(types, chars, atoms, k, n - 1);
    }
}

/// The characters of a state.
///
/// The atoms of `char_in_room` place characters in rooms; those of
/// `char_has_item` give them things; those of `char_link_to` say where they
/// lead. A character is made where it has been placed and it is known what it
/// has. The characters come in the order in which they were first placed.
pub fn build_chars(
    char_in_room: Vec<Atom>,
    char_has_item: Vec<Atom>,
    char_link_to: Vec<Atom>,
    types: &CeptreTypes,
) -> (chars: Result<Vec<Character>, Error<'static>>)
    ensures
        ({
            let outcome = chars_outcome(*types, char_in_room@, char_has_item@, char_link_to@);
            match chars {
                Ok(made) => outcome == Ok::<_, Seq<char>>(character_views(made@)),
                Err(Error::State(text)) => outcome == Err::<Seq<CharRead>, _>(text@),
                Err(_) => false,
            }
        }),
{
    let mut builders: Vec<CharBuilder> = Vec::new();
    assert(char_views(builders@) =~= Seq::<CharRead>::empty());
    let mut k: usize = 0;
    while k < char_in_room.len()
        invariant
            k <= char_in_room@.len(),
            char_views(builders@) == chars_placed(*types, char_in_room@, k as int),
        decreases char_in_room@.len() - k,
    {
        let ghost before = char_views(builders@);
        if let (Some(c), Some(room)) = read_place(&char_in_room[k], types) {
            let made = CharBuilder { id: c.name.clone(), in_room: room, items: None, link_to: None };
            match find_char(&builders, c.name.as_str()) {
                Some(at) => {
                    builders.set(at, made);
                    assert(char_views(builders@) =~= before.update(at as int, made@));
                },
                None => {
                    builders.push(made);
                    assert(char_views(builders@) =~= before.push(made@));
                },
            }
        }
        k += 1;
    }
    let ghost placed = char_views(builders@);
    let mut k: usize = 0;
    while k < char_has_item.len()
        invariant
            k <= char_has_item@.len(),
            placed == chars_placed(*types, char_in_room@, char_in_room@.len() as int),
            chars_given(*types, placed, char_has_item@, k as int) == Ok::<_, ()>(
                char_views(builders@),
            ),
        decreases char_has_item@.len() - k,
    {
        let ghost before = char_views(builders@);
        let ch = read_char(&char_has_item[k], types);
        let mut items: Vec<Rsrc> = Vec::new();
        match build_item(&char_has_item[k], types) {
            Some(Ok(item)) => {
                items.push(item);
                assert(item_view(items@) =~= seq![(item.id@, item.count)]);
            },
            Some(Err(e)) => {
                proof {
                    lemma_given_fail(
                        *types,
                        placed,
                        char_has_item@,
                        k + 1,
                        char_has_item@.len() as int,
                    );
                }
                return Err(e);
            },
            None => {
                assert(item_view(items@) =~= Seq::<(Seq<char>, i16)>::empty());
            },
        }
        if let Some(c) = ch {
            if let Some(at) = find_char(&builders, c.name.as_str()) {
                let ghost given = item_view(items@);
                let builder = &mut builders[at];
                builder.items = Some(items);
                assert(char_views(builders@) =~= before.update(
                    at as int,
                    CharRead { items: Some(given), ..before[at as int] },
                ));
            }
        }
        k += 1;
    }
    let ghost given = char_views(builders@);
    let mut k: usize = 0;
    while k < char_link_to.len()
        invariant
            k <= char_link_to@.len(),
            placed == chars_placed(*types, char_in_room@, char_in_room@.len() as int),
            chars_given(*types, placed, char_has_item@, char_has_item@.len() as int) == Ok::<
                _,
                (),
            >(given),
            chars_linked(*types, given, char_link_to@, k as int) == Ok::<_, ()>(
                char_views(builders@),
            ),
        decreases char_link_to@.len() - k,
    {
        let ghost before = char_views(builders@);
        match read_link(&char_link_to[k], types) {
            Ok((Some(c), Some(l))) => {
                if let Some(at) = find_char(&builders, c.name.as_str()) {
                    let builder = &mut builders[at];
                    builder.link_to = Some(l);
                    assert(char_views(builders@) =~= before.update(
                        at as int,
                        CharRead { link_to: Some(l), ..before[at as int] },
                    ));
                }
            },
            Ok(_) => {},
            Err(e) => {
                proof {
                    lemma_linked_fail(
                        *types,
                        given,
                        char_link_to@,
                        k + 1,
                        char_link_to@.len() as int,
                    );
                }
                return Err(e);
            },
        }
        k += 1;
    }
    let ghost linked = char_views(builders@);
    let mut chars: Vec<Character> = Vec::new();
    assert(character_views(chars@) =~= Seq::<CharRead>::empty());
    while builders.len() > 0
        invariant
            builders@.len() <= linked.len(),
            character_views(chars@) == chars_made(linked, linked.len() - builders@.len()),
            char_views(builders@) == linked.skip(linked.len() - builders@.len()),
        decreases builders@.len(),
    {
        let ghost done = linked.len() - builders@.len();
        let ghost before = character_views(chars@);
        let ghost waiting = builders@;
        assert(char_views(waiting)[0] == linked.skip(done)[0]);
        let builder = builders.remove(0);
        assert(builder@ == linked[done]);
        assert forall|m: int| 0 <= m < builders@.len() implies #[trigger] char_views(builders@)[m]
            == linked.skip(done + 1)[m] by {
            assert(builders@[m] == waiting[m + 1]);
            assert(char_views(waiting)[m + 1] == linked.skip(done)[m + 1]);
        }
        assert(char_views(builders@) =~= linked.skip(done + 1));
        if let Some(items) = builder.items {
            let made = Character {
                id: builder.id,
                items,
                in_room: builder.in_room,
                link_to: builder.link_to,
            };
            chars.push(made);
            assert(character_views(chars@) =~= before.push(linked[done]));
        }
    }
    Ok(chars)
}

/// How the building of the player ends: with the room of the player and
/// what the player has, or with the words of the error.
pub open spec fn player_outcome(
    types: CeptreTypes,
    player_in_room: Option<Atom>,
    player_has_item: Seq<Atom>,
) -> Result<(usize, Seq<(Seq<char>, i16)>), Seq<char>> {
    match player_in_room {
        None => Err("player initial position not found"@),
        Some(atom) => if !names_player(types, atom.terms@, atom.terms@.len() as int) {
            Err("player tp used could not be found in type definition"@)
        } else {
            match first_room_named(types, atom.terms@, 0) {
                None => Err("player initial position not found"@),
                Some(room) => match items_in(types, player_has_item, player_has_item.len() as int) {
                    Err(_) => Err("unable to parse number"@),
                    Ok(items) => Ok((room, items)),
                },
            }
        },
    }
}

/// How the building of the characters ends: with the characters, or with
/// the words of the error.
pub open spec fn chars_outcome(
    types: CeptreTypes,
    char_in_room: Seq<Atom>,
    char_has_item: Seq<Atom>,
    char_link_to: Seq<Atom>,
) -> Result<Seq<CharRead>, Seq<char>> {
    let placed = chars_placed(types, char_in_room, char_in_room.len() as int);
    match chars_given(types, placed, char_has_item, char_has_item.len() as int) {
        Err(_) => Err("unable to parse number"@),
        Ok(given) => match chars_linked(types, given, char_link_to, char_link_to.len() as int) {
            Err(_) => Err("link to a room that is not there"@),
            Ok(linked) => Ok(chars_made(linked, linked.len() as int)),
        },
    }
}

/// How the building of the tiles ends: with where each tile lies and leads,
/// or with the words of the error.
pub open spec fn tiles_outcome(types: CeptreTypes, tile_in_room: Seq<Atom>, tile_link_to: Seq<Atom>) -> Result<
    Seq<(usize, usize)>,
    Seq<char>,
> {
    match tiles_in(types, tile_in_room, tile_in_room.len() as int) {
        Err(_) => Err("link to a room that is not there"@),
        Ok(first) => match tiles_in(types, tile_link_to, tile_link_to.len() as int) {
            Err(_) => Err("link to a room that is not there"@),
            Ok(second) => Ok(first + second),
        },
    }
}

/// Which predicate stands for which fact: the kind of fact, and the name of
/// the predicate.
pub type Queries = Seq<(CData, Seq<char>)>;

/// The kinds of fact and the names of the predicates of a list of queries.
pub open spec fn query_names(queries: Seq<(CData, Predicate)>) -> Queries {
    Seq::new(queries.len(), |k: int| (queries[k].0, queries[k].1.name@))
}

/// The name of the predicate that stands for the fact `kind`: that of the
/// last of the first `n` queries of that kind.
pub open spec fn query_for(queries: Queries, kind: CData, n: int) -> Option<Seq<char>>
    decreases n,
{
    if n <= 0 {
        None
    } else if queries[n - 1].0 == kind {
        Some(queries[n - 1].1)
    } else {
        query_for(queries, kind, n - 1)
    }
}

/// The atom states a fact of the kind `kind`.
pub open spec fn states(queries: Queries, kind: CData, atom: Atom) -> bool {
    query_for(queries, kind, queries.len() as int) == Some(atom.name@)
}

/// The atoms among the first `n` that state a fact of the kind `kind`, in
/// order.
pub open spec fn stating(queries: Queries, kind: CData, atoms: Seq<Atom>, n: int) -> Seq<
    Atom,
>
    decreases n,
{
    if n <= 0 {
        Seq::empty()
    } else if states(queries, kind, atoms[n - 1]) {
        stating(queries, kind, atoms, n - 1).push(atoms[n - 1])
    } else {
        stating(queries, kind, atoms, n - 1)
    }
}

/// The first atom, from `from` on, that states a fact of the kind `kind`.
pub open spec fn first_stating(queries: Queries, kind: CData, atoms: Seq<Atom>, from: int) -> Option<
    Atom,
>
    decreases atoms.len() - from,
{
    if from < 0 || from >= atoms.len() {
        None
    } else if states(queries, kind, atoms[from]) {
        Some(atoms[from])
    } else {
        first_stating(queries, kind, atoms, from + 1)
    }
}

/// Two lists of atoms have the same terms, atom by atom.
pub open spec fn same_terms(atoms: Seq<Atom>, others: Seq<Atom>) -> bool {
    atoms.len() == others.len() && forall|k: int|
        0 <= k < atoms.len() ==> (#[trigger] atoms[k]).terms@ == others[k].terms@
}

/// The name of the predicate that stands for the fact `kind`.
pub fn find_query<'a>(queries: &'a Vec<(CData, Predicate)>, kind: CData) -> (name: Option<&'a str>)
    ensures
        match name {
            Some(text) => query_for(query_names(queries@), kind, queries@.len() as int) == Some(
                text@,
            ),
            None => query_for(query_names(queries@), kind, queries@.len() as int).is_none(),
        },
{
    let mut k: usize = queries.len();
    while k > 0
        invariant
            k <= queries@.len(),
            query_for(query_names(queries@), kind, queries@.len() as int) == query_for(
                query_names(queries@),
                kind,
                k as int,
            ),
        decreases k,
    {
        k -= 1;
        if queries[k].0 == kind {
            return Some(queries[k].1.name.as_str());
        }
    }
    None
}

/// A copy of an atom.
pub fn copy_atom(atom: &Atom) -> (copy: Atom)
    ensures
        copy.name@ == atom.name@,
        copy.mode == atom.mode,
        copy.terms@ == atom.terms@,
{
    let mut terms: Vec<Term> = Vec::new();
    let mut k: usize = 0;
    while k < atom.terms.len()
        invariant
            k <= atom.terms@.len(),
            terms@ == atom.terms@.take(k as int),
        decreases atom.terms@.len() - k,
    {
        terms.push(Term(atom.terms[k].0.clone()));
        k += 1;
        assert(terms@ =~= atom.terms@.take(k as int));
    }
    assert(atom.terms@.take(atom.terms@.len() as int) =~= atom.terms@);
    Atom { name: atom.name.clone(), mode: atom.mode, terms }
}

/// Copies of the atoms that state a fact of the kind `kind`.
pub fn collect(atoms: &Vec<Atom>, queries: &Vec<(CData, Predicate)>, kind: CData) -> (found: Vec<Atom>)
    ensures
        same_terms(found@, stating(query_names(queries@), kind, atoms@, atoms@.len() as int)),
{
    let mut found: Vec<Atom> = Vec::new();
    let name = match find_query(queries, kind) {
        Some(name) => name,
        None => {
            proof {
                lemma_none_stating(query_names(queries@), kind, atoms@, atoms@.len() as int);
            }
            return found;
        },
    };
    let mut k: usize = 0;
    while k < atoms.len()
        invariant
            k <= atoms@.len(),
            query_for(query_names(queries@), kind, queries@.len() as int) == Some(name@),
            same_terms(found@, stating(query_names(queries@), kind, atoms@, k as int)),
        decreases atoms@.len() - k,
    {
        if same_text(atoms[k].name.as_str(), name) {
            found.push(copy_atom(&atoms[k]));
        }
        k += 1;
    }
    found
}

/// Where no predicate stands for a fact, no atom states it.
pub proof fn lemma_none_stating(queries: Queries, kind: CData, atoms: Seq<Atom>, n: int)
    requires
        query_for(queries, kind, queries.len() as int).is_none(),
    ensures
        stating(queries, kind, atoms, n) == Seq::<Atom>::empty(),
    decreases n,
{
    if n > 0 {
        lemma_none_stating(queries, kind, atoms, n - 1);
    }
}

/// The first atom that states a fact of the kind `kind`.
pub fn find_stating<'a>(atoms: &'a Vec<Atom>, queries: &Vec<(CData, Predicate)>, kind: CData) -> (found: Option<
    &'a Atom,
>)
    ensures
        match found {
            Some(atom) => first_stating(query_names(queries@), kind, atoms@, 0) == Some(*atom),
            None => first_stating(query_names(queries@), kind, atoms@, 0).is_none(),
        },
{
    let name = match find_query(queries, kind) {
        Some(name) => name,
        None => {
            proof {
                lemma_none_first(query_names(queries@), kind, atoms@, 0);
            }
            return None;
        },
    };
    let mut k: usize = 0;
    while k < atoms.len()
        invariant
            k <= atoms@.len(),
            query_for(query_names(queries@), kind, queries@.len() as int) == Some(name@),
            first_stating(query_names(queries@), kind, atoms@, 0) == first_stating(
                query_names(queries@),
                kind,
                atoms@,
                k as int,
            ),
        decreases atoms@.len() - k,
    {
        if same_text(atoms[k].name.as_str(), name) {
            return Some(&atoms[k]);
        }
        k += 1;
    }
    None
}

/// Where no predicate stands for a fact, no atom is the first to state it.
pub proof fn lemma_none_first(queries: Queries, kind: CData, atoms: Seq<Atom>, from: int)
    requires
        query_for(queries, kind, queries.len() as int).is_none(),
    ensures
        first_stating(queries, kind, atoms, from).is_none(),
    decreases atoms.len() - from,
{
    if 0 <= from < atoms.len() {
        lemma_none_first(queries, kind, atoms, from + 1);
    }
}

/// Atoms with the same terms speak of the same items.
pub proof fn lemma_items_same_terms(types: CeptreTypes, atoms: Seq<Atom>, others: Seq<Atom>, n: int)
    requires
        same_terms(atoms, others),
        0 <= n <= atoms.len(),
    ensures
        items_in(types, atoms, n) == items_in(types, others, n),
    decreases n,
{
    if n > 0 {
        lemma_items_same_terms(types, atoms, others, n - 1);
        assert(atoms[n - 1].terms@ == others[n - 1].terms@);
    }
}

/// Atoms with the same terms describe the same tiles.
pub proof fn lemma_tiles_same_terms(types: CeptreTypes, atoms: Seq<Atom>, others: Seq<Atom>, n: int)
    requires
        same_terms(atoms, others),
        0 <= n <= atoms.len(),
    ensures
        tiles_in(types, atoms, n) == tiles_in(types, others, n),
    decreases n,
{
    if n > 0 {
        lemma_tiles_same_terms(types, atoms, others, n - 1);
        assert(atoms[n - 1].terms@ == others[n - 1].terms@);
    }
}

/// Atoms with the same terms place the same characters.
pub proof fn lemma_placed_same_terms(types: CeptreTypes, atoms: Seq<Atom>, others: Seq<Atom>, n: int)
    requires
        same_terms(atoms, others),
        0 <= n <= atoms.len(),
    ensures
        chars_placed(types, atoms, n) == chars_placed(types, others, n),
    decreases n,
{
    if n > 0 {
        lemma_placed_same_terms(types, atoms, others, n - 1);
        assert(atoms[n - 1].terms@ == others[n - 1].terms@);
    }
}

/// Atoms with the same terms give characters the same things.
pub proof fn lemma_given_same_terms(
    types: CeptreTypes,
    chars: Seq<CharRead>,
    atoms: Seq<Atom>,
    others: Seq<Atom>,
    n: int,
)
    requires
        same_terms(atoms, others),
        0 <= n <= atoms.len(),
    ensures
        chars_given(types, chars, atoms, n) == chars_given(types, chars, others, n),
    decreases n,
{
    if n > 0 {
        lemma_given_same_terms(types, chars, atoms, others, n - 1);
        assert(atoms[n - 1].terms@ == others[n - 1].terms@);
    }
}

/// Atoms with the same terms lead characters to the same rooms.
pub proof fn lemma_linked_same_terms(
    types: CeptreTypes,
    chars: Seq<CharRead>,
    atoms: Seq<Atom>,
    others: Seq<Atom>,
    n: int,
)
    requires
        same_terms(atoms, others),
        0 <= n <= atoms.len(),
    ensures
        chars_linked(types, chars, atoms, n) == chars_linked(types, chars, others, n),
    decreases n,
{
    if n > 0 {
        lemma_linked_same_terms(types, chars, atoms, others, n - 1);
        assert(atoms[n - 1].terms@ == others[n - 1].terms@);
    }
}

/// The items of `all`, each once, in the order in which they first occur
/// among the first `n`.
pub open spec fn distinct_items(all: Seq<(Seq<char>, i16)>, n: int) -> Seq<(Seq<char>, i16)>
    decreases n,
{
    if n <= 0 {
        Seq::empty()
    } else if distinct_items(all, n - 1).contains(all[n - 1]) {
        distinct_items(all, n - 1)
    } else {
        distinct_items(all, n - 1).push(all[n - 1])
    }
}

/// The items of the first `n` characters, character by character.
pub open spec fn items_of_chars(chars: Seq<CharRead>, n: int) -> Seq<(Seq<char>, i16)>
    decreases n,
{
    if n <= 0 {
        Seq::empty()
    } else {
        items_of_chars(chars, n - 1) + chars[n - 1].items->0
    }
}

/// Whether an item of that kind and number is among `items`.
pub fn has_item(items: &Vec<Rsrc>, item: &Rsrc) -> (found: bool)
    ensures
        found == item_view(items@).contains((item.id@, item.count)),
{
    let mut k: usize = 0;
    while k < items.len()
        invariant
            k <= items@.len(),
            forall|m: int| 0 <= m < k ==> item_view(items@)[m] != (item.id@, item.count),
        decreases items@.len() - k,
    {
        if items[k].count == item.count && same_text(items[k].id.as_str(), item.id.as_str()) {
            assert(item_view(items@)[k as int] == (item.id@, item.count));
            return true;
        }
        k += 1;
    }
    false
}

/// Adds to `found` the items of `items` that are not among `found` yet.
fn add_distinct(found: &mut Vec<Rsrc>, items: &Vec<Rsrc>, Ghost(all): Ghost<Seq<(Seq<char>, i16)>>)
    requires
        item_view(old(found)@) == distinct_items(all, all.len() as int),
    ensures
        item_view(final(found)@) == distinct_items(
            all + item_view(items@),
            (all + item_view(items@)).len() as int,
        ),
{
    let ghost more = item_view(items@);
    let mut k: usize = 0;
    proof {
        lemma_distinct_prefix(all, all + more, all.len() as int);
    }
    while k < items.len()
        invariant
            k <= items@.len(),
            more == item_view(items@),
            item_view(found@) == distinct_items(all + more, all.len() + k),
        decreases items@.len() - k,
    {
        let ghost before = item_view(found@);
        assert((all + more)[all.len() + k] == (items@[k as int].id@, items@[k as int].count));
        if !has_item(found, &items[k]) {
            found.push(Rsrc { id: items[k].id.clone(), count: items[k].count });
            assert(item_view(found@) =~= before.push((items@[k as int].id@, items@[k as int].count)));
        }
        k += 1;
    }
}

/// The distinct items among the first `n` depend on those alone.
pub proof fn lemma_distinct_prefix(all: Seq<(Seq<char>, i16)>, longer: Seq<(Seq<char>, i16)>, n: int)
    requires
        0 <= n <= all.len(),
        all.len() <= longer.len(),
        forall|k: int| 0 <= k < all.len() ==> all[k] == longer[k],
    ensures
        distinct_items(all, n) == distinct_items(longer, n),
    decreases n,
{
    if n > 0 {
        lemma_distinct_prefix(all, longer, n - 1);
    }
}

/// The state in which a game begins.
#[derive(Debug)]
pub struct State {
    pub player: Player,
    pub characters: Vec<Character>,
    /// How many rooms there are.
    pub rooms: usize,
    pub tiles: Vec<Tile>,
    /// The items that the player and the characters have, each once.
    pub items: Vec<Rsrc>,
}

/// What a state is made of.
pub struct StateRead {
    pub player_room: usize,
    pub player_items: Seq<(Seq<char>, i16)>,
    pub characters: Seq<CharRead>,
    pub rooms: nat,
    pub tiles: Seq<(usize, usize)>,
    pub items: Seq<(Seq<char>, i16)>,
}

impl View for State {
    type V = StateRead;

    open spec fn view(&self) -> StateRead {
        StateRead {
            player_room: self.player.in_room,
            player_items: item_view(self.player.items@),
            characters: character_views(self.characters@),
            rooms: self.rooms as nat,
            tiles: tile_view(self.tiles@),
            items: item_view(self.items@),
        }
    }
}

/// How the reading of an initial state ends: with the state, or with the
/// words of the error. The player is built first, then the characters, then
/// the tiles; the first that cannot be built gives the error.
pub open spec fn state_outcome(types: CeptreTypes, queries: Queries, atoms: Seq<Atom>) -> Result<
    StateRead,
    Seq<char>,
> {
    let n = atoms.len() as int;
    match player_outcome(
        types,
        first_stating(queries, CData::PlayerInRoom, atoms, 0),
        stating(queries, CData::PlayerHasItem, atoms, n),
    ) {
        Err(e) => Err(e),
        Ok((player_room, player_items)) => match chars_outcome(
            types,
            stating(queries, CData::CharInRoom, atoms, n),
            stating(queries, CData::CharHasItem, atoms, n),
            stating(queries, CData::CharToRoom, atoms, n),
        ) {
            Err(e) => Err(e),
            Ok(characters) => match tiles_outcome(
                types,
                stating(queries, CData::TileInRoom, atoms, n),
                stating(queries, CData::TileToRoom, atoms, n),
            ) {
                Err(e) => Err(e),
                Ok(tiles) => {
                    let all = player_items + items_of_chars(characters, characters.len() as int);
                    Ok(
                        StateRead {
                            player_room,
                            player_items,
                            characters,
                            rooms: types.room.tp@.len(),
                            tiles,
                            items: distinct_items(all, all.len() as int),
                        },
                    )
                },
            },
        },
    }
}

/// Reads the state in which a game begins from the atoms of a program.
///
/// `queries` says which predicate stands for which fact. The atoms are sorted
/// by the fact that they state, and player, characters and tiles are built
/// from them. The number of rooms is the number of ways of the room type.
pub fn process_state(
    init_state: Vec<Atom>,
    types: &CeptreTypes,
    queries: &Vec<(CData, Predicate)>,
    rules: &[CEvent],
) -> (state: Result<State, Error<'static>>)
    ensures
        match state {
            Ok(made) => state_outcome(*types, query_names(queries@), init_state@) == Ok::<
                _,
                Seq<char>,
            >(made@),
            Err(Error::State(text)) => state_outcome(*types, query_names(queries@), init_state@)
                == Err::<StateRead, _>(text@),
            Err(_) => false,
        },
{
    let ghost n = init_state@.len() as int;
    let player_in_room = find_stating(&init_state, queries, CData::PlayerInRoom);
    let player_has_item = collect(&init_state, queries, CData::PlayerHasItem);
    let char_in_room = collect(&init_state, queries, CData::CharInRoom);
    let char_link_to = collect(&init_state, queries, CData::CharToRoom);
    let char_has_item = collect(&init_state, queries, CData::CharHasItem);
    let tile_in_room = collect(&init_state, queries, CData::TileInRoom);
    let tile_link_to = collect(&init_state, queries, CData::TileToRoom);
    proof {
        lemma_items_same_terms(
            *types,
            player_has_item@,
            stating(query_names(queries@), CData::PlayerHasItem, init_state@, n),
            player_has_item@.len() as int,
        );
        let placed_atoms = stating(query_names(queries@), CData::CharInRoom, init_state@, n);
        lemma_placed_same_terms(*types, char_in_room@, placed_atoms, char_in_room@.len() as int);
        let placed = chars_placed(*types, placed_atoms, placed_atoms.len() as int);
        lemma_given_same_terms(
            *types,
            placed,
            char_has_item@,
            stating(query_names(queries@), CData::CharHasItem, init_state@, n),
            char_has_item@.len() as int,
        );
        let given = chars_given(*types, placed, char_has_item@, char_has_item@.len() as int);
        if given.is_ok() {
            lemma_linked_same_terms(
                *types,
                given->Ok_0,
                char_link_to@,
                stating(query_names(queries@), CData::CharToRoom, init_state@, n),
                char_link_to@.len() as int,
            );
        }
        lemma_tiles_same_terms(
            *types,
            tile_in_room@,
            stating(query_names(queries@), CData::TileInRoom, init_state@, n),
            tile_in_room@.len() as int,
        );
        lemma_tiles_same_terms(
            *types,
            tile_link_to@,
            stating(query_names(queries@), CData::TileToRoom, init_state@, n),
            tile_link_to@.len() as int,
        );
    }
    let rooms = types.room.tp.len();
    let player = match build_player(player_in_room, player_has_item, types) {
        Ok(player) => player,
        Err(e) => {
            return Err(e);
        },
    };
    let characters = match build_chars(char_in_room, char_has_item, char_link_to, types) {
        Ok(characters) => characters,
        Err(e) => {
            return Err(e);
        },
    };
    let tiles = match build_tiles(tile_in_room, tile_link_to, types) {
        Ok(tiles) => tiles,
        Err(e) => {
            return Err(e);
        },
    };
    let mut items: Vec<Rsrc> = Vec::new();
    let ghost mut all: Seq<(Seq<char>, i16)> = Seq::empty();
    assert(item_view(items@) =~= distinct_items(all, 0));
    add_distinct(&mut items, &player.items, Ghost(all));
    proof {
        all = all + item_view(player.items@);
        assert(all =~= item_view(player.items@));
    }
    let ghost chars = character_views(characters@);
    let mut k: usize = 0;
    while k < characters.len()
        invariant
            k <= characters@.len(),
            chars == character_views(characters@),
            all == item_view(player.items@) + items_of_chars(chars, k as int),
            item_view(items@) == distinct_items(all, all.len() as int),
        decreases characters@.len() - k,
    {
        add_distinct(&mut items, &characters[k].items, Ghost(all));
        proof {
            assert(chars[k as int].items == Some(item_view(characters@[k as int].items@)));
            all = all + item_view(characters@[k as int].items@);
            assert(all =~= item_view(player.items@) + items_of_chars(chars, k + 1));
        }
        k += 1;
    }
    Ok(State { player, characters, rooms, tiles, items })
}

} // verus!
