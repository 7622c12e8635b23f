//! The entities and rooms of a game of tiles: a player and characters that
//! walk over maps of eight by eight cells, room by room.

use crate::ceptre::parse::chars_of;
use crate::collision::bodies::CollisionData;
use crate::geometry::IVec2;
use crate::graph::tells_apart;
use crate::tilemap::{kept, TileMapCollision, Tiles};
use vstd::prelude::*;
use vstd::std_specs::cmp::PartialEqSpecImpl;

verus! {

/// How many cells a room has along each axis.
pub const WORLD_SIZE: usize = 8;

/// How many bytes the text of a room has: eight rows of eight cells, and a
/// line break between two rows.
pub const MAP_LENGTH: usize = 71;

/// What names a kind of tile.
#[derive(Clone, Copy, PartialEq, Eq, PartialOrd, Ord, Hash, Structural, Debug)]
pub struct TileID(pub usize);

/// What names a character.
#[derive(Clone, Copy, PartialEq, Eq, PartialOrd, Ord, Hash, Structural, Debug)]
pub struct CharacterID(pub usize);

impl TileID {
    pub fn new(idx: usize) -> (id: Self)
        ensures
            id == TileID(idx),
    {
        Self(idx)
    }

    pub fn idx(&self) -> (idx: usize)
        ensures
            idx == self.0,
    {
        self.0
    }
}

impl CharacterID {
    pub fn new(idx: usize) -> (id: Self)
        ensures
            id == CharacterID(idx),
    {
        Self(idx)
    }

    pub fn idx(&self) -> (idx: usize)
        ensures
            idx == self.0,
    {
        self.0
    }
}

/// What names a kind of resource: its number, and what it is called.
#[derive(Clone, Copy, Debug)]
pub struct RsrcID {
    pub idx: usize,
    pub name: &'static str,
}

impl RsrcID {
    pub fn new(idx: usize, name: &'static str) -> (id: Self)
        ensures
            id.idx == idx,
            id.name == name,
    {
        Self { idx, name }
    }

    pub fn idx(&self) -> (idx: usize)
        ensures
            idx == self.idx,
    {
        self.idx
    }

    pub fn name(&self) -> (name: &'static str)
        ensures
            name == self.name,
    {
        self.name
    }
}

/// What names an entity.
#[derive(Clone, Copy, PartialEq, Eq, PartialOrd, Ord, Hash, Structural, Debug)]
pub enum EntID {
    Player,
    Tile(TileID),
    Character(CharacterID),
}

/// The pool of a resource that an entity has.
#[derive(Clone, Copy, Debug)]
pub struct PoolID {
    pub attached_to: EntID,
    pub rsrc: RsrcID,
}

impl PoolID {
    pub fn new(attached_to: EntID, rsrc: RsrcID) -> (pool: Self)
        ensures
            pool.attached_to == attached_to,
            pool.rsrc == rsrc,
    {
        Self { attached_to, rsrc }
    }
}

/// What the player can do.
#[derive(Clone, Copy, PartialEq, Eq, PartialOrd, Ord, Structural, Debug)]
pub enum ActionID {
    Left,
    Right,
    Up,
    Down,
}

/// The kinds of entity in the collision logic.
#[derive(Clone, Copy, Eq, Debug)]
pub enum ColEntType {
    Player,
    Character,
}

impl PartialEq for ColEntType {
    fn eq(&self, other: &Self) -> (same: bool) {
        match (self, other) {
            (ColEntType::Player, ColEntType::Player) => true,
            (ColEntType::Character, ColEntType::Character) => true,
            _ => false,
        }
    }
}

impl PartialEqSpecImpl for ColEntType {
    open spec fn obeys_eq_spec() -> bool {
        true
    }

    open spec fn eq_spec(&self, other: &Self) -> bool {
        *self == *other
    }
}

/// Something that can be run into.
#[derive(Clone, Copy, PartialEq, Eq, Structural, Debug)]
pub enum CollisionEnt {
    Player,
    Tile(IVec2),
    Character(CharacterID),
}

/// The player: where it stands, how far it has walked, what it has, and
/// which keys do what for it.
#[derive(Debug)]
pub struct Player<KeyCode: Copy> {
    pub pos: IVec2,
    pub amt_moved: IVec2,
    /// The resources of the player, each with how much there is of it.
    pub inventory: Vec<(RsrcID, i16)>,
    /// The actions of the player, each with its key and with whether it is
    /// valid.
    pub controls: Vec<(ActionID, KeyCode, bool)>,
}

/// The first place in `controls`, from `from` on, of the action `action`; the
/// length of `controls` where there is none.
pub open spec fn first_control<KeyCode>(
    controls: Seq<(ActionID, KeyCode, bool)>,
    action: ActionID,
    from: int,
) -> int
    decreases controls.len() - from,
{
    if from < 0 || from >= controls.len() {
        controls.len() as int
    } else if controls[from].0 == action {
        from
    } else {
        first_control(controls, action, from + 1)
    }
}

impl<KeyCode: Copy> Player<KeyCode> {
    /// A player at the corner of the room that has nothing, with a key for
    /// each of the four ways to walk.
    pub fn new(up: KeyCode, down: KeyCode, left: KeyCode, right: KeyCode) -> (player: Self)
        ensures
            player.pos == IVec2::spec_zero(),
            player.amt_moved == IVec2::spec_zero(),
            player.inventory@.len() == 0,
            player.controls@ == seq![
                (ActionID::Up, up, true),
                (ActionID::Down, down, true),
                (ActionID::Left, left, true),
                (ActionID::Right, right, true),
            ],
    {
        let mut controls: Vec<(ActionID, KeyCode, bool)> = Vec::new();
        controls.push((ActionID::Up, up, true));
        controls.push((ActionID::Down, down, true));
        controls.push((ActionID::Left, left, true));
        controls.push((ActionID::Right, right, true));
        assert(controls@ =~= seq![
            (ActionID::Up, up, true),
            (ActionID::Down, down, true),
            (ActionID::Left, left, true),
            (ActionID::Right, right, true),
        ]);
        Self { pos: IVec2::zero(), amt_moved: IVec2::zero(), inventory: Vec::new(), controls }
    }

    /// Gives an action of the player another key, and says whether it is
    /// valid. The first control of that action is the one that changes.
    pub fn set_control_map(&mut self, action: ActionID, keycode: KeyCode, valid: bool)
        requires
            first_control(old(self).controls@, action, 0) < old(self).controls@.len(),
        ensures
            final(self).controls@ == old(self).controls@.update(
                first_control(old(self).controls@, action, 0),
                (action, keycode, valid),
            ),
            final(self).pos == old(self).pos,
            final(self).amt_moved == old(self).amt_moved,
            final(self).inventory == old(self).inventory,
    {
        let n: usize = self.controls.len();
        let mut k: usize = 0;
        loop
            invariant
                k < self.controls@.len(),
                n == self.controls@.len(),
                *self == *old(self),
                first_control(self.controls@, action, 0) == first_control(
                    self.controls@,
                    action,
                    k as int,
                ),
                first_control(self.controls@, action, 0) < self.controls@.len(),
            decreases self.controls@.len() - k,
        {
            if self.controls[k].0 == action {
                self.controls.set(k, (action, keycode, valid));
                return ;
            }
            proof {
                lemma_first_control(self.controls@, action, k + 1);
            }
            k += 1;
        }
    }

    pub fn add_inventory_item(&mut self, id: RsrcID, val: i16)
        ensures
            final(self).inventory@ == old(self).inventory@.push((id, val)),
            final(self).pos == old(self).pos,
            final(self).amt_moved == old(self).amt_moved,
            final(self).controls == old(self).controls,
    {
        self.inventory.push((id, val));
    }
}

/// A kind of tile: whether it stops who walks into it.
#[derive(Clone, Copy, PartialEq, Eq, Structural, Debug)]
pub struct Tile {
    pub solid: bool,
}

impl Tile {
    /// A kind of tile that can be walked over.
    pub fn new() -> (tile: Self)
        ensures
            tile == (Tile { solid: false }),
    {
        Self { solid: false }
    }
}

/// A character: what it has to begin with, and where it stands.
#[derive(Debug)]
pub struct Character {
    /// The resources of the character, each with how much there is of it.
    pub inventory: Vec<(RsrcID, i16)>,
    pub pos: IVec2,
}

impl Character {
    /// A character at the corner of the room that has nothing.
    pub fn new() -> (character: Self)
        ensures
            character.inventory@.len() == 0,
            character.pos == IVec2::spec_zero(),
    {
        Self { inventory: Vec::new(), pos: IVec2::zero() }
    }

    pub fn add_inventory_item(&mut self, id: RsrcID, val: i16)
        ensures
            final(self).inventory@ == old(self).inventory@.push((id, val)),
            final(self).pos == old(self).pos,
    {
        self.inventory.push((id, val));
    }
}

/// An entity that is to be added to a game.
#[derive(Debug)]
pub enum Ent {
    /// The kind of tile, its cell, and its room.
    TileID(TileID, IVec2, usize),
    /// The character, and its room.
    Character(Character, usize),
}

/// A map of eight by eight cells without tiles.
pub open spec fn blank_map() -> Tiles<TileID> {
    Seq::new(WORLD_SIZE as nat, |r: int| Seq::new(WORLD_SIZE as nat, |c: int| None::<TileID>))
}

/// A room: its characters, each with its cell, and its map. The cell `(x, y)` is
/// `map[y][x]`.
#[derive(Debug)]
pub struct Room {
    pub chars: Vec<(CharacterID, IVec2)>,
    pub map: Vec<Vec<Option<TileID>>>,
}

/// The first place in `chars`, from `from` on, of the character `id`; the
/// length of `chars` where it is not there.
pub open spec fn first_char(chars: Seq<(CharacterID, IVec2)>, id: CharacterID, from: int) -> int
    decreases chars.len() - from,
{
    if from < 0 || from >= chars.len() {
        chars.len() as int
    } else if chars[from].0 == id {
        from
    } else {
        first_char(chars, id, from + 1)
    }
}

impl Room {
    /// The map, as rows of cells.
    pub open spec fn tiles(&self) -> Tiles<TileID> {
        Seq::new(self.map@.len(), |r: int| self.map@[r]@)
    }

    /// The map has eight rows of eight cells.
    pub open spec fn wf(&self) -> bool {
        &&& self.map@.len() == WORLD_SIZE
        &&& forall|r: int| 0 <= r < self.map@.len() ==> (#[trigger] self.map@[r])@.len() == WORLD_SIZE
    }

    /// Where the character is in this room: its place among the characters of
    /// the room and its cell, or `None`. A character that is there twice is
    /// found at its first place.
    pub open spec fn spec_find_char(&self, id: CharacterID) -> Option<(usize, IVec2)> {
        let at = first_char(self.chars@, id, 0);
        if at < self.chars@.len() {
            Some((at as usize, self.chars@[at].1))
        } else {
            None
        }
    }

    /// Where the character is in this room.
    pub fn find_char(&self, id: CharacterID) -> (found: Option<(usize, IVec2)>)
        ensures
            found == self.spec_find_char(id),
    {
        let n: usize = self.chars.len();
        let mut k: usize = 0;
        while k < n
            invariant
                k <= n,
                n == self.chars@.len(),
                first_char(self.chars@, id, 0) == first_char(self.chars@, id, k as int),
            decreases n - k,
        {
            if self.chars[k].0 == id {
                return Some((k, self.chars[k].1));
            }
            k += 1;
        }
        None
    }
}

impl Default for Room {
    /// A room without characters and without tiles.
    fn default() -> (room: Self)
        ensures
            room.wf(),
            room.chars@.len() == 0,
            room.tiles() == blank_map(),
    {
        let mut map: Vec<Vec<Option<TileID>>> = Vec::new();
        let mut r: usize = 0;
        while r < WORLD_SIZE
            invariant
                r <= WORLD_SIZE,
                map@.len() == r,
                forall|m: int|
                    0 <= m < r ==> (#[trigger] map@[m])@ == Seq::new(
                        WORLD_SIZE as nat,
                        |c: int| None::<TileID>,
                    ),
            decreases WORLD_SIZE - r,
        {
            let mut row: Vec<Option<TileID>> = Vec::new();
            let mut c: usize = 0;
            while c < WORLD_SIZE
                invariant
                    c <= WORLD_SIZE,
                    row@.len() == c,
                    forall|m: int| 0 <= m < c ==> #[trigger] row@[m] == None::<TileID>,
                decreases WORLD_SIZE - c,
            {
                row.push(None);
                c += 1;
            }
            assert(row@ =~= Seq::new(WORLD_SIZE as nat, |c: int| None::<TileID>));
            map.push(row);
            r += 1;
        }
        let room = Room { chars: Vec::new(), map };
        assert(room.tiles() =~= blank_map());
        room
    }
}

/// Why a text is not the map of a room.
#[derive(Clone, Copy, PartialEq, Eq, Structural, Debug)]
pub enum RoomError {
    /// The text has more bytes than the map of a room.
    TooBig,
    /// The text has fewer bytes than the map of a room.
    TooSmall,
    /// The digit stands for a kind of tile that there is not.
    TileNotFound(usize),
    /// The character is no digit, blank or line break.
    Unrecognized(char),
}

/// How many bytes a character takes in a text.
pub open spec fn utf8_len(c: char) -> int {
    if (c as u32) < 0x80 {
        1
    } else if (c as u32) < 0x800 {
        2
    } else if (c as u32) < 0x1_0000 {
        3
    } else {
        4
    }
}

/// How many bytes the first `upto` characters of a text take.
pub open spec fn byte_len(text: Seq<char>, upto: int) -> int
    decreases upto,
{
    if upto <= 0 {
        0
    } else {
        byte_len(text, upto - 1) + utf8_len(text[upto - 1])
    }
}

/// How far the text of a room has been read: the map so far, the cell that
/// the next character stands for, and what went wrong, if anything did.
pub struct Reading {
    pub map: Tiles<TileID>,
    pub x: int,
    pub y: int,
    pub failed: Option<RoomError>,
}

/// The reading once one more character is read. A digit puts a tile of its
/// kind into the cell and a blank leaves the cell free; both go on to the next
/// cell of the row. A line break goes on to the next row. Once something went
/// wrong, nothing more is read.
///
/// A digit may name one kind more than there are.
pub open spec fn read_cell(reading: Reading, c: char, kinds: usize) -> Reading {
    if reading.failed is Some {
        reading
    } else if '0' <= c <= '9' {
        let tile = c as u32 - '0' as u32;
        if tile > kinds {
            Reading { failed: Some(RoomError::TileNotFound(tile as usize)), ..reading }
        } else {
            Reading {
                map: reading.map.update(
                    reading.y,
                    reading.map[reading.y].update(reading.x, Some(TileID(tile as usize))),
                ),
                x: reading.x + 1,
                ..reading
            }
        }
    } else if c == ' ' {
        Reading { x: reading.x + 1, ..reading }
    } else if c == '\n' {
        Reading { x: 0, y: reading.y + 1, ..reading }
    } else {
        Reading { failed: Some(RoomError::Unrecognized(c)), ..reading }
    }
}

/// The reading once the first `upto` characters of a text are read.
pub open spec fn read_cells(text: Seq<char>, kinds: usize, upto: int) -> Reading
    decreases upto,
{
    if upto <= 0 {
        Reading { map: blank_map(), x: 0, y: 0, failed: None }
    } else {
        read_cell(read_cells(text, kinds, upto - 1), text[upto - 1], kinds)
    }
}

/// Every tile of the text stands in a cell of the map: no row has a tile
/// behind its eighth cell, and no tile stands behind the eighth row.
pub open spec fn tiles_fit(text: Seq<char>, kinds: usize) -> bool {
    forall|k: int|
        0 <= k < text.len() && read_cells(text, kinds, k).failed is None && '0' <= (
        #[trigger] text[k]) <= '9' && text[k] as u32 - '0' as u32 <= kinds ==> read_cells(
            text,
            kinds,
            k,
        ).x < WORLD_SIZE && read_cells(text, kinds, k).y < WORLD_SIZE
}

/// Tests `tiles_fit`.
pub fn do_tiles_fit(map: &str, kinds: usize) -> (b: bool)
    ensures
        b == tiles_fit(map@, kinds),
{
    let text = chars_of(map);
    let n: usize = text.len();
    let mut x: usize = 0;
    let mut y: usize = 0;
    let mut k: usize = 0;
    while k < n
        invariant
            k <= n,
            n == text@.len(),
            text@ == map@,
            read_cells(text@, kinds, k as int).failed is None,
            read_cells(text@, kinds, k as int).x == x,
            read_cells(text@, kinds, k as int).y == y,
            x <= k,
            y <= k,
            forall|m: int|
                0 <= m < k && read_cells(text@, kinds, m).failed is None && '0' <= (
                #[trigger] text@[m]) <= '9' && text@[m] as u32 - '0' as u32 <= kinds ==> read_cells(
                    text@,
                    kinds,
                    m,
                ).x < WORLD_SIZE && read_cells(text@, kinds, m).y < WORLD_SIZE,
        decreases n - k,
    {
        let ch = text[k];
        if '0' <= ch && ch <= '9' {
            let tile_idx: usize = (ch as u32 - '0' as u32) as usize;
            if tile_idx > kinds {
                proof {
                    assert forall|m: int| k < m < n implies read_cells(text@, kinds, m).failed
                        is Some by {
                        lemma_failed_stays(text@, kinds, k + 1, m);
                    }
                }
                return true;
            }
            if x >= WORLD_SIZE || y >= WORLD_SIZE {
                return false;
            }
            x += 1;
        } else if ch == ' ' {
            x += 1;
        } else if ch == '\n' {
            y += 1;
            x = 0;
        } else {
            proof {
                assert forall|m: int| k < m < n implies read_cells(text@, kinds, m).failed
                    is Some by {
                    lemma_failed_stays(text@, kinds, k + 1, m);
                }
            }
            return true;
        }
        k += 1;
    }
    true
}

/// The rooms of a game, and which entities there are and are to come and go.
#[derive(Debug)]
pub struct State {
    pub rooms: Vec<Room>,
    /// Whether there is a player.
    pub player: bool,
    pub resources: Vec<RsrcID>,
    pub rsrc_id_max: usize,
    pub char_id_max: usize,
    /// How many kinds of tile there are.
    pub tile_type_count: usize,
    pub add_queue: Vec<Ent>,
    pub remove_queue: Vec<EntID>,
}

/// The first room, from `from` on, in which the character is; the number of
/// rooms where it is in none.
pub open spec fn first_room_with(rooms: Seq<Room>, id: CharacterID, from: int) -> int
    decreases rooms.len() - from,
{
    if from < 0 || from >= rooms.len() {
        rooms.len() as int
    } else if rooms[from].spec_find_char(id) is Some {
        from
    } else {
        first_room_with(rooms, id, from + 1)
    }
}

impl State {
    /// A state without rooms and without entities.
    pub fn new() -> (state: Self)
        ensures
            state.rooms@.len() == 0,
            !state.player,
            state.resources@.len() == 0,
            state.rsrc_id_max == 0,
            state.char_id_max == 0,
            state.tile_type_count == 0,
            state.add_queue@.len() == 0,
            state.remove_queue@.len() == 0,
    {
        Self {
            rooms: Vec::new(),
            player: false,
            resources: Vec::new(),
            rsrc_id_max: 0,
            char_id_max: 0,
            tile_type_count: 0,
            add_queue: Vec::new(),
            remove_queue: Vec::new(),
        }
    }

    /// Every room has a map of eight by eight cells.
    pub open spec fn wf(&self) -> bool {
        forall|r: int| 0 <= r < self.rooms@.len() ==> (#[trigger] self.rooms@[r]).wf()
    }

    /// Where the character is: the first room that it is in, its place among
    /// the characters of that room, and its cell.
    pub open spec fn spec_find_char(&self, id: CharacterID) -> Option<(usize, (usize, IVec2))> {
        let room = first_room_with(self.rooms@, id, 0);
        if room < self.rooms@.len() {
            Some((room as usize, self.rooms@[room].spec_find_char(id)->0))
        } else {
            None
        }
    }

    /// Where the character is: its room, its place among the characters of
    /// that room, and its cell; or `None`.
    pub fn find_char(&self, id: CharacterID) -> (found: Option<(usize, (usize, IVec2))>)
        ensures
            found == self.spec_find_char(id),
    {
        let n: usize = self.rooms.len();
        let mut k: usize = 0;
        while k < n
            invariant
                k <= n,
                n == self.rooms@.len(),
                first_room_with(self.rooms@, id, 0) == first_room_with(self.rooms@, id, k as int),
            decreases n - k,
        {
            match self.rooms[k].find_char(id) {
                Some(info) => {
                    return Some((k, info));
                },
                None => {},
            }
            k += 1;
        }
        None
    }

    /// The place of the character among the characters of a room, and its
    /// cell.
    pub fn find_char_in_room(&self, room: usize, id: CharacterID) -> (found: Option<(usize, IVec2)>)
        requires
            room < self.rooms@.len(),
        ensures
            found == self.rooms@[room as int].spec_find_char(id),
    {
        self.rooms[room].find_char(id)
    }

    /// The index of the character among the entities of the collision logic
    /// while its room is shown: the player comes first, and then the
    /// characters of the room.
    pub fn get_col_idx(&self, id: CharacterID, room: Option<usize>) -> (idx: Option<usize>)
        requires
            room is Some,
            room->0 < self.rooms@.len(),
        ensures
            idx == match self.rooms@[room->0 as int].spec_find_char(id) {
                Some((at, _)) => Some((at + 1) as usize),
                None => None,
            },
    {
        let n: usize = self.rooms[room.unwrap()].chars.len();
        proof {
            lemma_first_char(self.rooms@[room->0 as int].chars@, id, 0);
        }
        match self.find_char_in_room(room.unwrap(), id) {
            Some((at, _)) => Some(at + 1),
            None => None,
        }
    }

    /// Notes that an entity is to be removed.
    pub fn queue_remove(&mut self, ent: EntID)
        ensures
            final(self).remove_queue@ == old(self).remove_queue@.push(ent),
            final(self).rooms == old(self).rooms,
            final(self).player == old(self).player,
            final(self).resources == old(self).resources,
            final(self).rsrc_id_max == old(self).rsrc_id_max,
            final(self).char_id_max == old(self).char_id_max,
            final(self).tile_type_count == old(self).tile_type_count,
            final(self).add_queue == old(self).add_queue,
    {
        self.remove_queue.push(ent);
    }

    /// Notes that an entity is to be added.
    pub fn queue_add(&mut self, ent: Ent)
        ensures
            final(self).add_queue@ == old(self).add_queue@.push(ent),
            final(self).rooms == old(self).rooms,
            final(self).player == old(self).player,
            final(self).resources == old(self).resources,
            final(self).rsrc_id_max == old(self).rsrc_id_max,
            final(self).char_id_max == old(self).char_id_max,
            final(self).tile_type_count == old(self).tile_type_count,
            final(self).remove_queue == old(self).remove_queue,
    {
        self.add_queue.push(ent);
    }

    /// Names a new kind of resource.
    pub fn log_rsrc(&mut self, name: &'static str) -> (id: RsrcID)
        requires
            old(self).rsrc_id_max < usize::MAX,
        ensures
            id.idx == old(self).rsrc_id_max,
            id.name == name,
            final(self).rsrc_id_max == old(self).rsrc_id_max + 1,
            final(self).resources@ == old(self).resources@.push(id),
            final(self).rooms == old(self).rooms,
            final(self).player == old(self).player,
            final(self).char_id_max == old(self).char_id_max,
            final(self).tile_type_count == old(self).tile_type_count,
            final(self).add_queue == old(self).add_queue,
            final(self).remove_queue == old(self).remove_queue,
    {
        let id = RsrcID::new(self.rsrc_id_max, name);
        self.rsrc_id_max += 1;
        self.resources.push(id);
        id
    }

    /// Puts a tile into a cell of a room.
    pub fn add_tile_at_pos(&mut self, tile: TileID, room: usize, pos: IVec2)
        requires
            old(self).wf(),
            room < old(self).rooms@.len(),
            0 <= pos.x < WORLD_SIZE,
            0 <= pos.y < WORLD_SIZE,
        ensures
            final(self).wf(),
            final(self).rooms@.len() == old(self).rooms@.len(),
            forall|r: int|
                0 <= r < old(self).rooms@.len() && r != room ==> #[trigger] final(self).rooms@[r]
                    == old(self).rooms@[r],
            final(self).rooms@[room as int].chars == old(self).rooms@[room as int].chars,
            final(self).rooms@[room as int].tiles() == old(self).rooms@[room as int].tiles().update(
                pos.y as int,
                old(self).rooms@[room as int].tiles()[pos.y as int].update(pos.x as int, Some(tile)),
            ),
            final(self).player == old(self).player,
            final(self).resources == old(self).resources,
            final(self).rsrc_id_max == old(self).rsrc_id_max,
            final(self).char_id_max == old(self).char_id_max,
            final(self).tile_type_count == old(self).tile_type_count,
            final(self).add_queue == old(self).add_queue,
            final(self).remove_queue == old(self).remove_queue,
    {
        let ghost before = self.rooms@[room as int].tiles();
        let place = &mut self.rooms[room];
        let row = &mut place.map[pos.y as usize];
        row.set(pos.x as usize, Some(tile));
        assert(self.rooms@[room as int].tiles() =~= before.update(
            pos.y as int,
            before[pos.y as int].update(pos.x as int, Some(tile)),
        ));
    }

    /// Adds a room from its text: eight rows of eight characters, with a line
    /// break between two rows. A digit stands for a tile of the kind with that
    /// number, and a blank for a cell without a tile. Returns the number of
    /// the room.
    ///
    /// A text of another length adds no room. Where a character of the text is
    /// not understood or a digit stands for no kind of tile, the room is there
    /// all the same, with the tiles that were read before.
    pub fn add_room_from_str(&mut self, map: &str) -> (room: Result<usize, RoomError>)
        requires
            old(self).wf(),
            tiles_fit(map@, old(self).tile_type_count),
        ensures
            final(self).wf(),
            final(self).player == old(self).player,
            final(self).resources == old(self).resources,
            final(self).rsrc_id_max == old(self).rsrc_id_max,
            final(self).char_id_max == old(self).char_id_max,
            final(self).tile_type_count == old(self).tile_type_count,
            final(self).add_queue == old(self).add_queue,
            final(self).remove_queue == old(self).remove_queue,
            byte_len(map@, map@.len() as int) != MAP_LENGTH ==> final(self).rooms == old(self).rooms
                && room == Err::<usize, RoomError>(
                if byte_len(map@, map@.len() as int) > MAP_LENGTH {
                    RoomError::TooBig
                } else {
                    RoomError::TooSmall
                },
            ),
            byte_len(map@, map@.len() as int) == MAP_LENGTH ==> {
                let read = read_cells(map@, old(self).tile_type_count, map@.len() as int);
                &&& final(self).rooms@.len() == old(self).rooms@.len() + 1
                &&& forall|r: int|
                    0 <= r < old(self).rooms@.len() ==> #[trigger] final(self).rooms@[r] == old(
                        self,
                    ).rooms@[r]
                &&& final(self).rooms@[old(self).rooms@.len() as int].chars@.len() == 0
                &&& final(self).rooms@[old(self).rooms@.len() as int].tiles() == read.map
                &&& room == match read.failed {
                    Some(error) => Err::<usize, RoomError>(error),
                    None => Ok(old(self).rooms@.len() as usize),
                }
            },
    {
        let text = chars_of(map);
        let n: usize = text.len();
        let mut bytes: u128 = 0;
        let mut k: usize = 0;
        while k < n
            invariant
                k <= n,
                n == text@.len(),
                bytes == byte_len(text@, k as int),
                bytes <= 4 * k,
            decreases n - k,
        {
            let c: u32 = text[k] as u32;
            bytes = bytes + if c < 0x80 {
                1
            } else if c < 0x800 {
                2
            } else if c < 0x1_0000 {
                3
            } else {
                4
            };
            k += 1;
        }
        if bytes > 71 {
            return Err(RoomError::TooBig);
        } else if bytes < 71 {
            return Err(RoomError::TooSmall);
        }
        proof {
            lemma_byte_len(text@, n as int);
        }
        let room: usize = self.rooms.len();
        let kinds: usize = self.tile_type_count;
        self.rooms.push(Room::default());
        let mut x: i32 = 0;
        let mut y: i32 = 0;
        let mut k: usize = 0;
        while k < n
            invariant
                k <= n,
                n == text@.len(),
                n <= MAP_LENGTH,
                byte_len(text@, n as int) == MAP_LENGTH,
                text@ == map@,
                kinds == old(self).tile_type_count,
                tiles_fit(text@, kinds),
                room == old(self).rooms@.len(),
                self.rooms@.len() == room + 1,
                self.wf(),
                forall|r: int| 0 <= r < room ==> #[trigger] self.rooms@[r] == old(self).rooms@[r],
                self.rooms@[room as int].chars@.len() == 0,
                self.player == old(self).player,
                self.resources == old(self).resources,
                self.rsrc_id_max == old(self).rsrc_id_max,
                self.char_id_max == old(self).char_id_max,
                self.tile_type_count == old(self).tile_type_count,
                self.add_queue == old(self).add_queue,
                self.remove_queue == old(self).remove_queue,
                read_cells(text@, kinds, k as int) == (Reading {
                    map: self.rooms@[room as int].tiles(),
                    x: x as int,
                    y: y as int,
                    failed: None,
                }),
                0 <= x <= k,
                0 <= y <= k,
            decreases n - k,
        {
            let ch = text[k];
            let ghost before = read_cells(text@, kinds, k as int);
            if '0' <= ch && ch <= '9' {
                let tile_idx: usize = (ch as u32 - '0' as u32) as usize;
                if tile_idx > kinds {
                    proof {
                        lemma_failed_stays(text@, kinds, k + 1, n as int);
                    }
                    return Err(RoomError::TileNotFound(tile_idx));
                }
                self.add_tile_at_pos(TileID::new(tile_idx), room, IVec2 { x, y });
                x += 1;
            } else if ch == ' ' {
                x += 1;
            } else if ch == '\n' {
                y += 1;
                x = 0;
            } else {
                proof {
                    lemma_failed_stays(text@, kinds, k + 1, n as int);
                }
                return Err(RoomError::Unrecognized(ch));
            }
            k += 1;
        }
        Ok(room)
    }
}

/// The entities that the characters of a room are in the collision logic:
/// solid and fixed, each on its cell and at rest.
pub open spec fn char_cells(chars: Seq<(CharacterID, IVec2)>) -> Seq<IVec2> {
    Seq::new(chars.len(), |k: int| chars[k].1)
}

/// The kinds of entity can be told apart by `==`.
pub proof fn lemma_kinds_tell_apart()
    ensures
        tells_apart::<ColEntType>(),
{
}

/// Shows a room in the collision logic: the map of the logic becomes that of
/// the room, and the entities are the players that were there, followed by the
/// characters of the room.
pub fn load_room(state: &State, collision: &mut TileMapCollision<TileID, ColEntType>, room: usize)
    requires
        state.wf(),
        room < state.rooms@.len(),
        old(collision).spec_wf(),
    ensures
        final(collision).spec_wf(),
        final(collision).tiles() == state.rooms@[room as int].tiles(),
        final(collision).tile_solid == old(collision).tile_solid,
        final(collision).contacts == old(collision).contacts,
        final(collision).positions@ == kept(
            old(collision).positions@,
            old(collision).metadata@,
            ColEntType::Player,
            old(collision).positions@.len() as int,
        ) + char_cells(state.rooms@[room as int].chars@),
        final(collision).amt_moved@ == kept(
            old(collision).amt_moved@,
            old(collision).metadata@,
            ColEntType::Player,
            old(collision).positions@.len() as int,
        ) + Seq::new(state.rooms@[room as int].chars@.len(), |k: int| IVec2::spec_zero()),
        final(collision).metadata@ == kept(
            old(collision).metadata@,
            old(collision).metadata@,
            ColEntType::Player,
            old(collision).positions@.len() as int,
        ) + Seq::new(
            state.rooms@[room as int].chars@.len(),
            |k: int| CollisionData { solid: true, fixed: true, id: ColEntType::Character },
        ),
{
    proof {
        lemma_kinds_tell_apart();
    }
    collision.clear_and_resize_map(WORLD_SIZE, WORLD_SIZE);
    collision.clear_entities_except(ColEntType::Player);
    let ghost players = *collision;
    let ghost shown = state.rooms@[room as int];
    assert(collision.map@.len() == collision.tiles().len());
    assert forall|m: int| 0 <= m < WORLD_SIZE implies (#[trigger] collision.map@[m])@.len()
        == WORLD_SIZE by {
        assert(collision.tiles()[m].len() == WORLD_SIZE);
    }
    let mut r: usize = 0;
    while r < WORLD_SIZE
        invariant
            r <= WORLD_SIZE,
            state.wf(),
            room < state.rooms@.len(),
            shown == state.rooms@[room as int],
            collision.map@.len() == WORLD_SIZE,
            forall|m: int| 0 <= m < WORLD_SIZE ==> (#[trigger] collision.map@[m])@.len() == WORLD_SIZE,
            forall|m: int| 0 <= m < r ==> (#[trigger] collision.map@[m])@ == shown.map@[m]@,
            collision.tile_solid == players.tile_solid,
            collision.contacts == players.contacts,
            collision.positions == players.positions,
            collision.amt_moved == players.amt_moved,
            collision.metadata == players.metadata,
        decreases WORLD_SIZE - r,
    {
        let mut c: usize = 0;
        while c < WORLD_SIZE
            invariant
                c <= WORLD_SIZE,
                r < WORLD_SIZE,
                state.wf(),
                room < state.rooms@.len(),
                shown == state.rooms@[room as int],
                collision.map@.len() == WORLD_SIZE,
                forall|m: int|
                    0 <= m < WORLD_SIZE ==> (#[trigger] collision.map@[m])@.len() == WORLD_SIZE,
                forall|m: int| 0 <= m < r ==> (#[trigger] collision.map@[m])@ == shown.map@[m]@,
                forall|m: int|
                    0 <= m < c ==> #[trigger] collision.map@[r as int]@[m] == shown.map@[r as int]@[m],
                collision.tile_solid == players.tile_solid,
                collision.contacts == players.contacts,
                collision.positions == players.positions,
                collision.amt_moved == players.amt_moved,
                collision.metadata == players.metadata,
            decreases WORLD_SIZE - c,
        {
            let tile = state.rooms[room].map[r][c];
            let row = &mut collision.map[r];
            row.set(c, tile);
            c += 1;
        }
        assert(collision.map@[r as int]@ =~= shown.map@[r as int]@);
        r += 1;
    }
    assert(collision.tiles() =~= shown.tiles());
    let n: usize = state.rooms[room].chars.len();
    let mut k: usize = 0;
    while k < n
        invariant
            k <= n,
            room < state.rooms@.len(),
            shown == state.rooms@[room as int],
            n == shown.chars@.len(),
            collision.map == players.map || collision.tiles() == shown.tiles(),
            collision.tiles() == shown.tiles(),
            collision.tile_solid == players.tile_solid,
            collision.contacts == players.contacts,
            collision.positions@ == players.positions@ + char_cells(shown.chars@).take(k as int),
            collision.amt_moved@ == players.amt_moved@ + Seq::new(
                k as nat,
                |m: int| IVec2::spec_zero(),
            ),
            collision.metadata@ == players.metadata@ + Seq::new(
                k as nat,
                |m: int| CollisionData { solid: true, fixed: true, id: ColEntType::Character },
            ),
        decreases n - k,
    {
        let pos = state.rooms[room].chars[k].1;
        collision.positions.push(pos);
        collision.amt_moved.push(IVec2::zero());
        collision.metadata.push(CollisionData { solid: true, fixed: true, id: ColEntType::Character });
        k += 1;
        assert(collision.positions@ =~= players.positions@ + char_cells(shown.chars@).take(
            k as int,
        ));
        assert(collision.amt_moved@ =~= players.amt_moved@ + Seq::new(
            k as nat,
            |m: int| IVec2::spec_zero(),
        ));
        assert(collision.metadata@ =~= players.metadata@ + Seq::new(
            k as nat,
            |m: int| CollisionData { solid: true, fixed: true, id: ColEntType::Character },
        ));
    }
    assert(char_cells(shown.chars@).take(n as int) =~= char_cells(shown.chars@));
}

/// The map of a room once it has taken over what the collision logic shows:
/// each cell that the map of the logic has, too, holds what that map holds.
pub open spec fn map_taken_back(room: Tiles<TileID>, shown: Tiles<TileID>) -> Tiles<TileID> {
    Seq::new(
        room.len(),
        |r: int|
            Seq::new(
                room[r].len(),
                |c: int|
                    if r < shown.len() && c < shown[r].len() {
                        shown[r][c]
                    } else {
                        room[r][c]
                    },
            ),
    )
}

/// The characters of a room once each has the cell that its entity has in
/// the collision logic. The entity of the character at place `k` is entity
/// `k + 1`; a character without an entity stays where it was.
pub open spec fn chars_taken_back(chars: Seq<(CharacterID, IVec2)>, positions: Seq<IVec2>) -> Seq<
    (CharacterID, IVec2),
> {
    Seq::new(
        chars.len(),
        |k: int|
            if k + 1 < positions.len() {
                (chars[k].0, positions[k + 1])
            } else {
                chars[k]
            },
    )
}

/// Leaves one room for another: the room that is left takes over the map
/// and the cells of the characters as the collision logic has them, and then
/// the other room is shown.
pub fn set_current_room(
    state: &mut State,
    collision: &mut TileMapCollision<TileID, ColEntType>,
    from_room: usize,
    to_room: usize,
)
    requires
        old(state).wf(),
        from_room < old(state).rooms@.len(),
        to_room < old(state).rooms@.len(),
        old(collision).spec_wf(),
    ensures
        final(state).wf(),
        final(state).rooms@.len() == old(state).rooms@.len(),
        forall|r: int|
            0 <= r < old(state).rooms@.len() && r != from_room ==> #[trigger] final(state).rooms@[r]
                == old(state).rooms@[r],
        final(state).rooms@[from_room as int].tiles() == map_taken_back(
            old(state).rooms@[from_room as int].tiles(),
            old(collision).tiles(),
        ),
        final(state).rooms@[from_room as int].chars@ == chars_taken_back(
            old(state).rooms@[from_room as int].chars@,
            old(collision).positions@,
        ),
        final(state).player == old(state).player,
        final(state).resources == old(state).resources,
        final(state).rsrc_id_max == old(state).rsrc_id_max,
        final(state).char_id_max == old(state).char_id_max,
        final(state).tile_type_count == old(state).tile_type_count,
        final(state).add_queue == old(state).add_queue,
        final(state).remove_queue == old(state).remove_queue,
        final(collision).spec_wf(),
        final(collision).tiles() == final(state).rooms@[to_room as int].tiles(),
        final(collision).tile_solid == old(collision).tile_solid,
        final(collision).contacts == old(collision).contacts,
        final(collision).positions@ == kept(
            old(collision).positions@,
            old(collision).metadata@,
            ColEntType::Player,
            old(collision).positions@.len() as int,
        ) + char_cells(final(state).rooms@[to_room as int].chars@),
{
    let ghost before = old(state).rooms@[from_room as int];
    let ghost shown = collision.tiles();
    let mut r: usize = 0;
    while r < WORLD_SIZE
        invariant
            r <= WORLD_SIZE,
            from_room < state.rooms@.len(),
            state.rooms@.len() == old(state).rooms@.len(),
            state.wf(),
            *collision == *old(collision),
            shown == collision.tiles(),
            before == old(state).rooms@[from_room as int],
            before.wf(),
            forall|m: int|
                0 <= m < state.rooms@.len() && m != from_room ==> #[trigger] state.rooms@[m]
                    == old(state).rooms@[m],
            state.rooms@[from_room as int].chars == before.chars,
            forall|m: int|
                0 <= m < r ==> (#[trigger] state.rooms@[from_room as int].map@[m])@
                    == map_taken_back(before.tiles(), shown)[m],
            forall|m: int|
                r <= m < WORLD_SIZE ==> (#[trigger] state.rooms@[from_room as int].map@[m])@
                    == before.map@[m]@,
            state.player == old(state).player,
            state.resources == old(state).resources,
            state.rsrc_id_max == old(state).rsrc_id_max,
            state.char_id_max == old(state).char_id_max,
            state.tile_type_count == old(state).tile_type_count,
            state.add_queue == old(state).add_queue,
            state.remove_queue == old(state).remove_queue,
        decreases WORLD_SIZE - r,
    {
        if r < collision.map.len() {
            let mut c: usize = 0;
            while c < WORLD_SIZE
                invariant
                    c <= WORLD_SIZE,
                    r < WORLD_SIZE,
                    r < collision.map@.len(),
                    from_room < state.rooms@.len(),
                    state.rooms@.len() == old(state).rooms@.len(),
                    state.wf(),
                    *collision == *old(collision),
                    shown == collision.tiles(),
                    before == old(state).rooms@[from_room as int],
                    before.wf(),
            before.wf(),
                    forall|m: int|
                        0 <= m < state.rooms@.len() && m != from_room ==> #[trigger] state.rooms@[m]
                            == old(state).rooms@[m],
                    state.rooms@[from_room as int].chars == before.chars,
                    forall|m: int|
                        0 <= m < r ==> (#[trigger] state.rooms@[from_room as int].map@[m])@
                            == map_taken_back(before.tiles(), shown)[m],
                    forall|m: int|
                        r < m < WORLD_SIZE ==> (#[trigger] state.rooms@[from_room as int].map@[m])@
                            == before.map@[m]@,
                    forall|m: int|
                        0 <= m < c ==> #[trigger] state.rooms@[from_room as int].map@[r as int]@[m]
                            == map_taken_back(before.tiles(), shown)[r as int][m],
                    forall|m: int|
                        c <= m < WORLD_SIZE ==> #[trigger] state.rooms@[from_room as int].map@[r as int]@[m]
                            == before.map@[r as int]@[m],
                    state.player == old(state).player,
                    state.resources == old(state).resources,
                    state.rsrc_id_max == old(state).rsrc_id_max,
                    state.char_id_max == old(state).char_id_max,
                    state.tile_type_count == old(state).tile_type_count,
                    state.add_queue == old(state).add_queue,
                    state.remove_queue == old(state).remove_queue,
                decreases WORLD_SIZE - c,
            {
                if c < collision.map[r].len() {
                    let tile = collision.map[r][c];
                    let place = &mut state.rooms[from_room];
                    let row = &mut place.map[r];
                    row.set(c, tile);
                }
                c += 1;
            }
        }
        assert(state.rooms@[from_room as int].map@[r as int]@ =~= map_taken_back(
            before.tiles(),
            shown,
        )[r as int]);
        r += 1;
    }
    assert(state.rooms@[from_room as int].tiles() =~= map_taken_back(before.tiles(), shown));
    let ghost mapped = state.rooms@[from_room as int].tiles();
    let n: usize = state.rooms[from_room].chars.len();
    let mut k: usize = 0;
    while k < n
        invariant
            k <= n,
            from_room < state.rooms@.len(),
            state.rooms@.len() == old(state).rooms@.len(),
            state.wf(),
            *collision == *old(collision),
            before == old(state).rooms@[from_room as int],
            before.wf(),
            n == before.chars@.len(),
            forall|m: int|
                0 <= m < state.rooms@.len() && m != from_room ==> #[trigger] state.rooms@[m]
                    == old(state).rooms@[m],
            state.rooms@[from_room as int].tiles() == mapped,
            state.rooms@[from_room as int].chars@.len() == n,
            forall|m: int|
                0 <= m < k ==> #[trigger] state.rooms@[from_room as int].chars@[m]
                    == chars_taken_back(before.chars@, collision.positions@)[m],
            forall|m: int|
                k <= m < n ==> #[trigger] state.rooms@[from_room as int].chars@[m] == before.chars@[m],
            state.player == old(state).player,
            state.resources == old(state).resources,
            state.rsrc_id_max == old(state).rsrc_id_max,
            state.char_id_max == old(state).char_id_max,
            state.tile_type_count == old(state).tile_type_count,
            state.add_queue == old(state).add_queue,
            state.remove_queue == old(state).remove_queue,
        decreases n - k,
    {
        if k < collision.positions.len() - 0 && k + 1 < collision.positions.len() {
            let pos = collision.positions[k + 1];
            let id = state.rooms[from_room].chars[k].0;
            let ghost tiles = state.rooms@[from_room as int].tiles();
            let place = &mut state.rooms[from_room];
            place.chars.set(k, (id, pos));
            assert(state.rooms@[from_room as int].tiles() =~= tiles);
        }
        k += 1;
    }
    assert(state.rooms@[from_room as int].chars@ =~= chars_taken_back(
        before.chars@,
        collision.positions@,
    ));
    load_room(state, collision, to_room);
}

/// `first_control` gives a place at or behind `from`, or the length.
pub proof fn lemma_first_control<KeyCode>(
    controls: Seq<(ActionID, KeyCode, bool)>,
    action: ActionID,
    from: int,
)
    requires
        0 <= from <= controls.len(),
    ensures
        from <= first_control(controls, action, from) <= controls.len(),
    decreases controls.len() - from,
{
    if from < controls.len() && controls[from].0 != action {
        lemma_first_control(controls, action, from + 1);
    }
}

/// `first_char` gives a place at or behind `from`, or the length.
pub proof fn lemma_first_char(chars: Seq<(CharacterID, IVec2)>, id: CharacterID, from: int)
    requires
        0 <= from <= chars.len(),
    ensures
        from <= first_char(chars, id, from) <= chars.len(),
    decreases chars.len() - from,
{
    if from < chars.len() && chars[from].0 != id {
        lemma_first_char(chars, id, from + 1);
    }
}

/// A text has at least as many bytes as characters.
pub proof fn lemma_byte_len(text: Seq<char>, upto: int)
    requires
        0 <= upto,
    ensures
        upto <= byte_len(text, upto),
    decreases upto,
{
    if upto > 0 {
        lemma_byte_len(text, upto - 1);
    }
}

/// Once something went wrong, the reading stays as it is.
pub proof fn lemma_failed_stays(text: Seq<char>, kinds: usize, from: int, upto: int)
    requires
        0 <= from <= upto,
        read_cells(text, kinds, from).failed is Some,
    ensures
        read_cells(text, kinds, upto) == read_cells(text, kinds, from),
    decreases upto - from,
{
    if from < upto {
        lemma_failed_stays(text, kinds, from, upto - 1);
    }
}

} // verus!
