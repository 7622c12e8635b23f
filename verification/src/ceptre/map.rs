//! Maps for the rooms of a game: where the tiles of a state come to lie.
//!
//! A room is drawn as text: rows of cells, one character to the cell, with a
//! line break between two rows. A blank stands for a free cell.

use crate::boxsy::{MAP_LENGTH, WORLD_SIZE};
use crate::ceptre::ctypes::texts;
use crate::ceptre::error::same_text;
use crate::ceptre::state::State;
use crate::geometry::IVec2;
use crate::graph::first_index;
use vstd::prelude::*;

verus! {

/// A number below `high`, picked at random.
///
/// This calls `macroquad::rand::RandomRange::gen_range` for `usize`, with `0` as
/// the lower end. That function scales a random number of 32 bits to the
/// range in floating point and cuts off the fraction. For a range of no more
/// than `0x10_0000` numbers the scaling is exact, and the result lies below
/// `high`. Nothing else is claimed of it: which number comes depends on how
/// the generator stands.
#[verifier::external_body]
fn random_below(high: usize) -> (picked: usize)
    requires
        0 < high <= 0x10_0000,
    ensures
        picked < high,
{
    macroquad::rand::RandomRange::gen_range(0, high)
}

/// Where in the text of a room the cell `(x, y)` stands: each row takes its
/// eight cells and a line break.
pub open spec fn cell(x: int, y: int) -> int {
    y * 9 + x
}

/// The text of a room without anything in it.
pub open spec fn spec_blank_room() -> Seq<char> {
    Seq::new(
        MAP_LENGTH as nat,
        |k: int|
            if k % 9 == 8 {
                '\n'
            } else {
                ' '
            },
    )
}

/// The text of a room without anything in it.
pub fn blank_room() -> (room: Vec<char>)
    ensures
        room@ == spec_blank_room(),
{
    let mut room: Vec<char> = Vec::new();
    let mut k: usize = 0;
    while k < MAP_LENGTH
        invariant
            k <= MAP_LENGTH,
            room@.len() == k,
            forall|m: int| 0 <= m < k ==> #[trigger] room@[m] == spec_blank_room()[m],
        decreases MAP_LENGTH - k,
    {
        if k % 9 == 8 {
            room.push('\n');
        } else {
            room.push(' ');
        }
        k += 1;
    }
    assert(room@ =~= spec_blank_room());
    room
}

/// Something stands in the cell `(x, y)` of a room. A cell past the end of
/// the text holds nothing.
pub open spec fn spec_taken(room: Seq<char>, x: int, y: int) -> bool {
    cell(x, y) < room.len() && room[cell(x, y)] != ' '
}

/// Whether something stands in the cell `(x, y)` of a room.
pub fn taken(room: &Vec<char>, x: usize, y: usize) -> (b: bool)
    requires
        x < WORLD_SIZE,
        y < WORLD_SIZE,
    ensures
        b == spec_taken(room@, x as int, y as int),
{
    let at: usize = y * 9 + x;
    at < room.len() && room[at] != ' '
}

/// Puts a character into the cell at `pos` of a room.
pub fn add_char(room: &mut Vec<char>, pos: IVec2, ch: char)
    requires
        0 <= pos.x,
        0 <= pos.y,
        cell(pos.x as int, pos.y as int) < old(room)@.len(),
    ensures
        final(room)@ == old(room)@.update(cell(pos.x as int, pos.y as int), ch),
{
    let length: usize = room.len();
    let x: usize = pos.x as usize;
    let y: usize = pos.y as usize;
    let at: usize = y * 9 + x;
    room.set(at, ch);
}

/// Some cell of the room is taken.
pub open spec fn crowded(room: Seq<char>) -> bool {
    exists|x: int, y: int|
        0 <= x < WORLD_SIZE && 0 <= y < WORLD_SIZE && #[trigger] spec_taken(room, x, y)
}

impl State {
    /// A free cell of a room, picked at random. A cell that is taken is
    /// passed over and another one picked, at most `tries` times in all.
    ///
    /// Which cell comes depends on the random numbers. Whatever they are, a
    /// cell that is returned lies in the room and is free; and no cell is
    /// returned only where there was no try, or where some cell of the room is
    /// taken.
    pub fn generate_pos(&self, room: &Vec<char>, tries: usize) -> (pos: Option<IVec2>)
        ensures
            match pos {
                Some(p) => 0 <= p.x < WORLD_SIZE && 0 <= p.y < WORLD_SIZE && !spec_taken(
                    room@,
                    p.x as int,
                    p.y as int,
                ),
                None => tries == 0 || crowded(room@),
            },
    {
        let mut left: usize = tries;
        while left > 0
            invariant
                left <= tries,
                left < tries ==> crowded(room@),
            decreases left,
        {
            let x = random_below(WORLD_SIZE);
            let y = random_below(WORLD_SIZE);
            if !taken(room, x, y) {
                return Some(IVec2 { x: x as i32, y: y as i32 });
            }
            assert(spec_taken(room@, x as int, y as int));
            left -= 1;
        }
        None
    }
}

/// How many kinds of tile a map can show: one for each digit.
pub const KINDS: usize = 10;

/// The digit that stands for a kind of tile.
pub open spec fn spec_digit(kind: int) -> char {
    if kind == 0 {
        '0'
    } else if kind == 1 {
        '1'
    } else if kind == 2 {
        '2'
    } else if kind == 3 {
        '3'
    } else if kind == 4 {
        '4'
    } else if kind == 5 {
        '5'
    } else if kind == 6 {
        '6'
    } else if kind == 7 {
        '7'
    } else if kind == 8 {
        '8'
    } else {
        '9'
    }
}

/// The digit that stands for a kind of tile.
pub fn digit(kind: usize) -> (c: char)
    requires
        kind < KINDS,
    ensures
        c == spec_digit(kind as int),
{
    if kind == 0 {
        '0'
    } else if kind == 1 {
        '1'
    } else if kind == 2 {
        '2'
    } else if kind == 3 {
        '3'
    } else if kind == 4 {
        '4'
    } else if kind == 5 {
        '5'
    } else if kind == 6 {
        '6'
    } else if kind == 7 {
        '7'
    } else if kind == 8 {
        '8'
    } else {
        '9'
    }
}

/// The first place of a name among the kinds of tile, or their number where
/// the name is not among them.
pub fn find_kind(ids: &Vec<String>, id: &str) -> (at: usize)
    ensures
        at == first_index(texts(ids@), id@, 0),
        at <= ids@.len(),
{
    let n: usize = ids.len();
    let mut k: usize = 0;
    while k < n
        invariant
            k <= n,
            n == ids@.len(),
            first_index(texts(ids@), id@, 0) == first_index(texts(ids@), id@, k as int),
        decreases n - k,
    {
        if same_text(ids[k].as_str(), id) {
            return k;
        }
        k += 1;
    }
    n
}

/// The maps of the rooms while the tiles are laid out: the text of each room,
/// the kinds of tile that have come up, and where the tiles of each kind lie.
pub struct Layout {
    pub maps: Seq<Seq<char>>,
    pub ids: Seq<Seq<char>>,
    pub positions: Seq<Seq<IVec2>>,
}

/// What each of the vectors holds.
pub open spec fn rows<T>(vecs: Seq<Vec<T>>) -> Seq<Seq<T>> {
    Seq::new(vecs.len(), |k: int| vecs[k]@)
}

/// The tile is of a kind that the map cannot show: ten other kinds have come
/// up before it.
pub open spec fn left_out(layout: Layout, id: Seq<char>) -> bool {
    first_index(layout.ids, id, 0) >= layout.ids.len() && layout.ids.len() >= KINDS
}

/// The layout with one more tile, of the kind named `id`, in the cell `pick`
/// of the room `room`. The cell shows the digit of the kind. A tile of a kind
/// that the map cannot show is left out.
pub open spec fn placed(layout: Layout, id: Seq<char>, room: int, pick: IVec2) -> Layout {
    let at = first_index(layout.ids, id, 0);
    if left_out(layout, id) {
        layout
    } else {
        let ids = if at < layout.ids.len() {
            layout.ids
        } else {
            layout.ids.push(id)
        };
        let positions = if at < layout.ids.len() {
            layout.positions
        } else {
            layout.positions.push(Seq::empty())
        };
        Layout {
            maps: layout.maps.update(
                room,
                layout.maps[room].update(cell(pick.x as int, pick.y as int), spec_digit(at)),
            ),
            ids,
            positions: positions.update(at, positions[at].push(pick)),
        }
    }
}

/// The maps with the room of the player moved to the front.
pub open spec fn player_first(maps: Seq<Seq<char>>, start: int) -> Seq<Seq<char>> {
    if start != 0 {
        maps.remove(start).insert(0, maps[start])
    } else {
        maps
    }
}

impl State {
    /// Every tile is in a room that there is, and so is the player.
    pub open spec fn rooms_exist(&self) -> bool {
        &&& self.player.in_room < self.rooms
        &&& forall|t: int| 0 <= t < self.tiles@.len() ==> (#[trigger] self.tiles@[t]).in_room < self.rooms
    }

    /// Tests `rooms_exist`.
    pub fn do_rooms_exist(&self) -> (b: bool)
        ensures
            b == self.rooms_exist(),
    {
        if self.player.in_room >= self.rooms {
            return false;
        }
        let n: usize = self.tiles.len();
        let mut t: usize = 0;
        while t < n
            invariant
                t <= n,
                n == self.tiles@.len(),
                self.player.in_room < self.rooms,
                forall|m: int| 0 <= m < t ==> (#[trigger] self.tiles@[m]).in_room < self.rooms,
            decreases n - t,
        {
            if self.tiles[t].in_room >= self.rooms {
                return false;
            }
            t += 1;
        }
        true
    }

    /// The layout once the first `upto` tiles of the state are laid out, each
    /// in the cell that `picks` has for it. Each tile goes into the map with
    /// the number that its room has once the room of the player is put first.
    pub open spec fn laid_out(&self, picks: Seq<IVec2>, upto: int) -> Layout
        decreases upto,
    {
        if upto <= 0 {
            Layout {
                maps: Seq::new(self.rooms as nat, |r: int| spec_blank_room()),
                ids: Seq::empty(),
                positions: Seq::empty(),
            }
        } else {
            placed(
                self.laid_out(picks, upto - 1),
                self.tiles@[upto - 1].id@,
                self.spec_shift_room(self.tiles@[upto - 1].in_room),
                picks[upto - 1],
            )
        }
    }

    /// Each of the first `upto` picks is a cell of a room, and one that was
    /// free when the tile was put there.
    pub open spec fn picks_fit(&self, picks: Seq<IVec2>, upto: int) -> bool {
        forall|t: int|
            0 <= t < upto && !left_out(self.laid_out(picks, t), self.tiles@[t].id@) ==> {
                &&& 0 <= (#[trigger] picks[t]).x < WORLD_SIZE
                &&& 0 <= picks[t].y < WORLD_SIZE
                &&& !spec_taken(
                    self.laid_out(picks, t).maps[self.spec_shift_room(self.tiles@[t].in_room)],
                    picks[t].x as int,
                    picks[t].y as int,
                )
            }
    }

    /// The maps of the rooms with the tiles of the state laid out at random,
    /// and for each kind of tile the cells in which its tiles lie. The map of
    /// the player's room comes first. For each tile a free cell is looked for
    /// `tries` times at most; where none is found, there is no map.
    ///
    /// Which cells the tiles get depends on the random numbers. Whatever they
    /// are, the maps are those of `laid_out` for picks that fit.
    pub fn generate_map(&self, tries: usize) -> (map: Option<(Vec<Vec<char>>, Vec<Vec<IVec2>>)>)
        requires
            self.rooms_exist(),
        ensures
            match map {
                Some((maps, positions)) => exists|picks: Seq<IVec2>|
                    {
                        &&& picks.len() == self.tiles@.len()
                        &&& #[trigger] self.picks_fit(picks, self.tiles@.len() as int)
                        &&& rows(maps@) == player_first(
                            self.laid_out(picks, self.tiles@.len() as int).maps,
                            self.player.in_room as int,
                        )
                        &&& rows(positions@) == self.laid_out(
                            picks,
                            self.tiles@.len() as int,
                        ).positions
                    },
                None => self.tiles@.len() > 0,
            },
    {
        let mut maps: Vec<Vec<char>> = Vec::new();
        let mut r: usize = 0;
        while r < self.rooms
            invariant
                r <= self.rooms,
                maps@.len() == r,
                forall|m: int| 0 <= m < r ==> (#[trigger] maps@[m])@ == spec_blank_room(),
            decreases self.rooms - r,
        {
            maps.push(blank_room());
            r += 1;
        }
        let mut ids: Vec<String> = Vec::new();
        let mut positions: Vec<Vec<IVec2>> = Vec::new();
        let ghost mut picks: Seq<IVec2> = Seq::empty();
        assert(rows(maps@) =~= self.laid_out(picks, 0).maps);
        assert(texts(ids@) =~= self.laid_out(picks, 0).ids);
        assert(rows(positions@) =~= self.laid_out(picks, 0).positions);
        let n: usize = self.tiles.len();
        let mut t: usize = 0;
        while t < n
            invariant
                t <= n,
                n == self.tiles@.len(),
                self.rooms_exist(),
                picks.len() == t,
                self.picks_fit(picks, t as int),
                rows(maps@) == self.laid_out(picks, t as int).maps,
                texts(ids@) == self.laid_out(picks, t as int).ids,
                rows(positions@) == self.laid_out(picks, t as int).positions,
                maps@.len() == self.rooms,
                positions@.len() == ids@.len(),
                ids@.len() <= KINDS,
                forall|m: int| 0 <= m < maps@.len() ==> (#[trigger] maps@[m])@.len() == MAP_LENGTH,
            decreases n - t,
        {
            let ghost before = self.laid_out(picks, t as int);
            let room: usize = self.shift_room(self.tiles[t].in_room);
            let at: usize = find_kind(&ids, self.tiles[t].id.as_str());
            if at == ids.len() && ids.len() >= KINDS {
                proof {
                    let longer = picks.push(IVec2 { x: 0, y: 0 });
                    self.lemma_laid_out_prefix(picks, longer, t as int);
                    assert(left_out(before, self.tiles@[t as int].id@));
                    assert(self.picks_fit(longer, t + 1)) by {
                        assert forall|m: int|
                            0 <= m < t + 1 && !left_out(
                                self.laid_out(longer, m),
                                self.tiles@[m].id@,
                            ) implies {
                            &&& 0 <= (#[trigger] longer[m]).x < WORLD_SIZE
                            &&& 0 <= longer[m].y < WORLD_SIZE
                            &&& !spec_taken(
                                self.laid_out(longer, m).maps[self.spec_shift_room(
                                    self.tiles@[m].in_room,
                                )],
                                longer[m].x as int,
                                longer[m].y as int,
                            )
                        } by {
                            self.lemma_laid_out_prefix(picks, longer, m);
                            assert(longer[m] == picks[m]);
                        }
                    }
                    picks = longer;
                }
                t += 1;
                continue ;
            }
            let pos = match self.generate_pos(&maps[room], tries) {
                Some(pos) => pos,
                None => {
                    return None;
                },
            };
            if at == ids.len() {
                ids.push(self.tiles[t].id.clone());
                positions.push(Vec::new());
            }
            let kind = &mut positions[at];
            kind.push(pos);
            let text = &mut maps[room];
            add_char(text, pos, digit(at));
            proof {
                let longer = picks.push(pos);
                self.lemma_laid_out_prefix(picks, longer, t as int);
                let after = self.laid_out(longer, t + 1);
                assert(after == placed(before, self.tiles@[t as int].id@, room as int, pos));
                assert(rows(maps@) =~= after.maps);
                assert(texts(ids@) =~= after.ids);
                assert(rows(positions@) =~= after.positions);
                assert(self.picks_fit(longer, t + 1)) by {
                    assert forall|m: int|
                        0 <= m < t + 1 && !left_out(
                            self.laid_out(longer, m),
                            self.tiles@[m].id@,
                        ) implies {
                        &&& 0 <= (#[trigger] longer[m]).x < WORLD_SIZE
                        &&& 0 <= longer[m].y < WORLD_SIZE
                        &&& !spec_taken(
                            self.laid_out(longer, m).maps[self.spec_shift_room(
                                self.tiles@[m].in_room,
                            )],
                            longer[m].x as int,
                            longer[m].y as int,
                        )
                    } by {
                        self.lemma_laid_out_prefix(picks, longer, m);
                        if m < t {
                            assert(longer[m] == picks[m]);
                        }
                    }
                }
                picks = longer;
            }
            t += 1;
        }
        let ghost laid = rows(maps@);
        if self.player.in_room != 0 {
            let first = maps.remove(self.player.in_room);
            maps.insert(0, first);
        }
        assert(rows(maps@) =~= player_first(laid, self.player.in_room as int));
        Some((maps, positions))
    }

    /// What is laid out depends only on the picks for the tiles that are laid
    /// out.
    pub proof fn lemma_laid_out_prefix(&self, picks: Seq<IVec2>, more: Seq<IVec2>, upto: int)
        requires
            0 <= upto <= picks.len(),
            picks.len() <= more.len(),
            forall|k: int| 0 <= k < picks.len() ==> picks[k] == more[k],
        ensures
            self.laid_out(picks, upto) == self.laid_out(more, upto),
        decreases upto,
    {
        if upto > 0 {
            self.lemma_laid_out_prefix(picks, more, upto - 1);
        }
    }
}

} // verus!
