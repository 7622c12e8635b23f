//! Collision on a grid of tiles.
//!
//! The bodies of this logic are entities that each stand on one cell of a map
//! of tiles. An entity touches the tile on its cell and every entity on the
//! same cell. A solid entity that has walked onto a solid tile, or onto another
//! solid entity, is put back the way it came, one cell at a time.

use crate::collision::bodies::CollisionData;
use crate::collision::contact::CollisionEventType;
use crate::geometry::{clamp_i32, IVec2};
use crate::graph::tells_apart;
use crate::{Event, EventType, Logic, Reaction};
use vstd::prelude::*;

verus! {

/// Two things on one cell.
#[derive(Clone, Copy, PartialEq, Eq, Structural, Debug)]
pub enum Contact {
    /// Two entities. Where exactly one of them is fixed, the other comes
    /// first; else the one with the lower index does.
    Ent(usize, usize),
    /// An entity, and the cell of the tile that it stands on.
    Tile(usize, IVec2),
}

/// A change to the map or to the entities, applied at once.
#[derive(Copy, PartialEq, Eq, Debug)]
pub enum CollisionReaction<TileID, EntID> {
    SetTileAtPos(IVec2, TileID),
    RemoveTileAtPos(IVec2),
    SetEntPos(usize, IVec2),
    /// Sets how far an entity has walked since the last step.
    SetEntVel(usize, IVec2),
    /// Sets whether an entity is solid, whether it is fixed, and what the
    /// caller calls it, in that order.
    SetEntData(usize, bool, bool, EntID),
    /// Removes an entity. The entities behind it move down by one index.
    RemoveEnt(usize),
}

impl<TileID: Copy, EntID: Copy> Clone for CollisionReaction<TileID, EntID> {
    fn clone(&self) -> (reaction: Self)
        ensures
            reaction == *self,
    {
        *self
    }
}

/// What names a unit of the logic: a cell with a tile, or an entity.
#[derive(Clone, Copy, PartialEq, Eq, Structural, Debug)]
pub enum ColIdent {
    Position(IVec2),
    EntIdx(usize),
}

/// One unit of a tile-map logic, to read: a tile on its cell, or an entity.
#[allow(inconsistent_fields)]
#[derive(Debug)]
pub enum TileMapColData<'logic, TileID, EntID> {
    Position { pos: IVec2, solid: bool, id: &'logic TileID },
    Ent { pos: &'logic IVec2, amt_moved: IVec2, solid: bool, fixed: bool, id: &'logic EntID },
}

/// One unit of a tile-map logic, to change in place.
#[allow(inconsistent_fields)]
pub enum TileMapColDataMut<'logic, TileID, EntID> {
    Position { pos: IVec2, solid: bool, id: &'logic mut TileID },
    Ent {
        pos: &'logic mut IVec2,
        amt_moved: IVec2,
        solid: bool,
        fixed: bool,
        id: &'logic mut EntID,
    },
}

/// The one step that `vec2` asks for along each axis: `1`, `-1` or `0`.
pub fn normalize(vec2: IVec2) -> (step: IVec2)
    ensures
        step == vec2.spec_direction(),
{
    let mut vec2 = vec2;
    if vec2.x > 1 {
        vec2.x = 1;
    }
    if vec2.x < -1 {
        vec2.x = -1;
    }
    if vec2.y > 1 {
        vec2.y = 1;
    }
    if vec2.y < -1 {
        vec2.y = -1;
    }
    vec2
}

/// On which side `pos` lies outside a map of the given size: `1` along an
/// axis where it lies past the far edge, `-1` where it lies before the near
/// edge, `0` where it lies within. `None` for a cell of the map.
pub open spec fn spec_in_bounds(map_width: i32, map_height: i32, pos: IVec2) -> Option<IVec2> {
    let direction = IVec2 {
        x: if pos.x >= map_width {
            1i32
        } else if pos.x < 0 {
            -1i32
        } else {
            0i32
        },
        y: if pos.y >= map_height {
            1i32
        } else if pos.y < 0 {
            -1i32
        } else {
            0i32
        },
    };
    if direction == IVec2::spec_zero() {
        None
    } else {
        Some(direction)
    }
}

/// On which side `pos` lies outside a map of the given size, or `None` for a
/// cell of the map.
pub fn in_bounds(map_width: i32, map_height: i32, pos: IVec2) -> (direction: Option<IVec2>)
    ensures
        direction == spec_in_bounds(map_width, map_height, pos),
{
    let mut direction = IVec2::zero();
    if pos.x >= map_width {
        direction.x = 1;
    } else if pos.x < 0 {
        direction.x = -1;
    }
    if pos.y >= map_height {
        direction.y = 1;
    } else if pos.y < 0 {
        direction.y = -1;
    }
    if direction.x == 0 && direction.y == 0 {
        None
    } else {
        Some(direction)
    }
}

/// A map of tiles: rows of cells, each with a tile or without.
pub type Tiles<TileID> = Seq<Seq<Option<TileID>>>;

/// The number of cells in a row of the map.
pub open spec fn width_of<TileID>(map: Tiles<TileID>) -> nat {
    if map.len() > 0 {
        map[0].len()
    } else {
        0
    }
}

/// `pos` is a cell of the map.
pub open spec fn inside<TileID>(map: Tiles<TileID>, pos: IVec2) -> bool {
    0 <= pos.y < map.len() && 0 <= pos.x < map[pos.y as int].len()
}

/// The tile on the cell `pos`, if there is one.
pub open spec fn tile_at<TileID>(map: Tiles<TileID>, pos: IVec2) -> Option<TileID> {
    map[pos.y as int][pos.x as int]
}

/// The first position in `kinds`, from `from` on, of the kind of tile `id`;
/// the length of `kinds` where there is none.
pub open spec fn first_kind<TileID>(kinds: Seq<(TileID, bool)>, id: TileID, from: int) -> int
    decreases kinds.len() - from,
{
    if from < 0 || from >= kinds.len() {
        kinds.len() as int
    } else if kinds[from].0 == id {
        from
    } else {
        first_kind(kinds, id, from + 1)
    }
}

/// Tiles of the kind `id` are known to be solid.
pub open spec fn is_solid<TileID>(kinds: Seq<(TileID, bool)>, id: TileID) -> bool {
    first_kind(kinds, id, 0) < kinds.len() && kinds[first_kind(kinds, id, 0)].1
}

/// `pos` is a cell of the map with a solid tile on it.
pub open spec fn blocked<TileID>(map: Tiles<TileID>, kinds: Seq<(TileID, bool)>, pos: IVec2) -> bool {
    inside(map, pos) && match tile_at(map, pos) {
        Some(tile) => is_solid(kinds, tile),
        None => false,
    }
}

/// Every row of the map is as long as the first, and both the number of rows
/// and their length can be held in an `i32`.
pub open spec fn rectangular<TileID>(map: Tiles<TileID>) -> bool {
    &&& map.len() <= i32::MAX
    &&& width_of(map) <= i32::MAX
    &&& forall|r: int| 0 <= r < map.len() ==> (#[trigger] map[r]).len() == width_of(map)
}

/// Where an entity at `pos` is put so that it stands on the map, and what is
/// left of the way it walked: a coordinate before the near edge becomes the
/// first cell, one past the far edge the last cell, and the way it walked is
/// shortened by as much.
pub open spec fn pulled_in(width: int, height: int, pos: IVec2, moved: IVec2) -> (IVec2, IVec2) {
    let (x, moved_x) = if pos.x < 0 {
        (0i32, clamp_i32(moved.x - (0 - pos.x)))
    } else if pos.x >= width {
        ((width - 1) as i32, clamp_i32(moved.x - (pos.x - width + 1)))
    } else {
        (pos.x, moved.x)
    };
    let (y, moved_y) = if pos.y < 0 {
        (0i32, clamp_i32(moved.y - (0 - pos.y)))
    } else if pos.y >= height {
        ((height - 1) as i32, clamp_i32(moved.y - (pos.y - (height - 1))))
    } else {
        (pos.y, moved.y)
    };
    (IVec2 { x, y }, IVec2 { x: moved_x, y: moved_y })
}

/// Puts an entity onto a map of the given size.
pub fn pull_in(width: i32, height: i32, pos: IVec2, moved: IVec2) -> (pulled: (IVec2, IVec2))
    requires
        width >= 1,
        height >= 1,
    ensures
        pulled == pulled_in(width as int, height as int, pos, moved),
        0 <= pulled.0.x < width,
        0 <= pulled.0.y < height,
{
    let mut pos = pos;
    let mut amt_moved = moved;
    if pos.x < 0 {
        let delta: i64 = 0 - pos.x as i64;
        pos.x = 0;
        amt_moved.x = clamped_wide(amt_moved.x as i64 - delta);
    } else if pos.x >= width {
        let delta: i64 = pos.x as i64 - width as i64 + 1;
        pos.x = width - 1;
        amt_moved.x = clamped_wide(amt_moved.x as i64 - delta);
    }
    if pos.y < 0 {
        let delta: i64 = 0 - pos.y as i64;
        pos.y = 0;
        amt_moved.y = clamped_wide(amt_moved.y as i64 - delta);
    } else if pos.y >= height {
        let delta: i64 = pos.y as i64 - (height as i64 - 1);
        pos.y = height - 1;
        amt_moved.y = clamped_wide(amt_moved.y as i64 - delta);
    }
    (pos, amt_moved)
}

/// `v`, held to what an `i32` can hold.
pub fn clamped_wide(v: i64) -> (c: i32)
    ensures
        c == clamp_i32(v as int),
{
    if v < i32::MIN as i64 {
        i32::MIN
    } else if v > i32::MAX as i64 {
        i32::MAX
    } else {
        v as i32
    }
}

/// How many steps back along `step` an entity at `pos` can take before it
/// leaves the map.
pub open spec fn room_behind<TileID>(map: Tiles<TileID>, pos: IVec2, step: IVec2) -> int {
    if !inside(map, pos) {
        0
    } else if step.x > 0 {
        pos.x + 1
    } else if step.x < 0 {
        width_of(map) - pos.x
    } else if step.y > 0 {
        pos.y + 1
    } else if step.y < 0 {
        map.len() - pos.y
    } else {
        0
    }
}

/// Where an entity ends up that is put back from `pos` along `step` until it
/// stands on no solid tile, and what is then left of the way it walked.
pub open spec fn backed_off<TileID>(
    map: Tiles<TileID>,
    kinds: Seq<(TileID, bool)>,
    pos: IVec2,
    moved: IVec2,
    step: IVec2,
) -> (IVec2, IVec2)
    decreases room_behind(map, pos, step),
{
    if blocked(map, kinds, pos) && 0 <= room_behind(map, pos.spec_minus(step), step)
        < room_behind(map, pos, step) {
        backed_off(map, kinds, pos.spec_minus(step), moved.spec_minus(step), step)
    } else {
        (pos, moved)
    }
}

/// On a map whose rows have one length, every step back that is a step at all
/// leaves less room behind.
pub proof fn lemma_step_back<TileID>(map: Tiles<TileID>, pos: IVec2, step: IVec2)
    requires
        rectangular(map),
        inside(map, pos),
        step != IVec2::spec_zero(),
        -1 <= step.x <= 1,
        -1 <= step.y <= 1,
    ensures
        0 <= room_behind(map, pos.spec_minus(step), step) < room_behind(map, pos, step),
{
    let back = pos.spec_minus(step);
    if inside(map, back) {
        assert(map[back.y as int].len() == width_of(map));
    }
    assert(map[pos.y as int].len() == width_of(map));
}

/// The entities of a tile-map logic as they stand while the contacts of a
/// step are resolved.
pub struct Walk {
    pub positions: Seq<IVec2>,
    pub amt_moved: Seq<IVec2>,
    /// The step has come upon a solid, unfixed entity that stands on a tile
    /// without having walked there, and has stopped resolving contacts.
    pub stopped: bool,
}

/// The contacts of the first `n` entities with the tiles that they stand on.
pub open spec fn tile_contacts<TileID>(map: Tiles<TileID>, positions: Seq<IVec2>, n: int) -> Seq<
    Contact,
>
    decreases n,
{
    if n <= 0 {
        Seq::empty()
    } else if inside(map, positions[n - 1]) && tile_at(map, positions[n - 1]).is_some() {
        tile_contacts(map, positions, n - 1).push(Contact::Tile((n - 1) as usize, positions[n - 1]))
    } else {
        tile_contacts(map, positions, n - 1)
    }
}

/// The contact of the entities `i < j`, which stand on one cell.
pub open spec fn contact_between<EntID: Copy + Eq>(
    metadata: Seq<CollisionData<EntID>>,
    i: int,
    j: int,
) -> Contact {
    if metadata[i].fixed && !metadata[j].fixed {
        Contact::Ent(j as usize, i as usize)
    } else {
        Contact::Ent(i as usize, j as usize)
    }
}

/// The contacts of entity `i` with the entities `i + 1 .. j`.
pub open spec fn row_contacts<EntID: Copy + Eq>(
    positions: Seq<IVec2>,
    metadata: Seq<CollisionData<EntID>>,
    i: int,
    j: int,
) -> Seq<Contact>
    decreases j - i,
{
    if j <= i + 1 {
        Seq::empty()
    } else if positions[i] == positions[j - 1] {
        row_contacts(positions, metadata, i, j - 1).push(contact_between(metadata, i, j - 1))
    } else {
        row_contacts(positions, metadata, i, j - 1)
    }
}

/// The contacts of the entities `0 .. n`, each with the entities behind it.
pub open spec fn ent_contacts<EntID: Copy + Eq>(
    positions: Seq<IVec2>,
    metadata: Seq<CollisionData<EntID>>,
    n: int,
) -> Seq<Contact>
    decreases n,
{
    if n <= 0 {
        Seq::empty()
    } else {
        ent_contacts(positions, metadata, n - 1) + row_contacts(
            positions,
            metadata,
            n - 1,
            positions.len() as int,
        )
    }
}

/// The entities after one contact has been resolved.
///
/// A contact with a tile concerns a solid, unfixed entity that still stands
/// on the cell: it is put back the way it came until it stands on no solid
/// tile. If it did not walk there, the step stops. A contact of two entities
/// concerns two solid entities that still stand on one cell, the first unfixed
/// and having walked: where the second is fixed the first goes back one cell,
/// and else the second goes back one cell the way it came.
pub open spec fn resolved<TileID, EntID: Copy + Eq>(
    map: Tiles<TileID>,
    kinds: Seq<(TileID, bool)>,
    metadata: Seq<CollisionData<EntID>>,
    walk: Walk,
    contact: Contact,
) -> Walk {
    if walk.stopped {
        walk
    } else {
        match contact {
            Contact::Tile(i, pos) => {
                if walk.positions[i as int] != pos || !metadata[i as int].solid
                    || metadata[i as int].fixed {
                    walk
                } else if walk.amt_moved[i as int] == IVec2::spec_zero() {
                    Walk { stopped: true, ..walk }
                } else {
                    let back = backed_off(
                        map,
                        kinds,
                        walk.positions[i as int],
                        walk.amt_moved[i as int],
                        walk.amt_moved[i as int].spec_direction(),
                    );
                    Walk {
                        positions: walk.positions.update(i as int, back.0),
                        amt_moved: walk.amt_moved.update(i as int, back.1),
                        stopped: false,
                    }
                }
            },
            Contact::Ent(i, j) => {
                if walk.positions[i as int] != walk.positions[j as int] || !metadata[i as int].solid
                    || metadata[i as int].fixed || !metadata[j as int].solid
                    || walk.amt_moved[i as int] == IVec2::spec_zero() {
                    walk
                } else {
                    let who = if metadata[j as int].fixed {
                        i as int
                    } else {
                        j as int
                    };
                    let step = walk.amt_moved[who].spec_direction();
                    Walk {
                        positions: walk.positions.update(who, walk.positions[who].spec_minus(step)),
                        amt_moved: walk.amt_moved.update(who, walk.amt_moved[who].spec_minus(step)),
                        stopped: false,
                    }
                }
            },
        }
    }
}

/// The entities after the first `k` of `contacts` have been resolved.
pub open spec fn settled<TileID, EntID: Copy + Eq>(
    map: Tiles<TileID>,
    kinds: Seq<(TileID, bool)>,
    metadata: Seq<CollisionData<EntID>>,
    walk: Walk,
    contacts: Seq<Contact>,
    k: int,
) -> Walk
    decreases k,
{
    if k <= 0 {
        walk
    } else {
        resolved(
            map,
            kinds,
            metadata,
            settled(map, kinds, metadata, walk, contacts, k - 1),
            contacts[k - 1],
        )
    }
}

/// The entities after each has been put onto the map.
pub open spec fn all_pulled_in(width: int, height: int, positions: Seq<IVec2>, amt_moved: Seq<IVec2>) -> Walk {
    Walk {
        positions: Seq::new(
            positions.len(),
            |k: int| pulled_in(width, height, positions[k], amt_moved[k]).0,
        ),
        amt_moved: Seq::new(
            positions.len(),
            |k: int| pulled_in(width, height, positions[k], amt_moved[k]).1,
        ),
        stopped: false,
    }
}

/// A contact names entities that exist.
pub open spec fn names_entities(contact: Contact, n: nat) -> bool {
    match contact {
        Contact::Tile(i, _) => i < n,
        Contact::Ent(i, j) => i < n && j < n && i != j,
    }
}

/// As many entities that have not walked.
pub open spec fn at_rest(n: nat) -> Seq<IVec2> {
    Seq::new(n, |k: int| IVec2::spec_zero())
}

/// A collision logic for entities on a map of tiles.
///
/// Entry `k` of `positions`, `metadata` and `amt_moved` describes entity `k`.
pub struct TileMapCollision<TileID: Copy + Eq, EntID: Copy + Eq> {
    /// The map: rows of cells, each with a tile or without. The cell `(x, y)` is
    /// `map[y][x]`.
    pub map: Vec<Vec<Option<TileID>>>,
    /// Which kinds of tile are solid. A kind stands for its first entry.
    pub tile_solid: Vec<(TileID, bool)>,
    /// The cell of each entity.
    pub positions: Vec<IVec2>,
    /// How each entity takes part in collisions.
    pub metadata: Vec<CollisionData<EntID>>,
    /// How far each entity has walked since the last step.
    pub amt_moved: Vec<IVec2>,
    /// What touched in the last step.
    pub contacts: Vec<Contact>,
}

impl<TileID: Copy + Eq, EntID: Copy + Eq> TileMapCollision<TileID, EntID> {
    /// The map, as rows of cells.
    pub open spec fn tiles(&self) -> Tiles<TileID> {
        Seq::new(self.map@.len(), |r: int| self.map@[r]@)
    }

    /// The rows of the map have one length; every entity has its metadata and
    /// its way walked; and where there are entities, the map has a cell.
    pub open spec fn spec_wf(&self) -> bool {
        &&& rectangular(self.tiles())
        &&& self.metadata@.len() == self.positions@.len()
        &&& self.amt_moved@.len() == self.positions@.len()
        &&& self.positions@.len() > 0 ==> self.tiles().len() >= 1 && width_of(self.tiles()) >= 1
    }

    /// A logic without entities, on a map of the given size without tiles.
    pub fn new(width: usize, height: usize) -> (logic: Self)
        requires
            width <= i32::MAX,
            height <= i32::MAX,
        ensures
            logic.spec_wf(),
            logic.tiles() == Seq::new(height as nat, |r: int| Seq::new(width as nat, |c: int| None::<TileID>)),
            logic.tile_solid@.len() == 0,
            logic.positions@.len() == 0,
            logic.contacts@.len() == 0,
    {
        let mut collision = Self {
            map: Vec::new(),
            tile_solid: Vec::new(),
            positions: Vec::new(),
            metadata: Vec::new(),
            amt_moved: Vec::new(),
            contacts: Vec::new(),
        };
        collision.clear_and_resize_map(width, height);
        collision
    }

    /// Replaces the map by one of the given size without tiles.
    pub fn clear_and_resize_map(&mut self, width: usize, height: usize)
        requires
            width <= i32::MAX,
            height <= i32::MAX,
        ensures
            final(self).tiles() == Seq::new(
                height as nat,
                |r: int| Seq::new(width as nat, |c: int| None::<TileID>),
            ),
            rectangular(final(self).tiles()),
            final(self).tile_solid == old(self).tile_solid,
            final(self).positions == old(self).positions,
            final(self).metadata == old(self).metadata,
            final(self).amt_moved == old(self).amt_moved,
            final(self).contacts == old(self).contacts,
    {
        self.map.clear();
        let mut r: usize = 0;
        while r < height
            invariant
                r <= height,
                self.map@.len() == r,
                forall|k: int|
                    0 <= k < r ==> (#[trigger] self.map@[k])@ == Seq::new(
                        width as nat,
                        |c: int| None::<TileID>,
                    ),
                self.tile_solid == old(self).tile_solid,
                self.positions == old(self).positions,
                self.metadata == old(self).metadata,
                self.amt_moved == old(self).amt_moved,
                self.contacts == old(self).contacts,
            decreases height - r,
        {
            let mut row: Vec<Option<TileID>> = Vec::new();
            let mut c: usize = 0;
            while c < width
                invariant
                    c <= width,
                    row@ == Seq::new(c as nat, |c: int| None::<TileID>),
                decreases width - c,
            {
                row.push(None);
                c += 1;
                assert(row@ =~= Seq::new(c as nat, |c: int| None::<TileID>));
            }
            self.map.push(row);
            r += 1;
        }
        assert(self.tiles() =~~= Seq::new(
            height as nat,
            |r: int| Seq::new(width as nat, |c: int| None::<TileID>),
        ));
    }

    /// Removes every entity but those that the caller calls `id`. The ones
    /// that stay keep their order.
    pub fn clear_entities_except(&mut self, id: EntID)
        requires
            old(self).spec_wf(),
            tells_apart::<EntID>(),
        ensures
            final(self).spec_wf(),
            final(self).map == old(self).map,
            final(self).tile_solid == old(self).tile_solid,
            final(self).contacts == old(self).contacts,
            final(self).metadata@ == old(self).metadata@.filter(
                |meta: CollisionData<EntID>| meta.id == id,
            ),
            final(self).metadata@ == kept(
                old(self).metadata@,
                old(self).metadata@,
                id,
                old(self).positions@.len() as int,
            ),
            final(self).positions@ == kept(
                old(self).positions@,
                old(self).metadata@,
                id,
                old(self).positions@.len() as int,
            ),
            final(self).amt_moved@ == kept(
                old(self).amt_moved@,
                old(self).metadata@,
                id,
                old(self).positions@.len() as int,
            ),
    {
        let mut positions: Vec<IVec2> = Vec::new();
        let mut amt_moved: Vec<IVec2> = Vec::new();
        let mut metadata: Vec<CollisionData<EntID>> = Vec::new();
        let n: usize = self.positions.len();
        let mut k: usize = 0;
        while k < n
            invariant
                k <= n,
                n == self.positions@.len(),
                self.spec_wf(),
                tells_apart::<EntID>(),
                positions@ == kept(self.positions@, self.metadata@, id, k as int),
                amt_moved@ == kept(self.amt_moved@, self.metadata@, id, k as int),
                metadata@ == kept(self.metadata@, self.metadata@, id, k as int),
                metadata@ == self.metadata@.take(k as int).filter(
                    |meta: CollisionData<EntID>| meta.id == id,
                ),
            decreases n - k,
        {
            proof {
                reveal(Seq::filter);
                assert(self.metadata@.take(k + 1).drop_last() =~= self.metadata@.take(k as int));
            }
            if self.metadata[k].id == id {
                positions.push(self.positions[k]);
                amt_moved.push(self.amt_moved[k]);
                metadata.push(self.metadata[k]);
            }
            k += 1;
        }
        proof {
            assert(self.metadata@.take(n as int) =~= self.metadata@);
            lemma_kept_len(self.positions@, self.metadata@, id, n as int);
            lemma_kept_len(self.amt_moved@, self.metadata@, id, n as int);
        }
        self.positions = positions;
        self.amt_moved = amt_moved;
        self.metadata = metadata;
        proof {
            if self.positions@.len() > 0 {
                assert(old(self).positions@.len() > 0);
            }
        }
    }

    /// The contacts that a step finds once every entity stands on the map: of
    /// each entity with the tile on its cell, and then of every two entities on
    /// one cell.
    pub open spec fn found_contacts(&self, start: Walk) -> Seq<Contact> {
        tile_contacts(self.tiles(), start.positions, start.positions.len() as int) + ent_contacts(
            start.positions,
            self.metadata@,
            start.positions.len() as int,
        )
    }

    /// The entities as a step finds them: each put onto the map.
    pub open spec fn start_of_step(&self) -> Walk {
        all_pulled_in(
            width_of(self.tiles()) as int,
            self.tiles().len() as int,
            self.positions@,
            self.amt_moved@,
        )
    }

    /// The entities as a step leaves them, before it forgets how far each has
    /// walked.
    pub open spec fn end_of_step(&self) -> Walk {
        let start = self.start_of_step();
        let contacts = self.found_contacts(start);
        settled(
            self.tiles(),
            self.tile_solid@,
            self.metadata@,
            start,
            contacts,
            contacts.len() as int,
        )
    }

    /// Takes a step. Every entity is put onto the map; the contacts are found;
    /// each contact is resolved in turn, as `resolved` says; and at the end the
    /// entities count as not having walked.
    ///
    /// Where the step stops early, on a solid unfixed entity on a tile that did
    /// not walk there, what the entities have walked is kept as it then stands.
    pub fn update(&mut self)
        requires
            old(self).spec_wf(),
            tells_apart::<TileID>(),
        ensures
            final(self).spec_wf(),
            final(self).map == old(self).map,
            final(self).tile_solid == old(self).tile_solid,
            final(self).metadata == old(self).metadata,
            final(self).contacts@ == old(self).found_contacts(old(self).start_of_step()),
            final(self).positions@ == old(self).end_of_step().positions,
            final(self).amt_moved@ == if old(self).end_of_step().stopped {
                old(self).end_of_step().amt_moved
            } else {
                at_rest(old(self).positions@.len())
            },
    {
        self.contacts.clear();
        let n: usize = self.positions.len();
        let ghost tiles = self.tiles();
        let ghost kinds = self.tile_solid@;
        let ghost start = self.start_of_step();
        if n == 0 {
            proof {
                assert(start.positions =~= self.positions@);
                assert(self.amt_moved@ =~= at_rest(0));
                assert(self.found_contacts(start) =~= Seq::<Contact>::empty());
            }
            return ;
        }
        let height: i32 = self.map.len() as i32;
        assert(self.tiles()[0].len() == self.map@[0]@.len());
        let width: i32 = self.map[0].len() as i32;
        let mut k: usize = 0;
        while k < n
            invariant
                k <= n,
                n == old(self).positions@.len(),
                n == self.positions@.len(),
                n == self.amt_moved@.len(),
                width == width_of(tiles),
                height == tiles.len(),
                width >= 1,
                height >= 1,
                start == old(self).start_of_step(),
                old(self).spec_wf(),
                tiles == old(self).tiles(),
                self.map == old(self).map,
                self.tile_solid == old(self).tile_solid,
                self.metadata == old(self).metadata,
                self.contacts@.len() == 0,
                forall|m: int| 0 <= m < k ==> #[trigger] self.positions@[m] == start.positions[m],
                forall|m: int| 0 <= m < k ==> #[trigger] self.amt_moved@[m] == start.amt_moved[m],
                forall|m: int|
                    k <= m < n ==> #[trigger] self.positions@[m] == old(self).positions@[m],
                forall|m: int|
                    k <= m < n ==> #[trigger] self.amt_moved@[m] == old(self).amt_moved@[m],
            decreases n - k,
        {
            let (pos, moved) = pull_in(width, height, self.positions[k], self.amt_moved[k]);
            self.positions.set(k, pos);
            self.amt_moved.set(k, moved);
            k += 1;
        }
        assert(self.positions@ =~= start.positions);
        assert(self.amt_moved@ =~= start.amt_moved);
        assert forall|m: int| 0 <= m < n implies inside(tiles, #[trigger] start.positions[m]) by {
            let p = start.positions[m];
            assert(tiles[p.y as int].len() == width_of(tiles));
        }
        // every entity against the tile on its cell
        let mut i: usize = 0;
        while i < n
            invariant
                i <= n,
                n == self.positions@.len(),
                self.positions@ == start.positions,
                self.amt_moved@ == start.amt_moved,
                tiles == self.tiles(),
                self.map == old(self).map,
                self.tile_solid == old(self).tile_solid,
                self.metadata == old(self).metadata,
                forall|m: int| 0 <= m < n ==> inside(tiles, #[trigger] start.positions[m]),
                self.contacts@ == tile_contacts(tiles, start.positions, i as int),
            decreases n - i,
        {
            let pos: IVec2 = self.positions[i];
            assert(inside(tiles, start.positions[i as int]));
            if self.tile_at_pos(&pos).is_some() {
                self.contacts.push(Contact::Tile(i, pos));
            }
            i += 1;
        }
        let ghost on_tiles = self.contacts@;
        // every entity against every entity behind it
        let mut i: usize = 0;
        while i < n
            invariant
                i <= n,
                n == self.positions@.len(),
                n == self.metadata@.len(),
                self.positions@ == start.positions,
                self.amt_moved@ == start.amt_moved,
                self.map == old(self).map,
                self.tile_solid == old(self).tile_solid,
                self.metadata == old(self).metadata,
                self.contacts@ == on_tiles + ent_contacts(
                    start.positions,
                    self.metadata@,
                    i as int,
                ),
            decreases n - i,
        {
            let ghost rows = self.contacts@;
            let mut j: usize = i + 1;
            while j < n
                invariant
                    i < j <= n,
                    n == self.positions@.len(),
                    n == self.metadata@.len(),
                    self.positions@ == start.positions,
                    self.amt_moved@ == start.amt_moved,
                    self.map == old(self).map,
                    self.tile_solid == old(self).tile_solid,
                    self.metadata == old(self).metadata,
                    self.contacts@ == rows + row_contacts(
                        start.positions,
                        self.metadata@,
                        i as int,
                        j as int,
                    ),
                decreases n - j,
            {
                if self.positions[i].x == self.positions[j].x && self.positions[i].y
                    == self.positions[j].y {
                    if self.metadata[i].fixed && !self.metadata[j].fixed {
                        self.contacts.push(Contact::Ent(j, i));
                    } else {
                        self.contacts.push(Contact::Ent(i, j));
                    }
                }
                j += 1;
                assert(self.contacts@ =~= rows + row_contacts(
                    start.positions,
                    self.metadata@,
                    i as int,
                    j as int,
                ));
            }
            i += 1;
            assert(self.contacts@ =~= on_tiles + ent_contacts(
                start.positions,
                self.metadata@,
                i as int,
            ));
        }
        let ghost found = self.contacts@;
        assert(found == old(self).found_contacts(start));
        proof {
            lemma_found_contacts(tiles, start.positions, self.metadata@, n as int);
        }
        // restitute
        let count: usize = self.contacts.len();
        let mut c: usize = 0;
        while c < count
            invariant
                c <= count,
                count == found.len(),
                n == self.positions@.len(),
                n == self.amt_moved@.len(),
                n == self.metadata@.len(),
                self.contacts@ == found,
                tiles == self.tiles(),
                kinds == self.tile_solid@,
                rectangular(tiles),
                tells_apart::<TileID>(),
                self.map == old(self).map,
                self.tile_solid == old(self).tile_solid,
                self.metadata == old(self).metadata,
                old(self).spec_wf(),
                forall|m: int| 0 <= m < found.len() ==> names_entities(#[trigger] found[m], n as nat),
                settled(tiles, kinds, self.metadata@, start, found, c as int) == (Walk {
                    positions: self.positions@,
                    amt_moved: self.amt_moved@,
                    stopped: false,
                }),
                found == old(self).found_contacts(start),
                start == old(self).start_of_step(),
            decreases count - c,
        {
            let contact: Contact = self.contacts[c];
            assert(names_entities(found[c as int], n as nat));
            let ghost walk = Walk {
                positions: self.positions@,
                amt_moved: self.amt_moved@,
                stopped: false,
            };
            match contact {
                Contact::Tile(i, pos) => {
                    let here: IVec2 = self.positions[i];
                    let moved: IVec2 = self.amt_moved[i];
                    if here.x == pos.x && here.y == pos.y && self.metadata[i].solid
                        && !self.metadata[i].fixed {
                        if moved.x == 0 && moved.y == 0 {
                            proof {
                                let stop = Walk { stopped: true, ..walk };
                                assert(settled(tiles, kinds, self.metadata@, start, found, c + 1)
                                    == stop);
                                lemma_stopped_stays(
                                    tiles,
                                    kinds,
                                    self.metadata@,
                                    start,
                                    found,
                                    c + 1,
                                    count as int,
                                );
                            }
                            return ;
                        }
                        let step = normalize(moved);
                        let (back, left) = self.back_off(here, moved, step);
                        self.positions.set(i, back);
                        self.amt_moved.set(i, left);
                    }
                },
                Contact::Ent(i, j) => {
                    let here: IVec2 = self.positions[i];
                    let there: IVec2 = self.positions[j];
                    let moved: IVec2 = self.amt_moved[i];
                    if here.x == there.x && here.y == there.y && self.metadata[i].solid
                        && !self.metadata[i].fixed && self.metadata[j].solid && !(moved.x == 0
                        && moved.y == 0) {
                        let who: usize = if self.metadata[j].fixed {
                            i
                        } else {
                            j
                        };
                        let step = normalize(self.amt_moved[who]);
                        let back = self.positions[who].minus(step);
                        let left = self.amt_moved[who].minus(step);
                        self.positions.set(who, back);
                        self.amt_moved.set(who, left);
                    }
                },
            }
            c += 1;
        }
        self.amt_moved.clear();
        let mut k: usize = 0;
        while k < n
            invariant
                k <= n,
                self.amt_moved@ == at_rest(k as nat),
                self.positions@ == old(self).end_of_step().positions,
                n == self.positions@.len(),
                n == self.metadata@.len(),
                self.map == old(self).map,
                self.tile_solid == old(self).tile_solid,
                self.metadata == old(self).metadata,
                self.contacts@ == found,
                !old(self).end_of_step().stopped,
            decreases n - k,
        {
            self.amt_moved.push(IVec2::zero());
            k += 1;
            assert(self.amt_moved@ =~= at_rest(k as nat));
        }
    }

    /// Forgets which kinds of tile are solid.
    pub fn clear_tile_data(&mut self)
        ensures
            final(self).tile_solid@.len() == 0,
            final(self).map == old(self).map,
            final(self).positions == old(self).positions,
            final(self).metadata == old(self).metadata,
            final(self).amt_moved == old(self).amt_moved,
            final(self).contacts == old(self).contacts,
    {
        self.tile_solid.clear();
    }

    /// The tile on the cell `pos`, if there is one.
    pub fn tile_at_pos(&self, pos: &IVec2) -> (tile: &Option<TileID>)
        requires
            inside(self.tiles(), *pos),
        ensures
            *tile == tile_at(self.tiles(), *pos),
    {
        &self.map[pos.y as usize][pos.x as usize]
    }

    /// The tile on the cell `pos`, to change in place.
    pub fn tile_at_pos_mut(&mut self, pos: &IVec2) -> (tile: &mut Option<TileID>)
        requires
            inside(old(self).tiles(), *pos),
        ensures
            *tile == tile_at(old(self).tiles(), *pos),
            final(self).tiles() == old(self).tiles().update(
                pos.y as int,
                old(self).tiles()[pos.y as int].update(pos.x as int, *final(tile)),
            ),
            final(self).tile_solid == old(self).tile_solid,
            final(self).positions == old(self).positions,
            final(self).metadata == old(self).metadata,
            final(self).amt_moved == old(self).amt_moved,
            final(self).contacts == old(self).contacts,
    {
        let row = &mut self.map[pos.y as usize];
        &mut row[pos.x as usize]
    }

    /// Whether tiles of the kind `tile_id` are solid. The kind must be known.
    pub fn tile_solid(&self, tile_id: &TileID) -> (solid: bool)
        requires
            tells_apart::<TileID>(),
            first_kind(self.tile_solid@, *tile_id, 0) < self.tile_solid@.len(),
        ensures
            solid == is_solid(self.tile_solid@, *tile_id),
    {
        match self.find_kind(tile_id) {
            Some(solid) => solid,
            None => false,
        }
    }

    /// Whether tiles of the kind `tile_id` are solid, or `None` where the kind
    /// is not known.
    pub fn find_kind(&self, tile_id: &TileID) -> (solid: Option<bool>)
        requires
            tells_apart::<TileID>(),
        ensures
            solid == if first_kind(self.tile_solid@, *tile_id, 0) < self.tile_solid@.len() {
                Some(self.tile_solid@[first_kind(self.tile_solid@, *tile_id, 0)].1)
            } else {
                None
            },
    {
        let mut k: usize = 0;
        while k < self.tile_solid.len()
            invariant
                k <= self.tile_solid@.len(),
                tells_apart::<TileID>(),
                first_kind(self.tile_solid@, *tile_id, 0) == first_kind(
                    self.tile_solid@,
                    *tile_id,
                    k as int,
                ),
            decreases self.tile_solid@.len() - k,
        {
            if self.tile_solid[k].0 == *tile_id {
                return Some(self.tile_solid[k].1);
            }
            k += 1;
        }
        None
    }

    /// Whether `pos` is a cell of the map with a solid tile on it.
    pub fn is_blocked(&self, pos: IVec2) -> (stuck: bool)
        requires
            rectangular(self.tiles()),
            tells_apart::<TileID>(),
        ensures
            stuck == blocked(self.tiles(), self.tile_solid@, pos),
    {
        if pos.y < 0 || pos.x < 0 || pos.y as usize >= self.map.len() {
            return false;
        }
        assert(self.tiles()[pos.y as int].len() == self.map@[pos.y as int]@.len());
        if pos.x as usize >= self.map[pos.y as usize].len() {
            return false;
        }
        match self.map[pos.y as usize][pos.x as usize] {
            Some(tile) => match self.find_kind(&tile) {
                Some(solid) => solid,
                None => false,
            },
            None => false,
        }
    }

    /// Puts an entity back from `pos` along `step`, cell by cell, until it
    /// stands on no solid tile.
    pub fn back_off(&self, pos: IVec2, moved: IVec2, step: IVec2) -> (back: (IVec2, IVec2))
        requires
            rectangular(self.tiles()),
            tells_apart::<TileID>(),
            step != IVec2::spec_zero(),
            -1 <= step.x <= 1,
            -1 <= step.y <= 1,
        ensures
            back == backed_off(self.tiles(), self.tile_solid@, pos, moved, step),
    {
        let mut pos = pos;
        let mut moved = moved;
        let ghost end = backed_off(self.tiles(), self.tile_solid@, pos, moved, step);
        while self.is_blocked(pos)
            invariant
                rectangular(self.tiles()),
                tells_apart::<TileID>(),
                step != IVec2::spec_zero(),
                -1 <= step.x <= 1,
                -1 <= step.y <= 1,
                backed_off(self.tiles(), self.tile_solid@, pos, moved, step) == end,
            decreases room_behind(self.tiles(), pos, step),
        {
            proof {
                lemma_step_back(self.tiles(), pos, step);
            }
            pos = pos.minus(step);
            moved = moved.minus(step);
        }
        (pos, moved)
    }
}

impl<TileID: Copy + Eq, EntID: Copy + Eq> TileMapCollision<TileID, EntID> {
    /// `ident` names a tile whose kind is known, or an entity.
    pub open spec fn names(&self, ident: ColIdent) -> bool {
        match ident {
            ColIdent::Position(pos) => {
                &&& inside(self.tiles(), pos)
                &&& tile_at(self.tiles(), pos) matches Some(tile)
                &&& first_kind(self.tile_solid@, tile, 0) < self.tile_solid@.len()
            },
            ColIdent::EntIdx(idx) => idx < self.positions@.len(),
        }
    }

    /// What the logic holds of the unit `ident`.
    pub fn unit(&self, ident: ColIdent) -> (data: TileMapColData<'_, TileID, EntID>)
        requires
            self.spec_wf(),
            tells_apart::<TileID>(),
            self.names(ident),
        ensures
            match ident {
                ColIdent::Position(at) => {
                    &&& data matches TileMapColData::Position { pos, solid, id }
                    &&& pos == at
                    &&& Some(*id) == tile_at(self.tiles(), at)
                    &&& solid == is_solid(self.tile_solid@, *id)
                },
                ColIdent::EntIdx(idx) => {
                    &&& data matches TileMapColData::Ent { pos, amt_moved, solid, fixed, id }
                    &&& *pos == self.positions@[idx as int]
                    &&& amt_moved == self.amt_moved@[idx as int]
                    &&& solid == self.metadata@[idx as int].solid
                    &&& fixed == self.metadata@[idx as int].fixed
                    &&& *id == self.metadata@[idx as int].id
                },
            },
    {
        match ident {
            ColIdent::Position(pos) => {
                let id: &TileID = self.map[pos.y as usize][pos.x as usize].as_ref().unwrap();
                let solid = self.tile_solid(id);
                TileMapColData::Position { solid, id, pos }
            },
            ColIdent::EntIdx(idx) => {
                let meta = &self.metadata[idx];
                TileMapColData::Ent {
                    pos: &self.positions[idx],
                    amt_moved: self.amt_moved[idx],
                    solid: meta.solid,
                    fixed: meta.fixed,
                    id: &meta.id,
                }
            },
        }
    }
}

impl Event for Contact {
    type EventType = CollisionEventType;

    fn get_type(&self) -> (kind: &CollisionEventType)
        ensures
            *kind == CollisionEventType::Touching,
    {
        &CollisionEventType::Touching
    }
}

impl<TileID, EntID> Reaction for CollisionReaction<TileID, EntID> {

}

impl<TileID: Copy + Eq + 'static, EntID: Copy + Eq + 'static> Logic for TileMapCollision<
    TileID,
    EntID,
> {
    type Event = Contact;

    type Reaction = CollisionReaction<TileID, EntID>;

    type Ident = ColIdent;

    type IdentData<'logic> = TileMapColData<'logic, TileID, EntID>;

    type DataIter<'logic> = ColDataIter<'logic, TileID, EntID>;

    open spec fn wf(&self) -> bool {
        self.spec_wf() && tells_apart::<TileID>()
    }

    open spec fn accepts(&self, reaction: &CollisionReaction<TileID, EntID>) -> bool {
        match *reaction {
            CollisionReaction::SetTileAtPos(pos, _) => inside(self.tiles(), pos),
            CollisionReaction::RemoveTileAtPos(pos) => inside(self.tiles(), pos),
            CollisionReaction::SetEntPos(idx, _) => idx < self.positions@.len(),
            CollisionReaction::SetEntVel(idx, _) => idx < self.positions@.len(),
            CollisionReaction::SetEntData(idx, _, _, _) => idx < self.positions@.len(),
            CollisionReaction::RemoveEnt(idx) => idx < self.positions@.len(),
        }
    }

    open spec fn has(&self, ident: ColIdent) -> bool {
        self.names(ident)
    }

    /// Applies a reaction to the map or to the entities, at once.
    fn handle_predicate(&mut self, reaction: &CollisionReaction<TileID, EntID>)
        ensures
            final(self).tile_solid == old(self).tile_solid,
            final(self).contacts == old(self).contacts,
            match *reaction {
                CollisionReaction::SetTileAtPos(pos, id) => {
                    &&& final(self).tiles() == old(self).tiles().update(
                        pos.y as int,
                        old(self).tiles()[pos.y as int].update(pos.x as int, Some(id)),
                    )
                    &&& final(self).positions == old(self).positions
                    &&& final(self).amt_moved == old(self).amt_moved
                    &&& final(self).metadata == old(self).metadata
                },
                CollisionReaction::RemoveTileAtPos(pos) => {
                    &&& final(self).tiles() == old(self).tiles().update(
                        pos.y as int,
                        old(self).tiles()[pos.y as int].update(pos.x as int, None),
                    )
                    &&& final(self).positions == old(self).positions
                    &&& final(self).amt_moved == old(self).amt_moved
                    &&& final(self).metadata == old(self).metadata
                },
                CollisionReaction::SetEntPos(idx, pos) => {
                    &&& final(self).map == old(self).map
                    &&& final(self).positions@ == old(self).positions@.update(idx as int, pos)
                    &&& final(self).amt_moved == old(self).amt_moved
                    &&& final(self).metadata == old(self).metadata
                },
                CollisionReaction::SetEntVel(idx, vel) => {
                    &&& final(self).map == old(self).map
                    &&& final(self).positions == old(self).positions
                    &&& final(self).amt_moved@ == old(self).amt_moved@.update(idx as int, vel)
                    &&& final(self).metadata == old(self).metadata
                },
                CollisionReaction::SetEntData(idx, solid, fixed, id) => {
                    &&& final(self).map == old(self).map
                    &&& final(self).positions == old(self).positions
                    &&& final(self).amt_moved == old(self).amt_moved
                    &&& final(self).metadata@ == old(self).metadata@.update(
                        idx as int,
                        CollisionData { solid, fixed, id },
                    )
                },
                CollisionReaction::RemoveEnt(idx) => {
                    &&& final(self).map == old(self).map
                    &&& final(self).positions@ == old(self).positions@.remove(idx as int)
                    &&& final(self).amt_moved@ == old(self).amt_moved@.remove(idx as int)
                    &&& final(self).metadata@ == old(self).metadata@.remove(idx as int)
                },
            },
    {
        let ghost tiles = self.tiles();
        match reaction {
            CollisionReaction::SetTileAtPos(pos, id) => {
                let row = &mut self.map[pos.y as usize];
                row.set(pos.x as usize, Some(*id));
                assert(self.tiles() =~~= tiles.update(
                    pos.y as int,
                    tiles[pos.y as int].update(pos.x as int, Some(*id)),
                ));
            },
            CollisionReaction::RemoveTileAtPos(pos) => {
                let row = &mut self.map[pos.y as usize];
                row.set(pos.x as usize, None);
                assert(self.tiles() =~~= tiles.update(
                    pos.y as int,
                    tiles[pos.y as int].update(pos.x as int, None),
                ));
            },
            CollisionReaction::SetEntPos(idx, pos) => {
                self.positions.set(*idx, *pos);
            },
            CollisionReaction::SetEntVel(idx, vel) => {
                self.amt_moved.set(*idx, *vel);
            },
            CollisionReaction::SetEntData(idx, solid, fixed, id) => {
                self.metadata.set(*idx, CollisionData { solid: *solid, fixed: *fixed, id: *id });
            },
            CollisionReaction::RemoveEnt(idx) => {
                self.positions.remove(*idx);
                self.amt_moved.remove(*idx);
                self.metadata.remove(*idx);
            },
        }
    }

    /// What the logic holds of the unit `ident`.
    fn get_ident_data(&mut self, ident: ColIdent) -> (data: TileMapColData<'_, TileID, EntID>)
        ensures
            *final(self) == *old(self),
            match ident {
                ColIdent::Position(at) => {
                    &&& data matches TileMapColData::Position { pos, solid, id }
                    &&& pos == at
                    &&& Some(*id) == tile_at(old(self).tiles(), at)
                    &&& solid == is_solid(old(self).tile_solid@, *id)
                },
                ColIdent::EntIdx(idx) => {
                    &&& data matches TileMapColData::Ent { pos, amt_moved, solid, fixed, id }
                    &&& *pos == old(self).positions@[idx as int]
                    &&& amt_moved == old(self).amt_moved@[idx as int]
                    &&& solid == old(self).metadata@[idx as int].solid
                    &&& fixed == old(self).metadata@[idx as int].fixed
                    &&& *id == old(self).metadata@[idx as int].id
                },
            },
    {
        self.unit(ident)
    }

    /// A walk over the tiles, row by row, and then over the entities.
    fn data_iter(&mut self) -> (iter: ColDataIter<'_, TileID, EntID>)
        ensures
            *final(self) == *old(self),
            iter.logic() == *old(self),
            iter.at_start(),
    {
        ColDataIter { collision: &*self, tile_count: IVec2::zero(), ent_count: 0 }
    }

    /// What touched in the last step.
    fn events(&self) -> (events: &[Contact])
        ensures
            events@ == self.contacts@,
    {
        self.contacts.as_slice()
    }
}

/// A walk over the units of a tile-map logic: the tiles, row by row, and then
/// the entities.
pub struct ColDataIter<'logic, TileID: Copy + Eq, EntID: Copy + Eq> {
    collision: &'logic TileMapCollision<TileID, EntID>,
    tile_count: IVec2,
    ent_count: usize,
}

impl<'logic, TileID: Copy + Eq, EntID: Copy + Eq> ColDataIter<'logic, TileID, EntID> {
    /// The logic whose units are walked over.
    pub closed spec fn logic(&self) -> TileMapCollision<TileID, EntID> {
        *self.collision
    }

    /// The cell at which the search for the next tile begins.
    pub closed spec fn cursor(&self) -> IVec2 {
        self.tile_count
    }

    /// The index of the entity that comes next, once the tiles are done.
    pub closed spec fn entity(&self) -> nat {
        self.ent_count as nat
    }

    /// Nothing has been handed out yet.
    pub open spec fn at_start(&self) -> bool {
        self.cursor() == IVec2::spec_zero() && self.entity() == 0
    }

    /// The cursor is a cell of the map or the start of the row behind the last,
    /// and no entity past the last has been handed out.
    pub open spec fn wf(&self) -> bool {
        &&& self.logic().spec_wf()
        &&& 0 <= self.cursor().y <= self.logic().tiles().len()
        &&& 0 <= self.cursor().x
        &&& self.cursor().y < self.logic().tiles().len() ==> self.cursor().x < width_of(
            self.logic().tiles(),
        )
        &&& self.cursor().y == self.logic().tiles().len() ==> self.cursor().x == 0
        &&& self.entity() <= self.logic().positions@.len()
    }

    /// The first cell at or behind `from`, row by row, that has a tile; the
    /// start of the row behind the last where there is none.
    pub open spec fn next_tile(tiles: Tiles<TileID>, from: IVec2) -> IVec2
        decreases tiles.len() - from.y, width_of(tiles) - from.x,
    {
        if from.y < 0 || from.y >= tiles.len() || from.x < 0 || from.x >= width_of(tiles)
            || width_of(tiles) > i32::MAX || tiles.len() > i32::MAX {
            IVec2 { x: 0, y: from.y }
        } else if tiles[from.y as int][from.x as int].is_some() {
            from
        } else if from.x + 1 < width_of(tiles) {
            Self::next_tile(tiles, IVec2 { x: (from.x + 1) as i32, y: from.y })
        } else {
            Self::next_tile(tiles, IVec2 { x: 0, y: (from.y + 1) as i32 })
        }
    }

    /// The next unit with what names it: the next tile whose kind is known to
    /// the logic, and after the last tile the next entity. `None` after the last
    /// entity.
    pub fn next(&mut self) -> (item: Option<(ColIdent, TileMapColData<'_, TileID, EntID>)>)
        requires
            old(self).wf(),
            tells_apart::<TileID>(),
            forall|pos: IVec2|
                inside(old(self).logic().tiles(), pos) ==> (#[trigger] tile_at(
                    old(self).logic().tiles(),
                    pos,
                ) matches Some(tile) ==> first_kind(old(self).logic().tile_solid@, tile, 0) < old(self).logic().tile_solid@.len()),
        ensures
            final(self).wf(),
            final(self).logic() == old(self).logic(),
            ({
                let tiles = old(self).logic().tiles();
                let found = Self::next_tile(tiles, old(self).cursor());
                match item {
                    Some((ColIdent::Position(at), data)) => {
                        &&& found.y < tiles.len()
                        &&& at == found
                        &&& final(self).entity() == old(self).entity()
                        &&& data matches TileMapColData::Position { pos, solid, id }
                        &&& pos == at
                        &&& Some(*id) == tile_at(tiles, at)
                        &&& solid == is_solid(old(self).logic().tile_solid@, *id)
                    },
                    Some((ColIdent::EntIdx(idx), data)) => {
                        &&& found.y == tiles.len()
                        &&& idx == old(self).entity()
                        &&& final(self).entity() == idx + 1
                        &&& data matches TileMapColData::Ent { pos, amt_moved, solid, fixed, id }
                        &&& *pos == old(self).logic().positions@[idx as int]
                        &&& amt_moved == old(self).logic().amt_moved@[idx as int]
                        &&& solid == old(self).logic().metadata@[idx as int].solid
                        &&& fixed == old(self).logic().metadata@[idx as int].fixed
                        &&& *id == old(self).logic().metadata@[idx as int].id
                    },
                    None => {
                        &&& found.y == tiles.len()
                        &&& old(self).entity() == old(self).logic().positions@.len()
                        &&& final(self).entity() == old(self).entity()
                    },
                }
            }),
    {
        let ghost tiles = self.collision.tiles();
        let ghost goal = Self::next_tile(tiles, self.tile_count);
        let height: usize = self.collision.map.len();
        // find the next tile in the map
        while (self.tile_count.y as usize) < height
            invariant
                self.wf(),
                tells_apart::<TileID>(),
                self.collision == old(self).collision,
                self.ent_count == old(self).ent_count,
                tiles == self.collision.tiles(),
                height == tiles.len(),
                Self::next_tile(tiles, self.tile_count) == goal,
                goal == Self::next_tile(tiles, old(self).tile_count),
                forall|pos: IVec2|
                    inside(tiles, pos) ==> (#[trigger] tile_at(tiles, pos) matches Some(tile)
                        ==> first_kind(self.collision.tile_solid@, tile, 0)
                        < self.collision.tile_solid@.len()),
            decreases tiles.len() - self.tile_count.y, width_of(tiles) - self.tile_count.x,
        {
            let row: usize = self.tile_count.y as usize;
            let col: usize = self.tile_count.x as usize;
            assert(tiles[row as int].len() == width_of(tiles));
            assert(tiles[row as int] == self.collision.map@[row as int]@);
            let width: usize = self.collision.map[row].len();
            let found: bool = self.collision.map[row][col].is_some();
            let at: IVec2 = self.tile_count;
            assert(found == tiles[at.y as int][at.x as int].is_some());
            assert(found ==> Self::next_tile(tiles, at) == at);
            if col + 1 < width {
                self.tile_count.x = self.tile_count.x + 1;
            } else {
                self.tile_count.x = 0;
                self.tile_count.y = self.tile_count.y + 1;
            }
            if found {
                let id = ColIdent::Position(at);
                assert(inside(tiles, at));
                assert(tile_at(tiles, at).is_some());
                return Some((id, self.collision.unit(id)));
            }
        }
        if self.ent_count < self.collision.positions.len() {
            let id = ColIdent::EntIdx(self.ent_count);
            self.ent_count += 1;
            return Some((id, self.collision.unit(id)));
        }
        None
    }
}

/// The entries of `values` that belong to entities called `id`, among the
/// first `n`, in order.
pub open spec fn kept<T, EntID: Copy + Eq>(
    values: Seq<T>,
    metadata: Seq<CollisionData<EntID>>,
    id: EntID,
    n: int,
) -> Seq<T>
    decreases n,
{
    if n <= 0 {
        Seq::empty()
    } else if metadata[n - 1].id == id {
        kept(values, metadata, id, n - 1).push(values[n - 1])
    } else {
        kept(values, metadata, id, n - 1)
    }
}

/// As many entries are kept as there are entities called `id`.
pub proof fn lemma_kept_len<T, EntID: Copy + Eq>(
    values: Seq<T>,
    metadata: Seq<CollisionData<EntID>>,
    id: EntID,
    n: int,
)
    requires
        0 <= n <= metadata.len(),
    ensures
        kept(values, metadata, id, n).len() == metadata.take(n).filter(
            |meta: CollisionData<EntID>| meta.id == id,
        ).len(),
    decreases n,
{
    reveal(Seq::filter);
    if n > 0 {
        lemma_kept_len(values, metadata, id, n - 1);
        assert(metadata.take(n).drop_last() =~= metadata.take(n - 1));
    }
}

/// The contacts of a row name entities that exist.
pub proof fn lemma_row_contacts<EntID: Copy + Eq>(
    positions: Seq<IVec2>,
    metadata: Seq<CollisionData<EntID>>,
    i: int,
    j: int,
)
    requires
        0 <= i < j <= positions.len(),
        positions.len() <= usize::MAX,
    ensures
        forall|m: int|
            0 <= m < row_contacts(positions, metadata, i, j).len() ==> names_entities(
                #[trigger] row_contacts(positions, metadata, i, j)[m],
                positions.len(),
            ),
    decreases j - i,
{
    if j > i + 1 {
        lemma_row_contacts(positions, metadata, i, j - 1);
        let before = row_contacts(positions, metadata, i, j - 1);
        let row = row_contacts(positions, metadata, i, j);
        assert forall|m: int| 0 <= m < row.len() implies names_entities(
            #[trigger] row[m],
            positions.len(),
        ) by {
            if m < before.len() {
                assert(row[m] == before[m]);
            } else {
                assert(row[m] == contact_between(metadata, i, j - 1));
            }
        }
    }
}

/// The contacts between entities name entities that exist.
pub proof fn lemma_ent_contacts<EntID: Copy + Eq>(
    positions: Seq<IVec2>,
    metadata: Seq<CollisionData<EntID>>,
    n: int,
)
    requires
        0 <= n <= positions.len(),
        positions.len() <= usize::MAX,
    ensures
        forall|m: int|
            0 <= m < ent_contacts(positions, metadata, n).len() ==> names_entities(
                #[trigger] ent_contacts(positions, metadata, n)[m],
                positions.len(),
            ),
    decreases n,
{
    if n > 0 {
        lemma_ent_contacts(positions, metadata, n - 1);
        if n - 1 < positions.len() - 1 {
            lemma_row_contacts(positions, metadata, n - 1, positions.len() as int);
        }
        let before = ent_contacts(positions, metadata, n - 1);
        let row = row_contacts(positions, metadata, n - 1, positions.len() as int);
        let all = ent_contacts(positions, metadata, n);
        assert forall|m: int| 0 <= m < all.len() implies names_entities(
            #[trigger] all[m],
            positions.len(),
        ) by {
            if m < before.len() {
                assert(all[m] == before[m]);
            } else {
                assert(all[m] == row[m - before.len()]);
            }
        }
    }
}

/// The contacts with tiles name entities that exist.
pub proof fn lemma_tile_contacts<TileID>(map: Tiles<TileID>, positions: Seq<IVec2>, n: int)
    requires
        0 <= n <= positions.len(),
        positions.len() <= usize::MAX,
    ensures
        forall|m: int|
            0 <= m < tile_contacts(map, positions, n).len() ==> names_entities(
                #[trigger] tile_contacts(map, positions, n)[m],
                positions.len(),
            ),
    decreases n,
{
    if n > 0 {
        lemma_tile_contacts(map, positions, n - 1);
        let before = tile_contacts(map, positions, n - 1);
        let all = tile_contacts(map, positions, n);
        assert forall|m: int| 0 <= m < all.len() implies names_entities(
            #[trigger] all[m],
            positions.len(),
        ) by {
            if m < before.len() {
                assert(all[m] == before[m]);
            }
        }
    }
}

/// Every contact that a step finds names entities that exist.
pub proof fn lemma_found_contacts<TileID, EntID: Copy + Eq>(
    map: Tiles<TileID>,
    positions: Seq<IVec2>,
    metadata: Seq<CollisionData<EntID>>,
    n: int,
)
    requires
        n == positions.len(),
        positions.len() <= usize::MAX,
    ensures
        forall|m: int|
            0 <= m < (tile_contacts(map, positions, n) + ent_contacts(
                positions,
                metadata,
                n,
            )).len() ==> names_entities(
                #[trigger] (tile_contacts(map, positions, n) + ent_contacts(
                    positions,
                    metadata,
                    n,
                ))[m],
                positions.len(),
            ),
{
    lemma_tile_contacts(map, positions, n);
    lemma_ent_contacts(positions, metadata, n);
    let on_tiles = tile_contacts(map, positions, n);
    let between = ent_contacts(positions, metadata, n);
    assert forall|m: int| 0 <= m < (on_tiles + between).len() implies names_entities(
        #[trigger] (on_tiles + between)[m],
        positions.len(),
    ) by {
        if m < on_tiles.len() {
            assert((on_tiles + between)[m] == on_tiles[m]);
        } else {
            assert((on_tiles + between)[m] == between[m - on_tiles.len()]);
        }
    }
}

/// Once a step has stopped, the contacts that are left change nothing.
pub proof fn lemma_stopped_stays<TileID, EntID: Copy + Eq>(
    map: Tiles<TileID>,
    kinds: Seq<(TileID, bool)>,
    metadata: Seq<CollisionData<EntID>>,
    walk: Walk,
    contacts: Seq<Contact>,
    k: int,
    n: int,
)
    requires
        0 <= k <= n,
        settled(map, kinds, metadata, walk, contacts, k).stopped,
    ensures
        settled(map, kinds, metadata, walk, contacts, n) == settled(
            map,
            kinds,
            metadata,
            walk,
            contacts,
            k,
        ),
    decreases n - k,
{
    if k < n {
        lemma_stopped_stays(map, kinds, metadata, walk, contacts, k, n - 1);
    }
}

} // verus!
