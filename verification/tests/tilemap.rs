use asterism::collision::bodies::CollisionData;
use asterism::collision::contact::CollisionEventType;
use asterism::geometry::IVec2;
use asterism::tilemap::{
    in_bounds, normalize, pull_in, ColIdent, CollisionReaction, Contact, TileMapColData,
    TileMapCollision,
};
use asterism::{Event, Logic};

fn c(x: i32, y: i32) -> IVec2 {
    IVec2::new(x, y)
}

#[test]
fn cell_vectors_subtract_within_bounds() {
    assert_eq!(c(3, -4).minus(c(1, 1)), c(2, -5));
    assert_eq!(c(i32::MIN, i32::MAX).minus(c(1, -1)), c(i32::MIN, i32::MAX));
    assert_eq!(IVec2::zero(), c(0, 0));
}

#[test]
fn normalize_gives_one_step_each_way() {
    assert_eq!(normalize(c(5, -7)), c(1, -1));
    assert_eq!(normalize(c(-1, 1)), c(-1, 1));
    assert_eq!(normalize(c(0, 9)), c(0, 1));
    assert_eq!(normalize(c(0, 0)), c(0, 0));
    assert_eq!(normalize(c(i32::MIN, i32::MAX)), c(-1, 1));
}

#[test]
fn in_bounds_names_the_side() {
    assert_eq!(in_bounds(4, 3, c(0, 0)), None);
    assert_eq!(in_bounds(4, 3, c(3, 2)), None);
    assert_eq!(in_bounds(4, 3, c(4, 2)), Some(c(1, 0)));
    assert_eq!(in_bounds(4, 3, c(-1, 3)), Some(c(-1, 1)));
    assert_eq!(in_bounds(4, 3, c(2, -5)), Some(c(0, -1)));
}

#[test]
fn entity_is_pulled_onto_the_map() {
    assert_eq!(pull_in(4, 3, c(1, 1), c(2, 2)), (c(1, 1), c(2, 2)));
    // two cells before the near edge: put on the edge, the way walked shortened by two
    assert_eq!(pull_in(4, 3, c(-2, 1), c(-3, 0)), (c(0, 1), c(-5, 0)));
    // on the cell just past the far edge
    assert_eq!(pull_in(4, 3, c(4, 3), c(1, 1)), (c(3, 2), c(0, 0)));
    assert_eq!(pull_in(4, 3, c(6, 5), c(3, 3)), (c(3, 2), c(0, 0)));
    assert_eq!(pull_in(1, 1, c(i32::MIN, i32::MAX), c(i32::MIN, i32::MIN)).0, c(0, 0));
}

const WALL: u8 = 1;
const GRASS: u8 = 2;

/// A map of five by four cells with a wall along the row `y = 0` and a patch
/// of grass at `(2, 2)`.
fn field() -> TileMapCollision<u8, char> {
    let mut logic: TileMapCollision<u8, char> = TileMapCollision::new(5, 4);
    logic.tile_solid.push((WALL, true));
    logic.tile_solid.push((GRASS, false));
    for x in 0..5 {
        logic.handle_predicate(&CollisionReaction::SetTileAtPos(c(x, 0), WALL));
    }
    logic.handle_predicate(&CollisionReaction::SetTileAtPos(c(2, 2), GRASS));
    logic
}

fn add(logic: &mut TileMapCollision<u8, char>, pos: IVec2, moved: IVec2, solid: bool, fixed: bool, id: char) {
    logic.positions.push(pos);
    logic.amt_moved.push(moved);
    logic.metadata.push(CollisionData::new(solid, fixed, id));
}

#[test]
fn new_map_has_no_tiles() {
    let logic: TileMapCollision<u8, char> = TileMapCollision::new(3, 2);
    assert_eq!(logic.map, vec![vec![None, None, None], vec![None, None, None]]);
    assert!(logic.positions.is_empty());
    let mut logic = field();
    assert_eq!(*logic.tile_at_pos(&c(2, 2)), Some(GRASS));
    assert_eq!(*logic.tile_at_pos(&c(1, 1)), None);
    *logic.tile_at_pos_mut(&c(1, 1)) = Some(WALL);
    assert_eq!(logic.map[1][1], Some(WALL));
    assert!(logic.tile_solid(&WALL));
    assert!(!logic.tile_solid(&GRASS));
    assert_eq!(logic.find_kind(&9), None);
    assert!(logic.is_blocked(c(1, 1)));
    assert!(!logic.is_blocked(c(2, 2)));
    assert!(!logic.is_blocked(c(3, 3)));
    assert!(!logic.is_blocked(c(-1, 0)));
    assert!(!logic.is_blocked(c(0, 4)));
    logic.handle_predicate(&CollisionReaction::RemoveTileAtPos(c(1, 1)));
    assert_eq!(logic.map[1][1], None);
    logic.clear_tile_data();
    assert!(logic.tile_solid.is_empty());
    logic.clear_and_resize_map(1, 1);
    assert_eq!(logic.map, vec![vec![None]]);
}

#[test]
fn entity_that_walked_into_a_wall_is_put_back() {
    let mut logic = field();
    add(&mut logic, c(3, 0), c(0, -1), true, false, 'p');
    logic.update();
    assert_eq!(logic.positions, vec![c(3, 1)]);
    assert_eq!(logic.amt_moved, vec![c(0, 0)]);
    assert_eq!(logic.events(), &[Contact::Tile(0, c(3, 0))]);
    assert!(matches!(logic.events()[0].get_type(), CollisionEventType::Touching));
}

#[test]
fn entity_on_a_tile_that_is_not_solid_stays() {
    let mut logic = field();
    add(&mut logic, c(2, 2), c(1, 0), true, false, 'p');
    add(&mut logic, c(4, 0), c(1, -1), false, false, 'g');
    add(&mut logic, c(0, 0), c(-1, -1), true, true, 'f');
    logic.update();
    assert_eq!(logic.positions, vec![c(2, 2), c(4, 0), c(0, 0)]);
    assert_eq!(logic.amt_moved, vec![c(0, 0), c(0, 0), c(0, 0)]);
    assert_eq!(
        logic.events(),
        &[Contact::Tile(0, c(2, 2)), Contact::Tile(1, c(4, 0)), Contact::Tile(2, c(0, 0))]
    );
}

#[test]
fn entity_is_backed_out_of_the_map_along_a_wall() {
    let mut logic = field();
    // walked along the wall: every cell behind it is wall too
    add(&mut logic, c(2, 0), c(1, 0), true, false, 'p');
    logic.update();
    assert_eq!(logic.positions, vec![c(-1, 0)]);
    assert_eq!(logic.amt_moved, vec![c(0, 0)]);
    // the next step pulls it onto the map, which counts as a walk to the left,
    // and puts it back from the wall the other way
    logic.update();
    assert_eq!(logic.positions, vec![c(5, 0)]);
    assert_eq!(logic.amt_moved, vec![c(0, 0)]);
}

#[test]
fn step_stops_at_a_standing_entity_on_a_tile() {
    let mut logic = field();
    add(&mut logic, c(1, 0), c(0, 0), true, false, 'a');
    add(&mut logic, c(3, 0), c(0, -2), true, false, 'b');
    logic.update();
    assert_eq!(logic.events(), &[Contact::Tile(0, c(1, 0)), Contact::Tile(1, c(3, 0))]);
    assert_eq!(logic.positions, vec![c(1, 0), c(3, 0)]);
    // what was walked is kept, since the step did not come to its end
    assert_eq!(logic.amt_moved, vec![c(0, 0), c(0, -2)]);
}

#[test]
fn entities_on_one_cell_are_parted() {
    let mut logic = field();
    add(&mut logic, c(1, 2), c(1, 0), true, false, 'a');
    add(&mut logic, c(1, 2), c(0, 1), true, false, 'b');
    add(&mut logic, c(4, 3), c(0, 0), true, true, 'f');
    add(&mut logic, c(4, 3), c(1, 1), true, false, 'c');
    add(&mut logic, c(4, 3), c(-1, 0), false, false, 'g');
    logic.update();
    assert_eq!(
        logic.events(),
        &[
            Contact::Ent(0, 1),
            Contact::Ent(3, 2),
            Contact::Ent(4, 2),
            Contact::Ent(3, 4),
        ]
    );
    // of two unfixed entities the second goes back; against a fixed one, the
    // one that walked does; one that is not solid takes no part
    assert_eq!(logic.positions, vec![c(1, 2), c(1, 1), c(4, 3), c(3, 2), c(4, 3)]);
    assert_eq!(logic.amt_moved.len(), 5);
    assert!(logic.amt_moved.iter().all(|m| *m == c(0, 0)));
}

#[test]
fn first_entity_that_has_not_walked_leaves_the_pair_alone() {
    let mut logic = field();
    add(&mut logic, c(1, 2), c(0, 0), true, false, 'a');
    add(&mut logic, c(1, 2), c(0, 1), true, false, 'b');
    logic.update();
    assert_eq!(logic.events(), &[Contact::Ent(0, 1)]);
    assert_eq!(logic.positions, vec![c(1, 2), c(1, 2)]);
}

#[test]
fn step_without_entities_does_nothing() {
    let mut logic: TileMapCollision<u8, char> = TileMapCollision::new(0, 0);
    logic.update();
    assert!(logic.events().is_empty());
    assert!(logic.amt_moved.is_empty());
}

#[test]
fn tilemap_reactions_change_entities() {
    let mut logic = field();
    add(&mut logic, c(1, 1), c(0, 0), true, false, 'a');
    add(&mut logic, c(2, 2), c(0, 0), true, false, 'b');
    logic.handle_predicate(&CollisionReaction::SetEntPos(0, c(3, 3)));
    logic.handle_predicate(&CollisionReaction::SetEntVel(1, c(1, -1)));
    logic.handle_predicate(&CollisionReaction::SetEntData(0, false, true, 'z'));
    assert_eq!(logic.positions, vec![c(3, 3), c(2, 2)]);
    assert_eq!(logic.amt_moved, vec![c(0, 0), c(1, -1)]);
    assert!(!logic.metadata[0].solid && logic.metadata[0].fixed);
    assert_eq!(logic.metadata[0].id, 'z');
    logic.handle_predicate(&CollisionReaction::RemoveEnt(0));
    assert_eq!(logic.positions, vec![c(2, 2)]);
    assert_eq!(logic.amt_moved, vec![c(1, -1)]);
    assert_eq!(logic.metadata[0].id, 'b');
}

#[test]
fn entities_are_kept_by_name() {
    let mut logic = field();
    add(&mut logic, c(1, 1), c(1, 0), true, false, 'a');
    add(&mut logic, c(2, 2), c(2, 0), true, false, 'p');
    add(&mut logic, c(3, 3), c(3, 0), false, false, 'a');
    add(&mut logic, c(4, 3), c(4, 0), false, true, 'p');
    logic.clear_entities_except('p');
    assert_eq!(logic.positions, vec![c(2, 2), c(4, 3)]);
    assert_eq!(logic.amt_moved, vec![c(2, 0), c(4, 0)]);
    assert!(logic.metadata.iter().all(|m| m.id == 'p'));
    assert!(logic.metadata[1].fixed);
    logic.clear_entities_except('q');
    assert!(logic.positions.is_empty());
    assert!(logic.metadata.is_empty());
}

#[test]
fn units_are_read_and_walked() {
    let mut logic: TileMapCollision<u8, char> = TileMapCollision::new(3, 2);
    logic.tile_solid.push((WALL, true));
    logic.tile_solid.push((GRASS, false));
    logic.handle_predicate(&CollisionReaction::SetTileAtPos(c(2, 0), GRASS));
    logic.handle_predicate(&CollisionReaction::SetTileAtPos(c(0, 1), WALL));
    logic.handle_predicate(&CollisionReaction::SetTileAtPos(c(2, 1), WALL));
    add(&mut logic, c(1, 1), c(0, 1), true, false, 'a');
    add(&mut logic, c(0, 0), c(0, 0), false, true, 'b');
    match logic.get_ident_data(ColIdent::Position(c(2, 0))) {
        TileMapColData::Position { pos, solid, id } => {
            assert_eq!((pos, solid, *id), (c(2, 0), false, GRASS));
        }
        TileMapColData::Ent { .. } => panic!("a tile was asked for"),
    }
    match logic.unit(ColIdent::EntIdx(1)) {
        TileMapColData::Ent { pos, amt_moved, solid, fixed, id } => {
            assert_eq!((*pos, amt_moved, solid, fixed, *id), (c(0, 0), c(0, 0), false, true, 'b'));
        }
        TileMapColData::Position { .. } => panic!("an entity was asked for"),
    }
    let mut seen = Vec::new();
    let mut iter = logic.data_iter();
    while let Some((ident, _)) = iter.next() {
        seen.push(ident);
    }
    assert!(iter.next().is_none());
    assert_eq!(
        seen,
        vec![
            ColIdent::Position(c(2, 0)),
            ColIdent::Position(c(0, 1)),
            ColIdent::Position(c(2, 1)),
            ColIdent::EntIdx(0),
            ColIdent::EntIdx(1),
        ]
    );
}
