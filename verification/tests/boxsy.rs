use asterism::boxsy::{
    do_tiles_fit, load_room, set_current_room, ActionID, Character, CharacterID, ColEntType, Ent,
    EntID, Player, PoolID, Room, RoomError, RsrcID, State, Tile, TileID,
};
use asterism::collision::bodies::CollisionData;
use asterism::geometry::IVec2;
use asterism::tilemap::TileMapCollision;

const WALLS: &str = "00000000\n0      0\n0   1  0\n0 1    0\n0   2  0\n0      0\n0      0\n00000000";

fn with_kinds(kinds: usize) -> State {
    let mut state = State::new();
    state.tile_type_count = kinds;
    state
}

#[test]
fn names_keep_what_they_were_made_of() {
    assert_eq!(TileID::new(3).idx(), 3);
    assert_eq!(CharacterID::new(4).idx(), 4);
    let coin = RsrcID::new(2, "coin");
    assert_eq!(coin.idx(), 2);
    assert_eq!(coin.name(), "coin");
    let pool = PoolID::new(EntID::Character(CharacterID(1)), coin);
    assert_eq!(pool.attached_to, EntID::Character(CharacterID(1)));
    assert_eq!(pool.rsrc.name, "coin");
    assert!(!Tile::new().solid);
    assert!(ColEntType::Player == ColEntType::Player);
    assert!(ColEntType::Player != ColEntType::Character);
}

#[test]
fn player_starts_with_a_key_for_each_way() {
    let mut player = Player::new('w', 's', 'a', 'd');
    assert_eq!(player.pos, IVec2::new(0, 0));
    assert_eq!(player.amt_moved, IVec2::new(0, 0));
    assert!(player.inventory.is_empty());
    assert_eq!(
        player.controls,
        vec![
            (ActionID::Up, 'w', true),
            (ActionID::Down, 's', true),
            (ActionID::Left, 'a', true),
            (ActionID::Right, 'd', true),
        ]
    );
    player.set_control_map(ActionID::Left, 'j', false);
    assert_eq!(player.controls[2], (ActionID::Left, 'j', false));
    assert_eq!(player.controls[3], (ActionID::Right, 'd', true));
    player.add_inventory_item(RsrcID::new(0, "key"), 2);
    assert_eq!(player.inventory.len(), 1);
    assert_eq!(player.inventory[0].1, 2);
    let mut character = Character::new();
    character.add_inventory_item(RsrcID::new(0, "key"), 1);
    assert_eq!(character.pos, IVec2::new(0, 0));
    assert_eq!(character.inventory[0].0.idx, 0);
}

#[test]
fn character_is_found_in_its_first_room_at_its_first_place() {
    let mut state = State::new();
    for _ in 0..3 {
        state.rooms.push(Room::default());
    }
    state.rooms[1].chars.push((CharacterID(5), IVec2::new(1, 1)));
    state.rooms[1].chars.push((CharacterID(7), IVec2::new(2, 3)));
    state.rooms[1].chars.push((CharacterID(7), IVec2::new(4, 4)));
    state.rooms[2].chars.push((CharacterID(7), IVec2::new(6, 6)));
    assert_eq!(state.rooms[1].find_char(CharacterID(7)), Some((1, IVec2::new(2, 3))));
    assert_eq!(state.rooms[0].find_char(CharacterID(7)), None);
    assert_eq!(state.find_char(CharacterID(7)), Some((1, (1, IVec2::new(2, 3)))));
    assert_eq!(state.find_char(CharacterID(9)), None);
    assert_eq!(state.find_char_in_room(2, CharacterID(7)), Some((0, IVec2::new(6, 6))));
    assert_eq!(state.get_col_idx(CharacterID(7), Some(1)), Some(2));
    assert_eq!(state.get_col_idx(CharacterID(5), Some(1)), Some(1));
    assert_eq!(state.get_col_idx(CharacterID(5), Some(0)), None);
}

#[test]
fn state_notes_what_is_to_come_and_go() {
    let mut state = State::new();
    state.queue_remove(EntID::Player);
    state.queue_remove(EntID::Player);
    state.queue_add(Ent::TileID(TileID(1), IVec2::new(2, 2), 0));
    assert_eq!(state.remove_queue, vec![EntID::Player, EntID::Player]);
    assert_eq!(state.add_queue.len(), 1);
    let key = state.log_rsrc("key");
    let coin = state.log_rsrc("coin");
    assert_eq!((key.idx, key.name), (0, "key"));
    assert_eq!((coin.idx, coin.name), (1, "coin"));
    assert_eq!(state.rsrc_id_max, 2);
    assert_eq!(state.resources.len(), 2);
}

#[test]
fn room_is_read_from_its_text() {
    let mut state = with_kinds(3);
    assert!(do_tiles_fit(WALLS, 3));
    assert_eq!(state.add_room_from_str(WALLS), Ok(0));
    assert_eq!(state.add_room_from_str(WALLS), Ok(1));
    let room = &state.rooms[0];
    assert!(room.chars.is_empty());
    assert_eq!(room.map.len(), 8);
    assert!(room.map.iter().all(|row| row.len() == 8));
    assert_eq!(room.map[0], vec![Some(TileID(0)); 8]);
    assert_eq!(room.map[2][4], Some(TileID(1)));
    assert_eq!(room.map[3][2], Some(TileID(1)));
    assert_eq!(room.map[4][4], Some(TileID(2)));
    assert_eq!(room.map[1][1], None);
    let tiles = room.map.iter().flatten().filter(|tile| tile.is_some()).count();
    assert_eq!(tiles, 31);
}

#[test]
fn text_of_another_length_adds_no_room() {
    let mut state = with_kinds(3);
    let long = format!("{WALLS} ");
    assert_eq!(state.add_room_from_str(&long), Err(RoomError::TooBig));
    assert_eq!(state.add_room_from_str(&WALLS[1..]), Err(RoomError::TooSmall));
    assert_eq!(state.add_room_from_str(""), Err(RoomError::TooSmall));
    // A letter of two bytes makes the text longer than it looks.
    let wide = WALLS.replacen(' ', "\u{e9}", 1);
    assert_eq!(wide.chars().count(), 71);
    assert_eq!(state.add_room_from_str(&wide), Err(RoomError::TooBig));
    assert!(state.rooms.is_empty());
}

#[test]
fn text_that_is_not_understood_leaves_the_room_half_read() {
    let mut state = with_kinds(1);
    assert!(do_tiles_fit(WALLS, 1));
    assert_eq!(state.add_room_from_str(WALLS), Err(RoomError::TileNotFound(2)));
    assert_eq!(state.rooms.len(), 1);
    assert_eq!(state.rooms[0].map[2][4], Some(TileID(1)));
    assert_eq!(state.rooms[0].map[4][0], Some(TileID(0)));
    assert_eq!(state.rooms[0].map[4][4], None);
    assert_eq!(state.rooms[0].map[7], vec![None; 8]);
    let odd = WALLS.replacen(' ', "x", 1);
    assert_eq!(state.add_room_from_str(&odd), Err(RoomError::Unrecognized('x')));
    assert_eq!(state.rooms.len(), 2);
    assert_eq!(state.rooms[1].map[0], vec![Some(TileID(0)); 8]);
    assert_eq!(state.rooms[1].map[1], vec![Some(TileID(0)), None, None, None, None, None, None, None]);
    // A digit may name one kind more than there are.
    let mut none = with_kinds(0);
    let blank_but_one = format!("0{}", &WALLS.replace(['0', '1', '2'], " ")[1..]);
    assert_eq!(none.add_room_from_str(&blank_but_one), Ok(0));
    assert_eq!(none.rooms[0].map[0][0], Some(TileID(0)));
}

#[test]
fn tile_must_stand_in_a_cell_of_the_map() {
    let row = "000000000";
    let rest = " ".repeat(71 - row.len() - 1);
    let text = format!("{row}\n{rest}");
    assert_eq!(text.len(), 71);
    assert!(!do_tiles_fit(&text, 3));
    let low = format!("{}0", "\n".repeat(70));
    assert!(!do_tiles_fit(&low, 3));
    let odd = format!("x{}", &text[1..]);
    assert!(do_tiles_fit(&odd, 3));
    assert!(do_tiles_fit(&" ".repeat(71), 0));
}

fn two_rooms() -> State {
    let mut state = with_kinds(3);
    state.add_room_from_str(WALLS).unwrap();
    let open = WALLS.replace(['1', '2'], " ");
    state.add_room_from_str(&open).unwrap();
    state.rooms[0].chars.push((CharacterID(0), IVec2::new(3, 3)));
    state.rooms[1].chars.push((CharacterID(1), IVec2::new(5, 5)));
    state.rooms[1].chars.push((CharacterID(2), IVec2::new(6, 6)));
    state
}

fn with_player() -> TileMapCollision<TileID, ColEntType> {
    let mut collision = TileMapCollision::new(8, 8);
    collision.positions.push(IVec2::new(1, 1));
    collision.amt_moved.push(IVec2::new(1, 0));
    collision.metadata.push(CollisionData::new(true, false, ColEntType::Player));
    collision
}

#[test]
fn room_is_shown_with_its_tiles_and_characters() {
    let state = two_rooms();
    let mut collision = with_player();
    collision.positions.push(IVec2::new(7, 7));
    collision.amt_moved.push(IVec2::new(0, 0));
    collision.metadata.push(CollisionData::new(true, true, ColEntType::Character));
    load_room(&state, &mut collision, 1);
    assert_eq!(collision.map, state.rooms[1].map);
    assert_eq!(
        collision.positions,
        vec![IVec2::new(1, 1), IVec2::new(5, 5), IVec2::new(6, 6)]
    );
    assert_eq!(
        collision.amt_moved,
        vec![IVec2::new(1, 0), IVec2::new(0, 0), IVec2::new(0, 0)]
    );
    let kinds: Vec<ColEntType> = collision.metadata.iter().map(|data| data.id).collect();
    assert_eq!(kinds, vec![ColEntType::Player, ColEntType::Character, ColEntType::Character]);
    assert!(!collision.metadata[0].fixed);
    assert!(collision.metadata[1].fixed && collision.metadata[1].solid);
}

#[test]
fn room_that_is_left_keeps_what_the_logic_showed() {
    let mut state = two_rooms();
    let mut collision = with_player();
    load_room(&state, &mut collision, 0);
    collision.map[2][4] = None;
    collision.map[5][5] = Some(TileID(2));
    collision.positions[1] = IVec2::new(4, 3);
    set_current_room(&mut state, &mut collision, 0, 1);
    assert_eq!(state.rooms[0].map[2][4], None);
    assert_eq!(state.rooms[0].map[5][5], Some(TileID(2)));
    assert_eq!(state.rooms[0].map[3][2], Some(TileID(1)));
    assert_eq!(state.rooms[0].chars, vec![(CharacterID(0), IVec2::new(4, 3))]);
    assert_eq!(collision.map, state.rooms[1].map);
    assert_eq!(
        collision.positions,
        vec![IVec2::new(1, 1), IVec2::new(5, 5), IVec2::new(6, 6)]
    );
    set_current_room(&mut state, &mut collision, 1, 0);
    assert_eq!(collision.map, state.rooms[0].map);
    assert_eq!(collision.positions, vec![IVec2::new(1, 1), IVec2::new(4, 3)]);
    assert_eq!(state.rooms[1].chars.len(), 2);
}
