use asterism::ceptre::boxsy_info::{logic_named, Event, GameType, Logic, LogicSet};
use asterism::ceptre::builtins::{find_builtin, Builtins};
use asterism::ceptre::ctypes::{copy_strings, has_text, CType, CeptreTypes};
use asterism::ceptre::error::{same_text, Error};
use asterism::ceptre::convert::Ceptre;
use asterism::ceptre::map::{add_char, blank_room, digit, find_kind, taken};
use asterism::ceptre::json::{
    Annote, AnnoteString, Atom, Builtin, BuiltinTypes, Header, Mode, Nondet, Predicate, Program,
    Rule, Stage, Term, Tp, Type,
};
use asterism::ceptre::state::{
    build_chars, build_item, build_player, build_tiles, process_state, Player, Rsrc, State, Tile,
};
use asterism::ceptre::parse::{parse_i16, parse_term};
use asterism::ceptre::pred::{names_within, process_pred, same_names, CData, Pred};
use asterism::ceptre::rules::{process_rule, CEvent};

fn set(logics: &[Logic]) -> LogicSet {
    LogicSet::from_logics(logics)
}

#[test]
fn logic_set_holds_what_was_put_in() {
    let mut logics = LogicSet::new();
    assert!(!logics.contains(Logic::Collision));
    logics.insert(Logic::Linking);
    logics.insert(Logic::Linking);
    assert!(logics.contains(Logic::Linking));
    assert!(!logics.contains(Logic::Control));
    assert_eq!(logics, set(&[Logic::Linking]));
    assert_eq!(set(&[Logic::Resource, Logic::Control]), set(&[Logic::Control, Logic::Resource]));
    assert_ne!(set(&[Logic::Resource]), set(&[Logic::Control]));
    assert_eq!(set(&[]), LogicSet::new());
}

#[test]
fn game_types_and_events_name_their_logics() {
    assert_eq!(
        GameType::Player.associated_logics(),
        set(&[Logic::Collision, Logic::Control, Logic::Resource])
    );
    assert_eq!(GameType::Tile.associated_logics(), set(&[Logic::Collision, Logic::Linking]));
    assert_eq!(
        GameType::Character.associated_logics(),
        set(&[Logic::Collision, Logic::Resource, Logic::Linking])
    );
    assert_eq!(GameType::Rsrc.associated_logics(), set(&[Logic::Resource]));
    assert_eq!(GameType::Room.associated_logics(), set(&[Logic::Linking]));
    assert_eq!(
        Event::ChangeResource.associated_logics(),
        set(&[Logic::Resource, Logic::Collision, Logic::Control])
    );
    assert_eq!(
        Event::MoveRoom.associated_logics(),
        set(&[Logic::Linking, Logic::Collision, Logic::Control])
    );
    assert_eq!(GameType::Rsrc.name(), "GameType::Rsrc");
    assert_eq!(Logic::Linking.name(), "Logic::Linking");
    assert_eq!(BuiltinTypes::NAT_SUCC.name(), "BuiltinTypes::NAT_SUCC");
}

#[test]
fn annotation_hands_out_its_logics() {
    let mut annote = Annote::Query(set(&[Logic::Control]));
    assert_eq!(*annote.get_logics(), set(&[Logic::Control]));
    annote.get_logics_mut().insert(Logic::Linking);
    assert_eq!(annote, Annote::Query(set(&[Logic::Control, Logic::Linking])));
    *annote.get_logics_mut() = LogicSet::new();
    assert_eq!(annote, Annote::Query(LogicSet::new()));
    let mut data = Annote::SynthData(LogicSet::new());
    data.get_logics_mut().insert(Logic::Resource);
    assert!(data.get_logics().contains(Logic::Resource));
}

#[test]
fn texts_are_kept_and_compared() {
    let text = AnnoteString::new("query {control}");
    assert_eq!(text.get_str(), "query {control}");
    assert_eq!(Term("room1".to_string()).str(), "room1");
    assert!(same_text("abc", "abc"));
    assert!(!same_text("abc", "abd"));
    assert!(!same_text("abc", "ab"));
    assert!(same_text("", ""));
    let names = vec!["a".to_string(), "b".to_string(), "a".to_string()];
    assert_eq!(copy_strings(&names), names);
    assert!(has_text(&names, "b"));
    assert!(!has_text(&names, "c"));
    let others = vec!["b".to_string(), "a".to_string()];
    assert!(names_within(&names, &others));
    assert!(same_names(&names, &others));
    let more = vec!["b".to_string(), "a".to_string(), "c".to_string()];
    assert!(names_within(&names, &more));
    assert!(!names_within(&more, &names));
    assert!(!same_names(&names, &more));
    assert!(same_names(&Vec::new(), &Vec::new()));
}

fn builtin(name: &str, builtin: BuiltinTypes) -> Builtin {
    Builtin { name: name.to_string(), builtin }
}

fn program(builtins: Vec<Builtin>) -> Program {
    Program {
        builtins,
        header: Header { types: Vec::new(), preds: Vec::new() },
        bwd_rules: Vec::new(),
        stages: Vec::new(),
        links: Vec::new(),
        init_stage: "main".to_string(),
        init_state: Vec::new(),
    }
}

#[test]
fn builtins_are_found_by_kind() {
    let all = program(vec![
        builtin("succ", BuiltinTypes::NAT_SUCC),
        builtin("nat", BuiltinTypes::NAT),
        builtin("zero", BuiltinTypes::NAT_ZERO),
        builtin("number", BuiltinTypes::NAT),
    ]);
    assert_eq!(find_builtin(&all.builtins, BuiltinTypes::NAT), Some(1));
    assert_eq!(find_builtin(&all.builtins, BuiltinTypes::NAT_SUCC), Some(0));
    let names = Builtins::new(&all).unwrap();
    assert_eq!(names.nat, "nat");
    assert_eq!(names.nat_zero, "zero");
    assert_eq!(names.nat_succ, "succ");
}

#[test]
fn missing_builtin_is_named_in_the_error() {
    let none = program(Vec::new());
    assert!(matches!(Builtins::new(&none), Err(Error::BuiltinNotFound(BuiltinTypes::NAT))));
    let no_zero = program(vec![builtin("nat", BuiltinTypes::NAT)]);
    assert!(matches!(
        Builtins::new(&no_zero),
        Err(Error::BuiltinNotFound(BuiltinTypes::NAT_ZERO))
    ));
    let no_succ =
        program(vec![builtin("nat", BuiltinTypes::NAT), builtin("z", BuiltinTypes::NAT_ZERO)]);
    assert!(matches!(
        Builtins::new(&no_succ),
        Err(Error::BuiltinNotFound(BuiltinTypes::NAT_SUCC))
    ));
    let no_nat =
        program(vec![builtin("s", BuiltinTypes::NAT_SUCC), builtin("z", BuiltinTypes::NAT_ZERO)]);
    assert!(matches!(Builtins::new(&no_nat), Err(Error::BuiltinNotFound(BuiltinTypes::NAT))));
}

fn tp(name: &str, args: &[&str]) -> Tp {
    Tp { name: name.to_string(), args: args.iter().map(|a| a.to_string()).collect() }
}

fn ctype(name: &str, tps: Vec<Tp>, gt: GameType) -> CType {
    CType {
        name: name.to_string(),
        data: None,
        tp: tps,
        annote: Annote::Synthesis(gt.associated_logics()),
    }
}

fn types() -> CeptreTypes {
    CeptreTypes {
        player: ctype("player", vec![tp("me", &[])], GameType::Player),
        character: ctype("character", vec![tp("cat", &[]), tp("dog", &[])], GameType::Character),
        room: ctype("room", vec![tp("hall", &[]), tp("cellar", &[])], GameType::Room),
        link: ctype("door", vec![tp("door_to", &["room"])], GameType::Tile),
        rsrc: ctype("item", vec![tp("key", &[])], GameType::Rsrc),
        builtins: Builtins {
            nat: "nat".to_string(),
            nat_zero: "z".to_string(),
            nat_succ: "s".to_string(),
        },
    }
}

#[test]
fn type_is_found_by_its_name() {
    let types = types();
    assert_eq!(types.find_type("room").unwrap().name, "room");
    assert_eq!(types.find_type("door").unwrap().tp.len(), 1);
    assert_eq!(types.find_type("item").unwrap().name, "item");
    assert!(types.find_type("rooms").is_none());
    assert!(types.find_type("").is_none());
}

#[test]
fn way_is_searched_in_the_data_type_first() {
    let mut pet = ctype("character", vec![tp("cat", &[]), tp("dog", &[])], GameType::Character);
    let (at, found) = pet.find_tp("dog").unwrap();
    assert_eq!((at, found.name.as_str()), (1, "dog"));
    assert!(pet.find_tp("cow").is_none());
    pet.data = Some(Box::new(ctype(
        "pet_data",
        vec![tp("cow", &[]), tp("cat", &["nat"]), tp("dog", &[])],
        GameType::Rsrc,
    )));
    let (at, found) = pet.find_tp("cat").unwrap();
    assert_eq!((at, found.args.len()), (1, 1));
    assert_eq!(pet.find_tp("dog").unwrap().0, 2);
    assert_eq!(pet.find_tp("cow").unwrap().0, 0);
    assert!(pet.find_tp("hen").is_none());
    let copy = pet.copy();
    assert_eq!(copy.name, "character");
    assert_eq!(copy.data.as_ref().unwrap().tp.len(), 3);
    assert_eq!(copy.find_tp("cat").unwrap().0, 1);
}

#[test]
fn type_without_annotation_plays_no_part() {
    let bare = Type { name: "thing".to_string(), tp: vec![tp("a", &["b"])], annote: None };
    assert!(matches!(CType::try_from(&bare), Err(Error::Custom("no annote"))));
    let query = Annote::Query(set(&[Logic::Control]));
    let typed = Type { name: "thing".to_string(), tp: vec![tp("a", &["b"])], annote: Some(query) };
    let made = CType::try_from(&typed).unwrap();
    assert_eq!(made.name, "thing");
    assert_eq!(made.tp[0].args, vec!["b".to_string()]);
    assert_eq!(made.annote, query);
    assert!(made.data.is_none());
}

fn predicate(name: &str, terms: &[&str], annote: Option<Annote>) -> Predicate {
    Predicate {
        name: name.to_string(),
        terms: terms.iter().map(|t| Term(t.to_string())).collect(),
        annote,
    }
}

#[test]
fn predicate_stands_for_the_fact_of_its_parts() {
    let types = types();
    let cases = [
        (&["player", "room"][..], CData::PlayerInRoom),
        (&["room", "player"][..], CData::PlayerInRoom),
        (&["player", "item", "nat"][..], CData::PlayerHasItem),
        (&["character", "room"][..], CData::CharInRoom),
        (&["item", "character", "item"][..], CData::CharHasItem),
        (&["character", "door"][..], CData::CharToRoom),
        (&["door", "room"][..], CData::TileInRoom),
    ];
    for (terms, fact) in cases {
        let p = predicate("p", terms, None);
        let (kind, copy) = process_pred(&p, &types).unwrap();
        assert_eq!(kind, fact);
        assert_eq!(copy.name, "p");
        assert_eq!(copy.terms.len(), terms.len());
    }
    for terms in [&["player"][..], &[][..], &["player", "room", "item"][..], &["nat"][..]] {
        let p = predicate("lonely", terms, None);
        assert!(matches!(process_pred(&p, &types), Err(Error::PredNotFound("lonely"))));
    }
}

#[test]
fn fact_relates_two_parts() {
    let types = types();
    assert_eq!(
        CData::PlayerInRoom.associated_types(&types),
        vec!["player".to_string(), "room".to_string()]
    );
    assert_eq!(
        CData::CharToRoom.associated_types(&types),
        vec!["character".to_string(), "door".to_string()]
    );
    assert_eq!(
        CData::TileToRoom.associated_types(&types),
        CData::TileInRoom.associated_types(&types)
    );
    assert_eq!(
        CData::CharHasItem.associated_types(&types),
        vec!["character".to_string(), "item".to_string()]
    );
}

#[test]
fn pred_keeps_the_parts_of_its_terms() {
    let types = types();
    let query = Annote::Query(set(&[Logic::Linking]));
    let pred =
        Pred::from_predicate(predicate("at", &["player", "nat", "room"], Some(query)), &types)
            .unwrap();
    assert_eq!(pred.name, "at");
    assert_eq!(pred.annote, query);
    let names: Vec<&str> = pred.types.iter().map(|t| t.name.as_str()).collect();
    assert_eq!(names, vec!["player", "room"]);
    let bare = Pred::from_predicate(predicate("at", &["player"], None), &types);
    assert!(matches!(bare, Err(Error::Custom("no annote"))));
}

fn rule(name: &str, annote: Option<Annote>) -> Rule {
    Rule { name: name.to_string(), pivars: 0, lhs: Vec::new(), rhs: Vec::new(), annote }
}

#[test]
fn rule_stands_for_the_event_of_its_logics() {
    let types = types();
    let queries = Vec::new();
    let give = rule(
        "give",
        Some(Annote::Integration(set(&[Logic::Control, Logic::Resource, Logic::Collision]))),
    );
    assert_eq!(
        process_rule(&give, &types.builtins, &types, &queries).unwrap(),
        CEvent::ChangeResource {
            giver: GameType::Character,
            receiver: GameType::Player,
            amount: 1
        }
    );
    let go = rule("go", Some(Annote::Query(Event::MoveRoom.associated_logics())));
    assert_eq!(process_rule(&go, &types.builtins, &types, &queries).unwrap(), CEvent::MoveRoom);
    let odd = rule("odd", Some(Annote::Integration(set(&[Logic::Control]))));
    assert!(matches!(
        process_rule(&odd, &types.builtins, &types, &queries),
        Err(Error::RuleNotFound("odd"))
    ));
    let bare = rule("bare", None);
    assert!(matches!(
        process_rule(&bare, &types.builtins, &types, &queries),
        Err(Error::RuleNotFound("bare"))
    ));
}

fn read(text: &str) -> Result<(usize, Annote), Error<'static>> {
    asterism::ceptre::parse::parse(&AnnoteString::new(text))
}

#[test]
fn annotation_is_read_with_its_logics() {
    assert_eq!(
        read("query{control}").unwrap(),
        (14, Annote::Query(set(&[Logic::Control])))
    );
    assert_eq!(
        read("  Synthesis {  collision , LINKING,resource  } rest").unwrap(),
        (46, Annote::Synthesis(set(&[Logic::Collision, Logic::Linking, Logic::Resource])))
    );
    assert_eq!(read("data{}").unwrap(), (6, Annote::Data(LogicSet::new())));
    assert_eq!(read("\tintegration\n{\r\n}").unwrap(), (17, Annote::Integration(LogicSet::new())));
    assert_eq!(
        read("INTEGRATION {Control,control,CONTROL}").unwrap().1,
        Annote::Integration(set(&[Logic::Control]))
    );
}

#[test]
fn synthesis_and_data_together_in_either_order() {
    assert_eq!(
        read("synthesis, data {linking}").unwrap().1,
        Annote::SynthData(set(&[Logic::Linking]))
    );
    assert_eq!(
        read(" data , Synthesis{resource,collision}").unwrap().1,
        Annote::SynthData(set(&[Logic::Resource, Logic::Collision]))
    );
    // the comma must follow the spaces behind the first word at once
    assert_eq!(read("synthesis ,data{}").unwrap().1, Annote::SynthData(LogicSet::new()));
    assert!(matches!(read("synthesis, {control}"), Err(Error::Parse)));
    assert!(matches!(read("synthesis, query {control}"), Err(Error::Parse)));
    assert!(matches!(read("synthesis data {control}"), Err(Error::Parse)));
}

#[test]
fn what_is_no_annotation_is_refused() {
    for text in [
        "",
        "query",
        "query {",
        "query {control",
        "query {control,}",
        "query {control, }",
        "query {,control}",
        "query {control linking}",
        "query {controls}",
        "quer {control}",
        "query [control]",
        "{control}",
        "query {lin\u{212a}ing}",
        "query { control } }".get(0..7).unwrap(),
        "query\u{a0}{control}",
    ] {
        assert!(matches!(read(text), Err(Error::Parse)), "{text:?} was read");
    }
}

#[test]
fn reading_counts_characters() {
    // the sign before the brace is one character of two bytes
    assert!(matches!(read("query \u{e9}{}"), Err(Error::Parse)));
    let (end, annote) = read("query{}\u{e9}\u{e9}").unwrap();
    assert_eq!((end, annote), (7, Annote::Query(LogicSet::new())));
}

#[test]
fn term_is_read_as_a_way_with_its_words() {
    let door = ctype("door", vec![tp("door_to", &["room"]), tp("none", &[])], GameType::Tile);
    let (end, term) = parse_term("(door_to hall)", &door).unwrap();
    assert_eq!(end, 14);
    assert_eq!(term.tp.name, "door_to");
    assert_eq!(term.vals, vec!["hall".to_string()]);
    let (end, term) = parse_term("(  none  ) rest", &door).unwrap();
    assert_eq!((end, term.tp.name.as_str(), term.vals.len()), (10, "none", 0));
    let (end, term) = parse_term("( door_to hall\tcellar\n x )", &door).unwrap();
    assert_eq!(end, 26);
    assert_eq!(term.vals, vec!["hall".to_string(), "cellar".to_string(), "x".to_string()]);
    // a bare name counts as read without taking anything up
    let (end, term) = parse_term("none", &door).unwrap();
    assert_eq!((end, term.tp.name.as_str(), term.vals.len()), (0, "none", 0));
    for text in ["", "()", "( )", "(door_to hall", "(window hall)", "door", " none", "(none)x(", "none "] {
        let read = parse_term(text, &door);
        if text == "(none)x(" {
            assert_eq!(read.unwrap().0, 6);
        } else {
            assert!(matches!(read, Err(Error::Parse)), "{text:?} was read");
        }
    }
}

#[test]
fn number_is_read_with_its_sign() {
    assert_eq!(parse_i16("0"), Some(0));
    assert_eq!(parse_i16("7"), Some(7));
    assert_eq!(parse_i16("+12"), Some(12));
    assert_eq!(parse_i16("-12"), Some(-12));
    assert_eq!(parse_i16("0032767"), Some(32767));
    assert_eq!(parse_i16("32767"), Some(i16::MAX));
    assert_eq!(parse_i16("-32768"), Some(i16::MIN));
    assert_eq!(parse_i16("-0"), Some(0));
    for text in ["", "+", "-", "32768", "-32768", "-32769", "99999", "123456789012345678901234567890", "1 ", " 1", "1a", "--1", "+-1", "\u{661}"]
    {
        let expected: Option<i16> = text.parse().ok();
        assert_eq!(parse_i16(text), expected, "{text:?}");
    }
}

fn annotated(name: &str, tps: Vec<Tp>, annote: Option<Annote>) -> Type {
    Type { name: name.to_string(), tp: tps, annote }
}

fn game_program() -> Program {
    let mut program = program(vec![
        builtin("nat", BuiltinTypes::NAT),
        builtin("z", BuiltinTypes::NAT_ZERO),
        builtin("s", BuiltinTypes::NAT_SUCC),
    ]);
    let synth = |gt: GameType| Some(Annote::Synthesis(gt.associated_logics()));
    let data = |gt: GameType| Some(Annote::Data(gt.associated_logics()));
    program.header.types = vec![
        annotated("helper", vec![], None),
        annotated("old_player", vec![tp("you", &[])], synth(GameType::Player)),
        annotated("item", vec![tp("key", &[]), tp("coin", &[])], data(GameType::Rsrc)),
        annotated("player", vec![tp("me", &["item"])], synth(GameType::Player)),
        annotated("npc", vec![tp("cat", &["item", "nat"])], data(GameType::Character)),
        annotated("npc2", vec![tp("dog", &[])], data(GameType::Character)),
        annotated("room", vec![tp("hall", &[]), tp("cellar", &[])], synth(GameType::Room)),
        annotated("door", vec![tp("door_to", &["room"])], Some(Annote::SynthData(GameType::Tile.associated_logics()))),
    ];
    program
}

#[test]
fn types_are_matched_with_the_parts_of_a_game() {
    let types = CeptreTypes::get_types(&game_program()).unwrap();
    // the last type that belongs to the logics by structure plays the part
    assert_eq!(types.player.name, "player");
    // where none does, the first type that is data of them
    assert_eq!(types.character.name, "npc");
    assert_eq!(types.room.name, "room");
    assert_eq!(types.link.name, "door");
    assert_eq!(types.rsrc.name, "item");
    assert_eq!(types.builtins.nat_succ, "s");
    // the data type is the first data type that every way takes a value of
    assert_eq!(types.player.data.as_ref().unwrap().name, "item");
    assert_eq!(types.character.data.as_ref().unwrap().name, "item");
    assert!(types.link.data.is_none());
    assert!(types.rsrc.data.is_none());
    assert!(types.room.data.is_none());
    assert!(types.player.data.as_ref().unwrap().data.is_none());
    assert_eq!(types.player.tp[0].args, vec!["item".to_string()]);
}

#[test]
fn type_without_ways_gets_the_first_data_type() {
    let mut program = game_program();
    program.header.types[6].tp.clear();
    let types = CeptreTypes::get_types(&program).unwrap();
    assert_eq!(types.room.data.as_ref().unwrap().name, "item");
}

#[test]
fn missing_part_is_named_in_the_error() {
    let mut program = game_program();
    program.header.types.remove(6);
    assert!(matches!(
        CeptreTypes::get_types(&program),
        Err(Error::TypeNotFound(GameType::Room))
    ));
    program.header.types.clear();
    assert!(matches!(
        CeptreTypes::get_types(&program),
        Err(Error::TypeNotFound(GameType::Player))
    ));
    program.builtins.pop();
    assert!(matches!(
        CeptreTypes::get_types(&program),
        Err(Error::BuiltinNotFound(BuiltinTypes::NAT_SUCC))
    ));
}

fn atom(name: &str, terms: &[&str]) -> Atom {
    Atom {
        name: name.to_string(),
        mode: Mode::Lin,
        terms: terms.iter().map(|t| Term(t.to_string())).collect(),
    }
}

/// The parts of a small game: the item type counts things with a natural
/// number, and a door leads to a room.
fn parts() -> CeptreTypes {
    CeptreTypes {
        player: ctype("player", vec![tp("me", &[])], GameType::Player),
        character: ctype("character", vec![tp("cat", &[]), tp("dog", &[])], GameType::Character),
        room: ctype("room", vec![tp("hall", &[]), tp("cellar", &[]), tp("attic", &[])], GameType::Room),
        link: ctype("door", vec![tp("door_to", &["room"]), tp("window", &[])], GameType::Tile),
        rsrc: ctype(
            "item",
            vec![tp("have", &["kind", "nat"]), tp("key", &[]), tp("coin", &[])],
            GameType::Rsrc,
        ),
        builtins: Builtins {
            nat: "nat".to_string(),
            nat_zero: "z".to_string(),
            nat_succ: "s".to_string(),
        },
    }
}

fn item(id: &str, count: i16) -> (String, i16) {
    (id.to_string(), count)
}

fn items_of(items: &[Rsrc]) -> Vec<(String, i16)> {
    items.iter().map(|r| (r.id.clone(), r.count)).collect()
}

#[test]
fn item_is_read_from_the_terms_of_an_atom() {
    let types = parts();
    let found = build_item(&atom("has", &["me", "(have key 3)"]), &types).unwrap().unwrap();
    assert_eq!((found.id.as_str(), found.count), ("key", 3));
    // the last kind and the last number win
    let found =
        build_item(&atom("has", &["(have coin 1)", "(have key -2)"]), &types).unwrap().unwrap();
    assert_eq!((found.id.as_str(), found.count), ("key", -2));
    // a kind without a number, or a number without a kind, is no item
    assert!(build_item(&atom("has", &["key"]), &types).is_none());
    assert!(build_item(&atom("has", &["(have 7 7)"]), &types).is_none());
    assert!(build_item(&atom("has", &[]), &types).is_none());
    assert!(build_item(&atom("has", &["(window key 3)"]), &types).is_none());
    // a word in the place of the number that is no number is an error
    assert!(matches!(
        build_item(&atom("has", &["(have key many)"]), &types),
        Some(Err(Error::State("unable to parse number")))
    ));
    assert!(matches!(
        build_item(&atom("has", &["(have key 40000)", "(have key 1)"]), &types),
        Some(Err(Error::State("unable to parse number")))
    ));
}

#[test]
fn player_is_built_from_its_atoms() {
    let types = parts();
    let place = atom("at", &["me", "cellar"]);
    let has = vec![atom("has", &["me", "(have key 1)"]), atom("has", &["me"]), atom("has", &["(have coin 5)"])];
    let player = build_player(Some(&place), has, &types).unwrap();
    assert_eq!(player.in_room, 1);
    assert_eq!(items_of(&player.items), vec![item("key", 1), item("coin", 5)]);

    assert!(matches!(
        build_player(None, Vec::new(), &types),
        Err(Error::State("player initial position not found"))
    ));
    assert!(matches!(
        build_player(Some(&atom("at", &["cat", "cellar"])), Vec::new(), &types),
        Err(Error::State("player tp used could not be found in type definition"))
    ));
    assert!(matches!(
        build_player(Some(&atom("at", &["me", "garden"])), Vec::new(), &types),
        Err(Error::State("player initial position not found"))
    ));
    assert!(matches!(
        build_player(Some(&place), vec![atom("has", &["(have key x)"])], &types),
        Err(Error::State("unable to parse number"))
    ));
    // a room in parentheses is read, but what is left of the term names none
    assert!(matches!(
        build_player(Some(&atom("at", &["me", "(cellar)"])), Vec::new(), &types),
        Err(Error::State("player initial position not found"))
    ));
}

#[test]
fn tiles_are_built_from_their_atoms() {
    let types = parts();
    let tiles = build_tiles(
        vec![atom("in", &["hall", "(door_to attic)"]), atom("in", &["hall"])],
        vec![atom("to", &["(door_to hall)", "cellar"]), atom("to", &["window", "attic"])],
        &types,
    )
    .unwrap();
    let seen: Vec<(&str, usize, usize)> =
        tiles.iter().map(|t| (t.id.as_str(), t.in_room, t.link_to)).collect();
    assert_eq!(seen, vec![("1", 0, 2), ("1", 1, 0)]);
    assert!(matches!(
        build_tiles(vec![atom("in", &["hall", "(door_to garden)"])], Vec::new(), &types),
        Err(Error::State("link to a room that is not there"))
    ));
    assert!(build_tiles(Vec::new(), Vec::new(), &types).unwrap().is_empty());
}

#[test]
fn characters_are_built_from_their_atoms() {
    let types = parts();
    let chars = build_chars(
        vec![
            atom("in", &["dog", "hall"]),
            atom("in", &["cellar", "cat"]),
            atom("in", &["dog", "attic"]),
            atom("in", &["cat"]),
        ],
        vec![
            atom("has", &["cat", "(have key 2)"]),
            atom("has", &["dog", "(have coin 9)"]),
            atom("has", &["dog"]),
            atom("has", &["(have coin 9)"]),
        ],
        vec![atom("to", &["cat", "(door_to attic)"]), atom("to", &["(door_to hall)"])],
        &types,
    )
    .unwrap();
    assert_eq!(chars.len(), 2);
    // in the order in which they were first placed; placed again, the dog is
    // in the attic, and what it was given last is nothing
    assert_eq!((chars[0].id.as_str(), chars[0].in_room, chars[0].link_to), ("dog", 2, None));
    assert!(chars[0].items.is_empty());
    assert_eq!((chars[1].id.as_str(), chars[1].in_room, chars[1].link_to), ("cat", 1, Some(2)));
    assert_eq!(items_of(&chars[1].items), vec![item("key", 2)]);

    // a character of which it is not known what it has is not made
    let chars = build_chars(vec![atom("in", &["dog", "hall"])], Vec::new(), Vec::new(), &types);
    assert!(chars.unwrap().is_empty());
    assert!(matches!(
        build_chars(Vec::new(), vec![atom("has", &["(have key x)"])], Vec::new(), &types),
        Err(Error::State("unable to parse number"))
    ));
    assert!(matches!(
        build_chars(Vec::new(), Vec::new(), vec![atom("to", &["cat", "(door_to moon)"])], &types),
        Err(Error::State("link to a room that is not there"))
    ));
}

fn query(kind: CData, name: &str) -> (CData, Predicate) {
    (kind, predicate(name, &[], None))
}

#[test]
fn state_is_read_from_the_atoms_of_a_program() {
    let types = parts();
    let queries = vec![
        query(CData::PlayerInRoom, "old_at"),
        query(CData::PlayerInRoom, "at"),
        query(CData::PlayerHasItem, "has"),
        query(CData::CharInRoom, "npc_at"),
        query(CData::CharHasItem, "npc_has"),
        query(CData::CharToRoom, "npc_to"),
        query(CData::TileInRoom, "tile"),
        query(CData::TileToRoom, "tile"),
    ];
    let atoms = vec![
        atom("old_at", &["me", "hall"]),
        atom("npc_has", &["cat", "(have key 1)"]),
        atom("at", &["me", "attic"]),
        atom("has", &["(have key 1)"]),
        atom("at", &["me", "hall"]),
        atom("npc_at", &["cat", "cellar"]),
        atom("tile", &["hall", "(door_to cellar)"]),
        atom("has", &["(have coin 2)"]),
        atom("other", &["me", "hall"]),
    ];
    let state = process_state(atoms, &types, &queries, &[]).unwrap();
    assert_eq!(state.player.in_room, 2);
    assert_eq!(items_of(&state.player.items), vec![item("key", 1), item("coin", 2)]);
    assert_eq!(state.characters.len(), 1);
    assert_eq!(state.characters[0].id, "cat");
    assert_eq!(state.rooms, 3);
    // an atom that states two facts counts for both
    assert_eq!(state.tiles.len(), 2);
    assert_eq!(items_of(&state.items), vec![item("key", 1), item("coin", 2)]);
    assert_eq!(state.shift_room(2), 0);
    assert_eq!(state.shift_room(0), 1);
    assert_eq!(state.shift_room(1), 2);
    assert_eq!(state.shift_room(5), 5);

    assert!(matches!(
        process_state(Vec::new(), &types, &queries, &[]),
        Err(Error::State("player initial position not found"))
    ));
    assert!(matches!(
        process_state(vec![atom("at", &["me", "hall"])], &types, &Vec::new(), &[]),
        Err(Error::State("player initial position not found"))
    ));
}

#[test]
fn program_is_turned_into_the_parts_of_a_game() {
    let mut program = game_program();
    let query = |logics: &[Logic]| Some(Annote::Query(set(logics)));
    program.header.types[2].tp = vec![tp("have", &["kind", "nat"]), tp("key", &[])];
    program.header.preds = vec![
        predicate("at", &["player", "room"], query(&[])),
        predicate("has", &["player", "item"], query(&[Logic::Resource])),
        predicate("unmarked", &["npc", "room"], None),
        predicate("odd", &["room"], query(&[])),
    ];
    let give = rule(
        "give",
        Some(Annote::Integration(set(&[Logic::Control, Logic::Resource, Logic::Collision]))),
    );
    let go = rule("go", Some(Annote::Query(Event::MoveRoom.associated_logics())));
    let walk = rule("walk", Some(Annote::Integration(Event::MoveRoom.associated_logics())));
    program.stages = vec![
        Stage { name: "a".to_string(), nondet: Nondet::Ordered, body: vec![go, give] },
        Stage { name: "b".to_string(), nondet: Nondet::Random, body: vec![walk, rule("x", None)] },
    ];
    program.init_state = vec![atom("at", &["me", "cellar"]), atom("has", &["(have key 4)"])];
    let ceptre = Ceptre::from_program(program).unwrap();
    assert_eq!(ceptre.types.player.name, "player");
    let kinds: Vec<(CData, &str)> =
        ceptre.queries.iter().map(|(k, p)| (*k, p.name.as_str())).collect();
    assert_eq!(kinds, vec![(CData::PlayerInRoom, "at"), (CData::PlayerHasItem, "has")]);
    assert_eq!(
        ceptre.rules,
        vec![
            CEvent::ChangeResource {
                giver: GameType::Character,
                receiver: GameType::Player,
                amount: 1
            },
            CEvent::MoveRoom,
        ]
    );
    assert_eq!(ceptre.init_state.player.in_room, 1);
    assert_eq!(items_of(&ceptre.init_state.items), vec![item("key", 4)]);
    assert_eq!(ceptre.init_state.rooms, 2);

    let mut broken = game_program();
    broken.builtins.clear();
    assert!(matches!(
        Ceptre::from_program(broken),
        Err(Error::BuiltinNotFound(BuiltinTypes::NAT))
    ));
    let mut broken = game_program();
    broken.header.types.truncate(6);
    assert!(matches!(Ceptre::from_program(broken), Err(Error::TypeNotFound(GameType::Room))));
    assert!(matches!(
        Ceptre::from_program(game_program()),
        Err(Error::State("player initial position not found"))
    ));
}

#[test]
fn blank_room_has_eight_rows_of_eight_free_cells() {
    let room: String = blank_room().into_iter().collect();
    let row = " ".repeat(8);
    let rows: Vec<&str> = room.split('\n').collect();
    assert_eq!(rows, vec![row.as_str(); 8]);
    assert_eq!(room.len(), 71);
}

#[test]
fn cell_is_taken_once_something_stands_in_it() {
    let mut room = blank_room();
    assert!(!taken(&room, 3, 2));
    add_char(&mut room, asterism::geometry::IVec2::new(3, 2), 'p');
    assert!(taken(&room, 3, 2));
    assert!(!taken(&room, 2, 3));
    assert_eq!(room[2 * 9 + 3], 'p');
    assert_eq!(room.iter().filter(|c| **c == 'p').count(), 1);
    assert!(!taken(&Vec::new(), 0, 0));
}

fn rooms_with_tiles(rooms: usize, player_room: usize, tiles: &[(&str, usize)]) -> State {
    State {
        player: Player { in_room: player_room, items: Vec::new() },
        characters: Vec::new(),
        rooms,
        tiles: tiles
            .iter()
            .map(|(id, in_room)| Tile { id: id.to_string(), in_room: *in_room, link_to: 0 })
            .collect(),
        items: Vec::new(),
    }
}

fn count_of(room: &[char], ch: char) -> usize {
    room.iter().filter(|c| **c == ch).count()
}

#[test]
fn free_cell_lies_in_the_room() {
    let state = rooms_with_tiles(1, 0, &[]);
    let mut room = blank_room();
    for _ in 0..200 {
        let pos = state.generate_pos(&room, 1000).unwrap();
        assert!(0 <= pos.x && pos.x < 8 && 0 <= pos.y && pos.y < 8);
        assert!(!taken(&room, pos.x as usize, pos.y as usize));
    }
    for y in 0..8 {
        for x in 0..8 {
            if (x, y) != (5, 6) {
                add_char(&mut room, asterism::geometry::IVec2::new(x, y), 'c');
            }
        }
    }
    let last = state.generate_pos(&room, usize::MAX).unwrap();
    assert_eq!(last, asterism::geometry::IVec2::new(5, 6));
    add_char(&mut room, last, 'c');
    assert_eq!(state.generate_pos(&room, 50), None);
    assert_eq!(state.generate_pos(&blank_room(), 0), None);
}

#[test]
fn kinds_of_tile_are_told_by_their_digits() {
    assert_eq!(digit(0), '0');
    assert_eq!(digit(7), '7');
    assert_eq!(digit(9), '9');
    let ids = vec!["door".to_string(), "key".to_string(), "door".to_string()];
    assert_eq!(find_kind(&ids, "door"), 0);
    assert_eq!(find_kind(&ids, "key"), 1);
    assert_eq!(find_kind(&ids, "gate"), 3);
}

#[test]
fn tiles_are_laid_out_in_the_maps_of_their_rooms() {
    let state = rooms_with_tiles(3, 1, &[("door", 0), ("door", 2), ("key", 2)]);
    assert!(state.do_rooms_exist());
    let (maps, positions) = state.generate_map(usize::MAX).unwrap();
    assert_eq!(maps.len(), 3);
    assert!(maps.iter().all(|room| room.len() == 71));
    assert!(maps.iter().all(|room| count_of(room, '\n') == 7));
    // The room of the player stood at index 1 and now comes first. The door of
    // room 0 was put into the map with the shifted number 1.
    assert_eq!(count_of(&maps[0], '0'), 1);
    assert_eq!(count_of(&maps[0], ' '), 63);
    assert_eq!(count_of(&maps[1], ' '), 64);
    assert_eq!(count_of(&maps[2], '0'), 1);
    assert_eq!(count_of(&maps[2], '1'), 1);
    assert_eq!(count_of(&maps[2], ' '), 62);
    assert_eq!(positions.len(), 2);
    assert_eq!(positions[0].len(), 2);
    assert_eq!(positions[1].len(), 1);
    let door = positions[0][0];
    assert_eq!(maps[0][(door.y * 9 + door.x) as usize], '0');
    let other = positions[0][1];
    assert_eq!(maps[2][(other.y * 9 + other.x) as usize], '0');
    let key = positions[1][0];
    assert_eq!(maps[2][(key.y * 9 + key.x) as usize], '1');
}

#[test]
fn map_shows_ten_kinds_of_tile_at_most() {
    let names: Vec<String> = (0..12).map(|k| format!("tile{k}")).collect();
    let tiles: Vec<(&str, usize)> = names.iter().map(|name| (name.as_str(), 0)).collect();
    let state = rooms_with_tiles(1, 0, &tiles);
    let (maps, positions) = state.generate_map(usize::MAX).unwrap();
    assert_eq!(positions.len(), 10);
    assert!(positions.iter().all(|cells| cells.len() == 1));
    assert_eq!(count_of(&maps[0], ' '), 54);
    assert_eq!(count_of(&maps[0], '9'), 1);
}

#[test]
fn map_needs_a_try_for_each_tile_and_rooms_that_exist() {
    let state = rooms_with_tiles(2, 0, &[("door", 1)]);
    assert_eq!(state.generate_map(0), None);
    let empty = rooms_with_tiles(2, 1, &[]);
    let (maps, positions) = empty.generate_map(0).unwrap();
    assert_eq!(maps, vec![blank_room(), blank_room()]);
    assert!(positions.is_empty());
    assert!(!rooms_with_tiles(2, 2, &[]).do_rooms_exist());
    assert!(!rooms_with_tiles(2, 0, &[("door", 2)]).do_rooms_exist());
}

#[test]
fn logic_is_known_by_its_name_in_whatever_case() {
    assert_eq!(Logic::try_from("collision"), Ok(Logic::Collision));
    assert_eq!(Logic::try_from("Collision"), Ok(Logic::Collision));
    assert_eq!(Logic::try_from("CONTROL"), Ok(Logic::Control));
    assert_eq!(Logic::try_from("lin\u{212a}ing"), Ok(Logic::Linking));
    assert_eq!(Logic::try_from("Resource"), Ok(Logic::Resource));
    assert_eq!(Logic::try_from("resources"), Err("logic not in this list"));
    assert_eq!(Logic::try_from(""), Err("logic not in this list"));
    assert_eq!(logic_named("linking"), Ok(Logic::Linking));
    assert_eq!(logic_named("Linking"), Err("logic not in this list"));
}
