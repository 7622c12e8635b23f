use asterism::control::{
    find_action, key_state, key_state_of, Action, ControlEvent, ControlEventType, ControlReaction, InputType,
    InputWrapper, KeyState, KeyboardControl, Values,
};
use asterism::{Event, Logic};

/// Keys as a test sees them: what is down now, and what was down before.
struct Keys {
    asked: Vec<char>,
}

struct Frame {
    down: Vec<char>,
    was_down: Vec<char>,
}

impl InputWrapper for Keys {
    type KeyCode = char;
    type InputHelper = Frame;

    fn new() -> Self {
        Keys { asked: Vec::new() }
    }

    fn clear(&mut self) {
        self.asked.clear();
    }

    fn update_held(&mut self, key: &char, events: &Frame) -> bool {
        self.asked.push(*key);
        events.down.contains(key)
    }

    fn is_pressed(&self, key: &char, events: &Frame) -> bool {
        events.down.contains(key) && !events.was_down.contains(key)
    }

    fn is_released(&self, key: &char, events: &Frame) -> bool {
        !events.down.contains(key) && events.was_down.contains(key)
    }
}

fn frame(down: &[char], was_down: &[char]) -> Frame {
    Frame { down: down.to_vec(), was_down: was_down.to_vec() }
}

#[test]
fn key_state_asks_for_press_only_when_down() {
    let mut keys = Keys::new();
    assert_eq!(key_state(&mut keys, &'a', &frame(&['a'], &[])), KeyState::Pressed);
    assert_eq!(key_state(&mut keys, &'a', &frame(&['a'], &['a'])), KeyState::Held);
    assert_eq!(key_state(&mut keys, &'a', &frame(&[], &['a'])), KeyState::Released);
    assert_eq!(key_state(&mut keys, &'a', &frame(&[], &[])), KeyState::Up);
    assert_eq!(keys.asked, vec!['a', 'a', 'a', 'a']);
}

#[test]
fn values_follow_the_key() {
    let rest = Values::new();
    assert_eq!(rest, Values { changed_by: 0, value: 0 });
    let pressed = rest.after(true, KeyState::Pressed);
    assert_eq!(pressed, Values { changed_by: 1, value: 1 });
    let held = pressed.after(true, KeyState::Held);
    assert_eq!(held, Values { changed_by: 0, value: 1 });
    // a second press cannot raise the value past its bound
    assert_eq!(held.after(true, KeyState::Pressed), Values { changed_by: 1, value: 1 });
    let released = held.after(true, KeyState::Released);
    assert_eq!(released, Values { changed_by: -1, value: 0 });
    // a release of a key that was not held changes nothing
    assert_eq!(released.after(true, KeyState::Released), Values { changed_by: 0, value: 0 });
    assert_eq!(released.after(true, KeyState::Up), Values { changed_by: 0, value: 0 });
    // an action that is not valid is reset
    assert_eq!(held.after(false, KeyState::Pressed), Values { changed_by: 0, value: 0 });
    // values out of the ordinary are brought back into bounds
    let odd = Values { changed_by: 100, value: i8::MAX };
    assert_eq!(odd.after(true, KeyState::Pressed), Values { changed_by: 1, value: 1 });
    let low = Values { changed_by: 0, value: i8::MIN };
    assert_eq!(low.after(true, KeyState::Released), Values { changed_by: -1, value: 0 });
}

fn two_players() -> KeyboardControl<u8, Keys> {
    let mut control: KeyboardControl<u8, Keys> = KeyboardControl::new();
    control.add_key_map(0, 'w', 1, true);
    control.add_key_map(0, 's', 2, true);
    control.add_key_map(2, 'i', 1, false);
    control
}

fn event(set: usize, action_id: u8, event_type: ControlEventType) -> ControlEvent<u8> {
    ControlEvent { event_type, set, action_id }
}

#[test]
fn key_maps_are_made_up_to_the_set_asked_for() {
    let control = two_players();
    assert_eq!(control.mapping.len(), 3);
    assert_eq!(control.values.len(), 3);
    assert_eq!(control.mapping[0].len(), 2);
    assert!(control.mapping[1].is_empty());
    assert!(control.values[1].is_empty());
    assert_eq!(control.mapping[2].len(), 1);
    assert_eq!(*control.mapping[0][1].get_keycode(), 's');
    assert_eq!(control.mapping[0][1].id, 2);
    assert!(control.mapping[0][1].is_valid);
    assert!(!control.mapping[2][0].is_valid);
    assert_eq!(control.mapping[2][0].input_type, InputType::Digital);
    assert_eq!(control.values[0], vec![Values::new(), Values::new()]);
    let action = Action::new(5u8, 'q', InputType::Analog, true);
    assert_eq!(*action.get_keycode(), 'q');
    assert_eq!(action.input_type, InputType::Analog);
}

#[test]
fn step_reports_presses_holds_and_releases() {
    let mut control = two_players();
    control.update(&frame(&['w', 'i'], &[]));
    assert_eq!(
        control.events().to_vec(),
        vec![
            event(0, 1, ControlEventType::KeyPressed),
            event(0, 1, ControlEventType::KeyHeld),
            event(0, 2, ControlEventType::KeyUnheld),
        ]
    );
    assert_eq!(control.values[0][0], Values { changed_by: 1, value: 1 });
    assert_eq!(control.values[0][1], Values { changed_by: 0, value: 0 });
    assert_eq!(control.values[2][0], Values { changed_by: 0, value: 0 });

    control.update(&frame(&['w', 's'], &['w', 'i']));
    assert_eq!(
        control.events().to_vec(),
        vec![
            event(0, 1, ControlEventType::KeyHeld),
            event(0, 2, ControlEventType::KeyPressed),
            event(0, 2, ControlEventType::KeyHeld),
        ]
    );

    control.update(&frame(&['s'], &['w', 's']));
    assert_eq!(
        control.events().to_vec(),
        vec![
            event(0, 1, ControlEventType::KeyReleased),
            event(0, 1, ControlEventType::KeyUnheld),
            event(0, 2, ControlEventType::KeyHeld),
        ]
    );
    assert_eq!(control.values[0][0], Values { changed_by: -1, value: 0 });
    assert!(matches!(control.events()[0].get_type(), ControlEventType::KeyReleased));
}

#[test]
fn actions_are_found_by_name() {
    let mut control = two_players();
    control.handle_predicate(&ControlReaction::SetKeyValid(2, 1));
    control.update(&frame(&['i', 's'], &[]));
    assert_eq!(control.get_action_in_set(0, 1), Some(Values { changed_by: 0, value: 0 }));
    assert_eq!(control.get_action_in_set(2, 1), Some(Values { changed_by: 1, value: 1 }));
    assert_eq!(control.get_action_in_set(1, 1), None);
    assert_eq!(control.get_action_in_set(2, 2), None);
    // the first set that has the action answers
    assert_eq!(control.get_action(1), Some(Values { changed_by: 0, value: 0 }));
    assert_eq!(control.get_action(2), Some(Values { changed_by: 1, value: 1 }));
    assert_eq!(control.get_action(3), None);
    assert_eq!(find_action(&control.mapping[0], 2), Some(1));
    assert_eq!(find_action(&control.mapping[0], 9), None);
}

#[test]
fn reactions_bind_keys_and_set_validity() {
    let mut control = two_players();
    control.handle_predicate(&ControlReaction::AddKeyToSet(1, 7, 'x', true));
    control.handle_predicate(&ControlReaction::AddKeyToSet(0, 2, 'd', true));
    assert_eq!(control.mapping[1].len(), 1);
    assert_eq!(control.mapping[0].len(), 3);
    control.handle_predicate(&ControlReaction::SetKeyInvalid(0, 2));
    assert!(!control.mapping[0][1].is_valid);
    // only the first action of that name is changed
    assert!(control.mapping[0][2].is_valid);
    control.handle_predicate(&ControlReaction::SetKeyInvalid(0, 9));
    assert!(control.mapping[0][0].is_valid);
    control.handle_predicate(&ControlReaction::SetKeyValid(0, 2));
    assert!(control.mapping[0][1].is_valid);

    control.update(&frame(&['s'], &[]));
    control.handle_predicate(&ControlReaction::SetKeyInvalid(0, 2));
    control.update(&frame(&['s', 'd'], &['s']));
    // the action that is not valid is reset and not reported
    assert_eq!(control.values[0][1], Values { changed_by: 0, value: 0 });
    assert_eq!(
        control.events().to_vec(),
        vec![
            event(0, 1, ControlEventType::KeyUnheld),
            event(0, 2, ControlEventType::KeyPressed),
            event(0, 2, ControlEventType::KeyHeld),
            event(1, 7, ControlEventType::KeyUnheld),
        ]
    );
}

#[test]
fn key_maps_are_walked_and_changed_in_place() {
    let mut control = two_players();
    control.get_ident_data(0)[1].is_valid = false;
    assert!(!control.mapping[0][1].is_valid);
    let mut seen = Vec::new();
    let mut iter = control.data_iter();
    while let Some((set, actions)) = iter.next() {
        seen.push((set, actions.len()));
    }
    assert!(iter.next().is_none());
    assert_eq!(seen, vec![(0, 2), (1, 0), (2, 1)]);
}

#[test]
fn key_is_pressed_held_released_or_up() {
    assert_eq!(key_state_of(true, true), KeyState::Pressed);
    assert_eq!(key_state_of(true, false), KeyState::Held);
    assert_eq!(key_state_of(false, true), KeyState::Released);
    assert_eq!(key_state_of(false, false), KeyState::Up);
}
