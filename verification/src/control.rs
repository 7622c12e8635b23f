//! Control logics.
//!
//! A control logic says that different entities are controlled by different
//! inputs at different times. This one maps keys onto the actions of a game: it
//! asks an input wrapper about each key once a step, keeps a value for each
//! action, and reports what was pressed, released, held and not held.

use crate::graph::tells_apart;
use crate::{Event, EventType, Logic, Reaction};
use vstd::prelude::*;

verus! {

/// What an input handler knows about the keys, in the form that the control
/// logic asks for. Implement it for the input handler of the engine in use.
///
/// The answers come from outside the program, so nothing is promised of them.
pub trait InputWrapper: Sized {
    /// The codes by which the handler names keys.
    type KeyCode: Copy + Eq;

    /// What the handler passes around each frame.
    type InputHelper;

    fn new() -> Self;

    /// Forgets what was learned of the keys in the last frame.
    fn clear(&mut self);

    /// Whether the key is down. A wrapper that keeps track of keys itself also
    /// notes here that the key is down in this frame.
    fn update_held(&mut self, key: &Self::KeyCode, events: &Self::InputHelper) -> bool;

    /// Whether the key went down in this frame.
    fn is_pressed(&self, key: &Self::KeyCode, events: &Self::InputHelper) -> bool;

    /// Whether the key came up in this frame.
    fn is_released(&self, key: &Self::KeyCode, events: &Self::InputHelper) -> bool;
}

/// What a key is doing in a frame.
#[derive(Clone, Copy, PartialEq, Eq, Structural, Debug)]
pub enum KeyState {
    /// The key is down, and was not in the frame before.
    Pressed,
    /// The key is down, and was so before.
    Held,
    /// The key is up, and was down in the frame before.
    Released,
    /// The key is up, and was so before.
    Up,
}

/// The kinds of input.
#[derive(Clone, Copy, PartialEq, Eq, Structural, Debug)]
pub enum InputType {
    /// An input with a range of values, such as a joystick.
    Analog,
    /// An input that is pressed or not pressed.
    Digital,
}

/// A key.
#[derive(Copy)]
pub struct KeyInput<KeyCode: Copy> {
    /// The code of the key.
    pub keycode: KeyCode,
}

impl<KeyCode: Copy> Clone for KeyInput<KeyCode> {
    fn clone(&self) -> (key: Self)
        ensures
            key == *self,
    {
        *self
    }
}

/// The least value of a key: not held.
pub const KEY_MIN: i8 = 0;

/// The greatest value of a key: held.
pub const KEY_MAX: i8 = 1;

/// How far an action is engaged.
#[derive(Clone, Copy, PartialEq, Eq, Structural, Debug)]
pub struct Values {
    /// By how much `value` changed in the last step: `1` where the key was
    /// pressed, `-1` where it was released, `0` else.
    pub changed_by: i8,
    /// The value now: `1` while the key is held, `0` while it is not.
    pub value: i8,
}

impl Values {
    /// Nothing held and nothing changed.
    pub open spec fn spec_new() -> Values {
        Values { changed_by: 0, value: 0 }
    }

    /// Both numbers are ones that a key can have.
    pub open spec fn wf(self) -> bool {
        -1 <= self.changed_by <= 1 && KEY_MIN <= self.value <= KEY_MAX
    }

    /// The values one step later, for an action whose key does `state`.
    ///
    /// A press raises the value and a release lowers it, within the bounds of a
    /// key; a release of an action that is not engaged changes nothing. An action
    /// that is not valid is reset.
    pub open spec fn spec_after(self, is_valid: bool, state: KeyState) -> Values {
        if !is_valid {
            Values::spec_new()
        } else {
            let changed_by: i8 = match state {
                KeyState::Pressed => 1i8,
                KeyState::Held => 0i8,
                KeyState::Released => if self.value != 0 {
                    -1i8
                } else {
                    0i8
                },
                KeyState::Up => 0i8,
            };
            let sum = self.value + changed_by;
            Values {
                changed_by,
                value: if sum < KEY_MIN {
                    KEY_MIN
                } else if sum > KEY_MAX {
                    KEY_MAX
                } else {
                    sum as i8
                },
            }
        }
    }

    #[verifier::when_used_as_spec(spec_new)]
    pub fn new() -> (values: Self)
        ensures
            values == Values::spec_new(),
    {
        Self { changed_by: 0, value: 0 }
    }

    /// The values one step later, for an action whose key does `state`.
    pub fn after(&self, is_valid: bool, state: KeyState) -> (next: Values)
        ensures
            next == self.spec_after(is_valid, state),
            next.wf(),
    {
        if !is_valid {
            return Values::new();
        }
        let changed_by: i8 = match state {
            KeyState::Pressed => 1,
            KeyState::Held => 0,
            KeyState::Released => if self.value != 0 {
                -1
            } else {
                0
            },
            KeyState::Up => 0,
        };
        let sum: i16 = self.value as i16 + changed_by as i16;
        let value: i8 = if sum < KEY_MIN as i16 {
            KEY_MIN
        } else if sum > KEY_MAX as i16 {
            KEY_MAX
        } else {
            sum as i8
        };
        Values { changed_by, value }
    }
}

/// An action of the game and the key it is bound to.
#[derive(Copy)]
pub struct Action<ID, KeyCode: Copy> {
    pub id: ID,
    /// The key.
    pub key_input: KeyInput<KeyCode>,
    /// Whether the action can be engaged in this frame.
    pub is_valid: bool,
    /// Whether the input is digital or analog.
    pub input_type: InputType,
}

impl<ID: Copy, KeyCode: Copy> Clone for Action<ID, KeyCode> {
    fn clone(&self) -> (action: Self)
        ensures
            action == *self,
    {
        *self
    }
}

impl<ID, KeyCode: Copy> Action<ID, KeyCode> {
    pub fn new(id: ID, keycode: KeyCode, input_type: InputType, is_valid: bool) -> (action: Self)
        ensures
            action.id == id,
            action.key_input.keycode == keycode,
            action.input_type == input_type,
            action.is_valid == is_valid,
    {
        Self { id, key_input: KeyInput { keycode }, is_valid, input_type }
    }

    pub fn get_keycode(&self) -> (keycode: &KeyCode)
        ensures
            *keycode == self.key_input.keycode,
    {
        &self.key_input.keycode
    }
}

/// A change to the key maps of a control logic.
#[derive(Copy, PartialEq, Eq, Debug)]
pub enum ControlReaction<ID: Copy + Eq, KeyCode: Copy + Eq> {
    /// Binds a key to an action in a set, valid or not.
    AddKeyToSet(usize, ID, KeyCode, bool),
    /// Makes the first action with the given name in a set valid.
    SetKeyValid(usize, ID),
    /// Makes the first action with the given name in a set invalid.
    SetKeyInvalid(usize, ID),
}

impl<ID: Copy + Eq, KeyCode: Copy + Eq> Clone for ControlReaction<ID, KeyCode> {
    fn clone(&self) -> (reaction: Self)
        ensures
            reaction == *self,
    {
        *self
    }
}

/// What a key did.
#[derive(Clone, Copy, PartialEq, Eq, PartialOrd, Ord, Structural, Debug)]
pub enum ControlEventType {
    KeyPressed,
    KeyReleased,
    KeyHeld,
    KeyUnheld,
}

/// Something that the key of an action did, in the set `set`.
#[derive(Copy, PartialEq, Eq, PartialOrd, Ord, Debug)]
pub struct ControlEvent<ID> {
    pub event_type: ControlEventType,
    pub set: usize,
    pub action_id: ID,
}

impl<ID: Copy> Clone for ControlEvent<ID> {
    fn clone(&self) -> (event: Self)
        ensures
            event == *self,
    {
        *self
    }
}

/// The events that an action gives rise to in a step, from its values after
/// the step: a press or a release where the value changed, and then whether the
/// key is held. An action that is not valid gives rise to none.
pub open spec fn action_events<ID>(set: int, action_id: ID, is_valid: bool, values: Values) -> Seq<
    ControlEvent<ID>,
> {
    if !is_valid {
        Seq::empty()
    } else {
        let change = if values.changed_by > 0 {
            seq![
                ControlEvent {
                    event_type: ControlEventType::KeyPressed,
                    set: set as usize,
                    action_id,
                },
            ]
        } else if values.changed_by < 0 {
            seq![
                ControlEvent {
                    event_type: ControlEventType::KeyReleased,
                    set: set as usize,
                    action_id,
                },
            ]
        } else {
            Seq::empty()
        };
        change.push(
            ControlEvent {
                event_type: if values.value != 0 {
                    ControlEventType::KeyHeld
                } else {
                    ControlEventType::KeyUnheld
                },
                set: set as usize,
                action_id,
            },
        )
    }
}

/// Asks the wrapper what a key is doing. Whether the key was pressed is asked
/// only where it is down, and whether it was released only where it is up.
pub fn key_state<Wrapper: InputWrapper>(
    wrapper: &mut Wrapper,
    key: &Wrapper::KeyCode,
    events: &Wrapper::InputHelper,
) -> KeyState {
    let down = wrapper.update_held(key, events);
    let changed = if down {
        wrapper.is_pressed(key, events)
    } else {
        wrapper.is_released(key, events)
    };
    key_state_of(down, changed)
}

/// What a key is doing, from whether it is down and whether that is new in
/// this frame: a key that is down was pressed where that is new and is held
/// where it is not; a key that is up was released where that is new.
pub open spec fn spec_key_state_of(down: bool, changed: bool) -> KeyState {
    if down {
        if changed {
            KeyState::Pressed
        } else {
            KeyState::Held
        }
    } else if changed {
        KeyState::Released
    } else {
        KeyState::Up
    }
}

/// What a key is doing, from whether it is down and whether that is new in
/// this frame. `key_state` hands it what the wrapper says of the key, which
/// nothing here can foretell.
pub fn key_state_of(down: bool, changed: bool) -> (state: KeyState)
    ensures
        state == spec_key_state_of(down, changed),
{
    if down {
        if changed {
            KeyState::Pressed
        } else {
            KeyState::Held
        }
    } else if changed {
        KeyState::Released
    } else {
        KeyState::Up
    }
}

/// The events of the first `n` actions of a set, action by action.
pub open spec fn set_events<ID, KeyCode: Copy>(
    set: int,
    actions: Seq<Action<ID, KeyCode>>,
    values: Seq<Values>,
    n: int,
) -> Seq<ControlEvent<ID>>
    decreases n,
{
    if n <= 0 {
        Seq::empty()
    } else {
        set_events(set, actions, values, n - 1) + action_events(
            set,
            actions[n - 1].id,
            actions[n - 1].is_valid,
            values[n - 1],
        )
    }
}

/// The events of the first `n` sets, set by set.
pub open spec fn control_events<ID, KeyCode: Copy>(
    key_map: Seq<Seq<Action<ID, KeyCode>>>,
    key_values: Seq<Seq<Values>>,
    n: int,
) -> Seq<ControlEvent<ID>>
    decreases n,
{
    if n <= 0 {
        Seq::empty()
    } else {
        control_events(key_map, key_values, n - 1) + set_events(
            n - 1,
            key_map[n - 1],
            key_values[n - 1],
            key_map[n - 1].len() as int,
        )
    }
}

/// `after` is what `before` becomes in a step in which the keys do what
/// `observed` says: every action has the values that `Values::spec_after`
/// gives.
pub open spec fn follows<ID, KeyCode: Copy>(
    key_map: Seq<Seq<Action<ID, KeyCode>>>,
    before: Seq<Seq<Values>>,
    observed: Seq<Seq<KeyState>>,
    after: Seq<Seq<Values>>,
) -> bool {
    &&& observed.len() == key_map.len()
    &&& after.len() == key_map.len()
    &&& forall|s: int|
        0 <= s < key_map.len() ==> (#[trigger] observed[s]).len() == key_map[s].len()
            && (#[trigger] after[s]).len() == key_map[s].len()
    &&& forall|s: int, a: int|
        0 <= s < key_map.len() && 0 <= a < key_map[s].len() ==> #[trigger] after[s][a]
            == before[s][a].spec_after(key_map[s][a].is_valid, observed[s][a])
}

/// Set `s` of `sets`, or an empty set where there are not that many.
pub open spec fn set_or_empty<T>(sets: Seq<Seq<T>>, s: int) -> Seq<T> {
    if 0 <= s < sets.len() {
        sets[s]
    } else {
        Seq::empty()
    }
}

/// The first position in `actions`, from `from` on, of an action named `id`;
/// the length of `actions` where there is none.
pub open spec fn first_action<ID, KeyCode: Copy>(
    actions: Seq<Action<ID, KeyCode>>,
    id: ID,
    from: int,
) -> int
    decreases actions.len() - from,
{
    if from < 0 || from >= actions.len() {
        actions.len() as int
    } else if actions[from].id == id {
        from
    } else {
        first_action(actions, id, from + 1)
    }
}

/// The first set, from `from` on, that has an action named `id`; the number
/// of sets where none has.
pub open spec fn first_set<ID, KeyCode: Copy>(
    key_map: Seq<Seq<Action<ID, KeyCode>>>,
    id: ID,
    from: int,
) -> int
    decreases key_map.len() - from,
{
    if from < 0 || from >= key_map.len() {
        key_map.len() as int
    } else if first_action(key_map[from], id, 0) < key_map[from].len() {
        from
    } else {
        first_set(key_map, id, from + 1)
    }
}

/// `key_map` with the first action named `id` of the set `set` made valid or
/// invalid; `key_map` itself where the set has no such action.
pub open spec fn with_validity<ID, KeyCode: Copy>(
    key_map: Seq<Seq<Action<ID, KeyCode>>>,
    set: usize,
    id: ID,
    valid: bool,
) -> Seq<Seq<Action<ID, KeyCode>>> {
    let actions = key_map[set as int];
    let at = first_action(actions, id, 0);
    if at < actions.len() {
        key_map.update(set as int, actions.update(at, Action { is_valid: valid, ..actions[at] }))
    } else {
        key_map
    }
}

/// The first position in `actions` of an action named `id`, or `None`.
pub fn find_action<ID: Copy + Eq, KeyCode: Copy>(
    actions: &Vec<Action<ID, KeyCode>>,
    id: ID,
) -> (at: Option<usize>)
    requires
        tells_apart::<ID>(),
    ensures
        match at {
            Some(k) => k < actions@.len() && k == first_action(actions@, id, 0),
            None => first_action(actions@, id, 0) == actions@.len(),
        },
{
    let mut k: usize = 0;
    while k < actions.len()
        invariant
            k <= actions@.len(),
            tells_apart::<ID>(),
            first_action(actions@, id, 0) == first_action(actions@, id, k as int),
        decreases actions@.len() - k,
    {
        if actions[k].id == id {
            return Some(k);
        }
        k += 1;
    }
    None
}

/// A keyboard control logic.
///
/// The wrapper keeps what an input handler does not: see `InputWrapper`.
pub struct KeyboardControl<ID, Wrapper: InputWrapper> {
    /// The key maps: which action each key stands for. Each outer entry is one
    /// set of bindings, such as those of one player.
    pub mapping: Vec<Vec<Action<ID, Wrapper::KeyCode>>>,
    /// The values of the actions, set by set as in `mapping`.
    pub values: Vec<Vec<Values>>,
    events: Vec<ControlEvent<ID>>,
    input_wrapper: Wrapper,
}

impl<ID, Wrapper: InputWrapper> KeyboardControl<ID, Wrapper> {
    /// The key maps, set by set.
    pub closed spec fn key_map(&self) -> Seq<Seq<Action<ID, Wrapper::KeyCode>>> {
        Seq::new(self.mapping@.len(), |s: int| self.mapping@[s]@)
    }

    /// The values of the actions, set by set.
    pub closed spec fn key_values(&self) -> Seq<Seq<Values>> {
        Seq::new(self.values@.len(), |s: int| self.values@[s]@)
    }

    /// The events of the last step.
    pub closed spec fn reported(&self) -> Seq<ControlEvent<ID>> {
        self.events@
    }

    /// Every action has its values: there are as many sets of values as of
    /// bindings, and each set of values is as long as its set of bindings.
    pub open spec fn wf(&self) -> bool {
        &&& self.key_values().len() == self.key_map().len()
        &&& forall|s: int|
            0 <= s < self.key_map().len() ==> (#[trigger] self.key_values()[s]).len()
                == self.key_map()[s].len()
    }

    /// Every action that is valid is digital.
    pub open spec fn digital(&self) -> bool {
        forall|s: int, a: int|
            0 <= s < self.key_map().len() && 0 <= a < self.key_map()[s].len() && (
            #[trigger] self.key_map()[s][a]).is_valid ==> self.key_map()[s][a].input_type
                == InputType::Digital
    }

}

impl<ID: Copy + Eq, Wrapper: InputWrapper> KeyboardControl<ID, Wrapper> {
    /// A logic without bindings.
    pub fn new() -> (logic: Self)
        ensures
            logic.wf(),
            logic.key_map().len() == 0,
            logic.reported() == Seq::<ControlEvent<ID>>::empty(),
    {
        Self {
            mapping: Vec::new(),
            values: Vec::new(),
            events: Vec::new(),
            input_wrapper: Wrapper::new(),
        }
    }

    /// The values of the action named `id` in the set `action_set`: those of
    /// the first action with that name, or `None` where the set has none.
    pub fn get_action_in_set(&self, action_set: usize, id: ID) -> (values: Option<Values>)
        requires
            self.wf(),
            tells_apart::<ID>(),
            action_set < self.key_map().len(),
        ensures
            values == ({
                let at = first_action(self.key_map()[action_set as int], id, 0);
                if at < self.key_map()[action_set as int].len() {
                    Some(self.key_values()[action_set as int][at])
                } else {
                    None
                }
            }),
    {
        assert(self.key_values()[action_set as int].len() == self.key_map()[action_set as int].len());
        match find_action(&self.mapping[action_set], id) {
            Some(i) => Some(self.values[action_set][i]),
            None => None,
        }
    }

    /// The values of the action named `id`: those of `get_action_in_set` for the
    /// first set that has such an action, or `None` where no set has one.
    pub fn get_action(&self, id: ID) -> (values: Option<Values>)
        requires
            self.wf(),
            tells_apart::<ID>(),
        ensures
            values == ({
                let set = first_set(self.key_map(), id, 0);
                if set < self.key_map().len() {
                    Some(self.key_values()[set][first_action(self.key_map()[set], id, 0)])
                } else {
                    None
                }
            }),
    {
        let mut i: usize = 0;
        while i < self.mapping.len()
            invariant
                i <= self.key_map().len(),
                self.key_map().len() == self.mapping@.len(),
                self.wf(),
                tells_apart::<ID>(),
                first_set(self.key_map(), id, 0) == first_set(self.key_map(), id, i as int),
            decreases self.mapping@.len() - i,
        {
            if let Some(values) = self.get_action_in_set(i, id) {
                return Some(values);
            }
            i += 1;
        }
        None
    }

    /// Binds a key to an action in the set `locus_idx`, behind the bindings that
    /// the set has. Sets up to that one are made where they do not exist yet. The
    /// action is digital and starts with nothing held.
    pub fn add_key_map(
        &mut self,
        locus_idx: usize,
        keycode: Wrapper::KeyCode,
        id: ID,
        valid: bool,
    )
        requires
            old(self).wf(),
            locus_idx < usize::MAX,
        ensures
            final(self).wf(),
            final(self).reported() == old(self).reported(),
            final(self).key_map().len() == if locus_idx < old(self).key_map().len() {
                old(self).key_map().len() as int
            } else {
                locus_idx + 1
            },
            forall|s: int|
                0 <= s < final(self).key_map().len() && s != locus_idx ==> #[trigger] final(self).key_map()[s] == set_or_empty(old(self).key_map(), s),
            forall|s: int|
                0 <= s < final(self).key_map().len() && s != locus_idx ==> #[trigger] final(self).key_values()[s] == set_or_empty(old(self).key_values(), s),
            final(self).key_map()[locus_idx as int] == set_or_empty(
                old(self).key_map(),
                locus_idx as int,
            ).push(
                Action {
                    id,
                    key_input: KeyInput { keycode },
                    is_valid: valid,
                    input_type: InputType::Digital,
                },
            ),
            final(self).key_values()[locus_idx as int] == set_or_empty(
                old(self).key_values(),
                locus_idx as int,
            ).push(Values::spec_new()),
    {
        while self.mapping.len() <= locus_idx
            invariant
                old(self).wf(),
                self.wf(),
                self.events@ == old(self).events@,
                self.mapping@.len() == self.key_map().len(),
                self.values@.len() == self.key_map().len(),
                old(self).key_map().len() <= self.key_map().len(),
                self.key_map().len() <= old(self).key_map().len() || self.key_map().len()
                    <= locus_idx + 1,
                forall|s: int|
                    0 <= s < self.key_map().len() ==> #[trigger] self.key_map()[s] == set_or_empty(
                        old(self).key_map(),
                        s,
                    ),
                forall|s: int|
                    0 <= s < self.key_map().len() ==> #[trigger] self.key_values()[s]
                        == set_or_empty(old(self).key_values(), s),
            decreases locus_idx + 1 - self.mapping@.len(),
        {
            let ghost key_map = self.key_map();
            let ghost key_values = self.key_values();
            self.mapping.push(Vec::new());
            self.values.push(Vec::new());
            assert(self.key_map() =~~= key_map.push(Seq::empty()));
            assert(self.key_values() =~~= key_values.push(Seq::empty()));
        }
        let ghost key_map = self.key_map();
        let ghost key_values = self.key_values();
        let action = Action::new(id, keycode, InputType::Digital, valid);
        let set_actions = &mut self.mapping[locus_idx];
        set_actions.push(action);
        let set_values = &mut self.values[locus_idx];
        set_values.push(Values::new());
        assert(self.key_map() =~~= key_map.update(
            locus_idx as int,
            key_map[locus_idx as int].push(action),
        ));
        assert(self.key_values() =~~= key_values.update(
            locus_idx as int,
            key_values[locus_idx as int].push(Values::spec_new()),
        ));
    }

    /// Takes out a set of bindings with its values. The sets behind it move down
    /// by one.
    pub fn remove_set(&mut self, set: usize)
        requires
            old(self).wf(),
            set < old(self).key_map().len(),
        ensures
            final(self).wf(),
            final(self).key_map() == old(self).key_map().remove(set as int),
            final(self).key_values() == old(self).key_values().remove(set as int),
            final(self).reported() == old(self).reported(),
    {
        let ghost key_map = self.key_map();
        let ghost key_values = self.key_values();
        self.mapping.remove(set);
        self.values.remove(set);
        assert(self.key_map() =~~= key_map.remove(set as int));
        assert(self.key_values() =~~= key_values.remove(set as int));
    }

    /// The number of sets of bindings.
    pub fn set_count(&self) -> (count: usize)
        requires
            self.wf(),
        ensures
            count == self.key_map().len(),
    {
        self.mapping.len()
    }

    /// Makes the first action named `id` of the set `set` valid or invalid.
    /// Nothing changes where the set has no such action.
    pub(crate) fn set_key_valid(&mut self, set: usize, id: ID, valid: bool)
        requires
            old(self).wf(),
            tells_apart::<ID>(),
            set < old(self).key_map().len(),
        ensures
            final(self).wf(),
            final(self).reported() == old(self).reported(),
            final(self).key_values() == old(self).key_values(),
            final(self).key_map() == with_validity(old(self).key_map(), set, id, valid),
    {
        let found = find_action(&self.mapping[set], id);
        if let Some(at) = found {
            let ghost key_map = self.key_map();
            let action = self.mapping[set][at];
            let set_actions = &mut self.mapping[set];
            set_actions.set(at, Action { is_valid: valid, ..action });
            assert(self.key_map() =~~= key_map.update(
                set as int,
                key_map[set as int].update(at as int, Action { is_valid: valid, ..action }),
            ));
        }
    }

    /// Takes a step: asks the wrapper about the key of every valid action and
    /// brings the values up to date. The events of the step before are
    /// discarded; those of this step are reported action by action.
    ///
    /// What the keys do is not up to the logic. For what they turn out to do,
    /// the new values and the events are those that `follows` and
    /// `control_events` give.
    pub fn update(&mut self, events: &Wrapper::InputHelper)
        requires
            old(self).wf(),
            old(self).digital(),
        ensures
            final(self).wf(),
            final(self).key_map() == old(self).key_map(),
            exists|observed: Seq<Seq<KeyState>>|
                follows(
                    old(self).key_map(),
                    old(self).key_values(),
                    observed,
                    final(self).key_values(),
                ),
            final(self).reported() == control_events(
                final(self).key_map(),
                final(self).key_values(),
                final(self).key_map().len() as int,
            ),
    {
        self.input_wrapper.clear();
        self.events.clear();
        let ghost key_map = self.key_map();
        let ghost before = self.key_values();
        let ghost mut observed: Seq<Seq<KeyState>> = Seq::empty();
        let n: usize = self.mapping.len();
        let mut i: usize = 0;
        while i < n
            invariant
                i <= n,
                n == key_map.len(),
                old(self).wf(),
                old(self).digital(),
                key_map == old(self).key_map(),
                before == old(self).key_values(),
                self.key_map() == key_map,
                self.wf(),
                before.len() == n,
                observed.len() == i,
                forall|s: int|
                    0 <= s < i ==> (#[trigger] observed[s]).len() == key_map[s].len(),
                forall|s: int, a: int|
                    0 <= s < i && 0 <= a < key_map[s].len() ==> #[trigger] self.key_values()[s][a]
                        == before[s][a].spec_after(key_map[s][a].is_valid, observed[s][a]),
                forall|s: int| i <= s < n ==> #[trigger] self.key_values()[s] == before[s],
                self.events@ == control_events(key_map, self.key_values(), i as int),
            decreases n - i,
        {
            let ghost so_far = self.events@;
            let ghost rows = self.key_values();
            let ghost mut row: Seq<KeyState> = Seq::empty();
            let m: usize = self.mapping[i].len();
            let mut j: usize = 0;
            while j < m
                invariant
                    j <= m,
                    i < n,
                    n == key_map.len(),
                    m == key_map[i as int].len(),
                    old(self).digital(),
                    key_map == old(self).key_map(),
                    self.key_map() == key_map,
                    self.wf(),
                    before.len() == n,
                    rows.len() == n,
                    before[i as int].len() == m,
                    row.len() == j,
                    forall|a: int|
                        0 <= a < j ==> #[trigger] self.key_values()[i as int][a]
                            == before[i as int][a].spec_after(
                            key_map[i as int][a].is_valid,
                            row[a],
                        ),
                    forall|a: int|
                        j <= a < m ==> #[trigger] self.key_values()[i as int][a]
                            == before[i as int][a],
                    forall|s: int|
                        0 <= s < n && s != i ==> #[trigger] self.key_values()[s] == rows[s],
                    self.events@ == so_far + set_events(
                        i as int,
                        key_map[i as int],
                        self.key_values()[i as int],
                        j as int,
                    ),
                decreases m - j,
            {
                let ghost values_before = self.key_values();
                let ghost events_before = self.events@;
                let action: Action<ID, Wrapper::KeyCode> = self.mapping[i][j];
                assert(action == key_map[i as int][j as int]);
                let state = if action.is_valid {
                    key_state(&mut self.input_wrapper, &action.key_input.keycode, events)
                } else {
                    KeyState::Up
                };
                let values: Values = self.values[i][j].after(action.is_valid, state);
                let set_values = &mut self.values[i];
                set_values.set(j, values);
                if action.is_valid {
                    if values.changed_by > 0 {
                        self.events.push(
                            ControlEvent {
                                set: i,
                                action_id: action.id,
                                event_type: ControlEventType::KeyPressed,
                            },
                        );
                    } else if values.changed_by < 0 {
                        self.events.push(
                            ControlEvent {
                                set: i,
                                action_id: action.id,
                                event_type: ControlEventType::KeyReleased,
                            },
                        );
                    }
                    let event_type = if values.value != 0 {
                        ControlEventType::KeyHeld
                    } else {
                        ControlEventType::KeyUnheld
                    };
                    self.events.push(ControlEvent { set: i, action_id: action.id, event_type });
                }
                proof {
                    row = row.push(state);
                    assert(self.key_values() =~~= values_before.update(
                        i as int,
                        values_before[i as int].update(j as int, values),
                    ));
                    assert(self.key_map() =~~= key_map);
                    assert forall|s: int| 0 <= s < n && s != i implies
                        #[trigger] self.key_values()[s] == rows[s] by {
                        assert(self.key_values()[s] == values_before[s]);
                    }
                    lemma_set_events_prefix(
                        i as int,
                        key_map[i as int],
                        values_before[i as int],
                        self.key_values()[i as int],
                        j as int,
                    );
                    assert(self.events@ =~= events_before + action_events(
                        i as int,
                        action.id,
                        action.is_valid,
                        values,
                    ));
                }
                j += 1;
            }
            proof {
                observed = observed.push(row);
                let now = self.key_values();
                assert forall|s: int| i < s < n implies #[trigger] now[s] == before[s] by {
                    assert(now[s] == rows[s]);
                }
                lemma_control_events_prefix(key_map, rows, now, i as int);
            }
            i += 1;
        }
        proof {
            assert(follows(key_map, before, observed, self.key_values()));
        }
    }
}

impl EventType for ControlEventType {

}

impl<ID> Event for ControlEvent<ID> {
    type EventType = ControlEventType;

    fn get_type(&self) -> (kind: &ControlEventType)
        ensures
            *kind == self.event_type,
    {
        &self.event_type
    }
}

impl<ID: Copy + Eq, KeyCode: Copy + Eq> Reaction for ControlReaction<ID, KeyCode> {

}

impl<ID: Copy + Eq + 'static, Wrapper: InputWrapper + 'static> Logic for KeyboardControl<
    ID,
    Wrapper,
> {
    type Event = ControlEvent<ID>;

    type Reaction = ControlReaction<ID, Wrapper::KeyCode>;

    /// The index of a set of bindings.
    type Ident = usize;

    type IdentData<'logic> = &'logic mut [Action<ID, Wrapper::KeyCode>];

    type DataIter<'logic> = CtrlDataIter<'logic, ID, Wrapper>;

    open spec fn wf(&self) -> bool {
        &&& self.key_values().len() == self.key_map().len()
        &&& forall|s: int|
            0 <= s < self.key_map().len() ==> (#[trigger] self.key_values()[s]).len()
                == self.key_map()[s].len()
    }

    open spec fn accepts(&self, reaction: &ControlReaction<ID, Wrapper::KeyCode>) -> bool {
        match *reaction {
            ControlReaction::AddKeyToSet(set, _, _, _) => set < usize::MAX,
            ControlReaction::SetKeyValid(set, _) => set < self.key_map().len() && tells_apart::<
                ID,
            >(),
            ControlReaction::SetKeyInvalid(set, _) => set < self.key_map().len() && tells_apart::<
                ID,
            >(),
        }
    }

    open spec fn has(&self, ident: usize) -> bool {
        ident < self.key_map().len()
    }

    /// Binds a key, or makes an action valid or invalid.
    fn handle_predicate(&mut self, reaction: &ControlReaction<ID, Wrapper::KeyCode>)
        ensures
            final(self).reported() == old(self).reported(),
            match *reaction {
                ControlReaction::AddKeyToSet(set, id, keycode, valid) => {
                    &&& final(self).key_map().len() == if set < old(self).key_map().len() {
                        old(self).key_map().len() as int
                    } else {
                        set + 1
                    }
                    &&& forall|s: int|
                        0 <= s < final(self).key_map().len() && s != set ==> #[trigger] final(self).key_map()[s] == set_or_empty(old(self).key_map(), s)
                    &&& forall|s: int|
                        0 <= s < final(self).key_map().len() && s != set ==> #[trigger] final(self).key_values()[s] == set_or_empty(old(self).key_values(), s)
                    &&& final(self).key_map()[set as int] == set_or_empty(
                        old(self).key_map(),
                        set as int,
                    ).push(
                        Action {
                            id,
                            key_input: KeyInput { keycode },
                            is_valid: valid,
                            input_type: InputType::Digital,
                        },
                    )
                    &&& final(self).key_values()[set as int] == set_or_empty(
                        old(self).key_values(),
                        set as int,
                    ).push(Values::spec_new())
                },
                ControlReaction::SetKeyValid(set, id) => {
                    &&& final(self).key_values() == old(self).key_values()
                    &&& final(self).key_map() == with_validity(old(self).key_map(), set, id, true)
                },
                ControlReaction::SetKeyInvalid(set, id) => {
                    &&& final(self).key_values() == old(self).key_values()
                    &&& final(self).key_map() == with_validity(old(self).key_map(), set, id, false)
                },
            },
    {
        match reaction {
            ControlReaction::AddKeyToSet(set, id, key, valid) => {
                self.add_key_map(*set, *key, *id, *valid);
            },
            ControlReaction::SetKeyValid(set, id) => {
                self.set_key_valid(*set, *id, true);
            },
            ControlReaction::SetKeyInvalid(set, id) => {
                self.set_key_valid(*set, *id, false);
            },
        }
    }

    /// The bindings of the set `ident`, to change in place.
    fn get_ident_data(&mut self, ident: usize) -> (actions: &mut [Action<ID, Wrapper::KeyCode>])
        ensures
            actions@ == old(self).key_map()[ident as int],
            final(self).key_map().len() == old(self).key_map().len(),
            final(self).key_map()[ident as int] == final(actions)@,
            forall|s: int|
                0 <= s < old(self).key_map().len() && s != ident ==> #[trigger] final(self).key_map()[s] == old(self).key_map()[s],
            final(self).key_values() == old(self).key_values(),
            final(self).reported() == old(self).reported(),
    {
        let set_actions = &mut self.mapping[ident];
        set_actions.as_mut_slice()
    }

    /// A walk over the sets of bindings, in order.
    fn data_iter(&mut self) -> (iter: CtrlDataIter<'_, ID, Wrapper>)
        ensures
            iter.wf(),
            iter.key_map() == old(self).key_map(),
            iter.position() == 0,
            *final(self) == *old(self),
    {
        CtrlDataIter { control: &*self, count: 0 }
    }

    /// The events of the last step.
    fn events(&self) -> (events: &[ControlEvent<ID>])
        ensures
            events@ == self.reported(),
    {
        self.events.as_slice()
    }
}

/// A walk over the sets of bindings of a control logic.
pub struct CtrlDataIter<'ctrl, ID: Copy + Eq + 'static, Wrapper: InputWrapper + 'static> {
    control: &'ctrl KeyboardControl<ID, Wrapper>,
    count: usize,
}

impl<'ctrl, ID: Copy + Eq + 'static, Wrapper: InputWrapper + 'static> CtrlDataIter<
    'ctrl,
    ID,
    Wrapper,
> {
    /// The key maps that are walked over.
    pub closed spec fn key_map(&self) -> Seq<Seq<Action<ID, Wrapper::KeyCode>>> {
        self.control.key_map()
    }

    /// The index of the set that comes next.
    pub closed spec fn position(&self) -> nat {
        self.count as nat
    }

    /// The walk has not gone past the last set.
    pub closed spec fn wf(&self) -> bool {
        self.count <= self.control.key_map().len()
    }

    /// The next set of bindings with its index, or `None` after the last one.
    pub fn next(&mut self) -> (item: Option<(usize, &[Action<ID, Wrapper::KeyCode>])>)
        requires
            old(self).wf(),
        ensures
            final(self).wf(),
            final(self).key_map() == old(self).key_map(),
            item.is_some() <==> old(self).position() < old(self).key_map().len(),
            item.is_none() ==> final(self).position() == old(self).position(),
            item matches Some((idx, actions)) ==> {
                &&& idx == old(self).position()
                &&& final(self).position() == idx + 1
                &&& actions@ == old(self).key_map()[idx as int]
            },
    {
        if self.count == self.control.mapping.len() {
            None
        } else {
            self.count += 1;
            Some((self.count - 1, self.control.mapping[self.count - 1].as_slice()))
        }
    }
}

/// The events of the first `n` actions of a set depend on the values of those
/// actions alone.
pub proof fn lemma_set_events_prefix<ID, KeyCode: Copy>(
    set: int,
    actions: Seq<Action<ID, KeyCode>>,
    values: Seq<Values>,
    other: Seq<Values>,
    n: int,
)
    requires
        0 <= n <= values.len(),
        n <= other.len(),
        forall|a: int| 0 <= a < n ==> values[a] == other[a],
    ensures
        set_events(set, actions, values, n) == set_events(set, actions, other, n),
    decreases n,
{
    if n > 0 {
        lemma_set_events_prefix(set, actions, values, other, n - 1);
    }
}

/// The events of the first `n` sets depend on the values of those sets alone.
pub proof fn lemma_control_events_prefix<ID, KeyCode: Copy>(
    key_map: Seq<Seq<Action<ID, KeyCode>>>,
    key_values: Seq<Seq<Values>>,
    other: Seq<Seq<Values>>,
    n: int,
)
    requires
        0 <= n <= key_values.len(),
        n <= other.len(),
        forall|s: int| 0 <= s < n ==> key_values[s] == other[s],
    ensures
        control_events(key_map, key_values, n) == control_events(key_map, other, n),
    decreases n,
{
    if n > 0 {
        lemma_control_events_prefix(key_map, key_values, other, n - 1);
    }
}

} // verus!
