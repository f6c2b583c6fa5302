//! Debug controls of the viewer: which keys are held down, and how the
//! chunk is to be drawn while they are.

use vstd::prelude::*;

verus! {

/// A key of the keyboard. `T` toggles the wireframe; every other key is
/// known by its code alone.
#[derive(Clone, Copy, Debug, PartialEq, Eq, Structural)]
pub enum Key {
    T,
    Other(u32),
}

/// Whether a key went down or came up.
#[derive(Clone, Copy, Debug, PartialEq, Eq, Structural)]
pub enum ElementState {
    Pressed,
    Released,
}

/// What the keyboard reports of one key: its new state and, where the
/// platform could name it, the key.
#[derive(Clone, Copy, Debug, PartialEq, Eq)]
pub struct KeyboardInput {
    pub state: ElementState,
    pub virtual_keycode: Option<Key>,
}

/// An event of an input device. Only keyboard events matter here.
#[derive(Clone, Copy, Debug, PartialEq, Eq)]
pub enum DeviceEvent {
    Key(KeyboardInput),
    Other,
}

/// How polygons are rasterised.
#[derive(Clone, Copy, Debug, PartialEq, Eq, Structural)]
pub enum PolygonMode {
    Line,
    Fill,
}

/// The keys that are held down, in the order in which they went down.
pub struct Debug {
    keys: Vec<Key>,
}

/// The held keys after an event: a pressed key joins at the end unless it is
/// already held, a released key leaves, and any other event changes nothing.
pub open spec fn after_event(held: Seq<Key>, e: DeviceEvent) -> Seq<Key> {
    match e {
        DeviceEvent::Key(KeyboardInput { state, virtual_keycode: Some(key) }) => match state {
            ElementState::Pressed => if held.contains(key) {
                held
            } else {
                held.push(key)
            },
            ElementState::Released => held.remove_value(key),
        },
        _ => held,
    }
}

/// How to draw while the given keys are held: wireframe with `T`, filled
/// polygons without.
pub open spec fn draw_state(held: Seq<Key>) -> PolygonMode {
    if held.contains(Key::T) {
        PolygonMode::Line
    } else {
        PolygonMode::Fill
    }
}

/// An event that names its key, or is no keyboard event at all.
pub open spec fn names_key(e: DeviceEvent) -> bool {
    match e {
        DeviceEvent::Key(input) => input.virtual_keycode is Some,
        DeviceEvent::Other => true,
    }
}

/// While no key is held twice, the sequence of held keys follows the
/// keyboard: after an event a key is held exactly if it was just pressed, or
/// was held before and was not just released. No key comes to be held twice.
pub proof fn lemma_after_event_tracks_keys(held: Seq<Key>, e: DeviceEvent, key: Key)
    requires
        held.no_duplicates(),
    ensures
        after_event(held, e).no_duplicates(),
        after_event(held, e).contains(key) <==> match e {
            DeviceEvent::Key(
                KeyboardInput { state: ElementState::Pressed, virtual_keycode: Some(pressed) },
            ) => key == pressed || held.contains(key),
            DeviceEvent::Key(
                KeyboardInput { state: ElementState::Released, virtual_keycode: Some(released) },
            ) => key != released && held.contains(key),
            _ => held.contains(key),
        },
{
    let next = after_event(held, e);
    match e {
        DeviceEvent::Key(
            KeyboardInput { state: ElementState::Pressed, virtual_keycode: Some(pressed) },
        ) => {
            if !held.contains(pressed) {
                assert(next[held.len() as int] == pressed);
                if held.contains(key) {
                    let i = choose|i: int| 0 <= i < held.len() && held[i] == key;
                    assert(next[i] == key);
                }
            }
        },
        DeviceEvent::Key(
            KeyboardInput { state: ElementState::Released, virtual_keycode: Some(released) },
        ) => {
            held.index_of_first_ensures(released);
            match held.index_of_first(released) {
                Some(at) => {
                    assert(next =~= held.remove(at));
                    assert forall|i: int| 0 <= i < next.len() implies next[i] == held[if i < at {
                        i
                    } else {
                        i + 1
                    }] by {}
                    if key != released && held.contains(key) {
                        let i = choose|i: int| 0 <= i < held.len() && held[i] == key;
                        assert(next[if i < at {
                            i
                        } else {
                            i - 1
                        }] == key);
                    }
                },
                None => {},
            }
        },
        _ => {},
    }
}

impl Debug {
    /// The held keys, oldest first.
    pub closed spec fn held(&self) -> Seq<Key> {
        self.keys@
    }

    /// No key is held twice.
    pub open spec fn wf(&self) -> bool {
        self.held().no_duplicates()
    }

    /// No key is held.
    pub fn new() -> (debug: Debug)
        ensures
            debug.held() == Seq::<Key>::empty(),
            debug.wf(),
    {
        Debug { keys: Vec::new() }
    }

    /// The held keys, oldest first.
    pub fn keys(&self) -> (keys: &Vec<Key>)
        ensures
            keys@ == self.held(),
    {
        &self.keys
    }

    /// The place of the first occurrence of `key` among the held keys.
    fn position(&self, key: Key) -> (at: Option<usize>)
        ensures
            match at {
                Some(i) => i < self.held().len() && self.held()[i as int] == key && forall|j: int|
                    0 <= j < i ==> self.held()[j] != key,
                None => !self.held().contains(key),
            },
    {
        let mut i: usize = 0;
        while i < self.keys.len()
            invariant
                i <= self.keys@.len(),
                forall|j: int| 0 <= j < i ==> self.keys@[j] != key,
            decreases self.keys@.len() - i,
        {
            if self.keys[i] == key {
                return Some(i);
            }
            i += 1;
        }
        None
    }

    /// Wireframe while `T` is held, filled polygons otherwise.
    pub fn get_draw_state(&self) -> (mode: PolygonMode)
        ensures
            mode == draw_state(self.held()),
    {
        match self.position(Key::T) {
            Some(_) => PolygonMode::Line,
            None => PolygonMode::Fill,
        }
    }

    /// Follows one device event: a pressed key is taken up unless it is held
    /// already, a released key is dropped, anything else is ignored. A
    /// keyboard event must name its key.
    pub fn parse_input(&mut self, e: &DeviceEvent)
        requires
            names_key(*e),
        ensures
            final(self).held() == after_event(old(self).held(), *e),
            old(self).wf() ==> final(self).wf(),
    {
        proof {
            if self.wf() {
                lemma_after_event_tracks_keys(self.held(), *e, Key::T);
            }
        }
        match e {
            DeviceEvent::Key(input) => {
                let virtual_keycode = input.virtual_keycode.unwrap();
                proof {
                    self.held().index_of_first_ensures(virtual_keycode);
                }
                match input.state {
                    ElementState::Pressed => {
                        if self.position(virtual_keycode).is_none() {
                            self.keys.push(virtual_keycode);
                        }
                    },
                    ElementState::Released => {
                        if let Some(i) = self.position(virtual_keycode) {
                            self.keys.remove(i);
                        }
                    },
                }
            },
            _ => (),
        }
    }
}

} // verus!
