//! Which keys of a keyboard are held down.
//!
//! A key event names a key twice: by its scancode, which says where the key
//! is, and, when the key goes down, by its key code, which says what the key
//! means. The handler remembers under which scancode each key code was last
//! seen, and answers by key code.

use vstd::prelude::*;
use std::collections::HashMap;

verus! {

broadcast use vstd::std_specs::hash::group_hash_axioms;

/// One key going down or up.
#[derive(Clone, Copy, PartialEq, Eq, Structural, Debug)]
pub enum KeyEvent {
    Pressed { scancode: u32, keycode: u32 },
    Released { scancode: u32 },
}

/// The keys that are held down, and the scancode of each key code.
pub struct KeyboardHandler {
    keyb: Vec<bool>,
    map: HashMap<u32, u32>,
}

impl KeyboardHandler {
    /// Every scancode that a key code is bound to has a place in the table
    /// of keys.
    pub closed spec fn wf(&self) -> bool {
        forall|code: u32| #[trigger]
            self.map@.contains_key(code) ==> self.map@[code] < self.keyb@.len()
    }

    /// The key with this scancode is held down.
    pub closed spec fn down(&self, scancode: u32) -> bool {
        scancode < self.keyb@.len() && self.keyb@[scancode as int]
    }

    /// The scancode under which each key code was last seen going down.
    pub closed spec fn bindings(&self) -> Map<u32, u32> {
        self.map@
    }

    /// A handler that has seen no event: no key is down, no key code is
    /// bound.
    pub fn new() -> (handler: Self)
        ensures
            handler.wf(),
            forall|scancode: u32| !handler.down(scancode),
            handler.bindings() == Map::<u32, u32>::empty(),
    {
        KeyboardHandler { keyb: vec![false; 128], map: HashMap::with_capacity(128) }
    }

    /// Marks the key at `scancode`, growing the table where it is too short.
    fn mark(&mut self, scancode: u32, held: bool)
        requires
            old(self).wf(),
        ensures
            final(self).wf(),
            forall|s: u32| #[trigger]
                final(self).down(s) == (if s == scancode {
                    held
                } else {
                    old(self).down(s)
                }),
            final(self).bindings() == old(self).bindings(),
            final(self).keyb@.len() > scancode,
    {
        let i = scancode as usize;
        if i >= self.keyb.len() {
            self.keyb.resize(i, false);
            self.keyb.push(held);
        } else {
            self.keyb.set(i, held);
        }
    }

    /// Takes note of one key event. A key that goes down is held from then
    /// on, and its key code is bound to its scancode. A key that goes up is
    /// held no more.
    pub fn handle(&mut self, key_ev: &KeyEvent)
        requires
            old(self).wf(),
        ensures
            final(self).wf(),
            match *key_ev {
                KeyEvent::Pressed { scancode, keycode } => {
                    &&& forall|s: u32| #[trigger]
                        final(self).down(s) == (s == scancode || old(self).down(s))
                    &&& final(self).bindings() == old(self).bindings().insert(keycode, scancode)
                },
                KeyEvent::Released { scancode } => {
                    &&& forall|s: u32| #[trigger]
                        final(self).down(s) == (s != scancode && old(self).down(s))
                    &&& final(self).bindings() == old(self).bindings()
                },
            },
    {
        match *key_ev {
            KeyEvent::Pressed { scancode, keycode } => {
                self.mark(scancode, true);
                let ghost marked = *self;
                self.map.insert(keycode, scancode);
                proof {
                    assert forall|s: u32| #[trigger] self.down(s) == marked.down(s) by {}
                }
            },
            KeyEvent::Released { scancode } => {
                self.mark(scancode, false);
            },
        }
    }

    /// Whether the key with this key code is held down, if the key code has
    /// been seen.
    pub fn is_pressed(&self, code: u32) -> (held: Option<bool>)
        requires
            self.wf(),
        ensures
            held == (if self.bindings().contains_key(code) {
                Some(self.down(self.bindings()[code]))
            } else {
                None::<bool>
            }),
    {
        match self.map.get(&code) {
            Some(scancode) => {
                let i = *scancode as usize;
                Some(self.keyb[i])
            },
            None => None,
        }
    }
}

} // verus!
