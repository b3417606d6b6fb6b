//! The input latch: sixteen logical keys (0x0..0xF) with per-key held
//! state, plus the most recently pressed key that is still held.  The
//! external event source translates physical keys to logical ones and
//! calls `press_key` / `release_key`; the execution engine only reads.
//!
//! Policy: `last_pressed` tracks the single most recent press and is
//! cleared when that key is released; it does not fall back to keys
//! pressed earlier and still held.  The key-down and key-not-down skips
//! read the per-key array; wait-for-key reads `last_pressed`.

use vstd::prelude::*;

verus! {

/// Per-key held state for the sixteen logical keys, plus the most recent
/// still-held press.
pub struct Controller {
    pub pressed: Vec<bool>,
    pub last_pressed: Option<u8>,
}

/// Whether logical key `k` is held, per a held-state sequence.  Keys
/// outside 0x0..0xF are never held.
pub open spec fn key_held(keys: Seq<bool>, k: u8) -> bool {
    k < 16 && keys[k as int]
}

impl Controller {
    /// One held-state entry per logical key, and the latched key, if any,
    /// is a logical key.
    pub open spec fn wf(&self) -> bool {
        &&& self.pressed@.len() == 16
        &&& match self.last_pressed {
            Some(k) => k < 16,
            None => true,
        }
    }

    /// A fresh latch: no key held, none latched.
    pub fn new() -> (c: Controller)
        ensures
            c.wf(),
            forall|k: int| 0 <= k < 16 ==> !c.pressed@[k],
            c.last_pressed is None,
    {
        let mut pressed: Vec<bool> = Vec::new();
        let mut i: usize = 0;
        while i < 16
            invariant
                i <= 16,
                pressed@.len() == i,
                forall|j: int| 0 <= j < i ==> !pressed@[j],
            decreases 16 - i,
        {
            pressed.push(false);
            i += 1;
        }
        Controller { pressed, last_pressed: None }
    }

    /// Records that logical key `key` went down: it becomes held and is
    /// latched as the most recent press.  A value outside 0x0..0xF names
    /// no logical key and changes nothing.
    pub fn press_key(&mut self, key: u8)
        requires
            old(self).wf(),
        ensures
            final(self).wf(),
            key < 16 ==> {
                &&& final(self).pressed@ == old(self).pressed@.update(key as int, true)
                &&& final(self).last_pressed == Some(key)
            },
            key >= 16 ==> *final(self) == *old(self),
    {
        if key < 16 {
            self.pressed.set(key as usize, true);
            self.last_pressed = Some(key);
        }
    }

    /// Records that logical key `key` went up: it is no longer held, and
    /// if it was the latched key the latch empties.  A value outside
    /// 0x0..0xF names no logical key and changes nothing.
    pub fn release_key(&mut self, key: u8)
        requires
            old(self).wf(),
        ensures
            final(self).wf(),
            key < 16 ==> {
                &&& final(self).pressed@ == old(self).pressed@.update(key as int, false)
                &&& final(self).last_pressed == (if old(self).last_pressed == Some(key) {
                    None::<u8>
                } else {
                    old(self).last_pressed
                })
            },
            key >= 16 ==> *final(self) == *old(self),
    {
        if key < 16 {
            self.pressed.set(key as usize, false);
            let clear_latch = match self.last_pressed {
                Some(latched) => latched == key,
                None => false,
            };
            if clear_latch {
                self.last_pressed = None;
            }
        }
    }

    /// Whether logical key `key` is currently held.  Values outside
    /// 0x0..0xF are never held.
    pub fn is_key_pressed(&self, key: u8) -> (held: bool)
        requires
            self.wf(),
        ensures
            held == key_held(self.pressed@, key),
    {
        if key < 16 {
            self.pressed[key as usize]
        } else {
            false
        }
    }
}

impl Default for Controller {
    /// Same as `Controller::new`.
    fn default() -> (c: Controller)
        ensures
            c.wf(),
            forall|k: int| 0 <= k < 16 ==> !c.pressed@[k],
            c.last_pressed is None,
    {
        Controller::new()
    }
}

} // verus!
