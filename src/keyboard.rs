use vstd::prelude::*;

verus! {

/// Number of keys on the hexadecimal keypad.
pub const KEY_COUNT: usize = 16;

/// Whether key `code` is held in `keys`; codes beyond the keypad are never held.
pub open spec fn key_held(keys: Seq<bool>, code: int) -> bool {
    0 <= code < KEY_COUNT && keys[code]
}

/// Whether `code` is the lowest key held in `keys`.
pub open spec fn lowest_held(keys: Seq<bool>, code: int) -> bool {
    &&& key_held(keys, code)
    &&& forall|j: int| 0 <= j < code ==> !#[trigger] key_held(keys, j)
}

pub open spec fn none_held(keys: Seq<bool>) -> bool {
    forall|j: int| 0 <= j < KEY_COUNT ==> !#[trigger] key_held(keys, j)
}

pub struct Keyboard {
    pub keys: [bool; 16],
}

impl Keyboard {
    pub fn new() -> (k: Keyboard)
        ensures
            none_held(k.keys@),
    {
        Keyboard { keys: [false; 16] }
    }

    pub fn set_pressed(&mut self, code: u8, pressed: bool)
        requires
            code < KEY_COUNT,
        ensures
            final(self).keys@ == old(self).keys@.update(code as int, pressed),
    {
        self.keys[code as usize] = pressed;
    }

    pub fn key_pressed(&self, code: u8) -> (r: bool)
        ensures
            r == key_held(self.keys@, code as int),
    {
        (code as usize) < KEY_COUNT && self.keys[code as usize]
    }

    /// The lowest key code that is held, if any.
    pub fn first_pressed_key(&self) -> (r: Option<u8>)
        ensures
            match r {
                Some(code) => lowest_held(self.keys@, code as int),
                None => none_held(self.keys@),
            },
    {
        let mut code: usize = 0;
        while code < KEY_COUNT
            invariant
                code <= KEY_COUNT,
                forall|j: int| 0 <= j < code ==> !#[trigger] key_held(self.keys@, j),
            decreases KEY_COUNT - code,
        {
            if self.keys[code] {
                return Some(code as u8);
            }
            code = code + 1;
        }
        None
    }
}

} // verus!
