use vstd::prelude::*;

verus! {

/// Key bits; a set bit means the key is pressed.
pub const KEY_A: u16 = 1;
pub const KEY_B: u16 = 2;
pub const KEY_SELECT: u16 = 4;
pub const KEY_START: u16 = 8;
pub const KEY_RIGHT: u16 = 16;
pub const KEY_LEFT: u16 = 32;
pub const KEY_UP: u16 = 64;
pub const KEY_DOWN: u16 = 128;
pub const KEY_R: u16 = 256;
pub const KEY_L: u16 = 512;

/// The keys pressed this frame and the frame before.
#[derive(Clone, Copy, PartialEq, Eq, Structural, Debug)]
pub struct KeysResponse {
    pub keys: u16,
    pub prev_keys: u16,
}

impl KeysResponse {
    pub fn new(keys: u16, prev_keys: u16) -> (r: Self)
        ensures
            r.keys == keys,
            r.prev_keys == prev_keys,
    {
        KeysResponse { keys, prev_keys }
    }

    /// All of `key` are down now and none was the frame before.
    pub open spec fn just_pressed(self, key: u16) -> bool {
        (self.keys & key) == key && (self.prev_keys & key) == 0
    }

    /// Some of `key` is down.
    pub open spec fn pressed(self, key: u16) -> bool {
        self.keys & key != 0
    }

    pub fn is_just_pressed(&self, key: u16) -> (r: bool)
        ensures
            r == self.just_pressed(key),
    {
        (self.keys & key) == key && (self.prev_keys & key) == 0
    }

    pub fn is_just_released(&self, key: u16) -> (r: bool)
        ensures
            r == ((self.keys & key) == 0 && (self.prev_keys & key) == key),
    {
        (self.keys & key) == 0 && (self.prev_keys & key) == key
    }

    pub fn is_held(&self, key: u16) -> (r: bool)
        ensures
            r == ((self.keys & key) == (self.prev_keys & key) && (self.keys & key) != 0),
    {
        (self.keys & key) == (self.prev_keys & key) && (self.keys & key) != 0
    }

    pub fn is_up(&self, key: u16) -> (r: bool)
        ensures
            r == ((self.keys & key) == 0),
    {
        (self.keys & key) == 0
    }

    pub fn is_down(&self, key: u16) -> (r: bool)
        ensures
            r == ((self.keys & key) == key),
    {
        (self.keys & key) == key
    }

    pub fn left(&self) -> (r: bool)
        ensures
            r == self.pressed(KEY_LEFT),
    {
        self.keys & KEY_LEFT != 0
    }

    pub fn right(&self) -> (r: bool)
        ensures
            r == self.pressed(KEY_RIGHT),
    {
        self.keys & KEY_RIGHT != 0
    }

    pub fn up(&self) -> (r: bool)
        ensures
            r == self.pressed(KEY_UP),
    {
        self.keys & KEY_UP != 0
    }

    pub fn down(&self) -> (r: bool)
        ensures
            r == self.pressed(KEY_DOWN),
    {
        self.keys & KEY_DOWN != 0
    }

    pub fn a(&self) -> (r: bool)
        ensures
            r == self.pressed(KEY_A),
    {
        self.keys & KEY_A != 0
    }

    pub fn b(&self) -> (r: bool)
        ensures
            r == self.pressed(KEY_B),
    {
        self.keys & KEY_B != 0
    }

    pub fn start(&self) -> (r: bool)
        ensures
            r == self.pressed(KEY_START),
    {
        self.keys & KEY_START != 0
    }

    pub fn select(&self) -> (r: bool)
        ensures
            r == self.pressed(KEY_SELECT),
    {
        self.keys & KEY_SELECT != 0
    }

    pub fn r(&self) -> (r: bool)
        ensures
            r == self.pressed(KEY_R),
    {
        self.keys & KEY_R != 0
    }

    pub fn l(&self) -> (r: bool)
        ensures
            r == self.pressed(KEY_L),
    {
        self.keys & KEY_L != 0
    }
}

} // verus!
