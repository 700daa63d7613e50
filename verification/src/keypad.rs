//! The sixteen-key input latch, and the mapping from host keys to CHIP-8
//! key indices.

use vstd::prelude::*;

verus! {

/// Where a host key lands on the CHIP-8 pad:
/// `1 2 3 4 / Q W E R / A S D F / Z X C V` map to
/// `1 2 3 C / 4 5 6 D / 7 8 9 E / A 0 B F`.
pub open spec fn key_map(host_key: char) -> Option<u8> {
    match host_key {
        '1' => Some(0x1u8),
        '2' => Some(0x2u8),
        '3' => Some(0x3u8),
        '4' => Some(0xcu8),
        'q' => Some(0x4u8),
        'w' => Some(0x5u8),
        'e' => Some(0x6u8),
        'r' => Some(0xdu8),
        'a' => Some(0x7u8),
        's' => Some(0x8u8),
        'd' => Some(0x9u8),
        'f' => Some(0xeu8),
        'z' => Some(0xau8),
        'x' => Some(0x0u8),
        'c' => Some(0xbu8),
        'v' => Some(0xfu8),
        _ => None,
    }
}

/// The CHIP-8 key index a lower-case host key drives, if any.
pub fn key_index_for(host_key: char) -> (r: Option<u8>)
    ensures
        r == key_map(host_key),
        r matches Some(k) ==> k < 16,
{
    match host_key {
        '1' => Some(0x1),
        '2' => Some(0x2),
        '3' => Some(0x3),
        '4' => Some(0xc),
        'q' => Some(0x4),
        'w' => Some(0x5),
        'e' => Some(0x6),
        'r' => Some(0xd),
        'a' => Some(0x7),
        's' => Some(0x8),
        'd' => Some(0x9),
        'f' => Some(0xe),
        'z' => Some(0xa),
        'x' => Some(0x0),
        'c' => Some(0xb),
        'v' => Some(0xf),
        _ => None,
    }
}

pub struct Keypad {
    keys: Vec<bool>,
}

impl View for Keypad {
    type V = Seq<bool>;

    closed spec fn view(&self) -> Seq<bool> {
        self.keys@
    }
}

impl Keypad {
    /// A pad with every key up.
    pub fn new() -> (r: Keypad)
        ensures
            r@.len() == 16,
            forall|j: int| 0 <= j < 16 ==> !r@[j],
    {
        let mut keys: Vec<bool> = Vec::new();
        for k in 0..16usize
            invariant
                keys@.len() == k,
                forall|j: int| 0 <= j < k ==> !keys@[j],
        {
            keys.push(false);
        }
        Keypad { keys }
    }

    /// Latch key `index` down or up.
    pub fn set(&mut self, index: u8, pressed: bool)
        requires
            old(self)@.len() == 16,
            index < 16,
        ensures
            final(self)@ == old(self)@.update(index as int, pressed),
    {
        self.keys[index as usize] = pressed;
    }

    /// Whether key `index` is currently down.
    pub fn is_down(&self, index: u8) -> (r: bool)
        requires
            self@.len() == 16,
            index < 16,
        ensures
            r == self@[index as int],
    {
        self.keys[index as usize]
    }
}

} // verus!
