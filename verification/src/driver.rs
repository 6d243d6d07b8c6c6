//! The rules that a driver of the interpreter follows: which key of the
//! machine each key of the keyboard block stands for, how many cycles make
//! one tick, and when the tone starts and stops.

use vstd::prelude::*;
use crate::machine::key_down;

verus! {

/// Number of ticks per second.
pub const TICK_RATE: u32 = 60;

/// The machine key that stands at each position of a 4 x 4 block of keyboard
/// keys, row by row:
///
/// ```text
/// 1 2 3 C
/// 4 5 6 D
/// 7 8 9 E
/// A 0 B F
/// ```
pub const KEY_LAYOUT: [u8; 16] = [
    0x1, 0x2, 0x3, 0xC,
    0x4, 0x5, 0x6, 0xD,
    0x7, 0x8, 0x9, 0xE,
    0xA, 0x0, 0xB, 0xF,
];

/// The position of machine key `key` in the block.
pub open spec fn position_of(key: u8) -> int {
    if key == 0x1 {
        0
    } else if key == 0x2 {
        1
    } else if key == 0x3 {
        2
    } else if key == 0xC {
        3
    } else if key == 0x4 {
        4
    } else if key == 0x5 {
        5
    } else if key == 0x6 {
        6
    } else if key == 0xD {
        7
    } else if key == 0x7 {
        8
    } else if key == 0x8 {
        9
    } else if key == 0x9 {
        10
    } else if key == 0xE {
        11
    } else if key == 0xA {
        12
    } else if key == 0x0 {
        13
    } else if key == 0xB {
        14
    } else {
        15
    }
}

/// Every machine key stands at exactly one position of the block: the
/// layout and `position_of` are inverse to each other.
pub proof fn law_layout_is_permutation()
    ensures
        forall|p: int| 0 <= p < 16 ==> position_of(#[trigger] KEY_LAYOUT@[p]) == p,
        forall|key: u8|
            key < 16 ==> 0 <= #[trigger] position_of(key) < 16 && KEY_LAYOUT@[position_of(key)]
                == key,
{
}

/// What the driver does with the tone after a tick.
#[derive(Clone, Copy, Debug, PartialEq, Eq, Structural)]
pub enum BeepAction {
    /// Start the looped tone.
    Start,
    /// Stop the tone.
    Stop,
    /// Leave the tone as it is.
    Keep,
}

/// The key snapshot for the keyboard block: `down[p]` says whether the key
/// at position `p` of the block is held down, and each machine key is down
/// in the snapshot exactly if the key at its position is.
pub fn keys_from_layout(down: &[bool; 16]) -> (keys: u16)
    ensures
        forall|key: u8|
            key < 16 ==> (#[trigger] key_down(keys, key) <==> down@[position_of(key)]),
{
    let mut keys: u16 = 0;
    assert(forall|k: u16| k < 16 ==> #[trigger] (0u16 >> k) & 1 == 0) by (bit_vector);
    let mut position: usize = 0;
    while position < 16
        invariant
            position <= 16,
            forall|p: int|
                0 <= p < position ==> (key_down(keys, #[trigger] KEY_LAYOUT@[p]) <==> down@[p]),
            forall|p: int| position <= p < 16 ==> !key_down(keys, #[trigger] KEY_LAYOUT@[p]),
        decreases 16 - position,
    {
        if down[position] {
            let key = KEY_LAYOUT[position];
            let ghost earlier = keys;
            assert(forall|j: u16|
                j < 16 ==> (#[trigger] ((earlier | (1u16 << (key as u16))) >> j) & 1 == 1 <==> (j
                    == key as u16 || (earlier >> j) & 1 == 1))) by (bit_vector)
                requires
                    key < 16,
            ;
            keys = keys | (1u16 << (key as u16));
            assert forall|p: int| 0 <= p < 16 implies (key_down(keys, #[trigger] KEY_LAYOUT@[p])
                <==> (p == position || key_down(earlier, KEY_LAYOUT@[p]))) by {
                let j = KEY_LAYOUT@[p] as u16;
                assert(j < 16);
                assert(((earlier | (1u16 << (key as u16))) >> j) & 1 == 1 <==> (j == key as u16
                    || (earlier >> j) & 1 == 1));
            }
        }
        position += 1;
    }
    proof {
        law_layout_is_permutation();
        assert forall|key: u8| key < 16 implies (#[trigger] key_down(keys, key)
            <==> down@[position_of(key)]) by {
            assert(KEY_LAYOUT@[position_of(key)] == key);
        }
    }
    keys
}

/// The number of cycles per tick for a clock of `clock_hz` cycles per
/// second, with 60 ticks per second.
pub fn cycles_per_tick(clock_hz: u32) -> (cycles: u32)
    ensures
        cycles == clock_hz / 60,
{
    clock_hz / TICK_RATE
}

/// What to do with the tone: start it when the machine begins to beep, stop
/// it when the machine ceases to.
pub fn beep_transition(was_beeping: bool, is_beeping: bool) -> (action: BeepAction)
    ensures
        action == if is_beeping && !was_beeping {
            BeepAction::Start
        } else if !is_beeping && was_beeping {
            BeepAction::Stop
        } else {
            BeepAction::Keep
        },
{
    if is_beeping && !was_beeping {
        BeepAction::Start
    } else if !is_beeping && was_beeping {
        BeepAction::Stop
    } else {
        BeepAction::Keep
    }
}

} // verus!
