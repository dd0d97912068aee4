//! The canvas and the canvas service's 4-byte command format.

use vstd::prelude::*;

verus! {

/// Width of the remote canvas, in pixels.
pub const MAX_WIDTH: u32 = 1590;

/// Height of the remote canvas, in pixels.
pub const MAX_HEIGHT: u32 = 400;

/// Number of pixels on the canvas: the weight of the colour index in a
/// command.
pub const SIZE: u32 = 636000;

/// The number that a command carries for colour `color_id` at `(x, y)`.
pub open spec fn wire_value(x: int, y: int, color_id: int) -> int {
    x + y * MAX_WIDTH + color_id * SIZE
}

/// The four bytes of `value`, least significant first.
pub open spec fn le_bytes(value: int) -> Seq<u8> {
    seq![
        (value % 0x100) as u8,
        ((value / 0x100) % 0x100) as u8,
        ((value / 0x1_0000) % 0x100) as u8,
        ((value / 0x100_0000) % 0x100) as u8,
    ]
}

/// The number that four bytes spell, least significant first.
pub open spec fn le_value(bytes: Seq<u8>) -> int {
    bytes[0] + bytes[1] * 0x100 + bytes[2] * 0x1_0000 + bytes[3] * 0x100_0000
}

/// The four bytes of a signed 32-bit value that is not negative spell it
/// back: the command is the little-endian form of its number.
pub proof fn lemma_le_bytes_spell_value(value: int)
    requires
        0 <= value <= i32::MAX,
    ensures
        le_bytes(value).len() == 4,
        le_value(le_bytes(value)) == value,
{
}

} // verus!
