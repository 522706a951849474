//! Conversion of the display into an RGBA pixel frame.

use vstd::prelude::*;

verus! {

/// The RGBA bytes of a cell: opaque white when lit, opaque black when not.
pub open spec fn rgba(on: bool, channel: int) -> u8 {
    if channel == 3 || on {
        0xFF
    } else {
        0x00
    }
}

/// Paints `frame` four bytes per cell, in row-major order: cell `c` fills bytes `4c .. 4c + 4`.
/// Trailing bytes that do not make up a whole pixel are left as they are.
pub fn draw(frame: &mut [u8], vram: &[bool; 2048])
    requires
        old(frame)@.len() / 4 <= 2048,
    ensures
        final(frame)@.len() == old(frame)@.len(),
        forall|b: int|
            0 <= b < old(frame)@.len() ==> #[trigger] final(frame)@[b] == if b < old(frame)@.len() / 4 * 4 {
                rgba(vram@[b / 4], b % 4)
            } else {
                old(frame)@[b]
            },
{
    let ghost f0 = frame@;
    let pixels = frame.len() / 4;
    let mut p: usize = 0;
    while p < pixels
        invariant
            pixels == f0.len() / 4,
            pixels <= 2048,
            p <= pixels,
            frame@.len() == f0.len(),
            forall|b: int|
                0 <= b < f0.len() ==> #[trigger] frame@[b] == if b < p * 4 {
                    rgba(vram@[b / 4], b % 4)
                } else {
                    f0[b]
                },
        decreases pixels - p,
    {
        let level: u8 = if vram[p] { 0xFF } else { 0x00 };
        frame[4 * p] = level;
        frame[4 * p + 1] = level;
        frame[4 * p + 2] = level;
        frame[4 * p + 3] = 0xFF;
        p = p + 1;
    }
}

} // verus!
