use vstd::prelude::*;

use crate::cpu::Chip8Cpu;
use crate::machine::{HEIGHT, WIDTH};

verus! {

/// The colour, as red, green and blue, that a framebuffer cell is shown in:
/// black when dark, white when lit.
pub fn pixel_color(pix: u8) -> (r: (u8, u8, u8))
    ensures
        r == (if pix == 0 {
            (0u8, 0u8, 0u8)
        } else {
            (255u8, 255u8, 255u8)
        }),
{
    if pix == 0 {
        (0, 0, 0)
    } else {
        (255, 255, 255)
    }
}

impl Chip8Cpu {
    /// The framebuffer cell at column `x`, row `y`.
    pub fn pixel(&self, x: usize, y: usize) -> (r: u8)
        requires
            x < WIDTH,
            y < HEIGHT,
        ensures
            r == self.vram@[y * WIDTH + x],
    {
        self.vram[y * WIDTH + x]
    }
}

} // verus!
