use vstd::prelude::*;

verus! {

/// Bytes of addressable memory.
pub const RAM: usize = 4096;
/// Framebuffer width in pixels.
pub const WIDTH: usize = 64;
/// Framebuffer height in pixels.
pub const HEIGHT: usize = 32;
/// Framebuffer cells, one byte per pixel, row-major.
pub const VRAM: usize = 2048;
/// Address at which programs are loaded and execution starts.
pub const PROG_START: usize = 0x200;
/// Number of calls that may be in progress at once.
pub const STACK_DEPTH: usize = 16;
/// Number of return-address slots: slot 0 is never used.
pub const STACK_SLOTS: usize = 17;
/// Bytes of the built-in hexadecimal font, stored from address 0.
pub const FONT_LEN: usize = 80;
/// Bytes in one font glyph.
pub const GLYPH_LEN: usize = 5;
/// Index of the flag register `VF`.
pub const VF: usize = 0xF;
/// Largest value of the index register.
pub const I_MAX: usize = 0xFFFF;

/// A fatal condition that stops the machine; the state is left as it was
/// before the instruction that caused it.
#[derive(Debug, Clone, Copy, PartialEq, Eq, Structural)]
pub enum Fault {
    /// A call with every stack slot in use.
    StackOverflow,
    /// A return with an empty stack.
    StackUnderflow,
    /// A memory access past the last byte of memory.
    AddressOutOfRange,
    /// The program counter does not name a whole instruction in memory.
    PcOutOfRange,
}

/// The 80-byte font: glyphs 0 to F, five rows each, most significant bit
/// leftmost.
pub open spec fn font() -> Seq<u8> {
    seq![
        0xF0u8, 0x90, 0x90, 0x90, 0xF0, 0x20, 0x60, 0x20, 0x20, 0x70,
        0xF0, 0x10, 0xF0, 0x80, 0xF0, 0xF0, 0x10, 0xF0, 0x10, 0xF0,
        0x90, 0x90, 0xF0, 0x10, 0x10, 0xF0, 0x80, 0xF0, 0x10, 0xF0,
        0xF0, 0x80, 0xF0, 0x90, 0xF0, 0xF0, 0x10, 0x20, 0x40, 0x40,
        0xF0, 0x90, 0xF0, 0x90, 0xF0, 0xF0, 0x90, 0xF0, 0x10, 0xF0,
        0xF0, 0x90, 0xF0, 0x90, 0x90, 0xE0, 0x90, 0xE0, 0x90, 0xE0,
        0xF0, 0x80, 0x80, 0x80, 0xF0, 0xE0, 0x90, 0x90, 0x90, 0xE0,
        0xF0, 0x80, 0xF0, 0x80, 0xF0, 0xF0, 0x80, 0xF0, 0x80, 0x80,
    ]
}

/// The abstract state of the machine.
pub struct CpuState {
    /// General registers `V0` to `VF`.
    pub v: Seq<u8>,
    /// Index register.
    pub i: int,
    /// Delay timer.
    pub delay: u8,
    /// Sound timer.
    pub sound: u8,
    /// Program counter.
    pub pc: int,
    /// Slot of the top return address; 0 when the stack is empty, so it
    /// also counts the calls in progress.
    pub sp: int,
    /// Return-address slots, each holding the address of the instruction
    /// after a call; slot 0 stays unused, so calls nest 16 deep.
    pub stack: Seq<usize>,
    /// Memory.
    pub ram: Seq<u8>,
    /// Framebuffer, cell `(x, y)` at `y * WIDTH + x`.
    pub vram: Seq<u8>,
    /// The framebuffer changed during the last tick.
    pub vram_update: bool,
    /// The tone should sound during this tick.
    pub beep: bool,
    /// Whether `Fx1E` reports an index past the addressable range in `VF`.
    pub vf_on_index_overflow: bool,
}

/// 1 for true, 0 for false.
pub open spec fn flag(b: bool) -> u8 {
    if b { 1 } else { 0 }
}

impl CpuState {
    /// Sizes and ranges that every reachable state keeps.
    pub open spec fn wf(&self) -> bool {
        &&& self.v.len() == 16
        &&& self.stack.len() == STACK_SLOTS
        &&& self.ram.len() == RAM
        &&& self.vram.len() == VRAM
        &&& 0 <= self.i <= I_MAX
        &&& 0 <= self.pc
        &&& 0 <= self.sp <= STACK_DEPTH
        &&& forall|c: int| 0 <= c < VRAM ==> #[trigger] self.vram[c] <= 1
    }

    /// The state at power-on: everything zero but the font and the program
    /// counter.
    pub open spec fn initial() -> CpuState {
        CpuState {
            v: Seq::new(16, |r: int| 0u8),
            i: 0,
            delay: 0,
            sound: 0,
            pc: PROG_START as int,
            sp: 0,
            stack: Seq::new(STACK_SLOTS as nat, |k: int| 0usize),
            ram: Seq::new(RAM as nat, |a: int| if a < FONT_LEN { font()[a] } else { 0u8 }),
            vram: Seq::new(VRAM as nat, |c: int| 0u8),
            vram_update: false,
            beep: false,
            vf_on_index_overflow: false,
        }
    }

    /// Register `x` set to `val`.
    pub open spec fn with_v(self, x: int, val: u8) -> CpuState {
        CpuState { v: self.v.update(x, val), ..self }
    }

    /// The program counter moved to the next instruction.
    pub open spec fn next(self) -> CpuState {
        CpuState { pc: self.pc + 2, ..self }
    }

    /// The program counter moved past the next instruction when `cond` holds,
    /// to it otherwise.
    pub open spec fn skip_if(self, cond: bool) -> CpuState {
        CpuState { pc: self.pc + if cond { 4int } else { 2int }, ..self }
    }

    /// `memory` with `rom` copied to the program area.
    pub open spec fn with_rom(self, rom: Seq<u8>) -> CpuState {
        CpuState {
            ram: Seq::new(
                RAM as nat,
                |a: int|
                    if PROG_START <= a < PROG_START + rom.len() {
                        rom[a - PROG_START]
                    } else {
                        self.ram[a]
                    },
            ),
            ..self
        }
    }
}

/// The big-endian word at `pc`.
pub open spec fn word_at(ram: Seq<u8>, pc: int) -> u16 {
    (ram[pc] as int * 256 + ram[pc + 1] as int) as u16
}

/// Whether key `k` is down.
pub open spec fn key_down(keys: Seq<bool>, k: int) -> bool {
    0 <= k < 16 && keys[k]
}

/// The lowest key at or above `k` that is down.
pub open spec fn lowest_key_from(keys: Seq<bool>, k: int) -> Option<u8>
    decreases 16 - k,
{
    if k < 0 || k >= 16 {
        None
    } else if keys[k] {
        Some(k as u8)
    } else {
        lowest_key_from(keys, k + 1)
    }
}

/// The lowest key that is down, if any.
pub open spec fn lowest_key(keys: Seq<bool>) -> Option<u8> {
    lowest_key_from(keys, 0)
}

} // verus!
