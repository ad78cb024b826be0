use vstd::prelude::*;

use crate::machine::{font, word_at, CpuState, Fault, FONT_LEN, PROG_START, RAM, STACK_SLOTS, VRAM};
use crate::opcode::Opcode;
use crate::semantics;

verus! {

/// A ROM that cannot be loaded.
#[derive(Debug, Clone, Copy, PartialEq, Eq, Structural)]
pub enum RomError {
    /// The ROM does not fit between the program start and the end of memory.
    TooLarge,
}

/// The interpreter: registers, stack, memory, framebuffer and timers.
pub struct Chip8Cpu {
    /// General registers `V0` to `VF`.
    pub reg_v: [u8; 16],
    /// Index register.
    pub reg_i: usize,
    /// Delay timer.
    pub reg_d: u8,
    /// Sound timer.
    pub reg_s: u8,
    /// Program counter.
    pub pc: usize,
    /// Slot of the top return address; 0 when the stack is empty, so it
    /// also counts the calls in progress.
    pub sp: usize,
    /// Return-address slots, each holding the address of the instruction
    /// after a call; slot 0 stays unused, so calls nest 16 deep.
    pub stack: [usize; STACK_SLOTS],
    /// Memory.
    pub ram: [u8; RAM],
    /// Framebuffer, one byte (0 or 1) per pixel, cell `(x, y)` at
    /// `y * WIDTH + x`.
    pub vram: [u8; VRAM],
    /// The framebuffer changed during the last tick.
    pub vram_update: bool,
    /// The tone should sound during this tick.
    pub beep: bool,
    /// Whether `Fx1E` reports an index past the addressable range in `VF`.
    pub vf_on_index_overflow: bool,
}

impl View for Chip8Cpu {
    type V = CpuState;

    open spec fn view(&self) -> CpuState {
        CpuState {
            v: self.reg_v@,
            i: self.reg_i as int,
            delay: self.reg_d,
            sound: self.reg_s,
            pc: self.pc as int,
            sp: self.sp as int,
            stack: self.stack@,
            ram: self.ram@,
            vram: self.vram@,
            vram_update: self.vram_update,
            beep: self.beep,
            vf_on_index_overflow: self.vf_on_index_overflow,
        }
    }
}

/// Relies on `rand::random::<u8>` (thread-local generator): any byte may come
/// back.
#[verifier::external_body]
fn random_byte() -> (r: u8) {
    rand::random::<u8>()
}

impl Chip8Cpu {
    /// The ranges that every operation keeps.
    pub open spec fn wf(&self) -> bool {
        self@.wf()
    }

    /// A machine at power-on: zeroed registers, memory and framebuffer, the
    /// font at address 0, the program counter at the program start.
    pub fn new() -> (r: Chip8Cpu)
        ensures
            r@ == CpuState::initial(),
            r.wf(),
    {
        let font_bytes: [u8; FONT_LEN] = [
            0xF0, 0x90, 0x90, 0x90, 0xF0, 0x20, 0x60, 0x20, 0x20, 0x70,
            0xF0, 0x10, 0xF0, 0x80, 0xF0, 0xF0, 0x10, 0xF0, 0x10, 0xF0,
            0x90, 0x90, 0xF0, 0x10, 0x10, 0xF0, 0x80, 0xF0, 0x10, 0xF0,
            0xF0, 0x80, 0xF0, 0x90, 0xF0, 0xF0, 0x10, 0x20, 0x40, 0x40,
            0xF0, 0x90, 0xF0, 0x90, 0xF0, 0xF0, 0x90, 0xF0, 0x10, 0xF0,
            0xF0, 0x90, 0xF0, 0x90, 0x90, 0xE0, 0x90, 0xE0, 0x90, 0xE0,
            0xF0, 0x80, 0x80, 0x80, 0xF0, 0xE0, 0x90, 0x90, 0x90, 0xE0,
            0xF0, 0x80, 0xF0, 0x80, 0xF0, 0xF0, 0x80, 0xF0, 0x80, 0x80,
        ];
        assert(font_bytes@ =~= font());
        let mut ram = [0u8; RAM];
        let mut a: usize = 0;
        while a < FONT_LEN
            invariant
                a <= FONT_LEN,
                font_bytes@ == font(),
                forall|b: int| 0 <= b < a ==> ram@[b] == font()[b],
                forall|b: int| a <= b < RAM ==> ram@[b] == 0,
            decreases FONT_LEN - a,
        {
            ram[a] = font_bytes[a];
            a = a + 1;
        }
        let r = Chip8Cpu {
            reg_v: [0; 16],
            reg_i: 0,
            reg_d: 0,
            reg_s: 0,
            pc: PROG_START,
            sp: 0,
            stack: [0; STACK_SLOTS],
            ram,
            vram: [0; VRAM],
            vram_update: false,
            beep: false,
            vf_on_index_overflow: false,
        };
        assert(r@.v =~= CpuState::initial().v);
        assert(r@.stack =~= CpuState::initial().stack);
        assert(r@.ram =~= CpuState::initial().ram);
        assert(r@.vram =~= CpuState::initial().vram);
        r
    }
    /// Copies `rom` into memory from the program start. A ROM that does not
    /// fit is refused and memory is left untouched.
    pub fn load_rom(&mut self, rom: &[u8]) -> (r: Result<(), RomError>)
        requires
            old(self).wf(),
        ensures
            r == (if rom@.len() > RAM - PROG_START {
                Err(RomError::TooLarge)
            } else {
                Ok(())
            }),
            r is Ok ==> final(self)@ == old(self)@.with_rom(rom@),
            r is Err ==> final(self)@ == old(self)@,
            final(self).wf(),
    {
        if rom.len() > RAM - PROG_START {
            return Err(RomError::TooLarge);
        }
        let mut idx: usize = 0;
        while idx < rom.len()
            invariant
                rom@.len() <= RAM - PROG_START,
                idx <= rom@.len(),
                self@ == (CpuState { ram: self.ram@, ..old(self)@ }),
                forall|a: int|
                    0 <= a < RAM ==> #[trigger] self.ram@[a] == if PROG_START <= a < PROG_START
                        + idx {
                        rom@[a - PROG_START]
                    } else {
                        old(self).ram@[a]
                    },
            decreases rom@.len() - idx,
        {
            self.ram[PROG_START + idx] = rom[idx];
            idx = idx + 1;
        }
        assert(self@.ram =~= old(self)@.with_rom(rom@).ram);
        Ok(())
    }

    /// The big-endian instruction word at the program counter.
    pub fn fetch_opcode(&self) -> (r: Opcode)
        requires
            self.pc + 1 < RAM,
        ensures
            r == Opcode::decode(word_at(self.ram@, self.pc as int)),
    {
        let hi = self.ram[self.pc];
        let lo = self.ram[self.pc + 1];
        assert((hi as u16) << 8u16 | (lo as u16) == (hi as int * 256 + lo as int) as u16)
            by (bit_vector);
        Opcode::new((hi as u16) << 8u16 | (lo as u16))
    }

    /// Runs the instruction `op`, given the keypad and a random byte for
    /// `Cxkk`. An opcode of no instruction is passed over.
    pub fn decode_opcode(&mut self, op: Opcode, keys: &[bool; 16], rnd: u8) -> (r: Result<
        (),
        Fault,
    >)
        requires
            old(self).wf(),
            old(self).pc < RAM,
            op.wf(),
        ensures
            semantics::outcome(r, final(self)@) == semantics::execute(
                old(self)@,
                op,
                keys@,
                rnd,
            ),
            r is Err ==> final(self)@ == old(self)@,
            final(self).wf(),
    {
        match op.nibbles {
            (0x0, 0x0, 0xE, 0x0) => {
                self.cls_00E0();
                Ok(())
            },
            (0x0, 0x0, 0xE, 0xE) => self.ret_00EE(),
            (0x1, _, _, _) => {
                self.jp_addr_1nnn(op);
                Ok(())
            },
            (0x2, _, _, _) => self.call_addr_2nnn(op),
            (0x3, _, _, _) => {
                self.se_vx_kk_3xkk(op);
                Ok(())
            },
            (0x4, _, _, _) => {
                self.sne_vx_kk_4xkk(op);
                Ok(())
            },
            (0x5, _, _, 0x0) => {
                self.se_vx_vy_5xy0(op);
                Ok(())
            },
            (0x6, _, _, _) => {
                self.ld_vx_kk_6xkk(op);
                Ok(())
            },
            (0x7, _, _, _) => {
                self.add_vx_kk_7xkk(op);
                Ok(())
            },
            (0x8, _, _, 0x0) => {
                self.ld_vx_vy_8xy0(op);
                Ok(())
            },
            (0x8, _, _, 0x1) => {
                self.or_vx_vy_8xy1(op);
                Ok(())
            },
            (0x8, _, _, 0x2) => {
                self.and_vx_vy_8xy2(op);
                Ok(())
            },
            (0x8, _, _, 0x3) => {
                self.xor_vx_vy_8xy3(op);
                Ok(())
            },
            (0x8, _, _, 0x4) => {
                self.add_vx_vy_8xy4(op);
                Ok(())
            },
            (0x8, _, _, 0x5) => {
                self.sub_vx_vy_8xy5(op);
                Ok(())
            },
            (0x8, _, _, 0x6) => {
                self.shr_vx_8xy6(op);
                Ok(())
            },
            (0x8, _, _, 0x7) => {
                self.subn_vx_vy_8xy7(op);
                Ok(())
            },
            (0x8, _, _, 0xE) => {
                self.shl_vx_8xyE(op);
                Ok(())
            },
            (0x9, _, _, 0x0) => {
                self.sne_vx_vy_9xy0(op);
                Ok(())
            },
            (0xA, _, _, _) => {
                self.ld_i_addr_Annn(op);
                Ok(())
            },
            (0xB, _, _, _) => {
                self.jp_v0_addr_Bnnn(op);
                Ok(())
            },
            (0xC, _, _, _) => {
                self.rnd_vx_kk_Cxkk(op, rnd);
                Ok(())
            },
            (0xD, _, _, _) => self.drw_vx_vy_n_Dxyn(op),
            (0xE, _, 0x9, 0xE) => {
                self.skp_vx_Ex9E(op, keys);
                Ok(())
            },
            (0xE, _, 0xA, 0x1) => {
                self.sknp_vx_ExA1(op, keys);
                Ok(())
            },
            (0xF, _, 0x0, 0x7) => {
                self.ld_vx_dt_Fx07(op);
                Ok(())
            },
            (0xF, _, 0x0, 0xA) => {
                self.ld_vx_key_Fx0A(op, keys);
                Ok(())
            },
            (0xF, _, 0x1, 0x5) => {
                self.ld_dt_vx_Fx15(op);
                Ok(())
            },
            (0xF, _, 0x1, 0x8) => {
                self.ld_st_vx_Fx18(op);
                Ok(())
            },
            (0xF, _, 0x1, 0xE) => {
                self.add_i_vx_Fx1E(op);
                Ok(())
            },
            (0xF, _, 0x2, 0x9) => {
                self.ld_f_vx_Fx29(op);
                Ok(())
            },
            (0xF, _, 0x3, 0x3) => self.ld_b_vx_Fx33(op),
            (0xF, _, 0x5, 0x5) => self.ld_i_vx_Fx55(op),
            (0xF, _, 0x6, 0x5) => self.ld_vx_i_Fx65(op),
            _ => {
                self.pc = self.pc + 2;
                Ok(())
            },
        }
    }

    /// One tick with a given random byte: fetches and runs the instruction at
    /// the program counter, then counts both timers down. On a fault the
    /// machine is left as it was.
    pub fn tick_with(&mut self, keys: [bool; 16], rnd: u8) -> (r: Result<(), Fault>)
        requires
            old(self).wf(),
        ensures
            semantics::outcome(r, final(self)@) == semantics::tick(old(self)@, keys@, rnd),
            r is Err ==> final(self)@ == old(self)@,
            final(self).wf(),
    {
        if self.pc >= RAM - 1 {
            return Err(Fault::PcOutOfRange);
        }
        let op = self.fetch_opcode();
        let changed = self.vram_update;
        self.vram_update = false;
        let r = self.decode_opcode(op, &keys, rnd);
        if r.is_err() {
            self.vram_update = changed;
            return r;
        }
        self.beep = self.reg_s > 0;
        if self.reg_d > 0 {
            self.reg_d = self.reg_d - 1;
        }
        if self.reg_s > 0 {
            self.reg_s = self.reg_s - 1;
        }
        r
    }

    /// One tick: fetches and runs the instruction at the program counter,
    /// then counts both timers down. `Cxkk` draws its byte from the thread's
    /// random generator, so the result is that of some random byte. On a
    /// fault the machine is left as it was.
    pub fn tick(&mut self, keys: [bool; 16]) -> (r: Result<(), Fault>)
        requires
            old(self).wf(),
        ensures
            exists|rnd: u8|
                semantics::outcome(r, final(self)@) == #[trigger] semantics::tick(
                    old(self)@,
                    keys@,
                    rnd,
                ),
            r is Err ==> final(self)@ == old(self)@,
            final(self).wf(),
    {
        let rnd = random_byte();
        let r = self.tick_with(keys, rnd);
        assert(semantics::outcome(r, self@) == semantics::tick(old(self)@, keys@, rnd));
        r
    }
}

} // verus!
