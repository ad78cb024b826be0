use vstd::prelude::*;

use crate::cpu::Chip8Cpu;
use crate::machine::{
    lowest_key, lowest_key_from, CpuState, Fault, HEIGHT, I_MAX, RAM, STACK_DEPTH, VF, VRAM, WIDTH,
};
use crate::opcode::Opcode;
use crate::semantics;

verus! {

/// Cell `c` was drawn before the sprite pixel at `(row, col)`, rows first.
spec fn drawn_before(vx: int, vy: int, row: int, col: int, c: int) -> bool {
    let r = semantics::sprite_row(vy, c);
    let k = semantics::sprite_col(vx, c);
    k < 8 && (r < row || (r == row && k < col))
}

/// The framebuffer once the sprite pixels before `(row, col)` are drawn.
spec fn partial_vram(m: CpuState, vx: int, vy: int, row: int, col: int) -> Seq<u8> {
    Seq::new(
        VRAM as nat,
        |c: int|
            if drawn_before(vx, vy, row, col, c) {
                m.vram[c] ^ semantics::pixel_at(m.ram, m.i, vx, vy, c)
            } else {
                m.vram[c]
            },
    )
}

/// A collision among the sprite pixels before `(row, col)`.
spec fn partial_hit(m: CpuState, vx: int, vy: int, row: int, col: int) -> bool {
    exists|c: int|
        0 <= c < VRAM && drawn_before(vx, vy, row, col, c) && m.vram[c] == 1
            && #[trigger] semantics::pixel_at(m.ram, m.i, vx, vy, c) == 1
}

/// The sprite pixel at `(row, col)` lands on exactly one cell.
proof fn lemma_sprite_cell(vx: int, vy: int, row: int, col: int, c: int)
    requires
        0 <= vx,
        0 <= vy,
        0 <= row < HEIGHT,
        0 <= col < 8,
        0 <= c < VRAM,
    ensures
        0 <= ((vy + row) % (HEIGHT as int)) * (WIDTH as int) + (vx + col) % (WIDTH as int) < VRAM,
        (semantics::sprite_row(vy, c) == row && semantics::sprite_col(vx, c) == col) <==> (c
            == ((vy + row) % (HEIGHT as int)) * (WIDTH as int) + (vx + col) % (WIDTH as int)),
{
    let y = c / 64;
    let x = c % 64;
    assert(c == y * 64 + x && 0 <= y < 32 && 0 <= x < 64);
    let ty = (vy + row) % 32;
    let tx = (vx + col) % 64;
    assert(((y - vy) % 32 == row) <==> (y == ty)) by {
        vstd::arithmetic::div_mod::lemma_fundamental_div_mod(vy + row, 32);
        vstd::arithmetic::div_mod::lemma_fundamental_div_mod(y - vy, 32);
    }
    assert(((x - vx) % 64 == col) <==> (x == tx)) by {
        vstd::arithmetic::div_mod::lemma_fundamental_div_mod(vx + col, 64);
        vstd::arithmetic::div_mod::lemma_fundamental_div_mod(x - vx, 64);
    }
    assert((c == ty * 64 + tx) <==> (y == ty && x == tx)) by {
        if c == ty * 64 + tx {
            vstd::arithmetic::div_mod::lemma_fundamental_div_mod(c, 64);
        }
    }
}

/// One instruction handler per opcode pattern. Each runs the instruction at
/// the program counter, so each asks for a program counter inside memory.
impl Chip8Cpu {
    /// `00E0`: clears the framebuffer.
    pub fn cls_00E0(&mut self)
        requires
            old(self).wf(),
            old(self).pc < RAM,
        ensures
            final(self)@ == semantics::clear_screen(old(self)@),
            final(self).wf(),
    {
        self.vram = [0; VRAM];
        self.vram_update = true;
        self.pc = self.pc + 2;
        assert(self@.vram =~= semantics::clear_screen(old(self)@).vram);
    }

    /// `00EE`: returns to the instruction after the matching call.
    pub fn ret_00EE(&mut self) -> (r: Result<(), Fault>)
        requires
            old(self).wf(),
        ensures
            semantics::outcome(r, final(self)@) == semantics::return_from(old(self)@),
            r is Err ==> final(self)@ == old(self)@,
            final(self).wf(),
    {
        if self.sp == 0 {
            return Err(Fault::StackUnderflow);
        }
        self.pc = self.stack[self.sp];
        self.sp = self.sp - 1;
        Ok(())
    }

    /// `1nnn`: jumps to `nnn`.
    pub fn jp_addr_1nnn(&mut self, op: Opcode)
        requires
            old(self).wf(),
            op.wf(),
        ensures
            final(self)@ == semantics::jump(old(self)@, op),
            final(self).wf(),
    {
        self.pc = op.nnn;
    }

    /// `2nnn`: pushes the address of the next instruction and jumps to `nnn`.
    pub fn call_addr_2nnn(&mut self, op: Opcode) -> (r: Result<(), Fault>)
        requires
            old(self).wf(),
            old(self).pc < RAM,
            op.wf(),
        ensures
            semantics::outcome(r, final(self)@) == semantics::call(old(self)@, op),
            r is Err ==> final(self)@ == old(self)@,
            final(self).wf(),
    {
        if self.sp >= STACK_DEPTH {
            return Err(Fault::StackOverflow);
        }
        self.sp = self.sp + 1;
        self.stack[self.sp] = self.pc + 2;
        self.pc = op.nnn;
        Ok(())
    }

    /// `3xkk`: skips the next instruction when `Vx == kk`.
    pub fn se_vx_kk_3xkk(&mut self, op: Opcode)
        requires
            old(self).wf(),
            old(self).pc < RAM,
            op.wf(),
        ensures
            final(self)@ == semantics::skip_eq_imm(old(self)@, op),
            final(self).wf(),
    {
        self.pc = self.pc + if self.reg_v[op.x] == op.kk { 4 } else { 2 };
    }

    /// `4xkk`: skips the next instruction when `Vx != kk`.
    pub fn sne_vx_kk_4xkk(&mut self, op: Opcode)
        requires
            old(self).wf(),
            old(self).pc < RAM,
            op.wf(),
        ensures
            final(self)@ == semantics::skip_ne_imm(old(self)@, op),
            final(self).wf(),
    {
        self.pc = self.pc + if self.reg_v[op.x] != op.kk { 4 } else { 2 };
    }

    /// `5xy0`: skips the next instruction when `Vx == Vy`.
    pub fn se_vx_vy_5xy0(&mut self, op: Opcode)
        requires
            old(self).wf(),
            old(self).pc < RAM,
            op.wf(),
        ensures
            final(self)@ == semantics::skip_eq_reg(old(self)@, op),
            final(self).wf(),
    {
        self.pc = self.pc + if self.reg_v[op.x] == self.reg_v[op.y] { 4 } else { 2 };
    }

    /// `6xkk`: `Vx = kk`.
    pub fn ld_vx_kk_6xkk(&mut self, op: Opcode)
        requires
            old(self).wf(),
            old(self).pc < RAM,
            op.wf(),
        ensures
            final(self)@ == semantics::load_imm(old(self)@, op),
            final(self).wf(),
    {
        self.reg_v[op.x] = op.kk;
        self.pc = self.pc + 2;
    }

    /// `7xkk`: `Vx += kk`, wrapping.
    pub fn add_vx_kk_7xkk(&mut self, op: Opcode)
        requires
            old(self).wf(),
            old(self).pc < RAM,
            op.wf(),
        ensures
            final(self)@ == semantics::add_imm(old(self)@, op),
            final(self).wf(),
    {
        let sum = (self.reg_v[op.x] as u16) + (op.kk as u16);
        self.reg_v[op.x] = (sum % 256) as u8;
        self.pc = self.pc + 2;
    }

    /// `8xy0`: `Vx = Vy`.
    pub fn ld_vx_vy_8xy0(&mut self, op: Opcode)
        requires
            old(self).wf(),
            old(self).pc < RAM,
            op.wf(),
        ensures
            final(self)@ == semantics::load_reg(old(self)@, op),
            final(self).wf(),
    {
        self.reg_v[op.x] = self.reg_v[op.y];
        self.pc = self.pc + 2;
    }

    /// `8xy1`: `Vx |= Vy`.
    pub fn or_vx_vy_8xy1(&mut self, op: Opcode)
        requires
            old(self).wf(),
            old(self).pc < RAM,
            op.wf(),
        ensures
            final(self)@ == semantics::or_reg(old(self)@, op),
            final(self).wf(),
    {
        self.reg_v[op.x] = self.reg_v[op.x] | self.reg_v[op.y];
        self.pc = self.pc + 2;
    }

    /// `8xy2`: `Vx &= Vy`.
    pub fn and_vx_vy_8xy2(&mut self, op: Opcode)
        requires
            old(self).wf(),
            old(self).pc < RAM,
            op.wf(),
        ensures
            final(self)@ == semantics::and_reg(old(self)@, op),
            final(self).wf(),
    {
        self.reg_v[op.x] = self.reg_v[op.x] & self.reg_v[op.y];
        self.pc = self.pc + 2;
    }

    /// `8xy3`: `Vx ^= Vy`.
    pub fn xor_vx_vy_8xy3(&mut self, op: Opcode)
        requires
            old(self).wf(),
            old(self).pc < RAM,
            op.wf(),
        ensures
            final(self)@ == semantics::xor_reg(old(self)@, op),
            final(self).wf(),
    {
        self.reg_v[op.x] = self.reg_v[op.x] ^ self.reg_v[op.y];
        self.pc = self.pc + 2;
    }

    /// `8xy4`: `Vx += Vy`, wrapping; `VF` = carry.
    pub fn add_vx_vy_8xy4(&mut self, op: Opcode)
        requires
            old(self).wf(),
            old(self).pc < RAM,
            op.wf(),
        ensures
            final(self)@ == semantics::add_reg(old(self)@, op),
            final(self).wf(),
    {
        let sum = (self.reg_v[op.x] as u16) + (self.reg_v[op.y] as u16);
        self.reg_v[op.x] = (sum % 256) as u8;
        self.reg_v[VF] = if sum > 255 { 1 } else { 0 };
        self.pc = self.pc + 2;
    }

    /// `8xy5`: `Vx -= Vy`, wrapping; `VF` = `Vx > Vy` before the subtraction.
    pub fn sub_vx_vy_8xy5(&mut self, op: Opcode)
        requires
            old(self).wf(),
            old(self).pc < RAM,
            op.wf(),
        ensures
            final(self)@ == semantics::sub_reg(old(self)@, op),
            final(self).wf(),
    {
        let a = self.reg_v[op.x];
        let b = self.reg_v[op.y];
        self.reg_v[op.x] = a.wrapping_sub(b);
        self.reg_v[VF] = if a > b { 1 } else { 0 };
        self.pc = self.pc + 2;
    }

    /// `8xy6`: `Vx >>= 1`; `VF` = the bit shifted out.
    pub fn shr_vx_8xy6(&mut self, op: Opcode)
        requires
            old(self).wf(),
            old(self).pc < RAM,
            op.wf(),
        ensures
            final(self)@ == semantics::shift_right(old(self)@, op),
            final(self).wf(),
    {
        let a = self.reg_v[op.x];
        assert(a >> 1u8 == a / 2 && a & 1u8 == a % 2) by (bit_vector);
        self.reg_v[op.x] = a >> 1u8;
        self.reg_v[VF] = a & 1u8;
        self.pc = self.pc + 2;
    }

    /// `8xy7`: `Vx = Vy - Vx`, wrapping; `VF` = `Vy > Vx` before the
    /// subtraction.
    pub fn subn_vx_vy_8xy7(&mut self, op: Opcode)
        requires
            old(self).wf(),
            old(self).pc < RAM,
            op.wf(),
        ensures
            final(self)@ == semantics::sub_rev_reg(old(self)@, op),
            final(self).wf(),
    {
        let a = self.reg_v[op.x];
        let b = self.reg_v[op.y];
        self.reg_v[op.x] = b.wrapping_sub(a);
        self.reg_v[VF] = if b > a { 1 } else { 0 };
        self.pc = self.pc + 2;
    }

    /// `8xyE`: `Vx <<= 1`, wrapping; `VF` = the bit shifted out.
    pub fn shl_vx_8xyE(&mut self, op: Opcode)
        requires
            old(self).wf(),
            old(self).pc < RAM,
            op.wf(),
        ensures
            final(self)@ == semantics::shift_left(old(self)@, op),
            final(self).wf(),
    {
        let a = self.reg_v[op.x];
        assert(a << 1u8 == ((a * 2) % 256) as u8 && (a & 0x80u8) >> 7u8 == a / 128)
            by (bit_vector);
        self.reg_v[op.x] = a << 1u8;
        self.reg_v[VF] = (a & 0x80u8) >> 7u8;
        self.pc = self.pc + 2;
    }

    /// `9xy0`: skips the next instruction when `Vx != Vy`.
    pub fn sne_vx_vy_9xy0(&mut self, op: Opcode)
        requires
            old(self).wf(),
            old(self).pc < RAM,
            op.wf(),
        ensures
            final(self)@ == semantics::skip_ne_reg(old(self)@, op),
            final(self).wf(),
    {
        self.pc = self.pc + if self.reg_v[op.x] != self.reg_v[op.y] { 4 } else { 2 };
    }

    /// `Annn`: `I = nnn`.
    pub fn ld_i_addr_Annn(&mut self, op: Opcode)
        requires
            old(self).wf(),
            old(self).pc < RAM,
            op.wf(),
        ensures
            final(self)@ == semantics::load_index(old(self)@, op),
            final(self).wf(),
    {
        self.reg_i = op.nnn;
        self.pc = self.pc + 2;
    }

    /// `Bnnn`: jumps to `nnn + V0`.
    pub fn jp_v0_addr_Bnnn(&mut self, op: Opcode)
        requires
            old(self).wf(),
            op.wf(),
        ensures
            final(self)@ == semantics::jump_offset(old(self)@, op),
            final(self).wf(),
    {
        self.pc = op.nnn + self.reg_v[0] as usize;
    }

    /// `Cxkk`: `Vx = rnd & kk`, `rnd` being a random byte.
    pub fn rnd_vx_kk_Cxkk(&mut self, op: Opcode, rnd: u8)
        requires
            old(self).wf(),
            old(self).pc < RAM,
            op.wf(),
        ensures
            final(self)@ == semantics::random_masked(old(self)@, op, rnd),
            final(self).wf(),
    {
        self.reg_v[op.x] = rnd & op.kk;
        self.pc = self.pc + 2;
    }

    /// `Ex9E`: skips the next instruction when key `Vx` is down.
    pub fn skp_vx_Ex9E(&mut self, op: Opcode, keys: &[bool; 16])
        requires
            old(self).wf(),
            old(self).pc < RAM,
            op.wf(),
        ensures
            final(self)@ == semantics::skip_key(old(self)@, op, keys@),
            final(self).wf(),
    {
        let k = self.reg_v[op.x] as usize;
        let down = k < 16 && keys[k];
        self.pc = self.pc + if down { 4 } else { 2 };
    }

    /// `ExA1`: skips the next instruction when key `Vx` is up.
    pub fn sknp_vx_ExA1(&mut self, op: Opcode, keys: &[bool; 16])
        requires
            old(self).wf(),
            old(self).pc < RAM,
            op.wf(),
        ensures
            final(self)@ == semantics::skip_not_key(old(self)@, op, keys@),
            final(self).wf(),
    {
        let k = self.reg_v[op.x] as usize;
        let down = k < 16 && keys[k];
        self.pc = self.pc + if !down { 4 } else { 2 };
    }

    /// `Fx07`: `Vx = delay timer`.
    pub fn ld_vx_dt_Fx07(&mut self, op: Opcode)
        requires
            old(self).wf(),
            old(self).pc < RAM,
            op.wf(),
        ensures
            final(self)@ == semantics::load_delay(old(self)@, op),
            final(self).wf(),
    {
        self.reg_v[op.x] = self.reg_d;
        self.pc = self.pc + 2;
    }

    /// `Fx15`: `delay timer = Vx`.
    pub fn ld_dt_vx_Fx15(&mut self, op: Opcode)
        requires
            old(self).wf(),
            old(self).pc < RAM,
            op.wf(),
        ensures
            final(self)@ == semantics::set_delay(old(self)@, op),
            final(self).wf(),
    {
        self.reg_d = self.reg_v[op.x];
        self.pc = self.pc + 2;
    }

    /// `Fx18`: `sound timer = Vx`.
    pub fn ld_st_vx_Fx18(&mut self, op: Opcode)
        requires
            old(self).wf(),
            old(self).pc < RAM,
            op.wf(),
        ensures
            final(self)@ == semantics::set_sound(old(self)@, op),
            final(self).wf(),
    {
        self.reg_s = self.reg_v[op.x];
        self.pc = self.pc + 2;
    }

    /// `Fx1E`: `I += Vx`, kept to 16 bits; `VF` reports a sum past `0xFFF`
    /// when `vf_on_index_overflow` is set.
    pub fn add_i_vx_Fx1E(&mut self, op: Opcode)
        requires
            old(self).wf(),
            old(self).pc < RAM,
            op.wf(),
        ensures
            final(self)@ == semantics::add_index(old(self)@, op),
            final(self).wf(),
    {
        let sum = self.reg_i + self.reg_v[op.x] as usize;
        self.reg_i = sum % (I_MAX + 1);
        if self.vf_on_index_overflow {
            self.reg_v[VF] = if sum > 0xFFF { 1 } else { 0 };
        }
        self.pc = self.pc + 2;
    }

    /// `Fx29`: `I` = address of the font glyph for `Vx`.
    pub fn ld_f_vx_Fx29(&mut self, op: Opcode)
        requires
            old(self).wf(),
            old(self).pc < RAM,
            op.wf(),
        ensures
            final(self)@ == semantics::load_glyph(old(self)@, op),
            final(self).wf(),
    {
        self.reg_i = 5 * (self.reg_v[op.x] as usize);
        self.pc = self.pc + 2;
    }

    /// `Fx33`: hundreds, tens and units of `Vx` to `I`, `I+1`, `I+2`.
    pub fn ld_b_vx_Fx33(&mut self, op: Opcode) -> (r: Result<(), Fault>)
        requires
            old(self).wf(),
            old(self).pc < RAM,
            op.wf(),
        ensures
            semantics::outcome(r, final(self)@) == semantics::store_bcd(old(self)@, op),
            r is Err ==> final(self)@ == old(self)@,
            final(self).wf(),
    {
        if self.reg_i > RAM - 3 {
            return Err(Fault::AddressOutOfRange);
        }
        let a = self.reg_v[op.x];
        let i = self.reg_i;
        self.ram[i] = a / 100;
        self.ram[i + 1] = (a / 10) % 10;
        self.ram[i + 2] = a % 10;
        self.pc = self.pc + 2;
        Ok(())
    }

    /// `Fx55`: `V0..=Vx` to memory from `I`.
    pub fn ld_i_vx_Fx55(&mut self, op: Opcode) -> (r: Result<(), Fault>)
        requires
            old(self).wf(),
            old(self).pc < RAM,
            op.wf(),
        ensures
            semantics::outcome(r, final(self)@) == semantics::store_regs(old(self)@, op),
            r is Err ==> final(self)@ == old(self)@,
            final(self).wf(),
    {
        if self.reg_i >= RAM || op.x >= RAM - self.reg_i {
            return Err(Fault::AddressOutOfRange);
        }
        let i = self.reg_i;
        let mut idx: usize = 0;
        while idx <= op.x
            invariant
                op.wf(),
                i == old(self).reg_i,
                i + op.x < RAM,
                idx <= op.x + 1,
                self.reg_v == old(self).reg_v,
                self.ram@.len() == RAM,
                forall|a: int|
                    0 <= a < RAM ==> #[trigger] self.ram@[a] == if i <= a < i + idx {
                        old(self).reg_v@[a - i]
                    } else {
                        old(self).ram@[a]
                    },
                self@ == (CpuState { ram: self.ram@, ..old(self)@ }),
            decreases op.x + 1 - idx,
        {
            self.ram[i + idx] = self.reg_v[idx];
            idx = idx + 1;
        }
        self.pc = self.pc + 2;
        assert(self@.ram =~= semantics::store_regs(old(self)@, op)->Ok_0.ram);
        Ok(())
    }

    /// `Fx65`: `V0..=Vx` from memory at `I`.
    pub fn ld_vx_i_Fx65(&mut self, op: Opcode) -> (r: Result<(), Fault>)
        requires
            old(self).wf(),
            old(self).pc < RAM,
            op.wf(),
        ensures
            semantics::outcome(r, final(self)@) == semantics::load_regs(old(self)@, op),
            r is Err ==> final(self)@ == old(self)@,
            final(self).wf(),
    {
        if self.reg_i >= RAM || op.x >= RAM - self.reg_i {
            return Err(Fault::AddressOutOfRange);
        }
        let i = self.reg_i;
        let mut idx: usize = 0;
        while idx <= op.x
            invariant
                op.wf(),
                i == old(self).reg_i,
                i + op.x < RAM,
                idx <= op.x + 1,
                self.ram == old(self).ram,
                forall|r: int|
                    0 <= r < 16 ==> #[trigger] self.reg_v@[r] == if r < idx {
                        old(self).ram@[i + r]
                    } else {
                        old(self).reg_v@[r]
                    },
                self@ == (CpuState { v: self.reg_v@, ..old(self)@ }),
            decreases op.x + 1 - idx,
        {
            self.reg_v[idx] = self.ram[i + idx];
            idx = idx + 1;
        }
        self.pc = self.pc + 2;
        assert(self@.v =~= semantics::load_regs(old(self)@, op)->Ok_0.v);
        Ok(())
    }

    /// `Fx0A`: with a key down, `Vx` = the lowest such key and the program
    /// counter moves on; with none, nothing changes and the instruction runs
    /// again on the next tick.
    pub fn ld_vx_key_Fx0A(&mut self, op: Opcode, keys: &[bool; 16])
        requires
            old(self).wf(),
            old(self).pc < RAM,
            op.wf(),
        ensures
            final(self)@ == semantics::wait_key(old(self)@, op, keys@),
            final(self).wf(),
    {
        let mut k: usize = 0;
        while k < 16
            invariant
                k <= 16,
                op.wf(),
                self@ == old(self)@,
                old(self).wf(),
                old(self).pc < RAM,
                lowest_key(keys@) == lowest_key_from(keys@, k as int),
            decreases 16 - k,
        {
            if keys[k] {
                self.reg_v[op.x] = k as u8;
                self.pc = self.pc + 2;
                return;
            }
            k = k + 1;
        }
    }
    /// `Dxyn`: XORs the `n`-row sprite at `I` onto the framebuffer at
    /// `(Vx, Vy)`, wrapping round the edges; `VF` = 1 when a lit pixel went
    /// dark.
    pub fn drw_vx_vy_n_Dxyn(&mut self, op: Opcode) -> (r: Result<(), Fault>)
        requires
            old(self).wf(),
            old(self).pc < RAM,
            op.wf(),
        ensures
            semantics::outcome(r, final(self)@) == semantics::draw(old(self)@, op),
            r is Err ==> final(self)@ == old(self)@,
            final(self).wf(),
    {
        let n = op.n;
        assert(op.n < 16 && op.x < 16 && op.y < 16);
        if n > 0 && self.reg_i > RAM - n {
            return Err(Fault::AddressOutOfRange);
        }
        let ghost m = self@;
        let vx = self.reg_v[op.x] as usize;
        let vy = self.reg_v[op.y] as usize;
        let ghost gx = vx as int;
        let ghost gy = vy as int;
        let i = self.reg_i;
        let mut hit: u8 = 0;
        let mut row: usize = 0;
        assert(partial_vram(m, gx, gy, 0, 0) =~= m.vram);
        while row < n
            invariant
                m == old(self)@,
                m.wf(),
                op.wf(),
                n == op.n,
                n < 16,
                n == 0 || i + n <= RAM,
                i == m.i,
                vx < 256,
                vy < 256,
                gx == vx,
                gy == vy,
                vx == m.v[op.x as int],
                vy == m.v[op.y as int],
                row <= n,
                self@ == (CpuState { vram: self.vram@, ..m }),
                self.vram@ == partial_vram(m, gx, gy, row as int, 0),
                forall|c: int| 0 <= c < VRAM ==> #[trigger] self.vram@[c] <= 1,
                hit <= 1,
                (hit == 1) == partial_hit(m, gx, gy, row as int, 0),
            decreases n - row,
        {
            let y = (vy + row) % HEIGHT;
            let sprite = self.ram[i + row];
            let mut col: usize = 0;
            while col < 8
                invariant
                    m == old(self)@,
                    m.wf(),
                    n < 16,
                    row < n,
                    i + n <= RAM,
                    i == m.i,
                    vx < 256,
                    vy < 256,
                    gx == vx,
                    gy == vy,
                    y == (vy + row) % (HEIGHT as int),
                    sprite == m.ram[i + row],
                    col <= 8,
                    self@ == (CpuState { vram: self.vram@, ..m }),
                    self.vram@ == partial_vram(m, gx, gy, row as int, col as int),
                    forall|c: int| 0 <= c < VRAM ==> #[trigger] self.vram@[c] <= 1,
                    hit <= 1,
                    (hit == 1) == partial_hit(m, gx, gy, row as int, col as int),
                decreases 8 - col,
            {
                let x = (vx + col) % WIDTH;
                let c = y * WIDTH + x;
                let ghost (gr, gk, gc) = (row as int, col as int, c as int);
                proof {
                    lemma_sprite_cell(gx, gy, gr, gk, gc);
                    assert forall|d: int| 0 <= d < VRAM implies (drawn_before(gx, gy, gr, gk + 1, d)
                        <==> (drawn_before(gx, gy, gr, gk, d) || d == gc)) by {
                        lemma_sprite_cell(gx, gy, gr, gk, d);
                    }
                }
                let pixel = (sprite >> ((7 - col) as u8)) & 1u8;
                let cell = self.vram[c];
                assert(pixel <= 1) by (bit_vector)
                    requires
                        pixel == (sprite >> ((7 - col) as u8)) & 1u8,
                ;
                assert(cell <= 1);
                assert(pixel == semantics::pixel_at(m.ram, m.i, gx, gy, gc));
                assert(hit <= 1 && pixel <= 1 && cell <= 1 ==> {
                    &&& (hit | (pixel & cell)) <= 1
                    &&& ((hit | (pixel & cell)) == 1) == (hit == 1 || (pixel == 1 && cell == 1))
                    &&& (cell ^ pixel) <= 1
                }) by (bit_vector);
                hit = hit | (pixel & cell);
                self.vram[c] = cell ^ pixel;
                col = col + 1;
                proof {
                    assert(self.vram@ =~= partial_vram(m, gx, gy, gr, gk + 1));
                    if partial_hit(m, gx, gy, gr, gk) {
                        let w = choose|w: int|
                            0 <= w < VRAM && drawn_before(gx, gy, gr, gk, w) && m.vram[w] == 1
                                && #[trigger] semantics::pixel_at(m.ram, m.i, gx, gy, w) == 1;
                        assert(drawn_before(gx, gy, gr, gk + 1, w));
                    }
                    if pixel == 1 && cell == 1 {
                        assert(drawn_before(gx, gy, gr, gk + 1, gc));
                    }
                    if partial_hit(m, gx, gy, gr, gk + 1) {
                        let w = choose|w: int|
                            0 <= w < VRAM && drawn_before(gx, gy, gr, gk + 1, w) && m.vram[w] == 1
                                && #[trigger] semantics::pixel_at(m.ram, m.i, gx, gy, w) == 1;
                        if w != gc {
                            assert(drawn_before(gx, gy, gr, gk, w));
                        }
                    }
                }
            }
            row = row + 1;
            proof {
                assert forall|d: int| 0 <= d < VRAM implies drawn_before(gx, gy, row - 1, 8, d)
                    == drawn_before(gx, gy, row as int, 0, d) by {}
                assert(self.vram@ =~= partial_vram(m, gx, gy, row as int, 0));
            }
        }
        self.reg_v[VF] = hit;
        self.vram_update = true;
        self.pc = self.pc + 2;
        proof {
            assert forall|d: int| 0 <= d < VRAM implies drawn_before(gx, gy, n as int, 0, d)
                == semantics::covers(gx, gy, n as int, d) by {}
            assert(partial_vram(m, gx, gy, n as int, 0) =~= semantics::drawn(m, gx, gy, n as int));
        }
        Ok(())
    }
}

} // verus!
