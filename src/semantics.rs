use vstd::prelude::*;

use crate::machine::{
    flag, key_down, lowest_key, word_at, CpuState, Fault, HEIGHT, RAM, STACK_DEPTH, VF, VRAM,
    WIDTH, I_MAX,
};
use crate::opcode::Opcode;

verus! {

/// `00E0`: every framebuffer cell set to 0.
pub open spec fn clear_screen(m: CpuState) -> CpuState {
    CpuState { vram: Seq::new(VRAM as nat, |c: int| 0u8), vram_update: true, ..m }.next()
}

/// `00EE`: the program counter set to the address on top of the stack, that
/// of the instruction after the matching call.
pub open spec fn return_from(m: CpuState) -> Result<CpuState, Fault> {
    if m.sp == 0 {
        Err(Fault::StackUnderflow)
    } else {
        Ok(CpuState { pc: m.stack[m.sp] as int, sp: m.sp - 1, ..m })
    }
}

/// `1nnn`.
pub open spec fn jump(m: CpuState, op: Opcode) -> CpuState {
    CpuState { pc: op.nnn as int, ..m }
}

/// `2nnn`: the address of the next instruction pushed, then a jump.
pub open spec fn call(m: CpuState, op: Opcode) -> Result<CpuState, Fault> {
    if m.sp >= STACK_DEPTH {
        Err(Fault::StackOverflow)
    } else {
        Ok(
            CpuState {
                sp: m.sp + 1,
                stack: m.stack.update(m.sp + 1, (m.pc + 2) as usize),
                pc: op.nnn as int,
                ..m
            },
        )
    }
}

/// `3xkk`.
pub open spec fn skip_eq_imm(m: CpuState, op: Opcode) -> CpuState {
    m.skip_if(m.v[op.x as int] == op.kk)
}

/// `4xkk`.
pub open spec fn skip_ne_imm(m: CpuState, op: Opcode) -> CpuState {
    m.skip_if(m.v[op.x as int] != op.kk)
}

/// `5xy0`.
pub open spec fn skip_eq_reg(m: CpuState, op: Opcode) -> CpuState {
    m.skip_if(m.v[op.x as int] == m.v[op.y as int])
}

/// `6xkk`.
pub open spec fn load_imm(m: CpuState, op: Opcode) -> CpuState {
    m.with_v(op.x as int, op.kk).next()
}

/// `7xkk`: wrapping add, flags untouched.
pub open spec fn add_imm(m: CpuState, op: Opcode) -> CpuState {
    m.with_v(op.x as int, ((m.v[op.x as int] + op.kk) % 256) as u8).next()
}

/// `8xy0`.
pub open spec fn load_reg(m: CpuState, op: Opcode) -> CpuState {
    m.with_v(op.x as int, m.v[op.y as int]).next()
}

/// `8xy1`.
pub open spec fn or_reg(m: CpuState, op: Opcode) -> CpuState {
    m.with_v(op.x as int, m.v[op.x as int] | m.v[op.y as int]).next()
}

/// `8xy2`.
pub open spec fn and_reg(m: CpuState, op: Opcode) -> CpuState {
    m.with_v(op.x as int, m.v[op.x as int] & m.v[op.y as int]).next()
}

/// `8xy3`.
pub open spec fn xor_reg(m: CpuState, op: Opcode) -> CpuState {
    m.with_v(op.x as int, m.v[op.x as int] ^ m.v[op.y as int]).next()
}

/// `8xy4`: wrapping sum, then `VF` = carry.
pub open spec fn add_reg(m: CpuState, op: Opcode) -> CpuState {
    let sum = m.v[op.x as int] + m.v[op.y as int];
    m.with_v(op.x as int, (sum % 256) as u8).with_v(VF as int, flag(sum > 255)).next()
}

/// `8xy5`: wrapping `Vx - Vy`, then `VF` = `Vx > Vy` on the operands.
pub open spec fn sub_reg(m: CpuState, op: Opcode) -> CpuState {
    let a = m.v[op.x as int];
    let b = m.v[op.y as int];
    m.with_v(op.x as int, ((a - b) % 256) as u8).with_v(VF as int, flag(a > b)).next()
}

/// `8xy6`: `Vx` halved, then `VF` = the bit shifted out.
pub open spec fn shift_right(m: CpuState, op: Opcode) -> CpuState {
    let a = m.v[op.x as int];
    m.with_v(op.x as int, a / 2).with_v(VF as int, a % 2).next()
}

/// `8xy7`: wrapping `Vy - Vx`, then `VF` = `Vy > Vx` on the operands.
pub open spec fn sub_rev_reg(m: CpuState, op: Opcode) -> CpuState {
    let a = m.v[op.x as int];
    let b = m.v[op.y as int];
    m.with_v(op.x as int, ((b - a) % 256) as u8).with_v(VF as int, flag(b > a)).next()
}

/// `8xyE`: `Vx` doubled, wrapping, then `VF` = the bit shifted out.
pub open spec fn shift_left(m: CpuState, op: Opcode) -> CpuState {
    let a = m.v[op.x as int];
    m.with_v(op.x as int, ((a * 2) % 256) as u8).with_v(VF as int, a / 128).next()
}

/// `9xy0`.
pub open spec fn skip_ne_reg(m: CpuState, op: Opcode) -> CpuState {
    m.skip_if(m.v[op.x as int] != m.v[op.y as int])
}

/// `Annn`.
pub open spec fn load_index(m: CpuState, op: Opcode) -> CpuState {
    CpuState { i: op.nnn as int, ..m }.next()
}

/// `Bnnn`.
pub open spec fn jump_offset(m: CpuState, op: Opcode) -> CpuState {
    CpuState { pc: op.nnn + m.v[0], ..m }
}

/// `Cxkk`, given the random byte `rnd`.
pub open spec fn random_masked(m: CpuState, op: Opcode, rnd: u8) -> CpuState {
    m.with_v(op.x as int, rnd & op.kk).next()
}

/// Bit `col` of a sprite row, counted from the most significant.
pub open spec fn sprite_pixel(row: u8, col: int) -> u8 {
    (row >> ((7 - col) as u8)) & 1u8
}

/// Sprite row that lands on cell `c` when drawing at `(vx, vy)`.
pub open spec fn sprite_row(vy: int, c: int) -> int {
    (c / WIDTH as int - vy) % HEIGHT as int
}

/// Sprite column that lands on cell `c` when drawing at `(vx, vy)`.
pub open spec fn sprite_col(vx: int, c: int) -> int {
    (c % WIDTH as int - vx) % WIDTH as int
}

/// Cell `c` lies under the first `rows` rows of an 8-pixel-wide sprite drawn
/// at `(vx, vy)`, wrapping round the edges.
pub open spec fn covers(vx: int, vy: int, rows: int, c: int) -> bool {
    sprite_row(vy, c) < rows && sprite_col(vx, c) < 8
}

/// The sprite pixel that lands on cell `c`, the sprite being read from
/// `ram` at `i`.
pub open spec fn pixel_at(ram: Seq<u8>, i: int, vx: int, vy: int, c: int) -> u8 {
    sprite_pixel(ram[i + sprite_row(vy, c)], sprite_col(vx, c))
}

/// The framebuffer after XOR-ing an `rows`-row sprite onto it.
pub open spec fn drawn(m: CpuState, vx: int, vy: int, rows: int) -> Seq<u8> {
    Seq::new(
        VRAM as nat,
        |c: int|
            if covers(vx, vy, rows, c) {
                m.vram[c] ^ pixel_at(m.ram, m.i, vx, vy, c)
            } else {
                m.vram[c]
            },
    )
}

/// Some lit cell under the sprite is hit by a set sprite pixel.
pub open spec fn collides(m: CpuState, vx: int, vy: int, rows: int) -> bool {
    exists|c: int|
        0 <= c < VRAM && covers(vx, vy, rows, c) && m.vram[c] == 1 && #[trigger] pixel_at(
            m.ram,
            m.i,
            vx,
            vy,
            c,
        ) == 1
}

/// `Dxyn`: the `n`-row sprite at `I` XOR-ed onto the framebuffer at
/// `(Vx, Vy)`, `VF` = collision.
pub open spec fn draw(m: CpuState, op: Opcode) -> Result<CpuState, Fault> {
    let vx = m.v[op.x as int] as int;
    let vy = m.v[op.y as int] as int;
    let rows = op.n as int;
    if rows > 0 && m.i + rows > RAM {
        Err(Fault::AddressOutOfRange)
    } else {
        Ok(
            CpuState {
                vram: drawn(m, vx, vy, rows),
                vram_update: true,
                ..m
            }.with_v(VF as int, flag(collides(m, vx, vy, rows))).next(),
        )
    }
}

/// `Ex9E`.
pub open spec fn skip_key(m: CpuState, op: Opcode, keys: Seq<bool>) -> CpuState {
    m.skip_if(key_down(keys, m.v[op.x as int] as int))
}

/// `ExA1`.
pub open spec fn skip_not_key(m: CpuState, op: Opcode, keys: Seq<bool>) -> CpuState {
    m.skip_if(!key_down(keys, m.v[op.x as int] as int))
}

/// `Fx07`.
pub open spec fn load_delay(m: CpuState, op: Opcode) -> CpuState {
    m.with_v(op.x as int, m.delay).next()
}

/// `Fx0A`: with a key down, the lowest one goes to `Vx`; with none, the
/// instruction stays where it is, to run again on the next tick.
pub open spec fn wait_key(m: CpuState, op: Opcode, keys: Seq<bool>) -> CpuState {
    match lowest_key(keys) {
        Some(k) => m.with_v(op.x as int, k).next(),
        None => m,
    }
}

/// `Fx15`.
pub open spec fn set_delay(m: CpuState, op: Opcode) -> CpuState {
    CpuState { delay: m.v[op.x as int], ..m }.next()
}

/// `Fx18`.
pub open spec fn set_sound(m: CpuState, op: Opcode) -> CpuState {
    CpuState { sound: m.v[op.x as int], ..m }.next()
}

/// `Fx1E`: `I + Vx` kept to 16 bits; when the machine is so configured, `VF`
/// then tells whether the sum left the 12-bit address range.
pub open spec fn add_index(m: CpuState, op: Opcode) -> CpuState {
    let sum = m.i + m.v[op.x as int];
    let s = CpuState { i: sum % (I_MAX + 1), ..m };
    if m.vf_on_index_overflow {
        s.with_v(VF as int, flag(sum > 0xFFF)).next()
    } else {
        s.next()
    }
}

/// `Fx29`: `I` at the font glyph of `Vx`.
pub open spec fn load_glyph(m: CpuState, op: Opcode) -> CpuState {
    CpuState { i: 5 * m.v[op.x as int], ..m }.next()
}

/// `Fx33`: hundreds, tens and units of `Vx` at `I`, `I+1`, `I+2`.
pub open spec fn store_bcd(m: CpuState, op: Opcode) -> Result<CpuState, Fault> {
    let a = m.v[op.x as int];
    if m.i + 3 > RAM {
        Err(Fault::AddressOutOfRange)
    } else {
        Ok(
            CpuState {
                ram: m.ram.update(m.i, a / 100).update(m.i + 1, (a / 10) % 10).update(
                    m.i + 2,
                    a % 10,
                ),
                ..m
            }.next(),
        )
    }
}

/// `Fx55`: `V0..=Vx` to memory from `I`.
pub open spec fn store_regs(m: CpuState, op: Opcode) -> Result<CpuState, Fault> {
    if m.i + op.x + 1 > RAM {
        Err(Fault::AddressOutOfRange)
    } else {
        Ok(
            CpuState {
                ram: Seq::new(
                    RAM as nat,
                    |a: int|
                        if m.i <= a <= m.i + op.x {
                            m.v[a - m.i]
                        } else {
                            m.ram[a]
                        },
                ),
                ..m
            }.next(),
        )
    }
}

/// `Fx65`: `V0..=Vx` from memory at `I`.
pub open spec fn load_regs(m: CpuState, op: Opcode) -> Result<CpuState, Fault> {
    if m.i + op.x + 1 > RAM {
        Err(Fault::AddressOutOfRange)
    } else {
        Ok(
            CpuState {
                v: Seq::new(16, |r: int| if r <= op.x { m.ram[m.i + r] } else { m.v[r] }),
                ..m
            }.next(),
        )
    }
}

/// `r` with the state `s` as its success value.
pub open spec fn outcome(r: Result<(), Fault>, s: CpuState) -> Result<CpuState, Fault> {
    match r {
        Ok(_) => Ok(s),
        Err(e) => Err(e),
    }
}

/// One instruction, given the keypad and a random byte; an opcode of no
/// instruction is skipped.
pub open spec fn execute(m: CpuState, op: Opcode, keys: Seq<bool>, rnd: u8) -> Result<
    CpuState,
    Fault,
> {
    match op.nibbles {
        (0x0, 0x0, 0xE, 0x0) => Ok(clear_screen(m)),
        (0x0, 0x0, 0xE, 0xE) => return_from(m),
        (0x1, _, _, _) => Ok(jump(m, op)),
        (0x2, _, _, _) => call(m, op),
        (0x3, _, _, _) => Ok(skip_eq_imm(m, op)),
        (0x4, _, _, _) => Ok(skip_ne_imm(m, op)),
        (0x5, _, _, 0x0) => Ok(skip_eq_reg(m, op)),
        (0x6, _, _, _) => Ok(load_imm(m, op)),
        (0x7, _, _, _) => Ok(add_imm(m, op)),
        (0x8, _, _, 0x0) => Ok(load_reg(m, op)),
        (0x8, _, _, 0x1) => Ok(or_reg(m, op)),
        (0x8, _, _, 0x2) => Ok(and_reg(m, op)),
        (0x8, _, _, 0x3) => Ok(xor_reg(m, op)),
        (0x8, _, _, 0x4) => Ok(add_reg(m, op)),
        (0x8, _, _, 0x5) => Ok(sub_reg(m, op)),
        (0x8, _, _, 0x6) => Ok(shift_right(m, op)),
        (0x8, _, _, 0x7) => Ok(sub_rev_reg(m, op)),
        (0x8, _, _, 0xE) => Ok(shift_left(m, op)),
        (0x9, _, _, 0x0) => Ok(skip_ne_reg(m, op)),
        (0xA, _, _, _) => Ok(load_index(m, op)),
        (0xB, _, _, _) => Ok(jump_offset(m, op)),
        (0xC, _, _, _) => Ok(random_masked(m, op, rnd)),
        (0xD, _, _, _) => draw(m, op),
        (0xE, _, 0x9, 0xE) => Ok(skip_key(m, op, keys)),
        (0xE, _, 0xA, 0x1) => Ok(skip_not_key(m, op, keys)),
        (0xF, _, 0x0, 0x7) => Ok(load_delay(m, op)),
        (0xF, _, 0x0, 0xA) => Ok(wait_key(m, op, keys)),
        (0xF, _, 0x1, 0x5) => Ok(set_delay(m, op)),
        (0xF, _, 0x1, 0x8) => Ok(set_sound(m, op)),
        (0xF, _, 0x1, 0xE) => Ok(add_index(m, op)),
        (0xF, _, 0x2, 0x9) => Ok(load_glyph(m, op)),
        (0xF, _, 0x3, 0x3) => store_bcd(m, op),
        (0xF, _, 0x5, 0x5) => store_regs(m, op),
        (0xF, _, 0x6, 0x5) => load_regs(m, op),
        _ => Ok(m.next()),
    }
}

/// Both timers one step nearer zero; the tone sounds while the sound timer
/// was above zero.
pub open spec fn count_down(m: CpuState) -> CpuState {
    CpuState {
        delay: if m.delay > 0 { (m.delay - 1) as u8 } else { 0 },
        sound: if m.sound > 0 { (m.sound - 1) as u8 } else { 0 },
        beep: m.sound > 0,
        ..m
    }
}

/// One tick: fetch the instruction at the program counter, run it with the
/// change flag reset, then count the timers down.
pub open spec fn tick(m: CpuState, keys: Seq<bool>, rnd: u8) -> Result<CpuState, Fault> {
    if m.pc + 1 >= RAM {
        Err(Fault::PcOutOfRange)
    } else {
        match execute(
            CpuState { vram_update: false, ..m },
            Opcode::decode(word_at(m.ram, m.pc)),
            keys,
            rnd,
        ) {
            Ok(s) => Ok(count_down(s)),
            Err(e) => Err(e),
        }
    }
}

/// The instruction at the program counter writes a timer (`Fx15` or `Fx18`).
pub open spec fn writes_timer(m: CpuState) -> bool {
    &&& m.pc + 1 < RAM
    &&& Opcode::decode(word_at(m.ram, m.pc)).nibbles.0 == 0xF
    &&& Opcode::decode(word_at(m.ram, m.pc)).nibbles.2 == 0x1
    &&& (Opcode::decode(word_at(m.ram, m.pc)).nibbles.3 == 0x5 || Opcode::decode(
        word_at(m.ram, m.pc),
    ).nibbles.3 == 0x8)
}

/// Successive ticks, fed the keypad states and random bytes of `inputs` in
/// order; the first fault ends the run.
pub open spec fn run(m: CpuState, inputs: Seq<(Seq<bool>, u8)>) -> Result<CpuState, Fault>
    decreases inputs.len(),
{
    if inputs.len() == 0 {
        Ok(m)
    } else {
        match tick(m, inputs[0].0, inputs[0].1) {
            Ok(s) => run(s, inputs.drop_first()),
            Err(e) => Err(e),
        }
    }
}

/// No tick of `run(m, inputs)` runs `Fx15` or `Fx18`.
pub open spec fn no_timer_writes(m: CpuState, inputs: Seq<(Seq<bool>, u8)>) -> bool
    decreases inputs.len(),
{
    inputs.len() == 0 || (!writes_timer(m) && match tick(m, inputs[0].0, inputs[0].1) {
        Ok(s) => no_timer_writes(s, inputs.drop_first()),
        Err(_) => true,
    })
}

} // verus!
