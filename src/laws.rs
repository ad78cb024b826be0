use vstd::prelude::*;

use crate::machine::{flag, word_at, CpuState, RAM, STACK_DEPTH, VF, VRAM};
use crate::opcode::Opcode;
use crate::semantics;
use crate::semantics::{covers, execute, no_timer_writes, pixel_at, run, tick};

verus! {

/// The word `f x kk`, nibble by nibble.
pub open spec fn word_xkk(f: int, x: int, kk: int) -> u16 {
    (f * 4096 + x * 256 + kk) as u16
}

/// The word `f x y n`, nibble by nibble.
pub open spec fn word_xyn(f: int, x: int, y: int, n: int) -> u16 {
    (f * 4096 + x * 256 + y * 16 + n) as u16
}

/// Decoding `f x kk` gives back its fields.
pub proof fn lemma_decode_xkk(f: int, x: int, kk: int)
    requires
        0 <= f < 16,
        0 <= x < 16,
        0 <= kk < 256,
    ensures
        ({
            let op = Opcode::decode(word_xkk(f, x, kk));
            &&& op.wf()
            &&& op.nibbles.0 == f
            &&& op.nibbles.1 == x
            &&& op.nibbles.2 == kk / 16
            &&& op.nibbles.3 == kk % 16
            &&& op.x == x
            &&& op.y == kk / 16
            &&& op.n == kk % 16
            &&& op.kk == kk
            &&& op.nnn == x * 256 + kk
        }),
{
    let w = f * 4096 + x * 256 + kk;
    assert(0 <= w < 65536) by (nonlinear_arith)
        requires
            0 <= f < 16,
            0 <= x < 16,
            0 <= kk < 256,
            w == f * 4096 + x * 256 + kk,
    ;
    assert(w / 4096 == f && w / 256 % 16 == x && w / 16 % 16 == kk / 16 && w % 16 == kk % 16
        && w % 256 == kk && w % 4096 == x * 256 + kk) by (nonlinear_arith)
        requires
            0 <= f < 16,
            0 <= x < 16,
            0 <= kk < 256,
            w == f * 4096 + x * 256 + kk,
    ;
}

/// Decoding `f x y n` gives back its fields.
pub proof fn lemma_decode_xyn(f: int, x: int, y: int, n: int)
    requires
        0 <= f < 16,
        0 <= x < 16,
        0 <= y < 16,
        0 <= n < 16,
    ensures
        word_xyn(f, x, y, n) == word_xkk(f, x, y * 16 + n),
        ({
            let op = Opcode::decode(word_xyn(f, x, y, n));
            &&& op.wf()
            &&& op.nibbles == (f as u8, x as u8, y as u8, n as u8)
            &&& op.x == x
            &&& op.y == y
            &&& op.n == n
        }),
{
    lemma_decode_xkk(f, x, y * 16 + n);
    assert((y * 16 + n) / 16 == y && (y * 16 + n) % 16 == n) by (nonlinear_arith)
        requires
            0 <= y < 16,
            0 <= n < 16,
    ;
}

/// Loading `kk` into `Vx` and then adding `kk2` leaves `(kk + kk2) mod 256`
/// in `Vx`, for every register.
pub proof fn law_load_then_add(m: CpuState, x: int, kk: u8, kk2: u8, keys: Seq<bool>, rnd: u8)
    requires
        m.wf(),
        0 <= x < 16,
    ensures
        ({
            let s1 = execute(m, Opcode::decode(word_xkk(6, x, kk as int)), keys, rnd);
            let s2 = execute(s1->Ok_0, Opcode::decode(word_xkk(7, x, kk2 as int)), keys, rnd);
            &&& s1 is Ok
            &&& s2 is Ok
            &&& s2->Ok_0.v[x] == (kk + kk2) % 256
        }),
        semantics::add_imm(
            semantics::load_imm(m, Opcode::decode(word_xkk(6, x, kk as int))),
            Opcode::decode(word_xkk(7, x, kk2 as int)),
        ).v[x] == (kk + kk2) % 256,
{
    lemma_decode_xkk(6, x, kk as int);
    lemma_decode_xkk(7, x, kk2 as int);
}

/// `8xy4` sets `VF` to 1 exactly when `Vx + Vy` exceeds 255, for every
/// register pair.
pub proof fn law_add_carry(m: CpuState, x: int, y: int, keys: Seq<bool>, rnd: u8)
    requires
        m.wf(),
        0 <= x < 16,
        0 <= y < 16,
    ensures
        ({
            let s = execute(m, Opcode::decode(word_xyn(8, x, y, 4)), keys, rnd);
            &&& s is Ok
            &&& s->Ok_0.v[VF as int] == flag(m.v[x] + m.v[y] > 255)
        }),
        semantics::add_reg(m, Opcode::decode(word_xyn(8, x, y, 4))).v[VF as int] == flag(
            m.v[x] + m.v[y] > 255,
        ),
{
    lemma_decode_xyn(8, x, y, 4);
}

/// The borrow flag of `8xy5` and `8xy7` is "minuend > subtrahend" on the
/// operands before the subtraction, for every register pair.
pub proof fn law_sub_borrow(m: CpuState, x: int, y: int, keys: Seq<bool>, rnd: u8)
    requires
        m.wf(),
        0 <= x < 16,
        0 <= y < 16,
    ensures
        ({
            let s = execute(m, Opcode::decode(word_xyn(8, x, y, 5)), keys, rnd);
            &&& s is Ok
            &&& s->Ok_0.v[VF as int] == flag(m.v[x] > m.v[y])
        }),
        ({
            let s = execute(m, Opcode::decode(word_xyn(8, x, y, 7)), keys, rnd);
            &&& s is Ok
            &&& s->Ok_0.v[VF as int] == flag(m.v[y] > m.v[x])
        }),
        semantics::sub_reg(m, Opcode::decode(word_xyn(8, x, y, 5))).v[VF as int] == flag(
            m.v[x] > m.v[y],
        ),
        semantics::sub_rev_reg(m, Opcode::decode(word_xyn(8, x, y, 7))).v[VF as int] == flag(
            m.v[y] > m.v[x],
        ),
{
    lemma_decode_xyn(8, x, y, 5);
    lemma_decode_xyn(8, x, y, 7);
}

/// `00E0` leaves every framebuffer cell at 0 and marks the framebuffer
/// changed, whatever it held before.
pub proof fn law_clear_screen(m: CpuState, keys: Seq<bool>, rnd: u8)
    requires
        m.wf(),
    ensures
        ({
            let s = execute(m, Opcode::decode(0x00E0), keys, rnd);
            &&& s is Ok
            &&& s->Ok_0.vram.len() == VRAM
            &&& forall|c: int| 0 <= c < VRAM ==> s->Ok_0.vram[c] == 0
            &&& s->Ok_0.vram_update
        }),
        semantics::clear_screen(m).vram_update,
        forall|c: int| 0 <= c < VRAM ==> semantics::clear_screen(m).vram[c] == 0,
{
    lemma_decode_xyn(0, 0, 0xE, 0);
}

/// `Dxyn` sets `VF` to 1 exactly when some pixel went from 1 to 0.
pub proof fn law_draw_collision(m: CpuState, x: int, y: int, n: int, keys: Seq<bool>, rnd: u8)
    requires
        m.wf(),
        0 <= x < 16,
        0 <= y < 16,
        0 <= n < 16,
        n == 0 || m.i + n <= RAM,
    ensures
        ({
            let s = execute(m, Opcode::decode(word_xyn(0xD, x, y, n)), keys, rnd);
            &&& s is Ok
            &&& s->Ok_0.v[VF as int] <= 1
            &&& (s->Ok_0.v[VF as int] == 1 <==> exists|c: int|
                0 <= c < VRAM && m.vram[c] == 1 && #[trigger] s->Ok_0.vram[c] == 0)
        }),
        execute(m, Opcode::decode(word_xyn(0xD, x, y, n)), keys, rnd) == semantics::draw(
            m,
            Opcode::decode(word_xyn(0xD, x, y, n)),
        ),
{
    lemma_decode_xyn(0xD, x, y, n);
    let op = Opcode::decode(word_xyn(0xD, x, y, n));
    let s = execute(m, op, keys, rnd)->Ok_0;
    let vx = m.v[x] as int;
    let vy = m.v[y] as int;
    assert(s.vram == crate::semantics::drawn(m, vx, vy, n));
    if s.v[VF as int] == 1 {
        let c = choose|c: int|
            0 <= c < VRAM && covers(vx, vy, n, c) && m.vram[c] == 1 && #[trigger] pixel_at(
                m.ram,
                m.i,
                vx,
                vy,
                c,
            ) == 1;
        assert(1u8 ^ 1u8 == 0) by (bit_vector);
        assert(s.vram[c] == 0);
    }
    if exists|c: int| 0 <= c < VRAM && m.vram[c] == 1 && #[trigger] s.vram[c] == 0 {
        let c = choose|c: int| 0 <= c < VRAM && m.vram[c] == 1 && #[trigger] s.vram[c] == 0;
        let p = pixel_at(m.ram, m.i, vx, vy, c);
        assert(1u8 ^ p == 0 ==> p == 1) by (bit_vector);
        assert(covers(vx, vy, n, c));
        assert(pixel_at(m.ram, m.i, vx, vy, c) == 1);
    }
}

/// Drawing a sprite twice at the same place gives back the framebuffer as
/// it was; the second draw reports a collision exactly when some set pixel
/// of the sprite lands on a cell that was dark before the first. (`Vx` and
/// `Vy` are not `VF`, so the first draw's flag does not move the second.)
pub proof fn law_draw_twice(m: CpuState, x: int, y: int, n: int, keys: Seq<bool>, rnd: u8)
    requires
        m.wf(),
        0 <= x < 15,
        0 <= y < 15,
        0 <= n < 16,
        n == 0 || m.i + n <= RAM,
    ensures
        ({
            let op = Opcode::decode(word_xyn(0xD, x, y, n));
            let s1 = execute(m, op, keys, rnd);
            let s2 = execute(s1->Ok_0, op, keys, rnd);
            &&& s1 is Ok
            &&& s2 is Ok
            &&& s2->Ok_0.vram == m.vram
            &&& (s2->Ok_0.v[VF as int] == 1 <==> exists|c: int|
                0 <= c < VRAM && covers(m.v[x] as int, m.v[y] as int, n, c) && m.vram[c] == 0
                    && #[trigger] pixel_at(m.ram, m.i, m.v[x] as int, m.v[y] as int, c) == 1)
        }),
        execute(m, Opcode::decode(word_xyn(0xD, x, y, n)), keys, rnd) == semantics::draw(
            m,
            Opcode::decode(word_xyn(0xD, x, y, n)),
        ),
{
    lemma_decode_xyn(0xD, x, y, n);
    let op = Opcode::decode(word_xyn(0xD, x, y, n));
    let s1 = execute(m, op, keys, rnd)->Ok_0;
    let s2 = execute(s1, op, keys, rnd)->Ok_0;
    let vx = m.v[x] as int;
    let vy = m.v[y] as int;
    assert(s1.v[x] == m.v[x] && s1.v[y] == m.v[y]);
    assert forall|c: int| 0 <= c < VRAM implies #[trigger] s2.vram[c] == m.vram[c] by {
        let a = m.vram[c];
        let p = pixel_at(m.ram, m.i, vx, vy, c);
        assert((a ^ p) ^ p == a) by (bit_vector);
    }
    assert(s2.vram =~= m.vram);
    assert forall|c: int| 0 <= c < VRAM && covers(vx, vy, n, c) implies (s1.vram[c] == 1
        <==> m.vram[c] == 0) || #[trigger] pixel_at(m.ram, m.i, vx, vy, c) != 1 by {
        let a = m.vram[c];
        assert(a <= 1 ==> ((a ^ 1u8) == 1 <==> a == 0)) by (bit_vector);
    }
    if s2.v[VF as int] == 1 {
        let c = choose|c: int|
            0 <= c < VRAM && covers(vx, vy, n, c) && s1.vram[c] == 1 && #[trigger] pixel_at(
                s1.ram,
                s1.i,
                vx,
                vy,
                c,
            ) == 1;
        assert(m.vram[c] == 0);
    }
    if exists|c: int|
        0 <= c < VRAM && covers(vx, vy, n, c) && m.vram[c] == 0 && #[trigger] pixel_at(
            m.ram,
            m.i,
            vx,
            vy,
            c,
        ) == 1 {
        let c = choose|c: int|
            0 <= c < VRAM && covers(vx, vy, n, c) && m.vram[c] == 0 && #[trigger] pixel_at(
                m.ram,
                m.i,
                vx,
                vy,
                c,
            ) == 1;
        assert(s1.vram[c] == 1);
    }
}

/// Storing `V0..=Vx` with `Fx55` and loading them back with `Fx65` from the
/// same `I` restores them, whatever happened to the registers in between, as
/// long as those memory bytes were left alone.
pub proof fn law_store_then_load(
    m: CpuState,
    x: int,
    m2: CpuState,
    keys: Seq<bool>,
    rnd: u8,
)
    requires
        m.wf(),
        0 <= x < 16,
        m.i + x + 1 <= RAM,
        m2.wf(),
        m2.i == m.i,
        forall|a: int|
            m.i <= a <= m.i + x ==> #[trigger] m2.ram[a] == execute(
                m,
                Opcode::decode(word_xkk(0xF, x, 0x55)),
                keys,
                rnd,
            )->Ok_0.ram[a],
    ensures
        execute(m, Opcode::decode(word_xkk(0xF, x, 0x55)), keys, rnd) is Ok,
        ({
            let s = execute(m2, Opcode::decode(word_xkk(0xF, x, 0x65)), keys, rnd);
            &&& s is Ok
            &&& forall|r: int| 0 <= r <= x ==> #[trigger] s->Ok_0.v[r] == m.v[r]
        }),
        execute(m, Opcode::decode(word_xkk(0xF, x, 0x55)), keys, rnd) == semantics::store_regs(
            m,
            Opcode::decode(word_xkk(0xF, x, 0x55)),
        ),
        execute(m2, Opcode::decode(word_xkk(0xF, x, 0x65)), keys, rnd) == semantics::load_regs(
            m2,
            Opcode::decode(word_xkk(0xF, x, 0x65)),
        ),
{
    lemma_decode_xkk(0xF, x, 0x55);
    lemma_decode_xkk(0xF, x, 0x65);
    let s1 = execute(m, Opcode::decode(word_xkk(0xF, x, 0x55)), keys, rnd)->Ok_0;
    let s = execute(m2, Opcode::decode(word_xkk(0xF, x, 0x65)), keys, rnd)->Ok_0;
    assert forall|r: int| 0 <= r <= x implies #[trigger] s.v[r] == m.v[r] by {
        assert(m2.ram[m.i + r] == s1.ram[m.i + r]);
    }
}

/// A call followed by a return resumes at the instruction right after the
/// call, with the stack as before, whatever ran in between as long as it
/// left the stack alone. This holds of the `2nnn` and `00EE` handlers on
/// their own as well as through dispatch.
pub proof fn law_call_then_return(
    m: CpuState,
    a: int,
    m2: CpuState,
    keys: Seq<bool>,
    rnd: u8,
)
    requires
        m.wf(),
        m.pc < RAM,
        m.sp < STACK_DEPTH,
        0 <= a < 4096,
        m2.wf(),
        m2.sp == execute(m, Opcode::decode((0x2000 + a) as u16), keys, rnd)->Ok_0.sp,
        m2.stack == execute(m, Opcode::decode((0x2000 + a) as u16), keys, rnd)->Ok_0.stack,
    ensures
        ({
            let s1 = execute(m, Opcode::decode((0x2000 + a) as u16), keys, rnd);
            &&& s1 is Ok
            &&& s1->Ok_0.pc == a
        }),
        ({
            let s2 = execute(m2, Opcode::decode(0x00EE), keys, rnd);
            &&& s2 is Ok
            &&& s2->Ok_0.pc == m.pc + 2
            &&& s2->Ok_0.sp == m.sp
        }),
        ({
            let c = semantics::call(m, Opcode::decode((0x2000 + a) as u16));
            let r = semantics::return_from(m2);
            &&& c == execute(m, Opcode::decode((0x2000 + a) as u16), keys, rnd)
            &&& r is Ok
            &&& r->Ok_0.pc == m.pc + 2
            &&& r->Ok_0.sp == m.sp
        }),
{
    assert(a == (a / 256) * 256 + a % 256 && 0 <= a / 256 < 16) by (nonlinear_arith)
        requires
            0 <= a < 4096,
    ;
    lemma_decode_xkk(2, a / 256, a % 256);
    assert(word_xkk(2, a / 256, a % 256) == (0x2000 + a) as u16);
    lemma_decode_xyn(0, 0, 0xE, 0xE);
    assert(word_xyn(0, 0, 0xE, 0xE) == 0x00EE);
}

/// Only `Fx15` and `Fx18` write the timers.
proof fn lemma_execute_keeps_timers(m: CpuState, op: Opcode, keys: Seq<bool>, rnd: u8)
    requires
        execute(m, op, keys, rnd) is Ok,
        !(op.nibbles.0 == 0xF && op.nibbles.2 == 0x1 && (op.nibbles.3 == 0x5 || op.nibbles.3
            == 0x8)),
    ensures
        execute(m, op, keys, rnd)->Ok_0.delay == m.delay,
        execute(m, op, keys, rnd)->Ok_0.sound == m.sound,
{
}

/// With no `Fx15` or `Fx18` among them, `k` ticks take each timer down by
/// `k`, stopping at 0.
pub proof fn law_timers_count_down(m: CpuState, inputs: Seq<(Seq<bool>, u8)>)
    requires
        run(m, inputs) is Ok,
        no_timer_writes(m, inputs),
    ensures
        run(m, inputs)->Ok_0.delay == if m.delay >= inputs.len() {
            m.delay - inputs.len()
        } else {
            0
        },
        run(m, inputs)->Ok_0.sound == if m.sound >= inputs.len() {
            m.sound - inputs.len()
        } else {
            0
        },
    decreases inputs.len(),
{
    if inputs.len() > 0 {
        let s = tick(m, inputs[0].0, inputs[0].1)->Ok_0;
        let op = Opcode::decode(word_at(m.ram, m.pc));
        let fresh = CpuState { vram_update: false, ..m };
        lemma_execute_keeps_timers(fresh, op, inputs[0].0, inputs[0].1);
        law_timers_count_down(s, inputs.drop_first());
    }
}

} // verus!
