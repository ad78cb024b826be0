use chip8::{Chip8Cpu, Fault, Opcode, PROG_START};

const NO_KEYS: [bool; 16] = [false; 16];

fn machine_with(rom: &[u8]) -> Chip8Cpu {
    let mut cpu = Chip8Cpu::new();
    cpu.load_rom(rom).unwrap();
    cpu
}

#[test]
fn load_then_add_wraps_mod_256() {
    for x in 0..16u16 {
        let mut cpu = Chip8Cpu::new();
        cpu.ld_vx_kk_6xkk(Opcode::new(0x60F0 | (x << 8)));
        cpu.add_vx_kk_7xkk(Opcode::new(0x7020 | (x << 8)));
        assert_eq!(cpu.reg_v[x as usize], 0x10);
    }
}

#[test]
fn add_carry_for_all_byte_pairs() {
    for a in 0..=255u8 {
        for b in 0..=255u8 {
            let mut cpu = Chip8Cpu::new();
            cpu.reg_v[2] = a;
            cpu.reg_v[7] = b;
            cpu.add_vx_vy_8xy4(Opcode::new(0x8274));
            let carry = (a as u16 + b as u16) > 255;
            assert_eq!(cpu.reg_v[0xF], carry as u8);
            assert_eq!(cpu.reg_v[2], a.wrapping_add(b));
        }
    }
}

#[test]
fn add_carry_into_vf_keeps_flag() {
    let mut cpu = Chip8Cpu::new();
    cpu.reg_v[0xF] = 0xFF;
    cpu.reg_v[1] = 0x02;
    cpu.add_vx_vy_8xy4(Opcode::new(0x8F14));
    assert_eq!(cpu.reg_v[0xF], 1);
}

#[test]
fn borrow_flags_for_all_byte_pairs() {
    for a in 0..=255u8 {
        for b in 0..=255u8 {
            let mut cpu = Chip8Cpu::new();
            cpu.reg_v[4] = a;
            cpu.reg_v[5] = b;
            cpu.sub_vx_vy_8xy5(Opcode::new(0x8455));
            assert_eq!(cpu.reg_v[0xF], (a > b) as u8);
            assert_eq!(cpu.reg_v[4], a.wrapping_sub(b));

            let mut cpu = Chip8Cpu::new();
            cpu.reg_v[4] = a;
            cpu.reg_v[5] = b;
            cpu.subn_vx_vy_8xy7(Opcode::new(0x8457));
            assert_eq!(cpu.reg_v[0xF], (b > a) as u8);
            assert_eq!(cpu.reg_v[4], b.wrapping_sub(a));
        }
    }
}

#[test]
fn clear_screen_after_drawing() {
    let mut cpu = machine_with(&[0xD0, 0x15, 0x00, 0xE0]);
    cpu.tick(NO_KEYS).unwrap();
    assert!(cpu.vram.iter().any(|&p| p == 1));
    cpu.tick(NO_KEYS).unwrap();
    assert!(cpu.vram.iter().all(|&p| p == 0));
    assert!(cpu.vram_update);
}

#[test]
fn draw_twice_restores_framebuffer() {
    let mut cpu = Chip8Cpu::new();
    cpu.vram[5] = 1;
    cpu.vram[100] = 1;
    let before = cpu.vram;
    cpu.reg_v[0] = 3;
    cpu.reg_v[1] = 0;
    cpu.reg_i = 5 * 8;
    cpu.drw_vx_vy_n_Dxyn(Opcode::new(0xD015)).unwrap();
    assert_eq!(cpu.reg_v[0xF], 1);
    assert_ne!(cpu.vram, before);
    cpu.drw_vx_vy_n_Dxyn(Opcode::new(0xD015)).unwrap();
    assert_eq!(cpu.vram, before);
    assert_eq!(cpu.reg_v[0xF], 1);
}

#[test]
fn draw_on_blank_screen_reports_no_collision() {
    let mut cpu = Chip8Cpu::new();
    cpu.drw_vx_vy_n_Dxyn(Opcode::new(0xD015)).unwrap();
    assert_eq!(cpu.reg_v[0xF], 0);
}

#[test]
fn store_then_load_round_trips() {
    let mut cpu = Chip8Cpu::new();
    cpu.reg_i = 0x300;
    let saved = [9u8, 8, 7, 6, 5, 4];
    cpu.reg_v[..6].copy_from_slice(&saved);
    cpu.ld_i_vx_Fx55(Opcode::new(0xF555)).unwrap();
    cpu.reg_v = [0xEE; 16];
    cpu.ld_vx_i_Fx65(Opcode::new(0xF565)).unwrap();
    assert_eq!(&cpu.reg_v[..6], &saved);
    assert_eq!(cpu.reg_v[6], 0xEE);
}

#[test]
fn call_then_return_resumes_after_call() {
    // 0x200: call 0x206; 0x202: ld V1, 1; 0x206: ld V2, 2; 0x208: ret.
    let mut cpu = machine_with(&[0x22, 0x06, 0x61, 0x01, 0x00, 0x00, 0x62, 0x02, 0x00, 0xEE]);
    cpu.tick(NO_KEYS).unwrap();
    assert_eq!(cpu.pc, 0x206);
    assert_eq!(cpu.sp, 1);
    cpu.tick(NO_KEYS).unwrap();
    cpu.tick(NO_KEYS).unwrap();
    assert_eq!(cpu.pc, PROG_START + 2);
    assert_eq!(cpu.sp, 0);
    cpu.tick(NO_KEYS).unwrap();
    assert_eq!(cpu.reg_v[1], 1);
    assert_eq!(cpu.reg_v[2], 2);
}

#[test]
fn timers_stop_at_zero() {
    let mut cpu = Chip8Cpu::new();
    cpu.reg_d = 3;
    cpu.reg_s = 2;
    for _ in 0..10 {
        cpu.tick(NO_KEYS).unwrap();
    }
    assert_eq!(cpu.reg_d, 0);
    assert_eq!(cpu.reg_s, 0);
}

#[test]
fn beep_while_sound_timer_runs() {
    // 0x200: ld V0, 2; 0x202: ld ST, V0; then zero words.
    let mut cpu = machine_with(&[0x60, 0x02, 0xF0, 0x18]);
    cpu.tick(NO_KEYS).unwrap();
    assert!(!cpu.beep);
    cpu.tick(NO_KEYS).unwrap();
    assert!(cpu.beep);
    assert_eq!(cpu.reg_s, 1);
    cpu.tick(NO_KEYS).unwrap();
    assert!(cpu.beep);
    assert_eq!(cpu.reg_s, 0);
    cpu.tick(NO_KEYS).unwrap();
    assert!(!cpu.beep);
}

#[test]
fn end_to_end_trace() {
    // ld V0, 5; add V0, 5; ld V1, 3; add V0, V1 with carry.
    let mut cpu = machine_with(&[0x60, 0x05, 0x70, 0x05, 0x61, 0x03, 0x80, 0x14]);
    for _ in 0..4 {
        cpu.tick(NO_KEYS).unwrap();
    }
    assert_eq!(cpu.reg_v[0], 13);
    assert_eq!(cpu.reg_v[1], 3);
    assert_eq!(cpu.reg_v[0xF], 0);
    assert_eq!(cpu.pc, PROG_START + 8);
}

#[test]
fn end_to_end_subroutine_trace() {
    // 0x200: call 0x204; 0x202: jump 0x202;
    // 0x204: ld V0, 5; add V0, 5; add V0, V1; ret.
    let rom = [0x22, 0x04, 0x12, 0x02, 0x60, 0x05, 0x70, 0x05, 0x80, 0x14, 0x00, 0xEE];
    let mut cpu = machine_with(&rom);
    for _ in 0..6 {
        cpu.tick(NO_KEYS).unwrap();
    }
    assert_eq!(cpu.reg_v[0], 10);
    assert_eq!(cpu.reg_v[0xF], 0);
    assert_eq!(cpu.pc, 0x202);
    assert_eq!(cpu.sp, 0);
    cpu.tick(NO_KEYS).unwrap();
    assert_eq!(cpu.pc, 0x202);
}

#[test]
fn return_with_empty_stack_faults() {
    let mut cpu = machine_with(&[0x60, 0x05, 0x00, 0xEE]);
    cpu.tick(NO_KEYS).unwrap();
    let before_pc = cpu.pc;
    assert_eq!(cpu.tick(NO_KEYS), Err(Fault::StackUnderflow));
    assert_eq!(cpu.pc, before_pc);
    assert_eq!(cpu.reg_v[0], 5);
}

#[test]
fn random_instruction_masks_through_tick() {
    let mut cpu = machine_with(&[0xC3, 0x0F]);
    cpu.tick(NO_KEYS).unwrap();
    assert!(cpu.reg_v[3] <= 0x0F);
    assert_eq!(cpu.pc, PROG_START + 2);
}

#[test]
fn tick_with_given_random_byte() {
    let mut cpu = machine_with(&[0xC3, 0x3C]);
    cpu.tick_with(NO_KEYS, 0xA5).unwrap();
    assert_eq!(cpu.reg_v[3], 0x24);
}

#[test]
fn wait_for_key_through_ticks() {
    let mut cpu = machine_with(&[0xF4, 0x0A]);
    cpu.tick(NO_KEYS).unwrap();
    cpu.tick(NO_KEYS).unwrap();
    assert_eq!(cpu.pc, PROG_START);
    let mut keys = [false; 16];
    keys[0xC] = true;
    cpu.tick(keys).unwrap();
    assert_eq!(cpu.reg_v[4], 0xC);
    assert_eq!(cpu.pc, PROG_START + 2);
}

#[test]
fn vram_update_only_on_ticks_that_draw() {
    let mut cpu = machine_with(&[0x00, 0xE0, 0x60, 0x01]);
    cpu.tick(NO_KEYS).unwrap();
    assert!(cpu.vram_update);
    cpu.tick(NO_KEYS).unwrap();
    assert!(!cpu.vram_update);
}
