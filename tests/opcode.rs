use chip8::Opcode;

#[test]
fn opcode_opcode() {
    let opcode = Opcode::new(0xF333);
    assert_eq!(opcode.opcode, 0xF333);
}

#[test]
fn opcode_nibbles() {
    let opcode = Opcode::new(0xF333);
    assert_eq!(opcode.nibbles, (0xF, 0x3, 0x3, 0x3));
}

#[test]
fn opcode_nnn() {
    let opcode = Opcode::new(0xF333);
    assert_eq!(opcode.nnn, 0x333);
}

#[test]
fn opcode_n() {
    let opcode = Opcode::new(0xF123);
    assert_eq!(opcode.n, 0x3);
}

#[test]
fn opcode_x() {
    let opcode = Opcode::new(0xF123);
    assert_eq!(opcode.x, 0x1);
}

#[test]
fn opcode_y() {
    let opcode = Opcode::new(0xF123);
    assert_eq!(opcode.y, 0x2);
}

#[test]
fn opcode_kk() {
    let opcode = Opcode::new(0xF123);
    assert_eq!(opcode.kk, 0x23);
}

#[test]
fn opcode_all_fields_of_one_word() {
    let opcode = Opcode::new(0xABCD);
    assert_eq!(opcode.nibbles, (0xA, 0xB, 0xC, 0xD));
    assert_eq!(opcode.nnn, 0xBCD);
    assert_eq!(opcode.n, 0xD);
    assert_eq!(opcode.x, 0xB);
    assert_eq!(opcode.y, 0xC);
    assert_eq!(opcode.kk, 0xCD);
}

#[test]
fn opcode_from_word() {
    assert_eq!(Opcode::from(0xD123), Opcode::new(0xD123));
    assert_eq!(Opcode::from(0xD123).n, 0x3);
}
