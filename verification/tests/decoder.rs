use chip8::insts::Instruction;

#[test]
fn decode_clear_screen() {
    assert_eq!(Instruction::new(0x00E0), Instruction::ClearScreen);
}

#[test]
fn decode_ret() {
    assert_eq!(Instruction::new(0x00EE), Instruction::Ret);
}

#[test]
fn decode_jump() {
    assert_eq!(Instruction::new(0x12F0), Instruction::Jump(0x2F0));
    assert_eq!(Instruction::new(0x1000), Instruction::Jump(0x000));
    assert_eq!(Instruction::new(0x1FFF), Instruction::Jump(0xFFF));
}

#[test]
fn decode_call() {
    assert_eq!(Instruction::new(0x2300), Instruction::Call(0x300));
    assert_eq!(Instruction::new(0x2ABC), Instruction::Call(0xABC));
}

#[test]
fn decode_set_register() {
    assert_eq!(Instruction::new(0x6A12), Instruction::SetRegister(0xA, 0x12));
    assert_eq!(Instruction::new(0x60FF), Instruction::SetRegister(0x0, 0xFF));
}

#[test]
fn decode_add_register() {
    assert_eq!(Instruction::new(0x7B34), Instruction::AddRegister(0xB, 0x34));
    assert_eq!(Instruction::new(0x7F01), Instruction::AddRegister(0xF, 0x01));
}

#[test]
fn decode_set_index() {
    assert_eq!(Instruction::new(0xA123), Instruction::SetI(0x123));
    assert_eq!(Instruction::new(0xAFFF), Instruction::SetI(0xFFF));
}

#[test]
fn decode_draw() {
    assert_eq!(Instruction::new(0xD125), Instruction::Draw(1, 2, 5));
    assert_eq!(Instruction::new(0xDF0A), Instruction::Draw(0xF, 0, 0xA));
}

#[test]
fn decode_unknown() {
    assert_eq!(Instruction::new(0x0000), Instruction::ERROR(0x0000));
    assert_eq!(Instruction::new(0x00E1), Instruction::ERROR(0x00E1));
    assert_eq!(Instruction::new(0x0123), Instruction::ERROR(0x0123));
    assert_eq!(Instruction::new(0x8124), Instruction::ERROR(0x8124));
    assert_eq!(Instruction::new(0xE09E), Instruction::ERROR(0xE09E));
    assert_eq!(Instruction::new(0xFFFF), Instruction::ERROR(0xFFFF));
}

#[test]
fn decode_total_all_words() {
    // Every one of the 65536 words decodes to exactly one variant, and the
    // variant agrees with the nibble table, checked here independently.
    for w32 in 0..=0xFFFFu32 {
        let w = w32 as u16;
        let hi = w >> 12;
        match Instruction::new(w) {
            Instruction::ClearScreen => assert_eq!(w, 0x00E0),
            Instruction::Ret => assert_eq!(w, 0x00EE),
            Instruction::Jump(a) => {
                assert_eq!(hi, 0x1);
                assert_eq!(a, w & 0x0FFF);
            }
            Instruction::Call(a) => {
                assert_eq!(hi, 0x2);
                assert_eq!(a, w & 0x0FFF);
            }
            Instruction::SetRegister(x, v) => {
                assert_eq!(hi, 0x6);
                assert_eq!(x as u16, (w >> 8) & 0xF);
                assert_eq!(v as u16, w & 0xFF);
            }
            Instruction::AddRegister(x, v) => {
                assert_eq!(hi, 0x7);
                assert_eq!(x as u16, (w >> 8) & 0xF);
                assert_eq!(v as u16, w & 0xFF);
            }
            Instruction::SetI(a) => {
                assert_eq!(hi, 0xA);
                assert_eq!(a, w & 0x0FFF);
            }
            Instruction::Draw(x, y, n) => {
                assert_eq!(hi, 0xD);
                assert_eq!(x, (w >> 8) & 0xF);
                assert_eq!(y, (w >> 4) & 0xF);
                assert_eq!(n, w & 0xF);
            }
            Instruction::ERROR(raw) => {
                assert_eq!(raw, w);
                assert_ne!(w, 0x00E0);
                assert_ne!(w, 0x00EE);
                assert!(hi != 0x1 && hi != 0x2 && hi != 0x6 && hi != 0x7 && hi != 0xA && hi != 0xD);
            }
        }
    }
}
