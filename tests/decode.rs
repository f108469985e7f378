use chip_oxide::{ChipError, Instruction};

fn ok(word: u16) -> Instruction {
    match Instruction::decode(word) {
        Ok(i) => i,
        Err(e) => panic!("{:04x} did not decode: {:?}", word, e),
    }
}

#[test]
fn decodes_every_row_of_the_table() {
    assert_eq!(ok(0x00E0), Instruction::Clear);
    assert_eq!(ok(0x00EE), Instruction::Return);
    assert_eq!(ok(0x1ABC), Instruction::Jump(0xABC));
    assert_eq!(ok(0x2ABC), Instruction::SubRoutine(0xABC));
    assert_eq!(ok(0x3A12), Instruction::SkipED(0xA, 0x12));
    assert_eq!(ok(0x4A12), Instruction::SkipNED(0xA, 0x12));
    assert_eq!(ok(0x5AB0), Instruction::SkipER(0xA, 0xB));
    assert_eq!(ok(0x6A12), Instruction::SetRegisterD(0xA, 0x12));
    assert_eq!(ok(0x7A12), Instruction::AddRegisterD(0xA, 0x12));
    assert_eq!(ok(0x8AB0), Instruction::SetRegisterR(0xA, 0xB));
    assert_eq!(ok(0x8AB1), Instruction::BinaryOR(0xA, 0xB));
    assert_eq!(ok(0x8AB2), Instruction::BinaryAND(0xA, 0xB));
    assert_eq!(ok(0x8AB3), Instruction::LogicalXOR(0xA, 0xB));
    assert_eq!(ok(0x8AB4), Instruction::AddRegisterR(0xA, 0xB));
    assert_eq!(ok(0x8AB5), Instruction::SubtractXY(0xA, 0xB));
    assert_eq!(ok(0x8AB6), Instruction::ShiftRight(0xA, 0xB));
    assert_eq!(ok(0x8AB7), Instruction::SubtractYX(0xA, 0xB));
    assert_eq!(ok(0x8ABE), Instruction::ShiftLeft(0xA, 0xB));
    assert_eq!(ok(0x9AB0), Instruction::SkipNER(0xA, 0xB));
    assert_eq!(ok(0xAABC), Instruction::SetIndex(0xABC));
    assert_eq!(ok(0xBABC), Instruction::OffsetJump(0xA, 0xABC));
    assert_eq!(ok(0xCA12), Instruction::Random(0xA, 0x12));
    assert_eq!(ok(0xDAB5), Instruction::Draw(0xA, 0xB, 5));
    assert_eq!(ok(0xEA9E), Instruction::KeyPressed(0xA));
    assert_eq!(ok(0xEAA1), Instruction::KeyReleased(0xA));
    assert_eq!(ok(0xFA07), Instruction::GetDelay(0xA));
    assert_eq!(ok(0xFA0A), Instruction::KeyWait(0xA));
    assert_eq!(ok(0xFA15), Instruction::SetDelay(0xA));
    assert_eq!(ok(0xFA18), Instruction::SetSound(0xA));
    assert_eq!(ok(0xFA1E), Instruction::AddIndex(0xA));
    assert_eq!(ok(0xFA29), Instruction::GetFont(0xA));
    assert_eq!(ok(0xFA33), Instruction::AsDecimal(0xA));
    assert_eq!(ok(0xFA55), Instruction::Save(0xA));
    assert_eq!(ok(0xFA65), Instruction::Load(0xA));
}

#[test]
fn decode_keeps_every_field() {
    assert_eq!(ok(0x1000), Instruction::Jump(0));
    assert_eq!(ok(0x1FFF), Instruction::Jump(0xFFF));
    assert_eq!(ok(0x3FFF), Instruction::SkipED(0xF, 0xFF));
    assert_eq!(ok(0xD000), Instruction::Draw(0, 0, 0));
    assert_eq!(ok(0xDFFF), Instruction::Draw(0xF, 0xF, 0xF));
    assert_eq!(ok(0xB123), Instruction::OffsetJump(1, 0x123));
}

#[test]
fn decode_rejects_words_outside_the_table() {
    for word in [
        0x0000u16, 0x00E1, 0x00EF, 0x01E0, 0x0123, 0x5AB1, 0x800F, 0x8AB8, 0x8ABD, 0x9AB1,
        0xE000, 0xEA9F, 0xEAA2, 0xF000, 0xFA08, 0xFA56, 0xFA66, 0xFFFF,
    ] {
        match Instruction::decode(word) {
            Err(ChipError::Decode(w)) => assert_eq!(w, word),
            other => panic!("{:04x} decoded to {:?}", word, other),
        }
    }
}

#[test]
fn decode_accepts_exactly_the_table() {
    let mut accepted: u32 = 0;
    for word in 0..=u16::MAX {
        if Instruction::decode(word).is_ok() {
            accepted += 1;
        }
    }
    // 1nnn, 2nnn, 3xnn, 4xnn, 6xnn, 7xnn, Annn, Bnnn, Cxnn, Dxyn: 10 * 4096;
    // 5xy0, 8xy0..7, 8xyE, 9xy0: 11 * 256; Ex9E, ExA1, nine Fx rows: 11 * 16;
    // 00E0 and 00EE.
    assert_eq!(accepted, 10 * 4096 + 11 * 256 + 11 * 16 + 2);
}

#[test]
fn try_from_matches_decode() {
    assert_eq!(Instruction::try_from(0xD123).unwrap(), Instruction::Draw(1, 2, 3));
    assert!(matches!(Instruction::try_from(0xF0FF), Err(ChipError::Decode(0xF0FF))));
}
