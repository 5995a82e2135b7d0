use chip8::instruction::decode;
use chip8::{AluOp, Instruction, MiscOp};

#[test]
fn decodes_screen_and_flow_instructions() {
    assert_eq!(decode(0x00E0), Some(Instruction::ClearScreen));
    assert_eq!(decode(0x00EE), Some(Instruction::Return));
    assert_eq!(decode(0x1ABC), Some(Instruction::Jump { addr: 0xABC }));
    assert_eq!(decode(0x2FFF), Some(Instruction::Call { addr: 0xFFF }));
    assert_eq!(decode(0xB123), Some(Instruction::JumpOffset { addr: 0x123 }));
}

#[test]
fn decodes_skip_instructions() {
    assert_eq!(decode(0x3A42), Some(Instruction::SkipIfEqual { x: 0xA, value: 0x42 }));
    assert_eq!(decode(0x4B99), Some(Instruction::SkipIfNotEqual { x: 0xB, value: 0x99 }));
    assert_eq!(decode(0x5120), Some(Instruction::SkipIfRegistersEqual { x: 1, y: 2 }));
    assert_eq!(decode(0x9EF0), Some(Instruction::SkipIfRegistersNotEqual { x: 0xE, y: 0xF }));
    assert_eq!(decode(0xE79E), Some(Instruction::SkipIfKey { x: 7 }));
    assert_eq!(decode(0xE8A1), Some(Instruction::SkipIfNotKey { x: 8 }));
}

#[test]
fn decodes_immediate_instructions() {
    assert_eq!(decode(0x6C01), Some(Instruction::LoadImmediate { x: 0xC, value: 0x01 }));
    assert_eq!(decode(0x7DFF), Some(Instruction::AddImmediate { x: 0xD, value: 0xFF }));
    assert_eq!(decode(0xA2F0), Some(Instruction::LoadIndex { addr: 0x2F0 }));
    assert_eq!(decode(0xC30F), Some(Instruction::Random { x: 3, mask: 0x0F }));
    assert_eq!(decode(0xD125), Some(Instruction::Draw { x: 1, y: 2, rows: 5 }));
    assert_eq!(decode(0xDAB0), Some(Instruction::Draw { x: 0xA, y: 0xB, rows: 0 }));
}

#[test]
fn decodes_every_alu_operation() {
    let expected = [
        (0x0, AluOp::Assign),
        (0x1, AluOp::Or),
        (0x2, AluOp::And),
        (0x3, AluOp::Xor),
        (0x4, AluOp::Add),
        (0x5, AluOp::Subtract),
        (0x6, AluOp::ShiftRight),
        (0x7, AluOp::SubtractFrom),
        (0xE, AluOp::ShiftLeft),
    ];
    for (n, op) in expected {
        assert_eq!(decode(0x8AB0 | n), Some(Instruction::Alu { op, x: 0xA, y: 0xB }));
    }
}

#[test]
fn decodes_every_misc_operation() {
    let expected = [
        (0x07, MiscOp::ReadDelay),
        (0x0A, MiscOp::WaitForKey),
        (0x15, MiscOp::SetDelay),
        (0x18, MiscOp::SetSound),
        (0x1E, MiscOp::AddToIndex),
        (0x29, MiscOp::LoadGlyph),
        (0x33, MiscOp::StoreBcd),
        (0x55, MiscOp::StoreRegisters),
        (0x65, MiscOp::LoadRegisters),
    ];
    for (nn, action) in expected {
        assert_eq!(decode(0xF400 | nn), Some(Instruction::Misc { action, x: 4 }));
    }
}

#[test]
fn rejects_words_that_encode_nothing() {
    assert_eq!(decode(0x0000), None);
    assert_eq!(decode(0x00E1), None);
    assert_eq!(decode(0x0123), None);
    assert_eq!(decode(0x5121), None);
    assert_eq!(decode(0x9AB1), None);
    assert_eq!(decode(0x8128), None);
    assert_eq!(decode(0x812F), None);
    assert_eq!(decode(0xE19F), None);
    assert_eq!(decode(0xE100), None);
    assert_eq!(decode(0xF100), None);
    assert_eq!(decode(0xF1FF), None);
}

#[test]
fn counts_the_encodings_of_each_family() {
    let mut alu = 0;
    let mut misc = 0;
    let mut keys = 0;
    for low in 0..=0xFFu16 {
        if decode(0xF000 | low).is_some() {
            misc += 1;
        }
        if decode(0xE000 | low).is_some() {
            keys += 1;
        }
    }
    for n in 0..=0xFu16 {
        if decode(0x8000 | n).is_some() {
            alu += 1;
        }
    }
    assert_eq!(alu, 9);
    assert_eq!(misc, 9);
    assert_eq!(keys, 2);
}

#[test]
fn every_decoded_register_index_is_below_sixteen() {
    for opcode in 0..=0xFFFFu16 {
        match decode(opcode) {
            Some(Instruction::Alu { x, y, .. })
            | Some(Instruction::SkipIfRegistersEqual { x, y })
            | Some(Instruction::SkipIfRegistersNotEqual { x, y }) => {
                assert!(x < 16 && y < 16);
            }
            Some(Instruction::Draw { x, y, rows }) => {
                assert!(x < 16 && y < 16 && rows < 16);
            }
            Some(Instruction::Jump { addr })
            | Some(Instruction::Call { addr })
            | Some(Instruction::LoadIndex { addr })
            | Some(Instruction::JumpOffset { addr }) => {
                assert!(addr < 4096);
            }
            _ => {}
        }
    }
}
