use x8616_cycles::instruction::{Instruction, Mnemonic, OperandType};
use x8616_cycles::timing286::{cond_taken, cycles_286, is_imm, is_mem, DEFAULT, M, MAX_CLOCKS};

const REG: OperandType = OperandType::Register16;
const REG8: OperandType = OperandType::Other;
const MEM: OperandType = OperandType::AddressingMode;
const IMM: OperandType = OperandType::Immediate16;
const NONE: OperandType = OperandType::Other;

fn instr(mnemonic: Mnemonic, opcode: u8, a: OperandType, b: OperandType) -> Instruction {
    Instruction { mnemonic, opcode, operand1_type: a, operand2_type: b }
}

fn count(mnemonic: Mnemonic, opcode: u8, a: OperandType, b: OperandType) -> u32 {
    cycles_286(&instr(mnemonic, opcode, a, b), 0, 0, 0)
}

#[test]
fn datasheet_rows() {
    assert_eq!(count(Mnemonic::MOV, 0x89, REG, REG), 2);
    assert_eq!(count(Mnemonic::MOV, 0x8B, REG, MEM), 5);
    assert_eq!(count(Mnemonic::MOV, 0x89, MEM, REG), 3);
    assert_eq!(count(Mnemonic::MOV, 0xB8, REG, IMM), 2);
    assert_eq!(count(Mnemonic::ADD, 0x01, REG, REG), 2);
    assert_eq!(count(Mnemonic::XOR, 0x81, REG, IMM), 3);
    assert_eq!(count(Mnemonic::SUB, 0x2B, REG, MEM), 7);
    assert_eq!(count(Mnemonic::CMP, 0x81, MEM, IMM), 6);
    assert_eq!(count(Mnemonic::CMP, 0x39, MEM, REG), 7);
    assert_eq!(count(Mnemonic::CMP, 0x81, REG, IMM), 3);
    assert_eq!(count(Mnemonic::CMP, 0x39, REG, REG), 2);
    assert_eq!(count(Mnemonic::TEST, 0x85, MEM, REG), 6);
    assert_eq!(count(Mnemonic::TEST, 0xA9, REG, IMM), 3);
    assert_eq!(count(Mnemonic::TEST, 0x85, REG, REG), 2);
    assert_eq!(count(Mnemonic::INC, 0x40, REG, NONE), 2);
    assert_eq!(count(Mnemonic::NEG, 0xF7, MEM, NONE), 7);
    assert_eq!(count(Mnemonic::XCHG, 0x87, REG, MEM), 5);
    assert_eq!(count(Mnemonic::XCHG, 0x87, REG, REG), 3);
    assert_eq!(count(Mnemonic::PUSH, 0x50, REG, NONE), 3);
    assert_eq!(count(Mnemonic::PUSH, 0xFF, MEM, NONE), 5);
    assert_eq!(count(Mnemonic::POP, 0x58, REG, NONE), 5);
    assert_eq!(count(Mnemonic::LEA, 0x8D, REG, MEM), 3);
    assert_eq!(count(Mnemonic::LEAVE, 0xC9, NONE, NONE), 5);
    assert_eq!(count(Mnemonic::ENTER, 0xC8, IMM, NONE), 11);
    assert_eq!(count(Mnemonic::PUSHF, 0x9C, NONE, NONE), 3);
    assert_eq!(count(Mnemonic::POPF, 0x9D, NONE, NONE), 5);
    assert_eq!(count(Mnemonic::POPA, 0x61, NONE, NONE), 19);
    assert_eq!(count(Mnemonic::LES, 0xC4, REG, MEM), 7);
    assert_eq!(count(Mnemonic::CWD, 0x99, NONE, NONE), 2);
    assert_eq!(count(Mnemonic::NOP, 0x90, NONE, NONE), 3);
    assert_eq!(count(Mnemonic::HLT, 0xF4, NONE, NONE), 2);
    assert_eq!(count(Mnemonic::STI, 0xFB, NONE, NONE), 2);
    assert_eq!(count(Mnemonic::IN, 0xE4, NONE, NONE), 5);
    assert_eq!(count(Mnemonic::OUT, 0xE6, NONE, NONE), 3);
    assert_eq!(count(Mnemonic::MOVSW, 0xA5, NONE, NONE), 5);
    assert_eq!(count(Mnemonic::STOSB, 0xAA, NONE, NONE), 3);
    assert_eq!(count(Mnemonic::LODSB, 0xAC, NONE, NONE), 5);
    assert_eq!(count(Mnemonic::SCASW, 0xAF, NONE, NONE), 7);
    assert_eq!(count(Mnemonic::CMPSB, 0xA6, NONE, NONE), 8);
}

#[test]
fn multiply_and_divide() {
    assert_eq!(count(Mnemonic::MUL, 0xF7, REG, NONE), 21);
    assert_eq!(count(Mnemonic::IMUL, 0xF7, REG, NONE), 21);
    assert_eq!(count(Mnemonic::DIV, 0xF7, REG, NONE), 22);
    assert_eq!(count(Mnemonic::IDIV, 0xF7, REG, NONE), 25);
    assert_eq!(count(Mnemonic::MUL, 0xF6, REG8, NONE), 13);
    assert_eq!(count(Mnemonic::DIV, 0xF6, REG8, NONE), 14);
    assert_eq!(count(Mnemonic::IDIV, 0xF6, REG8, NONE), 17);
    assert_eq!(count(Mnemonic::MUL, 0xF6, MEM, NONE), 16);
    assert_eq!(count(Mnemonic::DIV, 0xF6, MEM, NONE), 17);
    assert_eq!(count(Mnemonic::IDIV, 0xF6, MEM, NONE), 20);
    assert_eq!(count(Mnemonic::IMUL, 0x69, REG, MEM), 24);
    assert_eq!(count(Mnemonic::DIV, 0xF7, REG, MEM), 25);
    assert_eq!(count(Mnemonic::IDIV, 0xF7, REG, MEM), 28);
}

#[test]
fn shifts() {
    let by = |n: u8, op: u8, a: OperandType, b: OperandType| {
        cycles_286(&instr(Mnemonic::SHL, op, a, b), 0, n, 0)
    };
    assert_eq!(by(9, 0xD1, REG, NONE), 2);
    assert_eq!(by(9, 0xD1, MEM, NONE), 7);
    assert_eq!(by(9, 0xD3, REG, NONE), 14);
    assert_eq!(by(9, 0xD3, MEM, NONE), 17);
    assert_eq!(by(255, 0xD3, MEM, NONE), MAX_CLOCKS);
    assert_eq!(by(0, 0xC1, REG, OperandType::Immediate8(4)), 9);
    assert_eq!(by(0, 0xC1, MEM, OperandType::Immediate8(4)), 12);
    assert_eq!(by(0, 0xC1, REG, OperandType::Immediate8s(-1)), 260);
    assert_eq!(by(0, 0xC0, REG, OperandType::Immediate8s(7)), 12);
    assert_eq!(by(0, 0xC1, REG, REG), 6);
    assert_eq!(by(9, 0x00, REG, NONE), 2);
}

#[test]
fn control_transfer() {
    assert_eq!(count(Mnemonic::JMP, 0xEB, NONE, NONE), 7 + M);
    assert_eq!(count(Mnemonic::JMP, 0xFF, MEM, NONE), 11 + M);
    assert_eq!(count(Mnemonic::JMP, 0xFF, REG, NONE), 7 + M);
    assert_eq!(count(Mnemonic::JMP, 0xEA, OperandType::FarAddress, NONE), 11 + M);
    assert_eq!(count(Mnemonic::CALL, 0xE8, NONE, NONE), 7 + M);
    assert_eq!(count(Mnemonic::CALL, 0x9A, OperandType::FarAddress, NONE), 13 + M);
    assert_eq!(count(Mnemonic::CALL, 0xFF, MEM, NONE), 11 + M);
    assert_eq!(count(Mnemonic::RETN, 0xC3, NONE, NONE), 14);
    assert_eq!(count(Mnemonic::RETF, 0xCB, NONE, NONE), 18);
    assert_eq!(count(Mnemonic::INT, 0xCD, NONE, NONE), 26);
    assert_eq!(count(Mnemonic::INT3, 0xCC, NONE, NONE), 26);
    assert_eq!(count(Mnemonic::IRET, 0xCF, NONE, NONE), 20);
}

#[test]
fn loops() {
    let cost = |m: Mnemonic, flags: u16, cx: u16| {
        cycles_286(&instr(m, 0xE2, NONE, NONE), flags, 0, cx)
    };
    assert_eq!(cost(Mnemonic::LOOP, 0, 2), 11);
    assert_eq!(cost(Mnemonic::LOOP, 0, 1), 4);
    assert_eq!(cost(Mnemonic::LOOP, 0, 0), 11);
    assert_eq!(cost(Mnemonic::LOOPE, 0x40, 2), 11);
    assert_eq!(cost(Mnemonic::LOOPE, 0, 2), 4);
    assert_eq!(cost(Mnemonic::LOOPNE, 0, 2), 11);
    assert_eq!(cost(Mnemonic::LOOPNE, 0x40, 2), 4);
    assert_eq!(cost(Mnemonic::LOOPNE, 0, 1), 4);
    assert_eq!(cost(Mnemonic::JCXZ, 0, 0), 11);
    assert_eq!(cost(Mnemonic::JCXZ, 0, 1), 4);
}

#[test]
fn conditions() {
    let (cf, pf, zf, sf, of) = (0x0001, 0x0004, 0x0040, 0x0080, 0x0800);
    assert!(cond_taken(0x0, of));
    assert!(cond_taken(0x2, cf));
    assert!(cond_taken(0x4, zf));
    assert!(cond_taken(0x6, cf) && cond_taken(0x6, zf) && !cond_taken(0x6, sf));
    assert!(cond_taken(0x7, 0) && !cond_taken(0x7, cf));
    assert!(cond_taken(0x8, sf));
    assert!(cond_taken(0xA, pf));
    assert!(cond_taken(0xC, sf) && cond_taken(0xC, of) && !cond_taken(0xC, sf | of));
    assert!(cond_taken(0xD, sf | of) && cond_taken(0xD, 0));
    assert!(cond_taken(0xE, zf) && cond_taken(0xE, of) && !cond_taken(0xE, 0));
    assert!(cond_taken(0xF, 0) && cond_taken(0xF, sf | of) && !cond_taken(0xF, zf));
    for flags in 0..=u16::MAX {
        for cc in 0..8u8 {
            assert_ne!(cond_taken(2 * cc, flags), cond_taken(2 * cc + 1, flags));
            assert_eq!(cond_taken(2 * cc, flags), cond_taken(0x70 + 2 * cc, flags));
        }
    }
}

#[test]
fn conditional_branches() {
    let jz = instr(Mnemonic::Other, 0x74, NONE, NONE);
    assert_eq!(cycles_286(&jz, 0x40, 0, 0), 7 + M);
    assert_eq!(cycles_286(&jz, 0, 0, 0), 3);
    let jnz = instr(Mnemonic::Other, 0x75, NONE, NONE);
    assert_eq!(cycles_286(&jz, 0x40, 0, 0) + cycles_286(&jnz, 0x40, 0, 0), 10 + M);
}

#[test]
fn unlisted_operations_take_the_default() {
    assert_eq!(count(Mnemonic::Other, 0x27, NONE, NONE), DEFAULT);
    assert_eq!(count(Mnemonic::Other, 0x80, NONE, NONE), DEFAULT);
    assert_eq!(count(Mnemonic::Other, 0x6F, NONE, NONE), 4);
}

#[test]
fn addressing_is_free() {
    for m in [OperandType::Offset8, OperandType::Offset16, OperandType::M16Pair, OperandType::FarAddress] {
        assert!(is_mem(m) && !is_imm(m));
        assert_eq!(count(Mnemonic::ADD, 0x03, REG, m), count(Mnemonic::ADD, 0x03, REG, MEM));
        assert_eq!(count(Mnemonic::MOV, 0xA3, m, REG), count(Mnemonic::MOV, 0x89, MEM, REG));
    }
    assert!(!is_mem(REG) && is_imm(IMM) && is_imm(OperandType::Immediate8(1)));
    assert!(is_imm(OperandType::Immediate8s(-1)) && !is_imm(REG) && !is_mem(IMM));
}

#[test]
fn state_matters_to_data_dependent_forms_only() {
    let add = instr(Mnemonic::ADD, 0x01, REG, REG);
    assert_eq!(cycles_286(&add, 0, 0, 0), cycles_286(&add, 0xffff, 77, 1));
    let shl = instr(Mnemonic::SHL, 0xD3, REG, NONE);
    assert_eq!(cycles_286(&shl, 0, 3, 0), 8);
    assert_eq!(cycles_286(&shl, 0xffff, 3, 9), 8);
    assert_eq!(cycles_286(&shl, 0, 4, 0), 9);
}
