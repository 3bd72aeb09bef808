//! What the timing model reads of a decoded instruction.
//!
//! The decoder belongs to the CPU core; a decoded instruction is handed over
//! as these plain values.
use vstd::prelude::*;

verus! {

/// The operations that have a row of their own in the timing table. Every
/// other operation, the conditional branches among them, is `Other`.
#[derive(Clone, Copy, Debug, PartialEq, Eq, Structural)]
pub enum Mnemonic {
    MOV,
    LEA,
    XCHG,
    PUSH,
    POP,
    PUSHF,
    PUSHA,
    POPF,
    POPA,
    LDS,
    LES,
    CBW,
    CWD,
    ADD,
    OR,
    ADC,
    SBB,
    AND,
    SUB,
    XOR,
    CMP,
    TEST,
    INC,
    DEC,
    NEG,
    NOT,
    SHL,
    SHR,
    SAR,
    ROL,
    ROR,
    RCL,
    RCR,
    MUL,
    IMUL,
    DIV,
    IDIV,
    JMP,
    CALL,
    RETN,
    RETF,
    LOOP,
    LOOPE,
    LOOPNE,
    JCXZ,
    INT,
    INT3,
    IRET,
    MOVSB,
    MOVSW,
    STOSB,
    STOSW,
    LODSB,
    LODSW,
    SCASB,
    SCASW,
    CMPSB,
    CMPSW,
    ENTER,
    LEAVE,
    NOP,
    HLT,
    CLC,
    STC,
    CMC,
    CLD,
    STD,
    CLI,
    STI,
    IN,
    OUT,
    Other,
}

/// The kind of an operand. Only the two byte immediates carry a value: it is
/// the count of an immediate shift.
#[derive(Clone, Copy, Debug, PartialEq, Eq, Structural)]
pub enum OperandType {
    Immediate8(u8),
    Immediate16,
    Immediate8s(i8),
    Register16,
    /// Memory, through a ModRM addressing mode.
    AddressingMode,
    /// A byte in memory, at a direct offset.
    Offset8,
    /// A word in memory, at a direct offset.
    Offset16,
    /// A pair of words in memory.
    M16Pair,
    FarAddress,
    /// A byte register, a relative displacement, or no operand.
    Other,
}

/// A decoded instruction.
#[derive(Clone, Copy, Debug, PartialEq, Eq, Structural)]
pub struct Instruction {
    pub mnemonic: Mnemonic,
    pub opcode: u8,
    pub operand1_type: OperandType,
    pub operand2_type: OperandType,
}

} // verus!
