//! The rows of the 80286 datasheet, operation by operation.
//!
//! Each law gives the clocks of the operations that it names, in every operand
//! form and under every FLAGS, CL and CX. Between them they name every
//! operation.
use vstd::prelude::*;

use crate::instruction::{Instruction, OperandType};
use crate::timing286::{
    branch_taken, clocks, immediate, in_memory, touches_memory, word_register,
};

verus! {

/// Which operands are in memory and which are immediates: an addressing mode,
/// a direct offset, a pair of words and a far address are in memory; a byte, a
/// word and a sign-extended byte are immediates; a register is neither.
pub proof fn law_operand_kinds(v: u8, w: i8)
    ensures
        in_memory(OperandType::AddressingMode),
        in_memory(OperandType::Offset8),
        in_memory(OperandType::Offset16),
        in_memory(OperandType::M16Pair),
        in_memory(OperandType::FarAddress),
        !in_memory(OperandType::Register16),
        !in_memory(OperandType::Immediate8(v)),
        !in_memory(OperandType::Immediate16),
        !in_memory(OperandType::Immediate8s(w)),
        !in_memory(OperandType::Other),
        immediate(OperandType::Immediate8(v)),
        immediate(OperandType::Immediate16),
        immediate(OperandType::Immediate8s(w)),
        !immediate(OperandType::AddressingMode),
        !immediate(OperandType::Offset8),
        !immediate(OperandType::Offset16),
        !immediate(OperandType::M16Pair),
        !immediate(OperandType::FarAddress),
        !immediate(OperandType::Register16),
        !immediate(OperandType::Other),
{
}

/// An instruction touches memory through either operand, and works on words
/// where either operand is a 16-bit register.
pub proof fn law_either_operand_counts(i: Instruction)
    ensures
        in_memory(i.operand1_type) ==> touches_memory(i),
        in_memory(i.operand2_type) ==> touches_memory(i),
        touches_memory(i) ==> in_memory(i.operand1_type) || in_memory(i.operand2_type),
        i.operand1_type is Register16 ==> word_register(i),
        i.operand2_type is Register16 ==> word_register(i),
        word_register(i) ==> i.operand1_type is Register16 || i.operand2_type is Register16,
{
}

/// Moves: 2 between registers, 3 to memory, 5 from memory. An exchange takes 3
/// and 5, a push 3 and 5 from memory; the rest do not depend on where their
/// operands are.
pub proof fn law_data_movement(i: Instruction, flags: u16, cl: u8, cx: u16)
    ensures
        ({
            let n = clocks(i, flags, cl, cx);
            let to_memory = in_memory(i.operand1_type);
            let from_memory = in_memory(i.operand2_type);
            &&& i.mnemonic is MOV && to_memory ==> n == 3
            &&& i.mnemonic is MOV && !to_memory && from_memory ==> n == 5
            &&& i.mnemonic is MOV && !to_memory && !from_memory ==> n == 2
            &&& i.mnemonic is XCHG && (to_memory || from_memory) ==> n == 5
            &&& i.mnemonic is XCHG && !to_memory && !from_memory ==> n == 3
            &&& i.mnemonic is PUSH && to_memory ==> n == 5
            &&& i.mnemonic is PUSH && !to_memory ==> n == 3
            &&& i.mnemonic is POP ==> n == 5
            &&& i.mnemonic is LEA ==> n == 3
            &&& i.mnemonic is PUSHF ==> n == 3
            &&& i.mnemonic is PUSHA ==> n == 3
            &&& i.mnemonic is POPF ==> n == 5
            &&& i.mnemonic is POPA ==> n == 19
            &&& i.mnemonic is LDS ==> n == 7
            &&& i.mnemonic is LES ==> n == 7
            &&& i.mnemonic is CBW ==> n == 2
            &&& i.mnemonic is CWD ==> n == 2
            &&& i.mnemonic is IN ==> n == 5
            &&& i.mnemonic is OUT ==> n == 3
        }),
{
}

/// Two-operand arithmetic and logic: 2 between registers, 3 with an immediate,
/// 7 with memory.
pub proof fn law_two_operand_arithmetic(i: Instruction, flags: u16, cl: u8, cx: u16)
    requires
        i.mnemonic is ADD || i.mnemonic is OR || i.mnemonic is ADC || i.mnemonic is SBB
            || i.mnemonic is AND || i.mnemonic is SUB || i.mnemonic is XOR,
    ensures
        ({
            let n = clocks(i, flags, cl, cx);
            let memory = in_memory(i.operand1_type) || in_memory(i.operand2_type);
            &&& memory ==> n == 7
            &&& !memory && immediate(i.operand2_type) ==> n == 3
            &&& !memory && !immediate(i.operand2_type) ==> n == 2
        }),
{
}

/// Comparing takes as long as subtracting, but 6 for memory with an immediate;
/// testing takes 6 for every memory form.
pub proof fn law_comparisons(i: Instruction, flags: u16, cl: u8, cx: u16)
    requires
        i.mnemonic is CMP || i.mnemonic is TEST,
    ensures
        ({
            let n = clocks(i, flags, cl, cx);
            let memory = in_memory(i.operand1_type) || in_memory(i.operand2_type);
            let with_immediate = immediate(i.operand2_type);
            &&& !memory && with_immediate ==> n == 3
            &&& !memory && !with_immediate ==> n == 2
            &&& i.mnemonic is TEST && memory ==> n == 6
            &&& i.mnemonic is CMP && in_memory(i.operand1_type) && with_immediate ==> n == 6
            &&& i.mnemonic is CMP && in_memory(i.operand2_type) ==> n == 7
            &&& i.mnemonic is CMP && memory && !with_immediate ==> n == 7
        }),
{
}

/// One-operand arithmetic: 2 in a register, 7 in memory.
pub proof fn law_one_operand_arithmetic(i: Instruction, flags: u16, cl: u8, cx: u16)
    requires
        i.mnemonic is INC || i.mnemonic is DEC || i.mnemonic is NEG || i.mnemonic is NOT,
    ensures
        ({
            let memory = in_memory(i.operand1_type) || in_memory(i.operand2_type);
            &&& memory ==> clocks(i, flags, cl, cx) == 7
            &&& !memory ==> clocks(i, flags, cl, cx) == 2
        }),
{
}

/// Shifts and rotates. By an immediate byte (C0, C1) they take 5 clocks and one
/// for each step, 8 in memory; the byte counts as unsigned. By CL (D2, D3) it
/// is CL that counts. By one (D0, D1) they take 2, and 7 in memory.
pub proof fn law_shifts_and_rotates(i: Instruction, flags: u16, cl: u8, cx: u16)
    requires
        i.mnemonic is SHL || i.mnemonic is SHR || i.mnemonic is SAR || i.mnemonic is ROL
            || i.mnemonic is ROR || i.mnemonic is RCL || i.mnemonic is RCR,
    ensures
        ({
            let n = clocks(i, flags, cl, cx);
            let memory = in_memory(i.operand1_type) || in_memory(i.operand2_type);
            let more: int = if memory { 3 } else { 0 };
            let by_immediate = i.opcode == 0xC0 || i.opcode == 0xC1;
            let by_cl = i.opcode == 0xD2 || i.opcode == 0xD3;
            &&& by_immediate ==> match i.operand2_type {
                OperandType::Immediate8(v) => n == 5 + v + more,
                OperandType::Immediate8s(v) => n == 5 + v + more + if v < 0 { 256int } else { 0 },
                _ => n == 6 + more,
            }
            &&& by_cl ==> n == 5 + cl + more
            &&& i.opcode == 0xD0 || i.opcode == 0xD1 ==> n == if memory { 7int } else { 2 }
            &&& !by_immediate && !by_cl ==> n == if memory { 7int } else { 2 }
        }),
{
}

/// Multiplying and dividing: bytes and words, in a register and in memory. A
/// memory operand takes 3 more, and a word 8 more than a byte.
pub proof fn law_multiply_and_divide(i: Instruction, flags: u16, cl: u8, cx: u16)
    ensures
        ({
            let n = clocks(i, flags, cl, cx);
            let memory = in_memory(i.operand1_type) || in_memory(i.operand2_type);
            let word = i.operand1_type is Register16 || i.operand2_type is Register16;
            let more: int = (if memory { 3int } else { 0 }) + if word { 8int } else { 0 };
            &&& i.mnemonic is MUL ==> n == 13 + more
            &&& i.mnemonic is IMUL ==> n == 13 + more
            &&& i.mnemonic is DIV ==> n == 14 + more
            &&& i.mnemonic is IDIV ==> n == 17 + more
        }),
{
}

/// Jumps, calls and returns, with the reload of the prefetch queue: 10 to a
/// near target, 14 through memory; a far jump takes 14 and a far call 16.
pub proof fn law_control_transfer(i: Instruction, flags: u16, cl: u8, cx: u16)
    ensures
        ({
            let n = clocks(i, flags, cl, cx);
            let memory = in_memory(i.operand1_type) || in_memory(i.operand2_type);
            let through_memory = i.opcode == 0xFF && memory;
            &&& i.mnemonic is JMP && i.opcode == 0xEA ==> n == 14
            &&& i.mnemonic is JMP && through_memory ==> n == 14
            &&& i.mnemonic is JMP && i.opcode != 0xEA && !through_memory ==> n == 10
            &&& i.mnemonic is CALL && i.opcode == 0x9A ==> n == 16
            &&& i.mnemonic is CALL && through_memory ==> n == 14
            &&& i.mnemonic is CALL && i.opcode != 0x9A && !through_memory ==> n == 10
            &&& i.mnemonic is RETN ==> n == 14
            &&& i.mnemonic is RETF ==> n == 18
            &&& i.mnemonic is INT ==> n == 26
            &&& i.mnemonic is INT3 ==> n == 26
            &&& i.mnemonic is IRET ==> n == 20
        }),
{
}

/// Loops take 11 clocks where they branch back and 4 where they fall through.
/// They branch back while CX, before it is counted down, is not 1; LOOPE also
/// wants the zero flag set, and LOOPNE wants it clear. JCXZ branches where CX
/// is 0.
pub proof fn law_loops(i: Instruction, flags: u16, cl: u8, cx: u16)
    ensures
        ({
            let n = clocks(i, flags, cl, cx);
            let zero = flags & 0x0040 != 0;
            &&& i.mnemonic is LOOP ==> n == if cx != 1 { 11int } else { 4 }
            &&& i.mnemonic is LOOPE ==> n == if cx != 1 && zero { 11int } else { 4 }
            &&& i.mnemonic is LOOPNE ==> n == if cx != 1 && !zero { 11int } else { 4 }
            &&& i.mnemonic is JCXZ ==> n == if cx == 0 { 11int } else { 4 }
        }),
{
    assert((flags & 0x0040 != 0) == ((flags / 0x0040) % 2 == 1)) by (bit_vector);
}

/// String operations, stack frames and the rest.
pub proof fn law_strings_and_the_rest(i: Instruction, flags: u16, cl: u8, cx: u16)
    ensures
        ({
            let n = clocks(i, flags, cl, cx);
            &&& i.mnemonic is MOVSB ==> n == 5
            &&& i.mnemonic is MOVSW ==> n == 5
            &&& i.mnemonic is STOSB ==> n == 3
            &&& i.mnemonic is STOSW ==> n == 3
            &&& i.mnemonic is LODSB ==> n == 5
            &&& i.mnemonic is LODSW ==> n == 5
            &&& i.mnemonic is SCASB ==> n == 7
            &&& i.mnemonic is SCASW ==> n == 7
            &&& i.mnemonic is CMPSB ==> n == 8
            &&& i.mnemonic is CMPSW ==> n == 8
            &&& i.mnemonic is ENTER ==> n == 11
            &&& i.mnemonic is LEAVE ==> n == 5
            &&& i.mnemonic is NOP ==> n == 3
            &&& i.mnemonic is HLT ==> n == 2
            &&& i.mnemonic is CLC ==> n == 2
            &&& i.mnemonic is STC ==> n == 2
            &&& i.mnemonic is CMC ==> n == 2
            &&& i.mnemonic is CLD ==> n == 2
            &&& i.mnemonic is STD ==> n == 2
            &&& i.mnemonic is CLI ==> n == 2
            &&& i.mnemonic is STI ==> n == 2
        }),
{
}

/// What the sixteen conditions test, by the low nibble of the opcode: overflow,
/// carry, zero, carry or zero, sign, parity, less, less or equal; each is
/// followed by its opposite.
pub proof fn law_conditions(cc: u8, flags: u16)
    ensures
        ({
            let carry = flags & 0x0001 != 0;
            let parity = flags & 0x0004 != 0;
            let zero = flags & 0x0040 != 0;
            let sign = flags & 0x0080 != 0;
            let overflow = flags & 0x0800 != 0;
            let taken = branch_taken(cc, flags);
            &&& cc % 16 == 0x0 ==> taken == overflow
            &&& cc % 16 == 0x1 ==> taken == !overflow
            &&& cc % 16 == 0x2 ==> taken == carry
            &&& cc % 16 == 0x3 ==> taken == !carry
            &&& cc % 16 == 0x4 ==> taken == zero
            &&& cc % 16 == 0x5 ==> taken == !zero
            &&& cc % 16 == 0x6 ==> taken == (carry || zero)
            &&& cc % 16 == 0x7 ==> taken == (!carry && !zero)
            &&& cc % 16 == 0x8 ==> taken == sign
            &&& cc % 16 == 0x9 ==> taken == !sign
            &&& cc % 16 == 0xA ==> taken == parity
            &&& cc % 16 == 0xB ==> taken == !parity
            &&& cc % 16 == 0xC ==> taken == (sign != overflow)
            &&& cc % 16 == 0xD ==> taken == (sign == overflow)
            &&& cc % 16 == 0xE ==> taken == (zero || sign != overflow)
            &&& cc % 16 == 0xF ==> taken == (!zero && sign == overflow)
        }),
{
    assert((flags & 0x0001 != 0) == ((flags / 0x0001) % 2 == 1)) by (bit_vector);
    assert((flags & 0x0004 != 0) == ((flags / 0x0004) % 2 == 1)) by (bit_vector);
    assert((flags & 0x0040 != 0) == ((flags / 0x0040) % 2 == 1)) by (bit_vector);
    assert((flags & 0x0080 != 0) == ((flags / 0x0080) % 2 == 1)) by (bit_vector);
    assert((flags & 0x0800 != 0) == ((flags / 0x0800) % 2 == 1)) by (bit_vector);
}

/// An operation that no other law names is a conditional branch, opcodes 70 to
/// 7F, or unknown. A branch takes 10 clocks where its condition holds and 3
/// where it does not; an unknown operation takes 4.
pub proof fn law_branches_and_unknown_operations(i: Instruction, flags: u16, cl: u8, cx: u16)
    requires
        i.mnemonic is Other,
    ensures
        0x70 <= i.opcode <= 0x7F ==> clocks(i, flags, cl, cx) == if branch_taken(
            (i.opcode - 0x70) as u8,
            flags,
        ) {
            10int
        } else {
            3
        },
        i.opcode < 0x70 || i.opcode > 0x7F ==> clocks(i, flags, cl, cx) == 4,
{
}

} // verus!
