//! Intel 80286 real-mode instruction timing, after the "Instruction Set Clock
//! Count Summary" of the 80286 datasheet.
//!
//! The effective address is free on the 80286, so a count depends on whether
//! an operand is in memory and never on how it is addressed. A taken control
//! transfer pays `M`, the reload of the prefetch queue. Operations without a
//! row in the table take `DEFAULT` clocks rather than none.
use vstd::prelude::*;

use crate::instruction::{Instruction, Mnemonic, OperandType};

verus! {

/// Prefetch-queue reload after a control transfer (datasheet "m"), 16-bit bus.
pub const M: u32 = 3;

/// Count of any operation without a row in the table.
pub const DEFAULT: u32 = 4;

/// No instruction takes more clocks than this.
pub const MAX_CLOCKS: u32 = 263;

// ---------------------------------------------------------------------------
// The model
// ---------------------------------------------------------------------------

/// The operand is in memory.
pub open spec fn in_memory(op: OperandType) -> bool {
    op is AddressingMode || op is Offset8 || op is Offset16 || op is M16Pair || op is FarAddress
}

/// The operand is an immediate.
pub open spec fn immediate(op: OperandType) -> bool {
    op is Immediate8 || op is Immediate16 || op is Immediate8s
}

/// One of the operands is in memory.
pub open spec fn touches_memory(i: Instruction) -> bool {
    in_memory(i.operand1_type) || in_memory(i.operand2_type)
}

/// One of the operands is a 16-bit register.
pub open spec fn word_register(i: Instruction) -> bool {
    i.operand1_type is Register16 || i.operand2_type is Register16
}

/// The bit of FLAGS with the given weight, a power of two, is set.
pub open spec fn flag(flags: u16, weight: u16) -> bool {
    (flags / weight) % 2 == 1
}

/// Carry flag.
pub open spec fn cf(flags: u16) -> bool {
    flag(flags, 0x0001)
}

/// Parity flag.
pub open spec fn pf(flags: u16) -> bool {
    flag(flags, 0x0004)
}

/// Zero flag.
pub open spec fn zf(flags: u16) -> bool {
    flag(flags, 0x0040)
}

/// Sign flag.
pub open spec fn sf(flags: u16) -> bool {
    flag(flags, 0x0080)
}

/// Overflow flag.
pub open spec fn of(flags: u16) -> bool {
    flag(flags, 0x0800)
}

/// The eight tests of the conditional branches, in opcode order. Each is
/// followed by its negation, so an even condition code `2 * n` is test `n`.
pub open spec fn branch_test(n: int, flags: u16) -> bool {
    if n == 0 {
        of(flags)
    } else if n == 1 {
        cf(flags)
    } else if n == 2 {
        zf(flags)
    } else if n == 3 {
        cf(flags) || zf(flags)
    } else if n == 4 {
        sf(flags)
    } else if n == 5 {
        pf(flags)
    } else if n == 6 {
        sf(flags) != of(flags)
    } else {
        zf(flags) || sf(flags) != of(flags)
    }
}

/// The branch with condition code `cc` (its low nibble) is taken under `flags`.
pub open spec fn branch_taken(cc: u8, flags: u16) -> bool {
    let code = cc as int % 16;
    if code % 2 == 0 {
        branch_test(code / 2, flags)
    } else {
        !branch_test(code / 2, flags)
    }
}

/// How the clock count of an operation is found.
pub enum Row {
    /// Always the same.
    Fixed { clocks: int },
    /// By whether an operand is in memory.
    ByPlace { register: int, memory: int },
    /// By whether the first operand is in memory.
    ByTarget { register: int, memory: int },
    /// A move: register from register or immediate, to memory, from memory.
    Move { register: int, store: int, load: int },
    /// Two-operand arithmetic: with a register, with an immediate, memory
    /// with an immediate, any other memory form.
    Alu { register: int, immediate: int, memory_immediate: int, memory: int },
    /// Multiply and divide: byte and word, in a register and in memory.
    MulDiv { byte: int, byte_memory: int, word: int, word_memory: int },
    /// Shift or rotate.
    Shift,
    /// Jump or call: far direct form and its opcode.
    Transfer { far_opcode: u8, far: int },
    /// Count CX down and branch.
    Loop,
    LoopWhileZero,
    LoopWhileNotZero,
    /// Branch on CX being zero.
    BranchCxZero,
    /// No row: a conditional branch by its opcode, or unknown.
    Missing,
}

/// The datasheet's table.
pub open spec fn row(m: Mnemonic) -> Row {
    match m {
        Mnemonic::MOV => Row::Move { register: 2, store: 3, load: 5 },
        Mnemonic::XCHG => Row::ByPlace { register: 3, memory: 5 },
        Mnemonic::PUSH => Row::ByTarget { register: 3, memory: 5 },
        Mnemonic::LEA | Mnemonic::PUSHF | Mnemonic::PUSHA | Mnemonic::NOP => Row::Fixed {
            clocks: 3,
        },
        Mnemonic::POP | Mnemonic::POPF | Mnemonic::LEAVE => Row::Fixed { clocks: 5 },
        Mnemonic::POPA => Row::Fixed { clocks: 19 },
        Mnemonic::LDS | Mnemonic::LES => Row::Fixed { clocks: 7 },
        Mnemonic::CBW | Mnemonic::CWD | Mnemonic::HLT => Row::Fixed { clocks: 2 },
        Mnemonic::CLC
        | Mnemonic::STC
        | Mnemonic::CMC
        | Mnemonic::CLD
        | Mnemonic::STD
        | Mnemonic::CLI
        | Mnemonic::STI => Row::Fixed { clocks: 2 },
        Mnemonic::ENTER => Row::Fixed { clocks: 11 },
        Mnemonic::IN => Row::Fixed { clocks: 5 },
        Mnemonic::OUT => Row::Fixed { clocks: 3 },
        Mnemonic::ADD
        | Mnemonic::OR
        | Mnemonic::ADC
        | Mnemonic::SBB
        | Mnemonic::AND
        | Mnemonic::SUB
        | Mnemonic::XOR => Row::Alu { register: 2, immediate: 3, memory_immediate: 7, memory: 7 },
        Mnemonic::CMP => Row::Alu { register: 2, immediate: 3, memory_immediate: 6, memory: 7 },
        Mnemonic::TEST => Row::Alu { register: 2, immediate: 3, memory_immediate: 6, memory: 6 },
        Mnemonic::INC | Mnemonic::DEC | Mnemonic::NEG | Mnemonic::NOT => Row::ByPlace {
            register: 2,
            memory: 7,
        },
        Mnemonic::SHL
        | Mnemonic::SHR
        | Mnemonic::SAR
        | Mnemonic::ROL
        | Mnemonic::ROR
        | Mnemonic::RCL
        | Mnemonic::RCR => Row::Shift,
        Mnemonic::MUL | Mnemonic::IMUL => Row::MulDiv {
            byte: 13,
            byte_memory: 16,
            word: 21,
            word_memory: 24,
        },
        Mnemonic::DIV => Row::MulDiv { byte: 14, byte_memory: 17, word: 22, word_memory: 25 },
        Mnemonic::IDIV => Row::MulDiv { byte: 17, byte_memory: 20, word: 25, word_memory: 28 },
        Mnemonic::JMP => Row::Transfer { far_opcode: 0xEA, far: 11 },
        Mnemonic::CALL => Row::Transfer { far_opcode: 0x9A, far: 13 },
        Mnemonic::RETN => Row::Fixed { clocks: 11 + M },
        Mnemonic::RETF => Row::Fixed { clocks: 15 + M },
        Mnemonic::INT | Mnemonic::INT3 => Row::Fixed { clocks: 23 + M },
        Mnemonic::IRET => Row::Fixed { clocks: 17 + M },
        Mnemonic::LOOP => Row::Loop,
        Mnemonic::LOOPE => Row::LoopWhileZero,
        Mnemonic::LOOPNE => Row::LoopWhileNotZero,
        Mnemonic::JCXZ => Row::BranchCxZero,
        Mnemonic::MOVSB | Mnemonic::MOVSW | Mnemonic::LODSB | Mnemonic::LODSW => Row::Fixed {
            clocks: 5,
        },
        Mnemonic::STOSB | Mnemonic::STOSW => Row::Fixed { clocks: 3 },
        Mnemonic::SCASB | Mnemonic::SCASW => Row::Fixed { clocks: 7 },
        Mnemonic::CMPSB | Mnemonic::CMPSW => Row::Fixed { clocks: 8 },
        Mnemonic::Other => Row::Missing,
    }
}

/// A shift by one, or by an operand that the opcode does not name.
pub open spec fn shift_once(opcode: u8) -> bool {
    !shift_by_cl(opcode) && !shift_by_immediate(opcode)
}

/// A shift by CL.
pub open spec fn shift_by_cl(opcode: u8) -> bool {
    opcode == 0xD2 || opcode == 0xD3
}

/// A shift by an immediate byte.
pub open spec fn shift_by_immediate(opcode: u8) -> bool {
    opcode == 0xC0 || opcode == 0xC1
}

/// The count of an immediate shift: the byte, read as unsigned.
pub open spec fn immediate_count(op: OperandType) -> int {
    match op {
        OperandType::Immediate8(v) => v as int,
        OperandType::Immediate8s(v) => v as int % 256,
        _ => 1,
    }
}

/// Clocks of a shift or rotate: 2 by one, `5 + n` by a count; 5 or 3 more in
/// memory.
pub open spec fn shift_clocks(i: Instruction, cl: u8) -> int {
    if shift_once(i.opcode) {
        if touches_memory(i) { 7 } else { 2 }
    } else {
        let n = if shift_by_cl(i.opcode) { cl as int } else { immediate_count(i.operand2_type) };
        n + if touches_memory(i) { 8int } else { 5 }
    }
}

/// Clocks of a loop or CX branch that is taken or falls through.
pub open spec fn loop_clocks(taken: bool) -> int {
    if taken { 8 + M } else { 4 }
}

/// The opcode of a conditional branch.
pub open spec fn conditional_branch(opcode: u8) -> bool {
    0x70 <= opcode <= 0x7F
}

/// 80286 clocks of one instruction, under the FLAGS, CL and CX that it meets.
pub open spec fn clocks(i: Instruction, flags: u16, cl: u8, cx: u16) -> int {
    let memory = touches_memory(i);
    match row(i.mnemonic) {
        Row::Fixed { clocks } => clocks,
        Row::ByPlace { register, memory: m } => if memory { m } else { register },
        Row::ByTarget { register, memory: m } => if in_memory(i.operand1_type) {
            m
        } else {
            register
        },
        Row::Move { register, store, load } => if in_memory(i.operand1_type) {
            store
        } else if in_memory(i.operand2_type) {
            load
        } else {
            register
        },
        Row::Alu { register, immediate: imm, memory_immediate, memory: m } => if memory {
            if in_memory(i.operand1_type) && immediate(i.operand2_type) {
                memory_immediate
            } else {
                m
            }
        } else if immediate(i.operand2_type) {
            imm
        } else {
            register
        },
        Row::MulDiv { byte, byte_memory, word, word_memory } => if word_register(i) {
            if memory { word_memory } else { word }
        } else {
            if memory { byte_memory } else { byte }
        },
        Row::Shift => shift_clocks(i, cl),
        Row::Transfer { far_opcode, far } => M + if i.opcode == far_opcode {
            far
        } else if i.opcode == 0xFF && memory {
            11
        } else {
            7
        },
        Row::Loop => loop_clocks(cx != 1),
        Row::LoopWhileZero => loop_clocks(cx != 1 && zf(flags)),
        Row::LoopWhileNotZero => loop_clocks(cx != 1 && !zf(flags)),
        Row::BranchCxZero => loop_clocks(cx == 0),
        Row::Missing => if conditional_branch(i.opcode) {
            if branch_taken(i.opcode, flags) { 7 + M } else { 3 }
        } else {
            DEFAULT as int
        },
    }
}

// ---------------------------------------------------------------------------
// The code
// ---------------------------------------------------------------------------

/// Whether the operand is in memory.
pub fn is_mem(op: OperandType) -> (r: bool)
    ensures
        r == in_memory(op),
{
    matches!(
        op,
        OperandType::AddressingMode
            | OperandType::Offset8
            | OperandType::Offset16
            | OperandType::M16Pair
            | OperandType::FarAddress
    )
}

/// Whether the operand is an immediate.
pub fn is_imm(op: OperandType) -> (r: bool)
    ensures
        r == immediate(op),
{
    matches!(
        op,
        OperandType::Immediate8(_) | OperandType::Immediate16 | OperandType::Immediate8s(_)
    )
}

/// Whether the branch with condition code `cc` (the low nibble of a `7x`
/// opcode) is taken under `flags`.
pub fn cond_taken(cc: u8, flags: u16) -> (r: bool)
    ensures
        r == branch_taken(cc, flags),
{
    proof {
        lemma_flag_masks(flags);
        assert(cc & 0x0F == cc % 16) by (bit_vector);
    }
    let cf = flags & 0x0001 != 0;
    let pf = flags & 0x0004 != 0;
    let zf = flags & 0x0040 != 0;
    let sf = flags & 0x0080 != 0;
    let of = flags & 0x0800 != 0;
    match cc & 0x0F {
        0x0 => of,  // JO
        0x1 => !of,  // JNO
        0x2 => cf,  // JB/JC
        0x3 => !cf,  // JAE/JNC
        0x4 => zf,  // JZ/JE
        0x5 => !zf,  // JNZ/JNE
        0x6 => cf || zf,  // JBE
        0x7 => !(cf || zf),  // JA
        0x8 => sf,  // JS
        0x9 => !sf,  // JNS
        0xA => pf,  // JP
        0xB => !pf,  // JNP
        0xC => sf != of,  // JL
        0xD => sf == of,  // JGE
        0xE => zf || (sf != of),  // JLE
        _ => !(zf || (sf != of)),  // JG
    }
}

/// 80286 clock count of one instruction, given the live FLAGS, CL and CX that
/// the data-dependent forms need (branch direction, shift count, loop count).
pub fn cycles_286(instr: &Instruction, flags: u16, cl: u8, cx: u16) -> (r: u32)
    ensures
        r == clocks(*instr, flags, cl, cx),
        2 <= r <= MAX_CLOCKS,
{
    let op1 = instr.operand1_type;
    let op2 = instr.operand2_type;
    let mem = is_mem(op1) || is_mem(op2);
    let word = matches!(op1, OperandType::Register16) || matches!(op2, OperandType::Register16);
    proof {
        lemma_flag_masks(flags);
    }

    match instr.mnemonic {
        // Data movement.
        Mnemonic::MOV => {
            if is_mem(op1) {
                3
            } else if is_mem(op2) {
                5
            } else {
                2
            }
        },
        Mnemonic::LEA => 3,
        Mnemonic::XCHG => if mem { 5 } else { 3 },
        Mnemonic::PUSH => if is_mem(op1) { 5 } else { 3 },
        Mnemonic::POP => 5,
        Mnemonic::PUSHF | Mnemonic::PUSHA => 3,
        Mnemonic::POPF => 5,
        Mnemonic::POPA => 19,
        Mnemonic::LDS | Mnemonic::LES => 7,
        Mnemonic::CBW | Mnemonic::CWD => 2,
        // Arithmetic and logic.
        Mnemonic::ADD
        | Mnemonic::OR
        | Mnemonic::ADC
        | Mnemonic::SBB
        | Mnemonic::AND
        | Mnemonic::SUB
        | Mnemonic::XOR => {
            if mem {
                7
            } else if is_imm(op2) {
                3
            } else {
                2
            }
        },
        Mnemonic::CMP => {
            if mem {
                if is_mem(op1) && is_imm(op2) { 6 } else { 7 }
            } else if is_imm(op2) {
                3
            } else {
                2
            }
        },
        Mnemonic::TEST => {
            if mem {
                6
            } else if is_imm(op2) {
                3
            } else {
                2
            }
        },
        Mnemonic::INC | Mnemonic::DEC | Mnemonic::NEG | Mnemonic::NOT => if mem { 7 } else { 2 },
        // Shifts and rotates: D0/D1 by one, D2/D3 by CL, C0/C1 by a byte.
        Mnemonic::SHL
        | Mnemonic::SHR
        | Mnemonic::SAR
        | Mnemonic::ROL
        | Mnemonic::ROR
        | Mnemonic::RCL
        | Mnemonic::RCR => {
            let (base, n): (u32, u32) = match instr.opcode {
                0xD0 | 0xD1 => (if mem { 7 } else { 2 }, 0),
                0xD2 | 0xD3 => (if mem { 8 } else { 5 }, cl as u32),
                0xC0 | 0xC1 => (if mem { 8 } else { 5 }, shift_count(op2)),
                _ => (if mem { 7 } else { 2 }, 0),
            };
            base + n
        },
        // Multiply and divide.
        Mnemonic::MUL | Mnemonic::IMUL => {
            if word {
                if mem { 24 } else { 21 }
            } else if mem {
                16
            } else {
                13
            }
        },
        Mnemonic::DIV => {
            if word {
                if mem { 25 } else { 22 }
            } else if mem {
                17
            } else {
                14
            }
        },
        Mnemonic::IDIV => {
            if word {
                if mem { 28 } else { 25 }
            } else if mem {
                20
            } else {
                17
            }
        },
        // Control transfer.
        Mnemonic::JMP => match instr.opcode {
            0xEB | 0xE9 => 7 + M,
            0xFF => if mem { 11 + M } else { 7 + M },
            0xEA => 11 + M,
            _ => 7 + M,
        },
        Mnemonic::CALL => match instr.opcode {
            0xE8 => 7 + M,
            0xFF => if mem { 11 + M } else { 7 + M },
            0x9A => 13 + M,
            _ => 7 + M,
        },
        Mnemonic::RETN => 11 + M,
        Mnemonic::RETF => 15 + M,
        // Taken while CX, before the count down, is not 1.
        Mnemonic::LOOP => if cx != 1 { 8 + M } else { 4 },
        Mnemonic::LOOPE => if cx != 1 && (flags & 0x40 != 0) { 8 + M } else { 4 },
        Mnemonic::LOOPNE => if cx != 1 && (flags & 0x40 == 0) { 8 + M } else { 4 },
        Mnemonic::JCXZ => if cx == 0 { 8 + M } else { 4 },
        Mnemonic::INT => 23 + M,
        Mnemonic::INT3 => 23 + M,
        Mnemonic::IRET => 17 + M,
        // String operations; a repeated one is charged per step.
        Mnemonic::MOVSB | Mnemonic::MOVSW => 5,
        Mnemonic::STOSB | Mnemonic::STOSW => 3,
        Mnemonic::LODSB | Mnemonic::LODSW => 5,
        Mnemonic::SCASB | Mnemonic::SCASW => 7,
        Mnemonic::CMPSB | Mnemonic::CMPSW => 8,
        // Stack frames, at nesting level 0, and the rest.
        Mnemonic::ENTER => 11,
        Mnemonic::LEAVE => 5,
        Mnemonic::NOP => 3,
        Mnemonic::HLT => 2,
        Mnemonic::CLC
        | Mnemonic::STC
        | Mnemonic::CMC
        | Mnemonic::CLD
        | Mnemonic::STD
        | Mnemonic::CLI
        | Mnemonic::STI => 2,
        Mnemonic::IN => 5,
        Mnemonic::OUT => 3,
        // Conditional branches.
        Mnemonic::Other => {
            if 0x70 <= instr.opcode && instr.opcode <= 0x7F {
                if cond_taken(instr.opcode, flags) { 7 + M } else { 3 }
            } else {
                DEFAULT
            }
        },
    }
}

/// The count of an immediate shift.
fn shift_count(op: OperandType) -> (n: u32)
    ensures
        n == immediate_count(op),
        n <= 255,
{
    match op {
        OperandType::Immediate8(v) => v as u32,
        OperandType::Immediate8s(v) => {
            assert((v as u8) as int == (v as int) % 256) by {
                assert(v >= 0 ==> v as u8 == v) by (bit_vector);
                assert(v < 0 ==> v as u8 == v + 256) by (bit_vector);
            }
            (v as u8) as u32
        },
        _ => 1,
    }
}

/// Masking FLAGS with a flag's bit tests that flag.
proof fn lemma_flag_masks(flags: u16)
    ensures
        (flags & 0x0001 != 0) == cf(flags),
        (flags & 0x0004 != 0) == pf(flags),
        (flags & 0x0040 != 0) == zf(flags),
        (flags & 0x0080 != 0) == sf(flags),
        (flags & 0x0800 != 0) == of(flags),
{
    assert((flags & 0x0001 != 0) == ((flags / 0x0001) % 2 == 1)) by (bit_vector);
    assert((flags & 0x0004 != 0) == ((flags / 0x0004) % 2 == 1)) by (bit_vector);
    assert((flags & 0x0040 != 0) == ((flags / 0x0040) % 2 == 1)) by (bit_vector);
    assert((flags & 0x0080 != 0) == ((flags / 0x0080) % 2 == 1)) by (bit_vector);
    assert((flags & 0x0800 != 0) == ((flags / 0x0800) % 2 == 1)) by (bit_vector);
}

// ---------------------------------------------------------------------------
// Laws of the model
// ---------------------------------------------------------------------------

/// The count of the instruction is read from CL: a shift by CL.
pub open spec fn reads_cl(i: Instruction) -> bool {
    row(i.mnemonic) is Shift && shift_by_cl(i.opcode)
}

/// The count of the instruction depends on CX: a loop, or a branch on CX.
pub open spec fn reads_cx(i: Instruction) -> bool {
    let r = row(i.mnemonic);
    r is Loop || r is LoopWhileZero || r is LoopWhileNotZero || r is BranchCxZero
}

/// The count of the instruction depends on FLAGS: a conditional branch, or a
/// loop that watches the zero flag.
pub open spec fn reads_flags(i: Instruction) -> bool {
    let r = row(i.mnemonic);
    r is LoopWhileZero || r is LoopWhileNotZero || (r is Missing && conditional_branch(i.opcode))
}

/// The two operands are of the same kind, where all memory operands are one
/// kind.
pub open spec fn same_kind(a: OperandType, b: OperandType) -> bool {
    a == b || (in_memory(a) && in_memory(b))
}

/// No instruction is free, and none takes more than `MAX_CLOCKS`.
pub proof fn law_clock_bounds(i: Instruction, flags: u16, cl: u8, cx: u16)
    ensures
        2 <= clocks(i, flags, cl, cx) <= MAX_CLOCKS,
{
}

/// The effective address is free: how a memory operand is addressed does not
/// change the count.
pub proof fn law_effective_address_is_free(
    i: Instruction,
    j: Instruction,
    flags: u16,
    cl: u8,
    cx: u16,
)
    requires
        i.mnemonic == j.mnemonic,
        i.opcode == j.opcode,
        same_kind(i.operand1_type, j.operand1_type),
        same_kind(i.operand2_type, j.operand2_type),
    ensures
        clocks(i, flags, cl, cx) == clocks(j, flags, cl, cx),
{
}

/// Live machine state matters to the data-dependent forms only: CL to shifts
/// by CL, CX to loops and the branch on CX, FLAGS to conditional branches and
/// to the loops that watch the zero flag.
pub proof fn law_state_matters_to_data_dependent_forms_only(
    i: Instruction,
    flags: u16,
    cl: u8,
    cx: u16,
    other_flags: u16,
    other_cl: u8,
    other_cx: u16,
)
    requires
        reads_flags(i) ==> flags == other_flags,
        reads_cl(i) ==> cl == other_cl,
        reads_cx(i) ==> cx == other_cx,
    ensures
        clocks(i, flags, cl, cx) == clocks(i, other_flags, other_cl, other_cx),
{
}

/// An operation without a row, and not a conditional branch, takes the
/// documented default.
pub proof fn law_unlisted_takes_default(i: Instruction, flags: u16, cl: u8, cx: u16)
    requires
        i.mnemonic is Other,
        !conditional_branch(i.opcode),
    ensures
        clocks(i, flags, cl, cx) == DEFAULT,
{
}

/// The condition is read from the low nibble alone.
pub proof fn law_condition_is_low_nibble(cc: u8, flags: u16)
    ensures
        branch_taken(cc, flags) == branch_taken(cc % 16, flags),
{
}

/// Condition codes come in pairs of opposites: under any FLAGS exactly one of
/// an even code and the odd code after it is taken.
pub proof fn law_conditions_come_in_opposites(cc: u8, flags: u16)
    requires
        cc % 2 == 0,
    ensures
        branch_taken((cc + 1) as u8, flags) == !branch_taken(cc, flags),
{
}

/// A conditional branch takes `7 + M` where it is taken and 3 where it falls
/// through, so it and its opposite take `10 + M` together.
pub proof fn law_opposite_branches_share_the_reload(
    i: Instruction,
    j: Instruction,
    flags: u16,
    cl: u8,
    cx: u16,
)
    requires
        i.mnemonic is Other,
        j.mnemonic is Other,
        conditional_branch(i.opcode),
        i.opcode % 2 == 0,
        j.opcode == i.opcode + 1,
    ensures
        clocks(i, flags, cl, cx) == if branch_taken(i.opcode, flags) { 7 + M } else { 3 },
        clocks(i, flags, cl, cx) + clocks(j, flags, cl, cx) == 10 + M,
{
    law_conditions_come_in_opposites(i.opcode, flags);
}

/// The common rows of the datasheet: moves, two-operand arithmetic, stack and
/// address operations, and counted shifts of a register.
pub proof fn law_datasheet_rows(i: Instruction, flags: u16, cl: u8, cx: u16)
    ensures
        i.mnemonic is MOV && !touches_memory(i) ==> clocks(i, flags, cl, cx) == 2,
        i.mnemonic is MOV && in_memory(i.operand1_type) ==> clocks(i, flags, cl, cx) == 3,
        i.mnemonic is MOV && !in_memory(i.operand1_type) && in_memory(i.operand2_type) ==> clocks(
            i,
            flags,
            cl,
            cx,
        ) == 5,
        row(i.mnemonic) is Alu && !touches_memory(i) ==> clocks(i, flags, cl, cx) == if immediate(
            i.operand2_type,
        ) {
            3int
        } else {
            2
        },
        row(i.mnemonic) is Alu && !(i.mnemonic is TEST) && !in_memory(i.operand1_type)
            && in_memory(i.operand2_type) ==> clocks(i, flags, cl, cx) == 7,
        i.mnemonic is PUSH && !touches_memory(i) ==> clocks(i, flags, cl, cx) == 3,
        i.mnemonic is POP ==> clocks(i, flags, cl, cx) == 5,
        i.mnemonic is LEA ==> clocks(i, flags, cl, cx) == 3,
        i.mnemonic is LEAVE ==> clocks(i, flags, cl, cx) == 5,
        i.mnemonic is ENTER ==> clocks(i, flags, cl, cx) == 11,
        row(i.mnemonic) is Shift && shift_by_immediate(i.opcode) && !touches_memory(i) ==> clocks(
            i,
            flags,
            cl,
            cx,
        ) == 5 + immediate_count(i.operand2_type),
{
}

/// The hardware multiplier: a 16-bit register operand makes MUL and IMUL 21
/// clocks, DIV 22 and IDIV 25, whatever the operands hold.
pub proof fn law_hardware_multiplier(i: Instruction, flags: u16, cl: u8, cx: u16)
    requires
        word_register(i),
        !touches_memory(i),
    ensures
        i.mnemonic is MUL || i.mnemonic is IMUL ==> clocks(i, flags, cl, cx) == 21,
        i.mnemonic is DIV ==> clocks(i, flags, cl, cx) == 22,
        i.mnemonic is IDIV ==> clocks(i, flags, cl, cx) == 25,
{
}

/// A shift of a register by CL takes five clocks and one more per bit, so a
/// longer shift never takes fewer.
pub proof fn law_counted_shift(i: Instruction, flags: u16, cl: u8, more: u8, cx: u16)
    requires
        reads_cl(i),
        cl <= more,
    ensures
        !touches_memory(i) ==> clocks(i, flags, cl, cx) == 5 + cl,
        clocks(i, flags, more, cx) == clocks(i, flags, cl, cx) + (more - cl),
{
}

} // verus!
