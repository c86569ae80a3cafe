//! The layout of the execution trace: which scalar columns each named field occupies.
//!
//! Three independent namespaces exist: the columns of the main trace, the
//! columns that depend on the program alone, and the preprocessed columns
//! that are the same for every execution. In each, the fields are laid out
//! one after the other in declaration order.

use vstd::prelude::*;

verus! {

/// A namespace of trace columns: a list of declarations in a fixed order,
/// each spanning a positive number of scalar columns.
pub trait ColumnsEnum: Sized {
    /// Number of declarations.
    spec fn variants_num() -> nat;

    /// Total number of scalar columns.
    spec fn columns_num() -> nat;

    /// Position of the declaration in declaration order.
    spec fn position(self) -> nat;

    /// The declaration at position `index`.
    spec fn at_position(index: nat) -> Self;

    /// Number of scalar columns that the declaration spans.
    spec fn width(self) -> nat;

    /// The positions number the declarations one to one, and every
    /// declaration spans at least one column.
    proof fn lemma_declarations(self, index: nat)
        ensures
            self.position() < Self::variants_num(),
            Self::at_position(self.position()) == self,
            index < Self::variants_num() ==> Self::at_position(index).position() == index,
            self.width() > 0,
    ;
}

/// Number of scalar columns that the first `index` declarations of `E` span.
pub open spec fn columns_before<E: ColumnsEnum>(index: nat) -> nat
    decreases index,
{
    if index == 0 {
        0
    } else {
        columns_before::<E>((index - 1) as nat) + E::at_position((index - 1) as nat).width()
    }
}

/// A namespace whose declarations fill its scalar columns exactly.
pub trait ColumnsLayout: ColumnsEnum {
    /// The widths of all declarations add up to the total number of columns.
    proof fn lemma_columns_num()
        ensures
            columns_before::<Self>(Self::variants_num()) == Self::columns_num(),
    ;
}

/// Index of the first scalar column of `column`.
pub open spec fn first_column<E: ColumnsEnum>(column: E) -> nat {
    columns_before::<E>(column.position())
}

/// Whether the scalar column `index` belongs to `column`.
pub open spec fn covers<E: ColumnsEnum>(column: E, index: nat) -> bool {
    first_column(column) <= index < first_column(column) + column.width()
}

/// Fields of one row of the main trace.
#[allow(non_camel_case_types)]
#[derive(Debug, Copy, Clone, Hash, PartialEq, Eq, Structural)]
pub enum Column {
    /// The current value of the program counter register.
    Pc,
    /// The next value of the program counter register.
    PcNext,
    /// The next aux value of the program counter register.
    PcNextAux,
    /// The register-index of the first operand of the instruction.
    OpA,
    /// The register-index of the second operand of the instruction.
    OpB,
    /// The register-index or the immediate value of the third operand of the instruction. Immediate values are zero-extended out of the effective bits.
    OpC,
    /// Additional columns for carrying limbs.
    CarryFlag,
    /// Subtraction columns for borrow limbs.
    BorrowFlag,
    /// Is operand op_b an immediate value?
    ImmB,
    /// Is operand op_c an immediate value?
    ImmC,
    /// The actual 32-bit of the instruction stored at pc.
    InstrVal,
    /// The previous counter for the instruction stored at pc.
    PrevCtr,
    /// The value of operand a.
    ValueA,
    /// The value of operand a to be written (zero if destination register index is zero).
    ValueAEffective,
    /// The value of operand b.
    ValueB,
    /// The value of operand c.
    ValueC,
    /// Boolean flag on whether the row is an addition.
    IsAdd,
    /// Boolean flag on whether the row is OR/ORI.
    IsOr,
    /// Boolean flag on whether the row is AND/ANDI.
    IsAnd,
    /// Boolean flag on whether the row is XOR/XORI.
    IsXor,
    /// Boolean flag on whether the row is a subtraction.
    IsSub,
    /// Boolean flag on whether the row is a SLTU.
    IsSltu,
    /// Boolean flag on whether the row is a SLT.
    IsSlt,
    /// Boolean flag on whether the row is a BNE.
    IsBne,
    /// Boolean flag on whether the row is a BEQ.
    IsBeq,
    /// Boolean flag on whether the row is a BLTU.
    IsBltu,
    /// Boolean flag on whether the row is a BLT.
    IsBlt,
    /// Boolean flag on whether the row is a BGEU.
    IsBgeu,
    /// Boolean flag on whether the row is a BGE.
    IsBge,
    /// Boolean flag on whether the row is a JAL.
    IsJal,
    /// Boolean flag on whether the row is a SB
    IsSb,
    /// Boolean flag on whether the row is a SH
    IsSh,
    /// Boolean flag on whether the row is a SW
    IsSw,
    /// Boolean flag on whether the row is a LB
    IsLb,
    /// Boolean flag on whether the row is a LH
    IsLh,
    /// Boolean flag on whether the row is a LBU
    IsLbu,
    /// Boolean flag on whether the row is a LHU
    IsLhu,
    /// Boolean flag on whether the row is a LW
    IsLw,
    /// Boolean flag on whether the row is a LUI.
    IsLui,
    /// Boolean flag on whether the row is a AUIPC.
    IsAuipc,
    /// Boolean flag on whether the row is a JALR.
    IsJalr,
    /// Boolean flag on whether the row is a SLL.
    IsSll,
    /// Boolean flag on whether the row is a SRL.
    IsSrl,
    /// Boolean flag on whether the row is a SRA.
    IsSra,
    /// Boolean flag on whether the row is an ECALL.
    IsEcall,
    /// Boolean flag on whether the row is an EBREAK.
    IsEbreak,
    /// Boolean flag on whether the row is an ECALL_DEBUG (Write).
    IsSysDebug,
    /// Boolean flag on whether the row is an ECALL_HALT (Exit).
    IsSysHalt,
    /// Boolean flag on whether the row is an ECALL_PRIVATE_INPUT (ReadFromPrivateInput).
    IsSysPrivInput,
    /// Boolean flag on whether the row is an ECALL_CYCLECOUNT (CycleCount).
    IsSysCycleCount,
    /// Boolean flag on whether the row is an ECALL_STACK_RESET (OverwriteStackPointer).
    IsSysStackReset,
    /// Boolean flag on whether the row is an ECALL_HEAP_RESET (OverwriteHeapPointer).
    IsSysHeapReset,
    /// Boolean flag on whether the row is a padding.
    IsPadding,
    /// Helper variable 1. Called h_1 in document.
    Helper1,
    /// Helper variable 2. Called h_2 in document.
    Helper2,
    /// Helper variable 3. Called h_3 in document.
    Helper3,
    /// Helper variable 4. Called h_4 in document.
    Helper4,
    /// Signed bit of A.
    SgnA,
    /// Signed bit of B.
    SgnB,
    /// Signed bit of C.
    SgnC,
    /// Negate flag. Called neq_flag in document.
    Neq,
    /// Negate flag. Called neg_12_flag in document.
    Neq12,
    /// Negate flag. Called neg_34_flag in document.
    Neq34,
    /// Less than flag. Called lt_flag in document.
    LtFlag,
    /// Remainder flag. Called rem_aux in document.
    RemAux,
    /// Remainder flag. Called rem in document.
    Rem,
    /// Qt_aux flag. Called qt_aux or qt in document.
    QtAux,
    /// Qt flag. Called qt in document.
    Qt,
    /// ShiftBit flag. Called sh1 in document.
    ShiftBit1,
    /// ShiftBit flag. Called sh2 in document.
    ShiftBit2,
    /// ShiftBit flag. Called sh3 in document.
    ShiftBit3,
    /// ShiftBit flag. Called sh4 in document.
    ShiftBit4,
    /// ShiftBit flag. Called sh5 in document.
    ShiftBit5,
    /// Exp1_3 flag. Called exp1_3 in document.
    Exp1_3,
    /// Exp flag. Called exp in document.
    Exp,
    /// RemDiff. Called rem{1,2,3,4}_diff in document.
    RemDiff,
    /// neq_12_flag_aux in document. Inverse of (valueA - valueB) first 2 limbs, when it's non-zero.
    Neq12Aux,
    /// neq_34_flag_aux in document. Inverse of (valueA - valueB) last 2 limbs, when it's non-zero.
    Neq34Aux,
    /// neq_12_flag_aux_inv in document. Inverse of [`Column::Neq12Aux`].
    Neq12AuxInv,
    /// neq_34_flag_aux_inv in document. Inverse of [`Column::Neq34Aux`].
    Neq34AuxInv,
    /// Multiplicity column for Range8Chip. Multiplicity8[row_idx] counts how many times the number row_idx is checked against Range8 in the entire trace.
    Multiplicity8,
    /// Multiplicity column for Range16Chip. Multiplicity16[row_idx] counts how many times the number row_idx is checked against Range16 in the entire trace.
    Multiplicity16,
    /// Multiplicity column for Range32Chip. Multiplicity32[row_idx] counts how many times the number row_idx is checked against Range32 in the entire trace.
    Multiplicity32,
    /// Multiplicity column for checking 0..=127. Multiplicity128[row_idx] counts how many times the number row_idx is checked in the entire trace.
    Multiplicity128,
    /// Multiplicity column for byte range check. Multipllicity256[row_idx] counts how many times the number Range256[row_idx] is used in the entire trace.
    Multiplicity256,
    /// Multiplicity column for bitwise-AND check. MultiplicityAnd[b * 256 + c] counts how many times (b & c) is looked up in the entire trace.
    MultiplicityAnd,
    /// Multiplicity column for bitwise-OR check. MultiplicityOr[b * 256 + c] counts how many times (b | c) is looked up in the entire trace.
    MultiplicityOr,
    /// Multiplicity column for bitwise-XOR check. MultiplicityXor[b * 256 + c] counts how many times (b ^ c) is looked up in the entire trace.
    MultiplicityXor,
    /// 1 indicates OpA is non-zero, 0 indicates OpA is zero
    ValueAEffectiveFlag,
    /// Auxiliary variable for computing ValueAEffectiveFlag
    ValueAEffectiveFlagAux,
    /// Another auxiliary variable for computing ValueAEffectiveFlag
    ValueAEffectiveFlagAuxInv,
    /// Flag indicating register access slot 1 is used
    Reg1Accessed,
    /// Flag indicating register access slot 2 is used
    Reg2Accessed,
    /// Flag indicating register access slot 3 is used
    Reg3Accessed,
    /// Register index of register access slot 1
    Reg1Address,
    /// Register index of register access slot 2
    Reg2Address,
    /// Register index of register access slot 3
    Reg3Address,
    /// Previous value from the most recent access in Reg1Address
    Reg1ValPrev,
    /// Previous value from the most recent access in Reg2Address
    Reg2ValPrev,
    /// Previous value from the most recent access in Reg3Address
    Reg3ValPrev,
    /// Previous timestamp from the most recent access in Reg1Address
    Reg1TsPrev,
    /// Previous timestamp from the most recent access in Reg2Address
    Reg2TsPrev,
    /// Previous timestamp from the most recent access in Reg3Address
    Reg3TsPrev,
    /// On rows 0..32, contains the final value of 32 registers
    FinalRegValue,
    /// On rows 0..32, contains the final timestamp of 32 registers
    FinalRegTs,
    /// The last access counter of the program memory at Pc
    ProgCtrPrev,
    /// The current access counter of the program memory at Pc, PrgPrevCtr + 1
    ProgCtrCur,
    /// Carry flags for incrementing PrgPrevCtr into PrgCurCtr
    ProgCtrCarry,
    /// Program memory content: final counter at PrgMemoryPc, filled after the execution
    FinalPrgMemoryCtr,
    /// Aux variables for comparing previous and current timestamps
    CReg1TsPrev,
    CReg2TsPrev,
    CReg3TsPrev,
    /// Aux borrow variables for comparing previous and current timestamps
    /// c_h1^-_1 in the design document
    CH1Minus,
    /// c_h1^-_1 in the design document
    CH2Minus,
    /// c_h1^-_1 in the design document
    CH3Minus,
    /// The starting address of the read-write memory access
    RamBaseAddr,
    /// The new value of the read-write memory at RamBaseAddr, if accessed
    Ram1ValCur,
    /// The new value of the read-write memory at RamBaseAddr + 1, if accessed
    Ram2ValCur,
    /// The new value of the read-write memory at RamBaseAddr + 2, if accessed
    Ram3ValCur,
    /// The new value of the read-write memory at RamBaseAddr + 3, if accessed
    Ram4ValCur,
    /// The previous value of the read-write memory at RamBaseAddr, if accessed
    Ram1ValPrev,
    /// The previous value of the read-write memory at RamBaseAddr + 1, if accessed
    Ram2ValPrev,
    /// The previous value of the read-write memory at RamBaseAddr + 2, if accessed
    Ram3ValPrev,
    /// The previous value of the read-write memory at RamBaseAddr + 3, if accessed
    Ram4ValPrev,
    /// The previous timestamp of the read-write memory at RamBaseAddr, if accessed
    Ram1TsPrev,
    /// The previous timestamp of the read-write memory at RamBaseAddr + 1, if accessed
    Ram2TsPrev,
    /// The previous timestamp of the read-write memory at RamBaseAddr + 2, if accessed
    Ram3TsPrev,
    /// The previous timestamp of the read-write memory at RamBaseAddr + 3, if accessed
    Ram4TsPrev,
    /// Auxiliary columns for comparing Ram1TsPrev and Clk
    Ram1TsPrevAux,
    /// Auxiliary columns for comparing Ram2TsPrev and Clk
    Ram2TsPrevAux,
    /// Auxiliary columns for comparing Ram3TsPrev and Clk
    Ram3TsPrevAux,
    /// Auxiliary columns for comparing Ram4TsPrev and Clk
    Ram4TsPrevAux,
    /// The flag indicating whether the read-write memory at RamBaseAddr is accessed
    Ram1Accessed,
    /// The flag indicating whether the read-write memory at RamBaseAddr + 1 is accessed
    Ram2Accessed,
    /// The flag indicating whether the read-write memory at RamBaseAddr + 2 is accessed
    Ram3Accessed,
    /// The flag indicating whether the read-write memory at RamBaseAddr + 3 is accessed
    Ram4Accessed,
    /// Auxiliary variable for decoding instruction: bits[0..=3] of OpC argument
    OpC0_3,
    /// Auxiliary variable for decoding instruction: bits[1..=3] of OpC argument
    OpC1_3,
    /// Auxiliary variable for decoding instruction: bits[1..=4] of OpC argument
    OpC1_4,
    /// Auxiliary variable for decoding instruction: bits[4..=7] of OpC argument
    OpC4_7,
    /// Auxiliary variable for decoding instruction: bits[5..=7] of OpC argument
    OpC5_7,
    /// Auxiliary variable for decoding instruction: bits[8..=10] of OpC argument
    OpC8_10,
    /// Auxiliary variable for decoding instruction: bits[11] of OpC argument
    OpC11,
    /// Auxiliary variable for decoding instruction: bits[12] of OpC argument
    OpC12,
    /// Auxiliary variable for decoding instruction: bits[20] of OpC argument
    OpC20,
    /// Auxiliary variable for decoding instruction: bits[1..=4] of OpA argument
    OpA1_4,
    /// Auxiliary variable for decoding instruction: bits[0..=3] of OpB argument
    OpB0_3,
    /// Auxiliary variable for decoding instruction: bits[1..=4] of OpB argument
    OpB1_4,
    /// Auxiliary variable for decoding instruction: bits[0] of OpC argument
    OpC0,
    /// Auxiliary variable for decoding instruction: bits[4] of OpC argument
    OpC4,
    /// Auxiliary variable for decoding instruction: bits[0] of OpA argument
    OpA0,
    /// Auxiliary variable for decoding instruction: bits[0] of OpB argument
    OpB0,
    /// Auxiliary variable for decoding instruction: bits[4] of OpB argument
    OpB4,
    /// Auxiliary variable for decoding type_u immediates: bits[12..=15] of the instruction
    OpC12_15,
    /// Auxiliary variable for decoding type_u immediates: bits[16..=23] of the instruction
    OpC16_23,
    /// Auxiliary variable for decoding type_u immediates: bits[16..=19] of the instruction
    OpC16_19,
    /// Auxiliary variable for decoding type_u immediates: bits[24..=31] of the instruction
    OpC24_31,
    /// Auxiliary variable for incrementing program counter by four
    PcCarry,
    /// The byte-address of RAM initial & final states. Each row contains information about one byte of initial & final RAM states.
    RamInitFinalAddr,
    /// The flag indicating whether (RamInitFinalAddr, RamFinalValue, RamFinalCounter) represents a byte in the final RAM state.
    RamInitFinalFlag,
    /// The final value of the RAM at address RamInitFinalAddr
    RamFinalValue,
    /// The final access counter value of the RAM at address RamInitFinalAddr
    RamFinalCounter,
    /// On bit-op rows, the less-significant four bits of each limb of ValueA. On those rows, ValueA0_3[i] contains ValueA[i] & 0xF.
    ValueA0_3,
    /// On bit-op rows, the less-significant four bits of each limb of ValueB. On those rows, ValueB0_3[i] contains ValueB[i] & 0xF.
    ValueB0_3,
    /// On bit-op rows, the less-significant four bits of each limb of ValueC. On those rows, ValueC0_3[i] contains ValueC[i] & 0xF.
    ValueC0_3,
    /// On bit-op rows, the more-significant four bits of each limb of ValueA. On those rows, ValueA4_7[i] contains ValueA[i] >> 4.
    ValueA4_7,
    /// On bit-op rows, the more-significant four bits of each limb of ValueB. On those rows, ValueB4_7[i] contains ValueB[i] >> 4.
    ValueB4_7,
    /// On bit-op rows, the more-significant four bits of each limb of ValueC. On those rows, ValueC4_7[i] contains ValueC[i] >> 4.
    ValueC4_7,
}

impl Column {
    /// Total number of scalar columns of the namespace.
    pub const COLUMNS_NUM: usize = 330;

    /// Number of declarations of the namespace.
    pub const VARIANTS_NUM: usize = 168;

    /// Number of scalar columns that the declaration spans.
    pub open spec fn size_spec(self) -> nat {
        match self {
            Column::Pc => 4,
            Column::PcNext => 4,
            Column::PcNextAux => 4,
            Column::OpA => 1,
            Column::OpB => 1,
            Column::OpC => 1,
            Column::CarryFlag => 4,
            Column::BorrowFlag => 4,
            Column::ImmB => 1,
            Column::ImmC => 1,
            Column::InstrVal => 4,
            Column::PrevCtr => 4,
            Column::ValueA => 4,
            Column::ValueAEffective => 4,
            Column::ValueB => 4,
            Column::ValueC => 4,
            Column::IsAdd => 1,
            Column::IsOr => 1,
            Column::IsAnd => 1,
            Column::IsXor => 1,
            Column::IsSub => 1,
            Column::IsSltu => 1,
            Column::IsSlt => 1,
            Column::IsBne => 1,
            Column::IsBeq => 1,
            Column::IsBltu => 1,
            Column::IsBlt => 1,
            Column::IsBgeu => 1,
            Column::IsBge => 1,
            Column::IsJal => 1,
            Column::IsSb => 1,
            Column::IsSh => 1,
            Column::IsSw => 1,
            Column::IsLb => 1,
            Column::IsLh => 1,
            Column::IsLbu => 1,
            Column::IsLhu => 1,
            Column::IsLw => 1,
            Column::IsLui => 1,
            Column::IsAuipc => 1,
            Column::IsJalr => 1,
            Column::IsSll => 1,
            Column::IsSrl => 1,
            Column::IsSra => 1,
            Column::IsEcall => 1,
            Column::IsEbreak => 1,
            Column::IsSysDebug => 1,
            Column::IsSysHalt => 1,
            Column::IsSysPrivInput => 1,
            Column::IsSysCycleCount => 1,
            Column::IsSysStackReset => 1,
            Column::IsSysHeapReset => 1,
            Column::IsPadding => 1,
            Column::Helper1 => 4,
            Column::Helper2 => 4,
            Column::Helper3 => 4,
            Column::Helper4 => 4,
            Column::SgnA => 1,
            Column::SgnB => 1,
            Column::SgnC => 1,
            Column::Neq => 1,
            Column::Neq12 => 1,
            Column::Neq34 => 1,
            Column::LtFlag => 1,
            Column::RemAux => 1,
            Column::Rem => 4,
            Column::QtAux => 1,
            Column::Qt => 4,
            Column::ShiftBit1 => 1,
            Column::ShiftBit2 => 1,
            Column::ShiftBit3 => 1,
            Column::ShiftBit4 => 1,
            Column::ShiftBit5 => 1,
            Column::Exp1_3 => 1,
            Column::Exp => 1,
            Column::RemDiff => 4,
            Column::Neq12Aux => 1,
            Column::Neq34Aux => 1,
            Column::Neq12AuxInv => 1,
            Column::Neq34AuxInv => 1,
            Column::Multiplicity8 => 1,
            Column::Multiplicity16 => 1,
            Column::Multiplicity32 => 1,
            Column::Multiplicity128 => 1,
            Column::Multiplicity256 => 1,
            Column::MultiplicityAnd => 1,
            Column::MultiplicityOr => 1,
            Column::MultiplicityXor => 1,
            Column::ValueAEffectiveFlag => 1,
            Column::ValueAEffectiveFlagAux => 1,
            Column::ValueAEffectiveFlagAuxInv => 1,
            Column::Reg1Accessed => 1,
            Column::Reg2Accessed => 1,
            Column::Reg3Accessed => 1,
            Column::Reg1Address => 1,
            Column::Reg2Address => 1,
            Column::Reg3Address => 1,
            Column::Reg1ValPrev => 4,
            Column::Reg2ValPrev => 4,
            Column::Reg3ValPrev => 4,
            Column::Reg1TsPrev => 4,
            Column::Reg2TsPrev => 4,
            Column::Reg3TsPrev => 4,
            Column::FinalRegValue => 4,
            Column::FinalRegTs => 4,
            Column::ProgCtrPrev => 4,
            Column::ProgCtrCur => 4,
            Column::ProgCtrCarry => 4,
            Column::FinalPrgMemoryCtr => 4,
            Column::CReg1TsPrev => 4,
            Column::CReg2TsPrev => 4,
            Column::CReg3TsPrev => 4,
            Column::CH1Minus => 4,
            Column::CH2Minus => 4,
            Column::CH3Minus => 4,
            Column::RamBaseAddr => 4,
            Column::Ram1ValCur => 1,
            Column::Ram2ValCur => 1,
            Column::Ram3ValCur => 1,
            Column::Ram4ValCur => 1,
            Column::Ram1ValPrev => 1,
            Column::Ram2ValPrev => 1,
            Column::Ram3ValPrev => 1,
            Column::Ram4ValPrev => 1,
            Column::Ram1TsPrev => 4,
            Column::Ram2TsPrev => 4,
            Column::Ram3TsPrev => 4,
            Column::Ram4TsPrev => 4,
            Column::Ram1TsPrevAux => 4,
            Column::Ram2TsPrevAux => 4,
            Column::Ram3TsPrevAux => 4,
            Column::Ram4TsPrevAux => 4,
            Column::Ram1Accessed => 1,
            Column::Ram2Accessed => 1,
            Column::Ram3Accessed => 1,
            Column::Ram4Accessed => 1,
            Column::OpC0_3 => 1,
            Column::OpC1_3 => 1,
            Column::OpC1_4 => 1,
            Column::OpC4_7 => 1,
            Column::OpC5_7 => 1,
            Column::OpC8_10 => 1,
            Column::OpC11 => 1,
            Column::OpC12 => 1,
            Column::OpC20 => 1,
            Column::OpA1_4 => 1,
            Column::OpB0_3 => 1,
            Column::OpB1_4 => 1,
            Column::OpC0 => 1,
            Column::OpC4 => 1,
            Column::OpA0 => 1,
            Column::OpB0 => 1,
            Column::OpB4 => 1,
            Column::OpC12_15 => 1,
            Column::OpC16_23 => 1,
            Column::OpC16_19 => 1,
            Column::OpC24_31 => 1,
            Column::PcCarry => 4,
            Column::RamInitFinalAddr => 4,
            Column::RamInitFinalFlag => 1,
            Column::RamFinalValue => 1,
            Column::RamFinalCounter => 4,
            Column::ValueA0_3 => 4,
            Column::ValueB0_3 => 4,
            Column::ValueC0_3 => 4,
            Column::ValueA4_7 => 4,
            Column::ValueB4_7 => 4,
            Column::ValueC4_7 => 4,
        }
    }

    /// Position of the declaration in declaration order.
    pub open spec fn ordinal(self) -> usize {
        match self {
            Column::Pc => 0,
            Column::PcNext => 1,
            Column::PcNextAux => 2,
            Column::OpA => 3,
            Column::OpB => 4,
            Column::OpC => 5,
            Column::CarryFlag => 6,
            Column::BorrowFlag => 7,
            Column::ImmB => 8,
            Column::ImmC => 9,
            Column::InstrVal => 10,
            Column::PrevCtr => 11,
            Column::ValueA => 12,
            Column::ValueAEffective => 13,
            Column::ValueB => 14,
            Column::ValueC => 15,
            Column::IsAdd => 16,
            Column::IsOr => 17,
            Column::IsAnd => 18,
            Column::IsXor => 19,
            Column::IsSub => 20,
            Column::IsSltu => 21,
            Column::IsSlt => 22,
            Column::IsBne => 23,
            Column::IsBeq => 24,
            Column::IsBltu => 25,
            Column::IsBlt => 26,
            Column::IsBgeu => 27,
            Column::IsBge => 28,
            Column::IsJal => 29,
            Column::IsSb => 30,
            Column::IsSh => 31,
            Column::IsSw => 32,
            Column::IsLb => 33,
            Column::IsLh => 34,
            Column::IsLbu => 35,
            Column::IsLhu => 36,
            Column::IsLw => 37,
            Column::IsLui => 38,
            Column::IsAuipc => 39,
            Column::IsJalr => 40,
            Column::IsSll => 41,
            Column::IsSrl => 42,
            Column::IsSra => 43,
            Column::IsEcall => 44,
            Column::IsEbreak => 45,
            Column::IsSysDebug => 46,
            Column::IsSysHalt => 47,
            Column::IsSysPrivInput => 48,
            Column::IsSysCycleCount => 49,
            Column::IsSysStackReset => 50,
            Column::IsSysHeapReset => 51,
            Column::IsPadding => 52,
            Column::Helper1 => 53,
            Column::Helper2 => 54,
            Column::Helper3 => 55,
            Column::Helper4 => 56,
            Column::SgnA => 57,
            Column::SgnB => 58,
            Column::SgnC => 59,
            Column::Neq => 60,
            Column::Neq12 => 61,
            Column::Neq34 => 62,
            Column::LtFlag => 63,
            Column::RemAux => 64,
            Column::Rem => 65,
            Column::QtAux => 66,
            Column::Qt => 67,
            Column::ShiftBit1 => 68,
            Column::ShiftBit2 => 69,
            Column::ShiftBit3 => 70,
            Column::ShiftBit4 => 71,
            Column::ShiftBit5 => 72,
            Column::Exp1_3 => 73,
            Column::Exp => 74,
            Column::RemDiff => 75,
            Column::Neq12Aux => 76,
            Column::Neq34Aux => 77,
            Column::Neq12AuxInv => 78,
            Column::Neq34AuxInv => 79,
            Column::Multiplicity8 => 80,
            Column::Multiplicity16 => 81,
            Column::Multiplicity32 => 82,
            Column::Multiplicity128 => 83,
            Column::Multiplicity256 => 84,
            Column::MultiplicityAnd => 85,
            Column::MultiplicityOr => 86,
            Column::MultiplicityXor => 87,
            Column::ValueAEffectiveFlag => 88,
            Column::ValueAEffectiveFlagAux => 89,
            Column::ValueAEffectiveFlagAuxInv => 90,
            Column::Reg1Accessed => 91,
            Column::Reg2Accessed => 92,
            Column::Reg3Accessed => 93,
            Column::Reg1Address => 94,
            Column::Reg2Address => 95,
            Column::Reg3Address => 96,
            Column::Reg1ValPrev => 97,
            Column::Reg2ValPrev => 98,
            Column::Reg3ValPrev => 99,
            Column::Reg1TsPrev => 100,
            Column::Reg2TsPrev => 101,
            Column::Reg3TsPrev => 102,
            Column::FinalRegValue => 103,
            Column::FinalRegTs => 104,
            Column::ProgCtrPrev => 105,
            Column::ProgCtrCur => 106,
            Column::ProgCtrCarry => 107,
            Column::FinalPrgMemoryCtr => 108,
            Column::CReg1TsPrev => 109,
            Column::CReg2TsPrev => 110,
            Column::CReg3TsPrev => 111,
            Column::CH1Minus => 112,
            Column::CH2Minus => 113,
            Column::CH3Minus => 114,
            Column::RamBaseAddr => 115,
            Column::Ram1ValCur => 116,
            Column::Ram2ValCur => 117,
            Column::Ram3ValCur => 118,
            Column::Ram4ValCur => 119,
            Column::Ram1ValPrev => 120,
            Column::Ram2ValPrev => 121,
            Column::Ram3ValPrev => 122,
            Column::Ram4ValPrev => 123,
            Column::Ram1TsPrev => 124,
            Column::Ram2TsPrev => 125,
            Column::Ram3TsPrev => 126,
            Column::Ram4TsPrev => 127,
            Column::Ram1TsPrevAux => 128,
            Column::Ram2TsPrevAux => 129,
            Column::Ram3TsPrevAux => 130,
            Column::Ram4TsPrevAux => 131,
            Column::Ram1Accessed => 132,
            Column::Ram2Accessed => 133,
            Column::Ram3Accessed => 134,
            Column::Ram4Accessed => 135,
            Column::OpC0_3 => 136,
            Column::OpC1_3 => 137,
            Column::OpC1_4 => 138,
            Column::OpC4_7 => 139,
            Column::OpC5_7 => 140,
            Column::OpC8_10 => 141,
            Column::OpC11 => 142,
            Column::OpC12 => 143,
            Column::OpC20 => 144,
            Column::OpA1_4 => 145,
            Column::OpB0_3 => 146,
            Column::OpB1_4 => 147,
            Column::OpC0 => 148,
            Column::OpC4 => 149,
            Column::OpA0 => 150,
            Column::OpB0 => 151,
            Column::OpB4 => 152,
            Column::OpC12_15 => 153,
            Column::OpC16_23 => 154,
            Column::OpC16_19 => 155,
            Column::OpC24_31 => 156,
            Column::PcCarry => 157,
            Column::RamInitFinalAddr => 158,
            Column::RamInitFinalFlag => 159,
            Column::RamFinalValue => 160,
            Column::RamFinalCounter => 161,
            Column::ValueA0_3 => 162,
            Column::ValueB0_3 => 163,
            Column::ValueC0_3 => 164,
            Column::ValueA4_7 => 165,
            Column::ValueB4_7 => 166,
            Column::ValueC4_7 => 167,
        }
    }

    /// The declaration at position `index`.
    pub open spec fn declared(index: usize) -> Self {
        match index {
            0 => Column::Pc,
            1 => Column::PcNext,
            2 => Column::PcNextAux,
            3 => Column::OpA,
            4 => Column::OpB,
            5 => Column::OpC,
            6 => Column::CarryFlag,
            7 => Column::BorrowFlag,
            8 => Column::ImmB,
            9 => Column::ImmC,
            10 => Column::InstrVal,
            11 => Column::PrevCtr,
            12 => Column::ValueA,
            13 => Column::ValueAEffective,
            14 => Column::ValueB,
            15 => Column::ValueC,
            16 => Column::IsAdd,
            17 => Column::IsOr,
            18 => Column::IsAnd,
            19 => Column::IsXor,
            20 => Column::IsSub,
            21 => Column::IsSltu,
            22 => Column::IsSlt,
            23 => Column::IsBne,
            24 => Column::IsBeq,
            25 => Column::IsBltu,
            26 => Column::IsBlt,
            27 => Column::IsBgeu,
            28 => Column::IsBge,
            29 => Column::IsJal,
            30 => Column::IsSb,
            31 => Column::IsSh,
            32 => Column::IsSw,
            33 => Column::IsLb,
            34 => Column::IsLh,
            35 => Column::IsLbu,
            36 => Column::IsLhu,
            37 => Column::IsLw,
            38 => Column::IsLui,
            39 => Column::IsAuipc,
            40 => Column::IsJalr,
            41 => Column::IsSll,
            42 => Column::IsSrl,
            43 => Column::IsSra,
            44 => Column::IsEcall,
            45 => Column::IsEbreak,
            46 => Column::IsSysDebug,
            47 => Column::IsSysHalt,
            48 => Column::IsSysPrivInput,
            49 => Column::IsSysCycleCount,
            50 => Column::IsSysStackReset,
            51 => Column::IsSysHeapReset,
            52 => Column::IsPadding,
            53 => Column::Helper1,
            54 => Column::Helper2,
            55 => Column::Helper3,
            56 => Column::Helper4,
            57 => Column::SgnA,
            58 => Column::SgnB,
            59 => Column::SgnC,
            60 => Column::Neq,
            61 => Column::Neq12,
            62 => Column::Neq34,
            63 => Column::LtFlag,
            64 => Column::RemAux,
            65 => Column::Rem,
            66 => Column::QtAux,
            67 => Column::Qt,
            68 => Column::ShiftBit1,
            69 => Column::ShiftBit2,
            70 => Column::ShiftBit3,
            71 => Column::ShiftBit4,
            72 => Column::ShiftBit5,
            73 => Column::Exp1_3,
            74 => Column::Exp,
            75 => Column::RemDiff,
            76 => Column::Neq12Aux,
            77 => Column::Neq34Aux,
            78 => Column::Neq12AuxInv,
            79 => Column::Neq34AuxInv,
            80 => Column::Multiplicity8,
            81 => Column::Multiplicity16,
            82 => Column::Multiplicity32,
            83 => Column::Multiplicity128,
            84 => Column::Multiplicity256,
            85 => Column::MultiplicityAnd,
            86 => Column::MultiplicityOr,
            87 => Column::MultiplicityXor,
            88 => Column::ValueAEffectiveFlag,
            89 => Column::ValueAEffectiveFlagAux,
            90 => Column::ValueAEffectiveFlagAuxInv,
            91 => Column::Reg1Accessed,
            92 => Column::Reg2Accessed,
            93 => Column::Reg3Accessed,
            94 => Column::Reg1Address,
            95 => Column::Reg2Address,
            96 => Column::Reg3Address,
            97 => Column::Reg1ValPrev,
            98 => Column::Reg2ValPrev,
            99 => Column::Reg3ValPrev,
            100 => Column::Reg1TsPrev,
            101 => Column::Reg2TsPrev,
            102 => Column::Reg3TsPrev,
            103 => Column::FinalRegValue,
            104 => Column::FinalRegTs,
            105 => Column::ProgCtrPrev,
            106 => Column::ProgCtrCur,
            107 => Column::ProgCtrCarry,
            108 => Column::FinalPrgMemoryCtr,
            109 => Column::CReg1TsPrev,
            110 => Column::CReg2TsPrev,
            111 => Column::CReg3TsPrev,
            112 => Column::CH1Minus,
            113 => Column::CH2Minus,
            114 => Column::CH3Minus,
            115 => Column::RamBaseAddr,
            116 => Column::Ram1ValCur,
            117 => Column::Ram2ValCur,
            118 => Column::Ram3ValCur,
            119 => Column::Ram4ValCur,
            120 => Column::Ram1ValPrev,
            121 => Column::Ram2ValPrev,
            122 => Column::Ram3ValPrev,
            123 => Column::Ram4ValPrev,
            124 => Column::Ram1TsPrev,
            125 => Column::Ram2TsPrev,
            126 => Column::Ram3TsPrev,
            127 => Column::Ram4TsPrev,
            128 => Column::Ram1TsPrevAux,
            129 => Column::Ram2TsPrevAux,
            130 => Column::Ram3TsPrevAux,
            131 => Column::Ram4TsPrevAux,
            132 => Column::Ram1Accessed,
            133 => Column::Ram2Accessed,
            134 => Column::Ram3Accessed,
            135 => Column::Ram4Accessed,
            136 => Column::OpC0_3,
            137 => Column::OpC1_3,
            138 => Column::OpC1_4,
            139 => Column::OpC4_7,
            140 => Column::OpC5_7,
            141 => Column::OpC8_10,
            142 => Column::OpC11,
            143 => Column::OpC12,
            144 => Column::OpC20,
            145 => Column::OpA1_4,
            146 => Column::OpB0_3,
            147 => Column::OpB1_4,
            148 => Column::OpC0,
            149 => Column::OpC4,
            150 => Column::OpA0,
            151 => Column::OpB0,
            152 => Column::OpB4,
            153 => Column::OpC12_15,
            154 => Column::OpC16_23,
            155 => Column::OpC16_19,
            156 => Column::OpC24_31,
            157 => Column::PcCarry,
            158 => Column::RamInitFinalAddr,
            159 => Column::RamInitFinalFlag,
            160 => Column::RamFinalValue,
            161 => Column::RamFinalCounter,
            162 => Column::ValueA0_3,
            163 => Column::ValueB0_3,
            164 => Column::ValueC0_3,
            165 => Column::ValueA4_7,
            166 => Column::ValueB4_7,
            _ => Column::ValueC4_7,
        }
    }

    /// Index of the first scalar column of the declaration.
    #[verifier::opaque]
    pub open spec fn offset_spec(self) -> nat {
        match self {
            Column::Pc => 0,
            Column::PcNext => 4,
            Column::PcNextAux => 8,
            Column::OpA => 12,
            Column::OpB => 13,
            Column::OpC => 14,
            Column::CarryFlag => 15,
            Column::BorrowFlag => 19,
            Column::ImmB => 23,
            Column::ImmC => 24,
            Column::InstrVal => 25,
            Column::PrevCtr => 29,
            Column::ValueA => 33,
            Column::ValueAEffective => 37,
            Column::ValueB => 41,
            Column::ValueC => 45,
            Column::IsAdd => 49,
            Column::IsOr => 50,
            Column::IsAnd => 51,
            Column::IsXor => 52,
            Column::IsSub => 53,
            Column::IsSltu => 54,
            Column::IsSlt => 55,
            Column::IsBne => 56,
            Column::IsBeq => 57,
            Column::IsBltu => 58,
            Column::IsBlt => 59,
            Column::IsBgeu => 60,
            Column::IsBge => 61,
            Column::IsJal => 62,
            Column::IsSb => 63,
            Column::IsSh => 64,
            Column::IsSw => 65,
            Column::IsLb => 66,
            Column::IsLh => 67,
            Column::IsLbu => 68,
            Column::IsLhu => 69,
            Column::IsLw => 70,
            Column::IsLui => 71,
            Column::IsAuipc => 72,
            Column::IsJalr => 73,
            Column::IsSll => 74,
            Column::IsSrl => 75,
            Column::IsSra => 76,
            Column::IsEcall => 77,
            Column::IsEbreak => 78,
            Column::IsSysDebug => 79,
            Column::IsSysHalt => 80,
            Column::IsSysPrivInput => 81,
            Column::IsSysCycleCount => 82,
            Column::IsSysStackReset => 83,
            Column::IsSysHeapReset => 84,
            Column::IsPadding => 85,
            Column::Helper1 => 86,
            Column::Helper2 => 90,
            Column::Helper3 => 94,
            Column::Helper4 => 98,
            Column::SgnA => 102,
            Column::SgnB => 103,
            Column::SgnC => 104,
            Column::Neq => 105,
            Column::Neq12 => 106,
            Column::Neq34 => 107,
            Column::LtFlag => 108,
            Column::RemAux => 109,
            Column::Rem => 110,
            Column::QtAux => 114,
            Column::Qt => 115,
            Column::ShiftBit1 => 119,
            Column::ShiftBit2 => 120,
            Column::ShiftBit3 => 121,
            Column::ShiftBit4 => 122,
            Column::ShiftBit5 => 123,
            Column::Exp1_3 => 124,
            Column::Exp => 125,
            Column::RemDiff => 126,
            Column::Neq12Aux => 130,
            Column::Neq34Aux => 131,
            Column::Neq12AuxInv => 132,
            Column::Neq34AuxInv => 133,
            Column::Multiplicity8 => 134,
            Column::Multiplicity16 => 135,
            Column::Multiplicity32 => 136,
            Column::Multiplicity128 => 137,
            Column::Multiplicity256 => 138,
            Column::MultiplicityAnd => 139,
            Column::MultiplicityOr => 140,
            Column::MultiplicityXor => 141,
            Column::ValueAEffectiveFlag => 142,
            Column::ValueAEffectiveFlagAux => 143,
            Column::ValueAEffectiveFlagAuxInv => 144,
            Column::Reg1Accessed => 145,
            Column::Reg2Accessed => 146,
            Column::Reg3Accessed => 147,
            Column::Reg1Address => 148,
            Column::Reg2Address => 149,
            Column::Reg3Address => 150,
            Column::Reg1ValPrev => 151,
            Column::Reg2ValPrev => 155,
            Column::Reg3ValPrev => 159,
            Column::Reg1TsPrev => 163,
            Column::Reg2TsPrev => 167,
            Column::Reg3TsPrev => 171,
            Column::FinalRegValue => 175,
            Column::FinalRegTs => 179,
            Column::ProgCtrPrev => 183,
            Column::ProgCtrCur => 187,
            Column::ProgCtrCarry => 191,
            Column::FinalPrgMemoryCtr => 195,
            Column::CReg1TsPrev => 199,
            Column::CReg2TsPrev => 203,
            Column::CReg3TsPrev => 207,
            Column::CH1Minus => 211,
            Column::CH2Minus => 215,
            Column::CH3Minus => 219,
            Column::RamBaseAddr => 223,
            Column::Ram1ValCur => 227,
            Column::Ram2ValCur => 228,
            Column::Ram3ValCur => 229,
            Column::Ram4ValCur => 230,
            Column::Ram1ValPrev => 231,
            Column::Ram2ValPrev => 232,
            Column::Ram3ValPrev => 233,
            Column::Ram4ValPrev => 234,
            Column::Ram1TsPrev => 235,
            Column::Ram2TsPrev => 239,
            Column::Ram3TsPrev => 243,
            Column::Ram4TsPrev => 247,
            Column::Ram1TsPrevAux => 251,
            Column::Ram2TsPrevAux => 255,
            Column::Ram3TsPrevAux => 259,
            Column::Ram4TsPrevAux => 263,
            Column::Ram1Accessed => 267,
            Column::Ram2Accessed => 268,
            Column::Ram3Accessed => 269,
            Column::Ram4Accessed => 270,
            Column::OpC0_3 => 271,
            Column::OpC1_3 => 272,
            Column::OpC1_4 => 273,
            Column::OpC4_7 => 274,
            Column::OpC5_7 => 275,
            Column::OpC8_10 => 276,
            Column::OpC11 => 277,
            Column::OpC12 => 278,
            Column::OpC20 => 279,
            Column::OpA1_4 => 280,
            Column::OpB0_3 => 281,
            Column::OpB1_4 => 282,
            Column::OpC0 => 283,
            Column::OpC4 => 284,
            Column::OpA0 => 285,
            Column::OpB0 => 286,
            Column::OpB4 => 287,
            Column::OpC12_15 => 288,
            Column::OpC16_23 => 289,
            Column::OpC16_19 => 290,
            Column::OpC24_31 => 291,
            Column::PcCarry => 292,
            Column::RamInitFinalAddr => 296,
            Column::RamInitFinalFlag => 300,
            Column::RamFinalValue => 301,
            Column::RamFinalCounter => 302,
            Column::ValueA0_3 => 306,
            Column::ValueB0_3 => 310,
            Column::ValueC0_3 => 314,
            Column::ValueA4_7 => 318,
            Column::ValueB4_7 => 322,
            Column::ValueC4_7 => 326,
        }
    }

    /// The offsets by position in declaration order.
    spec fn offset_table(index: usize) -> nat {
        match index {
            0 => 0,
            1 => 4,
            2 => 8,
            3 => 12,
            4 => 13,
            5 => 14,
            6 => 15,
            7 => 19,
            8 => 23,
            9 => 24,
            10 => 25,
            11 => 29,
            12 => 33,
            13 => 37,
            14 => 41,
            15 => 45,
            16 => 49,
            17 => 50,
            18 => 51,
            19 => 52,
            20 => 53,
            21 => 54,
            22 => 55,
            23 => 56,
            24 => 57,
            25 => 58,
            26 => 59,
            27 => 60,
            28 => 61,
            29 => 62,
            30 => 63,
            31 => 64,
            32 => 65,
            33 => 66,
            34 => 67,
            35 => 68,
            36 => 69,
            37 => 70,
            38 => 71,
            39 => 72,
            40 => 73,
            41 => 74,
            42 => 75,
            43 => 76,
            44 => 77,
            45 => 78,
            46 => 79,
            47 => 80,
            48 => 81,
            49 => 82,
            50 => 83,
            51 => 84,
            52 => 85,
            53 => 86,
            54 => 90,
            55 => 94,
            56 => 98,
            57 => 102,
            58 => 103,
            59 => 104,
            60 => 105,
            61 => 106,
            62 => 107,
            63 => 108,
            64 => 109,
            65 => 110,
            66 => 114,
            67 => 115,
            68 => 119,
            69 => 120,
            70 => 121,
            71 => 122,
            72 => 123,
            73 => 124,
            74 => 125,
            75 => 126,
            76 => 130,
            77 => 131,
            78 => 132,
            79 => 133,
            80 => 134,
            81 => 135,
            82 => 136,
            83 => 137,
            84 => 138,
            85 => 139,
            86 => 140,
            87 => 141,
            88 => 142,
            89 => 143,
            90 => 144,
            91 => 145,
            92 => 146,
            93 => 147,
            94 => 148,
            95 => 149,
            96 => 150,
            97 => 151,
            98 => 155,
            99 => 159,
            100 => 163,
            101 => 167,
            102 => 171,
            103 => 175,
            104 => 179,
            105 => 183,
            106 => 187,
            107 => 191,
            108 => 195,
            109 => 199,
            110 => 203,
            111 => 207,
            112 => 211,
            113 => 215,
            114 => 219,
            115 => 223,
            116 => 227,
            117 => 228,
            118 => 229,
            119 => 230,
            120 => 231,
            121 => 232,
            122 => 233,
            123 => 234,
            124 => 235,
            125 => 239,
            126 => 243,
            127 => 247,
            128 => 251,
            129 => 255,
            130 => 259,
            131 => 263,
            132 => 267,
            133 => 268,
            134 => 269,
            135 => 270,
            136 => 271,
            137 => 272,
            138 => 273,
            139 => 274,
            140 => 275,
            141 => 276,
            142 => 277,
            143 => 278,
            144 => 279,
            145 => 280,
            146 => 281,
            147 => 282,
            148 => 283,
            149 => 284,
            150 => 285,
            151 => 286,
            152 => 287,
            153 => 288,
            154 => 289,
            155 => 290,
            156 => 291,
            157 => 292,
            158 => 296,
            159 => 300,
            160 => 301,
            161 => 302,
            162 => 306,
            163 => 310,
            164 => 314,
            165 => 318,
            166 => 322,
            167 => 326,
            _ => 330,
        }
    }

    proof fn lemma_offset_table_step(index: usize)
        requires
            index < 168,
        ensures
            Self::offset_table((index + 1) as usize) == Self::offset_table(index) + Self::declared(
                index,
            ).size_spec(),
    {
    }

    proof fn lemma_offset_table(index: usize)
        requires
            index <= 168,
        ensures
            columns_before::<Self>(index as nat) == Self::offset_table(index),
        decreases index,
    {
        if index > 0 {
            Self::lemma_offset_table((index - 1) as usize);
            Self::lemma_offset_table_step((index - 1) as usize);
        }
    }

    /// The offset of a declaration is the number of scalar columns that the
    /// declarations before it span.
    pub proof fn lemma_offset(self)
        ensures
            self.offset_spec() == first_column(self),
    {
        reveal(Column::offset_spec);
        Self::lemma_offset_table(self.ordinal());
    }

    /// Number of scalar columns that the declaration spans.
    pub fn size(self) -> (size: usize)
        ensures
            size == self.size_spec(),
            size > 0,
    {
        match self {
            Column::Pc => 4,
            Column::PcNext => 4,
            Column::PcNextAux => 4,
            Column::OpA => 1,
            Column::OpB => 1,
            Column::OpC => 1,
            Column::CarryFlag => 4,
            Column::BorrowFlag => 4,
            Column::ImmB => 1,
            Column::ImmC => 1,
            Column::InstrVal => 4,
            Column::PrevCtr => 4,
            Column::ValueA => 4,
            Column::ValueAEffective => 4,
            Column::ValueB => 4,
            Column::ValueC => 4,
            Column::IsAdd => 1,
            Column::IsOr => 1,
            Column::IsAnd => 1,
            Column::IsXor => 1,
            Column::IsSub => 1,
            Column::IsSltu => 1,
            Column::IsSlt => 1,
            Column::IsBne => 1,
            Column::IsBeq => 1,
            Column::IsBltu => 1,
            Column::IsBlt => 1,
            Column::IsBgeu => 1,
            Column::IsBge => 1,
            Column::IsJal => 1,
            Column::IsSb => 1,
            Column::IsSh => 1,
            Column::IsSw => 1,
            Column::IsLb => 1,
            Column::IsLh => 1,
            Column::IsLbu => 1,
            Column::IsLhu => 1,
            Column::IsLw => 1,
            Column::IsLui => 1,
            Column::IsAuipc => 1,
            Column::IsJalr => 1,
            Column::IsSll => 1,
            Column::IsSrl => 1,
            Column::IsSra => 1,
            Column::IsEcall => 1,
            Column::IsEbreak => 1,
            Column::IsSysDebug => 1,
            Column::IsSysHalt => 1,
            Column::IsSysPrivInput => 1,
            Column::IsSysCycleCount => 1,
            Column::IsSysStackReset => 1,
            Column::IsSysHeapReset => 1,
            Column::IsPadding => 1,
            Column::Helper1 => 4,
            Column::Helper2 => 4,
            Column::Helper3 => 4,
            Column::Helper4 => 4,
            Column::SgnA => 1,
            Column::SgnB => 1,
            Column::SgnC => 1,
            Column::Neq => 1,
            Column::Neq12 => 1,
            Column::Neq34 => 1,
            Column::LtFlag => 1,
            Column::RemAux => 1,
            Column::Rem => 4,
            Column::QtAux => 1,
            Column::Qt => 4,
            Column::ShiftBit1 => 1,
            Column::ShiftBit2 => 1,
            Column::ShiftBit3 => 1,
            Column::ShiftBit4 => 1,
            Column::ShiftBit5 => 1,
            Column::Exp1_3 => 1,
            Column::Exp => 1,
            Column::RemDiff => 4,
            Column::Neq12Aux => 1,
            Column::Neq34Aux => 1,
            Column::Neq12AuxInv => 1,
            Column::Neq34AuxInv => 1,
            Column::Multiplicity8 => 1,
            Column::Multiplicity16 => 1,
            Column::Multiplicity32 => 1,
            Column::Multiplicity128 => 1,
            Column::Multiplicity256 => 1,
            Column::MultiplicityAnd => 1,
            Column::MultiplicityOr => 1,
            Column::MultiplicityXor => 1,
            Column::ValueAEffectiveFlag => 1,
            Column::ValueAEffectiveFlagAux => 1,
            Column::ValueAEffectiveFlagAuxInv => 1,
            Column::Reg1Accessed => 1,
            Column::Reg2Accessed => 1,
            Column::Reg3Accessed => 1,
            Column::Reg1Address => 1,
            Column::Reg2Address => 1,
            Column::Reg3Address => 1,
            Column::Reg1ValPrev => 4,
            Column::Reg2ValPrev => 4,
            Column::Reg3ValPrev => 4,
            Column::Reg1TsPrev => 4,
            Column::Reg2TsPrev => 4,
            Column::Reg3TsPrev => 4,
            Column::FinalRegValue => 4,
            Column::FinalRegTs => 4,
            Column::ProgCtrPrev => 4,
            Column::ProgCtrCur => 4,
            Column::ProgCtrCarry => 4,
            Column::FinalPrgMemoryCtr => 4,
            Column::CReg1TsPrev => 4,
            Column::CReg2TsPrev => 4,
            Column::CReg3TsPrev => 4,
            Column::CH1Minus => 4,
            Column::CH2Minus => 4,
            Column::CH3Minus => 4,
            Column::RamBaseAddr => 4,
            Column::Ram1ValCur => 1,
            Column::Ram2ValCur => 1,
            Column::Ram3ValCur => 1,
            Column::Ram4ValCur => 1,
            Column::Ram1ValPrev => 1,
            Column::Ram2ValPrev => 1,
            Column::Ram3ValPrev => 1,
            Column::Ram4ValPrev => 1,
            Column::Ram1TsPrev => 4,
            Column::Ram2TsPrev => 4,
            Column::Ram3TsPrev => 4,
            Column::Ram4TsPrev => 4,
            Column::Ram1TsPrevAux => 4,
            Column::Ram2TsPrevAux => 4,
            Column::Ram3TsPrevAux => 4,
            Column::Ram4TsPrevAux => 4,
            Column::Ram1Accessed => 1,
            Column::Ram2Accessed => 1,
            Column::Ram3Accessed => 1,
            Column::Ram4Accessed => 1,
            Column::OpC0_3 => 1,
            Column::OpC1_3 => 1,
            Column::OpC1_4 => 1,
            Column::OpC4_7 => 1,
            Column::OpC5_7 => 1,
            Column::OpC8_10 => 1,
            Column::OpC11 => 1,
            Column::OpC12 => 1,
            Column::OpC20 => 1,
            Column::OpA1_4 => 1,
            Column::OpB0_3 => 1,
            Column::OpB1_4 => 1,
            Column::OpC0 => 1,
            Column::OpC4 => 1,
            Column::OpA0 => 1,
            Column::OpB0 => 1,
            Column::OpB4 => 1,
            Column::OpC12_15 => 1,
            Column::OpC16_23 => 1,
            Column::OpC16_19 => 1,
            Column::OpC24_31 => 1,
            Column::PcCarry => 4,
            Column::RamInitFinalAddr => 4,
            Column::RamInitFinalFlag => 1,
            Column::RamFinalValue => 1,
            Column::RamFinalCounter => 4,
            Column::ValueA0_3 => 4,
            Column::ValueB0_3 => 4,
            Column::ValueC0_3 => 4,
            Column::ValueA4_7 => 4,
            Column::ValueB4_7 => 4,
            Column::ValueC4_7 => 4,
        }
    }

    /// Index of the first scalar column of the declaration.
    pub fn offset(self) -> (offset: usize)
        ensures
            offset == self.offset_spec(),
            offset + self.size_spec() <= Self::COLUMNS_NUM,
    {
        proof {
            reveal(Column::offset_spec);
        }
        match self {
            Column::Pc => 0,
            Column::PcNext => 4,
            Column::PcNextAux => 8,
            Column::OpA => 12,
            Column::OpB => 13,
            Column::OpC => 14,
            Column::CarryFlag => 15,
            Column::BorrowFlag => 19,
            Column::ImmB => 23,
            Column::ImmC => 24,
            Column::InstrVal => 25,
            Column::PrevCtr => 29,
            Column::ValueA => 33,
            Column::ValueAEffective => 37,
            Column::ValueB => 41,
            Column::ValueC => 45,
            Column::IsAdd => 49,
            Column::IsOr => 50,
            Column::IsAnd => 51,
            Column::IsXor => 52,
            Column::IsSub => 53,
            Column::IsSltu => 54,
            Column::IsSlt => 55,
            Column::IsBne => 56,
            Column::IsBeq => 57,
            Column::IsBltu => 58,
            Column::IsBlt => 59,
            Column::IsBgeu => 60,
            Column::IsBge => 61,
            Column::IsJal => 62,
            Column::IsSb => 63,
            Column::IsSh => 64,
            Column::IsSw => 65,
            Column::IsLb => 66,
            Column::IsLh => 67,
            Column::IsLbu => 68,
            Column::IsLhu => 69,
            Column::IsLw => 70,
            Column::IsLui => 71,
            Column::IsAuipc => 72,
            Column::IsJalr => 73,
            Column::IsSll => 74,
            Column::IsSrl => 75,
            Column::IsSra => 76,
            Column::IsEcall => 77,
            Column::IsEbreak => 78,
            Column::IsSysDebug => 79,
            Column::IsSysHalt => 80,
            Column::IsSysPrivInput => 81,
            Column::IsSysCycleCount => 82,
            Column::IsSysStackReset => 83,
            Column::IsSysHeapReset => 84,
            Column::IsPadding => 85,
            Column::Helper1 => 86,
            Column::Helper2 => 90,
            Column::Helper3 => 94,
            Column::Helper4 => 98,
            Column::SgnA => 102,
            Column::SgnB => 103,
            Column::SgnC => 104,
            Column::Neq => 105,
            Column::Neq12 => 106,
            Column::Neq34 => 107,
            Column::LtFlag => 108,
            Column::RemAux => 109,
            Column::Rem => 110,
            Column::QtAux => 114,
            Column::Qt => 115,
            Column::ShiftBit1 => 119,
            Column::ShiftBit2 => 120,
            Column::ShiftBit3 => 121,
            Column::ShiftBit4 => 122,
            Column::ShiftBit5 => 123,
            Column::Exp1_3 => 124,
            Column::Exp => 125,
            Column::RemDiff => 126,
            Column::Neq12Aux => 130,
            Column::Neq34Aux => 131,
            Column::Neq12AuxInv => 132,
            Column::Neq34AuxInv => 133,
            Column::Multiplicity8 => 134,
            Column::Multiplicity16 => 135,
            Column::Multiplicity32 => 136,
            Column::Multiplicity128 => 137,
            Column::Multiplicity256 => 138,
            Column::MultiplicityAnd => 139,
            Column::MultiplicityOr => 140,
            Column::MultiplicityXor => 141,
            Column::ValueAEffectiveFlag => 142,
            Column::ValueAEffectiveFlagAux => 143,
            Column::ValueAEffectiveFlagAuxInv => 144,
            Column::Reg1Accessed => 145,
            Column::Reg2Accessed => 146,
            Column::Reg3Accessed => 147,
            Column::Reg1Address => 148,
            Column::Reg2Address => 149,
            Column::Reg3Address => 150,
            Column::Reg1ValPrev => 151,
            Column::Reg2ValPrev => 155,
            Column::Reg3ValPrev => 159,
            Column::Reg1TsPrev => 163,
            Column::Reg2TsPrev => 167,
            Column::Reg3TsPrev => 171,
            Column::FinalRegValue => 175,
            Column::FinalRegTs => 179,
            Column::ProgCtrPrev => 183,
            Column::ProgCtrCur => 187,
            Column::ProgCtrCarry => 191,
            Column::FinalPrgMemoryCtr => 195,
            Column::CReg1TsPrev => 199,
            Column::CReg2TsPrev => 203,
            Column::CReg3TsPrev => 207,
            Column::CH1Minus => 211,
            Column::CH2Minus => 215,
            Column::CH3Minus => 219,
            Column::RamBaseAddr => 223,
            Column::Ram1ValCur => 227,
            Column::Ram2ValCur => 228,
            Column::Ram3ValCur => 229,
            Column::Ram4ValCur => 230,
            Column::Ram1ValPrev => 231,
            Column::Ram2ValPrev => 232,
            Column::Ram3ValPrev => 233,
            Column::Ram4ValPrev => 234,
            Column::Ram1TsPrev => 235,
            Column::Ram2TsPrev => 239,
            Column::Ram3TsPrev => 243,
            Column::Ram4TsPrev => 247,
            Column::Ram1TsPrevAux => 251,
            Column::Ram2TsPrevAux => 255,
            Column::Ram3TsPrevAux => 259,
            Column::Ram4TsPrevAux => 263,
            Column::Ram1Accessed => 267,
            Column::Ram2Accessed => 268,
            Column::Ram3Accessed => 269,
            Column::Ram4Accessed => 270,
            Column::OpC0_3 => 271,
            Column::OpC1_3 => 272,
            Column::OpC1_4 => 273,
            Column::OpC4_7 => 274,
            Column::OpC5_7 => 275,
            Column::OpC8_10 => 276,
            Column::OpC11 => 277,
            Column::OpC12 => 278,
            Column::OpC20 => 279,
            Column::OpA1_4 => 280,
            Column::OpB0_3 => 281,
            Column::OpB1_4 => 282,
            Column::OpC0 => 283,
            Column::OpC4 => 284,
            Column::OpA0 => 285,
            Column::OpB0 => 286,
            Column::OpB4 => 287,
            Column::OpC12_15 => 288,
            Column::OpC16_23 => 289,
            Column::OpC16_19 => 290,
            Column::OpC24_31 => 291,
            Column::PcCarry => 292,
            Column::RamInitFinalAddr => 296,
            Column::RamInitFinalFlag => 300,
            Column::RamFinalValue => 301,
            Column::RamFinalCounter => 302,
            Column::ValueA0_3 => 306,
            Column::ValueB0_3 => 310,
            Column::ValueC0_3 => 314,
            Column::ValueA4_7 => 318,
            Column::ValueB4_7 => 322,
            Column::ValueC4_7 => 326,
        }
    }
}

impl ColumnsEnum for Column {
    open spec fn variants_num() -> nat {
        168
    }

    open spec fn columns_num() -> nat {
        330
    }

    open spec fn position(self) -> nat {
        self.ordinal() as nat
    }

    open spec fn at_position(index: nat) -> Self {
        Self::declared(index as usize)
    }

    open spec fn width(self) -> nat {
        self.size_spec()
    }

    proof fn lemma_declarations(self, index: nat) {
    }
}

impl ColumnsLayout for Column {
    proof fn lemma_columns_num() {
        Self::lemma_offset_table(168);
    }
}

/// Fields of the trace that holds the program image and the public input and output.
#[allow(non_camel_case_types)]
#[derive(Debug, Copy, Clone, Hash, PartialEq, Eq, Structural)]
pub enum ProgramColumn {
    /// Program memory content: every Pc in the program memory
    PrgMemoryPc,
    /// Program memory content: Instruction word at PrgMemoryPc
    PrgMemoryWord,
    /// Program memory content: 1 means the row contains real PrgMemory*. 0 otherwise.
    PrgMemoryFlag,
    /// The first program counter for finding the first executed instruction
    PrgInitialPc,
    /// The one-byte content of public input at PublicInputAddr
    PublicInputValue,
    /// A flag indicating (PublicInputOutputAddr, PublicInputValue) is a byte in the public input
    PublicInputFlag,
    /// The one-byte content of public output at PublicInputOutputAddr
    PublicOutputValue,
    /// A flag indicating the row's (PublicInputOutputAddr, PublicOutputValue) is a byte in the public output
    PublicOutputFlag,
    /// The address of public input/output; actually a selective copy of RamInitFinalAddr that the verifier knows
    PublicInputOutputAddr,
}

impl ProgramColumn {
    /// Total number of scalar columns of the namespace.
    pub const COLUMNS_NUM: usize = 21;

    /// Number of declarations of the namespace.
    pub const VARIANTS_NUM: usize = 9;

    /// Number of scalar columns that the declaration spans.
    pub open spec fn size_spec(self) -> nat {
        match self {
            ProgramColumn::PrgMemoryPc => 4,
            ProgramColumn::PrgMemoryWord => 4,
            ProgramColumn::PrgMemoryFlag => 1,
            ProgramColumn::PrgInitialPc => 4,
            ProgramColumn::PublicInputValue => 1,
            ProgramColumn::PublicInputFlag => 1,
            ProgramColumn::PublicOutputValue => 1,
            ProgramColumn::PublicOutputFlag => 1,
            ProgramColumn::PublicInputOutputAddr => 4,
        }
    }

    /// Position of the declaration in declaration order.
    pub open spec fn ordinal(self) -> usize {
        match self {
            ProgramColumn::PrgMemoryPc => 0,
            ProgramColumn::PrgMemoryWord => 1,
            ProgramColumn::PrgMemoryFlag => 2,
            ProgramColumn::PrgInitialPc => 3,
            ProgramColumn::PublicInputValue => 4,
            ProgramColumn::PublicInputFlag => 5,
            ProgramColumn::PublicOutputValue => 6,
            ProgramColumn::PublicOutputFlag => 7,
            ProgramColumn::PublicInputOutputAddr => 8,
        }
    }

    /// The declaration at position `index`.
    pub open spec fn declared(index: usize) -> Self {
        match index {
            0 => ProgramColumn::PrgMemoryPc,
            1 => ProgramColumn::PrgMemoryWord,
            2 => ProgramColumn::PrgMemoryFlag,
            3 => ProgramColumn::PrgInitialPc,
            4 => ProgramColumn::PublicInputValue,
            5 => ProgramColumn::PublicInputFlag,
            6 => ProgramColumn::PublicOutputValue,
            7 => ProgramColumn::PublicOutputFlag,
            _ => ProgramColumn::PublicInputOutputAddr,
        }
    }

    /// Index of the first scalar column of the declaration.
    #[verifier::opaque]
    pub open spec fn offset_spec(self) -> nat {
        match self {
            ProgramColumn::PrgMemoryPc => 0,
            ProgramColumn::PrgMemoryWord => 4,
            ProgramColumn::PrgMemoryFlag => 8,
            ProgramColumn::PrgInitialPc => 9,
            ProgramColumn::PublicInputValue => 13,
            ProgramColumn::PublicInputFlag => 14,
            ProgramColumn::PublicOutputValue => 15,
            ProgramColumn::PublicOutputFlag => 16,
            ProgramColumn::PublicInputOutputAddr => 17,
        }
    }

    /// The offsets by position in declaration order.
    spec fn offset_table(index: usize) -> nat {
        match index {
            0 => 0,
            1 => 4,
            2 => 8,
            3 => 9,
            4 => 13,
            5 => 14,
            6 => 15,
            7 => 16,
            8 => 17,
            _ => 21,
        }
    }

    proof fn lemma_offset_table_step(index: usize)
        requires
            index < 9,
        ensures
            Self::offset_table((index + 1) as usize) == Self::offset_table(index) + Self::declared(
                index,
            ).size_spec(),
    {
    }

    proof fn lemma_offset_table(index: usize)
        requires
            index <= 9,
        ensures
            columns_before::<Self>(index as nat) == Self::offset_table(index),
        decreases index,
    {
        if index > 0 {
            Self::lemma_offset_table((index - 1) as usize);
            Self::lemma_offset_table_step((index - 1) as usize);
        }
    }

    /// The offset of a declaration is the number of scalar columns that the
    /// declarations before it span.
    pub proof fn lemma_offset(self)
        ensures
            self.offset_spec() == first_column(self),
    {
        reveal(ProgramColumn::offset_spec);
        Self::lemma_offset_table(self.ordinal());
    }

    /// Number of scalar columns that the declaration spans.
    pub fn size(self) -> (size: usize)
        ensures
            size == self.size_spec(),
            size > 0,
    {
        match self {
            ProgramColumn::PrgMemoryPc => 4,
            ProgramColumn::PrgMemoryWord => 4,
            ProgramColumn::PrgMemoryFlag => 1,
            ProgramColumn::PrgInitialPc => 4,
            ProgramColumn::PublicInputValue => 1,
            ProgramColumn::PublicInputFlag => 1,
            ProgramColumn::PublicOutputValue => 1,
            ProgramColumn::PublicOutputFlag => 1,
            ProgramColumn::PublicInputOutputAddr => 4,
        }
    }

    /// Index of the first scalar column of the declaration.
    pub fn offset(self) -> (offset: usize)
        ensures
            offset == self.offset_spec(),
            offset + self.size_spec() <= Self::COLUMNS_NUM,
    {
        proof {
            reveal(ProgramColumn::offset_spec);
        }
        match self {
            ProgramColumn::PrgMemoryPc => 0,
            ProgramColumn::PrgMemoryWord => 4,
            ProgramColumn::PrgMemoryFlag => 8,
            ProgramColumn::PrgInitialPc => 9,
            ProgramColumn::PublicInputValue => 13,
            ProgramColumn::PublicInputFlag => 14,
            ProgramColumn::PublicOutputValue => 15,
            ProgramColumn::PublicOutputFlag => 16,
            ProgramColumn::PublicInputOutputAddr => 17,
        }
    }
}

impl ColumnsEnum for ProgramColumn {
    open spec fn variants_num() -> nat {
        9
    }

    open spec fn columns_num() -> nat {
        21
    }

    open spec fn position(self) -> nat {
        self.ordinal() as nat
    }

    open spec fn at_position(index: nat) -> Self {
        Self::declared(index as usize)
    }

    open spec fn width(self) -> nat {
        self.size_spec()
    }

    proof fn lemma_declarations(self, index: nat) {
    }
}

impl ColumnsLayout for ProgramColumn {
    proof fn lemma_columns_num() {
        Self::lemma_offset_table(9);
    }
}

/// Fields that are the same for every execution: selectors, counters and lookup tables.
#[allow(non_camel_case_types)]
#[derive(Debug, Copy, Clone, Hash, PartialEq, Eq, Structural)]
pub enum PreprocessedColumn {
    IsFirst,
    /// One on the first 32 rows, then 0.
    IsFirst32,
    /// Zero on the first row, then incremented by one per row
    RowIdx,
    /// One on the first row, then incremented by one per row.
    Clk,
    /// Timestamp for the first register access
    Reg1TsCur,
    /// Timestamp for the second register access
    Reg2TsCur,
    /// Timestamp for the third register access
    Reg3TsCur,
    /// Contains numbers from 0 to 127, and 0 afterwards.
    Range128,
    /// Contains numbers from 0 to 15, and 0 afterwards
    Range16,
    /// Contains numbers from 0 to 7, and 0 afterwards
    Range8,
    /// Contains numbers from 0 to 255, and 0 afterwards.
    Range256,
    /// Contains numbers from 0 to 31, and 0 after wards
    Range32,
    /// Contains four-bit output of bit-wise AND
    BitwiseAndA,
    /// Contains four-bit output of bit-wise OR
    BitwiseOrA,
    /// Contains four-bit output of bit-wise XOR
    BitwiseXorA,
    /// Contains four-bit first input of bit-wise lookup table
    BitwiseB,
    /// Contains four-bit second input of bit-wise lookup table
    BitwiseC,
}

impl PreprocessedColumn {
    /// Total number of scalar columns of the namespace.
    pub const COLUMNS_NUM: usize = 29;

    /// Number of declarations of the namespace.
    pub const VARIANTS_NUM: usize = 17;

    /// Number of scalar columns that the declaration spans.
    pub open spec fn size_spec(self) -> nat {
        match self {
            PreprocessedColumn::IsFirst => 1,
            PreprocessedColumn::IsFirst32 => 1,
            PreprocessedColumn::RowIdx => 1,
            PreprocessedColumn::Clk => 4,
            PreprocessedColumn::Reg1TsCur => 4,
            PreprocessedColumn::Reg2TsCur => 4,
            PreprocessedColumn::Reg3TsCur => 4,
            PreprocessedColumn::Range128 => 1,
            PreprocessedColumn::Range16 => 1,
            PreprocessedColumn::Range8 => 1,
            PreprocessedColumn::Range256 => 1,
            PreprocessedColumn::Range32 => 1,
            PreprocessedColumn::BitwiseAndA => 1,
            PreprocessedColumn::BitwiseOrA => 1,
            PreprocessedColumn::BitwiseXorA => 1,
            PreprocessedColumn::BitwiseB => 1,
            PreprocessedColumn::BitwiseC => 1,
        }
    }

    /// Position of the declaration in declaration order.
    pub open spec fn ordinal(self) -> usize {
        match self {
            PreprocessedColumn::IsFirst => 0,
            PreprocessedColumn::IsFirst32 => 1,
            PreprocessedColumn::RowIdx => 2,
            PreprocessedColumn::Clk => 3,
            PreprocessedColumn::Reg1TsCur => 4,
            PreprocessedColumn::Reg2TsCur => 5,
            PreprocessedColumn::Reg3TsCur => 6,
            PreprocessedColumn::Range128 => 7,
            PreprocessedColumn::Range16 => 8,
            PreprocessedColumn::Range8 => 9,
            PreprocessedColumn::Range256 => 10,
            PreprocessedColumn::Range32 => 11,
            PreprocessedColumn::BitwiseAndA => 12,
            PreprocessedColumn::BitwiseOrA => 13,
            PreprocessedColumn::BitwiseXorA => 14,
            PreprocessedColumn::BitwiseB => 15,
            PreprocessedColumn::BitwiseC => 16,
        }
    }

    /// The declaration at position `index`.
    pub open spec fn declared(index: usize) -> Self {
        match index {
            0 => PreprocessedColumn::IsFirst,
            1 => PreprocessedColumn::IsFirst32,
            2 => PreprocessedColumn::RowIdx,
            3 => PreprocessedColumn::Clk,
            4 => PreprocessedColumn::Reg1TsCur,
            5 => PreprocessedColumn::Reg2TsCur,
            6 => PreprocessedColumn::Reg3TsCur,
            7 => PreprocessedColumn::Range128,
            8 => PreprocessedColumn::Range16,
            9 => PreprocessedColumn::Range8,
            10 => PreprocessedColumn::Range256,
            11 => PreprocessedColumn::Range32,
            12 => PreprocessedColumn::BitwiseAndA,
            13 => PreprocessedColumn::BitwiseOrA,
            14 => PreprocessedColumn::BitwiseXorA,
            15 => PreprocessedColumn::BitwiseB,
            _ => PreprocessedColumn::BitwiseC,
        }
    }

    /// Index of the first scalar column of the declaration.
    #[verifier::opaque]
    pub open spec fn offset_spec(self) -> nat {
        match self {
            PreprocessedColumn::IsFirst => 0,
            PreprocessedColumn::IsFirst32 => 1,
            PreprocessedColumn::RowIdx => 2,
            PreprocessedColumn::Clk => 3,
            PreprocessedColumn::Reg1TsCur => 7,
            PreprocessedColumn::Reg2TsCur => 11,
            PreprocessedColumn::Reg3TsCur => 15,
            PreprocessedColumn::Range128 => 19,
            PreprocessedColumn::Range16 => 20,
            PreprocessedColumn::Range8 => 21,
            PreprocessedColumn::Range256 => 22,
            PreprocessedColumn::Range32 => 23,
            PreprocessedColumn::BitwiseAndA => 24,
            PreprocessedColumn::BitwiseOrA => 25,
            PreprocessedColumn::BitwiseXorA => 26,
            PreprocessedColumn::BitwiseB => 27,
            PreprocessedColumn::BitwiseC => 28,
        }
    }

    /// The offsets by position in declaration order.
    spec fn offset_table(index: usize) -> nat {
        match index {
            0 => 0,
            1 => 1,
            2 => 2,
            3 => 3,
            4 => 7,
            5 => 11,
            6 => 15,
            7 => 19,
            8 => 20,
            9 => 21,
            10 => 22,
            11 => 23,
            12 => 24,
            13 => 25,
            14 => 26,
            15 => 27,
            16 => 28,
            _ => 29,
        }
    }

    proof fn lemma_offset_table_step(index: usize)
        requires
            index < 17,
        ensures
            Self::offset_table((index + 1) as usize) == Self::offset_table(index) + Self::declared(
                index,
            ).size_spec(),
    {
    }

    proof fn lemma_offset_table(index: usize)
        requires
            index <= 17,
        ensures
            columns_before::<Self>(index as nat) == Self::offset_table(index),
        decreases index,
    {
        if index > 0 {
            Self::lemma_offset_table((index - 1) as usize);
            Self::lemma_offset_table_step((index - 1) as usize);
        }
    }

    /// The offset of a declaration is the number of scalar columns that the
    /// declarations before it span.
    pub proof fn lemma_offset(self)
        ensures
            self.offset_spec() == first_column(self),
    {
        reveal(PreprocessedColumn::offset_spec);
        Self::lemma_offset_table(self.ordinal());
    }

    /// Number of scalar columns that the declaration spans.
    pub fn size(self) -> (size: usize)
        ensures
            size == self.size_spec(),
            size > 0,
    {
        match self {
            PreprocessedColumn::IsFirst => 1,
            PreprocessedColumn::IsFirst32 => 1,
            PreprocessedColumn::RowIdx => 1,
            PreprocessedColumn::Clk => 4,
            PreprocessedColumn::Reg1TsCur => 4,
            PreprocessedColumn::Reg2TsCur => 4,
            PreprocessedColumn::Reg3TsCur => 4,
            PreprocessedColumn::Range128 => 1,
            PreprocessedColumn::Range16 => 1,
            PreprocessedColumn::Range8 => 1,
            PreprocessedColumn::Range256 => 1,
            PreprocessedColumn::Range32 => 1,
            PreprocessedColumn::BitwiseAndA => 1,
            PreprocessedColumn::BitwiseOrA => 1,
            PreprocessedColumn::BitwiseXorA => 1,
            PreprocessedColumn::BitwiseB => 1,
            PreprocessedColumn::BitwiseC => 1,
        }
    }

    /// Index of the first scalar column of the declaration.
    pub fn offset(self) -> (offset: usize)
        ensures
            offset == self.offset_spec(),
            offset + self.size_spec() <= Self::COLUMNS_NUM,
    {
        proof {
            reveal(PreprocessedColumn::offset_spec);
        }
        match self {
            PreprocessedColumn::IsFirst => 0,
            PreprocessedColumn::IsFirst32 => 1,
            PreprocessedColumn::RowIdx => 2,
            PreprocessedColumn::Clk => 3,
            PreprocessedColumn::Reg1TsCur => 7,
            PreprocessedColumn::Reg2TsCur => 11,
            PreprocessedColumn::Reg3TsCur => 15,
            PreprocessedColumn::Range128 => 19,
            PreprocessedColumn::Range16 => 20,
            PreprocessedColumn::Range8 => 21,
            PreprocessedColumn::Range256 => 22,
            PreprocessedColumn::Range32 => 23,
            PreprocessedColumn::BitwiseAndA => 24,
            PreprocessedColumn::BitwiseOrA => 25,
            PreprocessedColumn::BitwiseXorA => 26,
            PreprocessedColumn::BitwiseB => 27,
            PreprocessedColumn::BitwiseC => 28,
        }
    }
}

impl ColumnsEnum for PreprocessedColumn {
    open spec fn variants_num() -> nat {
        17
    }

    open spec fn columns_num() -> nat {
        29
    }

    open spec fn position(self) -> nat {
        self.ordinal() as nat
    }

    open spec fn at_position(index: nat) -> Self {
        Self::declared(index as usize)
    }

    open spec fn width(self) -> nat {
        self.size_spec()
    }

    proof fn lemma_declarations(self, index: nat) {
    }
}

impl ColumnsLayout for PreprocessedColumn {
    proof fn lemma_columns_num() {
        Self::lemma_offset_table(17);
    }
}

proof fn lemma_columns_before_monotonic<E: ColumnsEnum>(i: nat, j: nat)
    requires
        i <= j,
    ensures
        columns_before::<E>(i) <= columns_before::<E>(j),
    decreases j,
{
    if i < j {
        lemma_columns_before_monotonic::<E>(i, (j - 1) as nat);
    }
}

/// Among the first `limit` declarations, one covers each scalar column below
/// the number of columns that they span together.
proof fn lemma_covered_below<E: ColumnsEnum>(limit: nat, index: nat) -> (position: nat)
    requires
        limit <= E::variants_num(),
        index < columns_before::<E>(limit),
    ensures
        position < limit,
        covers(E::at_position(position), index),
    decreases limit,
{
    let last = (limit - 1) as nat;
    E::at_position(last).lemma_declarations(last);
    if index >= columns_before::<E>(last) {
        last
    } else {
        lemma_covered_below::<E>(last, index)
    }
}

/// The sizes of all declarations of a namespace add up to its number of
/// scalar columns.
pub proof fn lemma_sizes_sum_to_total<E: ColumnsLayout>()
    ensures
        columns_before::<E>(E::variants_num()) == E::columns_num(),
{
    E::lemma_columns_num();
}

/// The scalar columns of a declaration lie inside the namespace.
pub proof fn lemma_range_within_total<E: ColumnsLayout>(column: E)
    ensures
        first_column(column) + column.width() <= E::columns_num(),
{
    column.lemma_declarations(0);
    E::lemma_columns_num();
    lemma_columns_before_monotonic::<E>(column.position() + 1, E::variants_num());
}

/// No gaps: every scalar column of a namespace belongs to a declaration.
pub proof fn lemma_every_column_is_covered<E: ColumnsLayout>(index: nat) -> (column: E)
    requires
        index < E::columns_num(),
    ensures
        covers(column, index),
{
    E::lemma_columns_num();
    let position = lemma_covered_below::<E>(E::variants_num(), index);
    E::at_position(position)
}

/// No overlaps: a scalar column belongs to one declaration only.
pub proof fn lemma_ranges_are_disjoint<E: ColumnsEnum>(a: E, b: E, index: nat)
    requires
        covers(a, index),
        covers(b, index),
    ensures
        a == b,
{
    a.lemma_declarations(0);
    b.lemma_declarations(0);
    if a.position() < b.position() {
        lemma_columns_before_monotonic::<E>(a.position() + 1, b.position());
    } else if b.position() < a.position() {
        lemma_columns_before_monotonic::<E>(b.position() + 1, a.position());
    }
}

/// The scalar columns of a declaration lie before those of every later declaration.
pub proof fn lemma_declaration_order<E: ColumnsEnum>(a: E, b: E)
    requires
        a.position() < b.position(),
    ensures
        first_column(a) + a.width() <= first_column(b),
{
    a.lemma_declarations(0);
    lemma_columns_before_monotonic::<E>(a.position() + 1, b.position());
}

} // verus!
