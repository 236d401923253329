//! Names for the columns of each sub-table, and their places in the master
//! tables. Addressing columns by name rather than by hard-to-remember index
//! keeps the filling and constraint code legible. Each column's declaration
//! position is its index within its own sub-table, and its index within the
//! master table is the sub-table's start plus that local index, so the
//! columns of consecutive sub-tables are consecutive in the master table.

use vstd::prelude::*;

verus! {

use crate::master_table::EXT_HASH_TABLE_START;
use crate::master_table::EXT_JUMP_STACK_TABLE_START;
use crate::master_table::EXT_OP_STACK_TABLE_START;
use crate::master_table::EXT_PROCESSOR_TABLE_START;
use crate::master_table::EXT_PROGRAM_TABLE_START;
use crate::master_table::EXT_RAM_TABLE_START;
use crate::master_table::EXT_U32_TABLE_START;
use crate::master_table::HASH_TABLE_BASE_WIDTH;
use crate::master_table::HASH_TABLE_EXT_WIDTH;
use crate::master_table::HASH_TABLE_START;
use crate::master_table::JUMP_STACK_TABLE_BASE_WIDTH;
use crate::master_table::JUMP_STACK_TABLE_EXT_WIDTH;
use crate::master_table::JUMP_STACK_TABLE_START;
use crate::master_table::OP_STACK_TABLE_BASE_WIDTH;
use crate::master_table::OP_STACK_TABLE_EXT_WIDTH;
use crate::master_table::OP_STACK_TABLE_START;
use crate::master_table::PROCESSOR_TABLE_BASE_WIDTH;
use crate::master_table::PROCESSOR_TABLE_EXT_WIDTH;
use crate::master_table::PROCESSOR_TABLE_START;
use crate::master_table::PROGRAM_TABLE_BASE_WIDTH;
use crate::master_table::PROGRAM_TABLE_EXT_WIDTH;
use crate::master_table::PROGRAM_TABLE_START;
use crate::master_table::RAM_TABLE_BASE_WIDTH;
use crate::master_table::RAM_TABLE_EXT_WIDTH;
use crate::master_table::RAM_TABLE_START;
use crate::master_table::U32_TABLE_BASE_WIDTH;
use crate::master_table::U32_TABLE_EXT_WIDTH;
use crate::master_table::U32_TABLE_START;

/// A column of one of the base sub-tables: its index within that sub-table,
/// and its index within the master base table.
pub trait MasterBaseTableColumn {
    /// The index of the column in its own sub-table.
    fn base_table_index(&self) -> usize;

    /// The index of the column in the master base table.
    fn master_base_table_index(&self) -> usize;
}

/// A column of one of the extension sub-tables: its index within that
/// sub-table, and its index within the master extension table.
pub trait MasterExtTableColumn {
    /// The index of the column in its own sub-table.
    fn ext_table_index(&self) -> usize;

    /// The index of the column in the master extension table.
    fn master_ext_table_index(&self) -> usize;
}

/// The columns of the Program base table, in order.
#[derive(Debug, Clone, Copy, PartialEq, Eq, Hash)]
pub enum ProgramBaseTableColumn {
    Address,
    Instruction,
    LookupMultiplicity,
    IsPadding,
}

impl ProgramBaseTableColumn {
    /// The declaration position of the column: its index within the
    /// Program base table.
    pub open spec fn column_index(self) -> int {
        match self {
            ProgramBaseTableColumn::Address => 0,
            ProgramBaseTableColumn::Instruction => 1,
            ProgramBaseTableColumn::LookupMultiplicity => 2,
            ProgramBaseTableColumn::IsPadding => 3,
        }
    }
}

impl MasterBaseTableColumn for ProgramBaseTableColumn {
    fn base_table_index(&self) -> (r: usize)
        ensures
            r == self.column_index(),
            r < PROGRAM_TABLE_BASE_WIDTH,
    {
        match self {
            ProgramBaseTableColumn::Address => 0,
            ProgramBaseTableColumn::Instruction => 1,
            ProgramBaseTableColumn::LookupMultiplicity => 2,
            ProgramBaseTableColumn::IsPadding => 3,
        }
    }

    fn master_base_table_index(&self) -> (r: usize)
        ensures
            r == PROGRAM_TABLE_START + self.column_index(),
    {
        match self {
            ProgramBaseTableColumn::Address => PROGRAM_TABLE_START + 0,
            ProgramBaseTableColumn::Instruction => PROGRAM_TABLE_START + 1,
            ProgramBaseTableColumn::LookupMultiplicity => PROGRAM_TABLE_START + 2,
            ProgramBaseTableColumn::IsPadding => PROGRAM_TABLE_START + 3,
        }
    }
}

/// The columns of the Program extension table, in order.
#[derive(Debug, Clone, Copy, PartialEq, Eq, Hash)]
pub enum ProgramExtTableColumn {
    InstructionLookupServerLogDerivative,
}

impl ProgramExtTableColumn {
    /// The declaration position of the column: its index within the
    /// Program extension table.
    pub open spec fn column_index(self) -> int {
        match self {
            ProgramExtTableColumn::InstructionLookupServerLogDerivative => 0,
        }
    }
}

impl MasterExtTableColumn for ProgramExtTableColumn {
    fn ext_table_index(&self) -> (r: usize)
        ensures
            r == self.column_index(),
            r < PROGRAM_TABLE_EXT_WIDTH,
    {
        match self {
            ProgramExtTableColumn::InstructionLookupServerLogDerivative => 0,
        }
    }

    fn master_ext_table_index(&self) -> (r: usize)
        ensures
            r == EXT_PROGRAM_TABLE_START + self.column_index(),
    {
        match self {
            ProgramExtTableColumn::InstructionLookupServerLogDerivative => EXT_PROGRAM_TABLE_START + 0,
        }
    }
}

/// The columns of the Processor base table, in order.
#[derive(Debug, Clone, Copy, PartialEq, Eq, Hash)]
pub enum ProcessorBaseTableColumn {
    CLK,
    IsPadding,
    PreviousInstruction,
    IP,
    CI,
    NIA,
    IB0,
    IB1,
    IB2,
    IB3,
    IB4,
    IB5,
    IB6,
    IB7,
    JSP,
    JSO,
    JSD,
    ST0,
    ST1,
    ST2,
    ST3,
    ST4,
    ST5,
    ST6,
    ST7,
    ST8,
    ST9,
    ST10,
    ST11,
    ST12,
    ST13,
    ST14,
    ST15,
    OSP,
    OSV,
    HV0,
    HV1,
    HV2,
    HV3,
    RAMP,
    RAMV,
    ClockJumpDifferenceLookupMultiplicity,
}

impl ProcessorBaseTableColumn {
    /// The declaration position of the column: its index within the
    /// Processor base table.
    pub open spec fn column_index(self) -> int {
        match self {
            ProcessorBaseTableColumn::CLK => 0,
            ProcessorBaseTableColumn::IsPadding => 1,
            ProcessorBaseTableColumn::PreviousInstruction => 2,
            ProcessorBaseTableColumn::IP => 3,
            ProcessorBaseTableColumn::CI => 4,
            ProcessorBaseTableColumn::NIA => 5,
            ProcessorBaseTableColumn::IB0 => 6,
            ProcessorBaseTableColumn::IB1 => 7,
            ProcessorBaseTableColumn::IB2 => 8,
            ProcessorBaseTableColumn::IB3 => 9,
            ProcessorBaseTableColumn::IB4 => 10,
            ProcessorBaseTableColumn::IB5 => 11,
            ProcessorBaseTableColumn::IB6 => 12,
            ProcessorBaseTableColumn::IB7 => 13,
            ProcessorBaseTableColumn::JSP => 14,
            ProcessorBaseTableColumn::JSO => 15,
            ProcessorBaseTableColumn::JSD => 16,
            ProcessorBaseTableColumn::ST0 => 17,
            ProcessorBaseTableColumn::ST1 => 18,
            ProcessorBaseTableColumn::ST2 => 19,
            ProcessorBaseTableColumn::ST3 => 20,
            ProcessorBaseTableColumn::ST4 => 21,
            ProcessorBaseTableColumn::ST5 => 22,
            ProcessorBaseTableColumn::ST6 => 23,
            ProcessorBaseTableColumn::ST7 => 24,
            ProcessorBaseTableColumn::ST8 => 25,
            ProcessorBaseTableColumn::ST9 => 26,
            ProcessorBaseTableColumn::ST10 => 27,
            ProcessorBaseTableColumn::ST11 => 28,
            ProcessorBaseTableColumn::ST12 => 29,
            ProcessorBaseTableColumn::ST13 => 30,
            ProcessorBaseTableColumn::ST14 => 31,
            ProcessorBaseTableColumn::ST15 => 32,
            ProcessorBaseTableColumn::OSP => 33,
            ProcessorBaseTableColumn::OSV => 34,
            ProcessorBaseTableColumn::HV0 => 35,
            ProcessorBaseTableColumn::HV1 => 36,
            ProcessorBaseTableColumn::HV2 => 37,
            ProcessorBaseTableColumn::HV3 => 38,
            ProcessorBaseTableColumn::RAMP => 39,
            ProcessorBaseTableColumn::RAMV => 40,
            ProcessorBaseTableColumn::ClockJumpDifferenceLookupMultiplicity => 41,
        }
    }
}

impl MasterBaseTableColumn for ProcessorBaseTableColumn {
    fn base_table_index(&self) -> (r: usize)
        ensures
            r == self.column_index(),
            r < PROCESSOR_TABLE_BASE_WIDTH,
    {
        match self {
            ProcessorBaseTableColumn::CLK => 0,
            ProcessorBaseTableColumn::IsPadding => 1,
            ProcessorBaseTableColumn::PreviousInstruction => 2,
            ProcessorBaseTableColumn::IP => 3,
            ProcessorBaseTableColumn::CI => 4,
            ProcessorBaseTableColumn::NIA => 5,
            ProcessorBaseTableColumn::IB0 => 6,
            ProcessorBaseTableColumn::IB1 => 7,
            ProcessorBaseTableColumn::IB2 => 8,
            ProcessorBaseTableColumn::IB3 => 9,
            ProcessorBaseTableColumn::IB4 => 10,
            ProcessorBaseTableColumn::IB5 => 11,
            ProcessorBaseTableColumn::IB6 => 12,
            ProcessorBaseTableColumn::IB7 => 13,
            ProcessorBaseTableColumn::JSP => 14,
            ProcessorBaseTableColumn::JSO => 15,
            ProcessorBaseTableColumn::JSD => 16,
            ProcessorBaseTableColumn::ST0 => 17,
            ProcessorBaseTableColumn::ST1 => 18,
            ProcessorBaseTableColumn::ST2 => 19,
            ProcessorBaseTableColumn::ST3 => 20,
            ProcessorBaseTableColumn::ST4 => 21,
            ProcessorBaseTableColumn::ST5 => 22,
            ProcessorBaseTableColumn::ST6 => 23,
            ProcessorBaseTableColumn::ST7 => 24,
            ProcessorBaseTableColumn::ST8 => 25,
            ProcessorBaseTableColumn::ST9 => 26,
            ProcessorBaseTableColumn::ST10 => 27,
            ProcessorBaseTableColumn::ST11 => 28,
            ProcessorBaseTableColumn::ST12 => 29,
            ProcessorBaseTableColumn::ST13 => 30,
            ProcessorBaseTableColumn::ST14 => 31,
            ProcessorBaseTableColumn::ST15 => 32,
            ProcessorBaseTableColumn::OSP => 33,
            ProcessorBaseTableColumn::OSV => 34,
            ProcessorBaseTableColumn::HV0 => 35,
            ProcessorBaseTableColumn::HV1 => 36,
            ProcessorBaseTableColumn::HV2 => 37,
            ProcessorBaseTableColumn::HV3 => 38,
            ProcessorBaseTableColumn::RAMP => 39,
            ProcessorBaseTableColumn::RAMV => 40,
            ProcessorBaseTableColumn::ClockJumpDifferenceLookupMultiplicity => 41,
        }
    }

    fn master_base_table_index(&self) -> (r: usize)
        ensures
            r == PROCESSOR_TABLE_START + self.column_index(),
    {
        match self {
            ProcessorBaseTableColumn::CLK => PROCESSOR_TABLE_START + 0,
            ProcessorBaseTableColumn::IsPadding => PROCESSOR_TABLE_START + 1,
            ProcessorBaseTableColumn::PreviousInstruction => PROCESSOR_TABLE_START + 2,
            ProcessorBaseTableColumn::IP => PROCESSOR_TABLE_START + 3,
            ProcessorBaseTableColumn::CI => PROCESSOR_TABLE_START + 4,
            ProcessorBaseTableColumn::NIA => PROCESSOR_TABLE_START + 5,
            ProcessorBaseTableColumn::IB0 => PROCESSOR_TABLE_START + 6,
            ProcessorBaseTableColumn::IB1 => PROCESSOR_TABLE_START + 7,
            ProcessorBaseTableColumn::IB2 => PROCESSOR_TABLE_START + 8,
            ProcessorBaseTableColumn::IB3 => PROCESSOR_TABLE_START + 9,
            ProcessorBaseTableColumn::IB4 => PROCESSOR_TABLE_START + 10,
            ProcessorBaseTableColumn::IB5 => PROCESSOR_TABLE_START + 11,
            ProcessorBaseTableColumn::IB6 => PROCESSOR_TABLE_START + 12,
            ProcessorBaseTableColumn::IB7 => PROCESSOR_TABLE_START + 13,
            ProcessorBaseTableColumn::JSP => PROCESSOR_TABLE_START + 14,
            ProcessorBaseTableColumn::JSO => PROCESSOR_TABLE_START + 15,
            ProcessorBaseTableColumn::JSD => PROCESSOR_TABLE_START + 16,
            ProcessorBaseTableColumn::ST0 => PROCESSOR_TABLE_START + 17,
            ProcessorBaseTableColumn::ST1 => PROCESSOR_TABLE_START + 18,
            ProcessorBaseTableColumn::ST2 => PROCESSOR_TABLE_START + 19,
            ProcessorBaseTableColumn::ST3 => PROCESSOR_TABLE_START + 20,
            ProcessorBaseTableColumn::ST4 => PROCESSOR_TABLE_START + 21,
            ProcessorBaseTableColumn::ST5 => PROCESSOR_TABLE_START + 22,
            ProcessorBaseTableColumn::ST6 => PROCESSOR_TABLE_START + 23,
            ProcessorBaseTableColumn::ST7 => PROCESSOR_TABLE_START + 24,
            ProcessorBaseTableColumn::ST8 => PROCESSOR_TABLE_START + 25,
            ProcessorBaseTableColumn::ST9 => PROCESSOR_TABLE_START + 26,
            ProcessorBaseTableColumn::ST10 => PROCESSOR_TABLE_START + 27,
            ProcessorBaseTableColumn::ST11 => PROCESSOR_TABLE_START + 28,
            ProcessorBaseTableColumn::ST12 => PROCESSOR_TABLE_START + 29,
            ProcessorBaseTableColumn::ST13 => PROCESSOR_TABLE_START + 30,
            ProcessorBaseTableColumn::ST14 => PROCESSOR_TABLE_START + 31,
            ProcessorBaseTableColumn::ST15 => PROCESSOR_TABLE_START + 32,
            ProcessorBaseTableColumn::OSP => PROCESSOR_TABLE_START + 33,
            ProcessorBaseTableColumn::OSV => PROCESSOR_TABLE_START + 34,
            ProcessorBaseTableColumn::HV0 => PROCESSOR_TABLE_START + 35,
            ProcessorBaseTableColumn::HV1 => PROCESSOR_TABLE_START + 36,
            ProcessorBaseTableColumn::HV2 => PROCESSOR_TABLE_START + 37,
            ProcessorBaseTableColumn::HV3 => PROCESSOR_TABLE_START + 38,
            ProcessorBaseTableColumn::RAMP => PROCESSOR_TABLE_START + 39,
            ProcessorBaseTableColumn::RAMV => PROCESSOR_TABLE_START + 40,
            ProcessorBaseTableColumn::ClockJumpDifferenceLookupMultiplicity => PROCESSOR_TABLE_START + 41,
        }
    }
}

/// The columns of the Processor extension table, in order.
#[derive(Debug, Clone, Copy, PartialEq, Eq, Hash)]
pub enum ProcessorExtTableColumn {
    InputTableEvalArg,
    OutputTableEvalArg,
    InstructionLookupClientLogDerivative,
    OpStackTablePermArg,
    RamTablePermArg,
    JumpStackTablePermArg,
    HashInputEvalArg,
    HashDigestEvalArg,
    SpongeEvalArg,
    U32LookupClientLogDerivative,
    ClockJumpDifferenceLookupServerLogDerivative,
}

impl ProcessorExtTableColumn {
    /// The declaration position of the column: its index within the
    /// Processor extension table.
    pub open spec fn column_index(self) -> int {
        match self {
            ProcessorExtTableColumn::InputTableEvalArg => 0,
            ProcessorExtTableColumn::OutputTableEvalArg => 1,
            ProcessorExtTableColumn::InstructionLookupClientLogDerivative => 2,
            ProcessorExtTableColumn::OpStackTablePermArg => 3,
            ProcessorExtTableColumn::RamTablePermArg => 4,
            ProcessorExtTableColumn::JumpStackTablePermArg => 5,
            ProcessorExtTableColumn::HashInputEvalArg => 6,
            ProcessorExtTableColumn::HashDigestEvalArg => 7,
            ProcessorExtTableColumn::SpongeEvalArg => 8,
            ProcessorExtTableColumn::U32LookupClientLogDerivative => 9,
            ProcessorExtTableColumn::ClockJumpDifferenceLookupServerLogDerivative => 10,
        }
    }
}

impl MasterExtTableColumn for ProcessorExtTableColumn {
    fn ext_table_index(&self) -> (r: usize)
        ensures
            r == self.column_index(),
            r < PROCESSOR_TABLE_EXT_WIDTH,
    {
        match self {
            ProcessorExtTableColumn::InputTableEvalArg => 0,
            ProcessorExtTableColumn::OutputTableEvalArg => 1,
            ProcessorExtTableColumn::InstructionLookupClientLogDerivative => 2,
            ProcessorExtTableColumn::OpStackTablePermArg => 3,
            ProcessorExtTableColumn::RamTablePermArg => 4,
            ProcessorExtTableColumn::JumpStackTablePermArg => 5,
            ProcessorExtTableColumn::HashInputEvalArg => 6,
            ProcessorExtTableColumn::HashDigestEvalArg => 7,
            ProcessorExtTableColumn::SpongeEvalArg => 8,
            ProcessorExtTableColumn::U32LookupClientLogDerivative => 9,
            ProcessorExtTableColumn::ClockJumpDifferenceLookupServerLogDerivative => 10,
        }
    }

    fn master_ext_table_index(&self) -> (r: usize)
        ensures
            r == EXT_PROCESSOR_TABLE_START + self.column_index(),
    {
        match self {
            ProcessorExtTableColumn::InputTableEvalArg => EXT_PROCESSOR_TABLE_START + 0,
            ProcessorExtTableColumn::OutputTableEvalArg => EXT_PROCESSOR_TABLE_START + 1,
            ProcessorExtTableColumn::InstructionLookupClientLogDerivative => EXT_PROCESSOR_TABLE_START + 2,
            ProcessorExtTableColumn::OpStackTablePermArg => EXT_PROCESSOR_TABLE_START + 3,
            ProcessorExtTableColumn::RamTablePermArg => EXT_PROCESSOR_TABLE_START + 4,
            ProcessorExtTableColumn::JumpStackTablePermArg => EXT_PROCESSOR_TABLE_START + 5,
            ProcessorExtTableColumn::HashInputEvalArg => EXT_PROCESSOR_TABLE_START + 6,
            ProcessorExtTableColumn::HashDigestEvalArg => EXT_PROCESSOR_TABLE_START + 7,
            ProcessorExtTableColumn::SpongeEvalArg => EXT_PROCESSOR_TABLE_START + 8,
            ProcessorExtTableColumn::U32LookupClientLogDerivative => EXT_PROCESSOR_TABLE_START + 9,
            ProcessorExtTableColumn::ClockJumpDifferenceLookupServerLogDerivative => EXT_PROCESSOR_TABLE_START + 10,
        }
    }
}

/// The columns of the OpStack base table, in order.
#[derive(Debug, Clone, Copy, PartialEq, Eq, Hash)]
pub enum OpStackBaseTableColumn {
    CLK,
    IB1ShrinkStack,
    OSP,
    OSV,
}

impl OpStackBaseTableColumn {
    /// The declaration position of the column: its index within the
    /// OpStack base table.
    pub open spec fn column_index(self) -> int {
        match self {
            OpStackBaseTableColumn::CLK => 0,
            OpStackBaseTableColumn::IB1ShrinkStack => 1,
            OpStackBaseTableColumn::OSP => 2,
            OpStackBaseTableColumn::OSV => 3,
        }
    }
}

impl MasterBaseTableColumn for OpStackBaseTableColumn {
    fn base_table_index(&self) -> (r: usize)
        ensures
            r == self.column_index(),
            r < OP_STACK_TABLE_BASE_WIDTH,
    {
        match self {
            OpStackBaseTableColumn::CLK => 0,
            OpStackBaseTableColumn::IB1ShrinkStack => 1,
            OpStackBaseTableColumn::OSP => 2,
            OpStackBaseTableColumn::OSV => 3,
        }
    }

    fn master_base_table_index(&self) -> (r: usize)
        ensures
            r == OP_STACK_TABLE_START + self.column_index(),
    {
        match self {
            OpStackBaseTableColumn::CLK => OP_STACK_TABLE_START + 0,
            OpStackBaseTableColumn::IB1ShrinkStack => OP_STACK_TABLE_START + 1,
            OpStackBaseTableColumn::OSP => OP_STACK_TABLE_START + 2,
            OpStackBaseTableColumn::OSV => OP_STACK_TABLE_START + 3,
        }
    }
}

/// The columns of the OpStack extension table, in order.
#[derive(Debug, Clone, Copy, PartialEq, Eq, Hash)]
pub enum OpStackExtTableColumn {
    RunningProductPermArg,
    ClockJumpDifferenceLookupClientLogDerivative,
}

impl OpStackExtTableColumn {
    /// The declaration position of the column: its index within the
    /// OpStack extension table.
    pub open spec fn column_index(self) -> int {
        match self {
            OpStackExtTableColumn::RunningProductPermArg => 0,
            OpStackExtTableColumn::ClockJumpDifferenceLookupClientLogDerivative => 1,
        }
    }
}

impl MasterExtTableColumn for OpStackExtTableColumn {
    fn ext_table_index(&self) -> (r: usize)
        ensures
            r == self.column_index(),
            r < OP_STACK_TABLE_EXT_WIDTH,
    {
        match self {
            OpStackExtTableColumn::RunningProductPermArg => 0,
            OpStackExtTableColumn::ClockJumpDifferenceLookupClientLogDerivative => 1,
        }
    }

    fn master_ext_table_index(&self) -> (r: usize)
        ensures
            r == EXT_OP_STACK_TABLE_START + self.column_index(),
    {
        match self {
            OpStackExtTableColumn::RunningProductPermArg => EXT_OP_STACK_TABLE_START + 0,
            OpStackExtTableColumn::ClockJumpDifferenceLookupClientLogDerivative => EXT_OP_STACK_TABLE_START + 1,
        }
    }
}

/// The columns of the Ram base table, in order.
#[derive(Debug, Clone, Copy, PartialEq, Eq, Hash)]
pub enum RamBaseTableColumn {
    CLK,
    PreviousInstruction,
    RAMP,
    RAMV,
    InverseOfRampDifference,
    BezoutCoefficientPolynomialCoefficient0,
    BezoutCoefficientPolynomialCoefficient1,
}

impl RamBaseTableColumn {
    /// The declaration position of the column: its index within the
    /// Ram base table.
    pub open spec fn column_index(self) -> int {
        match self {
            RamBaseTableColumn::CLK => 0,
            RamBaseTableColumn::PreviousInstruction => 1,
            RamBaseTableColumn::RAMP => 2,
            RamBaseTableColumn::RAMV => 3,
            RamBaseTableColumn::InverseOfRampDifference => 4,
            RamBaseTableColumn::BezoutCoefficientPolynomialCoefficient0 => 5,
            RamBaseTableColumn::BezoutCoefficientPolynomialCoefficient1 => 6,
        }
    }
}

impl MasterBaseTableColumn for RamBaseTableColumn {
    fn base_table_index(&self) -> (r: usize)
        ensures
            r == self.column_index(),
            r < RAM_TABLE_BASE_WIDTH,
    {
        match self {
            RamBaseTableColumn::CLK => 0,
            RamBaseTableColumn::PreviousInstruction => 1,
            RamBaseTableColumn::RAMP => 2,
            RamBaseTableColumn::RAMV => 3,
            RamBaseTableColumn::InverseOfRampDifference => 4,
            RamBaseTableColumn::BezoutCoefficientPolynomialCoefficient0 => 5,
            RamBaseTableColumn::BezoutCoefficientPolynomialCoefficient1 => 6,
        }
    }

    fn master_base_table_index(&self) -> (r: usize)
        ensures
            r == RAM_TABLE_START + self.column_index(),
    {
        match self {
            RamBaseTableColumn::CLK => RAM_TABLE_START + 0,
            RamBaseTableColumn::PreviousInstruction => RAM_TABLE_START + 1,
            RamBaseTableColumn::RAMP => RAM_TABLE_START + 2,
            RamBaseTableColumn::RAMV => RAM_TABLE_START + 3,
            RamBaseTableColumn::InverseOfRampDifference => RAM_TABLE_START + 4,
            RamBaseTableColumn::BezoutCoefficientPolynomialCoefficient0 => RAM_TABLE_START + 5,
            RamBaseTableColumn::BezoutCoefficientPolynomialCoefficient1 => RAM_TABLE_START + 6,
        }
    }
}

/// The columns of the Ram extension table, in order.
#[derive(Debug, Clone, Copy, PartialEq, Eq, Hash)]
pub enum RamExtTableColumn {
    RunningProductOfRAMP,
    FormalDerivative,
    BezoutCoefficient0,
    BezoutCoefficient1,
    RunningProductPermArg,
    ClockJumpDifferenceLookupClientLogDerivative,
}

impl RamExtTableColumn {
    /// The declaration position of the column: its index within the
    /// Ram extension table.
    pub open spec fn column_index(self) -> int {
        match self {
            RamExtTableColumn::RunningProductOfRAMP => 0,
            RamExtTableColumn::FormalDerivative => 1,
            RamExtTableColumn::BezoutCoefficient0 => 2,
            RamExtTableColumn::BezoutCoefficient1 => 3,
            RamExtTableColumn::RunningProductPermArg => 4,
            RamExtTableColumn::ClockJumpDifferenceLookupClientLogDerivative => 5,
        }
    }
}

impl MasterExtTableColumn for RamExtTableColumn {
    fn ext_table_index(&self) -> (r: usize)
        ensures
            r == self.column_index(),
            r < RAM_TABLE_EXT_WIDTH,
    {
        match self {
            RamExtTableColumn::RunningProductOfRAMP => 0,
            RamExtTableColumn::FormalDerivative => 1,
            RamExtTableColumn::BezoutCoefficient0 => 2,
            RamExtTableColumn::BezoutCoefficient1 => 3,
            RamExtTableColumn::RunningProductPermArg => 4,
            RamExtTableColumn::ClockJumpDifferenceLookupClientLogDerivative => 5,
        }
    }

    fn master_ext_table_index(&self) -> (r: usize)
        ensures
            r == EXT_RAM_TABLE_START + self.column_index(),
    {
        match self {
            RamExtTableColumn::RunningProductOfRAMP => EXT_RAM_TABLE_START + 0,
            RamExtTableColumn::FormalDerivative => EXT_RAM_TABLE_START + 1,
            RamExtTableColumn::BezoutCoefficient0 => EXT_RAM_TABLE_START + 2,
            RamExtTableColumn::BezoutCoefficient1 => EXT_RAM_TABLE_START + 3,
            RamExtTableColumn::RunningProductPermArg => EXT_RAM_TABLE_START + 4,
            RamExtTableColumn::ClockJumpDifferenceLookupClientLogDerivative => EXT_RAM_TABLE_START + 5,
        }
    }
}

/// The columns of the JumpStack base table, in order.
#[derive(Debug, Clone, Copy, PartialEq, Eq, Hash)]
pub enum JumpStackBaseTableColumn {
    CLK,
    CI,
    JSP,
    JSO,
    JSD,
}

impl JumpStackBaseTableColumn {
    /// The declaration position of the column: its index within the
    /// JumpStack base table.
    pub open spec fn column_index(self) -> int {
        match self {
            JumpStackBaseTableColumn::CLK => 0,
            JumpStackBaseTableColumn::CI => 1,
            JumpStackBaseTableColumn::JSP => 2,
            JumpStackBaseTableColumn::JSO => 3,
            JumpStackBaseTableColumn::JSD => 4,
        }
    }
}

impl MasterBaseTableColumn for JumpStackBaseTableColumn {
    fn base_table_index(&self) -> (r: usize)
        ensures
            r == self.column_index(),
            r < JUMP_STACK_TABLE_BASE_WIDTH,
    {
        match self {
            JumpStackBaseTableColumn::CLK => 0,
            JumpStackBaseTableColumn::CI => 1,
            JumpStackBaseTableColumn::JSP => 2,
            JumpStackBaseTableColumn::JSO => 3,
            JumpStackBaseTableColumn::JSD => 4,
        }
    }

    fn master_base_table_index(&self) -> (r: usize)
        ensures
            r == JUMP_STACK_TABLE_START + self.column_index(),
    {
        match self {
            JumpStackBaseTableColumn::CLK => JUMP_STACK_TABLE_START + 0,
            JumpStackBaseTableColumn::CI => JUMP_STACK_TABLE_START + 1,
            JumpStackBaseTableColumn::JSP => JUMP_STACK_TABLE_START + 2,
            JumpStackBaseTableColumn::JSO => JUMP_STACK_TABLE_START + 3,
            JumpStackBaseTableColumn::JSD => JUMP_STACK_TABLE_START + 4,
        }
    }
}

/// The columns of the JumpStack extension table, in order.
#[derive(Debug, Clone, Copy, PartialEq, Eq, Hash)]
pub enum JumpStackExtTableColumn {
    RunningProductPermArg,
    ClockJumpDifferenceLookupClientLogDerivative,
}

impl JumpStackExtTableColumn {
    /// The declaration position of the column: its index within the
    /// JumpStack extension table.
    pub open spec fn column_index(self) -> int {
        match self {
            JumpStackExtTableColumn::RunningProductPermArg => 0,
            JumpStackExtTableColumn::ClockJumpDifferenceLookupClientLogDerivative => 1,
        }
    }
}

impl MasterExtTableColumn for JumpStackExtTableColumn {
    fn ext_table_index(&self) -> (r: usize)
        ensures
            r == self.column_index(),
            r < JUMP_STACK_TABLE_EXT_WIDTH,
    {
        match self {
            JumpStackExtTableColumn::RunningProductPermArg => 0,
            JumpStackExtTableColumn::ClockJumpDifferenceLookupClientLogDerivative => 1,
        }
    }

    fn master_ext_table_index(&self) -> (r: usize)
        ensures
            r == EXT_JUMP_STACK_TABLE_START + self.column_index(),
    {
        match self {
            JumpStackExtTableColumn::RunningProductPermArg => EXT_JUMP_STACK_TABLE_START + 0,
            JumpStackExtTableColumn::ClockJumpDifferenceLookupClientLogDerivative => EXT_JUMP_STACK_TABLE_START + 1,
        }
    }
}

/// The columns of the Hash base table, in order.
#[derive(Debug, Clone, Copy, PartialEq, Eq, Hash)]
pub enum HashBaseTableColumn {
    ROUNDNUMBER,
    CI,
    STATE0,
    STATE1,
    STATE2,
    STATE3,
    STATE4,
    STATE5,
    STATE6,
    STATE7,
    STATE8,
    STATE9,
    STATE10,
    STATE11,
    STATE12,
    STATE13,
    STATE14,
    STATE15,
    CONSTANT0A,
    CONSTANT1A,
    CONSTANT2A,
    CONSTANT3A,
    CONSTANT4A,
    CONSTANT5A,
    CONSTANT6A,
    CONSTANT7A,
    CONSTANT8A,
    CONSTANT9A,
    CONSTANT10A,
    CONSTANT11A,
    CONSTANT12A,
    CONSTANT13A,
    CONSTANT14A,
    CONSTANT15A,
    CONSTANT0B,
    CONSTANT1B,
    CONSTANT2B,
    CONSTANT3B,
    CONSTANT4B,
    CONSTANT5B,
    CONSTANT6B,
    CONSTANT7B,
    CONSTANT8B,
    CONSTANT9B,
    CONSTANT10B,
    CONSTANT11B,
    CONSTANT12B,
    CONSTANT13B,
    CONSTANT14B,
    CONSTANT15B,
}

impl HashBaseTableColumn {
    /// The declaration position of the column: its index within the
    /// Hash base table.
    pub open spec fn column_index(self) -> int {
        match self {
            HashBaseTableColumn::ROUNDNUMBER => 0,
            HashBaseTableColumn::CI => 1,
            HashBaseTableColumn::STATE0 => 2,
            HashBaseTableColumn::STATE1 => 3,
            HashBaseTableColumn::STATE2 => 4,
            HashBaseTableColumn::STATE3 => 5,
            HashBaseTableColumn::STATE4 => 6,
            HashBaseTableColumn::STATE5 => 7,
            HashBaseTableColumn::STATE6 => 8,
            HashBaseTableColumn::STATE7 => 9,
            HashBaseTableColumn::STATE8 => 10,
            HashBaseTableColumn::STATE9 => 11,
            HashBaseTableColumn::STATE10 => 12,
            HashBaseTableColumn::STATE11 => 13,
            HashBaseTableColumn::STATE12 => 14,
            HashBaseTableColumn::STATE13 => 15,
            HashBaseTableColumn::STATE14 => 16,
            HashBaseTableColumn::STATE15 => 17,
            HashBaseTableColumn::CONSTANT0A => 18,
            HashBaseTableColumn::CONSTANT1A => 19,
            HashBaseTableColumn::CONSTANT2A => 20,
            HashBaseTableColumn::CONSTANT3A => 21,
            HashBaseTableColumn::CONSTANT4A => 22,
            HashBaseTableColumn::CONSTANT5A => 23,
            HashBaseTableColumn::CONSTANT6A => 24,
            HashBaseTableColumn::CONSTANT7A => 25,
            HashBaseTableColumn::CONSTANT8A => 26,
            HashBaseTableColumn::CONSTANT9A => 27,
            HashBaseTableColumn::CONSTANT10A => 28,
            HashBaseTableColumn::CONSTANT11A => 29,
            HashBaseTableColumn::CONSTANT12A => 30,
            HashBaseTableColumn::CONSTANT13A => 31,
            HashBaseTableColumn::CONSTANT14A => 32,
            HashBaseTableColumn::CONSTANT15A => 33,
            HashBaseTableColumn::CONSTANT0B => 34,
            HashBaseTableColumn::CONSTANT1B => 35,
            HashBaseTableColumn::CONSTANT2B => 36,
            HashBaseTableColumn::CONSTANT3B => 37,
            HashBaseTableColumn::CONSTANT4B => 38,
            HashBaseTableColumn::CONSTANT5B => 39,
            HashBaseTableColumn::CONSTANT6B => 40,
            HashBaseTableColumn::CONSTANT7B => 41,
            HashBaseTableColumn::CONSTANT8B => 42,
            HashBaseTableColumn::CONSTANT9B => 43,
            HashBaseTableColumn::CONSTANT10B => 44,
            HashBaseTableColumn::CONSTANT11B => 45,
            HashBaseTableColumn::CONSTANT12B => 46,
            HashBaseTableColumn::CONSTANT13B => 47,
            HashBaseTableColumn::CONSTANT14B => 48,
            HashBaseTableColumn::CONSTANT15B => 49,
        }
    }
}

impl MasterBaseTableColumn for HashBaseTableColumn {
    fn base_table_index(&self) -> (r: usize)
        ensures
            r == self.column_index(),
            r < HASH_TABLE_BASE_WIDTH,
    {
        match self {
            HashBaseTableColumn::ROUNDNUMBER => 0,
            HashBaseTableColumn::CI => 1,
            HashBaseTableColumn::STATE0 => 2,
            HashBaseTableColumn::STATE1 => 3,
            HashBaseTableColumn::STATE2 => 4,
            HashBaseTableColumn::STATE3 => 5,
            HashBaseTableColumn::STATE4 => 6,
            HashBaseTableColumn::STATE5 => 7,
            HashBaseTableColumn::STATE6 => 8,
            HashBaseTableColumn::STATE7 => 9,
            HashBaseTableColumn::STATE8 => 10,
            HashBaseTableColumn::STATE9 => 11,
            HashBaseTableColumn::STATE10 => 12,
            HashBaseTableColumn::STATE11 => 13,
            HashBaseTableColumn::STATE12 => 14,
            HashBaseTableColumn::STATE13 => 15,
            HashBaseTableColumn::STATE14 => 16,
            HashBaseTableColumn::STATE15 => 17,
            HashBaseTableColumn::CONSTANT0A => 18,
            HashBaseTableColumn::CONSTANT1A => 19,
            HashBaseTableColumn::CONSTANT2A => 20,
            HashBaseTableColumn::CONSTANT3A => 21,
            HashBaseTableColumn::CONSTANT4A => 22,
            HashBaseTableColumn::CONSTANT5A => 23,
            HashBaseTableColumn::CONSTANT6A => 24,
            HashBaseTableColumn::CONSTANT7A => 25,
            HashBaseTableColumn::CONSTANT8A => 26,
            HashBaseTableColumn::CONSTANT9A => 27,
            HashBaseTableColumn::CONSTANT10A => 28,
            HashBaseTableColumn::CONSTANT11A => 29,
            HashBaseTableColumn::CONSTANT12A => 30,
            HashBaseTableColumn::CONSTANT13A => 31,
            HashBaseTableColumn::CONSTANT14A => 32,
            HashBaseTableColumn::CONSTANT15A => 33,
            HashBaseTableColumn::CONSTANT0B => 34,
            HashBaseTableColumn::CONSTANT1B => 35,
            HashBaseTableColumn::CONSTANT2B => 36,
            HashBaseTableColumn::CONSTANT3B => 37,
            HashBaseTableColumn::CONSTANT4B => 38,
            HashBaseTableColumn::CONSTANT5B => 39,
            HashBaseTableColumn::CONSTANT6B => 40,
            HashBaseTableColumn::CONSTANT7B => 41,
            HashBaseTableColumn::CONSTANT8B => 42,
            HashBaseTableColumn::CONSTANT9B => 43,
            HashBaseTableColumn::CONSTANT10B => 44,
            HashBaseTableColumn::CONSTANT11B => 45,
            HashBaseTableColumn::CONSTANT12B => 46,
            HashBaseTableColumn::CONSTANT13B => 47,
            HashBaseTableColumn::CONSTANT14B => 48,
            HashBaseTableColumn::CONSTANT15B => 49,
        }
    }

    fn master_base_table_index(&self) -> (r: usize)
        ensures
            r == HASH_TABLE_START + self.column_index(),
    {
        match self {
            HashBaseTableColumn::ROUNDNUMBER => HASH_TABLE_START + 0,
            HashBaseTableColumn::CI => HASH_TABLE_START + 1,
            HashBaseTableColumn::STATE0 => HASH_TABLE_START + 2,
            HashBaseTableColumn::STATE1 => HASH_TABLE_START + 3,
            HashBaseTableColumn::STATE2 => HASH_TABLE_START + 4,
            HashBaseTableColumn::STATE3 => HASH_TABLE_START + 5,
            HashBaseTableColumn::STATE4 => HASH_TABLE_START + 6,
            HashBaseTableColumn::STATE5 => HASH_TABLE_START + 7,
            HashBaseTableColumn::STATE6 => HASH_TABLE_START + 8,
            HashBaseTableColumn::STATE7 => HASH_TABLE_START + 9,
            HashBaseTableColumn::STATE8 => HASH_TABLE_START + 10,
            HashBaseTableColumn::STATE9 => HASH_TABLE_START + 11,
            HashBaseTableColumn::STATE10 => HASH_TABLE_START + 12,
            HashBaseTableColumn::STATE11 => HASH_TABLE_START + 13,
            HashBaseTableColumn::STATE12 => HASH_TABLE_START + 14,
            HashBaseTableColumn::STATE13 => HASH_TABLE_START + 15,
            HashBaseTableColumn::STATE14 => HASH_TABLE_START + 16,
            HashBaseTableColumn::STATE15 => HASH_TABLE_START + 17,
            HashBaseTableColumn::CONSTANT0A => HASH_TABLE_START + 18,
            HashBaseTableColumn::CONSTANT1A => HASH_TABLE_START + 19,
            HashBaseTableColumn::CONSTANT2A => HASH_TABLE_START + 20,
            HashBaseTableColumn::CONSTANT3A => HASH_TABLE_START + 21,
            HashBaseTableColumn::CONSTANT4A => HASH_TABLE_START + 22,
            HashBaseTableColumn::CONSTANT5A => HASH_TABLE_START + 23,
            HashBaseTableColumn::CONSTANT6A => HASH_TABLE_START + 24,
            HashBaseTableColumn::CONSTANT7A => HASH_TABLE_START + 25,
            HashBaseTableColumn::CONSTANT8A => HASH_TABLE_START + 26,
            HashBaseTableColumn::CONSTANT9A => HASH_TABLE_START + 27,
            HashBaseTableColumn::CONSTANT10A => HASH_TABLE_START + 28,
            HashBaseTableColumn::CONSTANT11A => HASH_TABLE_START + 29,
            HashBaseTableColumn::CONSTANT12A => HASH_TABLE_START + 30,
            HashBaseTableColumn::CONSTANT13A => HASH_TABLE_START + 31,
            HashBaseTableColumn::CONSTANT14A => HASH_TABLE_START + 32,
            HashBaseTableColumn::CONSTANT15A => HASH_TABLE_START + 33,
            HashBaseTableColumn::CONSTANT0B => HASH_TABLE_START + 34,
            HashBaseTableColumn::CONSTANT1B => HASH_TABLE_START + 35,
            HashBaseTableColumn::CONSTANT2B => HASH_TABLE_START + 36,
            HashBaseTableColumn::CONSTANT3B => HASH_TABLE_START + 37,
            HashBaseTableColumn::CONSTANT4B => HASH_TABLE_START + 38,
            HashBaseTableColumn::CONSTANT5B => HASH_TABLE_START + 39,
            HashBaseTableColumn::CONSTANT6B => HASH_TABLE_START + 40,
            HashBaseTableColumn::CONSTANT7B => HASH_TABLE_START + 41,
            HashBaseTableColumn::CONSTANT8B => HASH_TABLE_START + 42,
            HashBaseTableColumn::CONSTANT9B => HASH_TABLE_START + 43,
            HashBaseTableColumn::CONSTANT10B => HASH_TABLE_START + 44,
            HashBaseTableColumn::CONSTANT11B => HASH_TABLE_START + 45,
            HashBaseTableColumn::CONSTANT12B => HASH_TABLE_START + 46,
            HashBaseTableColumn::CONSTANT13B => HASH_TABLE_START + 47,
            HashBaseTableColumn::CONSTANT14B => HASH_TABLE_START + 48,
            HashBaseTableColumn::CONSTANT15B => HASH_TABLE_START + 49,
        }
    }
}

/// The columns of the Hash extension table, in order.
#[derive(Debug, Clone, Copy, PartialEq, Eq, Hash)]
pub enum HashExtTableColumn {
    HashInputRunningEvaluation,
    HashDigestRunningEvaluation,
    SpongeRunningEvaluation,
}

impl HashExtTableColumn {
    /// The declaration position of the column: its index within the
    /// Hash extension table.
    pub open spec fn column_index(self) -> int {
        match self {
            HashExtTableColumn::HashInputRunningEvaluation => 0,
            HashExtTableColumn::HashDigestRunningEvaluation => 1,
            HashExtTableColumn::SpongeRunningEvaluation => 2,
        }
    }
}

impl MasterExtTableColumn for HashExtTableColumn {
    fn ext_table_index(&self) -> (r: usize)
        ensures
            r == self.column_index(),
            r < HASH_TABLE_EXT_WIDTH,
    {
        match self {
            HashExtTableColumn::HashInputRunningEvaluation => 0,
            HashExtTableColumn::HashDigestRunningEvaluation => 1,
            HashExtTableColumn::SpongeRunningEvaluation => 2,
        }
    }

    fn master_ext_table_index(&self) -> (r: usize)
        ensures
            r == EXT_HASH_TABLE_START + self.column_index(),
    {
        match self {
            HashExtTableColumn::HashInputRunningEvaluation => EXT_HASH_TABLE_START + 0,
            HashExtTableColumn::HashDigestRunningEvaluation => EXT_HASH_TABLE_START + 1,
            HashExtTableColumn::SpongeRunningEvaluation => EXT_HASH_TABLE_START + 2,
        }
    }
}

/// The columns of the U32 base table, in order.
#[derive(Debug, Clone, Copy, PartialEq, Eq, Hash)]
pub enum U32BaseTableColumn {
    CopyFlag,
    Bits,
    BitsMinus33Inv,
    CI,
    LHS,
    LhsInv,
    RHS,
    RhsInv,
    Result,
    LookupMultiplicity,
}

impl U32BaseTableColumn {
    /// The declaration position of the column: its index within the
    /// U32 base table.
    pub open spec fn column_index(self) -> int {
        match self {
            U32BaseTableColumn::CopyFlag => 0,
            U32BaseTableColumn::Bits => 1,
            U32BaseTableColumn::BitsMinus33Inv => 2,
            U32BaseTableColumn::CI => 3,
            U32BaseTableColumn::LHS => 4,
            U32BaseTableColumn::LhsInv => 5,
            U32BaseTableColumn::RHS => 6,
            U32BaseTableColumn::RhsInv => 7,
            U32BaseTableColumn::Result => 8,
            U32BaseTableColumn::LookupMultiplicity => 9,
        }
    }
}

impl MasterBaseTableColumn for U32BaseTableColumn {
    fn base_table_index(&self) -> (r: usize)
        ensures
            r == self.column_index(),
            r < U32_TABLE_BASE_WIDTH,
    {
        match self {
            U32BaseTableColumn::CopyFlag => 0,
            U32BaseTableColumn::Bits => 1,
            U32BaseTableColumn::BitsMinus33Inv => 2,
            U32BaseTableColumn::CI => 3,
            U32BaseTableColumn::LHS => 4,
            U32BaseTableColumn::LhsInv => 5,
            U32BaseTableColumn::RHS => 6,
            U32BaseTableColumn::RhsInv => 7,
            U32BaseTableColumn::Result => 8,
            U32BaseTableColumn::LookupMultiplicity => 9,
        }
    }

    fn master_base_table_index(&self) -> (r: usize)
        ensures
            r == U32_TABLE_START + self.column_index(),
    {
        match self {
            U32BaseTableColumn::CopyFlag => U32_TABLE_START + 0,
            U32BaseTableColumn::Bits => U32_TABLE_START + 1,
            U32BaseTableColumn::BitsMinus33Inv => U32_TABLE_START + 2,
            U32BaseTableColumn::CI => U32_TABLE_START + 3,
            U32BaseTableColumn::LHS => U32_TABLE_START + 4,
            U32BaseTableColumn::LhsInv => U32_TABLE_START + 5,
            U32BaseTableColumn::RHS => U32_TABLE_START + 6,
            U32BaseTableColumn::RhsInv => U32_TABLE_START + 7,
            U32BaseTableColumn::Result => U32_TABLE_START + 8,
            U32BaseTableColumn::LookupMultiplicity => U32_TABLE_START + 9,
        }
    }
}

/// The columns of the U32 extension table, in order.
#[derive(Debug, Clone, Copy, PartialEq, Eq, Hash)]
pub enum U32ExtTableColumn {
    LookupServerLogDerivative,
}

impl U32ExtTableColumn {
    /// The declaration position of the column: its index within the
    /// U32 extension table.
    pub open spec fn column_index(self) -> int {
        match self {
            U32ExtTableColumn::LookupServerLogDerivative => 0,
        }
    }
}

impl MasterExtTableColumn for U32ExtTableColumn {
    fn ext_table_index(&self) -> (r: usize)
        ensures
            r == self.column_index(),
            r < U32_TABLE_EXT_WIDTH,
    {
        match self {
            U32ExtTableColumn::LookupServerLogDerivative => 0,
        }
    }

    fn master_ext_table_index(&self) -> (r: usize)
        ensures
            r == EXT_U32_TABLE_START + self.column_index(),
    {
        match self {
            U32ExtTableColumn::LookupServerLogDerivative => EXT_U32_TABLE_START + 0,
        }
    }
}

/// Each sub-table's published width is one more than its last column's
/// local index, so the local indices cover the width exactly; with the
/// master index being the table's start plus the local index and the
/// starts being prefix sums, the master indices of all columns in table
/// order are consecutive, with no gaps between tables.
pub proof fn lemma_column_indices_cover_widths()
    ensures
        ProgramBaseTableColumn::IsPadding.column_index() + 1 == PROGRAM_TABLE_BASE_WIDTH,
        ProgramExtTableColumn::InstructionLookupServerLogDerivative.column_index() + 1 == PROGRAM_TABLE_EXT_WIDTH,
        ProcessorBaseTableColumn::ClockJumpDifferenceLookupMultiplicity.column_index() + 1 == PROCESSOR_TABLE_BASE_WIDTH,
        ProcessorExtTableColumn::ClockJumpDifferenceLookupServerLogDerivative.column_index() + 1 == PROCESSOR_TABLE_EXT_WIDTH,
        OpStackBaseTableColumn::OSV.column_index() + 1 == OP_STACK_TABLE_BASE_WIDTH,
        OpStackExtTableColumn::ClockJumpDifferenceLookupClientLogDerivative.column_index() + 1 == OP_STACK_TABLE_EXT_WIDTH,
        RamBaseTableColumn::BezoutCoefficientPolynomialCoefficient1.column_index() + 1 == RAM_TABLE_BASE_WIDTH,
        RamExtTableColumn::ClockJumpDifferenceLookupClientLogDerivative.column_index() + 1 == RAM_TABLE_EXT_WIDTH,
        JumpStackBaseTableColumn::JSD.column_index() + 1 == JUMP_STACK_TABLE_BASE_WIDTH,
        JumpStackExtTableColumn::ClockJumpDifferenceLookupClientLogDerivative.column_index() + 1 == JUMP_STACK_TABLE_EXT_WIDTH,
        HashBaseTableColumn::CONSTANT15B.column_index() + 1 == HASH_TABLE_BASE_WIDTH,
        HashExtTableColumn::SpongeRunningEvaluation.column_index() + 1 == HASH_TABLE_EXT_WIDTH,
        U32BaseTableColumn::LookupMultiplicity.column_index() + 1 == U32_TABLE_BASE_WIDTH,
        U32ExtTableColumn::LookupServerLogDerivative.column_index() + 1 == U32_TABLE_EXT_WIDTH,
{
}

} // verus!
