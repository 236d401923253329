use triton_vm::master_table::HASH_TABLE_EXT_WIDTH;
use triton_vm::master_table::HASH_TABLE_BASE_WIDTH;
use triton_vm::master_table::JUMP_STACK_TABLE_BASE_WIDTH;
use triton_vm::master_table::JUMP_STACK_TABLE_EXT_WIDTH;
use triton_vm::master_table::OP_STACK_TABLE_BASE_WIDTH;
use triton_vm::master_table::OP_STACK_TABLE_EXT_WIDTH;
use triton_vm::master_table::PROCESSOR_TABLE_BASE_WIDTH;
use triton_vm::master_table::PROCESSOR_TABLE_EXT_WIDTH;
use triton_vm::master_table::PROGRAM_TABLE_BASE_WIDTH;
use triton_vm::master_table::PROGRAM_TABLE_EXT_WIDTH;
use triton_vm::master_table::RAM_TABLE_BASE_WIDTH;
use triton_vm::master_table::RAM_TABLE_EXT_WIDTH;
use triton_vm::table_column::HashBaseTableColumn;
use triton_vm::table_column::HashExtTableColumn;
use triton_vm::table_column::JumpStackBaseTableColumn;
use triton_vm::table_column::JumpStackExtTableColumn;
use triton_vm::table_column::MasterBaseTableColumn;
use triton_vm::table_column::MasterExtTableColumn;
use triton_vm::table_column::OpStackBaseTableColumn;
use triton_vm::table_column::OpStackExtTableColumn;
use triton_vm::table_column::ProcessorBaseTableColumn;
use triton_vm::table_column::ProcessorExtTableColumn;
use triton_vm::table_column::ProgramBaseTableColumn;
use triton_vm::table_column::ProgramExtTableColumn;
use triton_vm::table_column::RamBaseTableColumn;
use triton_vm::table_column::RamExtTableColumn;

fn all_program_base_columns() -> Vec<ProgramBaseTableColumn> {
    vec![
        ProgramBaseTableColumn::Address,
        ProgramBaseTableColumn::Instruction,
        ProgramBaseTableColumn::LookupMultiplicity,
        ProgramBaseTableColumn::IsPadding,
    ]
}

fn all_processor_base_columns() -> Vec<ProcessorBaseTableColumn> {
    vec![
        ProcessorBaseTableColumn::CLK,
        ProcessorBaseTableColumn::IsPadding,
        ProcessorBaseTableColumn::PreviousInstruction,
        ProcessorBaseTableColumn::IP,
        ProcessorBaseTableColumn::CI,
        ProcessorBaseTableColumn::NIA,
        ProcessorBaseTableColumn::IB0,
        ProcessorBaseTableColumn::IB1,
        ProcessorBaseTableColumn::IB2,
        ProcessorBaseTableColumn::IB3,
        ProcessorBaseTableColumn::IB4,
        ProcessorBaseTableColumn::IB5,
        ProcessorBaseTableColumn::IB6,
        ProcessorBaseTableColumn::IB7,
        ProcessorBaseTableColumn::JSP,
        ProcessorBaseTableColumn::JSO,
        ProcessorBaseTableColumn::JSD,
        ProcessorBaseTableColumn::ST0,
        ProcessorBaseTableColumn::ST1,
        ProcessorBaseTableColumn::ST2,
        ProcessorBaseTableColumn::ST3,
        ProcessorBaseTableColumn::ST4,
        ProcessorBaseTableColumn::ST5,
        ProcessorBaseTableColumn::ST6,
        ProcessorBaseTableColumn::ST7,
        ProcessorBaseTableColumn::ST8,
        ProcessorBaseTableColumn::ST9,
        ProcessorBaseTableColumn::ST10,
        ProcessorBaseTableColumn::ST11,
        ProcessorBaseTableColumn::ST12,
        ProcessorBaseTableColumn::ST13,
        ProcessorBaseTableColumn::ST14,
        ProcessorBaseTableColumn::ST15,
        ProcessorBaseTableColumn::OSP,
        ProcessorBaseTableColumn::OSV,
        ProcessorBaseTableColumn::HV0,
        ProcessorBaseTableColumn::HV1,
        ProcessorBaseTableColumn::HV2,
        ProcessorBaseTableColumn::HV3,
        ProcessorBaseTableColumn::RAMP,
        ProcessorBaseTableColumn::RAMV,
        ProcessorBaseTableColumn::ClockJumpDifferenceLookupMultiplicity,
    ]
}

fn all_op_stack_base_columns() -> Vec<OpStackBaseTableColumn> {
    vec![
        OpStackBaseTableColumn::CLK,
        OpStackBaseTableColumn::IB1ShrinkStack,
        OpStackBaseTableColumn::OSP,
        OpStackBaseTableColumn::OSV,
    ]
}

fn all_ram_base_columns() -> Vec<RamBaseTableColumn> {
    vec![
        RamBaseTableColumn::CLK,
        RamBaseTableColumn::PreviousInstruction,
        RamBaseTableColumn::RAMP,
        RamBaseTableColumn::RAMV,
        RamBaseTableColumn::InverseOfRampDifference,
        RamBaseTableColumn::BezoutCoefficientPolynomialCoefficient0,
        RamBaseTableColumn::BezoutCoefficientPolynomialCoefficient1,
    ]
}

fn all_jump_stack_base_columns() -> Vec<JumpStackBaseTableColumn> {
    vec![
        JumpStackBaseTableColumn::CLK,
        JumpStackBaseTableColumn::CI,
        JumpStackBaseTableColumn::JSP,
        JumpStackBaseTableColumn::JSO,
        JumpStackBaseTableColumn::JSD,
    ]
}

fn all_hash_base_columns() -> Vec<HashBaseTableColumn> {
    vec![
        HashBaseTableColumn::ROUNDNUMBER,
        HashBaseTableColumn::CI,
        HashBaseTableColumn::STATE0,
        HashBaseTableColumn::STATE1,
        HashBaseTableColumn::STATE2,
        HashBaseTableColumn::STATE3,
        HashBaseTableColumn::STATE4,
        HashBaseTableColumn::STATE5,
        HashBaseTableColumn::STATE6,
        HashBaseTableColumn::STATE7,
        HashBaseTableColumn::STATE8,
        HashBaseTableColumn::STATE9,
        HashBaseTableColumn::STATE10,
        HashBaseTableColumn::STATE11,
        HashBaseTableColumn::STATE12,
        HashBaseTableColumn::STATE13,
        HashBaseTableColumn::STATE14,
        HashBaseTableColumn::STATE15,
        HashBaseTableColumn::CONSTANT0A,
        HashBaseTableColumn::CONSTANT1A,
        HashBaseTableColumn::CONSTANT2A,
        HashBaseTableColumn::CONSTANT3A,
        HashBaseTableColumn::CONSTANT4A,
        HashBaseTableColumn::CONSTANT5A,
        HashBaseTableColumn::CONSTANT6A,
        HashBaseTableColumn::CONSTANT7A,
        HashBaseTableColumn::CONSTANT8A,
        HashBaseTableColumn::CONSTANT9A,
        HashBaseTableColumn::CONSTANT10A,
        HashBaseTableColumn::CONSTANT11A,
        HashBaseTableColumn::CONSTANT12A,
        HashBaseTableColumn::CONSTANT13A,
        HashBaseTableColumn::CONSTANT14A,
        HashBaseTableColumn::CONSTANT15A,
        HashBaseTableColumn::CONSTANT0B,
        HashBaseTableColumn::CONSTANT1B,
        HashBaseTableColumn::CONSTANT2B,
        HashBaseTableColumn::CONSTANT3B,
        HashBaseTableColumn::CONSTANT4B,
        HashBaseTableColumn::CONSTANT5B,
        HashBaseTableColumn::CONSTANT6B,
        HashBaseTableColumn::CONSTANT7B,
        HashBaseTableColumn::CONSTANT8B,
        HashBaseTableColumn::CONSTANT9B,
        HashBaseTableColumn::CONSTANT10B,
        HashBaseTableColumn::CONSTANT11B,
        HashBaseTableColumn::CONSTANT12B,
        HashBaseTableColumn::CONSTANT13B,
        HashBaseTableColumn::CONSTANT14B,
        HashBaseTableColumn::CONSTANT15B,
    ]
}

fn all_program_ext_columns() -> Vec<ProgramExtTableColumn> {
    vec![
        ProgramExtTableColumn::InstructionLookupServerLogDerivative,
    ]
}

fn all_processor_ext_columns() -> Vec<ProcessorExtTableColumn> {
    vec![
        ProcessorExtTableColumn::InputTableEvalArg,
        ProcessorExtTableColumn::OutputTableEvalArg,
        ProcessorExtTableColumn::InstructionLookupClientLogDerivative,
        ProcessorExtTableColumn::OpStackTablePermArg,
        ProcessorExtTableColumn::RamTablePermArg,
        ProcessorExtTableColumn::JumpStackTablePermArg,
        ProcessorExtTableColumn::HashInputEvalArg,
        ProcessorExtTableColumn::HashDigestEvalArg,
        ProcessorExtTableColumn::SpongeEvalArg,
        ProcessorExtTableColumn::U32LookupClientLogDerivative,
        ProcessorExtTableColumn::ClockJumpDifferenceLookupServerLogDerivative,
    ]
}

fn all_op_stack_ext_columns() -> Vec<OpStackExtTableColumn> {
    vec![
        OpStackExtTableColumn::RunningProductPermArg,
        OpStackExtTableColumn::ClockJumpDifferenceLookupClientLogDerivative,
    ]
}

fn all_ram_ext_columns() -> Vec<RamExtTableColumn> {
    vec![
        RamExtTableColumn::RunningProductOfRAMP,
        RamExtTableColumn::FormalDerivative,
        RamExtTableColumn::BezoutCoefficient0,
        RamExtTableColumn::BezoutCoefficient1,
        RamExtTableColumn::RunningProductPermArg,
        RamExtTableColumn::ClockJumpDifferenceLookupClientLogDerivative,
    ]
}

fn all_jump_stack_ext_columns() -> Vec<JumpStackExtTableColumn> {
    vec![
        JumpStackExtTableColumn::RunningProductPermArg,
        JumpStackExtTableColumn::ClockJumpDifferenceLookupClientLogDerivative,
    ]
}

fn all_hash_ext_columns() -> Vec<HashExtTableColumn> {
    vec![
        HashExtTableColumn::HashInputRunningEvaluation,
        HashExtTableColumn::HashDigestRunningEvaluation,
        HashExtTableColumn::SpongeRunningEvaluation,
    ]
}

#[test]
fn column_max_bound_matches_table_width() {
    assert_eq!(
        PROGRAM_TABLE_BASE_WIDTH,
        all_program_base_columns().last().unwrap().base_table_index() + 1,
        "ProgramTable's BASE_WIDTH is 1 + its max column index",
    );
    assert_eq!(
        PROCESSOR_TABLE_BASE_WIDTH,
        all_processor_base_columns().last().unwrap().base_table_index() + 1,
        "ProcessorTable's BASE_WIDTH is 1 + its max column index",
    );
    assert_eq!(
        OP_STACK_TABLE_BASE_WIDTH,
        all_op_stack_base_columns().last().unwrap().base_table_index() + 1,
        "OpStackTable's BASE_WIDTH is 1 + its max column index",
    );
    assert_eq!(
        RAM_TABLE_BASE_WIDTH,
        all_ram_base_columns().last().unwrap().base_table_index() + 1,
        "RamTable's BASE_WIDTH is 1 + its max column index",
    );
    assert_eq!(
        JUMP_STACK_TABLE_BASE_WIDTH,
        all_jump_stack_base_columns().last().unwrap().base_table_index() + 1,
        "JumpStackTable's BASE_WIDTH is 1 + its max column index",
    );
    assert_eq!(
        HASH_TABLE_BASE_WIDTH,
        all_hash_base_columns().last().unwrap().base_table_index() + 1,
        "HashTable's BASE_WIDTH is 1 + its max column index",
    );

    assert_eq!(
        PROGRAM_TABLE_EXT_WIDTH,
        all_program_ext_columns().last().unwrap().ext_table_index() + 1,
        "ProgramTable's EXT_WIDTH is 1 + its max column index",
    );
    assert_eq!(
        PROCESSOR_TABLE_EXT_WIDTH,
        all_processor_ext_columns().last().unwrap().ext_table_index() + 1,
        "ProcessorTable's EXT_WIDTH is 1 + its max column index",
    );
    assert_eq!(
        OP_STACK_TABLE_EXT_WIDTH,
        all_op_stack_ext_columns().last().unwrap().ext_table_index() + 1,
        "OpStack:Table's EXT_WIDTH is 1 + its max column index",
    );
    assert_eq!(
        RAM_TABLE_EXT_WIDTH,
        all_ram_ext_columns().last().unwrap().ext_table_index() + 1,
        "RamTable's EXT_WIDTH is 1 + its max column index",
    );
    assert_eq!(
        JUMP_STACK_TABLE_EXT_WIDTH,
        all_jump_stack_ext_columns().last().unwrap().ext_table_index() + 1,
        "JumpStack:Table's EXT_WIDTH is 1 + its max column index",
    );
    assert_eq!(
        HASH_TABLE_EXT_WIDTH,
        all_hash_ext_columns().last().unwrap().ext_table_index() + 1,
        "HashTable's EXT_WIDTH is 1 + its max column index",
    );
}

#[test]
fn master_base_table_is_contiguous() {
    let mut expected_column_index = 0;
    for column in all_program_base_columns() {
        assert_eq!(expected_column_index, column.master_base_table_index());
        expected_column_index += 1;
    }
    for column in all_processor_base_columns() {
        assert_eq!(expected_column_index, column.master_base_table_index());
        expected_column_index += 1;
    }
    for column in all_op_stack_base_columns() {
        assert_eq!(expected_column_index, column.master_base_table_index());
        expected_column_index += 1;
    }
    for column in all_ram_base_columns() {
        assert_eq!(expected_column_index, column.master_base_table_index());
        expected_column_index += 1;
    }
    for column in all_jump_stack_base_columns() {
        assert_eq!(expected_column_index, column.master_base_table_index());
        expected_column_index += 1;
    }
    for column in all_hash_base_columns() {
        assert_eq!(expected_column_index, column.master_base_table_index());
        expected_column_index += 1;
    }
}

#[test]
fn master_ext_table_is_contiguous() {
    let mut expected_column_index = 0;
    for column in all_program_ext_columns() {
        assert_eq!(expected_column_index, column.master_ext_table_index());
        expected_column_index += 1;
    }
    for column in all_processor_ext_columns() {
        assert_eq!(expected_column_index, column.master_ext_table_index());
        expected_column_index += 1;
    }
    for column in all_op_stack_ext_columns() {
        assert_eq!(expected_column_index, column.master_ext_table_index());
        expected_column_index += 1;
    }
    for column in all_ram_ext_columns() {
        assert_eq!(expected_column_index, column.master_ext_table_index());
        expected_column_index += 1;
    }
    for column in all_jump_stack_ext_columns() {
        assert_eq!(expected_column_index, column.master_ext_table_index());
        expected_column_index += 1;
    }
    for column in all_hash_ext_columns() {
        assert_eq!(expected_column_index, column.master_ext_table_index());
        expected_column_index += 1;
    }
}
