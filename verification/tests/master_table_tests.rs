use triton_vm::arithmetic_domain::ArithmeticDomain;
use triton_vm::bfield::bfe_batch_inverse;
use triton_vm::bfield::poly_evaluate;
use triton_vm::master_table::CASCADE_TABLE_BASE_WIDTH;
use triton_vm::master_table::CASCADE_TABLE_EXT_WIDTH;
use triton_vm::master_table::DEGREE_LOWERING_TABLE_BASE_WIDTH;
use triton_vm::master_table::DEGREE_LOWERING_TABLE_EXT_WIDTH;
use triton_vm::master_table::EXT_CASCADE_TABLE_START;
use triton_vm::master_table::EXT_HASH_TABLE_START;
use triton_vm::master_table::EXT_JUMP_STACK_TABLE_START;
use triton_vm::master_table::EXT_LOOKUP_TABLE_START;
use triton_vm::master_table::EXT_OP_STACK_TABLE_START;
use triton_vm::master_table::EXT_PROCESSOR_TABLE_START;
use triton_vm::master_table::EXT_PROGRAM_TABLE_START;
use triton_vm::master_table::EXT_RAM_TABLE_START;
use triton_vm::master_table::EXT_U32_TABLE_START;
use triton_vm::master_table::HASH_TABLE_BASE_WIDTH;
use triton_vm::master_table::HASH_TABLE_EXT_WIDTH;
use triton_vm::master_table::JUMP_STACK_TABLE_BASE_WIDTH;
use triton_vm::master_table::JUMP_STACK_TABLE_EXT_WIDTH;
use triton_vm::master_table::LOOKUP_TABLE_BASE_WIDTH;
use triton_vm::master_table::LOOKUP_TABLE_EXT_WIDTH;
use triton_vm::master_table::MasterBaseTable;
use triton_vm::master_table::MasterExtTable;
use triton_vm::master_table::NUM_BASE_COLUMNS;
use triton_vm::master_table::NUM_EXT_COLUMNS;
use triton_vm::master_table::OP_STACK_TABLE_BASE_WIDTH;
use triton_vm::master_table::OP_STACK_TABLE_EXT_WIDTH;
use triton_vm::master_table::PROCESSOR_TABLE_BASE_WIDTH;
use triton_vm::master_table::PROCESSOR_TABLE_EXT_WIDTH;
use triton_vm::master_table::PROGRAM_TABLE_BASE_WIDTH;
use triton_vm::master_table::PROGRAM_TABLE_EXT_WIDTH;
use triton_vm::master_table::RAM_TABLE_BASE_WIDTH;
use triton_vm::master_table::RAM_TABLE_EXT_WIDTH;
use triton_vm::master_table::TableId;
use triton_vm::master_table::U32_TABLE_BASE_WIDTH;
use triton_vm::master_table::U32_TABLE_EXT_WIDTH;
use triton_vm::master_table::consistency_quotient_zerofier_inverse;
use triton_vm::master_table::initial_quotient_zerofier_inverse;
use triton_vm::master_table::LOOKUP_TABLE_PADDED_LENGTH;
use triton_vm::merkle::merkle_root;
use triton_vm::merkle::merkle_tree_from_digests;
use triton_vm::tip5::hash_varlen;
use triton_vm::master_table::NUM_CONSISTENCY_QUOTIENTS;
use triton_vm::master_table::NUM_INITIAL_QUOTIENTS;
use triton_vm::master_table::NUM_TERMINAL_QUOTIENTS;
use triton_vm::master_table::NUM_TRANSITION_QUOTIENTS;
use triton_vm::master_table::num_quotients;
use triton_vm::master_table::quotient_section_ends;
use triton_vm::master_table::randomized_padded_trace_len;
use triton_vm::master_table::terminal_quotient_zerofier_inverse;
use triton_vm::master_table::transition_quotient_zerofier_inverse;
use triton_vm::xfield::Xfe;

/// The multiplicative generator of the base field.
const FIELD_GENERATOR: u64 = 7;

fn small_base_table() -> MasterBaseTable {
    let quotient_domain = ArithmeticDomain::of_length(32).with_offset(FIELD_GENERATOR);
    let fri_domain = ArithmeticDomain::of_length(64).with_offset(FIELD_GENERATOR);
    MasterBaseTable::new(8, 4, quotient_domain, fri_domain, 2, 3, 2, 2, 2, 2, 2)
}

#[test]
fn base_table_width_is_correct() {
    let master_base_table = small_base_table();

    assert_eq!(
        PROGRAM_TABLE_BASE_WIDTH,
        master_base_table.table(TableId::ProgramTable).num_cols
    );
    assert_eq!(
        PROCESSOR_TABLE_BASE_WIDTH,
        master_base_table.table(TableId::ProcessorTable).num_cols
    );
    assert_eq!(
        OP_STACK_TABLE_BASE_WIDTH,
        master_base_table.table(TableId::OpStackTable).num_cols
    );
    assert_eq!(
        RAM_TABLE_BASE_WIDTH,
        master_base_table.table(TableId::RamTable).num_cols
    );
    assert_eq!(
        JUMP_STACK_TABLE_BASE_WIDTH,
        master_base_table.table(TableId::JumpStackTable).num_cols
    );
    assert_eq!(
        HASH_TABLE_BASE_WIDTH,
        master_base_table.table(TableId::HashTable).num_cols
    );
    assert_eq!(
        CASCADE_TABLE_BASE_WIDTH,
        master_base_table.table(TableId::CascadeTable).num_cols
    );
    assert_eq!(
        LOOKUP_TABLE_BASE_WIDTH,
        master_base_table.table(TableId::LookupTable).num_cols
    );
    assert_eq!(
        U32_TABLE_BASE_WIDTH,
        master_base_table.table(TableId::U32Table).num_cols
    );
    assert_eq!(
        DEGREE_LOWERING_TABLE_BASE_WIDTH,
        master_base_table.table(TableId::DegreeLoweringTable).num_cols
    );
}

#[test]
fn ext_table_width_is_correct() {
    let num_randomizer_polynomials = 2;
    let master_ext_table = small_base_table().extend(num_randomizer_polynomials);

    assert_eq!(
        PROGRAM_TABLE_EXT_WIDTH,
        master_ext_table.table(TableId::ProgramTable).num_cols
    );
    assert_eq!(
        PROCESSOR_TABLE_EXT_WIDTH,
        master_ext_table.table(TableId::ProcessorTable).num_cols
    );
    assert_eq!(
        OP_STACK_TABLE_EXT_WIDTH,
        master_ext_table.table(TableId::OpStackTable).num_cols
    );
    assert_eq!(
        RAM_TABLE_EXT_WIDTH,
        master_ext_table.table(TableId::RamTable).num_cols
    );
    assert_eq!(
        JUMP_STACK_TABLE_EXT_WIDTH,
        master_ext_table.table(TableId::JumpStackTable).num_cols
    );
    assert_eq!(
        HASH_TABLE_EXT_WIDTH,
        master_ext_table.table(TableId::HashTable).num_cols
    );
    assert_eq!(
        CASCADE_TABLE_EXT_WIDTH,
        master_ext_table.table(TableId::CascadeTable).num_cols
    );
    assert_eq!(
        LOOKUP_TABLE_EXT_WIDTH,
        master_ext_table.table(TableId::LookupTable).num_cols
    );
    assert_eq!(
        U32_TABLE_EXT_WIDTH,
        master_ext_table.table(TableId::U32Table).num_cols
    );
    assert_eq!(
        DEGREE_LOWERING_TABLE_EXT_WIDTH,
        master_ext_table.table(TableId::DegreeLoweringTable).num_cols
    );
    // use some domain-specific knowledge to also check for the randomizer columns
    assert_eq!(
        num_randomizer_polynomials,
        master_ext_table.randomized_trace_table.len() - NUM_EXT_COLUMNS
    );
}

fn degree_of(poly: &[u64]) -> isize {
    match poly.iter().rposition(|&c| c != 0) {
        Some(i) => i as isize,
        None => -1,
    }
}

#[test]
fn zerofiers_are_correct() {
    let big_order = 16;
    let big_offset = FIELD_GENERATOR;
    let big_domain = ArithmeticDomain::of_length(big_order as usize).with_offset(big_offset);

    let small_order = 8;
    let small_domain = ArithmeticDomain::of_length(small_order as usize);

    let initial_zerofier_inv = initial_quotient_zerofier_inverse(big_domain);
    let initial_zerofier = bfe_batch_inverse(&initial_zerofier_inv);
    let initial_zerofier_poly = big_domain.interpolate(&initial_zerofier);
    assert_eq!(big_order as usize, initial_zerofier_inv.len());
    assert_eq!(1, degree_of(&initial_zerofier_poly));
    assert_eq!(
        0,
        poly_evaluate(&initial_zerofier_poly, small_domain.domain_value(0))
    );

    let consistency_zerofier_inv =
        consistency_quotient_zerofier_inverse(small_domain, big_domain);
    let consistency_zerofier = bfe_batch_inverse(&consistency_zerofier_inv);
    let consistency_zerofier_poly = big_domain.interpolate(&consistency_zerofier);
    assert_eq!(big_order as usize, consistency_zerofier_inv.len());
    assert_eq!(small_order as isize, degree_of(&consistency_zerofier_poly));
    for val in small_domain.domain_values() {
        assert_eq!(0, poly_evaluate(&consistency_zerofier_poly, val));
    }

    let transition_zerofier_inv =
        transition_quotient_zerofier_inverse(small_domain, big_domain);
    let transition_zerofier = bfe_batch_inverse(&transition_zerofier_inv);
    let transition_zerofier_poly = big_domain.interpolate(&transition_zerofier);
    assert_eq!(big_order as usize, transition_zerofier_inv.len());
    assert_eq!(
        small_order as isize - 1,
        degree_of(&transition_zerofier_poly)
    );
    for val in small_domain
        .domain_values()
        .into_iter()
        .take(small_order as usize - 1)
    {
        assert_eq!(0, poly_evaluate(&transition_zerofier_poly, val));
    }

    let terminal_zerofier_inv = terminal_quotient_zerofier_inverse(small_domain, big_domain);
    let terminal_zerofier = bfe_batch_inverse(&terminal_zerofier_inv);
    let terminal_zerofier_poly = big_domain.interpolate(&terminal_zerofier);
    assert_eq!(big_order as usize, terminal_zerofier_inv.len());
    assert_eq!(1, degree_of(&terminal_zerofier_poly));
    assert_eq!(
        0,
        poly_evaluate(
            &terminal_zerofier_poly,
            small_domain.domain_value(small_order as u32 - 1)
        )
    );
}

#[test]
fn master_ext_table_mut() {
    let num_randomizer_polynomials = 3;

    let trace_domain = ArithmeticDomain::of_length(1 << 8);
    let randomized_trace_domain = ArithmeticDomain::of_length(1 << 9);
    let quotient_domain = ArithmeticDomain::of_length(1 << 10);
    let fri_domain = ArithmeticDomain::of_length(1 << 11);

    let num_columns = NUM_EXT_COLUMNS + num_randomizer_polynomials;
    let randomized_trace_table =
        vec![vec![Xfe(0, 0, 0); randomized_trace_domain.length]; num_columns];

    let mut master_table = MasterExtTable {
        num_trace_randomizers: 16,
        num_randomizer_polynomials,
        trace_domain,
        randomized_trace_domain,
        quotient_domain,
        fri_domain,
        randomized_trace_table,
        low_degree_extended_table: None,
        interpolation_polynomials: None,
    };

    let num_rows = trace_domain.length;
    let table_ids = [
        TableId::ProgramTable,
        TableId::ProcessorTable,
        TableId::OpStackTable,
        TableId::RamTable,
        TableId::JumpStackTable,
        TableId::HashTable,
        TableId::CascadeTable,
        TableId::LookupTable,
        TableId::U32Table,
    ];
    for (fill_value, id) in table_ids.iter().enumerate() {
        let view = master_table.table(*id);
        for row in 0..num_rows {
            for col in 0..view.num_cols {
                master_table.set_trace_entry(
                    row,
                    view.col_start + col,
                    Xfe(fill_value as u64 + 1, 0, 0),
                );
            }
        }
    }

    let trace_domain_element =
        |column: usize| master_table.randomized_trace_table[column][0].0;
    let not_trace_domain_element =
        |column: usize| master_table.randomized_trace_table[column][1].0;

    assert_eq!(1, trace_domain_element(EXT_PROGRAM_TABLE_START));
    assert_eq!(2, trace_domain_element(EXT_PROCESSOR_TABLE_START));
    assert_eq!(3, trace_domain_element(EXT_OP_STACK_TABLE_START));
    assert_eq!(4, trace_domain_element(EXT_RAM_TABLE_START));
    assert_eq!(5, trace_domain_element(EXT_JUMP_STACK_TABLE_START));
    assert_eq!(6, trace_domain_element(EXT_HASH_TABLE_START));
    assert_eq!(7, trace_domain_element(EXT_CASCADE_TABLE_START));
    assert_eq!(8, trace_domain_element(EXT_LOOKUP_TABLE_START));
    assert_eq!(9, trace_domain_element(EXT_U32_TABLE_START));

    assert_eq!(0, not_trace_domain_element(EXT_PROGRAM_TABLE_START));
    assert_eq!(0, not_trace_domain_element(EXT_PROCESSOR_TABLE_START));
    assert_eq!(0, not_trace_domain_element(EXT_OP_STACK_TABLE_START));
    assert_eq!(0, not_trace_domain_element(EXT_RAM_TABLE_START));
    assert_eq!(0, not_trace_domain_element(EXT_JUMP_STACK_TABLE_START));
    assert_eq!(0, not_trace_domain_element(EXT_HASH_TABLE_START));
    assert_eq!(0, not_trace_domain_element(EXT_CASCADE_TABLE_START));
    assert_eq!(0, not_trace_domain_element(EXT_LOOKUP_TABLE_START));
    assert_eq!(0, not_trace_domain_element(EXT_U32_TABLE_START));
}

#[test]
fn low_degree_extension_evaluates_the_interpolants() {
    let mut table = small_base_table();
    for row in 0..8 {
        for col in 0..4 {
            table.set_trace_entry(row, col, (row * 7 + col + 1) as u64);
        }
    }
    table.randomize_trace();
    table.low_degree_extend_all_columns();

    // The evaluation domain is the FRI domain, the larger of the two.
    let fri_domain = ArithmeticDomain::of_length(64).with_offset(FIELD_GENERATOR);
    let polys = table.interpolation_polynomials.clone().unwrap();
    for &col in &[0usize, 3, 100] {
        let base_poly: Vec<u64> = polys[col].iter().map(|x| x.0).collect();
        let codeword = fri_domain.evaluate(&base_poly);
        for row in 0..64 {
            assert_eq!(codeword[row], table.fri_domain_table_row(row)[col]);
        }
    }

    // The quotient-domain view subsamples the FRI-domain view by factor 2.
    for row in 0..32 {
        let fri_row = table.fri_domain_table_row(2 * row);
        for col in 0..NUM_BASE_COLUMNS {
            assert_eq!(fri_row[col], table.quotient_domain_table_entry(row, col));
        }
    }
}

#[test]
fn trace_randomization_leaves_the_trace_rows_alone() {
    let mut table = small_base_table();
    for row in 0..8 {
        table.set_trace_entry(row, 17, (1000 + row) as u64);
    }
    let before: Vec<Vec<u64>> = (0..NUM_BASE_COLUMNS)
        .map(|c| (0..8).map(|r| table.trace_entry(r, c)).collect())
        .collect();
    table.randomize_trace();
    let after: Vec<Vec<u64>> = (0..NUM_BASE_COLUMNS)
        .map(|c| (0..8).map(|r| table.trace_entry(r, c)).collect())
        .collect();
    assert_eq!(before, after);
    assert_eq!(1007, table.trace_entry(7, 17));
}

#[test]
fn randomized_trace_len_rounds_up_to_a_power_of_two() {
    assert_eq!(16, randomized_padded_trace_len(8, 4));
    assert_eq!(8, randomized_padded_trace_len(8, 0));
    assert_eq!(256, randomized_padded_trace_len(128, 100));
}

#[test]
fn table_lengths_follow_the_padding_rules() {
    let table = small_base_table();
    // processor and jump stack share the main execution length; the lookup
    // table is always padded to its fixed full length
    assert_eq!(
        vec![2, 3, 2, 2, 3, 2, 2, LOOKUP_TABLE_PADDED_LENGTH, 2],
        table.all_table_lengths()
    );
}

#[test]
fn quotient_sections_are_consecutive() {
    let (init_end, cons_end, tran_end, term_end) = quotient_section_ends();
    assert_eq!(NUM_INITIAL_QUOTIENTS, init_end);
    assert_eq!(init_end + NUM_CONSISTENCY_QUOTIENTS, cons_end);
    assert_eq!(cons_end + NUM_TRANSITION_QUOTIENTS, tran_end);
    assert_eq!(tran_end + NUM_TERMINAL_QUOTIENTS, term_end);
    assert_eq!(num_quotients(), term_end);
}

#[test]
fn merkle_commitment_hashes_the_fri_domain_rows() {
    let mut table = small_base_table();
    for row in 0..8 {
        for col in 0..6 {
            table.set_trace_entry(row, col, (row * 31 + col) as u64);
        }
    }
    table.randomize_trace();
    table.low_degree_extend_all_columns();

    let tree = table.merkle_tree();
    let leafs: Vec<_> = (0..64)
        .map(|i| hash_varlen(&table.fri_domain_table_row(i)))
        .collect();
    let expected_tree = merkle_tree_from_digests(&leafs);
    assert_eq!(merkle_root(&expected_tree), merkle_root(&tree));
}

#[test]
fn extension_pipeline_interpolates_what_was_filled() {
    let mut base = small_base_table();
    base.randomize_trace();
    let mut ext = base.extend(2);
    for row in 0..8 {
        ext.set_trace_entry(row, 0, Xfe((row * row + 1) as u64, row as u64, 7));
    }
    ext.randomize_trace();
    ext.low_degree_extend_all_columns();

    // Evaluating the memoized interpolant of a column at a point of the
    // randomized trace domain recovers the physical matrix entry there.
    let rand_domain = ArithmeticDomain::of_length(16);
    let polys = ext.interpolation_polynomials.clone().unwrap();
    for i in 0..16u32 {
        let point = Xfe(rand_domain.domain_value(i), 0, 0);
        let evaluated = triton_vm::xfield::xfe_poly_evaluate(&polys[0], &point);
        assert_eq!(ext.randomized_trace_table[0][i as usize], evaluated);
    }

    // The out-of-domain row agrees with direct evaluation of the interpolants.
    let point = Xfe(12345, 678, 9);
    let ood_row = ext.row(point);
    assert_eq!(NUM_EXT_COLUMNS, ood_row.len());
    assert_eq!(
        triton_vm::xfield::xfe_poly_evaluate(&polys[3], &point),
        ood_row[3]
    );

    // There are exactly as many randomizer codewords as requested, each of
    // FRI-domain length.
    let randomizers = ext.fri_domain_randomizer_polynomials();
    assert_eq!(2, randomizers.len());
    assert_eq!(64, randomizers[0].len());
}

/// intended use: `cargo t print_all_table_widths -- --nocapture`
#[test]
fn print_all_table_widths() {
    println!();
    println!("| table name         | #base cols | #ext cols | full width |");
    println!("|:-------------------|-----------:|----------:|-----------:|");
    println!(
        "| {:<18} | {:>10} | {:>9} | {:>10} |",
        "ProgramTable",
        PROGRAM_TABLE_BASE_WIDTH,
        PROGRAM_TABLE_EXT_WIDTH,
        PROGRAM_TABLE_BASE_WIDTH + PROGRAM_TABLE_EXT_WIDTH
    );
    println!(
        "| {:<18} | {:>10} | {:>9} | {:>10} |",
        "ProcessorTable",
        PROCESSOR_TABLE_BASE_WIDTH,
        PROCESSOR_TABLE_EXT_WIDTH,
        PROCESSOR_TABLE_BASE_WIDTH + PROCESSOR_TABLE_EXT_WIDTH
    );
    println!(
        "| {:<18} | {:>10} | {:>9} | {:>10} |",
        "OpStackTable",
        OP_STACK_TABLE_BASE_WIDTH,
        OP_STACK_TABLE_EXT_WIDTH,
        OP_STACK_TABLE_BASE_WIDTH + OP_STACK_TABLE_EXT_WIDTH
    );
    println!(
        "| {:<18} | {:>10} | {:>9} | {:>10} |",
        "RamTable",
        RAM_TABLE_BASE_WIDTH,
        RAM_TABLE_EXT_WIDTH,
        RAM_TABLE_BASE_WIDTH + RAM_TABLE_EXT_WIDTH
    );
    println!(
        "| {:<18} | {:>10} | {:>9} | {:>10} |",
        "JumpStackTable",
        JUMP_STACK_TABLE_BASE_WIDTH,
        JUMP_STACK_TABLE_EXT_WIDTH,
        JUMP_STACK_TABLE_BASE_WIDTH + JUMP_STACK_TABLE_EXT_WIDTH
    );
    println!(
        "| {:<18} | {:>10} | {:>9} | {:>10} |",
        "HashTable",
        HASH_TABLE_BASE_WIDTH,
        HASH_TABLE_EXT_WIDTH,
        HASH_TABLE_BASE_WIDTH + HASH_TABLE_EXT_WIDTH
    );
    println!(
        "| {:<18} | {:>10} | {:>9} | {:>10} |",
        "CascadeTable",
        CASCADE_TABLE_BASE_WIDTH,
        CASCADE_TABLE_EXT_WIDTH,
        CASCADE_TABLE_BASE_WIDTH + CASCADE_TABLE_EXT_WIDTH
    );
    println!(
        "| {:<18} | {:>10} | {:>9} | {:>10} |",
        "LookupTable",
        LOOKUP_TABLE_BASE_WIDTH,
        LOOKUP_TABLE_EXT_WIDTH,
        LOOKUP_TABLE_BASE_WIDTH + LOOKUP_TABLE_EXT_WIDTH
    );
    println!(
        "| {:<18} | {:>10} | {:>9} | {:>10} |",
        "U32Table",
        U32_TABLE_BASE_WIDTH,
        U32_TABLE_EXT_WIDTH,
        U32_TABLE_BASE_WIDTH + U32_TABLE_EXT_WIDTH
    );
    println!(
        "| {:<18} | {:>10} | {:>9} | {:>10} |",
        "DegreeLowering",
        DEGREE_LOWERING_TABLE_BASE_WIDTH,
        DEGREE_LOWERING_TABLE_EXT_WIDTH,
        DEGREE_LOWERING_TABLE_BASE_WIDTH + DEGREE_LOWERING_TABLE_EXT_WIDTH,
    );
    println!("|                    |            |           |            |");
    println!(
        "| Sum                | {NUM_BASE_COLUMNS:>10} \
         | {NUM_EXT_COLUMNS:>9} | {:>10} |",
        NUM_BASE_COLUMNS + NUM_EXT_COLUMNS,
    );
}
