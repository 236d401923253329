//! The master tables: one column-major matrix of base-field entries shared
//! by the ten sub-tables through fixed, contiguous column ranges, and its
//! extension-field counterpart. The lifecycle runs fill, pad, trace
//! randomization, low-degree extension and Merkle commitment; the four
//! quotient zerofier-inverse codewords over the quotient domain are computed
//! here as well.

use vstd::prelude::*;

verus! {

use crate::arithmetic_domain::ArithmeticDomain;
use crate::arithmetic_domain::lemma_mmul_assoc;
use crate::arithmetic_domain::lemma_mmul_comm;
use crate::arithmetic_domain::lemma_mpow_adds;
use crate::arithmetic_domain::lemma_mpow_injective;
use crate::arithmetic_domain::lemma_mpow_multiplies;
use crate::arithmetic_domain::lemma_reduced;
use crate::bfield::MODULUS;
use crate::bfield::all_b_valid;
use crate::bfield::b_valid;
use crate::bfield::bfe_batch_inverse;
use crate::bfield::bfe_inverse;
use crate::bfield::bfe_mod_pow;
use crate::bfield::bfe_mul;
use crate::bfield::bfe_sub;
use crate::bfield::mmul;
use crate::bfield::mpow;
use crate::bfield::msub;
use crate::bfield::bfe_random;
use crate::bfield::poly_eval;
use crate::merkle::merkle_leafs_of;
use crate::merkle::merkle_root_of;
use crate::merkle::merkle_tree_from_digests;
use crate::tip5::Digest;
use crate::tip5::all_digests_valid;
use crate::tip5::digest_seq;
use crate::tip5::digest_valid;
use crate::tip5::hash_varlen;
use crate::tip5::tip5_hash_of;
use crate::xfield::Xfe;
use crate::xfield::all_x_valid;
use crate::xfield::x_model;
use crate::xfield::x_valid;
use crate::xfield::xc0;
use crate::xfield::xfe_lift;
use crate::xfield::xfe_random;
use crate::xfield::xfe_poly_evaluate;
use crate::xfield::xpoly_eval;
use twenty_first::prelude::MerkleTree;
use vstd::arithmetic::power::pow;
use vstd::arithmetic::power::lemma_pow_increases;
use vstd::arithmetic::power2::is_pow2;
use vstd::arithmetic::power2::is_pow2_equiv;
use vstd::arithmetic::power2::lemma2_to64;
use vstd::arithmetic::power2::pow2;

/// The number of base columns each sub-table publishes.
pub const PROGRAM_TABLE_BASE_WIDTH: usize = 4;

pub const PROCESSOR_TABLE_BASE_WIDTH: usize = 42;

pub const OP_STACK_TABLE_BASE_WIDTH: usize = 4;

pub const RAM_TABLE_BASE_WIDTH: usize = 7;

pub const JUMP_STACK_TABLE_BASE_WIDTH: usize = 5;

pub const HASH_TABLE_BASE_WIDTH: usize = 50;

pub const CASCADE_TABLE_BASE_WIDTH: usize = 6;

pub const LOOKUP_TABLE_BASE_WIDTH: usize = 4;

pub const U32_TABLE_BASE_WIDTH: usize = 10;

pub const DEGREE_LOWERING_TABLE_BASE_WIDTH: usize = 48;

/// The number of extension columns each sub-table publishes.
pub const PROGRAM_TABLE_EXT_WIDTH: usize = 1;

pub const PROCESSOR_TABLE_EXT_WIDTH: usize = 11;

pub const OP_STACK_TABLE_EXT_WIDTH: usize = 2;

pub const RAM_TABLE_EXT_WIDTH: usize = 6;

pub const JUMP_STACK_TABLE_EXT_WIDTH: usize = 2;

pub const HASH_TABLE_EXT_WIDTH: usize = 3;

pub const CASCADE_TABLE_EXT_WIDTH: usize = 2;

pub const LOOKUP_TABLE_EXT_WIDTH: usize = 2;

pub const U32_TABLE_EXT_WIDTH: usize = 1;

pub const DEGREE_LOWERING_TABLE_EXT_WIDTH: usize = 18;

/// The total number of base columns across all tables.
pub const NUM_BASE_COLUMNS: usize = PROGRAM_TABLE_BASE_WIDTH + PROCESSOR_TABLE_BASE_WIDTH
    + OP_STACK_TABLE_BASE_WIDTH + RAM_TABLE_BASE_WIDTH + JUMP_STACK_TABLE_BASE_WIDTH
    + HASH_TABLE_BASE_WIDTH + CASCADE_TABLE_BASE_WIDTH + LOOKUP_TABLE_BASE_WIDTH
    + U32_TABLE_BASE_WIDTH + DEGREE_LOWERING_TABLE_BASE_WIDTH;

/// The total number of extension columns across all tables.
pub const NUM_EXT_COLUMNS: usize = PROGRAM_TABLE_EXT_WIDTH + PROCESSOR_TABLE_EXT_WIDTH
    + OP_STACK_TABLE_EXT_WIDTH + RAM_TABLE_EXT_WIDTH + JUMP_STACK_TABLE_EXT_WIDTH
    + HASH_TABLE_EXT_WIDTH + CASCADE_TABLE_EXT_WIDTH + LOOKUP_TABLE_EXT_WIDTH
    + U32_TABLE_EXT_WIDTH + DEGREE_LOWERING_TABLE_EXT_WIDTH;

/// The total number of columns across all tables.
pub const NUM_COLUMNS: usize = NUM_BASE_COLUMNS + NUM_EXT_COLUMNS;

pub const PROGRAM_TABLE_START: usize = 0;

pub const PROGRAM_TABLE_END: usize = PROGRAM_TABLE_START + PROGRAM_TABLE_BASE_WIDTH;

pub const PROCESSOR_TABLE_START: usize = PROGRAM_TABLE_END;

pub const PROCESSOR_TABLE_END: usize = PROCESSOR_TABLE_START + PROCESSOR_TABLE_BASE_WIDTH;

pub const OP_STACK_TABLE_START: usize = PROCESSOR_TABLE_END;

pub const OP_STACK_TABLE_END: usize = OP_STACK_TABLE_START + OP_STACK_TABLE_BASE_WIDTH;

pub const RAM_TABLE_START: usize = OP_STACK_TABLE_END;

pub const RAM_TABLE_END: usize = RAM_TABLE_START + RAM_TABLE_BASE_WIDTH;

pub const JUMP_STACK_TABLE_START: usize = RAM_TABLE_END;

pub const JUMP_STACK_TABLE_END: usize = JUMP_STACK_TABLE_START + JUMP_STACK_TABLE_BASE_WIDTH;

pub const HASH_TABLE_START: usize = JUMP_STACK_TABLE_END;

pub const HASH_TABLE_END: usize = HASH_TABLE_START + HASH_TABLE_BASE_WIDTH;

pub const CASCADE_TABLE_START: usize = HASH_TABLE_END;

pub const CASCADE_TABLE_END: usize = CASCADE_TABLE_START + CASCADE_TABLE_BASE_WIDTH;

pub const LOOKUP_TABLE_START: usize = CASCADE_TABLE_END;

pub const LOOKUP_TABLE_END: usize = LOOKUP_TABLE_START + LOOKUP_TABLE_BASE_WIDTH;

pub const U32_TABLE_START: usize = LOOKUP_TABLE_END;

pub const U32_TABLE_END: usize = U32_TABLE_START + U32_TABLE_BASE_WIDTH;

pub const DEGREE_LOWERING_TABLE_START: usize = U32_TABLE_END;

pub const DEGREE_LOWERING_TABLE_END: usize = DEGREE_LOWERING_TABLE_START
    + DEGREE_LOWERING_TABLE_BASE_WIDTH;

pub const EXT_PROGRAM_TABLE_START: usize = 0;

pub const EXT_PROGRAM_TABLE_END: usize = EXT_PROGRAM_TABLE_START + PROGRAM_TABLE_EXT_WIDTH;

pub const EXT_PROCESSOR_TABLE_START: usize = EXT_PROGRAM_TABLE_END;

pub const EXT_PROCESSOR_TABLE_END: usize = EXT_PROCESSOR_TABLE_START + PROCESSOR_TABLE_EXT_WIDTH;

pub const EXT_OP_STACK_TABLE_START: usize = EXT_PROCESSOR_TABLE_END;

pub const EXT_OP_STACK_TABLE_END: usize = EXT_OP_STACK_TABLE_START + OP_STACK_TABLE_EXT_WIDTH;

pub const EXT_RAM_TABLE_START: usize = EXT_OP_STACK_TABLE_END;

pub const EXT_RAM_TABLE_END: usize = EXT_RAM_TABLE_START + RAM_TABLE_EXT_WIDTH;

pub const EXT_JUMP_STACK_TABLE_START: usize = EXT_RAM_TABLE_END;

pub const EXT_JUMP_STACK_TABLE_END: usize = EXT_JUMP_STACK_TABLE_START
    + JUMP_STACK_TABLE_EXT_WIDTH;

pub const EXT_HASH_TABLE_START: usize = EXT_JUMP_STACK_TABLE_END;

pub const EXT_HASH_TABLE_END: usize = EXT_HASH_TABLE_START + HASH_TABLE_EXT_WIDTH;

pub const EXT_CASCADE_TABLE_START: usize = EXT_HASH_TABLE_END;

pub const EXT_CASCADE_TABLE_END: usize = EXT_CASCADE_TABLE_START + CASCADE_TABLE_EXT_WIDTH;

pub const EXT_LOOKUP_TABLE_START: usize = EXT_CASCADE_TABLE_END;

pub const EXT_LOOKUP_TABLE_END: usize = EXT_LOOKUP_TABLE_START + LOOKUP_TABLE_EXT_WIDTH;

pub const EXT_U32_TABLE_START: usize = EXT_LOOKUP_TABLE_END;

pub const EXT_U32_TABLE_END: usize = EXT_U32_TABLE_START + U32_TABLE_EXT_WIDTH;

pub const EXT_DEGREE_LOWERING_TABLE_START: usize = EXT_U32_TABLE_END;

pub const EXT_DEGREE_LOWERING_TABLE_END: usize = EXT_DEGREE_LOWERING_TABLE_START
    + DEGREE_LOWERING_TABLE_EXT_WIDTH;

/// The length every lookup table is padded to.
pub const LOOKUP_TABLE_PADDED_LENGTH: usize = 256;

/// The number of quotients of each category, as published by the AIR
/// collaborators: initial, consistency, transition and terminal.
pub const NUM_INITIAL_QUOTIENTS: usize = 81;

pub const NUM_CONSISTENCY_QUOTIENTS: usize = 94;

pub const NUM_TRANSITION_QUOTIENTS: usize = 387;

pub const NUM_TERMINAL_QUOTIENTS: usize = 23;

/// One of the ten sub-tables of a master table.
#[derive(Debug, Copy, Clone, PartialEq, Eq, Hash, Structural)]
pub enum TableId {
    ProgramTable,
    ProcessorTable,
    OpStackTable,
    RamTable,
    JumpStackTable,
    HashTable,
    CascadeTable,
    LookupTable,
    U32Table,
    DegreeLoweringTable,
}

/// The base-column range of a sub-table: start and width.
pub open spec fn spec_base_start(id: TableId) -> int {
    match id {
        TableId::ProgramTable => PROGRAM_TABLE_START as int,
        TableId::ProcessorTable => PROCESSOR_TABLE_START as int,
        TableId::OpStackTable => OP_STACK_TABLE_START as int,
        TableId::RamTable => RAM_TABLE_START as int,
        TableId::JumpStackTable => JUMP_STACK_TABLE_START as int,
        TableId::HashTable => HASH_TABLE_START as int,
        TableId::CascadeTable => CASCADE_TABLE_START as int,
        TableId::LookupTable => LOOKUP_TABLE_START as int,
        TableId::U32Table => U32_TABLE_START as int,
        TableId::DegreeLoweringTable => DEGREE_LOWERING_TABLE_START as int,
    }
}

pub open spec fn spec_base_width(id: TableId) -> int {
    match id {
        TableId::ProgramTable => PROGRAM_TABLE_BASE_WIDTH as int,
        TableId::ProcessorTable => PROCESSOR_TABLE_BASE_WIDTH as int,
        TableId::OpStackTable => OP_STACK_TABLE_BASE_WIDTH as int,
        TableId::RamTable => RAM_TABLE_BASE_WIDTH as int,
        TableId::JumpStackTable => JUMP_STACK_TABLE_BASE_WIDTH as int,
        TableId::HashTable => HASH_TABLE_BASE_WIDTH as int,
        TableId::CascadeTable => CASCADE_TABLE_BASE_WIDTH as int,
        TableId::LookupTable => LOOKUP_TABLE_BASE_WIDTH as int,
        TableId::U32Table => U32_TABLE_BASE_WIDTH as int,
        TableId::DegreeLoweringTable => DEGREE_LOWERING_TABLE_BASE_WIDTH as int,
    }
}

/// The extension-column range of a sub-table: start and width.
pub open spec fn spec_ext_start(id: TableId) -> int {
    match id {
        TableId::ProgramTable => EXT_PROGRAM_TABLE_START as int,
        TableId::ProcessorTable => EXT_PROCESSOR_TABLE_START as int,
        TableId::OpStackTable => EXT_OP_STACK_TABLE_START as int,
        TableId::RamTable => EXT_RAM_TABLE_START as int,
        TableId::JumpStackTable => EXT_JUMP_STACK_TABLE_START as int,
        TableId::HashTable => EXT_HASH_TABLE_START as int,
        TableId::CascadeTable => EXT_CASCADE_TABLE_START as int,
        TableId::LookupTable => EXT_LOOKUP_TABLE_START as int,
        TableId::U32Table => EXT_U32_TABLE_START as int,
        TableId::DegreeLoweringTable => EXT_DEGREE_LOWERING_TABLE_START as int,
    }
}

pub open spec fn spec_ext_width(id: TableId) -> int {
    match id {
        TableId::ProgramTable => PROGRAM_TABLE_EXT_WIDTH as int,
        TableId::ProcessorTable => PROCESSOR_TABLE_EXT_WIDTH as int,
        TableId::OpStackTable => OP_STACK_TABLE_EXT_WIDTH as int,
        TableId::RamTable => RAM_TABLE_EXT_WIDTH as int,
        TableId::JumpStackTable => JUMP_STACK_TABLE_EXT_WIDTH as int,
        TableId::HashTable => HASH_TABLE_EXT_WIDTH as int,
        TableId::CascadeTable => CASCADE_TABLE_EXT_WIDTH as int,
        TableId::LookupTable => LOOKUP_TABLE_EXT_WIDTH as int,
        TableId::U32Table => U32_TABLE_EXT_WIDTH as int,
        TableId::DegreeLoweringTable => EXT_DEGREE_LOWERING_TABLE_END as int
            - EXT_DEGREE_LOWERING_TABLE_START as int,
    }
}

/// The ten base-column ranges are consecutive, each of its table's published
/// width, and together they cover the master base table's columns exactly;
/// likewise for the extension ranges.
pub proof fn lemma_column_ranges_partition()
    ensures
        PROGRAM_TABLE_START == 0,
        PROGRAM_TABLE_END == PROCESSOR_TABLE_START,
        PROCESSOR_TABLE_END == OP_STACK_TABLE_START,
        OP_STACK_TABLE_END == RAM_TABLE_START,
        RAM_TABLE_END == JUMP_STACK_TABLE_START,
        JUMP_STACK_TABLE_END == HASH_TABLE_START,
        HASH_TABLE_END == CASCADE_TABLE_START,
        CASCADE_TABLE_END == LOOKUP_TABLE_START,
        LOOKUP_TABLE_END == U32_TABLE_START,
        U32_TABLE_END == DEGREE_LOWERING_TABLE_START,
        DEGREE_LOWERING_TABLE_END == NUM_BASE_COLUMNS,
        forall|id: TableId| #[trigger] spec_base_width(id) > 0,
        forall|id: TableId|
            spec_base_start(id) + #[trigger] spec_base_width(id) <= NUM_BASE_COLUMNS,
        EXT_PROGRAM_TABLE_START == 0,
        EXT_PROGRAM_TABLE_END == EXT_PROCESSOR_TABLE_START,
        EXT_PROCESSOR_TABLE_END == EXT_OP_STACK_TABLE_START,
        EXT_OP_STACK_TABLE_END == EXT_RAM_TABLE_START,
        EXT_RAM_TABLE_END == EXT_JUMP_STACK_TABLE_START,
        EXT_JUMP_STACK_TABLE_END == EXT_HASH_TABLE_START,
        EXT_HASH_TABLE_END == EXT_CASCADE_TABLE_START,
        EXT_CASCADE_TABLE_END == EXT_LOOKUP_TABLE_START,
        EXT_LOOKUP_TABLE_END == EXT_U32_TABLE_START,
        EXT_U32_TABLE_END == EXT_DEGREE_LOWERING_TABLE_START,
        EXT_DEGREE_LOWERING_TABLE_END == NUM_EXT_COLUMNS,
        forall|id: TableId| #[trigger] spec_ext_width(id) > 0,
        forall|id: TableId| spec_ext_start(id) + #[trigger] spec_ext_width(id) <= NUM_EXT_COLUMNS,
{
}

/// A power of two strictly below 2^32 is at most 2^31.
proof fn lemma_pow2_cap(r: int)
    requires
        is_pow2(r),
        r < 0x1_0000_0000,
    ensures
        r <= 0x8000_0000,
{
    is_pow2_equiv(r);
    let i = choose|i: nat| pow(2, i) == r;
    lemma2_to64();
    vstd::arithmetic::power2::lemma2_to64_rest();
    vstd::arithmetic::power2::lemma_pow2(i);
    if i >= 32 {
        lemma_pow_increases(2, 32, i);
        vstd::arithmetic::power2::lemma_pow2(32);
        assert(false);
    } else {
        lemma_pow_increases(2, i, 31);
        vstd::arithmetic::power2::lemma_pow2(31);
    }
}

/// The padded trace, blown up to hold the trace randomizers, rounded to the
/// next power of two.
pub fn randomized_padded_trace_len(padded_height: usize, num_trace_randomizers: usize) -> (r:
    usize)
    requires
        padded_height >= 1,
        padded_height + num_trace_randomizers <= 0x8000_0000,
    ensures
        is_pow2(r as int),
        padded_height + num_trace_randomizers <= r <= 0x8000_0000,
        r < 2 * (padded_height + num_trace_randomizers),
{
    let total: u64 = padded_height as u64 + num_trace_randomizers as u64;
    let mut r: u64 = 1;
    proof {
        reveal(is_pow2);
    }
    while r < total
        invariant
            1 <= r,
            total <= 0x8000_0000u64,
            is_pow2(r as int),
            r < 2 * total,
        decreases 2 * total - r,
    {
        r = r * 2;
        proof {
            reveal(is_pow2);
            assert(r as int > 1 && r as int % 2 == 0 && (r as int) / 2 == (r / 2) as int);
            assert(is_pow2(r as int));
        }
    }
    proof {
        lemma_pow2_cap(r as int);
    }
    r as usize
}

/// The degree of the interpolants of the randomized trace columns: one less
/// than the randomized trace length.
pub fn interpolant_degree(padded_height: usize, num_trace_randomizers: usize) -> (r: u64)
    requires
        padded_height >= 1,
        padded_height + num_trace_randomizers <= 0x8000_0000,
    ensures
        exists|n: int|
            #![auto]
            is_pow2(n) && padded_height + num_trace_randomizers <= n < 2 * (padded_height
                + num_trace_randomizers) && n <= 0x8000_0000 && r == n - 1,
{
    let n = randomized_padded_trace_len(padded_height, num_trace_randomizers);
    (n - 1) as u64
}

/// The total number of quotients, over all four categories.
pub fn num_quotients() -> (r: usize)
    ensures
        r == NUM_INITIAL_QUOTIENTS + NUM_CONSISTENCY_QUOTIENTS + NUM_TRANSITION_QUOTIENTS
            + NUM_TERMINAL_QUOTIENTS,
{
    NUM_INITIAL_QUOTIENTS + NUM_CONSISTENCY_QUOTIENTS + NUM_TRANSITION_QUOTIENTS
        + NUM_TERMINAL_QUOTIENTS
}

/// Where the four categories' columns end in the quotient table: initial,
/// consistency, transition and terminal sections, in that order.
pub fn quotient_section_ends() -> (r: (usize, usize, usize, usize))
    ensures
        r.0 == NUM_INITIAL_QUOTIENTS,
        r.1 == r.0 + NUM_CONSISTENCY_QUOTIENTS,
        r.2 == r.1 + NUM_TRANSITION_QUOTIENTS,
        r.3 == r.2 + NUM_TERMINAL_QUOTIENTS,
{
    let init_section_end = NUM_INITIAL_QUOTIENTS;
    let cons_section_end = init_section_end + NUM_CONSISTENCY_QUOTIENTS;
    let tran_section_end = cons_section_end + NUM_TRANSITION_QUOTIENTS;
    let term_section_end = tran_section_end + NUM_TERMINAL_QUOTIENTS;
    (init_section_end, cons_section_end, tran_section_end, term_section_end)
}

/// Two canonical field elements differ exactly when their difference is
/// non-zero in the field.
pub proof fn lemma_msub_zero_iff(a: int, b: int)
    requires
        0 <= a < MODULUS,
        0 <= b < MODULUS,
    ensures
        msub(a, b) == 0 <==> a == b,
{
    if a >= b {
        lemma_reduced(a - b);
    } else {
        vstd::arithmetic::div_mod::lemma_mod_sub_multiples_vanish(a - b, MODULUS as int);
        lemma_reduced(a - b + MODULUS);
    }
}


/// Inverses in the field are unique: two left-inverses of the same element
/// coincide.
proof fn lemma_inverse_unique(a: int, x: int, y: int)
    requires
        0 <= a < MODULUS,
        0 <= x < MODULUS,
        0 <= y < MODULUS,
        mmul(x, a) == 1,
        mmul(y, a) == 1,
    ensures
        x == y,
{
    lemma_mmul_assoc(x, a, y);
    lemma_mmul_comm(a, y);
    lemma_mmul_assoc(x, y, a);
    lemma_mmul_comm(x, y);
    lemma_mmul_assoc(y, x, a);
    lemma_reduced(x);
    lemma_reduced(y);
    assert(mmul(x, 1) == x) by {
        lemma_mmul_comm(x, 1);
        lemma_reduced(x);
    }
    assert(mmul(y, 1) == y) by {
        lemma_mmul_comm(y, 1);
        lemma_reduced(y);
    }
}

/// On a domain with unit offset, the i-th element is the i-th power of the
/// generator.
proof fn lemma_unit_offset_value(d: ArithmeticDomain, i: nat)
    requires
        d.wf(),
        d.offset == 1,
    ensures
        d.value_at(i) == mpow(d.generator as int, i),
        0 <= d.value_at(i) < MODULUS,
{
    let g = d.generator as int;
    vstd::arithmetic::div_mod::lemma_mod_bound(pow(g, i), MODULUS as int);
    lemma_reduced(mpow(g, i));
    assert(mmul(1, mpow(g, i)) == mpow(g, i));
}

/// The initial zerofier, x - 1, vanishes exactly at the first element of
/// the trace domain.
pub proof fn lemma_initial_zerofier(trace_domain: ArithmeticDomain, x: int)
    requires
        trace_domain.wf(),
        trace_domain.offset == 1,
        0 <= x < MODULUS,
    ensures
        trace_domain.value_at(0) == 1,
        msub(x, 1) == 0 <==> x == trace_domain.value_at(0),
{
    vstd::arithmetic::power::lemma_pow0(trace_domain.generator as int);
    lemma_reduced(1);
    lemma_unit_offset_value(trace_domain, 0);
    lemma_msub_zero_iff(x, 1);
}

/// The consistency zerofier, x^T - 1, vanishes on the whole trace subgroup.
pub proof fn lemma_consistency_zerofier_vanishes(trace_domain: ArithmeticDomain, i: nat)
    requires
        trace_domain.wf(),
        trace_domain.offset == 1,
        i < trace_domain.length,
    ensures
        msub(mpow(trace_domain.value_at(i), trace_domain.length as nat), 1) == 0,
{
    let g = trace_domain.generator as int;
    let t = trace_domain.length as nat;
    lemma_unit_offset_value(trace_domain, i);
    lemma_mpow_multiplies(g, i, t);
    lemma_mpow_multiplies(g, t, i);
    assert(i * t == t * i) by {
        vstd::arithmetic::mul::lemma_mul_is_commutative(i as int, t as int);
    }
    assert(mpow(mpow(g, i), t) == mpow(mpow(g, t), i));
    assert(mpow(1, i) == 1) by {
        vstd::arithmetic::power::lemma1_pow(i);
        lemma_reduced(1);
    }
    lemma_reduced(0);
}

/// The transition zerofier, (x^T - 1) / (x - g^(T-1)), vanishes at every
/// trace-subgroup element except the last: up to the last, the subgroup
/// zerofier vanishes while the cancelled terminal factor does not; at the
/// last, the terminal factor itself vanishes.
pub proof fn lemma_transition_zerofier(trace_domain: ArithmeticDomain, i: nat)
    requires
        trace_domain.wf(),
        trace_domain.offset == 1,
        i < trace_domain.length,
    ensures
        i < trace_domain.length - 1 ==> msub(
            mpow(trace_domain.value_at(i), trace_domain.length as nat),
            1,
        ) == 0 && msub(
            trace_domain.value_at(i),
            mpow(trace_domain.generator as int, (trace_domain.length - 1) as nat),
        ) != 0,
        i == trace_domain.length - 1 ==> msub(
            trace_domain.value_at(i),
            mpow(trace_domain.generator as int, (trace_domain.length - 1) as nat),
        ) == 0,
{
    let g = trace_domain.generator as int;
    let t = trace_domain.length as nat;
    lemma_consistency_zerofier_vanishes(trace_domain, i);
    lemma_unit_offset_value(trace_domain, i);
    vstd::arithmetic::div_mod::lemma_mod_bound(pow(g, (t - 1) as int as nat), MODULUS as int);
    if i < t - 1 {
        lemma_mpow_injective(g, t, i, (t - 1) as nat);
        lemma_msub_zero_iff(mpow(g, i), mpow(g, (t - 1) as nat));
    } else {
        lemma_msub_zero_iff(mpow(g, i), mpow(g, (t - 1) as nat));
    }
}

/// The terminal zerofier, x - g^(T-1), vanishes exactly at the last element
/// of the trace domain; that element is the inverse of the generator.
pub proof fn lemma_terminal_zerofier(trace_domain: ArithmeticDomain, x: int)
    requires
        trace_domain.wf(),
        trace_domain.offset == 1,
        0 <= x < MODULUS,
    ensures
        trace_domain.value_at((trace_domain.length - 1) as nat) == mpow(
            trace_domain.generator as int,
            (trace_domain.length - 1) as nat,
        ),
        mmul(
            mpow(trace_domain.generator as int, (trace_domain.length - 1) as nat),
            trace_domain.generator as int,
        ) == 1,
        msub(x, mpow(trace_domain.generator as int, (trace_domain.length - 1) as nat)) == 0 <==> x
            == trace_domain.value_at((trace_domain.length - 1) as nat),
{
    let g = trace_domain.generator as int;
    let t = trace_domain.length as nat;
    lemma_unit_offset_value(trace_domain, (t - 1) as nat);
    lemma_mpow_adds(g, (t - 1) as nat, 1);
    assert(mpow(g, 1) == g) by {
        vstd::arithmetic::power::lemma_pow1(g);
        lemma_reduced(g as int);
    }
    vstd::arithmetic::div_mod::lemma_mod_bound(pow(g, (t - 1) as int as nat), MODULUS as int);
    lemma_msub_zero_iff(x, mpow(g, (t - 1) as nat));
}

/// The inverse of the initial zerofier, 1 / (x - 1), as a codeword over the
/// quotient domain. Requires the quotient domain to avoid the zerofier's
/// root, as it does whenever its offset places it off the trace subgroup.
pub fn initial_quotient_zerofier_inverse(quotient_domain: ArithmeticDomain) -> (r: Vec<u64>)
    requires
        quotient_domain.wf(),
        forall|i: int|
            0 <= i < quotient_domain.length ==> #[trigger] quotient_domain.value_at(i as nat) != 1,
    ensures
        r@.len() == quotient_domain.length,
        all_b_valid(r@),
        forall|i: int|
            0 <= i < r@.len() ==> mmul(
                #[trigger] r@[i] as int,
                msub(quotient_domain.value_at(i as nat), 1),
            ) == 1,
{
    let values = quotient_domain.domain_values();
    let mut w: Vec<u64> = Vec::new();
    let mut i: usize = 0;
    while i < values.len()
        invariant
            quotient_domain.wf(),
            forall|t: int|
                0 <= t < quotient_domain.length ==> #[trigger] quotient_domain.value_at(t as nat) != 1,
            values@.len() == quotient_domain.length,
            all_b_valid(values@),
            forall|t: int|
                0 <= t < values@.len() ==> #[trigger] values@[t] == quotient_domain.value_at(
                    t as nat,
                ),
            i <= values@.len(),
            w@.len() == i,
            all_b_valid(w@),
            forall|t: int|
                0 <= t < i ==> #[trigger] w@[t] as int == msub(
                    quotient_domain.value_at(t as nat),
                    1,
                ) && w@[t] != 0,
        decreases values@.len() - i,
    {
        let d = bfe_sub(values[i], 1);
        proof {
            lemma_msub_zero_iff(values@[i as int] as int, 1);
        }
        w.push(d);
        i = i + 1;
    }
    bfe_batch_inverse(&w)
}

/// The inverse of the consistency zerofier, 1 / (x^T - 1), as a codeword
/// over the quotient domain.
pub fn consistency_quotient_zerofier_inverse(
    trace_domain: ArithmeticDomain,
    quotient_domain: ArithmeticDomain,
) -> (r: Vec<u64>)
    requires
        trace_domain.wf(),
        quotient_domain.wf(),
        forall|i: int|
            0 <= i < quotient_domain.length ==> #[trigger] mpow(
                quotient_domain.value_at(i as nat),
                trace_domain.length as nat,
            ) != 1,
    ensures
        r@.len() == quotient_domain.length,
        all_b_valid(r@),
        forall|i: int|
            0 <= i < r@.len() ==> mmul(
                #[trigger] r@[i] as int,
                msub(mpow(quotient_domain.value_at(i as nat), trace_domain.length as nat), 1),
            ) == 1,
{
    let values = quotient_domain.domain_values();
    let mut w: Vec<u64> = Vec::new();
    let mut i: usize = 0;
    while i < values.len()
        invariant
            trace_domain.wf(),
            quotient_domain.wf(),
            forall|t: int|
                0 <= t < quotient_domain.length ==> #[trigger] mpow(
                    quotient_domain.value_at(t as nat),
                    trace_domain.length as nat,
                ) != 1,
            values@.len() == quotient_domain.length,
            all_b_valid(values@),
            forall|t: int|
                0 <= t < values@.len() ==> #[trigger] values@[t] == quotient_domain.value_at(
                    t as nat,
                ),
            i <= values@.len(),
            w@.len() == i,
            all_b_valid(w@),
            forall|t: int|
                0 <= t < i ==> #[trigger] w@[t] as int == msub(
                    mpow(quotient_domain.value_at(t as nat), trace_domain.length as nat),
                    1,
                ) && w@[t] != 0,
        decreases values@.len() - i,
    {
        let p = bfe_mod_pow(values[i], trace_domain.length as u64);
        let d = bfe_sub(p, 1);
        proof {
            lemma_msub_zero_iff(p as int, 1);
        }
        w.push(d);
        i = i + 1;
    }
    bfe_batch_inverse(&w)
}

/// The inverse of the transition zerofier, (x - g^(T-1)) / (x^T - 1), as a
/// codeword over the quotient domain: the subgroup zerofier inverted, times
/// the terminal factor it cancels.
pub fn transition_quotient_zerofier_inverse(
    trace_domain: ArithmeticDomain,
    quotient_domain: ArithmeticDomain,
) -> (r: Vec<u64>)
    requires
        trace_domain.wf(),
        quotient_domain.wf(),
        forall|i: int|
            0 <= i < quotient_domain.length ==> #[trigger] mpow(
                quotient_domain.value_at(i as nat),
                trace_domain.length as nat,
            ) != 1,
    ensures
        r@.len() == quotient_domain.length,
        all_b_valid(r@),
        forall|i: int|
            0 <= i < r@.len() ==> mmul(
                #[trigger] r@[i] as int,
                msub(mpow(quotient_domain.value_at(i as nat), trace_domain.length as nat), 1),
            ) == msub(
                quotient_domain.value_at(i as nat),
                mpow(trace_domain.generator as int, (trace_domain.length - 1) as nat),
            ),
{
    let values = quotient_domain.domain_values();
    let subgroup_zerofier_inverse = consistency_quotient_zerofier_inverse(
        trace_domain,
        quotient_domain,
    );
    let trace_domain_generator_inverse = bfe_inverse(trace_domain.generator);
    proof {
        let g = trace_domain.generator as int;
        let t = trace_domain.length as nat;
        lemma_mpow_adds(g, (t - 1) as nat, 1);
        assert(mpow(g, 1) == g) by {
            vstd::arithmetic::power::lemma_pow1(g);
            lemma_reduced(g as int);
        }
        vstd::arithmetic::div_mod::lemma_mod_bound(pow(g, (t - 1) as int as nat), MODULUS as int);
        lemma_inverse_unique(
            g,
            trace_domain_generator_inverse as int,
            mpow(g, (t - 1) as nat),
        );
    }
    let mut r: Vec<u64> = Vec::new();
    let mut i: usize = 0;
    while i < values.len()
        invariant
            trace_domain.wf(),
            quotient_domain.wf(),
            values@.len() == quotient_domain.length,
            all_b_valid(values@),
            forall|t: int|
                0 <= t < values@.len() ==> #[trigger] values@[t] == quotient_domain.value_at(
                    t as nat,
                ),
            subgroup_zerofier_inverse@.len() == quotient_domain.length,
            all_b_valid(subgroup_zerofier_inverse@),
            forall|t: int|
                0 <= t < subgroup_zerofier_inverse@.len() ==> mmul(
                    #[trigger] subgroup_zerofier_inverse@[t] as int,
                    msub(
                        mpow(quotient_domain.value_at(t as nat), trace_domain.length as nat),
                        1,
                    ),
                ) == 1,
            b_valid(trace_domain_generator_inverse),
            trace_domain_generator_inverse as int == mpow(
                trace_domain.generator as int,
                (trace_domain.length - 1) as nat,
            ),
            i <= values@.len(),
            r@.len() == i,
            all_b_valid(r@),
            forall|t: int|
                0 <= t < i ==> mmul(
                    #[trigger] r@[t] as int,
                    msub(
                        mpow(quotient_domain.value_at(t as nat), trace_domain.length as nat),
                        1,
                    ),
                ) == msub(
                    quotient_domain.value_at(t as nat),
                    mpow(trace_domain.generator as int, (trace_domain.length - 1) as nat),
                ),
        decreases values@.len() - i,
    {
        let d = bfe_sub(values[i], trace_domain_generator_inverse);
        let prod = bfe_mul(d, subgroup_zerofier_inverse[i]);
        r.push(prod);
        i = i + 1;
        proof {
            let t = (i - 1) as int;
            let z = msub(
                mpow(quotient_domain.value_at(t as nat), trace_domain.length as nat),
                1,
            );
            let sv = subgroup_zerofier_inverse@[t] as int;
            lemma_mmul_assoc(d as int, sv, z);
            assert(mmul(sv, z) == 1);
            assert(mmul(d as int, 1) == d as int) by {
                lemma_mmul_comm(d as int, 1);
                lemma_reduced(d as int);
            }
        }
    }
    r
}

/// The inverse of the terminal zerofier, 1 / (x - g^(T-1)), as a codeword
/// over the quotient domain.
pub fn terminal_quotient_zerofier_inverse(
    trace_domain: ArithmeticDomain,
    quotient_domain: ArithmeticDomain,
) -> (r: Vec<u64>)
    requires
        trace_domain.wf(),
        quotient_domain.wf(),
        forall|i: int|
            0 <= i < quotient_domain.length ==> #[trigger] quotient_domain.value_at(i as nat)
                != mpow(trace_domain.generator as int, (trace_domain.length - 1) as nat),
    ensures
        r@.len() == quotient_domain.length,
        all_b_valid(r@),
        forall|i: int|
            0 <= i < r@.len() ==> mmul(
                #[trigger] r@[i] as int,
                msub(
                    quotient_domain.value_at(i as nat),
                    mpow(trace_domain.generator as int, (trace_domain.length - 1) as nat),
                ),
            ) == 1,
{
    let values = quotient_domain.domain_values();
    let trace_domain_generator_inverse = bfe_inverse(trace_domain.generator);
    proof {
        let g = trace_domain.generator as int;
        let t = trace_domain.length as nat;
        lemma_mpow_adds(g, (t - 1) as nat, 1);
        assert(mpow(g, 1) == g) by {
            vstd::arithmetic::power::lemma_pow1(g);
            lemma_reduced(g as int);
        }
        vstd::arithmetic::div_mod::lemma_mod_bound(pow(g, (t - 1) as int as nat), MODULUS as int);
        lemma_inverse_unique(
            g,
            trace_domain_generator_inverse as int,
            mpow(g, (t - 1) as nat),
        );
    }
    let mut w: Vec<u64> = Vec::new();
    let mut i: usize = 0;
    while i < values.len()
        invariant
            trace_domain.wf(),
            quotient_domain.wf(),
            forall|t: int|
                0 <= t < quotient_domain.length ==> #[trigger] quotient_domain.value_at(t as nat)
                    != mpow(trace_domain.generator as int, (trace_domain.length - 1) as nat),
            values@.len() == quotient_domain.length,
            all_b_valid(values@),
            forall|t: int|
                0 <= t < values@.len() ==> #[trigger] values@[t] == quotient_domain.value_at(
                    t as nat,
                ),
            b_valid(trace_domain_generator_inverse),
            trace_domain_generator_inverse as int == mpow(
                trace_domain.generator as int,
                (trace_domain.length - 1) as nat,
            ),
            i <= values@.len(),
            w@.len() == i,
            all_b_valid(w@),
            forall|t: int|
                0 <= t < i ==> #[trigger] w@[t] as int == msub(
                    quotient_domain.value_at(t as nat),
                    mpow(trace_domain.generator as int, (trace_domain.length - 1) as nat),
                ) && w@[t] != 0,
        decreases values@.len() - i,
    {
        let d = bfe_sub(values[i], trace_domain_generator_inverse);
        proof {
            lemma_msub_zero_iff(
                values@[i as int] as int,
                trace_domain_generator_inverse as int,
            );
        }
        w.push(d);
        i = i + 1;
    }
    bfe_batch_inverse(&w)
}


/// An index-based view of one sub-table inside a master table: the column
/// range it owns and the row stride that projects the physical matrix onto
/// the trace domain. The view copies no data.
#[derive(Debug, Clone, Copy, PartialEq, Eq, Structural)]
pub struct TableView {
    pub col_start: usize,
    pub num_cols: usize,
    pub unit_distance: usize,
    pub num_rows: usize,
}

/// A column-major matrix holds `rows` canonical entries in every column.
pub open spec fn base_matrix_wf(m: Seq<Vec<u64>>, rows: int) -> bool {
    forall|c: int| 0 <= c < m.len() ==> (#[trigger] m[c])@.len() == rows && all_b_valid(m[c]@)
}

/// The common shape of a master table: the four domains and their mutual
/// divisibility, so that every coarser view is a row stride of a finer one.
pub open spec fn domains_wf(
    trace_domain: ArithmeticDomain,
    randomized_trace_domain: ArithmeticDomain,
    quotient_domain: ArithmeticDomain,
    fri_domain: ArithmeticDomain,
) -> bool {
    &&& trace_domain.wf()
    &&& randomized_trace_domain.wf()
    &&& quotient_domain.wf()
    &&& fri_domain.wf()
    &&& trace_domain.offset == 1
    &&& trace_domain.length <= randomized_trace_domain.length
    &&& randomized_trace_domain.length % trace_domain.length == 0
    &&& randomized_trace_domain.length <= quotient_domain.length
    &&& randomized_trace_domain.length <= fri_domain.length
    &&& (quotient_domain.length % fri_domain.length == 0 || fri_domain.length
        % quotient_domain.length == 0)
}

/// A master table, generic over nothing but its phase: the accessors common
/// to the base and the extension instance.
pub trait MasterTable {
    fn trace_domain(&self) -> ArithmeticDomain;

    fn randomized_trace_domain(&self) -> ArithmeticDomain;

    fn quotient_domain(&self) -> ArithmeticDomain;

    fn fri_domain(&self) -> ArithmeticDomain;
}

/// The master base table: the randomized-trace matrix of base-field
/// entries, filled from the execution trace, padded, trace-randomized,
/// low-degree extended and committed.
pub struct MasterBaseTable {
    pub num_trace_randomizers: usize,
    pub program_table_len: usize,
    pub main_execution_len: usize,
    pub op_stack_table_len: usize,
    pub ram_table_len: usize,
    pub hash_coprocessor_execution_len: usize,
    pub cascade_table_len: usize,
    pub u32_coprocesor_execution_len: usize,
    pub trace_domain: ArithmeticDomain,
    pub randomized_trace_domain: ArithmeticDomain,
    pub quotient_domain: ArithmeticDomain,
    pub fri_domain: ArithmeticDomain,
    pub randomized_trace_table: Vec<Vec<u64>>,
    pub low_degree_extended_table: Option<Vec<Vec<u64>>>,
    pub interpolation_polynomials: Option<Vec<Vec<Xfe>>>,
}

impl MasterTable for MasterBaseTable {
    fn trace_domain(&self) -> (r: ArithmeticDomain)
        ensures
            r == self.trace_domain,
    {
        self.trace_domain
    }

    fn randomized_trace_domain(&self) -> (r: ArithmeticDomain)
        ensures
            r == self.randomized_trace_domain,
    {
        self.randomized_trace_domain
    }

    fn quotient_domain(&self) -> (r: ArithmeticDomain)
        ensures
            r == self.quotient_domain,
    {
        self.quotient_domain
    }

    fn fri_domain(&self) -> (r: ArithmeticDomain)
        ensures
            r == self.fri_domain,
    {
        self.fri_domain
    }
}

impl MasterBaseTable {
    /// The domain the low-degree extension lives on: the larger of the FRI
    /// and quotient domains, the quotient domain on a tie.
    pub open spec fn spec_eval_domain(self) -> ArithmeticDomain {
        if self.fri_domain.length > self.quotient_domain.length {
            self.fri_domain
        } else {
            self.quotient_domain
        }
    }

    /// The entries of the physical matrix, by column and physical row.
    pub open spec fn matrix(self) -> Seq<Vec<u64>> {
        self.randomized_trace_table@
    }

    /// The low-degree extension has been computed.
    pub open spec fn is_low_degree_extended(self) -> bool {
        self.low_degree_extended_table is Some
    }

    /// After the extension: the memoized interpolants are the base-field
    /// polynomials of the randomized trace length, lifted, that take the
    /// trace matrix's values on the randomized trace domain, and the
    /// memoized codewords are exactly those interpolants evaluated over the
    /// evaluation domain, column by column.
    pub open spec fn post_lde_wf(self) -> bool {
        &&& self.low_degree_extended_table is Some
        &&& self.interpolation_polynomials is Some
        &&& {
            let lde = self.low_degree_extended_table.unwrap()@;
            let polys = self.interpolation_polynomials.unwrap()@;
            let ed = self.spec_eval_domain();
            &&& lde.len() == NUM_BASE_COLUMNS
            &&& polys.len() == NUM_BASE_COLUMNS
            &&& base_matrix_wf(lde, ed.length as int)
            &&& forall|c: int|
                0 <= c < polys.len() ==> (#[trigger] polys[c])@.len()
                    == self.randomized_trace_domain.length && all_x_valid(polys[c]@)
            &&& forall|c: int, j: int|
                0 <= c < polys.len() && 0 <= j < (#[trigger] polys[c])@.len() ==> (
                #[trigger] polys[c]@[j]).1 == 0 && polys[c]@[j].2 == 0
            &&& forall|c: int, i: int|
                0 <= c < NUM_BASE_COLUMNS && 0 <= i < self.randomized_trace_domain.length
                    ==> poly_eval(
                    xc0(polys[c]@),
                    self.randomized_trace_domain.value_at(i as nat),
                ) == (#[trigger] self.matrix()[c]@[i]) as int
            &&& forall|c: int, i: int|
                0 <= c < NUM_BASE_COLUMNS && 0 <= i < ed.length ==> (#[trigger] lde[c]@[i]) as int
                    == poly_eval(xc0(polys[c]@), ed.value_at(i as nat))
        }
    }

    /// The table's bookkeeping is sound in every phase.
    pub open spec fn wf(self) -> bool {
        &&& domains_wf(
            self.trace_domain,
            self.randomized_trace_domain,
            self.quotient_domain,
            self.fri_domain,
        )
        &&& self.matrix().len() == NUM_BASE_COLUMNS
        &&& base_matrix_wf(self.matrix(), self.randomized_trace_domain.length as int)
        &&& (self.low_degree_extended_table is None <==> self.interpolation_polynomials is None)
        &&& (self.low_degree_extended_table is Some ==> self.post_lde_wf())
    }

    /// The stride that projects physical rows onto the trace domain.
    pub open spec fn spec_unit_distance(self) -> int {
        self.randomized_trace_domain.length as int / self.trace_domain.length as int
    }

    /// A fresh master base table over the given domains and per-table
    /// lengths: the matrix is allocated all zeros; filling is the
    /// sub-tables' business, through `set_trace_entry`.
    pub fn new(
        padded_height: usize,
        num_trace_randomizers: usize,
        quotient_domain: ArithmeticDomain,
        fri_domain: ArithmeticDomain,
        program_table_len: usize,
        main_execution_len: usize,
        op_stack_table_len: usize,
        ram_table_len: usize,
        hash_coprocessor_execution_len: usize,
        cascade_table_len: usize,
        u32_coprocesor_execution_len: usize,
    ) -> (r: MasterBaseTable)
        requires
            padded_height >= 1,
            is_pow2(padded_height as int),
            padded_height + num_trace_randomizers <= 0x8000_0000,
            quotient_domain.wf(),
            fri_domain.wf(),
            quotient_domain.length % fri_domain.length == 0 || fri_domain.length
                % quotient_domain.length == 0,
            quotient_domain.length >= padded_height + num_trace_randomizers,
            fri_domain.length >= padded_height + num_trace_randomizers,
        ensures
            r.wf(),
            r.trace_domain.length == padded_height,
            r.trace_domain.offset == 1,
            padded_height + num_trace_randomizers <= r.randomized_trace_domain.length < 2 * (
            padded_height + num_trace_randomizers),
            r.randomized_trace_domain.offset == 1,
            r.quotient_domain == quotient_domain,
            r.fri_domain == fri_domain,
            r.num_trace_randomizers == num_trace_randomizers,
            !r.is_low_degree_extended(),
            forall|c: int, i: int|
                0 <= c < NUM_BASE_COLUMNS && 0 <= i < r.randomized_trace_domain.length
                    ==> #[trigger] r.matrix()[c]@[i] == 0u64,
    {
        let trace_domain = ArithmeticDomain::of_length(padded_height);
        let rptl = randomized_padded_trace_len(padded_height, num_trace_randomizers);
        let randomized_trace_domain = ArithmeticDomain::of_length(rptl);
        proof {
            lemma_pow2_divides(padded_height as int, rptl as int);
            lemma_min_pow2_le(
                rptl as int,
                padded_height + num_trace_randomizers,
                quotient_domain.length as int,
            );
            lemma_min_pow2_le(
                rptl as int,
                padded_height + num_trace_randomizers,
                fri_domain.length as int,
            );
        }
        let mut matrix: Vec<Vec<u64>> = Vec::new();
        let mut c: usize = 0;
        while c < NUM_BASE_COLUMNS
            invariant
                c <= NUM_BASE_COLUMNS,
                matrix@.len() == c,
                forall|t: int|
                    0 <= t < c ==> (#[trigger] matrix@[t])@.len() == rptl,
                forall|t: int, i: int|
                    0 <= t < c && 0 <= i < rptl ==> #[trigger] matrix@[t]@[i] == 0u64,
            decreases NUM_BASE_COLUMNS - c,
        {
            let mut col: Vec<u64> = Vec::new();
            let mut i: usize = 0;
            while i < rptl
                invariant
                    i <= rptl,
                    col@.len() == i,
                    forall|t: int| 0 <= t < i ==> (#[trigger] col@[t]) == 0u64,
                decreases rptl - i,
            {
                col.push(0);
                i = i + 1;
            }
            matrix.push(col);
            c = c + 1;
        }
        MasterBaseTable {
            num_trace_randomizers,
            program_table_len,
            main_execution_len,
            op_stack_table_len,
            ram_table_len,
            hash_coprocessor_execution_len,
            cascade_table_len,
            u32_coprocesor_execution_len,
            trace_domain,
            randomized_trace_domain,
            quotient_domain,
            fri_domain,
            randomized_trace_table: matrix,
            low_degree_extended_table: None,
            interpolation_polynomials: None,
        }
    }

    /// The per-table lengths the padding routines start from: the processor
    /// and jump-stack tables share the main execution length, the lookup
    /// table is always padded to its fixed full length, and the others use
    /// their tracked lengths. In the canonical table order, degree-lowering
    /// excluded.
    pub fn all_table_lengths(&self) -> (r: Vec<usize>)
        ensures
            r@ == seq![
                self.program_table_len,
                self.main_execution_len,
                self.op_stack_table_len,
                self.ram_table_len,
                self.main_execution_len,
                self.hash_coprocessor_execution_len,
                self.cascade_table_len,
                LOOKUP_TABLE_PADDED_LENGTH,
                self.u32_coprocesor_execution_len,
            ],
    {
        let mut r: Vec<usize> = Vec::new();
        r.push(self.program_table_len);
        r.push(self.main_execution_len);
        r.push(self.op_stack_table_len);
        r.push(self.ram_table_len);
        r.push(self.main_execution_len);
        r.push(self.hash_coprocessor_execution_len);
        r.push(self.cascade_table_len);
        r.push(LOOKUP_TABLE_PADDED_LENGTH);
        r.push(self.u32_coprocesor_execution_len);
        proof {
            assert(r@ =~= seq![
                self.program_table_len,
                self.main_execution_len,
                self.op_stack_table_len,
                self.ram_table_len,
                self.main_execution_len,
                self.hash_coprocessor_execution_len,
                self.cascade_table_len,
                LOOKUP_TABLE_PADDED_LENGTH,
                self.u32_coprocesor_execution_len,
            ]);
        }
        r
    }

    /// The view of the given sub-table: its column range, the row stride
    /// onto the trace domain, and the trace-domain height. Its column count
    /// is exactly the width the sub-table publishes.
    pub fn table(&self, id: TableId) -> (r: TableView)
        requires
            self.wf(),
        ensures
            r.col_start == spec_base_start(id),
            r.num_cols == spec_base_width(id),
            r.unit_distance == self.spec_unit_distance(),
            r.num_rows == self.trace_domain.length,
    {
        let unit_distance = self.randomized_trace_domain.length / self.trace_domain.length;
        let (col_start, num_cols): (usize, usize) = match id {
            TableId::ProgramTable => (PROGRAM_TABLE_START, PROGRAM_TABLE_BASE_WIDTH),
            TableId::ProcessorTable => (PROCESSOR_TABLE_START, PROCESSOR_TABLE_BASE_WIDTH),
            TableId::OpStackTable => (OP_STACK_TABLE_START, OP_STACK_TABLE_BASE_WIDTH),
            TableId::RamTable => (RAM_TABLE_START, RAM_TABLE_BASE_WIDTH),
            TableId::JumpStackTable => (JUMP_STACK_TABLE_START, JUMP_STACK_TABLE_BASE_WIDTH),
            TableId::HashTable => (HASH_TABLE_START, HASH_TABLE_BASE_WIDTH),
            TableId::CascadeTable => (CASCADE_TABLE_START, CASCADE_TABLE_BASE_WIDTH),
            TableId::LookupTable => (LOOKUP_TABLE_START, LOOKUP_TABLE_BASE_WIDTH),
            TableId::U32Table => (U32_TABLE_START, U32_TABLE_BASE_WIDTH),
            TableId::DegreeLoweringTable => (
                DEGREE_LOWERING_TABLE_START,
                DEGREE_LOWERING_TABLE_BASE_WIDTH,
            ),
        };
        TableView { col_start, num_cols, unit_distance, num_rows: self.trace_domain.length }
    }

    /// One entry of the trace-domain view of the full matrix: row `row` of
    /// the trace, column `col` of the master base table.
    pub fn trace_entry(&self, row: usize, col: usize) -> (r: u64)
        requires
            self.wf(),
            row < self.trace_domain.length,
            col < NUM_BASE_COLUMNS,
        ensures
            b_valid(r),
            r == self.matrix()[col as int]@[row as int * self.spec_unit_distance()],
    {
        let unit_distance = self.randomized_trace_domain.length / self.trace_domain.length;
        proof {
            lemma_stride_in_range(
                row as int,
                self.trace_domain.length as int,
                self.randomized_trace_domain.length as int,
            );
        }
        self.randomized_trace_table[col][row * unit_distance]
    }

    /// Writes one entry of the trace-domain view of the full matrix. This
    /// is how the sub-tables' filling and padding routines deposit their
    /// columns; it is only available before the low-degree extension.
    pub fn set_trace_entry(&mut self, row: usize, col: usize, value: u64)
        requires
            old(self).wf(),
            !old(self).is_low_degree_extended(),
            row < old(self).trace_domain.length,
            col < NUM_BASE_COLUMNS,
            b_valid(value),
        ensures
            final(self).wf(),
            !final(self).is_low_degree_extended(),
            final(self).trace_domain == old(self).trace_domain,
            final(self).randomized_trace_domain == old(self).randomized_trace_domain,
            final(self).quotient_domain == old(self).quotient_domain,
            final(self).fri_domain == old(self).fri_domain,
            final(self).num_trace_randomizers == old(self).num_trace_randomizers,
            final(self).matrix().len() == NUM_BASE_COLUMNS,
            final(self).matrix()[col as int]@ == old(self).matrix()[col as int]@.update(
                row as int * old(self).spec_unit_distance(),
                value,
            ),
            forall|c: int|
                0 <= c < NUM_BASE_COLUMNS && c != col ==> final(self).matrix()[c] == old(
                    self,
                ).matrix()[c],
    {
        let unit_distance = self.randomized_trace_domain.length / self.trace_domain.length;
        proof {
            lemma_stride_in_range(
                row as int,
                self.trace_domain.length as int,
                self.randomized_trace_domain.length as int,
            );
        }
        self.randomized_trace_table[col][row * unit_distance] = value;
    }
}

/// A power of two divides every larger power of two.
proof fn lemma_pow2_divides(a: int, b: int)
    requires
        is_pow2(a),
        is_pow2(b),
        a <= b,
    ensures
        b % a == 0,
{
    is_pow2_equiv(a);
    is_pow2_equiv(b);
    let i = choose|i: nat| pow(2, i) == a;
    let j = choose|j: nat| pow(2, j) == b;
    vstd::arithmetic::power::lemma_pow_positive(2, i);
    vstd::arithmetic::power::lemma_pow_positive(2, j);
    if j < i {
        lemma_pow_increases(2, j, i);
        if a != b {
            vstd::arithmetic::power::lemma_pow_strictly_increases(2, j, i);
            assert(false);
        } else {
            assert(b % a == 0) by {
                vstd::arithmetic::div_mod::lemma_mod_self_0(a);
            }
        }
    } else {
        vstd::arithmetic::power::lemma_pow_adds(2, i, (j - i) as nat);
        assert(b == a * pow(2, (j - i) as nat));
        vstd::arithmetic::div_mod::lemma_mod_multiples_basic(pow(2, (j - i) as nat), a);
        vstd::arithmetic::mul::lemma_mul_is_commutative(pow(2, (j - i) as nat), a);
    }
}

/// The smallest power of two at or above a bound is at most any power of
/// two at or above that bound.
proof fn lemma_min_pow2_le(r: int, total: int, q: int)
    requires
        is_pow2(r),
        is_pow2(q),
        total <= r,
        r < 2 * total,
        q >= total,
    ensures
        r <= q,
{
    if r > q {
        lemma_pow2_divides(q, r);
        vstd::arithmetic::div_mod::lemma_fundamental_div_mod(r, q);
        let k = r / q;
        assert(q > 0) by {
            reveal(is_pow2);
        }
        assert(r == q * k);
        assert(k >= 2) by {
            if k <= 1 {
                vstd::arithmetic::mul::lemma_mul_inequality(k, 1, q);
                vstd::arithmetic::mul::lemma_mul_is_commutative(k, q);
                assert(false);
            }
        }
        vstd::arithmetic::mul::lemma_mul_inequality(2, k, q);
        vstd::arithmetic::mul::lemma_mul_is_commutative(2, q);
        vstd::arithmetic::mul::lemma_mul_is_commutative(k, q);
        assert(r >= 2 * q);
        assert(false);
    }
}

/// A trace row projected through the stride lands inside the physical
/// matrix.
proof fn lemma_stride_in_range(row: int, trace_len: int, rand_len: int)
    requires
        0 <= row < trace_len,
        0 < trace_len <= rand_len,
        rand_len % trace_len == 0,
    ensures
        rand_len / trace_len >= 1,
        0 <= row * (rand_len / trace_len) <= rand_len - (rand_len / trace_len),
        row * (rand_len / trace_len) < rand_len,
{
    let u = rand_len / trace_len;
    vstd::arithmetic::div_mod::lemma_fundamental_div_mod(rand_len, trace_len);
    assert(rand_len == trace_len * u);
    assert(u >= 1) by {
        if u <= 0 {
            vstd::arithmetic::mul::lemma_mul_inequality(u, 0, trace_len);
            vstd::arithmetic::mul::lemma_mul_is_commutative(u, trace_len);
            assert(false);
        }
    }
    vstd::arithmetic::mul::lemma_mul_inequality(row, trace_len - 1, u);
    vstd::arithmetic::mul::lemma_mul_is_distributive_sub(u, trace_len, 1);
    vstd::arithmetic::mul::lemma_mul_is_commutative(trace_len - 1, u);
    vstd::arithmetic::mul::lemma_mul_is_commutative(u, trace_len);
    vstd::arithmetic::mul::lemma_mul_nonnegative(row, u);
}



impl MasterBaseTable {
    /// Overwrites every physical row that is not part of the trace — the
    /// rows at non-zero offsets of the stride — with uniformly random field
    /// elements. The trace rows, at offset zero, are left untouched.
    pub fn randomize_trace(&mut self)
        requires
            old(self).wf(),
            !old(self).is_low_degree_extended(),
        ensures
            final(self).wf(),
            !final(self).is_low_degree_extended(),
            final(self).trace_domain == old(self).trace_domain,
            final(self).randomized_trace_domain == old(self).randomized_trace_domain,
            final(self).quotient_domain == old(self).quotient_domain,
            final(self).fri_domain == old(self).fri_domain,
            final(self).num_trace_randomizers == old(self).num_trace_randomizers,
            final(self).matrix().len() == NUM_BASE_COLUMNS,
            forall|c: int, i: int|
                0 <= c < NUM_BASE_COLUMNS && 0 <= i < old(self).randomized_trace_domain.length && i
                    % old(self).spec_unit_distance() == 0 ==> #[trigger] final(self).matrix()[c]@[i]
                    == old(self).matrix()[c]@[i],
    {
        let unit_distance = self.randomized_trace_domain.length / self.trace_domain.length;
        let ghost u = self.spec_unit_distance();
        let ghost m0 = self.matrix();
        let rows = self.randomized_trace_domain.length;
        proof {
            vstd::arithmetic::div_mod::lemma_fundamental_div_mod(
                self.randomized_trace_domain.length as int,
                self.trace_domain.length as int,
            );
            assert(u >= 1) by {
                if u <= 0 {
                    vstd::arithmetic::mul::lemma_mul_inequality(
                        u,
                        0,
                        self.trace_domain.length as int,
                    );
                    vstd::arithmetic::mul::lemma_mul_is_commutative(
                        u,
                        self.trace_domain.length as int,
                    );
                    assert(false);
                }
            }
        }
        let mut c: usize = 0;
        while c < NUM_BASE_COLUMNS
            invariant
                unit_distance == u,
                u >= 1,
                m0 == old(self).matrix(),
                rows == old(self).randomized_trace_domain.length,
                self.num_trace_randomizers == old(self).num_trace_randomizers,
                self.program_table_len == old(self).program_table_len,
                self.main_execution_len == old(self).main_execution_len,
                self.op_stack_table_len == old(self).op_stack_table_len,
                self.ram_table_len == old(self).ram_table_len,
                self.hash_coprocessor_execution_len == old(self).hash_coprocessor_execution_len,
                self.cascade_table_len == old(self).cascade_table_len,
                self.u32_coprocesor_execution_len == old(self).u32_coprocesor_execution_len,
                self.trace_domain == old(self).trace_domain,
                self.randomized_trace_domain == old(self).randomized_trace_domain,
                self.quotient_domain == old(self).quotient_domain,
                self.fri_domain == old(self).fri_domain,
                self.low_degree_extended_table is None,
                self.interpolation_polynomials is None,
                c <= NUM_BASE_COLUMNS,
                self.matrix().len() == NUM_BASE_COLUMNS,
                base_matrix_wf(self.matrix(), rows as int),
                forall|t: int| c <= t < NUM_BASE_COLUMNS ==> #[trigger] self.matrix()[t] == m0[t],
                forall|t: int, i: int|
                    0 <= t < c && 0 <= i < rows && i % u == 0 ==> #[trigger] self.matrix()[t]@[i]
                        == m0[t]@[i],
            decreases NUM_BASE_COLUMNS - c,
        {
            let ghost snap = self.matrix();
            let mut i: usize = 0;
            while i < rows
                invariant
                    unit_distance == u,
                    u >= 1,
                    0 <= c < NUM_BASE_COLUMNS,
                    i <= rows,
                    self.num_trace_randomizers == old(self).num_trace_randomizers,
                    self.program_table_len == old(self).program_table_len,
                    self.main_execution_len == old(self).main_execution_len,
                    self.op_stack_table_len == old(self).op_stack_table_len,
                    self.ram_table_len == old(self).ram_table_len,
                    self.hash_coprocessor_execution_len == old(
                        self,
                    ).hash_coprocessor_execution_len,
                    self.cascade_table_len == old(self).cascade_table_len,
                    self.u32_coprocesor_execution_len == old(self).u32_coprocesor_execution_len,
                    self.trace_domain == old(self).trace_domain,
                    self.randomized_trace_domain == old(self).randomized_trace_domain,
                    self.quotient_domain == old(self).quotient_domain,
                    self.fri_domain == old(self).fri_domain,
                    self.low_degree_extended_table is None,
                    self.interpolation_polynomials is None,
                    snap.len() == NUM_BASE_COLUMNS,
                    self.matrix().len() == NUM_BASE_COLUMNS,
                    snap[c as int]@.len() == rows,
                    self.matrix()[c as int]@.len() == rows,
                    all_b_valid(snap[c as int]@),
                    all_b_valid(self.matrix()[c as int]@),
                    forall|t: int|
                        0 <= t < NUM_BASE_COLUMNS && t != c ==> #[trigger] self.matrix()[t]
                            == snap[t],
                    forall|j: int|
                        0 <= j < rows && j % u == 0 ==> #[trigger] self.matrix()[c as int]@[j]
                            == snap[c as int]@[j],
                decreases rows - i,
            {
                if i % unit_distance != 0 {
                    let v = bfe_random();
                    self.randomized_trace_table[c][i] = v;
                }
                i = i + 1;
            }
            c = c + 1;
            proof {
                assert forall|t: int, i: int|
                    0 <= t < c && 0 <= i < rows && i % u == 0 implies #[trigger] self.matrix()[
                    t
                ]@[i] == m0[t]@[i] by {
                    if t == c - 1 {
                        assert(self.matrix()[t]@[i] == snap[t]@[i]);
                        assert(snap[t] == m0[t]);
                    } else {
                        assert(self.matrix()[t] == snap[t]);
                    }
                }
                assert forall|t: int| c <= t < NUM_BASE_COLUMNS implies #[trigger] self.matrix()[
                    t
                ] == m0[t] by {
                    assert(self.matrix()[t] == snap[t]);
                }
                assert(base_matrix_wf(self.matrix(), rows as int)) by {
                    assert forall|t: int| 0 <= t < NUM_BASE_COLUMNS implies (
                    #[trigger] self.matrix()[t])@.len() == rows && all_b_valid(
                        self.matrix()[t]@,
                    ) by {
                        if t != c - 1 {
                            assert(self.matrix()[t] == snap[t]);
                        }
                    }
                }
            }
        }
    }
}


impl MasterBaseTable {
    /// Low-degree extends every column of the randomized trace: each column
    /// is interpolated over the randomized trace domain, the interpolant is
    /// evaluated over the larger of the FRI and quotient domains, and both
    /// are memoized — the interpolant lifted into the extension field, for
    /// the out-of-domain evaluations to come.
    pub fn low_degree_extend_all_columns(&mut self)
        requires
            old(self).wf(),
            !old(self).is_low_degree_extended(),
        ensures
            final(self).wf(),
            final(self).is_low_degree_extended(),
            final(self).post_lde_wf(),
            final(self).trace_domain == old(self).trace_domain,
            final(self).randomized_trace_domain == old(self).randomized_trace_domain,
            final(self).quotient_domain == old(self).quotient_domain,
            final(self).fri_domain == old(self).fri_domain,
            final(self).num_trace_randomizers == old(self).num_trace_randomizers,
            final(self).matrix() == old(self).matrix(),
    {
        let evaluation_domain = if self.fri_domain.length > self.quotient_domain.length {
            self.fri_domain
        } else {
            self.quotient_domain
        };
        let rows = self.randomized_trace_domain.length;
        let mut extended: Vec<Vec<u64>> = Vec::new();
        let mut polys: Vec<Vec<Xfe>> = Vec::new();
        let mut c: usize = 0;
        while c < NUM_BASE_COLUMNS
            invariant
                self == old(self),
                self.wf(),
                !self.is_low_degree_extended(),
                evaluation_domain == self.spec_eval_domain(),
                rows == self.randomized_trace_domain.length,
                c <= NUM_BASE_COLUMNS,
                extended@.len() == c,
                polys@.len() == c,
                forall|t: int|
                    0 <= t < c ==> (#[trigger] extended@[t])@.len() == evaluation_domain.length
                        && all_b_valid(extended@[t]@),
                forall|t: int|
                    0 <= t < c ==> (#[trigger] polys@[t])@.len() == rows && all_x_valid(
                        polys@[t]@,
                    ),
                forall|t: int, j: int|
                    0 <= t < c && 0 <= j < (#[trigger] polys@[t])@.len() ==> (
                    #[trigger] polys@[t]@[j]).1 == 0 && polys@[t]@[j].2 == 0,
                forall|t: int, i: int|
                    0 <= t < c && 0 <= i < rows ==> poly_eval(
                        xc0(polys@[t]@),
                        self.randomized_trace_domain.value_at(i as nat),
                    ) == (#[trigger] self.matrix()[t]@[i]) as int,
                forall|t: int, i: int|
                    0 <= t < c && 0 <= i < evaluation_domain.length ==> (
                    #[trigger] extended@[t]@[i]) as int == poly_eval(
                        xc0(polys@[t]@),
                        evaluation_domain.value_at(i as nat),
                    ),
            decreases NUM_BASE_COLUMNS - c,
        {
            let bpoly = self.randomized_trace_domain.interpolate(&self.randomized_trace_table[c]);
            let codeword = evaluation_domain.evaluate(&bpoly);
            let mut lifted: Vec<Xfe> = Vec::new();
            let mut j: usize = 0;
            while j < bpoly.len()
                invariant
                    all_b_valid(bpoly@),
                    j <= bpoly@.len(),
                    lifted@.len() == j,
                    all_x_valid(lifted@),
                    forall|t: int|
                        0 <= t < j ==> #[trigger] lifted@[t] == Xfe(bpoly@[t], 0u64, 0u64),
                decreases bpoly@.len() - j,
            {
                lifted.push(xfe_lift(bpoly[j]));
                j = j + 1;
            }
            proof {
                assert(xc0(lifted@) =~= bpoly@);
            }
            extended.push(codeword);
            polys.push(lifted);
            c = c + 1;
        }
        self.low_degree_extended_table = Some(extended);
        self.interpolation_polynomials = Some(polys);
    }

    /// The stride by which the FRI-domain view subsamples the memoized
    /// extension, and the one for the quotient-domain view: whichever of
    /// the two domains is the smaller is a stride of the larger.
    pub open spec fn spec_fri_stride(self) -> int {
        self.spec_eval_domain().length as int / self.fri_domain.length as int
    }

    pub open spec fn spec_quotient_stride(self) -> int {
        self.spec_eval_domain().length as int / self.quotient_domain.length as int
    }

    /// One row of the FRI-domain view of the low-degree-extended table, as
    /// mathematical values.
    pub open spec fn spec_fri_row(self, i: int) -> Seq<u64> {
        Seq::new(
            NUM_BASE_COLUMNS as nat,
            |c: int| self.low_degree_extended_table.unwrap()@[c]@[i * self.spec_fri_stride()],
        )
    }

    /// One entry of the quotient-domain view of the low-degree-extended
    /// table. Requires the extension to have been computed first.
    pub fn quotient_domain_table_entry(&self, row: usize, col: usize) -> (r: u64)
        requires
            self.wf(),
            self.is_low_degree_extended(),
            row < self.quotient_domain.length,
            col < NUM_BASE_COLUMNS,
        ensures
            b_valid(r),
            r == self.low_degree_extended_table.unwrap()@[col as int]@[row as int
                * self.spec_quotient_stride()],
    {
        let ed_len = if self.fri_domain.length > self.quotient_domain.length {
            self.fri_domain.length
        } else {
            self.quotient_domain.length
        };
        let stride = ed_len / self.quotient_domain.length;
        proof {
            if self.fri_domain.length > self.quotient_domain.length {
                lemma_pow2_divides(self.quotient_domain.length as int, ed_len as int);
            } else {
                vstd::arithmetic::div_mod::lemma_mod_self_0(self.quotient_domain.length as int);
            }
            lemma_stride_in_range(
                row as int,
                self.quotient_domain.length as int,
                ed_len as int,
            );
        }
        match &self.low_degree_extended_table {
            Some(lde) => lde[col][row * stride],
            None => 0,
        }
    }

    /// One full row of the FRI-domain view of the low-degree-extended
    /// table. Requires the extension to have been computed first.
    pub fn fri_domain_table_row(&self, row: usize) -> (r: Vec<u64>)
        requires
            self.wf(),
            self.is_low_degree_extended(),
            row < self.fri_domain.length,
        ensures
            r@.len() == NUM_BASE_COLUMNS,
            all_b_valid(r@),
            r@ == self.spec_fri_row(row as int),
    {
        let ed_len = if self.fri_domain.length > self.quotient_domain.length {
            self.fri_domain.length
        } else {
            self.quotient_domain.length
        };
        let stride = ed_len / self.fri_domain.length;
        proof {
            if self.fri_domain.length <= self.quotient_domain.length {
                lemma_pow2_divides(self.fri_domain.length as int, ed_len as int);
            } else {
                vstd::arithmetic::div_mod::lemma_mod_self_0(self.fri_domain.length as int);
            }
            lemma_stride_in_range(row as int, self.fri_domain.length as int, ed_len as int);
        }
        let mut r: Vec<u64> = Vec::new();
        let mut c: usize = 0;
        while c < NUM_BASE_COLUMNS
            invariant
                self.wf(),
                self.is_low_degree_extended(),
                row < self.fri_domain.length,
                stride == self.spec_fri_stride(),
                0 <= row as int * stride < self.spec_eval_domain().length,
                c <= NUM_BASE_COLUMNS,
                r@.len() == c,
                all_b_valid(r@),
                forall|t: int|
                    0 <= t < c ==> #[trigger] r@[t] == self.low_degree_extended_table.unwrap()@[
                        t
                    ]@[row as int * self.spec_fri_stride()],
            decreases NUM_BASE_COLUMNS - c,
        {
            let v = match &self.low_degree_extended_table {
                Some(lde) => lde[c][row * stride],
                None => 0,
            };
            r.push(v);
            c = c + 1;
        }
        proof {
            assert(r@ =~= self.spec_fri_row(row as int));
        }
        r
    }

    /// One out-of-domain row: every interpolant, evaluated at an arbitrary
    /// extension-field point.
    pub fn row(&self, row_index: Xfe) -> (r: Vec<Xfe>)
        requires
            self.wf(),
            self.is_low_degree_extended(),
            x_valid(row_index),
        ensures
            r@.len() == NUM_BASE_COLUMNS,
            all_x_valid(r@),
            forall|c: int|
                0 <= c < NUM_BASE_COLUMNS ==> x_model(#[trigger] r@[c]) == xpoly_eval(
                    self.interpolation_polynomials.unwrap()@[c]@,
                    x_model(row_index),
                ),
    {
        let mut r: Vec<Xfe> = Vec::new();
        let mut c: usize = 0;
        while c < NUM_BASE_COLUMNS
            invariant
                self.wf(),
                self.is_low_degree_extended(),
                x_valid(row_index),
                c <= NUM_BASE_COLUMNS,
                r@.len() == c,
                all_x_valid(r@),
                forall|t: int|
                    0 <= t < c ==> x_model(#[trigger] r@[t]) == xpoly_eval(
                        self.interpolation_polynomials.unwrap()@[t]@,
                        x_model(row_index),
                    ),
            decreases NUM_BASE_COLUMNS - c,
        {
            let v = match &self.interpolation_polynomials {
                Some(polys) => xfe_poly_evaluate(&polys[c], &row_index),
                None => Xfe(0, 0, 0),
            };
            r.push(v);
            c = c + 1;
        }
        r
    }

    /// Hashes every row of the FRI-domain table into the leaves of the
    /// Merkle commitment.
    pub fn hash_all_fri_domain_rows(&self) -> (r: Vec<Digest>)
        requires
            self.wf(),
            self.is_low_degree_extended(),
        ensures
            r@.len() == self.fri_domain.length,
            all_digests_valid(r@),
            forall|i: int|
                0 <= i < r@.len() ==> digest_seq(#[trigger] r@[i]) == tip5_hash_of(
                    self.spec_fri_row(i),
                ),
    {
        let mut r: Vec<Digest> = Vec::new();
        let mut i: usize = 0;
        while i < self.fri_domain.length
            invariant
                self.wf(),
                self.is_low_degree_extended(),
                i <= self.fri_domain.length,
                r@.len() == i,
                all_digests_valid(r@),
                forall|t: int|
                    0 <= t < i ==> digest_seq(#[trigger] r@[t]) == tip5_hash_of(
                        self.spec_fri_row(t),
                    ),
            decreases self.fri_domain.length - i,
        {
            let row = self.fri_domain_table_row(i);
            r.push(hash_varlen(&row));
            i = i + 1;
        }
        r
    }

    /// The Merkle commitment: a tree whose i-th leaf is the hash of the
    /// i-th FRI-domain row.
    pub fn merkle_tree(&self) -> (r: MerkleTree)
        requires
            self.wf(),
            self.is_low_degree_extended(),
        ensures
            merkle_leafs_of(r).len() == self.fri_domain.length,
            forall|i: int|
                0 <= i < self.fri_domain.length ==> digest_seq(#[trigger] merkle_leafs_of(r)[i])
                    == tip5_hash_of(self.spec_fri_row(i)),
    {
        let hashed_rows = self.hash_all_fri_domain_rows();
        merkle_tree_from_digests(&hashed_rows)
    }
}


/// A column-major matrix of extension elements holds `rows` canonical
/// entries in every column.
pub open spec fn x_matrix_wf(m: Seq<Vec<Xfe>>, rows: int) -> bool {
    forall|c: int| 0 <= c < m.len() ==> (#[trigger] m[c])@.len() == rows && all_x_valid(m[c]@)
}

/// The master extension table: the extension columns derived from the base
/// table under the challenges, together with the trailing randomizer
/// columns needed for zero knowledge.
pub struct MasterExtTable {
    pub num_trace_randomizers: usize,
    pub num_randomizer_polynomials: usize,
    pub trace_domain: ArithmeticDomain,
    pub randomized_trace_domain: ArithmeticDomain,
    pub quotient_domain: ArithmeticDomain,
    pub fri_domain: ArithmeticDomain,
    pub randomized_trace_table: Vec<Vec<Xfe>>,
    pub low_degree_extended_table: Option<Vec<Vec<Xfe>>>,
    pub interpolation_polynomials: Option<Vec<Vec<Xfe>>>,
}

impl MasterTable for MasterExtTable {
    fn trace_domain(&self) -> (r: ArithmeticDomain)
        ensures
            r == self.trace_domain,
    {
        self.trace_domain
    }

    fn randomized_trace_domain(&self) -> (r: ArithmeticDomain)
        ensures
            r == self.randomized_trace_domain,
    {
        self.randomized_trace_domain
    }

    fn quotient_domain(&self) -> (r: ArithmeticDomain)
        ensures
            r == self.quotient_domain,
    {
        self.quotient_domain
    }

    fn fri_domain(&self) -> (r: ArithmeticDomain)
        ensures
            r == self.fri_domain,
    {
        self.fri_domain
    }
}

impl MasterExtTable {
    /// The number of columns of the physical matrix: the extension columns
    /// and the randomizer columns.
    pub open spec fn spec_num_columns(self) -> int {
        NUM_EXT_COLUMNS + self.num_randomizer_polynomials
    }

    /// The domain the low-degree extension lives on.
    pub open spec fn spec_eval_domain(self) -> ArithmeticDomain {
        if self.fri_domain.length > self.quotient_domain.length {
            self.fri_domain
        } else {
            self.quotient_domain
        }
    }

    pub open spec fn matrix(self) -> Seq<Vec<Xfe>> {
        self.randomized_trace_table@
    }

    pub open spec fn is_low_degree_extended(self) -> bool {
        self.low_degree_extended_table is Some
    }

    pub open spec fn spec_unit_distance(self) -> int {
        self.randomized_trace_domain.length as int / self.trace_domain.length as int
    }

    /// After the extension: the memoized interpolants are the polynomials
    /// of the randomized trace length that take the trace matrix's values
    /// on the randomized trace domain, and the memoized codewords are
    /// exactly those interpolants evaluated over the evaluation domain,
    /// column by column.
    pub open spec fn post_lde_wf(self) -> bool {
        &&& self.low_degree_extended_table is Some
        &&& self.interpolation_polynomials is Some
        &&& {
            let lde = self.low_degree_extended_table.unwrap()@;
            let polys = self.interpolation_polynomials.unwrap()@;
            let ed = self.spec_eval_domain();
            &&& lde.len() == self.spec_num_columns()
            &&& polys.len() == self.spec_num_columns()
            &&& x_matrix_wf(lde, ed.length as int)
            &&& forall|c: int|
                0 <= c < polys.len() ==> (#[trigger] polys[c])@.len()
                    == self.randomized_trace_domain.length && all_x_valid(polys[c]@)
            &&& forall|c: int, i: int|
                0 <= c < polys.len() && 0 <= i < self.randomized_trace_domain.length
                    ==> xpoly_eval(
                    polys[c]@,
                    (self.randomized_trace_domain.value_at(i as nat), 0int, 0int),
                ) == x_model(#[trigger] self.matrix()[c]@[i])
            &&& forall|c: int, i: int|
                0 <= c < polys.len() && 0 <= i < ed.length ==> x_model(#[trigger] lde[c]@[i])
                    == xpoly_eval(polys[c]@, (ed.value_at(i as nat), 0int, 0int))
        }
    }

    pub open spec fn wf(self) -> bool {
        &&& domains_wf(
            self.trace_domain,
            self.randomized_trace_domain,
            self.quotient_domain,
            self.fri_domain,
        )
        &&& NUM_EXT_COLUMNS + self.num_randomizer_polynomials <= usize::MAX
        &&& self.matrix().len() == self.spec_num_columns()
        &&& x_matrix_wf(self.matrix(), self.randomized_trace_domain.length as int)
        &&& (self.low_degree_extended_table is None <==> self.interpolation_polynomials is None)
        &&& (self.low_degree_extended_table is Some ==> self.post_lde_wf())
    }

    /// The view of the given sub-table within the extension columns.
    pub fn table(&self, id: TableId) -> (r: TableView)
        requires
            self.wf(),
        ensures
            r.col_start == spec_ext_start(id),
            r.num_cols == spec_ext_width(id),
            r.unit_distance == self.spec_unit_distance(),
            r.num_rows == self.trace_domain.length,
    {
        let unit_distance = self.randomized_trace_domain.length / self.trace_domain.length;
        let (col_start, num_cols): (usize, usize) = match id {
            TableId::ProgramTable => (EXT_PROGRAM_TABLE_START, PROGRAM_TABLE_EXT_WIDTH),
            TableId::ProcessorTable => (EXT_PROCESSOR_TABLE_START, PROCESSOR_TABLE_EXT_WIDTH),
            TableId::OpStackTable => (EXT_OP_STACK_TABLE_START, OP_STACK_TABLE_EXT_WIDTH),
            TableId::RamTable => (EXT_RAM_TABLE_START, RAM_TABLE_EXT_WIDTH),
            TableId::JumpStackTable => (EXT_JUMP_STACK_TABLE_START, JUMP_STACK_TABLE_EXT_WIDTH),
            TableId::HashTable => (EXT_HASH_TABLE_START, HASH_TABLE_EXT_WIDTH),
            TableId::CascadeTable => (EXT_CASCADE_TABLE_START, CASCADE_TABLE_EXT_WIDTH),
            TableId::LookupTable => (EXT_LOOKUP_TABLE_START, LOOKUP_TABLE_EXT_WIDTH),
            TableId::U32Table => (EXT_U32_TABLE_START, U32_TABLE_EXT_WIDTH),
            TableId::DegreeLoweringTable => (
                EXT_DEGREE_LOWERING_TABLE_START,
                DEGREE_LOWERING_TABLE_EXT_WIDTH,
            ),
        };
        TableView { col_start, num_cols, unit_distance, num_rows: self.trace_domain.length }
    }

    /// One entry of the trace-domain view, randomizer columns excluded.
    pub fn trace_entry(&self, row: usize, col: usize) -> (r: Xfe)
        requires
            self.wf(),
            row < self.trace_domain.length,
            col < NUM_EXT_COLUMNS,
        ensures
            x_valid(r),
            r == self.matrix()[col as int]@[row as int * self.spec_unit_distance()],
    {
        let unit_distance = self.randomized_trace_domain.length / self.trace_domain.length;
        proof {
            lemma_stride_in_range(
                row as int,
                self.trace_domain.length as int,
                self.randomized_trace_domain.length as int,
            );
        }
        self.randomized_trace_table[col][row * unit_distance]
    }

    /// Writes one entry of the trace-domain view, randomizer columns
    /// excluded. This is how the sub-tables' extension routines deposit
    /// their columns; only available before the low-degree extension.
    pub fn set_trace_entry(&mut self, row: usize, col: usize, value: Xfe)
        requires
            old(self).wf(),
            !old(self).is_low_degree_extended(),
            row < old(self).trace_domain.length,
            col < NUM_EXT_COLUMNS,
            x_valid(value),
        ensures
            final(self).wf(),
            !final(self).is_low_degree_extended(),
            final(self).trace_domain == old(self).trace_domain,
            final(self).randomized_trace_domain == old(self).randomized_trace_domain,
            final(self).quotient_domain == old(self).quotient_domain,
            final(self).fri_domain == old(self).fri_domain,
            final(self).num_trace_randomizers == old(self).num_trace_randomizers,
            final(self).num_randomizer_polynomials == old(self).num_randomizer_polynomials,
            final(self).matrix().len() == old(self).spec_num_columns(),
            final(self).matrix()[col as int]@ == old(self).matrix()[col as int]@.update(
                row as int * old(self).spec_unit_distance(),
                value,
            ),
            forall|c: int|
                0 <= c < old(self).spec_num_columns() && c != col ==> final(self).matrix()[c]
                    == old(self).matrix()[c],
    {
        let unit_distance = self.randomized_trace_domain.length / self.trace_domain.length;
        proof {
            lemma_stride_in_range(
                row as int,
                self.trace_domain.length as int,
                self.randomized_trace_domain.length as int,
            );
        }
        self.randomized_trace_table[col][row * unit_distance] = value;
    }
}

impl MasterBaseTable {
    /// Begins the derivation of the master extension table: allocates the
    /// extension matrix over the same domains, with the extension columns
    /// zeroed — the sub-tables' extension routines fill them in under the
    /// challenges — and the trailing randomizer columns drawn uniformly at
    /// random.
    pub fn extend(&self, num_randomizer_polynomials: usize) -> (r: MasterExtTable)
        requires
            self.wf(),
            NUM_EXT_COLUMNS + num_randomizer_polynomials <= usize::MAX,
        ensures
            r.wf(),
            !r.is_low_degree_extended(),
            r.trace_domain == self.trace_domain,
            r.randomized_trace_domain == self.randomized_trace_domain,
            r.quotient_domain == self.quotient_domain,
            r.fri_domain == self.fri_domain,
            r.num_trace_randomizers == self.num_trace_randomizers,
            r.num_randomizer_polynomials == num_randomizer_polynomials,
            forall|c: int, i: int|
                0 <= c < NUM_EXT_COLUMNS && 0 <= i < r.randomized_trace_domain.length
                    ==> #[trigger] r.matrix()[c]@[i] == Xfe(0u64, 0u64, 0u64),
    {
        let rows = self.randomized_trace_domain.length;
        let num_columns = NUM_EXT_COLUMNS + num_randomizer_polynomials;
        let mut matrix: Vec<Vec<Xfe>> = Vec::new();
        let mut c: usize = 0;
        while c < num_columns
            invariant
                rows == self.randomized_trace_domain.length,
                num_columns == NUM_EXT_COLUMNS + num_randomizer_polynomials,
                c <= num_columns,
                matrix@.len() == c,
                forall|t: int|
                    0 <= t < c ==> (#[trigger] matrix@[t])@.len() == rows && all_x_valid(
                        matrix@[t]@,
                    ),
                forall|t: int, i: int|
                    0 <= t < c && t < NUM_EXT_COLUMNS && 0 <= i < rows ==> #[trigger] matrix@[
                        t
                    ]@[i] == Xfe(0u64, 0u64, 0u64),
            decreases num_columns - c,
        {
            let mut col: Vec<Xfe> = Vec::new();
            let mut i: usize = 0;
            if c < NUM_EXT_COLUMNS {
                while i < rows
                    invariant
                        i <= rows,
                        col@.len() == i,
                        forall|t: int| 0 <= t < i ==> #[trigger] col@[t] == Xfe(0u64, 0u64, 0u64),
                    decreases rows - i,
                {
                    col.push(Xfe(0, 0, 0));
                    i = i + 1;
                }
            } else {
                while i < rows
                    invariant
                        i <= rows,
                        col@.len() == i,
                        all_x_valid(col@),
                    decreases rows - i,
                {
                    col.push(xfe_random());
                    i = i + 1;
                }
            }
            matrix.push(col);
            c = c + 1;
        }
        MasterExtTable {
            num_trace_randomizers: self.num_trace_randomizers,
            num_randomizer_polynomials,
            trace_domain: self.trace_domain,
            randomized_trace_domain: self.randomized_trace_domain,
            quotient_domain: self.quotient_domain,
            fri_domain: self.fri_domain,
            randomized_trace_table: matrix,
            low_degree_extended_table: None,
            interpolation_polynomials: None,
        }
    }
}


impl MasterExtTable {
    /// Overwrites every physical row not on the trace stride with uniformly
    /// random extension elements; the trace rows are left untouched.
    pub fn randomize_trace(&mut self)
        requires
            old(self).wf(),
            !old(self).is_low_degree_extended(),
        ensures
            final(self).wf(),
            !final(self).is_low_degree_extended(),
            final(self).trace_domain == old(self).trace_domain,
            final(self).randomized_trace_domain == old(self).randomized_trace_domain,
            final(self).quotient_domain == old(self).quotient_domain,
            final(self).fri_domain == old(self).fri_domain,
            final(self).num_trace_randomizers == old(self).num_trace_randomizers,
            final(self).num_randomizer_polynomials == old(self).num_randomizer_polynomials,
            final(self).matrix().len() == old(self).spec_num_columns(),
            forall|c: int, i: int|
                0 <= c < old(self).spec_num_columns() && 0 <= i < old(
                    self,
                ).randomized_trace_domain.length && i % old(self).spec_unit_distance() == 0
                    ==> #[trigger] final(self).matrix()[c]@[i] == old(self).matrix()[c]@[i],
    {
        let unit_distance = self.randomized_trace_domain.length / self.trace_domain.length;
        let ghost u = self.spec_unit_distance();
        let ghost m0 = self.matrix();
        let ghost ncols = self.spec_num_columns();
        let num_columns = NUM_EXT_COLUMNS + self.num_randomizer_polynomials;
        let rows = self.randomized_trace_domain.length;
        proof {
            vstd::arithmetic::div_mod::lemma_fundamental_div_mod(
                self.randomized_trace_domain.length as int,
                self.trace_domain.length as int,
            );
            assert(u >= 1) by {
                if u <= 0 {
                    vstd::arithmetic::mul::lemma_mul_inequality(
                        u,
                        0,
                        self.trace_domain.length as int,
                    );
                    vstd::arithmetic::mul::lemma_mul_is_commutative(
                        u,
                        self.trace_domain.length as int,
                    );
                    assert(false);
                }
            }
        }
        let mut c: usize = 0;
        while c < num_columns
            invariant
                unit_distance == u,
                u >= 1,
                m0 == old(self).matrix(),
                ncols == old(self).spec_num_columns(),
                num_columns == ncols,
                rows == old(self).randomized_trace_domain.length,
                self.num_trace_randomizers == old(self).num_trace_randomizers,
                self.num_randomizer_polynomials == old(self).num_randomizer_polynomials,
                self.trace_domain == old(self).trace_domain,
                self.randomized_trace_domain == old(self).randomized_trace_domain,
                self.quotient_domain == old(self).quotient_domain,
                self.fri_domain == old(self).fri_domain,
                self.low_degree_extended_table is None,
                self.interpolation_polynomials is None,
                c <= num_columns,
                self.matrix().len() == ncols,
                x_matrix_wf(self.matrix(), rows as int),
                forall|t: int| c <= t < ncols ==> #[trigger] self.matrix()[t] == m0[t],
                forall|t: int, i: int|
                    0 <= t < c && 0 <= i < rows && i % u == 0 ==> #[trigger] self.matrix()[t]@[i]
                        == m0[t]@[i],
            decreases num_columns - c,
        {
            let ghost snap = self.matrix();
            let mut i: usize = 0;
            while i < rows
                invariant
                    unit_distance == u,
                    u >= 1,
                    0 <= c < ncols,
                    i <= rows,
                    ncols == old(self).spec_num_columns(),
                    self.num_trace_randomizers == old(self).num_trace_randomizers,
                    self.num_randomizer_polynomials == old(self).num_randomizer_polynomials,
                    self.trace_domain == old(self).trace_domain,
                    self.randomized_trace_domain == old(self).randomized_trace_domain,
                    self.quotient_domain == old(self).quotient_domain,
                    self.fri_domain == old(self).fri_domain,
                    self.low_degree_extended_table is None,
                    self.interpolation_polynomials is None,
                    snap.len() == ncols,
                    self.matrix().len() == ncols,
                    snap[c as int]@.len() == rows,
                    self.matrix()[c as int]@.len() == rows,
                    all_x_valid(snap[c as int]@),
                    all_x_valid(self.matrix()[c as int]@),
                    forall|t: int|
                        0 <= t < ncols && t != c ==> #[trigger] self.matrix()[t] == snap[t],
                    forall|j: int|
                        0 <= j < rows && j % u == 0 ==> #[trigger] self.matrix()[c as int]@[j]
                            == snap[c as int]@[j],
                decreases rows - i,
            {
                if i % unit_distance != 0 {
                    let v = xfe_random();
                    self.randomized_trace_table[c][i] = v;
                }
                i = i + 1;
            }
            c = c + 1;
            proof {
                assert forall|t: int, i: int|
                    0 <= t < c && 0 <= i < rows && i % u == 0 implies #[trigger] self.matrix()[
                    t
                ]@[i] == m0[t]@[i] by {
                    if t == c - 1 {
                        assert(self.matrix()[t]@[i] == snap[t]@[i]);
                        assert(snap[t] == m0[t]);
                    } else {
                        assert(self.matrix()[t] == snap[t]);
                    }
                }
                assert forall|t: int| c <= t < ncols implies #[trigger] self.matrix()[t] == m0[
                    t
                ] by {
                    assert(self.matrix()[t] == snap[t]);
                }
                assert(x_matrix_wf(self.matrix(), rows as int)) by {
                    assert forall|t: int| 0 <= t < ncols implies (#[trigger] self.matrix()[
                        t
                    ])@.len() == rows && all_x_valid(self.matrix()[t]@) by {
                        if t != c - 1 {
                            assert(self.matrix()[t] == snap[t]);
                        }
                    }
                }
            }
        }
    }

    /// Low-degree extends every column: interpolation over the randomized
    /// trace domain, evaluation over the larger of the FRI and quotient
    /// domains, both memoized.
    pub fn low_degree_extend_all_columns(&mut self)
        requires
            old(self).wf(),
            !old(self).is_low_degree_extended(),
        ensures
            final(self).wf(),
            final(self).is_low_degree_extended(),
            final(self).post_lde_wf(),
            final(self).trace_domain == old(self).trace_domain,
            final(self).randomized_trace_domain == old(self).randomized_trace_domain,
            final(self).quotient_domain == old(self).quotient_domain,
            final(self).fri_domain == old(self).fri_domain,
            final(self).num_trace_randomizers == old(self).num_trace_randomizers,
            final(self).num_randomizer_polynomials == old(self).num_randomizer_polynomials,
            final(self).matrix() == old(self).matrix(),
    {
        let evaluation_domain = if self.fri_domain.length > self.quotient_domain.length {
            self.fri_domain
        } else {
            self.quotient_domain
        };
        let rows = self.randomized_trace_domain.length;
        let num_columns = NUM_EXT_COLUMNS + self.num_randomizer_polynomials;
        let mut extended: Vec<Vec<Xfe>> = Vec::new();
        let mut polys: Vec<Vec<Xfe>> = Vec::new();
        let mut c: usize = 0;
        while c < num_columns
            invariant
                self == old(self),
                self.wf(),
                !self.is_low_degree_extended(),
                evaluation_domain == self.spec_eval_domain(),
                rows == self.randomized_trace_domain.length,
                num_columns == self.spec_num_columns(),
                c <= num_columns,
                extended@.len() == c,
                polys@.len() == c,
                forall|t: int|
                    0 <= t < c ==> (#[trigger] extended@[t])@.len() == evaluation_domain.length
                        && all_x_valid(extended@[t]@),
                forall|t: int|
                    0 <= t < c ==> (#[trigger] polys@[t])@.len() == rows && all_x_valid(
                        polys@[t]@,
                    ),
                forall|t: int, i: int|
                    0 <= t < c && 0 <= i < rows ==> xpoly_eval(
                        polys@[t]@,
                        (self.randomized_trace_domain.value_at(i as nat), 0int, 0int),
                    ) == x_model(#[trigger] self.matrix()[t]@[i]),
                forall|t: int, i: int|
                    0 <= t < c && 0 <= i < evaluation_domain.length ==> x_model(
                        #[trigger] extended@[t]@[i],
                    ) == xpoly_eval(
                        polys@[t]@,
                        (evaluation_domain.value_at(i as nat), 0int, 0int),
                    ),
            decreases num_columns - c,
        {
            let xpoly = self.randomized_trace_domain.interpolate_xfe(
                &self.randomized_trace_table[c],
            );
            let codeword = evaluation_domain.evaluate_xfe(&xpoly);
            extended.push(codeword);
            polys.push(xpoly);
            c = c + 1;
        }
        self.low_degree_extended_table = Some(extended);
        self.interpolation_polynomials = Some(polys);
    }

    pub open spec fn spec_fri_stride(self) -> int {
        self.spec_eval_domain().length as int / self.fri_domain.length as int
    }

    /// One row of the FRI-domain view, as extension elements, randomizer
    /// columns included.
    pub open spec fn spec_fri_row(self, i: int) -> Seq<Xfe> {
        Seq::new(
            self.spec_num_columns() as nat,
            |c: int| self.low_degree_extended_table.unwrap()@[c]@[i * self.spec_fri_stride()],
        )
    }

    /// One row of the FRI-domain view, flattened to base-field elements:
    /// each extension element contributes its three coefficients in order.
    pub open spec fn spec_fri_row_flat(self, i: int) -> Seq<u64> {
        crate::codec::enc_xfes(self.spec_fri_row(i))
    }

    /// One full row of the FRI-domain view of the low-degree-extended
    /// table.
    pub fn fri_domain_table_row(&self, row: usize) -> (r: Vec<Xfe>)
        requires
            self.wf(),
            self.is_low_degree_extended(),
            row < self.fri_domain.length,
        ensures
            r@.len() == self.spec_num_columns(),
            all_x_valid(r@),
            r@ == self.spec_fri_row(row as int),
    {
        let ed_len = if self.fri_domain.length > self.quotient_domain.length {
            self.fri_domain.length
        } else {
            self.quotient_domain.length
        };
        let stride = ed_len / self.fri_domain.length;
        proof {
            if self.fri_domain.length <= self.quotient_domain.length {
                lemma_pow2_divides(self.fri_domain.length as int, ed_len as int);
            } else {
                vstd::arithmetic::div_mod::lemma_mod_self_0(self.fri_domain.length as int);
            }
            lemma_stride_in_range(row as int, self.fri_domain.length as int, ed_len as int);
        }
        let num_columns = NUM_EXT_COLUMNS + self.num_randomizer_polynomials;
        let mut r: Vec<Xfe> = Vec::new();
        let mut c: usize = 0;
        while c < num_columns
            invariant
                self.wf(),
                self.is_low_degree_extended(),
                row < self.fri_domain.length,
                num_columns == self.spec_num_columns(),
                stride == self.spec_fri_stride(),
                0 <= row as int * stride < self.spec_eval_domain().length,
                c <= num_columns,
                r@.len() == c,
                all_x_valid(r@),
                forall|t: int|
                    0 <= t < c ==> #[trigger] r@[t] == self.low_degree_extended_table.unwrap()@[
                        t
                    ]@[row as int * self.spec_fri_stride()],
            decreases num_columns - c,
        {
            let v = match &self.low_degree_extended_table {
                Some(lde) => lde[c][row * stride],
                None => Xfe(0, 0, 0),
            };
            r.push(v);
            c = c + 1;
        }
        proof {
            assert(r@ =~= self.spec_fri_row(row as int));
        }
        r
    }

    /// The trailing randomizer columns of the FRI-domain view, one codeword
    /// per randomizer polynomial.
    pub fn fri_domain_randomizer_polynomials(&self) -> (r: Vec<Vec<Xfe>>)
        requires
            self.wf(),
            self.is_low_degree_extended(),
        ensures
            r@.len() == self.num_randomizer_polynomials,
            forall|k: int, i: int|
                0 <= k < r@.len() && 0 <= i < self.fri_domain.length ==> #[trigger] r@[k]@[i]
                    == self.low_degree_extended_table.unwrap()@[NUM_EXT_COLUMNS + k]@[i
                    * self.spec_fri_stride()],
            forall|k: int| 0 <= k < r@.len() ==> (#[trigger] r@[k])@.len() == self.fri_domain.length,
    {
        let mut r: Vec<Vec<Xfe>> = Vec::new();
        let mut k: usize = 0;
        while k < self.num_randomizer_polynomials
            invariant
                self.wf(),
                self.is_low_degree_extended(),
                k <= self.num_randomizer_polynomials,
                r@.len() == k,
                forall|t: int|
                    0 <= t < k ==> (#[trigger] r@[t])@.len() == self.fri_domain.length,
                forall|t: int, i: int|
                    0 <= t < k && 0 <= i < self.fri_domain.length ==> #[trigger] r@[t]@[i]
                        == self.low_degree_extended_table.unwrap()@[NUM_EXT_COLUMNS + t]@[i
                        * self.spec_fri_stride()],
            decreases self.num_randomizer_polynomials - k,
        {
            let mut col: Vec<Xfe> = Vec::new();
            let ed_len = if self.fri_domain.length > self.quotient_domain.length {
                self.fri_domain.length
            } else {
                self.quotient_domain.length
            };
            let stride = ed_len / self.fri_domain.length;
            proof {
                if self.fri_domain.length <= self.quotient_domain.length {
                    lemma_pow2_divides(self.fri_domain.length as int, ed_len as int);
                } else {
                    vstd::arithmetic::div_mod::lemma_mod_self_0(self.fri_domain.length as int);
                }
            }
            let mut i: usize = 0;
            while i < self.fri_domain.length
                invariant
                    self.wf(),
                    self.is_low_degree_extended(),
                    k < self.num_randomizer_polynomials,
                    stride == self.spec_fri_stride(),
                    i <= self.fri_domain.length,
                    col@.len() == i,
                    forall|t: int|
                        0 <= t < i ==> #[trigger] col@[t]
                            == self.low_degree_extended_table.unwrap()@[NUM_EXT_COLUMNS
                            + k as int]@[t * self.spec_fri_stride()],
                decreases self.fri_domain.length - i,
            {
                proof {
                    if self.fri_domain.length <= self.quotient_domain.length {
                        lemma_pow2_divides(
                            self.fri_domain.length as int,
                            self.spec_eval_domain().length as int,
                        );
                    } else {
                        vstd::arithmetic::div_mod::lemma_mod_self_0(
                            self.fri_domain.length as int,
                        );
                    }
                    lemma_stride_in_range(
                        i as int,
                        self.fri_domain.length as int,
                        self.spec_eval_domain().length as int,
                    );
                }
                let v = match &self.low_degree_extended_table {
                    Some(lde) => lde[NUM_EXT_COLUMNS + k][i * stride],
                    None => Xfe(0, 0, 0),
                };
                col.push(v);
                i = i + 1;
            }
            r.push(col);
            k = k + 1;
        }
        r
    }

    /// One out-of-domain row: the interpolants of the extension columns —
    /// the randomizer polynomials never contribute — evaluated at an
    /// arbitrary extension-field point.
    pub fn row(&self, row_index: Xfe) -> (r: Vec<Xfe>)
        requires
            self.wf(),
            self.is_low_degree_extended(),
            x_valid(row_index),
        ensures
            r@.len() == NUM_EXT_COLUMNS,
            all_x_valid(r@),
            forall|c: int|
                0 <= c < NUM_EXT_COLUMNS ==> x_model(#[trigger] r@[c]) == xpoly_eval(
                    self.interpolation_polynomials.unwrap()@[c]@,
                    x_model(row_index),
                ),
    {
        let mut r: Vec<Xfe> = Vec::new();
        let mut c: usize = 0;
        while c < NUM_EXT_COLUMNS
            invariant
                self.wf(),
                self.is_low_degree_extended(),
                x_valid(row_index),
                c <= NUM_EXT_COLUMNS,
                r@.len() == c,
                all_x_valid(r@),
                forall|t: int|
                    0 <= t < c ==> x_model(#[trigger] r@[t]) == xpoly_eval(
                        self.interpolation_polynomials.unwrap()@[t]@,
                        x_model(row_index),
                    ),
            decreases NUM_EXT_COLUMNS - c,
        {
            let v = match &self.interpolation_polynomials {
                Some(polys) => xfe_poly_evaluate(&polys[c], &row_index),
                None => Xfe(0, 0, 0),
            };
            r.push(v);
            c = c + 1;
        }
        r
    }

    /// Hashes every row of the FRI-domain table — each extension element
    /// read as its three base-field coefficients — into the leaves of the
    /// Merkle commitment.
    pub fn hash_all_fri_domain_rows(&self) -> (r: Vec<Digest>)
        requires
            self.wf(),
            self.is_low_degree_extended(),
        ensures
            r@.len() == self.fri_domain.length,
            all_digests_valid(r@),
            forall|i: int|
                0 <= i < r@.len() ==> digest_seq(#[trigger] r@[i]) == tip5_hash_of(
                    self.spec_fri_row_flat(i),
                ),
    {
        let mut r: Vec<Digest> = Vec::new();
        let mut i: usize = 0;
        while i < self.fri_domain.length
            invariant
                self.wf(),
                self.is_low_degree_extended(),
                i <= self.fri_domain.length,
                r@.len() == i,
                all_digests_valid(r@),
                forall|t: int|
                    0 <= t < i ==> digest_seq(#[trigger] r@[t]) == tip5_hash_of(
                        self.spec_fri_row_flat(t),
                    ),
            decreases self.fri_domain.length - i,
        {
            let row = self.fri_domain_table_row(i);
            let mut flat: Vec<u64> = Vec::new();
            let mut c: usize = 0;
            while c < row.len()
                invariant
                    c <= row@.len(),
                    flat@ == crate::codec::enc_xfes(row@.subrange(0, c as int)),
                decreases row@.len() - c,
            {
                flat.push(row[c].0);
                flat.push(row[c].1);
                flat.push(row[c].2);
                c = c + 1;
                proof {
                    let cur = row@.subrange(0, c as int);
                    assert(cur.subrange(0, cur.len() - 1) =~= row@.subrange(0, c - 1));
                    crate::codec::lemma_enc_xfes_snoc_pub(cur);
                    assert(flat@ =~= crate::codec::enc_xfes(cur));
                }
            }
            proof {
                assert(row@.subrange(0, row@.len() as int) =~= row@);
            }
            r.push(hash_varlen(&flat));
            i = i + 1;
        }
        r
    }

    /// The Merkle commitment: a tree whose i-th leaf is the hash of the
    /// i-th FRI-domain row.
    pub fn merkle_tree(&self) -> (r: MerkleTree)
        requires
            self.wf(),
            self.is_low_degree_extended(),
        ensures
            merkle_leafs_of(r).len() == self.fri_domain.length,
            forall|i: int|
                0 <= i < self.fri_domain.length ==> digest_seq(#[trigger] merkle_leafs_of(r)[i])
                    == tip5_hash_of(self.spec_fri_row_flat(i)),
    {
        let hashed_rows = self.hash_all_fri_domain_rows();
        merkle_tree_from_digests(&hashed_rows)
    }
}


} // verus!
