//! Bit-field arithmetic of the 32-bit instruction encodings.
//!
//! A field is a run of bits of the instruction word, read as a number; an
//! immediate is put together from fields and then sign-extended to 64 bits.
use vstd::arithmetic::div_mod::lemma_mod_bound;
use vstd::arithmetic::power2::{
    lemma2_to64, lemma_pow2_pos, lemma_pow2_strictly_increases, lemma_pow2_unfold, pow2,
};
use vstd::bits::{
    lemma_u32_low_bits_mask_is_mod, lemma_u32_pow2_no_overflow, lemma_u32_shl_is_mul,
    lemma_u32_shr_is_div, lemma_u64_pow2_no_overflow, lemma_u64_shl_is_mul, lemma_u64_shr_is_div,
};
use vstd::prelude::*;

verus! {

/// Opcode of the arithmetic instructions with an immediate operand.
pub const OP_IMM: u32 = 0b0010011;

/// Opcode of the loads.
pub const OP_LOAD: u32 = 0b0000011;

/// Opcode of the register-register arithmetic instructions.
pub const OP_REG: u32 = 0b0110011;

/// Opcode of the stores.
pub const OP_STORE: u32 = 0b0100011;

/// Opcode of the conditional branches.
pub const OP_BRANCH: u32 = 0b1100011;

/// The bits `start` to `end` of `value`, both included and bit 0 the least
/// significant, read as a number.
pub open spec fn spec_get_bits(value: u32, start: u32, end: u32) -> u32 {
    ((value as nat / pow2(start as nat)) % pow2((end - start + 1) as nat)) as u32
}

/// Extracts the bits `start` to `end` of `value`.
#[verifier::when_used_as_spec(spec_get_bits)]
pub fn get_bits(value: u32, start: u32, end: u32) -> (field: u32)
    requires
        start <= end < 32,
    ensures
        field == spec_get_bits(value, start, end),
        field < pow2((end - start + 1) as nat),
{
    let num_bits = end - start + 1;
    let shifted = value >> start;
    proof {
        lemma_u32_shr_is_div(value, start);
        lemma_pow2_pos(num_bits as nat);
        lemma_mod_bound(shifted as int, pow2(num_bits as nat) as int);
        if num_bits == 32 {
            lemma2_to64();
            assert(shifted & u32::MAX == shifted) by (bit_vector);
        } else {
            lemma_u32_pow2_no_overflow(num_bits as nat);
            lemma_u32_shl_is_mul(1, num_bits);
            lemma_u32_low_bits_mask_is_mod(shifted, num_bits as nat);
        }
    }
    let mask = if num_bits == 32 {
        u32::MAX
    } else {
        (1u32 << num_bits) - 1
    };
    shifted & mask
}

/// A field of `end - start + 1` bits is a number below 2 to that power.
pub proof fn lemma_field_bound(word: u32, start: u32, end: u32)
    requires
        start <= end < 32,
    ensures
        spec_get_bits(word, start, end) < pow2((end - start + 1) as nat),
        spec_get_bits(word, start, end) == (word as nat / pow2(start as nat)) % pow2(
            (end - start + 1) as nat,
        ),
{
    let width = (end - start + 1) as nat;
    lemma_pow2_pos(width);
    lemma_mod_bound((word as nat / pow2(start as nat)) as int, pow2(width) as int);
    lemma2_to64();
    if width < 32 {
        lemma_pow2_strictly_increases(width, 32);
    }
}

/// `value` with its bit `sign_bit` copied into every higher bit, where
/// `value` has no bit above `sign_bit`; any other `value` as it is.
///
/// A `value` below `2^(sign_bit + 1)` stands for a signed number of
/// `sign_bit + 1` bits; the result is that number in 64-bit two's complement.
pub open spec fn spec_sign_extend(value: u64, sign_bit: u32) -> u64 {
    if pow2(sign_bit as nat) <= value < pow2((sign_bit + 1) as nat) {
        (value + pow2(64) - pow2((sign_bit + 1) as nat)) as u64
    } else {
        value
    }
}

/// Sign-extends `value` from bit `sign_bit` to 64 bits.
#[verifier::when_used_as_spec(spec_sign_extend)]
pub fn sign_extend(value: u64, sign_bit: u32) -> (extended: u64)
    requires
        sign_bit < 64,
    ensures
        extended == spec_sign_extend(value, sign_bit),
{
    let top = value >> sign_bit;
    proof {
        let low = pow2(sign_bit as nat);
        lemma_u64_shr_is_div(value, sign_bit as u64);
        lemma_pow2_pos(sign_bit as nat);
        lemma_pow2_unfold((sign_bit + 1) as nat);
        assert(top == 1 <==> low <= value < 2 * low) by (nonlinear_arith)
            requires
                top == value as nat / low,
                low > 0,
        ;
    }
    if top == 1 {
        proof {
            let bit = 1u64 << sign_bit;
            lemma2_to64();
            lemma_u64_pow2_no_overflow(sign_bit as nat);
            lemma_u64_shl_is_mul(1, sign_bit as u64);
            assert(value | (u64::MAX << sign_bit) == value - bit + (u64::MAX - bit) + 1)
                by (bit_vector)
                requires
                    sign_bit < 64,
                    value >> sign_bit == 1,
                    bit == 1u64 << sign_bit,
            ;
        }
        value | (u64::MAX << sign_bit)
    } else {
        value
    }
}

/// The immediate of an I-type word: bits 20 to 31, as a signed number of
/// twelve bits.
pub open spec fn spec_i_immediate(word: u32) -> u64 {
    sign_extend(get_bits(word, 20, 31) as u64, 11)
}

/// Decodes the immediate of an I-type instruction word.
#[verifier::when_used_as_spec(spec_i_immediate)]
pub fn i_immediate(word: u32) -> (imm: u64)
    ensures
        imm == spec_i_immediate(word),
{
    let imm_11_0 = get_bits(word, 20, 31);
    sign_extend(imm_11_0 as u64, 11)
}

/// The immediate of an S-type word: bits 25 to 31 above bits 7 to 11, as a
/// signed number of twelve bits.
pub open spec fn spec_s_immediate(word: u32) -> u64 {
    sign_extend((get_bits(word, 25, 31) * 32 + get_bits(word, 7, 11)) as u64, 11)
}

/// Decodes the immediate of an S-type instruction word.
#[verifier::when_used_as_spec(spec_s_immediate)]
pub fn s_immediate(word: u32) -> (imm: u64)
    ensures
        imm == spec_s_immediate(word),
{
    let imm_4_0 = get_bits(word, 7, 11);
    let imm_11_5 = get_bits(word, 25, 31);
    proof {
        lemma2_to64();
        assert(imm_11_5 << 5 | imm_4_0 == imm_11_5 * 32 + imm_4_0) by (bit_vector)
            requires
                imm_11_5 < 128,
                imm_4_0 < 32,
        ;
    }
    let imm = imm_11_5 << 5 | imm_4_0;
    sign_extend(imm as u64, 11)
}

/// The immediate of a B-type word: bits 8 to 11 from bit 1 on, bits 25 to 30
/// from bit 5 on, bit 7 as bit 11 and bit 31 as bit 12, as a signed number
/// of thirteen bits.
pub open spec fn spec_b_immediate(word: u32) -> u64 {
    sign_extend(
        (get_bits(word, 8, 11) * 2 + get_bits(word, 25, 30) * 32 + get_bits(word, 7, 7) * 2048
            + get_bits(word, 31, 31) * 4096) as u64,
        12,
    )
}

/// Decodes the immediate of a B-type instruction word.
#[verifier::when_used_as_spec(spec_b_immediate)]
pub fn b_immediate(word: u32) -> (imm: u64)
    ensures
        imm == spec_b_immediate(word),
{
    let imm_11 = get_bits(word, 7, 7);
    let imm_4_1 = get_bits(word, 8, 11);
    let imm_12 = get_bits(word, 31, 31);
    let imm_10_5 = get_bits(word, 25, 30);
    proof {
        lemma2_to64();
        assert(imm_4_1 << 1 | imm_10_5 << 5 | imm_11 << 11 | imm_12 << 12 == imm_4_1 * 2 + imm_10_5
            * 32 + imm_11 * 2048 + imm_12 * 4096) by (bit_vector)
            requires
                imm_4_1 < 16,
                imm_10_5 < 64,
                imm_11 < 2,
                imm_12 < 2,
        ;
    }
    let imm = imm_4_1 << 1 | imm_10_5 << 5 | imm_11 << 11 | imm_12 << 12;
    sign_extend(imm as u64, 12)
}

} // verus!
