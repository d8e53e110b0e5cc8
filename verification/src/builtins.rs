use vstd::prelude::*;
use crate::felt::Felt;

verus! {

/// Each hash takes two input cells and one output cell.
pub const CELLS_PER_HASH: u32 = 3;

pub const INPUT_CELLS_PER_HASH: u32 = 2;

/// Layout parameters of the hash builtin.
#[derive(Debug)]
pub struct PedersenInstanceDef {
    /// Steps per hash instance.
    pub ratio: u32,
    /// Split into this many components, for optimisation.
    pub repetitions: u32,
    /// Size of the hash.
    pub element_height: u32,
    pub element_bits: u32,
    /// Number of hash inputs.
    pub n_inputs: u32,
    /// The upper bound on the hash inputs; absent means the bound is
    /// 2^element_bits.
    pub hash_limit: Option<Felt>,
}

pub const CELLS_PER_RANGE_CHECK: u32 = 1;

/// Layout parameters of the range-check builtin.
#[derive(Debug)]
pub struct RangeCheckInstanceDef {
    /// Steps per range-check instance.
    pub ratio: u32,
    /// 16-bit checks per instance; eight parts check the range up to
    /// 2^128.
    pub n_parts: u32,
}

/// Each signature takes a public key cell and a message cell.
pub const CELLS_PER_SIGNATURE: u32 = 2;

pub const INPUT_CELLS_PER_SIGNATURE: u32 = 2;

/// Layout parameters of the signature builtin.
#[derive(Debug)]
pub struct EcdsaInstanceDef {
    /// Steps per signature instance.
    pub ratio: u32,
    /// Split into this many components, for optimisation.
    pub repetitions: u32,
    /// Size of the hash.
    pub height: u32,
    pub n_hash_bits: u32,
}

/// What a layout says about one builtin.
#[derive(Debug)]
pub enum BuiltinDefinition {
    Bool(bool),
    PedersenInstanceDef(PedersenInstanceDef),
    RangeCheckInstanceDef(RangeCheckInstanceDef),
    EcdsaInstanceDef(EcdsaInstanceDef),
}

} // verus!
