use vstd::prelude::*;
use crate::builtins::{
    BuiltinDefinition, EcdsaInstanceDef, PedersenInstanceDef, RangeCheckInstanceDef,
};
use crate::felt::Felt;

verus! {

/// Layout parameters of the processor itself.
#[derive(Debug)]
pub struct CpuInstanceDef {
    /// Verifies that each call instruction returns, even if the called
    /// function is malicious.
    pub safe_call: bool,
}

/// Layout parameters of the diluted pool.
#[derive(Debug)]
pub struct DilutedPoolInstanceDef {
    /// Diluted cells in the pool per processor step.
    pub units_per_step: u64,
    /// Distance between consecutive information-carrying bits in diluted
    /// form.
    pub spacing: u64,
    /// Number of information bits, before diluting.
    pub n_bits: u64,
}

/// A named Cairo layout: which builtins exist and the proportions of the
/// trace.
#[derive(Debug)]
pub struct CairoLayout {
    pub layout_name: String,
    pub cpu_component_step: u64,
    /// Range check units.
    pub rc_units: u64,
    pub builtins: Vec<(String, BuiltinDefinition)>,
    /// Public memory cells per total memory cells.
    pub public_memory_fraction: u64,
    pub memory_units_per_step: u64,
    pub diluted_pool_instance_def: Option<DilutedPoolInstanceDef>,
    pub n_trace_columns: Option<u64>,
    pub cpu_instance_def: CpuInstanceDef,
}

impl CairoLayout {
    /// The plain layout: no builtins.
    pub fn plain_instance() -> (r: Self)
        ensures
            r.layout_name@ == "plain"@,
            r.builtins@.len() == 0,
            r.cpu_component_step == 1,
            r.rc_units == 16,
            r.public_memory_fraction == 4,
            r.memory_units_per_step == 8,
            r.diluted_pool_instance_def is None,
            r.n_trace_columns == Some(8u64),
            r.cpu_instance_def.safe_call,
    {
        Self {
            layout_name: String::from_str("plain"),
            cpu_component_step: 1,
            rc_units: 16,
            builtins: Vec::new(),
            public_memory_fraction: 4,
            memory_units_per_step: 8,
            diluted_pool_instance_def: None,
            n_trace_columns: Some(8),
            cpu_instance_def: CpuInstanceDef { safe_call: true },
        }
    }

    /// The small layout: output, hash, range-check and signature
    /// builtins.
    pub fn small_instance() -> (r: Self)
        ensures
            r.layout_name@ == "small"@,
            r.builtins@.len() == 4,
            r.builtins@[0].0@ == "output"@,
            r.builtins@[0].1 matches BuiltinDefinition::Bool(true),
            r.builtins@[1].0@ == "pedersen"@,
            r.builtins@[1].1 matches BuiltinDefinition::PedersenInstanceDef(p) && p.ratio == 8
                && p.repetitions == 4 && p.element_height == 256 && p.element_bits == 252
                && p.n_inputs == 2 && (p.hash_limit matches Some(h) && h@
                == crate::felt::default_prime()),
            r.builtins@[2].0@ == "range_check"@,
            r.builtins@[2].1 matches BuiltinDefinition::RangeCheckInstanceDef(rc) && rc.ratio == 8
                && rc.n_parts == 8,
            r.builtins@[3].0@ == "ecdsa"@,
            r.builtins@[3].1 matches BuiltinDefinition::EcdsaInstanceDef(e) && e.ratio == 512
                && e.repetitions == 1 && e.height == 256 && e.n_hash_bits == 251,
            r.cpu_component_step == 1,
            r.rc_units == 16,
            r.public_memory_fraction == 4,
            r.memory_units_per_step == 8,
            r.diluted_pool_instance_def is None,
            r.n_trace_columns == Some(25u64),
            r.cpu_instance_def.safe_call,
    {
        let mut builtins: Vec<(String, BuiltinDefinition)> = Vec::new();
        builtins.push((String::from_str("output"), BuiltinDefinition::Bool(true)));
        builtins.push(
            (
                String::from_str("pedersen"),
                BuiltinDefinition::PedersenInstanceDef(
                    PedersenInstanceDef {
                        ratio: 8,
                        repetitions: 4,
                        element_height: 256,
                        element_bits: 252,
                        n_inputs: 2,
                        hash_limit: Some(Felt::prime()),
                    },
                ),
            ),
        );
        builtins.push(
            (
                String::from_str("range_check"),
                BuiltinDefinition::RangeCheckInstanceDef(
                    RangeCheckInstanceDef { ratio: 8, n_parts: 8 },
                ),
            ),
        );
        builtins.push(
            (
                String::from_str("ecdsa"),
                BuiltinDefinition::EcdsaInstanceDef(
                    EcdsaInstanceDef { ratio: 512, repetitions: 1, height: 256, n_hash_bits: 251 },
                ),
            ),
        );
        Self {
            layout_name: String::from_str("small"),
            cpu_component_step: 1,
            rc_units: 16,
            builtins,
            public_memory_fraction: 4,
            memory_units_per_step: 8,
            diluted_pool_instance_def: None,
            n_trace_columns: Some(25),
            cpu_instance_def: CpuInstanceDef { safe_call: true },
        }
    }
}

} // verus!
