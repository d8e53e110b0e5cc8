use vstd::prelude::*;
use crate::assoc::assoc_map;
use crate::felt::Felt;
use crate::memory_dict::{
    spec_read, spec_relocate_cell, Error as MemoryDictError, MemoryDict, mem_result_of,
};
use crate::relocatable::{Cell, MaybeRelocatable, RelocatableValue};

verus! {

/// A validation rule for a segment: a pure check a written cell must pass
/// for its address to count as validated.
#[derive(Debug)]
pub enum ValidationRule {
    /// The cell must hold a field element below the bound.
    RangeCheck { bound: Felt },
}

/// The addresses a rule validates at an address: for a range check, the
/// address itself exactly when it holds a small enough field element.
pub open spec fn rule_validates(
    bound: nat,
    m: Map<RelocatableValue, Cell>,
    addr: RelocatableValue,
) -> bool {
    m.dom().contains(addr) && (m[addr] matches Cell::Int(x) && x < bound)
}

/// The addresses one rule list validates at an address, in rule order.
pub open spec fn rules_validate(
    rules: Seq<ValidationRule>,
    m: Map<RelocatableValue, Cell>,
    addr: RelocatableValue,
) -> Seq<RelocatableValue>
    decreases rules.len(),
{
    if rules.len() == 0 {
        Seq::empty()
    } else {
        rules_validate(rules.drop_last(), m, addr) + (match rules.last() {
            ValidationRule::RangeCheck { bound } => if rule_validates(bound@, m, addr) {
                seq![addr]
            } else {
                Seq::<RelocatableValue>::empty()
            },
        })
    }
}

/// What one write appends to the validated addresses: every entry of the
/// rule table for the address's segment is consulted, in order.
pub open spec fn validated_by_write(
    table: Seq<(i64, Vec<ValidationRule>)>,
    m: Map<RelocatableValue, Cell>,
    addr: RelocatableValue,
) -> Seq<RelocatableValue>
    decreases table.len(),
{
    if table.len() == 0 {
        Seq::empty()
    } else {
        validated_by_write(table.drop_last(), m, addr) + (if table.last().0
            == addr.segment_index {
            rules_validate(table.last().1@, m, addr)
        } else {
            Seq::<RelocatableValue>::empty()
        })
    }
}

/// A proxy to the memory store that validates written cells in segments
/// with validation rules, and remembers the addresses already validated.
#[derive(Debug)]
pub struct ValidatedMemoryDict {
    pub memory: MemoryDict,
    /// Maps a segment index to the checks on its cells.
    pub validation_rules: Vec<(i64, Vec<ValidationRule>)>,
    /// The addresses already validated.
    pub validated_addresses: Vec<RelocatableValue>,
}

impl ValidatedMemoryDict {
    pub fn new(memory: MemoryDict) -> (r: Self)
        ensures
            r.memory == memory,
            r.validation_rules@.len() == 0,
            r.validated_addresses@.len() == 0,
    {
        Self { memory, validation_rules: Vec::new(), validated_addresses: Vec::new() }
    }

    /// Registers one more validation rule for a segment.
    pub fn add_validation_rule(&mut self, segment_index: i64, rule: ValidationRule)
        ensures
            final(self).memory == old(self).memory,
            final(self).validated_addresses == old(self).validated_addresses,
    {
        let mut i: usize = 0;
        let n = self.validation_rules.len();
        while i < n
            invariant
                n == self.validation_rules@.len(),
                i <= n,
                self.memory == old(self).memory,
                self.validated_addresses == old(self).validated_addresses,
            decreases n - i,
        {
            if self.validation_rules[i].0 == segment_index {
                let mut entry = self.validation_rules.remove(i);
                entry.1.push(rule);
                self.validation_rules.insert(i, entry);
                return ;
            }
            i = i + 1;
        }
        let mut rules: Vec<ValidationRule> = Vec::new();
        rules.push(rule);
        self.validation_rules.push((segment_index, rules));
    }

    /// Reads a value, or the default where none is stored.
    pub fn get(&self, addr: &RelocatableValue, default_value: Option<MaybeRelocatable>) -> (res:
        Result<Option<MaybeRelocatable>, MemoryDictError>)
        ensures
            match res {
                Ok(Some(v)) => if self.memory@.dom().contains(*addr) {
                    Ok::<Cell, MemoryDictError>(v@) == spec_relocate_cell(
                        self.memory.rules(),
                        self.memory@[*addr],
                        self.memory.relocation_rules@.len() as nat,
                    )
                } else {
                    default_value matches Some(d) && Ok::<Cell, MemoryDictError>(v@) == spec_relocate_cell(
                        self.memory.rules(),
                        d@,
                        self.memory.relocation_rules@.len() as nat,
                    )
                },
                Ok(None) => !self.memory@.dom().contains(*addr) && default_value is None,
                Err(e) => if self.memory@.dom().contains(*addr) {
                    Err::<Cell, MemoryDictError>(e) == spec_relocate_cell(
                        self.memory.rules(),
                        self.memory@[*addr],
                        self.memory.relocation_rules@.len() as nat,
                    )
                } else {
                    default_value matches Some(d) && Err::<Cell, MemoryDictError>(e)
                        == spec_relocate_cell(
                        self.memory.rules(),
                        d@,
                        self.memory.relocation_rules@.len() as nat,
                    )
                },
            },
    {
        self.memory.get(addr, default_value)
    }

    /// Reads a value that must be present.
    pub fn index(&self, addr: &RelocatableValue) -> (res: Result<
        MaybeRelocatable,
        MemoryDictError,
    >)
        ensures
            mem_result_of(res) == spec_read(self.memory, *addr),
    {
        self.memory.index(addr)
    }

    /// Writes a value through the write-once store, then gives the rules
    /// of the address's segment a chance to validate it.
    pub fn index_set(&mut self, addr: RelocatableValue, value: MaybeRelocatable) -> (r: Result<
        (),
        MemoryDictError,
    >)
        ensures
            final(self).validation_rules == old(self).validation_rules,
            final(self).memory.frozen == old(self).memory.frozen,
            final(self).memory.relocation_rules == old(self).memory.relocation_rules,
            forall|a: RelocatableValue| #[trigger] old(self).memory@.dom().contains(a)
                ==> final(self).memory@.dom().contains(a) && final(self).memory@[a] == old(self).memory@[a],
            match r {
                Ok(()) => {
                    &&& !old(self).memory.frozen
                    &&& (old(self).memory@.dom().contains(addr) ==> old(self).memory@[addr]
                        == value@)
                    &&& final(self).memory@ == old(self).memory@.insert(addr, value@)
                    &&& final(self).validated_addresses@ == (if old(
                        self,
                    ).validated_addresses@.contains(addr) {
                        old(self).validated_addresses@
                    } else {
                        old(self).validated_addresses@ + validated_by_write(
                            old(self).validation_rules@,
                            final(self).memory@,
                            addr,
                        )
                    })
                },
                Err(MemoryDictError::MemoryFrozen) => old(self).memory.frozen && final(self).memory == old(self).memory && final(self).validated_addresses == old(self).validated_addresses,
                Err(MemoryDictError::InconsistentMemory { addr: a, old_value, new_value }) => !old(self).memory.frozen && a == addr && old(self).memory@.dom().contains(addr)
                    && old_value@ == old(self).memory@[addr] && new_value@ == value@ && old(self).memory@[addr] != value@ && final(self).memory == old(self).memory && final(self).validated_addresses == old(self).validated_addresses,
                _ => false,
            },
    {
        match self.memory.index_set(addr, value) {
            Ok(()) => {},
            Err(e) => {
                return Err(e);
            },
        }
        self.validate_memory_cell(addr);
        Ok(())
    }

    /// Runs the validation rules of the address's segment, unless it is
    /// already validated, and records what they validate.
    fn validate_memory_cell(&mut self, addr: RelocatableValue)
        ensures
            final(self).memory == old(self).memory,
            final(self).validation_rules == old(self).validation_rules,
            final(self).validated_addresses@ == (if old(self).validated_addresses@.contains(
                addr,
            ) {
                old(self).validated_addresses@
            } else {
                old(self).validated_addresses@ + validated_by_write(
                    old(self).validation_rules@,
                    old(self).memory@,
                    addr,
                )
            }),
    {
        let mut seen = false;
        let n = self.validated_addresses.len();
        let mut i: usize = 0;
        while i < n
            invariant
                n == self.validated_addresses@.len(),
                i <= n,
                *self == *old(self),
                seen == exists|k: int|
                    0 <= k < i && (#[trigger] self.validated_addresses@[k]) == addr,
            decreases n - i,
        {
            if self.validated_addresses[i] == addr {
                seen = true;
            }
            i = i + 1;
        }
        if seen {
            return ;
        }
        proof {
            assert(!old(self).validated_addresses@.contains(addr));
        }
        let nrules = self.validation_rules.len();
        let mut j: usize = 0;
        while j < nrules
            invariant
                nrules == self.validation_rules@.len(),
                j <= nrules,
                !old(self).validated_addresses@.contains(addr),
                self.memory == old(self).memory,
                self.validation_rules == old(self).validation_rules,
                self.validated_addresses@ == old(self).validated_addresses@
                    + validated_by_write(
                    self.validation_rules@.subrange(0, j as int),
                    self.memory@,
                    addr,
                ),
            decreases nrules - j,
        {
            let ghost table = self.validation_rules@;
            proof {
                assert(table.subrange(0, j + 1).drop_last() =~= table.subrange(0, j as int));
                assert(table.subrange(0, j + 1).last() == table[j as int]);
            }
            if self.validation_rules[j].0 == addr.segment_index {
                let nr = self.validation_rules[j].1.len();
                let mut k: usize = 0;
                while k < nr
                    invariant
                        j < self.validation_rules@.len(),
                        nr == self.validation_rules@[j as int].1@.len(),
                        k <= nr,
                        self.memory == old(self).memory,
                        self.validation_rules == old(self).validation_rules,
                        self.validation_rules@[j as int].0 == addr.segment_index,
                        self.validated_addresses@ == old(self).validated_addresses@
                            + validated_by_write(
                            self.validation_rules@.subrange(0, j as int),
                            self.memory@,
                            addr,
                        ) + rules_validate(
                            self.validation_rules@[j as int].1@.subrange(0, k as int),
                            self.memory@,
                            addr,
                        ),
                    decreases nr - k,
                {
                    let ghost rl = self.validation_rules@[j as int].1@;
                    proof {
                        assert(rl.subrange(0, k + 1).drop_last() =~= rl.subrange(0, k as int));
                        assert(rl.subrange(0, k + 1).last() == rl[k as int]);
                    }
                    let passed = match &self.validation_rules[j].1[k] {
                        ValidationRule::RangeCheck { bound } => {
                            match self.memory.peek(&addr) {
                                Some(MaybeRelocatable::Int(f)) => f.lt_felt(bound),
                                _ => false,
                            }
                        },
                    };
                    if passed {
                        self.validated_addresses.push(addr);
                    }
                    k = k + 1;
                }
                proof {
                    assert(self.validation_rules@[j as int].1@.subrange(
                        0,
                        self.validation_rules@[j as int].1@.len() as int,
                    ) =~= self.validation_rules@[j as int].1@);
                }
            }
            j = j + 1;
        }
        proof {
            assert(self.validation_rules@.subrange(0, self.validation_rules@.len() as int)
                =~= self.validation_rules@);
        }
    }
}

} // verus!
