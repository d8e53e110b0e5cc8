use vstd::prelude::*;
use crate::assoc::{assoc_map, lemma_assoc_contains, lemma_assoc_push, lemma_assoc_value};
use crate::felt::Felt;
use crate::relocatable::{Cell, MaybeRelocatable, RelocatableValue};

verus! {

/// A memory fault.
#[derive(Debug)]
pub enum Error {
    /// A read of an address that holds no value.
    UnknownMemory { addr: RelocatableValue },
    /// A write to an address that already holds a different value.
    InconsistentMemory {
        addr: RelocatableValue,
        old_value: MaybeRelocatable,
        new_value: MaybeRelocatable,
    },
    /// A write to frozen memory.
    MemoryFrozen,
    /// The relocation rules lead from a temporary segment back to itself.
    RelocationCycle,
    /// A relocation rule names a segment that is not temporary.
    NonTemporarySegment { segment_index: i64 },
    /// A second relocation rule for one temporary segment.
    DuplicatedRelocation { segment_index: i64 },
    /// A relocated offset cannot be represented.
    OffsetOutOfRange,
}

/// The entries of the store with each value taken mathematically.
pub open spec fn mem_entries(s: Seq<(RelocatableValue, MaybeRelocatable)>) -> Seq<
    (RelocatableValue, Cell),
> {
    s.map_values(|e: (RelocatableValue, MaybeRelocatable)| (e.0, e.1@))
}

/// Write-once mapping from addresses to cell values, with relocation rules
/// for temporary segments and a freeze switch.
#[derive(Debug)]
pub struct MemoryDict {
    pub data: Vec<(RelocatableValue, MaybeRelocatable)>,
    pub frozen: bool,
    /// Maps a temporary segment index to the address its cells move to.
    pub relocation_rules: Vec<(i64, RelocatableValue)>,
}

impl View for MemoryDict {
    type V = Map<RelocatableValue, Cell>;

    open spec fn view(&self) -> Map<RelocatableValue, Cell> {
        assoc_map(mem_entries(self.data@))
    }
}

impl MemoryDict {
    /// The relocation rules as a map.
    pub open spec fn rules(&self) -> Map<i64, RelocatableValue> {
        assoc_map(self.relocation_rules@)
    }
}

/// What relocation makes of an address: a permanent address stays; a
/// temporary one without a rule stays; a ruled one follows the rule's
/// destination (itself relocated) and adds its own offset. A chain longer
/// than the allotted fuel has revisited a rule and is reported as a cycle.
pub open spec fn spec_relocate_addr(
    rules: Map<i64, RelocatableValue>,
    r: RelocatableValue,
    fuel: nat,
) -> Result<RelocatableValue, Error>
    decreases fuel,
{
    if r.segment_index >= 0 {
        Ok(r)
    } else if !rules.dom().contains(r.segment_index) {
        Ok(r)
    } else if fuel == 0 {
        Err(Error::RelocationCycle)
    } else {
        match spec_relocate_addr(rules, rules[r.segment_index], (fuel - 1) as nat) {
            Ok(base) => if i64::MIN <= base.offset + r.offset <= i64::MAX {
                Ok(
                    RelocatableValue {
                        segment_index: base.segment_index,
                        offset: (base.offset + r.offset) as i64,
                    },
                )
            } else {
                Err(Error::OffsetOutOfRange)
            },
            Err(e) => Err(e),
        }
    }
}

/// What relocation makes of a cell value: a field element stays as it is.
pub open spec fn spec_relocate_cell(
    rules: Map<i64, RelocatableValue>,
    c: Cell,
    fuel: nat,
) -> Result<Cell, Error> {
    match c {
        Cell::Int(x) => Ok(Cell::Int(x)),
        Cell::Addr(r) => match spec_relocate_addr(rules, r, fuel) {
            Ok(a) => Ok(Cell::Addr(a)),
            Err(e) => Err(e),
        },
    }
}

/// The mathematical outcome of a computed cell result.
pub open spec fn mem_result_of(r: Result<MaybeRelocatable, Error>) -> Result<Cell, Error> {
    match r {
        Ok(v) => Ok(v@),
        Err(e) => Err(e),
    }
}

/// What a read of an address yields: the stored value after relocation,
/// or a fault for an address that holds nothing.
pub open spec fn spec_read(m: MemoryDict, a: RelocatableValue) -> Result<Cell, Error> {
    if m@.dom().contains(a) {
        spec_relocate_cell(m.rules(), m@[a], m.relocation_rules@.len() as nat)
    } else {
        Err(Error::UnknownMemory { addr: a })
    }
}

/// The index of the last entry for an address, which is the one the store
/// goes by.
fn find_entry(data: &Vec<(RelocatableValue, MaybeRelocatable)>, addr: &RelocatableValue) -> (r:
    Option<usize>)
    ensures
        match r {
            Some(i) => i < data@.len() && data@[i as int].0 == *addr && forall|j: int|
                i < j < data@.len() ==> (#[trigger] data@[j]).0 != *addr,
            None => forall|j: int| 0 <= j < data@.len() ==> (#[trigger] data@[j]).0 != *addr,
        },
{
    let mut i = data.len();
    while i > 0
        invariant
            i <= data@.len(),
            forall|j: int| i <= j < data@.len() ==> (#[trigger] data@[j]).0 != *addr,
        decreases i,
    {
        i = i - 1;
        if data[i].0 == *addr {
            return Some(i);
        }
    }
    None
}

/// The destination of the last rule for a segment, which is the one the
/// store goes by.
fn find_rule(rules: &Vec<(i64, RelocatableValue)>, seg: i64) -> (r: Option<RelocatableValue>)
    ensures
        match r {
            Some(d) => assoc_map(rules@).dom().contains(seg) && assoc_map(rules@)[seg] == d,
            None => !assoc_map(rules@).dom().contains(seg),
        },
{
    let mut i = rules.len();
    while i > 0
        invariant
            i <= rules@.len(),
            forall|j: int| i <= j < rules@.len() ==> (#[trigger] rules@[j]).0 != seg,
        decreases i,
    {
        i = i - 1;
        if rules[i].0 == seg {
            proof {
                lemma_assoc_value(rules@, i as int);
            }
            return Some(rules[i].1);
        }
    }
    proof {
        lemma_assoc_contains(rules@, seg);
    }
    None
}

impl MemoryDict {
    pub fn new() -> (r: Self)
        ensures
            r@ == Map::<RelocatableValue, Cell>::empty(),
            !r.frozen,
            r.relocation_rules@.len() == 0,
            r.data@.len() == 0,
    {
        Self { data: Vec::new(), frozen: false, relocation_rules: Vec::new() }
    }

    /// Writes a value. The memory is write-once: an address that already
    /// holds a different value is not changed but reported, and frozen
    /// memory takes no write at all.
    pub fn index_set(&mut self, addr: RelocatableValue, value: MaybeRelocatable) -> (r: Result<
        (),
        Error,
    >)
        ensures
            final(self).frozen == old(self).frozen,
            final(self).relocation_rules == old(self).relocation_rules,
            forall|a: RelocatableValue| #[trigger] old(self)@.dom().contains(a)
                ==> final(self)@.dom().contains(a) && final(self)@[a] == old(self)@[a],
            match r {
                Ok(()) => !old(self).frozen && (old(self)@.dom().contains(addr) ==> old(
                    self,
                )@[addr] == value@) && final(self)@ == old(self)@.insert(addr, value@),
                Err(Error::MemoryFrozen) => old(self).frozen && *final(self) == *old(self),
                Err(Error::InconsistentMemory { addr: a, old_value, new_value }) => !old(
                    self,
                ).frozen && a == addr && old(self)@.dom().contains(addr) && old_value@ == old(
                    self,
                )@[addr] && new_value@ == value@ && old(self)@[addr] != value@ && *final(self)
                    == *old(self),
                _ => false,
            },
    {
        if self.frozen {
            return Err(Error::MemoryFrozen);
        }
        match find_entry(&self.data, &addr) {
            Some(i) => {
                proof {
                    assert(mem_entries(self.data@)[i as int] == (self.data@[i as int].0,
                    self.data@[i as int].1@));
                    lemma_assoc_value(mem_entries(self.data@), i as int);
                }
                let same = self.data[i].1 == value;
                if same {
                    proof {
                        assert(self@ =~= self@.insert(addr, value@));
                    }
                    Ok(())
                } else {
                    Err(
                        Error::InconsistentMemory {
                            addr,
                            old_value: self.data[i].1.clone(),
                            new_value: value,
                        },
                    )
                }
            },
            None => {
                proof {
                    lemma_assoc_contains(mem_entries(self.data@), addr);
                }
                let ghost pre = self.data@;
                self.data.push((addr, value));
                proof {
                    assert(mem_entries(self.data@) =~= mem_entries(pre).push((addr, value@)));
                    lemma_assoc_push(mem_entries(pre), addr, value@);
                }
                Ok(())
            },
        }
    }

    /// Freezes the memory: no changes can be made from now on.
    pub fn freeze(&mut self)
        ensures
            *final(self) == (MemoryDict { frozen: true, ..*old(self) }),
    {
        self.frozen = true;
    }

    pub fn is_frozen(&self) -> (r: bool)
        ensures
            r == self.frozen,
    {
        self.frozen
    }

    /// Registers that a temporary segment's cells stand for cells starting
    /// at the given destination.
    pub fn add_relocation_rule(&mut self, segment_index: i64, dest: RelocatableValue) -> (r:
        Result<(), Error>)
        ensures
            final(self).data == old(self).data,
            final(self).frozen == old(self).frozen,
            match r {
                Ok(()) => segment_index < 0 && !old(self).rules().dom().contains(segment_index)
                    && final(self).rules() == old(self).rules().insert(segment_index, dest),
                Err(Error::NonTemporarySegment { segment_index: s }) => s == segment_index
                    && segment_index >= 0 && *final(self) == *old(self),
                Err(Error::DuplicatedRelocation { segment_index: s }) => s == segment_index
                    && segment_index < 0 && old(self).rules().dom().contains(segment_index)
                    && *final(self) == *old(self),
                _ => false,
            },
    {
        if segment_index >= 0 {
            return Err(Error::NonTemporarySegment { segment_index });
        }
        match find_rule(&self.relocation_rules, segment_index) {
            Some(_) => Err(Error::DuplicatedRelocation { segment_index }),
            None => {
                let ghost pre = self.relocation_rules@;
                self.relocation_rules.push((segment_index, dest));
                proof {
                    lemma_assoc_push(pre, segment_index, dest);
                }
                Ok(())
            },
        }
    }

    /// Relocates one address through the rules, spending one unit of fuel
    /// per rule application.
    fn relocate_addr_fuel(&self, r: RelocatableValue, fuel: usize) -> (res: Result<
        RelocatableValue,
        Error,
    >)
        ensures
            res == spec_relocate_addr(self.rules(), r, fuel as nat),
        decreases fuel,
    {
        if r.segment_index >= 0 {
            return Ok(r);
        }
        match find_rule(&self.relocation_rules, r.segment_index) {
            None => Ok(r),
            Some(dest) => {
                if fuel == 0 {
                    Err(Error::RelocationCycle)
                } else {
                    match self.relocate_addr_fuel(dest, fuel - 1) {
                        Ok(base) => match base.add_off(r.offset) {
                            Ok(a) => Ok(a),
                            Err(_) => Err(Error::OffsetOutOfRange),
                        },
                        Err(e) => Err(e),
                    }
                }
            },
        }
    }

    /// Relocates a value according to the relocation rules. The original
    /// value is returned where the rules do not apply.
    pub fn relocate_value(&self, value: &MaybeRelocatable) -> (res: Result<MaybeRelocatable, Error>)
        ensures
            mem_result_of(res) == spec_relocate_cell(
                self.rules(),
                value@,
                self.relocation_rules@.len() as nat,
            ),
    {
        match value {
            MaybeRelocatable::Int(x) => Ok(MaybeRelocatable::Int(x.clone())),
            MaybeRelocatable::RelocatableValue(r) => {
                match self.relocate_addr_fuel(*r, self.relocation_rules.len()) {
                    Ok(a) => Ok(MaybeRelocatable::RelocatableValue(a)),
                    Err(e) => Err(e),
                }
            },
        }
    }

    /// Reads a value, or the default where none is stored; what comes back
    /// has been relocated.
    pub fn get(&self, addr: &RelocatableValue, default_value: Option<MaybeRelocatable>) -> (res:
        Result<Option<MaybeRelocatable>, Error>)
        ensures
            match res {
                Ok(Some(v)) => if self@.dom().contains(*addr) {
                    Ok::<Cell, Error>(v@) == spec_relocate_cell(
                        self.rules(),
                        self@[*addr],
                        self.relocation_rules@.len() as nat,
                    )
                } else {
                    default_value matches Some(d) && Ok::<Cell, Error>(v@) == spec_relocate_cell(
                        self.rules(),
                        d@,
                        self.relocation_rules@.len() as nat,
                    )
                },
                Ok(None) => !self@.dom().contains(*addr) && default_value is None,
                Err(e) => if self@.dom().contains(*addr) {
                    Err::<Cell, Error>(e) == spec_relocate_cell(
                        self.rules(),
                        self@[*addr],
                        self.relocation_rules@.len() as nat,
                    )
                } else {
                    default_value matches Some(d) && Err::<Cell, Error>(e) == spec_relocate_cell(
                        self.rules(),
                        d@,
                        self.relocation_rules@.len() as nat,
                    )
                },
            },
    {
        match find_entry(&self.data, addr) {
            Some(i) => {
                proof {
                    assert(mem_entries(self.data@)[i as int] == (self.data@[i as int].0,
                    self.data@[i as int].1@));
                    lemma_assoc_value(mem_entries(self.data@), i as int);
                }
                let v = self.data[i].1.clone();
                match self.relocate_value(&v) {
                    Ok(rv) => Ok(Some(rv)),
                    Err(e) => Err(e),
                }
            },
            None => {
                proof {
                    lemma_assoc_contains(mem_entries(self.data@), *addr);
                }
                match default_value {
                    Some(d) => match self.relocate_value(&d) {
                        Ok(rv) => Ok(Some(rv)),
                        Err(e) => Err(e),
                    },
                    None => Ok(None),
                }
            },
        }
    }

    /// Reads a value that must be present; what comes back has been
    /// relocated.
    pub fn index(&self, addr: &RelocatableValue) -> (res: Result<MaybeRelocatable, Error>)
        ensures
            mem_result_of(res) == spec_read(*self, *addr),
    {
        match find_entry(&self.data, addr) {
            Some(i) => {
                proof {
                    assert(mem_entries(self.data@)[i as int] == (self.data@[i as int].0,
                    self.data@[i as int].1@));
                    lemma_assoc_value(mem_entries(self.data@), i as int);
                }
                let v = self.data[i].1.clone();
                self.relocate_value(&v)
            },
            None => {
                proof {
                    lemma_assoc_contains(mem_entries(self.data@), *addr);
                }
                Err(Error::UnknownMemory { addr: *addr })
            },
        }
    }

    /// Reads the stored value itself, without relocation; rules consult
    /// memory this way.
    pub fn peek(&self, addr: &RelocatableValue) -> (res: Option<&MaybeRelocatable>)
        ensures
            match res {
                Some(v) => self@.dom().contains(*addr) && v@ == self@[*addr],
                None => !self@.dom().contains(*addr),
            },
    {
        match find_entry(&self.data, addr) {
            Some(i) => {
                proof {
                    assert(mem_entries(self.data@)[i as int] == (self.data@[i as int].0,
                    self.data@[i as int].1@));
                    lemma_assoc_value(mem_entries(self.data@), i as int);
                }
                Some(&self.data[i].1)
            },
            None => {
                proof {
                    lemma_assoc_contains(mem_entries(self.data@), *addr);
                }
                None
            },
        }
    }

    /// Relocates every key and value through the rules and clears the
    /// rules. Frozen memory cannot be relocated, and a failing entry
    /// leaves everything as it was.
    pub fn relocate_memory(&mut self) -> (res: Result<(), Error>)
        ensures
            old(self).frozen ==> (res matches Err(Error::MemoryFrozen)),
            match res {
                Ok(()) => {
                    &&& !old(self).frozen
                    &&& final(self).frozen == old(self).frozen
                    &&& final(self).relocation_rules@.len() == 0
                    &&& final(self).data@.len() == old(self).data@.len()
                    &&& (old(self).relocation_rules@.len() == 0 ==> *final(self) == *old(self))
                    &&& forall|i: int|
                        0 <= i < old(self).data@.len() ==> {
                            &&& Ok::<RelocatableValue, Error>((#[trigger] final(self).data@[i]).0) == spec_relocate_addr(
                                old(self).rules(),
                                old(self).data@[i].0,
                                old(self).relocation_rules@.len() as nat,
                            )
                            &&& Ok::<Cell, Error>(final(self).data@[i].1@) == spec_relocate_cell(
                                old(self).rules(),
                                old(self).data@[i].1@,
                                old(self).relocation_rules@.len() as nat,
                            )
                        }
                },
                Err(e) => {
                    &&& *final(self) == *old(self)
                    &&& old(self).frozen ==> (e matches Error::MemoryFrozen)
                    &&& !old(self).frozen ==> (exists|i: int|
                        0 <= i < old(self).data@.len() && (Err::<RelocatableValue, Error>(e) == spec_relocate_addr(
                            old(self).rules(),
                            (#[trigger] old(self).data@[i]).0,
                            old(self).relocation_rules@.len() as nat,
                        ) || Err::<Cell, Error>(e) == spec_relocate_cell(
                            old(self).rules(),
                            old(self).data@[i].1@,
                            old(self).relocation_rules@.len() as nat,
                        )))
                },
            },
    {
        if self.frozen {
            return Err(Error::MemoryFrozen);
        }
        if self.relocation_rules.len() == 0 {
            return Ok(());
        }
        let fuel = self.relocation_rules.len();
        let mut moved: Vec<(RelocatableValue, MaybeRelocatable)> = Vec::new();
        let n = self.data.len();
        let mut i: usize = 0;
        while i < n
            invariant
                *self == *old(self),
                !self.frozen,
                n == self.data@.len(),
                fuel == self.relocation_rules@.len(),
                i <= n,
                moved@.len() == i,
                forall|j: int|
                    0 <= j < i ==> {
                        &&& Ok::<RelocatableValue, Error>((#[trigger] moved@[j]).0) == spec_relocate_addr(
                            self.rules(),
                            self.data@[j].0,
                            fuel as nat,
                        )
                        &&& Ok::<Cell, Error>(moved@[j].1@) == spec_relocate_cell(
                            self.rules(),
                            self.data@[j].1@,
                            fuel as nat,
                        )
                    },
            decreases n - i,
        {
            let addr = self.data[i].0;
            let new_addr = match self.relocate_addr_fuel(addr, fuel) {
                Ok(a) => a,
                Err(e) => {
                    return Err(e);
                },
            };
            let value = self.data[i].1.clone();
            let new_value = match self.relocate_value(&value) {
                Ok(v) => v,
                Err(e) => {
                    return Err(e);
                },
            };
            moved.push((new_addr, new_value));
            i = i + 1;
        }
        self.data = moved;
        self.relocation_rules = Vec::new();
        Ok(())
    }
}

/// With no relocation rules, relocation leaves every value as it is.
pub proof fn lemma_relocate_no_rules(m: MemoryDict, c: Cell)
    requires
        m.relocation_rules@.len() == 0,
    ensures
        spec_relocate_cell(m.rules(), c, m.relocation_rules@.len() as nat) == Ok::<Cell, Error>(c),
{
    assert(m.relocation_rules@ =~= Seq::<(i64, RelocatableValue)>::empty());
    assert(m.rules() =~= Map::<i64, RelocatableValue>::empty());
}

} // verus!