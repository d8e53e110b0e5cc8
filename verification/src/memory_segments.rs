use vstd::prelude::*;
use crate::assoc::{assoc_map, lemma_assoc_contains, lemma_assoc_push};
use crate::felt::Felt;
use crate::memory_dict::{Error as MemoryDictError, MemoryDict};
use crate::relocatable::{Cell, MaybeRelocatable, RelocatableValue};

verus! {

/// A fault of the segment manager.
#[derive(Debug)]
pub enum Error {
    /// Effective sizes can only be computed on frozen memory.
    MemoryNotFrozen,
}

/// The address `j` cells past `ptr`.
pub open spec fn addr_at(ptr: RelocatableValue, j: int) -> RelocatableValue {
    RelocatableValue { segment_index: ptr.segment_index, offset: (ptr.offset + j) as i64 }
}

/// `u` is the used size of segment `s`: one past the largest written
/// offset, or zero where nothing non-negative is written.
pub open spec fn is_used_size(m: Map<RelocatableValue, Cell>, s: i64, u: nat) -> bool {
    &&& forall|k: RelocatableValue|
        #[trigger] m.dom().contains(k) && k.segment_index == s ==> k.offset < u
    &&& (u == 0 || exists|k: RelocatableValue|
        #[trigger] m.dom().contains(k) && k.segment_index == s && k.offset + 1 == u)
}

/// The used size of a segment, read off the memory's entries.
pub fn segment_used_size(memory: &MemoryDict, s: i64) -> (u: u64)
    ensures
        is_used_size(memory@, s, u as nat),
{
    let n = memory.data.len();
    let mut cur: u64 = 0;
    let mut i: usize = 0;
    while i < n
        invariant
            n == memory.data@.len(),
            i <= n,
            cur <= 0x8000_0000_0000_0000,
            forall|j: int|
                0 <= j < i && (#[trigger] memory.data@[j]).0.segment_index == s
                    ==> memory.data@[j].0.offset < cur,
            cur == 0 || exists|j: int|
                0 <= j < i && (#[trigger] memory.data@[j]).0.segment_index == s
                    && memory.data@[j].0.offset + 1 == cur,
        decreases n - i,
    {
        let key = memory.data[i].0;
        if key.segment_index == s && key.offset >= 0 {
            let cand: u64 = (key.offset as u64) + 1;
            if cand > cur {
                cur = cand;
            }
        }
        i = i + 1;
    }
    proof {
        assert forall|k: RelocatableValue|
            #[trigger] memory@.dom().contains(k) && k.segment_index == s implies k.offset
            < cur by {
            lemma_assoc_contains(crate::memory_dict::mem_entries(memory.data@), k);
            let j = choose|j: int|
                0 <= j < crate::memory_dict::mem_entries(memory.data@).len()
                    && (#[trigger] crate::memory_dict::mem_entries(memory.data@)[j]).0 == k;
            assert(memory.data@[j].0 == k);
        }
        if cur > 0 {
            let j = choose|j: int|
                0 <= j < memory.data@.len() && (#[trigger] memory.data@[j]).0.segment_index == s
                    && memory.data@[j].0.offset + 1 == cur;
            let k = memory.data@[j].0;
            lemma_assoc_contains(crate::memory_dict::mem_entries(memory.data@), k);
            assert((crate::memory_dict::mem_entries(memory.data@)[j]).0 == k);
            assert(memory@.dom().contains(k));
        }
    }
    cur
}

/// Manages the list of memory segments, and allows relocating them once
/// their sizes are known.
#[derive(Debug)]
pub struct MemorySegmentManager {
    pub prime: Felt,
    /// Number of segments.
    pub n_segments: i64,
    /// A map from segment index to its finalised size.
    pub segment_sizes: Vec<(i64, u64)>,
    /// Computed once after freezing, then cached.
    pub segment_used_sizes: Option<Vec<(i64, u64)>>,
    /// A map from segment index to (offset, page id) pairs that make up
    /// the public memory.
    pub public_memory_offsets: Vec<(i64, Vec<(u64, u64)>)>,
    /// The number of temporary segments.
    pub n_temp_segments: i64,
}

impl MemorySegmentManager {
    pub fn new(prime: Felt) -> (r: Self)
        ensures
            r.prime@ == prime@,
            r.n_segments == 0,
            r.n_temp_segments == 0,
            r.segment_sizes@.len() == 0,
            r.segment_used_sizes is None,
            r.public_memory_offsets@.len() == 0,
    {
        Self {
            prime,
            n_segments: 0,
            segment_sizes: Vec::new(),
            segment_used_sizes: None,
            public_memory_offsets: Vec::new(),
            n_temp_segments: 0,
        }
    }

    /// Adds a new segment and returns its starting location. If a size is
    /// given the segment is finalised with it.
    pub fn add(&mut self, size: Option<u64>) -> (r: RelocatableValue)
        requires
            old(self).n_segments < i64::MAX,
        ensures
            r.segment_index == old(self).n_segments,
            r.offset == 0,
            final(self).n_segments == old(self).n_segments + 1,
            final(self).prime == old(self).prime,
            final(self).n_temp_segments == old(self).n_temp_segments,
            final(self).segment_used_sizes == old(self).segment_used_sizes,
            match size {
                Some(s) => final(self).sizes() == old(self).sizes().insert(
                    old(self).n_segments,
                    s,
                ) && final(self).public_offsets() == old(self).public_offsets().insert(
                    old(self).n_segments,
                    Seq::<(u64, u64)>::empty(),
                ),
                None => final(self).segment_sizes == old(self).segment_sizes
                    && final(self).public_memory_offsets == old(self).public_memory_offsets,
            },
    {
        let segment_index = self.n_segments;
        self.n_segments = self.n_segments + 1;
        match size {
            Some(s) => {
                self.finalize(segment_index, Some(s), Vec::new());
            },
            None => {},
        }
        RelocatableValue::new(segment_index, 0)
    }

    /// Adds a new temporary segment and returns its starting location;
    /// temporary segments have negative indices.
    pub fn add_temp_segment(&mut self) -> (r: RelocatableValue)
        requires
            0 <= old(self).n_temp_segments < i64::MAX,
        ensures
            r.segment_index == -(old(self).n_temp_segments + 1),
            r.offset == 0,
            *final(self) == (MemorySegmentManager {
                n_temp_segments: (old(self).n_temp_segments + 1) as i64,
                ..*old(self)
            }),
    {
        self.n_temp_segments = self.n_temp_segments + 1;
        RelocatableValue::new(-self.n_temp_segments, 0)
    }

    /// The finalised sizes as a map.
    pub open spec fn sizes(&self) -> Map<i64, u64> {
        assoc_map(self.segment_sizes@)
    }

    /// The public-memory offsets as a map from segment index to its
    /// (offset, page id) pairs.
    pub open spec fn public_offsets(&self) -> Map<i64, Seq<(u64, u64)>> {
        assoc_map(
            self.public_memory_offsets@.map_values(
                |e: (i64, Vec<(u64, u64)>)| (e.0, e.1@),
            ),
        )
    }

    /// Records a segment's size (for relocation) and its public-memory
    /// offsets.
    pub fn finalize(
        &mut self,
        segment_index: i64,
        size: Option<u64>,
        public_memory: Vec<(u64, u64)>,
    )
        ensures
            final(self).prime == old(self).prime,
            final(self).n_segments == old(self).n_segments,
            final(self).n_temp_segments == old(self).n_temp_segments,
            final(self).segment_used_sizes == old(self).segment_used_sizes,
            match size {
                Some(s) => final(self).sizes() == old(self).sizes().insert(segment_index, s),
                None => final(self).segment_sizes == old(self).segment_sizes,
            },
            final(self).public_offsets() == old(self).public_offsets().insert(
                segment_index,
                public_memory@,
            ),
    {
        match size {
            Some(s) => {
                let ghost pre = self.segment_sizes@;
                self.segment_sizes.push((segment_index, s));
                proof {
                    lemma_assoc_push(pre, segment_index, s);
                }
            },
            None => {},
        }
        let ghost prepub = self.public_memory_offsets@;
        self.public_memory_offsets.push((segment_index, public_memory));
        proof {
            let f = |e: (i64, Vec<(u64, u64)>)| (e.0, e.1@);
            assert(self.public_memory_offsets@.map_values(f) =~= prepub.map_values(f).push(
                (segment_index, public_memory@),
            ));
            lemma_assoc_push(prepub.map_values(f), segment_index, public_memory@);
        }
    }

    /// Computes the used size of every segment in range and caches it;
    /// a repeat call is a no-op. The memory must be frozen first.
    pub fn compute_effective_sizes(&mut self, memory: &MemoryDict, include_tmp_segments: bool)
        -> (r: Result<(), Error>)
        requires
            old(self).n_segments >= 0,
            old(self).n_temp_segments >= 0,
        ensures
            match r {
                Ok(()) => if old(self).segment_used_sizes is Some {
                    *final(self) == *old(self)
                } else {
                    &&& memory.frozen
                    &&& *final(self) == (MemorySegmentManager {
                        segment_used_sizes: final(self).segment_used_sizes,
                        ..*old(self)
                    })
                    &&& {
                        let first = if include_tmp_segments {
                            -old(self).n_temp_segments as int
                        } else {
                            0int
                        };
                        final(self).segment_used_sizes matches Some(sizes)
                            && sizes@.len() == old(self).n_segments - first && forall|j: int|
                            0 <= j < sizes@.len() ==> (#[trigger] sizes@[j]).0 == first + j
                                && is_used_size(memory@, sizes@[j].0, sizes@[j].1 as nat)
                    }
                },
                Err(Error::MemoryNotFrozen) => !memory.frozen
                    && old(self).segment_used_sizes is None && *final(self) == *old(self),
            },
    {
        if self.segment_used_sizes.is_some() {
            // Already cached.
            return Ok(());
        }
        if !memory.is_frozen() {
            return Err(Error::MemoryNotFrozen);
        }
        let first: i64 = if include_tmp_segments {
            -self.n_temp_segments
        } else {
            0
        };
        let mut sizes: Vec<(i64, u64)> = Vec::new();
        let mut index: i64 = first;
        while index < self.n_segments
            invariant
                *self == *old(self),
                first <= index <= self.n_segments || (first > self.n_segments && index == first),
                sizes@.len() == index - first,
                forall|j: int|
                    0 <= j < sizes@.len() ==> (#[trigger] sizes@[j]).0 == first + j
                        && is_used_size(memory@, sizes@[j].0, sizes@[j].1 as nat),
            decreases self.n_segments - index,
        {
            let u = segment_used_size(memory, index);
            sizes.push((index, u));
            index = index + 1;
        }
        self.segment_used_sizes = Some(sizes);
        Ok(())
    }

    /// Writes the data into memory at `ptr` and returns the first address
    /// after it. Every cell is written through the write-once store, so a
    /// conflicting cell surfaces as an error.
    pub fn load_data(
        &self,
        memory: &mut MemoryDict,
        ptr: RelocatableValue,
        data: &Vec<MaybeRelocatable>,
    ) -> (r: Result<RelocatableValue, MemoryDictError>)
        requires
            ptr.offset >= 0,
            ptr.offset + data@.len() <= i64::MAX,
        ensures
            final(memory).frozen == old(memory).frozen,
            final(memory).relocation_rules == old(memory).relocation_rules,
            forall|a: RelocatableValue| #[trigger] old(memory)@.dom().contains(a)
                ==> final(memory)@.dom().contains(a)
                    && final(memory)@[a] == old(memory)@[a],
            match r {
                Ok(end) => {
                    &&& end.segment_index == ptr.segment_index
                    &&& end.offset == ptr.offset + data@.len()
                    &&& forall|i: int|
                        0 <= i < data@.len() ==> final(memory)@.dom().contains(
                            #[trigger] addr_at(ptr, i),
                        ) && final(memory)@[addr_at(ptr, i)] == data@[i]@
                    &&& forall|a: RelocatableValue| #[trigger] final(memory)@.dom().contains(a)
                        ==> old(memory)@.dom().contains(a) || (a.segment_index
                        == ptr.segment_index && ptr.offset <= a.offset < ptr.offset
                        + data@.len())
                },
                Err(_) => true,
            },
            (!old(memory).frozen && forall|i: int|
                0 <= i < data@.len() ==> !old(memory)@.dom().contains(#[trigger] addr_at(ptr, i)))
                ==> r is Ok,
    {
        let n = data.len();
        let mut i: usize = 0;
        while i < n
            invariant
                n == data@.len(),
                i <= n,
                ptr.offset >= 0,
                ptr.offset + n <= i64::MAX,
                (!old(memory).frozen && forall|k: int|
                    0 <= k < n ==> !old(memory)@.dom().contains(#[trigger] addr_at(ptr, k)))
                    ==> forall|a: RelocatableValue| #[trigger] memory@.dom().contains(a)
                    ==> old(memory)@.dom().contains(a) || (a.segment_index == ptr.segment_index
                        && ptr.offset <= a.offset < ptr.offset + i),
                memory.frozen == old(memory).frozen,
                memory.relocation_rules == old(memory).relocation_rules,
                forall|a: RelocatableValue| #[trigger] old(memory)@.dom().contains(a)
                    ==> memory@.dom().contains(a) && memory@[a] == old(memory)@[a],
                forall|j: int|
                    0 <= j < i ==> memory@.dom().contains(#[trigger] addr_at(ptr, j))
                        && memory@[addr_at(ptr, j)] == data@[j]@,
                forall|a: RelocatableValue| #[trigger] memory@.dom().contains(a)
                    ==> old(memory)@.dom().contains(a) || (a.segment_index == ptr.segment_index
                        && ptr.offset <= a.offset < ptr.offset + i),
            decreases n - i,
        {
            let addr = RelocatableValue::new(ptr.segment_index, ptr.offset + (i as i64));
            let value = data[i].clone();
            match memory.index_set(addr, value) {
                Ok(()) => {},
                Err(e) => {
                    proof {
                        if !old(memory).frozen && forall|k: int|
                            0 <= k < n ==> !old(memory)@.dom().contains(
                                #[trigger] addr_at(ptr, k),
                            ) {
                            assert(!old(memory)@.dom().contains(addr_at(ptr, i as int)));
                            assert(addr == addr_at(ptr, i as int));
                            assert(!memory@.dom().contains(addr));
                            assert(false);
                        }
                    }
                    return Err(e);
                },
            }
            proof {
                assert(addr_at(ptr, i as int) == addr);
            }
            i = i + 1;
        }
        Ok(RelocatableValue::new(ptr.segment_index, ptr.offset + (n as i64)))
    }
}

} // verus!
