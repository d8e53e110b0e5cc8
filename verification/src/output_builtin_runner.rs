use vstd::prelude::*;
use crate::assoc::{assoc_map, lemma_assoc_contains, lemma_assoc_value};
use crate::memory_dict::{spec_read, Error as MemoryDictError, MemoryDict};
use crate::memory_segments::MemorySegmentManager;
use crate::relocatable::{Cell, MaybeRelocatable, RelocatableValue};

verus! {

/// A fault of a builtin runner.
#[derive(Debug)]
pub enum Error {
    MemoryError(MemoryDictError),
    /// A value that should have been set is absent.
    UnexpectedNoneValue,
    /// The declared stop pointer must be an address.
    StopPointerNotAddress,
    /// An offset fell outside what addresses can represent.
    OffsetOutOfRange,
    /// The declared stop pointer does not point one past the used cells.
    InvalidStopPointer {
        builtin_name: String,
        expected: RelocatableValue,
        found: RelocatableValue,
    },
}

/// What the stop-pointer check of an output builtin with this state
/// yields: the untouched pointer for an excluded builtin; for an included
/// one, the pointer moved back by one, exactly when the cell under it
/// holds the address one past the used cells.
pub open spec fn spec_output_final_stack(
    included: bool,
    base: Option<RelocatableValue>,
    segments: MemorySegmentManager,
    mem: MemoryDict,
    pointer: RelocatableValue,
) -> Option<RelocatableValue> {
    if !included {
        Some(pointer)
    } else if pointer.offset == i64::MIN {
        None
    } else {
        let dec = RelocatableValue {
            segment_index: pointer.segment_index,
            offset: (pointer.offset - 1) as i64,
        };
        match spec_read(mem, dec) {
            Ok(Cell::Addr(s)) => match base {
                Some(b) => match segments.segment_used_sizes {
                    Some(sizes) => if assoc_map(sizes@).dom().contains(b.segment_index) {
                        let u = assoc_map(sizes@)[b.segment_index];
                        if u <= i64::MAX && b.offset + u <= i64::MAX && s == (RelocatableValue {
                            segment_index: b.segment_index,
                            offset: (b.offset + u) as i64,
                        }) {
                            Some(dec)
                        } else {
                            None
                        }
                    } else {
                        None
                    },
                    None => None,
                },
                None => None,
            },
            _ => None,
        }
    }
}

/// A chunk of the public memory. `start` is the offset of the first cell
/// of the page inside the builtin's segment.
#[derive(Debug)]
pub struct PublicMemoryPage {
    pub start: u64,
    pub size: u64,
}

/// The output builtin: a segment of cells the program writes for its
/// caller, closed by a stop pointer.
#[derive(Debug)]
pub struct OutputBuiltinRunner {
    pub included: bool,
    /// Maps a page id to its chunk of the public memory.
    pub pages: Vec<(u64, PublicMemoryPage)>,
    /// Attribute names serialised with the builtin's additional data.
    pub attributes: Vec<String>,
    pub base: Option<RelocatableValue>,
    pub stop_ptr: Option<RelocatableValue>,
}

impl OutputBuiltinRunner {
    pub fn new(included: bool) -> (r: Self)
        ensures
            r.included == included,
            r.pages@.len() == 0,
            r.attributes@.len() == 0,
            r.base is None,
            r.stop_ptr is None,
    {
        Self {
            included,
            pages: Vec::new(),
            attributes: Vec::new(),
            base: None,
            stop_ptr: None,
        }
    }

    /// Allocates the builtin's segment and records its base.
    pub fn initialize_segments(&mut self, segments: &mut MemorySegmentManager)
        requires
            old(segments).n_segments < i64::MAX,
        ensures
            final(self).included == old(self).included,
            final(self).pages == old(self).pages,
            final(self).attributes == old(self).attributes,
            final(self).base == Some(
                RelocatableValue { segment_index: old(segments).n_segments, offset: 0 },
            ),
            final(self).stop_ptr is None,
            final(segments).n_segments == old(segments).n_segments + 1,
            final(segments).prime == old(segments).prime,
            final(segments).n_temp_segments == old(segments).n_temp_segments,
            final(segments).segment_used_sizes == old(segments).segment_used_sizes,
            final(segments).segment_sizes == old(segments).segment_sizes,
            final(segments).public_memory_offsets == old(segments).public_memory_offsets,
    {
        let base = segments.add(None);
        self.base = Some(base);
        self.stop_ptr = None;
    }

    /// The initial stack the builtin hands the program: its base when it
    /// is included, nothing otherwise.
    pub fn initial_stack(&self) -> (r: Vec<MaybeRelocatable>)
        requires
            self.included ==> self.base is Some,
        ensures
            self.included ==> r@.len() == 1 && r@[0]@ == Cell::Addr(self.base->Some_0),
            !self.included ==> r@.len() == 0,
    {
        let mut stack: Vec<MaybeRelocatable> = Vec::new();
        if self.included {
            match &self.base {
                Some(b) => {
                    stack.push(MaybeRelocatable::RelocatableValue(*b));
                },
                None => {
                    proof {
                        assert(false);
                    }
                },
            }
        }
        stack
    }

    /// The number of cells the program used in the builtin's segment,
    /// read from the computed effective sizes.
    pub fn get_used_cells(&self, segments: &MemorySegmentManager) -> (r: Result<u64, Error>)
        ensures
            match r {
                Ok(u) => {
                    &&& self.base matches Some(b)
                    &&& segments.segment_used_sizes matches Some(sizes)
                    &&& assoc_map(sizes@).dom().contains(b.segment_index)
                    &&& assoc_map(sizes@)[b.segment_index] == u
                },
                Err(Error::UnexpectedNoneValue) => self.base is None
                    || segments.segment_used_sizes is None || (self.base matches Some(b)
                    && segments.segment_used_sizes matches Some(sizes) && !assoc_map(
                    sizes@,
                ).dom().contains(b.segment_index)),
                Err(_) => false,
            },
    {
        let base = match &self.base {
            Some(b) => *b,
            None => {
                return Err(Error::UnexpectedNoneValue);
            },
        };
        let sizes = match &segments.segment_used_sizes {
            Some(s) => s,
            None => {
                return Err(Error::UnexpectedNoneValue);
            },
        };
        let mut i = sizes.len();
        while i > 0
            invariant
                i <= sizes@.len(),
                self.base == Some(base),
                segments.segment_used_sizes matches Some(sv) && sv@ == sizes@,
                forall|j: int| i <= j < sizes@.len() ==> (#[trigger] sizes@[j]).0
                    != base.segment_index,
            decreases i,
        {
            i = i - 1;
            if sizes[i].0 == base.segment_index {
                proof {
                    lemma_assoc_value(sizes@, i as int);
                }
                return Ok(sizes[i].1);
            }
        }
        proof {
            lemma_assoc_contains(sizes@, base.segment_index);
        }
        Err(Error::UnexpectedNoneValue)
    }

    /// The used and allocated cell counts; the output builtin allocates
    /// exactly what the program uses, so the two always agree.
    pub fn get_used_cells_and_allocated_size(&self, segments: &MemorySegmentManager) -> (r:
        Result<(u64, u64), Error>)
        ensures
            match r {
                Ok((used, allocated)) => {
                    &&& used == allocated
                    &&& self.base matches Some(b)
                    &&& segments.segment_used_sizes matches Some(sizes)
                    &&& assoc_map(sizes@).dom().contains(b.segment_index)
                    &&& assoc_map(sizes@)[b.segment_index] == used
                },
                Err(_) => true,
            },
    {
        match self.get_used_cells(segments) {
            Ok(u) => Ok((u, u)),
            Err(e) => Err(e),
        }
    }

    /// Reads the declared stop pointer from under the given pointer and
    /// checks that it points one past the used cells; returns the moved
    /// pointer. An excluded builtin checks nothing.
    pub fn final_stack(
        &mut self,
        segments: &MemorySegmentManager,
        memory: &MemoryDict,
        pointer: RelocatableValue,
    ) -> (r: Result<RelocatableValue, Error>)
        ensures
            final(self).included == old(self).included,
            final(self).base == old(self).base,
            !old(self).included ==> match r {
                Ok(p) => p == pointer && final(self).stop_ptr == old(self).base,
                Err(_) => false,
            },
            old(self).included ==> match r {
                Ok(p) => {
                    &&& p.segment_index == pointer.segment_index
                    &&& p.offset == pointer.offset - 1
                    &&& spec_read(*memory, p) matches Ok(c) && c matches Cell::Addr(s) && final(self).stop_ptr == Some(s)
                    &&& old(self).base matches Some(b)
                    &&& ({
                        let s = final(self).stop_ptr->Some_0;
                        &&& s.segment_index == b.segment_index
                        &&& segments.segment_used_sizes matches Some(sizes) && assoc_map(
                            sizes@,
                        ).dom().contains(b.segment_index) && s.offset == b.offset + assoc_map(
                            sizes@,
                        )[b.segment_index]
                    })
                },
                Err(Error::InvalidStopPointer { builtin_name, expected, found }) => {
                    &&& builtin_name@ == "output"@
                    &&& spec_read(
                        *memory,
                        RelocatableValue {
                            segment_index: pointer.segment_index,
                            offset: (pointer.offset - 1) as i64,
                        },
                    ) == Ok::<Cell, MemoryDictError>(Cell::Addr(found))
                    &&& old(self).base matches Some(b) && expected.segment_index
                        == b.segment_index && (segments.segment_used_sizes matches Some(sizes)
                        && assoc_map(sizes@).dom().contains(b.segment_index) && expected.offset
                        == b.offset + assoc_map(sizes@)[b.segment_index])
                    &&& found != expected
                },
                Err(_) => true,
            },
            r matches Ok(p) ==> spec_output_final_stack(
                old(self).included,
                old(self).base,
                *segments,
                *memory,
                pointer,
            ) == Some(p),
            spec_output_final_stack(
                old(self).included,
                old(self).base,
                *segments,
                *memory,
                pointer,
            ) matches Some(p) ==> r matches Ok(p2) && p2 == p,
    {
        if self.included {
            if pointer.offset == i64::MIN {
                return Err(Error::OffsetOutOfRange);
            }
            let pointer_minus_one = RelocatableValue::new(pointer.segment_index, pointer.offset
                - 1);
            let stop_ptr = match memory.index(&pointer_minus_one) {
                Ok(MaybeRelocatable::RelocatableValue(v)) => v,
                Ok(MaybeRelocatable::Int(_)) => {
                    return Err(Error::StopPointerNotAddress);
                },
                Err(e) => {
                    return Err(Error::MemoryError(e));
                },
            };
            self.stop_ptr = Some(stop_ptr);
            let used = match self.get_used_cells(segments) {
                Ok(u) => u,
                Err(e) => {
                    return Err(e);
                },
            };
            let base = match &self.base {
                Some(b) => *b,
                None => {
                    return Err(Error::UnexpectedNoneValue);
                },
            };
            let fits: bool = if base.offset >= 0 {
                used <= ((i64::MAX - base.offset) as u64)
            } else {
                used <= (i64::MAX as u64)
            };
            if !fits {
                return Err(Error::OffsetOutOfRange);
            }
            let expected = RelocatableValue::new(base.segment_index, base.offset + (used as i64));
            if !(stop_ptr == expected) {
                return Err(
                    Error::InvalidStopPointer {
                        builtin_name: String::from_str("output"),
                        expected,
                        found: stop_ptr,
                    },
                );
            }
            Ok(pointer_minus_one)
        } else {
            self.stop_ptr = self.base;
            Ok(pointer)
        }
    }
}

} // verus!
