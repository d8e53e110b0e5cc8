use vstd::prelude::*;
use crate::assoc::assoc_map;
use crate::felt::Felt;
use crate::instances::CairoLayout;
use crate::memory_dict::{Error as MemoryDictError, MemoryDict, spec_read};
use crate::memory_segments::{addr_at, Error as MemorySegmentError, MemorySegmentManager};
use crate::output_builtin_runner::{Error as BuiltinRunnerError, OutputBuiltinRunner};
use crate::program::Program;
use crate::relocatable::{Cell, MaybeRelocatable, RelocatableValue};
use crate::utils::RunResources;
use crate::validated_memory_dict::ValidatedMemoryDict;
use crate::vm_core::{RunContext, VirtualMachine, VirtualMachineError};

verus! {

/// A fault of the runner.
#[derive(Debug)]
pub enum Error {
    /// The program names builtins the layout does not have.
    BuiltinsNotPresent { non_existing_builtins: Vec<String>, layout: String },
    /// The layout names a builtin this runner cannot build.
    BuiltinNotSupported { name: String },
    /// The program's builtins must come from the supported list.
    BuiltinsNotSubsequence {
        supported_builtin_list: Vec<String>,
        program_builtins: Vec<String>,
    },
    /// A declared builtin has no runner and none may be missing.
    MissingBuiltin,
    /// The program has no entry point.
    MissingMain,
    SegmentsNotInitialized,
    FunctionEntrypointNotInitialized,
    StateNotInitialized,
    VmNotInitialized,
    MemoryDictError(MemoryDictError),
    MemorySegmentError(MemorySegmentError),
    VirtualMachineError(VirtualMachineError),
    BuiltinRunnerError(BuiltinRunnerError),
    /// Ending the run twice is refused.
    EndRunCalledTwice,
    /// The run must have ended before return values are read.
    RunNotEnded,
    /// A missing but allowed builtin must leave a zero stop pointer.
    NonZeroMissingBuiltinStopPointer { builtin_name: String },
    CannotAddReturnValuesAfterSegmentFinalization,
    /// The step budget ran out before the target location was reached.
    EndOfProgramNotReached,
    /// A step was attempted at the final location.
    ExecutionReachedEnd,
    /// An offset fell outside what addresses can represent.
    OffsetOutOfRange,
    UnexpectedNoneValue,
}

/// Drives a program: builds the builtins, lays out the segments, loads
/// program and stack, and steps the machine to its final location.
#[derive(Debug)]
pub struct CairoRunner {
    pub program: Program,
    pub instance: CairoLayout,
    pub builtin_runners: Vec<(String, OutputBuiltinRunner)>,
    pub original_steps: Option<u64>,
    pub proof_mode: bool,
    pub allow_missing_builtins: bool,
    pub validated_memory: ValidatedMemoryDict,
    pub segments: MemorySegmentManager,
    pub final_pc: Option<RelocatableValue>,
    /// Set once the run has ended; a second end is refused.
    pub run_ended: bool,
    /// Set once the segments are finalised.
    pub segments_finalized: bool,
    /// The addresses the machine accessed, after relocation.
    pub accessed_addresses: Option<Vec<RelocatableValue>>,
    pub program_base: Option<RelocatableValue>,
    pub execution_base: Option<RelocatableValue>,
    pub execution_public_memory: Option<Vec<u64>>,
    pub initial_pc: Option<RelocatableValue>,
    pub initial_ap: Option<RelocatableValue>,
    pub initial_fp: Option<RelocatableValue>,
    pub vm: Option<VirtualMachine>,
}

/// Whether a name is among a list of names.
pub open spec fn name_in(names: Seq<Seq<char>>, n: Seq<char>) -> bool {
    exists|j: int| 0 <= j < names.len() && names[j] == n
}

/// Whether a string equal to `n` is in the vector.
fn contains_name(names: &Vec<String>, n: &String) -> (r: bool)
    ensures
        r == name_in(names@.map_values(|s: String| s@), n@),
{
    let ghost mapped = names@.map_values(|s: String| s@);
    let m = names.len();
    let mut j: usize = 0;
    while j < m
        invariant
            m == names@.len(),
            mapped == names@.map_values(|s: String| s@),
            j <= m,
            forall|k: int| 0 <= k < j ==> (#[trigger] mapped[k]) != n@,
        decreases m - j,
    {
        if names[j].eq(n) {
            proof {
                assert(mapped[j as int] == n@);
            }
            return true;
        }
        proof {
            assert(mapped[j as int] == names@[j as int]@);
        }
        j = j + 1;
    }
    false
}

/// The state under which laying a program and a stack out must succeed:
/// both bases stand at the start of distinct permanent segments, the
/// lengths fit, the memory is live, and the two regions are untouched.
pub open spec fn init_state_ready(r: CairoRunner, entrypoint: u64, stack_len: nat) -> bool {
    &&& r.program_base matches Some(pb)
    &&& r.execution_base matches Some(eb)
    &&& r.program_base->Some_0.offset >= 0
    &&& r.execution_base->Some_0.offset >= 0
    &&& r.program_base->Some_0.segment_index != r.execution_base->Some_0.segment_index
    &&& entrypoint + r.program_base->Some_0.offset <= i64::MAX
    &&& r.program_base->Some_0.offset + r.program.spec_data().len() <= i64::MAX
    &&& r.execution_base->Some_0.offset + stack_len <= i64::MAX
    &&& !r.validated_memory.memory.frozen
    &&& (forall|i: int|
        0 <= i < r.program.spec_data().len() ==> !r.validated_memory.memory@.dom().contains(
            #[trigger] addr_at(r.program_base->Some_0, i),
        ))
    &&& (forall|i: int|
        0 <= i < stack_len ==> !r.validated_memory.memory@.dom().contains(
            #[trigger] addr_at(r.execution_base->Some_0, i),
        ))
}

/// The mathematical values of a row of cells.
pub open spec fn cell_views(s: Seq<MaybeRelocatable>) -> Seq<Cell> {
    s.map_values(|v: MaybeRelocatable| v@)
}

/// The first runner entry carrying a name, if any: its included flag and
/// its base.
pub open spec fn find_runner(
    runners: Seq<(String, OutputBuiltinRunner)>,
    name: Seq<char>,
) -> Option<(bool, Option<RelocatableValue>)>
    decreases runners.len(),
{
    if runners.len() == 0 {
        None
    } else if runners[0].0@ == name {
        Some((runners[0].1.included, runners[0].1.base))
    } else {
        find_runner(runners.skip(1), name)
    }
}

/// The initial stack the declared builtins contribute, in declaration
/// order: an included builtin pushes its base, an excluded one nothing,
/// and a missing but allowed one a zero; a missing builtin otherwise, or
/// an included one without a base, is the fault.
pub open spec fn spec_builtin_stack(
    runners: Seq<(String, OutputBuiltinRunner)>,
    names: Seq<Seq<char>>,
    allow: bool,
) -> Result<Seq<Cell>, Error>
    decreases names.len(),
{
    if names.len() == 0 {
        Ok(Seq::empty())
    } else {
        match spec_builtin_stack(runners, names.drop_last(), allow) {
            Err(e) => Err(e),
            Ok(st) => match find_runner(runners, names.last()) {
                Some(ib) => if ib.0 {
                    match ib.1 {
                        Some(b) => Ok(st.push(Cell::Addr(b))),
                        None => Err(Error::SegmentsNotInitialized),
                    }
                } else {
                    Ok(st)
                },
                None => if allow {
                    Ok(st.push(Cell::Int(0)))
                } else {
                    Err(Error::MissingBuiltin)
                },
            },
        }
    }
}

/// A faulted stack prefix keeps its fault under extension.
proof fn lemma_stack_prefix_err(
    runners: Seq<(String, OutputBuiltinRunner)>,
    names: Seq<Seq<char>>,
    allow: bool,
    i: int,
    j: int,
)
    requires
        0 <= i <= j <= names.len(),
        spec_builtin_stack(runners, names.subrange(0, i), allow) is Err,
    ensures
        spec_builtin_stack(runners, names.subrange(0, j), allow) == spec_builtin_stack(
            runners,
            names.subrange(0, i),
            allow,
        ),
    decreases j - i,
{
    if i < j {
        lemma_stack_prefix_err(runners, names, allow, i, j - 1);
        assert(names.subrange(0, j).drop_last() =~= names.subrange(0, j - 1));
    }
}

/// One reverse step of the return-value walk for one declared builtin:
/// its runner validates the stop pointer under the pointer, or, for a
/// missing but allowed builtin, the cell under the pointer must be zero.
pub open spec fn spec_return_step(
    runners: Seq<(String, OutputBuiltinRunner)>,
    segments: MemorySegmentManager,
    mem: MemoryDict,
    allow: bool,
    name: Seq<char>,
    ptr: RelocatableValue,
) -> Option<RelocatableValue> {
    match find_runner(runners, name) {
        Some(ib) => crate::output_builtin_runner::spec_output_final_stack(
            ib.0,
            ib.1,
            segments,
            mem,
            ptr,
        ),
        None => if allow && ptr.offset != i64::MIN {
            let dec = RelocatableValue {
                segment_index: ptr.segment_index,
                offset: (ptr.offset - 1) as i64,
            };
            if spec_read(mem, dec) == Ok::<Cell, crate::memory_dict::Error>(Cell::Int(0)) {
                Some(dec)
            } else {
                None
            }
        } else {
            None
        },
    }
}

/// The pointer after every declared builtin, walked from the last to the
/// first, has taken its turn.
pub open spec fn spec_return_walk(
    runners: Seq<(String, OutputBuiltinRunner)>,
    segments: MemorySegmentManager,
    mem: MemoryDict,
    allow: bool,
    names: Seq<Seq<char>>,
    ptr: RelocatableValue,
) -> Option<RelocatableValue>
    decreases names.len(),
{
    if names.len() == 0 {
        Some(ptr)
    } else {
        match spec_return_step(runners, segments, mem, allow, names.last(), ptr) {
            Some(p1) => spec_return_walk(runners, segments, mem, allow, names.drop_last(), p1),
            None => None,
        }
    }
}

/// Two runner lists of one shape: same names, included flags and bases.
pub open spec fn runner_shape(
    a: Seq<(String, OutputBuiltinRunner)>,
    b: Seq<(String, OutputBuiltinRunner)>,
) -> bool {
    a.len() == b.len() && forall|k: int|
        0 <= k < a.len() ==> (#[trigger] a[k]).0@ == b[k].0@ && a[k].1.included == b[
        k].1.included && a[k].1.base == b[k].1.base
}

/// Lists of one shape find the same runner.
proof fn lemma_find_runner_shape(
    a: Seq<(String, OutputBuiltinRunner)>,
    b: Seq<(String, OutputBuiltinRunner)>,
    name: Seq<char>,
)
    requires
        runner_shape(a, b),
    ensures
        find_runner(a, name) == find_runner(b, name),
    decreases a.len(),
{
    if a.len() > 0 {
        assert(a.skip(1).len() == b.skip(1).len());
        assert forall|k: int| 0 <= k < a.skip(1).len() implies (#[trigger] a.skip(1)[k]).0@
            == b.skip(1)[k].0@ && a.skip(1)[k].1.included == b.skip(1)[k].1.included && a.skip(
            1,
        )[k].1.base == b.skip(1)[k].1.base by {
            assert(a.skip(1)[k] == a[k + 1]);
            assert(b.skip(1)[k] == b[k + 1]);
        }
        lemma_find_runner_shape(a.skip(1), b.skip(1), name);
    }
}

/// Whether `sub` occurs inside `sup` in order.
pub open spec fn is_subsequence(sub: Seq<Seq<char>>, sup: Seq<Seq<char>>) -> bool
    decreases sub.len() + sup.len(),
{
    if sub.len() == 0 {
        true
    } else if sup.len() == 0 {
        false
    } else if sub[0] == sup[0] {
        is_subsequence(sub.skip(1), sup.skip(1))
    } else {
        is_subsequence(sub, sup.skip(1))
    }
}

/// The canonical order of the supported builtins.
pub open spec fn canonical_builtins() -> Seq<Seq<char>> {
    seq!["output"@, "pedersen"@, "range_check"@, "ecdsa"@, "bitwise"@]
}

/// Whether the program's builtin list stands inside `sup` in order; the
/// scan is greedy, which the definition of `is_subsequence` justifies.
fn check_subsequence(sub: &Vec<String>, sup: &Vec<String>) -> (r: bool)
    ensures
        r == is_subsequence(
            sub@.map_values(|s: String| s@),
            sup@.map_values(|s: String| s@),
        ),
{
    let ghost subv = sub@.map_values(|s: String| s@);
    let ghost supv = sup@.map_values(|s: String| s@);
    proof {
        assert(subv.skip(0) =~= subv);
        assert(supv.skip(0) =~= supv);
    }
    let mut i: usize = 0;
    let mut j: usize = 0;
    while i < sub.len() && j < sup.len()
        invariant
            subv == sub@.map_values(|s: String| s@),
            supv == sup@.map_values(|s: String| s@),
            i <= sub@.len(),
            j <= sup@.len(),
            is_subsequence(subv, supv) == is_subsequence(
                subv.skip(i as int),
                supv.skip(j as int),
            ),
        decreases sup@.len() - j,
    {
        proof {
            assert(subv.skip(i as int)[0] == subv[i as int]);
            assert(supv.skip(j as int)[0] == supv[j as int]);
            assert(subv.skip(i as int).skip(1) =~= subv.skip(i + 1));
            assert(supv.skip(j as int).skip(1) =~= supv.skip(j + 1));
        }
        if sub[i].eq(&sup[j]) {
            i = i + 1;
        }
        j = j + 1;
    }
    proof {
        if i == sub@.len() {
            assert(subv.skip(i as int) =~= Seq::<Seq<char>>::empty());
        } else {
            assert(subv.skip(i as int).len() > 0);
            assert(supv.skip(j as int) =~= Seq::<Seq<char>>::empty());
        }
    }
    i == sub.len()
}

/// Which runners a layout yields: one per layout builtin the program
/// lists (or, in proof mode, every one), each carrying its included
/// flag; the first demanded builtin this runner cannot build is the
/// fault.
pub open spec fn spec_runner_plan(
    builtins: Seq<(String, crate::builtins::BuiltinDefinition)>,
    prog: Seq<Seq<char>>,
    proof_mode: bool,
) -> Result<Seq<(Seq<char>, bool)>, Seq<char>>
    decreases builtins.len(),
{
    if builtins.len() == 0 {
        Ok(Seq::empty())
    } else {
        match spec_runner_plan(builtins.drop_last(), prog, proof_mode) {
            Err(n) => Err(n),
            Ok(lst) => {
                let name = builtins.last().0@;
                let included = name_in(prog, name);
                if included || proof_mode {
                    if name == "output"@ {
                        Ok(lst.push((name, included)))
                    } else {
                        Err(name)
                    }
                } else {
                    Ok(lst)
                }
            },
        }
    }
}

/// A faulted plan prefix keeps its fault under extension.
proof fn lemma_plan_prefix_err(
    builtins: Seq<(String, crate::builtins::BuiltinDefinition)>,
    prog: Seq<Seq<char>>,
    proof_mode: bool,
    i: int,
    j: int,
)
    requires
        0 <= i <= j <= builtins.len(),
        spec_runner_plan(builtins.subrange(0, i), prog, proof_mode) is Err,
    ensures
        spec_runner_plan(builtins.subrange(0, j), prog, proof_mode) == spec_runner_plan(
            builtins.subrange(0, i),
            prog,
            proof_mode,
        ),
    decreases j - i,
{
    if i < j {
        lemma_plan_prefix_err(builtins, prog, proof_mode, i, j - 1);
        assert(builtins.subrange(0, j).drop_last() =~= builtins.subrange(0, j - 1));
    }
}

impl CairoRunner {
    /// Builds a runner: every program builtin must exist in the layout
    /// (unless missing builtins are allowed) and come from the supported
    /// list; the layout's builtins get their runners.
    pub fn new(
        program: Program,
        instance: CairoLayout,
        memory: MemoryDict,
        proof_mode: bool,
        allow_missing_builtins: bool,
    ) -> (r: Result<Self, Error>)
        requires
            program.spec_prime() > 1,
        ensures
            ({
                let prog = program.spec_builtins();
                let layout_names = instance.builtins@.map_values(
                    |e: (String, crate::builtins::BuiltinDefinition)| e.0@,
                );
                let missing = !allow_missing_builtins && exists|j: int|
                    0 <= j < prog.len() && !name_in(layout_names, #[trigger] prog[j]);
                let out_of_order = !is_subsequence(prog, canonical_builtins());
                let plan = spec_runner_plan(instance.builtins@, prog, proof_mode);
                &&& ((r matches Err(Error::BuiltinsNotPresent { .. })) <==> missing)
                &&& ((r matches Err(Error::BuiltinsNotSubsequence { .. })) <==> (!missing
                    && out_of_order))
                &&& ((r matches Err(Error::BuiltinNotSupported { .. })) <==> (!missing
                    && !out_of_order && plan is Err))
                &&& (r is Ok <==> (!missing && !out_of_order && plan is Ok))
                &&& (r matches Ok(runner) ==> plan matches Ok(lst)
                    && runner.builtin_runners@.len() == lst.len() && (forall|j: int|
                    0 <= j < lst.len() ==> (#[trigger] runner.builtin_runners@[j]).0@ == lst[
                    j].0 && runner.builtin_runners@[j].1.included == lst[j].1))
                &&& (r matches Ok(runner) ==> runner.builtin_runners@.len()
                    <= instance.builtins@.len())
            }),
            match r {
                Ok(runner) => {
                    &&& runner.program == program
                    &&& runner.proof_mode == proof_mode
                    &&& runner.allow_missing_builtins == allow_missing_builtins
                    &&& runner.validated_memory.memory == memory
                    &&& runner.validated_memory.validation_rules@.len() == 0
                    &&& runner.segments.n_segments == 0
                    &&& runner.segments.n_temp_segments == 0
                    &&& runner.segments.segment_used_sizes is None
                    &&& runner.segments.prime@ == program.spec_prime()
                    &&& !runner.run_ended
                    &&& !runner.segments_finalized
                    &&& runner.final_pc is None
                    &&& runner.program_base is None
                    &&& runner.execution_base is None
                    &&& runner.initial_pc is None
                    &&& runner.vm is None
                    &&& forall|j: int|
                        0 <= j < runner.builtin_runners@.len() ==> (#[trigger] runner
                            .builtin_runners@[j]).1.base is None && runner.builtin_runners@[
                        j].1.included == name_in(
                            program.spec_builtins(),
                            runner.builtin_runners@[j].0@,
                        )
                    &&& (!allow_missing_builtins ==> forall|j: int|
                        0 <= j < program.spec_builtins().len() ==> name_in(
                            instance.builtins@.map_values(
                                |e: (String, crate::builtins::BuiltinDefinition)| e.0@,
                            ),
                            #[trigger] program.spec_builtins()[j],
                        ))
                },
                Err(_) => true,
            },
    {
        if !allow_missing_builtins {
            let mut non_existing_builtins: Vec<String> = Vec::new();
            let ghost layout_names = instance.builtins@.map_values(
                |e: (String, crate::builtins::BuiltinDefinition)| e.0@,
            );
            let mut layout_name_list: Vec<String> = Vec::new();
            let nl = instance.builtins.len();
            let mut i: usize = 0;
            while i < nl
                invariant
                    nl == instance.builtins@.len(),
                    i <= nl,
                    layout_name_list@.len() == i,
                    layout_names == instance.builtins@.map_values(
                        |e: (String, crate::builtins::BuiltinDefinition)| e.0@,
                    ),
                    forall|k: int|
                        0 <= k < i ==> (#[trigger] layout_name_list@[k])@ == layout_names[k],
                decreases nl - i,
            {
                proof {
                    assert(layout_names[i as int] == instance.builtins@[i as int].0@);
                }
                layout_name_list.push(instance.builtins[i].0.clone());
                i = i + 1;
            }
            proof {
                assert(layout_name_list@.map_values(|s: String| s@) =~= layout_names);
            }
            let np = program.builtins().len();
            let mut i: usize = 0;
            while i < np
                invariant
                    np == program.spec_builtins().len(),
                    i <= np,
                    layout_name_list@.map_values(|s: String| s@) == layout_names,
                    layout_names == instance.builtins@.map_values(
                        |e: (String, crate::builtins::BuiltinDefinition)| e.0@,
                    ),
                    (non_existing_builtins@.len() == 0) == (forall|k: int|
                        0 <= k < i ==> name_in(
                            layout_names,
                            #[trigger] program.spec_builtins()[k],
                        )),
                decreases np - i,
            {
                let name = &program.builtins()[i];
                proof {
                    if non_existing_builtins@.len() > 0 {
                        let k = choose|k: int|
                            0 <= k < i && !name_in(
                                layout_names,
                                #[trigger] program.spec_builtins()[k],
                            );
                        assert(!name_in(layout_names, program.spec_builtins()[k]));
                    }
                }
                if !contains_name(&layout_name_list, name) {
                    proof {
                        assert(!name_in(layout_names, program.spec_builtins()[i as int]));
                    }
                    non_existing_builtins.push(name.clone());
                }
                i = i + 1;
            }
            if non_existing_builtins.len() > 0 {
                return Err(
                    Error::BuiltinsNotPresent {
                        non_existing_builtins,
                        layout: instance.layout_name.clone(),
                    },
                );
            }
        }
        let mut supported: Vec<String> = Vec::new();
        supported.push(String::from_str("output"));
        supported.push(String::from_str("pedersen"));
        supported.push(String::from_str("range_check"));
        supported.push(String::from_str("ecdsa"));
        supported.push(String::from_str("bitwise"));
        proof {
            assert(supported@.map_values(|s: String| s@) =~= canonical_builtins());
        }
        if !check_subsequence(program.builtins(), &supported) {
            let np = program.builtins().len();
            let mut program_builtins: Vec<String> = Vec::new();
            let mut j: usize = 0;
            while j < np
                invariant
                    np == program.spec_builtins().len(),
                    j <= np,
                decreases np - j,
            {
                program_builtins.push(program.builtins()[j].clone());
                j = j + 1;
            }
            return Err(
                Error::BuiltinsNotSubsequence {
                    supported_builtin_list: supported,
                    program_builtins,
                },
            );
        }
        let output_name = String::from_str("output");
        let mut builtin_runners: Vec<(String, OutputBuiltinRunner)> = Vec::new();
        let nl = instance.builtins.len();
        let mut i: usize = 0;
        proof {
            assert(instance.builtins@.subrange(0, 0) =~= Seq::<
                (String, crate::builtins::BuiltinDefinition),
            >::empty());
        }
        while i < nl
            invariant
                nl == instance.builtins@.len(),
                i <= nl,
                output_name@ == "output"@,
                builtin_runners@.len() <= i,
                is_subsequence(program.spec_builtins(), canonical_builtins()),
                allow_missing_builtins || (forall|k: int|
                    0 <= k < program.spec_builtins().len() ==> name_in(
                        instance.builtins@.map_values(
                            |e: (String, crate::builtins::BuiltinDefinition)| e.0@,
                        ),
                        #[trigger] program.spec_builtins()[k],
                    )),
                spec_runner_plan(
                    instance.builtins@.subrange(0, i as int),
                    program.spec_builtins(),
                    proof_mode,
                ) matches Ok(lst) && lst.len() == builtin_runners@.len() && (forall|j: int|
                    0 <= j < lst.len() ==> (#[trigger] builtin_runners@[j]).0@ == lst[j].0
                        && builtin_runners@[j].1.included == lst[j].1),
                forall|j: int|
                    0 <= j < builtin_runners@.len() ==> (#[trigger] builtin_runners@[j]).1.base
                        is None && builtin_runners@[j].1.included == name_in(
                        program.spec_builtins(),
                        builtin_runners@[j].0@,
                    ),
            decreases nl - i,
        {
            proof {
                assert(instance.builtins@.subrange(0, i + 1).drop_last() =~= instance
                    .builtins@.subrange(0, i as int));
                assert(instance.builtins@.subrange(0, i + 1).last() == instance.builtins@[
                i as int]);
            }
            let name = &instance.builtins[i].0;
            let included = contains_name(program.builtins(), name);
            if included || proof_mode {
                if name.eq(&output_name) {
                    builtin_runners.push((name.clone(), OutputBuiltinRunner::new(included)));
                } else {
                    proof {
                        lemma_plan_prefix_err(
                            instance.builtins@,
                            program.spec_builtins(),
                            proof_mode,
                            i + 1,
                            nl as int,
                        );
                        assert(instance.builtins@.subrange(0, nl as int) =~= instance.builtins@);
                    }
                    return Err(Error::BuiltinNotSupported { name: name.clone() });
                }
            }
            i = i + 1;
        }
        proof {
            assert(instance.builtins@.subrange(0, nl as int) =~= instance.builtins@);
        }
        let prime = program.prime().clone();
        let segments = MemorySegmentManager::new(prime);
        Ok(
            Self {
                program,
                instance,
                builtin_runners,
                original_steps: None,
                proof_mode,
                allow_missing_builtins,
                validated_memory: ValidatedMemoryDict::new(memory),
                segments,
                final_pc: None,
                run_ended: false,
                segments_finalized: false,
                accessed_addresses: None,
                program_base: None,
                execution_base: None,
                execution_public_memory: None,
                initial_pc: None,
                initial_ap: None,
                initial_fp: None,
                vm: None,
            },
        )
    }

    /// Allocates the program segment, the execution segment and each
    /// builtin's segment.
    pub fn initialize_segments(&mut self)
        requires
            old(self).segments.n_segments >= 0,
            old(self).segments.n_segments + 2 + old(self).builtin_runners@.len() <= i64::MAX,
        ensures
            final(self).program_base == Some(
                RelocatableValue { segment_index: old(self).segments.n_segments, offset: 0 },
            ),
            final(self).execution_base == Some(
                RelocatableValue {
                    segment_index: (old(self).segments.n_segments + 1) as i64,
                    offset: 0,
                },
            ),
            final(self).segments.n_segments == old(self).segments.n_segments + 2 + old(self).builtin_runners@.len(),
            final(self).builtin_runners@.len() == old(self).builtin_runners@.len(),
            forall|j: int|
                0 <= j < old(self).builtin_runners@.len() ==> (#[trigger] final(self).builtin_runners@[j]).0 == old(self).builtin_runners@[j].0 && final(self).builtin_runners@[j].1.included == old(self).builtin_runners@[j].1.included
                    && final(self).builtin_runners@[j].1.base == Some(
                    RelocatableValue {
                        segment_index: (old(self).segments.n_segments + 2 + j) as i64,
                        offset: 0,
                    },
                ),
            final(self).program == old(self).program,
            final(self).validated_memory == old(self).validated_memory,
            final(self).vm == old(self).vm,
            final(self).run_ended == old(self).run_ended,
            final(self).proof_mode == old(self).proof_mode,
            final(self).allow_missing_builtins == old(self).allow_missing_builtins,
            final(self).final_pc == old(self).final_pc,
            final(self).initial_pc == old(self).initial_pc,
            final(self).segments.prime == old(self).segments.prime,
            final(self).segments.n_temp_segments == old(self).segments.n_temp_segments,
            final(self).segments.segment_used_sizes == old(self).segments.segment_used_sizes,
    {
        let pb = self.segments.add(None);
        self.program_base = Some(pb);
        let eb = self.segments.add(None);
        self.execution_base = Some(eb);
        let n = self.builtin_runners.len();
        let mut i: usize = 0;
        while i < n
            invariant
                n == self.builtin_runners@.len(),
                n == old(self).builtin_runners@.len(),
                i <= n,
                self.segments.n_segments == old(self).segments.n_segments + 2 + i,
                old(self).segments.n_segments + 2 + n <= i64::MAX,
                forall|j: int|
                    0 <= j < i ==> (#[trigger] self.builtin_runners@[j]).0 == old(self).builtin_runners@[j].0 && self.builtin_runners@[j].1.included == old(self).builtin_runners@[j].1.included && self.builtin_runners@[j].1.base == Some(
                        RelocatableValue {
                            segment_index: (old(self).segments.n_segments + 2 + j) as i64,
                            offset: 0,
                        },
                    ),
                forall|j: int|
                    i <= j < n ==> (#[trigger] self.builtin_runners@[j]) == old(self).builtin_runners@[j],
                *self == (CairoRunner {
                    builtin_runners: self.builtin_runners,
                    segments: self.segments,
                    program_base: Some(pb),
                    execution_base: Some(eb),
                    ..*old(self)
                }),
                self.segments == (MemorySegmentManager {
                    n_segments: self.segments.n_segments,
                    ..old(self).segments
                }),
            decreases n - i,
        {
            let mut entry = self.builtin_runners.remove(i);
            entry.1.initialize_segments(&mut self.segments);
            self.builtin_runners.insert(i, entry);
            i = i + 1;
        }
    }
}


impl CairoRunner {
    /// Writes data into memory at `ptr` and returns the first address
    /// after it.
    pub fn load_data(
        &mut self,
        ptr: RelocatableValue,
        data: &Vec<MaybeRelocatable>,
    ) -> (r: Result<RelocatableValue, MemoryDictError>)
        requires
            ptr.offset >= 0,
            ptr.offset + data@.len() <= i64::MAX,
        ensures
            *final(self) == (CairoRunner { validated_memory: final(self).validated_memory, ..*old(self) }),
            final(self).validated_memory.validation_rules == old(self).validated_memory.validation_rules,
            final(self).validated_memory.memory.frozen == old(self).validated_memory.memory.frozen,
            final(self).validated_memory.memory.relocation_rules == old(self).validated_memory.memory.relocation_rules,
            forall|a: RelocatableValue| #[trigger] old(self).validated_memory.memory@.dom(
            ).contains(a) ==> final(self).validated_memory.memory@.dom().contains(a) && final(self).validated_memory.memory@[a] == old(self).validated_memory.memory@[a],
            match r {
                Ok(end) => {
                    &&& end.segment_index == ptr.segment_index
                    &&& end.offset == ptr.offset + data@.len()
                    &&& forall|i: int|
                        0 <= i < data@.len() ==> final(self).validated_memory.memory@.dom(
                        ).contains(#[trigger] addr_at(ptr, i)) && final(self).validated_memory.memory@[addr_at(ptr, i)] == data@[i]@
                    &&& forall|a: RelocatableValue|
                        #[trigger] final(self).validated_memory.memory@.dom().contains(a)
                            ==> old(self).validated_memory.memory@.dom().contains(a) || (
                        a.segment_index == ptr.segment_index && ptr.offset <= a.offset
                            < ptr.offset + data@.len())
                },
                Err(_) => true,
            },
            (!old(self).validated_memory.memory.frozen && forall|i: int|
                0 <= i < data@.len() ==> !old(self).validated_memory.memory@.dom().contains(
                    #[trigger] addr_at(ptr, i),
                )) ==> r is Ok,
    {
        let mut mem = MemoryDict::new();
        let ghost pre = self.validated_memory.memory;
        std::mem::swap(&mut mem, &mut self.validated_memory.memory);
        let r = self.segments.load_data(&mut mem, ptr, data);
        std::mem::swap(&mut mem, &mut self.validated_memory.memory);
        match r {
            Ok(end) => Ok(end),
            Err(e) => Err(e),
        }
    }

    /// Lays the program's data and the initial stack into their segments
    /// and records the initial program counter.
    pub fn initialize_state(&mut self, entrypoint: u64, stack: &Vec<MaybeRelocatable>) -> (r:
        Result<(), Error>)
        ensures
            match r {
                Ok(()) => {
                    &&& old(self).program_base matches Some(pb)
                    &&& old(self).execution_base matches Some(eb)
                    &&& final(self).initial_pc == Some(
                        RelocatableValue {
                            segment_index: pb.segment_index,
                            offset: (pb.offset + entrypoint) as i64,
                        },
                    )
                    &&& forall|i: int|
                        0 <= i < old(self).program.spec_data().len() ==> final(self).validated_memory.memory@.dom().contains(#[trigger] addr_at(pb, i))
                            && final(self).validated_memory.memory@[addr_at(pb, i)] == Cell::Int(
                            old(self).program.spec_data()[i],
                        )
                    &&& forall|i: int|
                        0 <= i < stack@.len() ==> final(self).validated_memory.memory@.dom(
                        ).contains(#[trigger] addr_at(eb, i)) && final(self).validated_memory.memory@[addr_at(eb, i)] == stack@[i]@
                    &&& final(self).program_base == old(self).program_base
                    &&& final(self).execution_base == old(self).execution_base
                    &&& final(self).final_pc == old(self).final_pc
                    &&& final(self).program == old(self).program
                    &&& final(self).vm == old(self).vm
                    &&& final(self).run_ended == old(self).run_ended
                    &&& final(self).segments.n_segments == old(self).segments.n_segments
                    &&& final(self).builtin_runners == old(self).builtin_runners
                    &&& final(self).validated_memory.memory.frozen == old(self).validated_memory.memory.frozen
                    &&& final(self).validated_memory.memory.relocation_rules == old(self).validated_memory.memory.relocation_rules
                },
                Err(e) => !(e is MissingMain) && !(e is MissingBuiltin),
            },
            init_state_ready(*old(self), entrypoint, stack@.len()) ==> r is Ok,
    {
        let pb = match &self.program_base {
            Some(b) => *b,
            None => {
                return Err(Error::SegmentsNotInitialized);
            },
        };
        let eb = match &self.execution_base {
            Some(b) => *b,
            None => {
                return Err(Error::SegmentsNotInitialized);
            },
        };
        if pb.offset < 0 || entrypoint > i64::MAX as u64 || (entrypoint as i64) > i64::MAX
            - pb.offset {
            return Err(Error::OffsetOutOfRange);
        }
        self.initial_pc = Some(RelocatableValue::new(pb.segment_index, pb.offset + (
        entrypoint as i64)));
        // Load the program.
        let data_len = self.program.data().len();
        if (data_len as u64) > i64::MAX as u64 || (data_len as i64) > i64::MAX - pb.offset {
            return Err(Error::OffsetOutOfRange);
        }
        let mut program_cells: Vec<MaybeRelocatable> = Vec::new();
        let mut i: usize = 0;
        while i < data_len
            invariant
                data_len == self.program.spec_data().len(),
                i <= data_len,
                program_cells@.len() == i,
                forall|j: int|
                    0 <= j < i ==> (#[trigger] program_cells@[j])@ == Cell::Int(
                        self.program.spec_data()[j],
                    ),
                *self == (CairoRunner { initial_pc: self.initial_pc, ..*old(self) }),
            decreases data_len - i,
        {
            program_cells.push(MaybeRelocatable::Int(self.program.data()[i].clone()));
            i = i + 1;
        }
        proof {
            if init_state_ready(*old(self), entrypoint, stack@.len()) {
                assert forall|k: int|
                    0 <= k < program_cells@.len() implies !self.validated_memory.memory@.dom(
                ).contains(#[trigger] addr_at(pb, k)) by {
                    assert(!old(self).validated_memory.memory@.dom().contains(
                        addr_at(old(self).program_base->Some_0, k),
                    ));
                }
            }
        }
        match self.load_data(pb, &program_cells) {
            Ok(_) => {},
            Err(e) => {
                return Err(Error::MemoryDictError(e));
            },
        }
        // Load the stack.
        if eb.offset < 0 || (stack.len() as u64) > i64::MAX as u64 || (stack.len() as i64)
            > i64::MAX - eb.offset {
            return Err(Error::OffsetOutOfRange);
        }
        let mut stack_cells: Vec<MaybeRelocatable> = Vec::new();
        let m = stack.len();
        let mut i: usize = 0;
        while i < m
            invariant
                m == stack@.len(),
                i <= m,
                stack_cells@.len() == i,
                forall|j: int| 0 <= j < i ==> (#[trigger] stack_cells@[j])@ == stack@[j]@,
            decreases m - i,
        {
            stack_cells.push(stack[i].clone());
            i = i + 1;
        }
        proof {
            if init_state_ready(*old(self), entrypoint, stack@.len()) {
                assert forall|k: int|
                    0 <= k < stack_cells@.len() implies !self.validated_memory.memory@.dom(
                ).contains(#[trigger] addr_at(eb, k)) by {
                    assert(!old(self).validated_memory.memory@.dom().contains(
                        addr_at(old(self).execution_base->Some_0, k),
                    ));
                    assert(addr_at(eb, k).segment_index != pb.segment_index);
                }
            }
        }
        match self.load_data(eb, &stack_cells) {
            Ok(_) => {},
            Err(e) => {
                return Err(Error::MemoryDictError(e));
            },
        }
        Ok(())
    }

    /// Lays out a call to an entry point: the stack gets the caller frame
    /// and a fresh end segment whose start is the final location.
    pub fn initialize_function_entrypoint(
        &mut self,
        entrypoint: u64,
        args: Vec<MaybeRelocatable>,
        return_fp: MaybeRelocatable,
    ) -> (r: Result<RelocatableValue, Error>)
        requires
            old(self).segments.n_segments < i64::MAX,
        ensures
            match r {
                Ok(end) => {
                    &&& end.segment_index == old(self).segments.n_segments
                    &&& end.offset == 0
                    &&& final(self).final_pc == Some(end)
                    &&& old(self).execution_base matches Some(eb)
                    &&& final(self).initial_fp == Some(
                        RelocatableValue {
                            segment_index: eb.segment_index,
                            offset: (eb.offset + args@.len() + 2) as i64,
                        },
                    )
                    &&& final(self).initial_ap == final(self).initial_fp
                    &&& old(self).program_base matches Some(pb)
                    &&& final(self).initial_pc == Some(
                        RelocatableValue {
                            segment_index: pb.segment_index,
                            offset: (pb.offset + entrypoint) as i64,
                        },
                    )
                    &&& forall|i: int|
                        0 <= i < old(self).program.spec_data().len() ==> final(self).validated_memory.memory@.dom().contains(#[trigger] addr_at(pb, i))
                            && final(self).validated_memory.memory@[addr_at(pb, i)] == Cell::Int(
                            old(self).program.spec_data()[i],
                        )
                    &&& forall|i: int|
                        0 <= i < args@.len() ==> final(self).validated_memory.memory@.dom(
                        ).contains(#[trigger] addr_at(eb, i)) && final(self).validated_memory.memory@[addr_at(eb, i)] == args@[i]@
                    &&& final(self).validated_memory.memory@.dom().contains(
                        addr_at(eb, args@.len() as int),
                    ) && final(self).validated_memory.memory@[addr_at(eb, args@.len() as int)]
                        == return_fp@
                    &&& final(self).validated_memory.memory@.dom().contains(
                        addr_at(eb, args@.len() + 1int),
                    ) && final(self).validated_memory.memory@[addr_at(eb, args@.len() + 1int)]
                        == Cell::Addr(end)
                    &&& final(self).program == old(self).program
                    &&& final(self).vm == old(self).vm
                    &&& final(self).run_ended == old(self).run_ended
                    &&& final(self).builtin_runners == old(self).builtin_runners
                    &&& final(self).program_base == old(self).program_base
                    &&& final(self).execution_base == old(self).execution_base
                    &&& final(self).validated_memory.memory.frozen == old(self).validated_memory.memory.frozen
                    &&& final(self).validated_memory.memory.relocation_rules == old(self).validated_memory.memory.relocation_rules
                },
                Err(e) => !(e is MissingMain) && !(e is MissingBuiltin),
            },
            init_state_ready(*old(self), entrypoint, args@.len() + 2) ==> r is Ok,
    {
        let end = self.segments.add(None);
        let mut stack = args;
        stack.push(return_fp);
        stack.push(MaybeRelocatable::RelocatableValue(end));
        proof {
            if init_state_ready(*old(self), entrypoint, stack@.len()) {
                assert(init_state_ready(*self, entrypoint, stack@.len()));
            }
        }
        match self.initialize_state(entrypoint, &stack) {
            Ok(()) => {},
            Err(e) => {
                return Err(e);
            },
        }
        let eb = match &self.execution_base {
            Some(b) => *b,
            None => {
                return Err(Error::SegmentsNotInitialized);
            },
        };
        if eb.offset < 0 || (stack.len() as u64) > i64::MAX as u64 || (stack.len() as i64)
            > i64::MAX - eb.offset {
            return Err(Error::OffsetOutOfRange);
        }
        let fp = RelocatableValue::new(eb.segment_index, eb.offset + (stack.len() as i64));
        self.initial_fp = Some(fp);
        self.initial_ap = Some(fp);
        self.final_pc = Some(end);
        Ok(end)
    }

    /// Lays out a run of the program's entry point: the stack starts with
    /// each declared builtin's initial stack (or a zero for a missing but
    /// allowed one), then the caller frame.
    pub fn initialize_main_entrypoint(&mut self) -> (r: Result<RelocatableValue, Error>)
        requires
            !old(self).proof_mode,
            old(self).segments.n_segments >= 0,
            old(self).segments.n_segments + 2 <= i64::MAX,
        ensures
            ({
                let stackr = spec_builtin_stack(
                    old(self).builtin_runners@,
                    old(self).program.spec_builtins(),
                    old(self).allow_missing_builtins,
                );
                &&& ((r matches Err(Error::MissingBuiltin)) <==> stackr == Err::<
                    Seq<Cell>,
                    Error,
                >(Error::MissingBuiltin))
                &&& ((stackr is Ok && old(self).program.spec_entry() is None) ==> (r matches Err(
                    Error::MissingMain,
                )))
                &&& (r matches Ok(end) ==> stackr matches Ok(st)
                    && old(self).program.spec_entry() matches Some(main) && {
                    &&& end.segment_index == old(self).segments.n_segments + 1
                    &&& end.offset == 0
                    &&& final(self).final_pc == Some(end)
                    &&& old(self).execution_base matches Some(eb)
                    &&& old(self).program_base matches Some(pb)
                    &&& final(self).initial_fp == Some(
                        RelocatableValue {
                            segment_index: eb.segment_index,
                            offset: (eb.offset + st.len() + 2) as i64,
                        },
                    )
                    &&& final(self).initial_ap == final(self).initial_fp
                    &&& final(self).initial_pc == Some(
                        RelocatableValue {
                            segment_index: pb.segment_index,
                            offset: (pb.offset + main) as i64,
                        },
                    )
                    &&& (forall|i: int|
                        0 <= i < st.len() ==> final(self).validated_memory.memory@.dom(
                        ).contains(#[trigger] addr_at(eb, i)) && final(self).validated_memory.memory@[addr_at(eb, i)] == st[i])
                    &&& final(self).validated_memory.memory@.dom().contains(
                        addr_at(eb, st.len() as int),
                    ) && final(self).validated_memory.memory@[addr_at(eb, st.len() as int)]
                        == Cell::Addr(
                        RelocatableValue {
                            segment_index: old(self).segments.n_segments,
                            offset: 0,
                        },
                    )
                    &&& final(self).validated_memory.memory@.dom().contains(
                        addr_at(eb, st.len() + 1int),
                    ) && final(self).validated_memory.memory@[addr_at(eb, st.len() + 1int)]
                        == Cell::Addr(end)
                    &&& (forall|i: int|
                        0 <= i < old(self).program.spec_data().len() ==> final(self).validated_memory.memory@.dom().contains(#[trigger] addr_at(pb, i))
                            && final(self).validated_memory.memory@[addr_at(pb, i)]
                            == Cell::Int(old(self).program.spec_data()[i]))
                    &&& final(self).program == old(self).program
                    &&& final(self).run_ended == old(self).run_ended
                    &&& final(self).builtin_runners == old(self).builtin_runners
                })
                &&& ((stackr matches Ok(st) && old(self).program.spec_entry() matches Some(main)
                    && init_state_ready(*old(self), main, st.len() + 2)) ==> r is Ok)
            }),
            match r {
                Err(Error::MissingMain) => old(self).program.spec_entry() is None,
                _ => true,
            },
    {
        self.execution_public_memory = Some(Vec::new());
        let mut stack: Vec<MaybeRelocatable> = Vec::new();
        let ghost names = self.program.spec_builtins();
        let ghost runners = self.builtin_runners@;
        let ghost allow = self.allow_missing_builtins;
        let n_builtins = self.program.builtins().len();
        let mut i: usize = 0;
        proof {
            assert(names.subrange(0, 0) =~= Seq::<Seq<char>>::empty());
            assert(cell_views(stack@) =~= Seq::<Cell>::empty());
        }
        while i < n_builtins
            invariant
                n_builtins == names.len(),
                names == old(self).program.spec_builtins(),
                runners == old(self).builtin_runners@,
                allow == old(self).allow_missing_builtins,
                i <= n_builtins,
                spec_builtin_stack(runners, names.subrange(0, i as int), allow) == Ok::<
                    Seq<Cell>,
                    Error,
                >(cell_views(stack@)),
                *self == (CairoRunner {
                    execution_public_memory: self.execution_public_memory,
                    ..*old(self)
                }),
            decreases n_builtins - i,
        {
            proof {
                assert(names.subrange(0, i + 1).drop_last() =~= names.subrange(0, i as int));
                assert(names.subrange(0, i + 1).last() == names[i as int]);
            }
            let name = &self.program.builtins()[i];
            proof {
                assert(name@ == names[i as int]);
            }
            let mut found = false;
            let nr = self.builtin_runners.len();
            let mut j: usize = 0;
            let mut base: Option<RelocatableValue> = None;
            let mut included = false;
            proof {
                assert(runners.skip(0) =~= runners);
            }
            while j < nr
                invariant
                    nr == runners.len(),
                    runners == self.builtin_runners@,
                    j <= nr,
                    find_runner(runners, name@) == (if found {
                        Some((included, base))
                    } else {
                        find_runner(runners.skip(j as int), name@)
                    }),
                decreases nr - j,
            {
                proof {
                    if !found {
                        assert(runners.skip(j as int)[0] == runners[j as int]);
                        assert(runners.skip(j as int).skip(1) =~= runners.skip(j + 1));
                    }
                }
                if !found && self.builtin_runners[j].0.eq(name) {
                    found = true;
                    base = self.builtin_runners[j].1.base;
                    included = self.builtin_runners[j].1.included;
                }
                j = j + 1;
            }
            proof {
                if !found {
                    assert(runners.skip(nr as int) =~= Seq::<
                        (String, OutputBuiltinRunner),
                    >::empty());
                }
            }
            if found {
                if included {
                    match base {
                        Some(b) => {
                            let ghost pre = stack@;
                            stack.push(MaybeRelocatable::RelocatableValue(b));
                            proof {
                                assert(cell_views(stack@) =~= cell_views(pre).push(
                                    Cell::Addr(b),
                                ));
                            }
                        },
                        None => {
                            proof {
                                lemma_stack_prefix_err(
                                    runners,
                                    names,
                                    allow,
                                    i + 1,
                                    n_builtins as int,
                                );
                                assert(names.subrange(0, n_builtins as int) =~= names);
                            }
                            return Err(Error::SegmentsNotInitialized);
                        },
                    }
                }
            } else {
                if !self.allow_missing_builtins {
                    proof {
                        lemma_stack_prefix_err(runners, names, allow, i + 1, n_builtins as int);
                        assert(names.subrange(0, n_builtins as int) =~= names);
                    }
                    return Err(Error::MissingBuiltin);
                } else {
                    let ghost pre = stack@;
                    stack.push(MaybeRelocatable::Int(Felt::from_u64(0)));
                    proof {
                        assert(cell_views(stack@) =~= cell_views(pre).push(Cell::Int(0)));
                    }
                }
            }
            i = i + 1;
        }
        proof {
            assert(names.subrange(0, n_builtins as int) =~= names);
        }
        let return_fp = self.segments.add(None);
        let main = match self.program.main() {
            Some(m) => m,
            None => {
                return Err(Error::MissingMain);
            },
        };
        proof {
            if init_state_ready(*old(self), main, stack@.len() + 2) {
                assert(init_state_ready(*self, main, stack@.len() + 2));
            }
        }
        self.initialize_function_entrypoint(
            main,
            stack,
            MaybeRelocatable::RelocatableValue(return_fp),
        )
    }

    /// Builds the machine over the loaded memory, with the initial
    /// registers.
    pub fn initialize_vm(&mut self, hint_locals: Vec<String>) -> (r: Result<(), Error>)
        ensures
            match r {
                Ok(()) => {
                    &&& old(self).initial_pc matches Some(pc)
                    &&& old(self).initial_ap matches Some(ap)
                    &&& old(self).initial_fp matches Some(fp)
                    &&& final(self).vm matches Some(vm)
                    &&& vm.run_context.pc@ == Cell::Addr(pc)
                    &&& vm.run_context.ap@ == Cell::Addr(ap)
                    &&& vm.run_context.fp@ == Cell::Addr(fp)
                    &&& vm.run_context.prime@ == old(self).program.spec_prime()
                    &&& vm.current_step == 0
                    &&& vm.trace@.len() == 0
                    &&& vm.trace_consistent()
                    &&& vm.exec_scopes@.len() == 1
                    &&& vm.auto_deduction@.len() == 0
                    &&& (old(self).program matches Program::Stripped(_) ==> vm.hints@.len() == 0)
                    &&& *final(self) == (CairoRunner { vm: final(self).vm, ..*old(self) })
                },
                Err(_) => true,
            },
            ({
                &&& old(self).initial_pc is Some
                &&& old(self).initial_ap is Some
                &&& old(self).initial_fp is Some
                &&& old(self).program_base matches Some(pb)
                &&& pb.offset >= 0
                &&& pb.offset + old(self).program.spec_data().len() <= i64::MAX
                &&& (match old(self).program {
                    Program::Stripped(_) => true,
                    Program::Full(f) => forall|j: int|
                        0 <= j < f.hints@.len() ==> (#[trigger] f.hints@[j]).0 + pb.offset
                            <= i64::MAX,
                })
            }) ==> r is Ok,
    {
        let pc = match &self.initial_pc {
            Some(p) => *p,
            None => {
                return Err(Error::StateNotInitialized);
            },
        };
        let ap = match &self.initial_ap {
            Some(p) => *p,
            None => {
                return Err(Error::StateNotInitialized);
            },
        };
        let fp = match &self.initial_fp {
            Some(p) => *p,
            None => {
                return Err(Error::StateNotInitialized);
            },
        };
        let pb = match &self.program_base {
            Some(p) => *p,
            None => {
                return Err(Error::SegmentsNotInitialized);
            },
        };
        let context = RunContext::new(
            MaybeRelocatable::RelocatableValue(pc),
            MaybeRelocatable::RelocatableValue(ap),
            MaybeRelocatable::RelocatableValue(fp),
            self.program.prime().clone(),
        );
        let vm = match VirtualMachine::new(&self.program, context, hint_locals, Some(pb)) {
            Ok(v) => v,
            Err(e) => {
                return Err(Error::VirtualMachineError(e));
            },
        };
        self.vm = Some(vm);
        Ok(())
    }

    /// Runs one step, unless the machine already stands at the final
    /// location.
    pub fn vm_step(&mut self) -> (r: Result<(), Error>)
        requires
            old(self).vm matches Some(v) && v.run_context.prime@ > 1,
        ensures
            *final(self) == (CairoRunner {
                vm: final(self).vm,
                validated_memory: final(self).validated_memory,
                ..*old(self)
            }),
            final(self).vm is Some,
            match r {
                Ok(()) => {
                    &&& old(self).vm matches Some(ov)
                    &&& final(self).vm matches Some(nv)
                    &&& !(old(self).final_pc matches Some(f) && ov.run_context.pc@ == Cell::Addr(
                        f,
                    ))
                    &&& nv.current_step == ov.current_step + 1
                    &&& (ov.trace_consistent() ==> nv.trace_consistent())
                    &&& nv.run_context.prime == ov.run_context.prime
                },
                Err(Error::ExecutionReachedEnd) => {
                    &&& old(self).final_pc matches Some(f)
                    &&& old(self).vm matches Some(ov) && ov.run_context.pc@ == Cell::Addr(f)
                    &&& *final(self) == *old(self)
                },
                Err(Error::EndOfProgramNotReached) => old(self).vm matches Some(ov)
                    && ov.current_step == u64::MAX && *final(self) == *old(self),
                Err(Error::VirtualMachineError(_)) => old(self).vm matches Some(ov) && final(self).vm matches Some(nv) && nv.current_step == ov.current_step
                    && nv.run_context.pc@ == ov.run_context.pc@ && nv.run_context.prime
                    == ov.run_context.prime,
                Err(_) => false,
            },
    {
        match (&self.vm, &self.final_pc) {
            (Some(vm), Some(final_pc)) => {
                match &vm.run_context.pc {
                    MaybeRelocatable::RelocatableValue(a) => {
                        if a == final_pc {
                            return Err(Error::ExecutionReachedEnd);
                        }
                    },
                    MaybeRelocatable::Int(_) => {},
                }
            },
            _ => {},
        }
        match &mut self.vm {
            Some(vm) => {
                if vm.current_step == u64::MAX {
                    return Err(Error::EndOfProgramNotReached);
                }
                match vm.step(&mut self.validated_memory) {
                    Ok(()) => Ok(()),
                    Err(e) => Err(Error::VirtualMachineError(e)),
                }
            },
            None => Err(Error::VmNotInitialized),
        }
    }

    /// Steps the machine until it stands at `addr`, within the given step
    /// budget; an exhausted budget is a fault and leaves the machine at
    /// its last completed step.
    pub fn run_until_pc(&mut self, addr: MaybeRelocatable, run_resources: Option<RunResources>)
        -> (r: Result<(), Error>)
        requires
            old(self).vm matches Some(v) && v.run_context.prime@ > 1,
        ensures
            final(self).vm is Some,
            final(self).program == old(self).program,
            final(self).run_ended == old(self).run_ended,
            final(self).final_pc == old(self).final_pc,
            match r {
                Ok(()) => final(self).vm matches Some(nv) && nv.run_context.pc@ == addr@,
                Err(Error::EndOfProgramNotReached) => (final(self).vm matches Some(nv)
                    && nv.run_context.pc@ != addr@) && (match (run_resources, old(self).vm) {
                    (Some(rr), Some(ov)) => match rr.n_steps {
                        Some(n) => n < u64::MAX - ov.current_step ==> final(self).vm->Some_0.current_step == ov.current_step + n,
                        None => true,
                    },
                    _ => true,
                }),
                Err(Error::ExecutionReachedEnd) => final(self).final_pc matches Some(f)
                    && final(self).vm matches Some(nv) && nv.run_context.pc@ == Cell::Addr(f)
                    && nv.run_context.pc@ != addr@,
                Err(Error::VirtualMachineError(_)) => final(self).vm matches Some(nv)
                    && nv.run_context.pc@ != addr@,
                Err(_) => false,
            },
    {
        let mut resources = match run_resources {
            Some(r) => r,
            None => RunResources { n_steps: None },
        };
        loop
            invariant
                self.vm matches Some(v) && v.run_context.prime@ > 1,
                self.program == old(self).program,
                self.run_ended == old(self).run_ended,
                self.final_pc == old(self).final_pc,
                (match (run_resources, old(self).vm) {
                    (Some(rr), Some(ov)) => match rr.n_steps {
                        Some(n) => n < u64::MAX - ov.current_step ==> (match resources.n_steps {
                            Some(k) => k <= n && self.vm->Some_0.current_step == ov.current_step
                                + (n - k),
                            None => false,
                        }),
                        None => true,
                    },
                    _ => true,
                }),
            decreases (match self.vm {
                Some(v) => u64::MAX - v.current_step,
                None => 0,
            }), (match resources.n_steps {
                Some(k) => k + 1,
                None => 0,
            }),
        {
            let at_target = match &self.vm {
                Some(vm) => {
                    let eq = match (&vm.run_context.pc, &addr) {
                        (
                            MaybeRelocatable::RelocatableValue(a),
                            MaybeRelocatable::RelocatableValue(b),
                        ) => a == b,
                        (MaybeRelocatable::Int(a), MaybeRelocatable::Int(b)) => a.eq_felt(b),
                        _ => false,
                    };
                    eq
                },
                None => false,
            };
            if at_target {
                return Ok(());
            }
            if resources.consumed() {
                return Err(Error::EndOfProgramNotReached);
            }
            match self.vm_step() {
                Ok(()) => {},
                Err(e) => {
                    return Err(e);
                },
            }
            resources.consume_step();
        }
    }

    /// Ends the run: relocates the accessed addresses and the memory,
    /// lets the machine close its checks, then freezes the memory and
    /// computes the effective segment sizes. Ending a run twice is
    /// refused.
    pub fn end_run(&mut self, disable_trace_padding: bool, disable_finalize_all: bool) -> (r:
        Result<(), Error>)
        requires
            !old(self).proof_mode,
            old(self).segments.n_segments >= 0,
            old(self).segments.n_temp_segments >= 0,
        ensures
            old(self).run_ended ==> ((r matches Err(Error::EndRunCalledTwice)) && *final(self)
                == *old(self)),
            match r {
                Ok(()) => {
                    &&& !old(self).run_ended
                    &&& (!disable_finalize_all ==> final(self).run_ended && final(self).validated_memory.memory.frozen && final(self).segments.segment_used_sizes is Some)
                    &&& final(self).vm matches Some(vm) && (forall|a: RelocatableValue|
                        #[trigger] final(self).validated_memory.memory@.dom().contains(a)
                            ==> crate::vm_core::deductions_hold(
                            vm.rules_map(),
                            final(self).validated_memory.memory,
                            a,
                        ))
                    &&& final(self).program == old(self).program
                },
                Err(Error::EndRunCalledTwice) => old(self).run_ended && *final(self) == *old(self),
                Err(_) => true,
            },
            ({
                let mem = old(self).validated_memory.memory;
                ({
                    &&& !old(self).run_ended
                    &&& old(self).vm matches Some(vm) && vm.exec_scopes@.len() == 1 && (forall|
                        a: RelocatableValue,
                    |
                        #[trigger] mem@.dom().contains(a) ==> crate::vm_core::deductions_hold(
                            vm.rules_map(),
                            mem,
                            a,
                        ))
                    &&& mem.relocation_rules@.len() == 0
                    &&& !mem.frozen
                }) ==> r is Ok
            }),
    {
        if self.run_ended {
            return Err(Error::EndRunCalledTwice);
        }
        // Relocate the machine's accessed addresses through the rules.
        let vm_accessed_len = match &self.vm {
            Some(vm) => vm.accessed_addresses.len(),
            None => {
                return Err(Error::VmNotInitialized);
            },
        };
        let mut relocated: Vec<RelocatableValue> = Vec::new();
        let mut i: usize = 0;
        while i < vm_accessed_len
            invariant
                self.vm matches Some(vm) && vm_accessed_len == vm.accessed_addresses@.len(),
                i <= vm_accessed_len,
                !old(self).run_ended,
                *self == *old(self),
            decreases vm_accessed_len - i,
        {
            let a = match &self.vm {
                Some(vm) => vm.accessed_addresses[i],
                None => {
                    proof {
                        assert(false);
                    }
                    RelocatableValue::new(0, 0)
                },
            };
            match self.validated_memory.memory.relocate_value(
                &MaybeRelocatable::RelocatableValue(a),
            ) {
                Ok(MaybeRelocatable::RelocatableValue(b)) => {
                    relocated.push(b);
                },
                Ok(MaybeRelocatable::Int(_)) => {
                    return Err(Error::UnexpectedNoneValue);
                },
                Err(e) => {
                    return Err(Error::MemoryDictError(e));
                },
            }
            i = i + 1;
        }
        self.accessed_addresses = Some(relocated);
        match self.validated_memory.memory.relocate_memory() {
            Ok(()) => {},
            Err(e) => {
                return Err(Error::MemoryDictError(e));
            },
        }
        let ghost m0 = self.validated_memory.memory;
        let ghost rules0 = match &self.vm {
            Some(vm) => vm.rules_map(),
            None => Map::empty(),
        };
        match &self.vm {
            Some(vm) => {
                match vm.end_run(&self.validated_memory) {
                    Ok(()) => {},
                    Err(e) => {
                        return Err(Error::VirtualMachineError(e));
                    },
                }
            },
            None => {
                return Err(Error::VmNotInitialized);
            },
        }
        if disable_finalize_all {
            // For tests: leave the memory live.
            return Ok(());
        }
        // Freeze, then compute the effective segment sizes.
        self.validated_memory.memory.freeze();
        let mut mem = MemoryDict::new();
        std::mem::swap(&mut mem, &mut self.validated_memory.memory);
        let sized = self.segments.compute_effective_sizes(&mem, false);
        std::mem::swap(&mut mem, &mut self.validated_memory.memory);
        match sized {
            Ok(()) => {},
            Err(e) => {
                return Err(Error::MemorySegmentError(e));
            },
        }
        self.run_ended = true;
        proof {
            let m1 = self.validated_memory.memory;
            assert(m1.data == m0.data);
            assert(m1.relocation_rules == m0.relocation_rules);
            assert(m1@ == m0@);
            assert(m1.rules() == m0.rules());
            assert forall|a: RelocatableValue| #[trigger] m1@.dom().contains(a)
                implies crate::vm_core::deductions_hold(rules0, m1, a) by {
                assert(crate::vm_core::deductions_hold(rules0, m0, a));
                if rules0.dom().contains(a.segment_index) {
                    assert forall|k: int|
                        0 <= k < rules0[a.segment_index].len() implies match
                        crate::vm_core::rule_deduces(
                        #[trigger] rules0[a.segment_index][k],
                        m1@,
                        a,
                    ) {
                        Some(v) => spec_read(m1, a) == Ok::<
                            Cell,
                            MemoryDictError,
                        >(Cell::Int(v)),
                        None => true,
                    } by {
                        assert(crate::vm_core::rule_deduces(rules0[a.segment_index][k], m1@, a)
                            == crate::vm_core::rule_deduces(rules0[a.segment_index][k], m0@, a));
                        assert(spec_read(m1, a) == spec_read(m0, a));
                    }
                }
            }
        }
        Ok(())
    }

    /// Reads the builtins' end pointers off the stack, last declared
    /// first, lets each builtin validate its stop pointer, and appends
    /// the walked range of the execution segment to the public memory.
    pub fn read_return_values(&mut self) -> (r: Result<(), Error>)
        ensures
            !old(self).run_ended ==> ((r matches Err(Error::RunNotEnded)) && *final(self)
                == *old(self)),
            match r {
                Ok(()) => {
                    &&& old(self).run_ended
                    &&& !old(self).segments_finalized
                    &&& old(self).vm matches Some(vm) && vm.run_context.ap@ is Addr
                    &&& ({
                        let ap0 = old(self).vm->Some_0.run_context.ap@->Addr_0;
                        &&& spec_return_walk(
                            old(self).builtin_runners@,
                            old(self).segments,
                            old(self).validated_memory.memory,
                            old(self).allow_missing_builtins,
                            old(self).program.spec_builtins(),
                            ap0,
                        ) matches Some(fin)
                        &&& ({
                            let fin = spec_return_walk(
                                old(self).builtin_runners@,
                                old(self).segments,
                                old(self).validated_memory.memory,
                                old(self).allow_missing_builtins,
                                old(self).program.spec_builtins(),
                                ap0,
                            )->Some_0;
                            &&& old(self).execution_base matches Some(eb)
                            &&& old(self).execution_public_memory matches Some(pm)
                            &&& ({
                                let eb = old(self).execution_base->Some_0;
                                let pm = old(self).execution_public_memory->Some_0;
                                let lo = fin.offset - eb.offset;
                                let hi = ap0.offset - eb.offset;
                                let added = if hi >= lo {
                                    hi - lo
                                } else {
                                    0int
                                };
                                &&& lo >= 0
                                &&& final(self).execution_public_memory matches Some(pm2)
                                &&& final(self).execution_public_memory->Some_0@.len() == pm@.len()
                                    + added
                                &&& (forall|k: int|
                                    0 <= k < pm@.len() ==> (#[trigger] final(self).execution_public_memory->Some_0@[k]) == pm@[k])
                                &&& (forall|k: int|
                                    pm@.len() <= k < pm@.len() + added ==> (#[trigger] final(self).execution_public_memory->Some_0@[k]) == (lo + (k
                                        - pm@.len())) as u64)
                            })
                        })
                    })
                    &&& final(self).run_ended == old(self).run_ended
                    &&& final(self).program == old(self).program
                    &&& final(self).validated_memory == old(self).validated_memory
                    &&& final(self).segments == old(self).segments
                    &&& runner_shape(final(self).builtin_runners@, old(self).builtin_runners@)
                },
                Err(_) => true,
            },
            ({
                &&& old(self).run_ended
                &&& !old(self).segments_finalized
                &&& old(self).vm matches Some(vm) && vm.run_context.ap@ is Addr
                &&& ({
                    let ap0 = old(self).vm->Some_0.run_context.ap@->Addr_0;
                    spec_return_walk(
                        old(self).builtin_runners@,
                        old(self).segments,
                        old(self).validated_memory.memory,
                        old(self).allow_missing_builtins,
                        old(self).program.spec_builtins(),
                        ap0,
                    ) matches Some(fin) && old(self).execution_base matches Some(eb) && (
                    eb.offset >= 0 && fin.offset >= eb.offset && ap0.offset >= eb.offset)
                })
                &&& old(self).execution_public_memory is Some
            }) ==> r is Ok,
    {
        if !self.run_ended {
            return Err(Error::RunNotEnded);
        }
        let start: RelocatableValue = match &self.vm {
            Some(vm) => match &vm.run_context.ap {
                MaybeRelocatable::RelocatableValue(a) => *a,
                MaybeRelocatable::Int(_) => {
                    return Err(Error::UnexpectedNoneValue);
                },
            },
            None => {
                return Err(Error::VmNotInitialized);
            },
        };
        let ghost runners0 = old(self).builtin_runners@;
        let ghost names = old(self).program.spec_builtins();
        let ghost mem0 = old(self).validated_memory.memory;
        let ghost segs0 = old(self).segments;
        let ghost allow = old(self).allow_missing_builtins;
        let ghost walk_full = spec_return_walk(runners0, segs0, mem0, allow, names, start);
        proof {
            assert(start == old(self).vm->Some_0.run_context.ap@->Addr_0);
        }
        let mut pointer: RelocatableValue = start;
        let n_builtins = self.program.builtins().len();
        let mut i: usize = n_builtins;
        proof {
            assert(names.subrange(0, n_builtins as int) =~= names);
        }
        while i > 0
            invariant
                n_builtins == names.len(),
                names == old(self).program.spec_builtins(),
                runners0 == old(self).builtin_runners@,
                mem0 == old(self).validated_memory.memory,
                segs0 == old(self).segments,
                allow == old(self).allow_missing_builtins,
                walk_full == spec_return_walk(runners0, segs0, mem0, allow, names, start),
                old(self).vm matches Some(vm0) && start == vm0.run_context.ap@->Addr_0
                    && vm0.run_context.ap@ is Addr,
                i <= n_builtins,
                old(self).run_ended,
                old(self).segments_finalized == self.segments_finalized,
                runner_shape(self.builtin_runners@, runners0),
                walk_full == spec_return_walk(runners0, segs0, mem0, allow, names, start),
                spec_return_walk(runners0, segs0, mem0, allow, names.subrange(0, i as int),
                pointer) == walk_full,
                *self == (CairoRunner { builtin_runners: self.builtin_runners, ..*old(self) }),
            decreases i,
        {
            i = i - 1;
            proof {
                assert(names.subrange(0, i + 1).drop_last() =~= names.subrange(0, i as int));
                assert(names.subrange(0, i + 1).last() == names[i as int]);
            }
            let name = &self.program.builtins()[i];
            proof {
                assert(name@ == names[i as int]);
            }
            let nr = self.builtin_runners.len();
            let mut j: usize = 0;
            let mut found_idx: Option<usize> = None;
            let ghost cur = self.builtin_runners@;
            proof {
                assert(cur.skip(0) =~= cur);
            }
            while j < nr
                invariant
                    nr == cur.len(),
                    cur == self.builtin_runners@,
                    j <= nr,
                    find_runner(cur, name@) == (match found_idx {
                        Some(k) => Some(
                            (cur[k as int].1.included, cur[k as int].1.base),
                        ),
                        None => find_runner(cur.skip(j as int), name@),
                    }),
                    found_idx matches Some(k) ==> k < nr && cur[k as int].0@ == name@,
                decreases nr - j,
            {
                proof {
                    if found_idx is None {
                        assert(cur.skip(j as int)[0] == cur[j as int]);
                        assert(cur.skip(j as int).skip(1) =~= cur.skip(j + 1));
                    }
                }
                if found_idx.is_none() && self.builtin_runners[j].0.eq(name) {
                    found_idx = Some(j);
                }
                j = j + 1;
            }
            proof {
                if found_idx is None {
                    assert(cur.skip(nr as int) =~= Seq::<(String, OutputBuiltinRunner)>::empty());
                }
                lemma_find_runner_shape(cur, runners0, name@);
            }
            match found_idx {
                Some(k) => {
                    let ghost pre = self.builtin_runners@;
                    let mut entry = self.builtin_runners.remove(k);
                    let stepped = entry.1.final_stack(
                        &self.segments,
                        &self.validated_memory.memory,
                        pointer,
                    );
                    self.builtin_runners.insert(k, entry);
                    proof {
                        assert(self.builtin_runners@.len() == pre.len());
                        assert forall|q: int|
                            0 <= q < pre.len() implies (#[trigger] self.builtin_runners@[
                        q]).0@ == pre[q].0@ && self.builtin_runners@[q].1.included == pre[
                        q].1.included && self.builtin_runners@[q].1.base == pre[q].1.base by {
                            // Entries left of the reinserted one, the
                            // reinserted one itself, and those right of it
                            // all keep their name, flag and base.
                            assert(self.builtin_runners@ == pre.remove(k as int).insert(
                                k as int,
                                self.builtin_runners@[k as int],
                            ));
                        }
                    }
                    match stepped {
                        Ok(p) => {
                            pointer = p;
                        },
                        Err(e) => {
                            proof {
                                if walk_full is Some {
                                    assert(spec_return_step(
                                        runners0,
                                        segs0,
                                        mem0,
                                        allow,
                                        names[i as int],
                                        pointer,
                                    ) is Some);
                                    assert(false);
                                }
                            }
                            return Err(Error::BuiltinRunnerError(e));
                        },
                    }
                },
                None => {
                    if !self.allow_missing_builtins {
                        proof {
                            if walk_full is Some {
                                assert(false);
                            }
                        }
                        return Err(Error::MissingBuiltin);
                    }
                    if pointer.offset == i64::MIN {
                        proof {
                            if walk_full is Some {
                                assert(false);
                            }
                        }
                        return Err(Error::OffsetOutOfRange);
                    }
                    pointer = RelocatableValue::new(pointer.segment_index, pointer.offset - 1);
                    let cell = match self.validated_memory.memory.index(&pointer) {
                        Ok(c) => c,
                        Err(e) => {
                            proof {
                                if walk_full is Some {
                                    assert(false);
                                }
                            }
                            return Err(Error::MemoryDictError(e));
                        },
                    };
                    let zero = match &cell {
                        MaybeRelocatable::Int(f) => f.is_zero(),
                        MaybeRelocatable::RelocatableValue(_) => false,
                    };
                    if !zero {
                        proof {
                            if walk_full is Some {
                                assert(spec_read(mem0, pointer) == Ok::<
                                    Cell,
                                    crate::memory_dict::Error,
                                >(cell@));
                                assert(false);
                            }
                        }
                        return Err(
                            Error::NonZeroMissingBuiltinStopPointer {
                                builtin_name: name.clone(),
                            },
                        );
                    }
                },
            }
        }
        proof {
            assert(names.subrange(0, 0) =~= Seq::<Seq<char>>::empty());
        }
        if self.segments_finalized {
            return Err(Error::CannotAddReturnValuesAfterSegmentFinalization);
        }
        // Append the walked range of the execution segment to the public
        // memory.
        let eb = match &self.execution_base {
            Some(b) => *b,
            None => {
                return Err(Error::UnexpectedNoneValue);
            },
        };
        let lo: i64 = match pointer.offset.checked_sub(eb.offset) {
            Some(v) => v,
            None => {
                return Err(Error::OffsetOutOfRange);
            },
        };
        let hi: i64 = match start.offset.checked_sub(eb.offset) {
            Some(v) => v,
            None => {
                return Err(Error::OffsetOutOfRange);
            },
        };
        if lo < 0 {
            return Err(Error::OffsetOutOfRange);
        }
        let mut pm: Vec<u64> = match self.execution_public_memory.take() {
            Some(v) => v,
            None => {
                return Err(Error::UnexpectedNoneValue);
            },
        };
        let ghost pm0 = pm@;
        let mut o: i64 = lo;
        while o < hi
            invariant
                0 <= lo <= o,
                o <= hi || o == lo,
                pm@.len() == pm0.len() + (o - lo),
                forall|k: int| 0 <= k < pm0.len() ==> (#[trigger] pm@[k]) == pm0[k],
                forall|k: int|
                    pm0.len() <= k < pm@.len() ==> (#[trigger] pm@[k]) == (lo + (k
                        - pm0.len())) as u64,
            decreases hi - o,
        {
            pm.push(o as u64);
            o = o + 1;
        }
        self.execution_public_memory = Some(pm);
        Ok(())
    }
}

impl CairoRunner {
    /// The cells the program wrote into the output builtin's segment, in
    /// order; an unwritten cell in the used range comes back empty. The
    /// caller prints or sends them on.
    pub fn output_cells(&self) -> (r: Result<Vec<Option<MaybeRelocatable>>, Error>)
        ensures
            match r {
                Ok(cells) => {
                    &&& find_runner(self.builtin_runners@, "output"@) matches Some(ib)
                    &&& ({
                        let ib = find_runner(self.builtin_runners@, "output"@)->Some_0;
                        &&& ib.1 matches Some(b)
                        &&& ({
                            let b = ib.1->Some_0;
                            &&& self.segments.segment_used_sizes matches Some(sizes)
                                && assoc_map(sizes@).dom().contains(b.segment_index)
                            &&& ({
                                let u = assoc_map(
                                    self.segments.segment_used_sizes->Some_0@,
                                )[b.segment_index];
                                &&& cells@.len() == u
                                &&& b.offset >= 0
                                &&& b.offset + u <= i64::MAX
                                &&& forall|i: int|
                                    0 <= i < cells@.len() ==> match #[trigger] cells@[i] {
                                        Some(v) => self.validated_memory.memory@.dom(
                                        ).contains(addr_at(b, i)) && Ok::<
                                            Cell,
                                            MemoryDictError,
                                        >(v@) == crate::memory_dict::spec_relocate_cell(
                                            self.validated_memory.memory.rules(),
                                            self.validated_memory.memory@[addr_at(b, i)],
                                            self.validated_memory.memory.relocation_rules@.len()
                                                as nat,
                                        ),
                                        None => !self.validated_memory.memory@.dom().contains(
                                            addr_at(b, i),
                                        ),
                                    }
                            })
                        })
                    })
                },
                Err(_) => true,
            },
    {
        let output_name = String::from_str("output");
        let ghost runners = self.builtin_runners@;
        let nr = self.builtin_runners.len();
        let mut j: usize = 0;
        proof {
            assert(runners.skip(0) =~= runners);
        }
        while j < nr
            invariant
                nr == runners.len(),
                runners == self.builtin_runners@,
                j <= nr,
                output_name@ == "output"@,
                find_runner(runners, "output"@) == find_runner(runners.skip(j as int), "output"@),
            decreases nr - j,
        {
            proof {
                assert(runners.skip(j as int)[0] == runners[j as int]);
                assert(runners.skip(j as int).skip(1) =~= runners.skip(j + 1));
            }
            if self.builtin_runners[j].0.eq(&output_name) {
                let runner = &self.builtin_runners[j].1;
                let used = match runner.get_used_cells(&self.segments) {
                    Ok(u) => u,
                    Err(e) => {
                        return Err(Error::BuiltinRunnerError(e));
                    },
                };
                let base = match &runner.base {
                    Some(b) => *b,
                    None => {
                        return Err(Error::UnexpectedNoneValue);
                    },
                };
                if base.offset < 0 || used > i64::MAX as u64 || (used as i64) > i64::MAX
                    - base.offset {
                    return Err(Error::OffsetOutOfRange);
                }
                let mut cells: Vec<Option<MaybeRelocatable>> = Vec::new();
                let mut i: u64 = 0;
                while i < used
                    invariant
                        i <= used,
                        base.offset >= 0,
                        used <= i64::MAX,
                        base.offset + used <= i64::MAX,
                        cells@.len() == i,
                        forall|k: int|
                            0 <= k < cells@.len() ==> match #[trigger] cells@[k] {
                                Some(v) => self.validated_memory.memory@.dom().contains(
                                    addr_at(base, k),
                                ) && Ok::<Cell, MemoryDictError>(v@)
                                    == crate::memory_dict::spec_relocate_cell(
                                    self.validated_memory.memory.rules(),
                                    self.validated_memory.memory@[addr_at(base, k)],
                                    self.validated_memory.memory.relocation_rules@.len() as nat,
                                ),
                                None => !self.validated_memory.memory@.dom().contains(
                                    addr_at(base, k),
                                ),
                            },
                    decreases used - i,
                {
                    let cell_addr = RelocatableValue::new(
                        base.segment_index,
                        base.offset + (i as i64),
                    );
                    match self.validated_memory.memory.get(&cell_addr, None) {
                        Ok(v) => {
                            proof {
                                assert(cell_addr == addr_at(base, i as int));
                            }
                            cells.push(v);
                        },
                        Err(e) => {
                            return Err(Error::MemoryDictError(e));
                        },
                    }
                    i = i + 1;
                }
                return Ok(cells);
            }
            j = j + 1;
        }
        proof {
            assert(runners.skip(nr as int) =~= Seq::<(String, OutputBuiltinRunner)>::empty());
        }
        Err(Error::UnexpectedNoneValue)
    }
}

} // verus!