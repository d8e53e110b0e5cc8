use oriac::cairo_runner::{CairoRunner, Error};
use oriac::encode::DecodeError;
use oriac::felt::Felt;
use oriac::identifier::{IdentifierDefinition, IdentifierManager};
use oriac::instances::CairoLayout;
use oriac::memory_dict::MemoryDict;
use oriac::output_builtin_runner::Error as BuiltinRunnerError;
use oriac::program::{FullProgram, Program, ReferenceManager, StrippedProgram};
use oriac::relocatable::{MaybeRelocatable, RelocatableValue};
use oriac::scoped_name::ScopedName;
use oriac::utils::RunResources;
use oriac::program::CairoHint;
use oriac::vm_core::{Rule, RunContextError, VirtualMachineError};

fn felt(x: u64) -> Felt {
    Felt::from_u64(x)
}

fn ival(x: u64) -> MaybeRelocatable {
    MaybeRelocatable::Int(felt(x))
}

fn addr(s: i64, o: i64) -> RelocatableValue {
    RelocatableValue::new(s, o)
}

fn stripped(data: &[u64], builtins: &[&str], main: Option<u64>) -> Program {
    Program::Stripped(StrippedProgram {
        prime: Felt::prime(),
        data: data.iter().map(|x| felt(*x)).collect(),
        builtins: builtins.iter().map(|b| b.to_string()).collect(),
        main,
    })
}

fn new_runner(program: Program, layout: CairoLayout) -> CairoRunner {
    CairoRunner::new(program, layout, MemoryDict::new(), false, false).unwrap()
}

#[test]
fn test_run_past_end() {
    // A trivial program: main is a single return instruction.
    let program = stripped(&[0x208b7fff7fff7ffe], &[], Some(0));
    let mut runner = new_runner(program, CairoLayout::plain_instance());
    runner.initialize_segments();
    let end = runner.initialize_main_entrypoint().unwrap();
    assert_eq!(end, addr(3, 0));
    runner.initialize_vm(Vec::new()).unwrap();
    runner
        .run_until_pc(MaybeRelocatable::RelocatableValue(end), None)
        .unwrap();
    runner.end_run(false, false).unwrap();
    runner.read_return_values().unwrap();
    assert!(runner.run_ended);
    let vm = runner.vm.as_ref().unwrap();
    // One instruction ran; the trace has its one entry and the
    // allocation pointer still stands two past the execution base.
    assert_eq!(vm.trace.len(), 1);
    assert_eq!(vm.current_step, 1);
    assert!(vm.trace[0].pc == MaybeRelocatable::RelocatableValue(addr(0, 0)));
    assert!(vm.run_context.ap == MaybeRelocatable::RelocatableValue(addr(1, 2)));
    // The sole program cell reads back as the return encoding.
    let cell = runner.validated_memory.memory.index(&addr(0, 0)).unwrap();
    assert!(cell == ival(0x208b7fff7fff7ffe));
}

fn bad_stop_ptr_program() -> Program {
    // [ap] = 42; ap++            (writes 42 at (1, 3))
    // [ap - 1] = [[fp - 3]]      (writes 42 at the output base (2, 0))
    // [ap] = [fp - 3] + 3; ap++  (leaves (2, 3) at the stack top)
    // ret
    stripped(
        &[
            0x480680017fff8000,
            42,
            0x400280007ffd7fff,
            0x482680017ffd8000,
            3,
            0x208b7fff7fff7ffe,
        ],
        &["output"],
        Some(0),
    )
}

#[test]
fn test_bad_stop_ptr() {
    let mut runner = new_runner(bad_stop_ptr_program(), CairoLayout::small_instance());
    runner.initialize_segments();
    let end = runner.initialize_main_entrypoint().unwrap();
    runner.initialize_vm(Vec::new()).unwrap();
    runner
        .run_until_pc(MaybeRelocatable::RelocatableValue(end), None)
        .unwrap();
    runner.end_run(false, false).unwrap();
    match runner.read_return_values() {
        Err(Error::BuiltinRunnerError(BuiltinRunnerError::InvalidStopPointer {
            builtin_name,
            expected,
            found,
        })) => {
            assert_eq!(builtin_name, "output");
            assert_eq!(
                expected,
                RelocatableValue {
                    segment_index: 2,
                    offset: 1
                }
            );
            assert_eq!(
                found,
                RelocatableValue {
                    segment_index: 2,
                    offset: 3
                }
            );
        }
        _ => panic!("unexpected result"),
    }
}

fn full_program(with_main: bool) -> FullProgram {
    let mut identifiers = IdentifierManager::new();
    if with_main {
        identifiers.add_identifier(
            ScopedName::new(vec!["__main__".to_string(), "main".to_string()]).unwrap(),
            IdentifierDefinition::Function { pc: 0 },
        );
    }
    FullProgram {
        prime: Felt::prime(),
        data: vec![felt(0x208b7fff7fff7ffe)],
        hints: Vec::new(),
        builtins: Vec::new(),
        main_scope: ScopedName::new(vec!["__main__".to_string()]).unwrap(),
        identifiers,
        reference_manager: ReferenceManager {
            references: Vec::new(),
        },
        attributes: Vec::new(),
        debug_info: None,
    }
}

#[test]
fn test_program_main() {
    let program = full_program(true);
    assert_eq!(program.main(), Some(0));
}

#[test]
fn missing_main_is_reported() {
    // A full program without a main label.
    let mut runner = new_runner(
        Program::Full(Box::new(full_program(false))),
        CairoLayout::plain_instance(),
    );
    runner.initialize_segments();
    assert!(matches!(
        runner.initialize_main_entrypoint(),
        Err(Error::MissingMain)
    ));
    // A stripped program without an entry location.
    let mut runner = new_runner(
        stripped(&[0x208b7fff7fff7ffe], &[], None),
        CairoLayout::plain_instance(),
    );
    runner.initialize_segments();
    assert!(matches!(
        runner.initialize_main_entrypoint(),
        Err(Error::MissingMain)
    ));
}

#[test]
fn resource_exhaustion_stops_the_run() {
    // jmp rel 0: an endless loop.
    let program = stripped(&[0x10780017fff7fff, 0], &[], Some(0));
    let mut runner = new_runner(program, CairoLayout::plain_instance());
    runner.initialize_segments();
    let end = runner.initialize_main_entrypoint().unwrap();
    runner.initialize_vm(Vec::new()).unwrap();
    let result = runner.run_until_pc(
        MaybeRelocatable::RelocatableValue(end),
        Some(RunResources { n_steps: Some(3) }),
    );
    assert!(matches!(result, Err(Error::EndOfProgramNotReached)));
    // The machine stands at its last completed step and stays usable.
    let vm = runner.vm.as_ref().unwrap();
    assert_eq!(vm.current_step, 3);
    assert_eq!(vm.trace.len(), 3);
    assert!(vm.run_context.pc == MaybeRelocatable::RelocatableValue(addr(0, 0)));
}

#[test]
fn assert_eq_with_unconstrained_res_fails_to_decode() {
    // A conditional-jump flag together with an additive result is a
    // contradiction the decoder refuses before anything executes.
    let bad = (512u64 + 32) << 48 | 0x800080008000;
    let program = stripped(&[bad, 0x208b7fff7fff7ffe], &[], Some(0));
    let mut runner = new_runner(program, CairoLayout::plain_instance());
    runner.initialize_segments();
    let end = runner.initialize_main_entrypoint().unwrap();
    runner.initialize_vm(Vec::new()).unwrap();
    match runner.run_until_pc(MaybeRelocatable::RelocatableValue(end), None) {
        Err(Error::VirtualMachineError(VirtualMachineError::DecodeError(
            DecodeError::InvalidRes,
        ))) => {}
        _ => panic!("expected the decode fault before execution"),
    }
    assert_eq!(runner.vm.as_ref().unwrap().current_step, 0);
}

#[test]
fn end_run_is_not_idempotent() {
    let program = stripped(&[0x208b7fff7fff7ffe], &[], Some(0));
    let mut runner = new_runner(program, CairoLayout::plain_instance());
    runner.initialize_segments();
    let end = runner.initialize_main_entrypoint().unwrap();
    runner.initialize_vm(Vec::new()).unwrap();
    runner
        .run_until_pc(MaybeRelocatable::RelocatableValue(end), None)
        .unwrap();
    runner.end_run(false, false).unwrap();
    assert!(matches!(
        runner.end_run(false, false),
        Err(Error::EndRunCalledTwice)
    ));
}

#[test]
fn read_return_values_needs_an_ended_run() {
    let program = stripped(&[0x208b7fff7fff7ffe], &[], Some(0));
    let mut runner = new_runner(program, CairoLayout::plain_instance());
    runner.initialize_segments();
    let _ = runner.initialize_main_entrypoint().unwrap();
    runner.initialize_vm(Vec::new()).unwrap();
    assert!(matches!(
        runner.read_return_values(),
        Err(Error::RunNotEnded)
    ));
}

#[test]
fn good_stop_ptr_passes_validation() {
    // Like the bad-stop-pointer program, but the declared stop pointer
    // is the output base plus the one used cell.
    let program = stripped(
        &[
            0x480680017fff8000,
            42,
            0x400280007ffd7fff,
            0x482680017ffd8000,
            1,
            0x208b7fff7fff7ffe,
        ],
        &["output"],
        Some(0),
    );
    let mut runner = new_runner(program, CairoLayout::small_instance());
    runner.initialize_segments();
    let end = runner.initialize_main_entrypoint().unwrap();
    runner.initialize_vm(Vec::new()).unwrap();
    runner
        .run_until_pc(MaybeRelocatable::RelocatableValue(end), None)
        .unwrap();
    runner.end_run(false, false).unwrap();
    runner.read_return_values().unwrap();
    // The builtin recorded the validated stop pointer.
    let output = &runner.builtin_runners[0].1;
    assert_eq!(output.stop_ptr, Some(addr(2, 1)));
    assert_eq!(output.base, Some(addr(2, 0)));
    // The walked return-value range joined the public memory: the cell
    // at execution offset 4 (the stop pointer under ap at offset 5).
    assert_eq!(runner.execution_public_memory, Some(vec![4]));
}

#[test]
fn call_at_the_segment_boundary_saves_the_end_address() {
    // The call is the program's last instruction, so the saved return
    // location (0, 2) lies exactly at the end of the loaded data.
    let program = stripped(&[0x1104800180018000, 2], &[], Some(0));
    let mut runner = new_runner(program, CairoLayout::plain_instance());
    runner.initialize_segments();
    let _end = runner.initialize_main_entrypoint().unwrap();
    runner.initialize_vm(Vec::new()).unwrap();
    runner.vm_step().unwrap();
    // The call pushed the caller's frame and its return location.
    let mem = &runner.validated_memory.memory;
    assert!(mem.index(&addr(1, 2)).unwrap() == MaybeRelocatable::RelocatableValue(addr(1, 2)));
    assert!(mem.index(&addr(1, 3)).unwrap() == MaybeRelocatable::RelocatableValue(addr(0, 2)));
    let vm = runner.vm.as_ref().unwrap();
    assert!(vm.run_context.pc == MaybeRelocatable::RelocatableValue(addr(0, 2)));
    assert!(vm.run_context.fp == MaybeRelocatable::RelocatableValue(addr(1, 4)));
}

#[test]
fn jnz_takes_both_branches() {
    // jmp rel 4 if [ap - 1] != 0, with 0 and then 7 under [ap - 1].
    let jnz = (512u64 + 4 + 2) << 48 | 0x8001u64 << 32 | 0x7fffu64 << 16 | 0x7fff;
    // Zero case: the jump falls through to the next instruction.
    let program = stripped(
        &[
            0x480680017fff8000,
            0,
            jnz,
            4,
            0x208b7fff7fff7ffe,
        ],
        &[],
        Some(0),
    );
    let mut runner = new_runner(program, CairoLayout::plain_instance());
    runner.initialize_segments();
    let end = runner.initialize_main_entrypoint().unwrap();
    runner.initialize_vm(Vec::new()).unwrap();
    runner
        .run_until_pc(MaybeRelocatable::RelocatableValue(end), None)
        .unwrap();
    // Three instructions ran: the write, the untaken jump, the return.
    assert_eq!(runner.vm.as_ref().unwrap().current_step, 3);

    // Non-zero case: the jump leaps over the fall-through return onto a
    // second return at offset 6.
    let program = stripped(
        &[
            0x480680017fff8000,
            7,
            jnz,
            4,
            0x208b7fff7fff7ffe,
            0,
            0x208b7fff7fff7ffe,
        ],
        &[],
        Some(0),
    );
    let mut runner = new_runner(program, CairoLayout::plain_instance());
    runner.initialize_segments();
    let end = runner.initialize_main_entrypoint().unwrap();
    runner.initialize_vm(Vec::new()).unwrap();
    runner
        .run_until_pc(MaybeRelocatable::RelocatableValue(end), None)
        .unwrap();
    let vm = runner.vm.as_ref().unwrap();
    assert_eq!(vm.current_step, 3);
    // The jump's trace entry stands at the jump, the next at its target.
    assert!(vm.trace[1].pc == MaybeRelocatable::RelocatableValue(addr(0, 2)));
    assert!(vm.trace[2].pc == MaybeRelocatable::RelocatableValue(addr(0, 6)));
}

#[test]
fn auto_deduction_rules_are_checked_at_end_run() {
    // The machine's own closing check: a cell that a rule contradicts is
    // reported with both values.
    let program = stripped(&[0x208b7fff7fff7ffe], &[], Some(0));
    let mut runner = new_runner(program, CairoLayout::plain_instance());
    runner.initialize_segments();
    let end = runner.initialize_main_entrypoint().unwrap();
    runner.initialize_vm(Vec::new()).unwrap();
    // Segment 4 holds a bitwise group whose third cell is wrong.
    runner
        .validated_memory
        .index_set(addr(4, 0), ival(0b1100))
        .unwrap();
    runner
        .validated_memory
        .index_set(addr(4, 1), ival(0b1010))
        .unwrap();
    runner
        .validated_memory
        .index_set(addr(4, 2), ival(0b0001))
        .unwrap();
    runner
        .vm
        .as_mut()
        .unwrap()
        .auto_deduction
        .push((4, vec![Rule::Bitwise]));
    runner
        .run_until_pc(MaybeRelocatable::RelocatableValue(end), None)
        .unwrap();
    match runner.end_run(false, false) {
        Err(Error::VirtualMachineError(VirtualMachineError::InconsistentAutoDeduction {
            addr: a,
            current_value,
            new_value,
        })) => {
            assert_eq!(a, addr(4, 2));
            assert!(current_value == ival(0b0001));
            assert!(new_value == ival(0b1000));
        }
        _ => panic!("expected an inconsistent deduction"),
    }
}

#[test]
fn consistent_auto_deduction_passes_end_run() {
    let program = stripped(&[0x208b7fff7fff7ffe], &[], Some(0));
    let mut runner = new_runner(program, CairoLayout::plain_instance());
    runner.initialize_segments();
    let end = runner.initialize_main_entrypoint().unwrap();
    runner.initialize_vm(Vec::new()).unwrap();
    runner
        .validated_memory
        .index_set(addr(4, 0), ival(0b1100))
        .unwrap();
    runner
        .validated_memory
        .index_set(addr(4, 1), ival(0b1010))
        .unwrap();
    runner
        .validated_memory
        .index_set(addr(4, 2), ival(0b1000))
        .unwrap();
    runner
        .vm
        .as_mut()
        .unwrap()
        .auto_deduction
        .push((4, vec![Rule::Bitwise]));
    runner
        .run_until_pc(MaybeRelocatable::RelocatableValue(end), None)
        .unwrap();
    runner.end_run(false, false).unwrap();
    assert!(runner.run_ended);
}

#[test]
fn hints_need_an_embedding_runtime() {
    // A full program with a hint at its entry: the machine reports that
    // running it needs an embedding runtime, before anything executes.
    let mut program = full_program(true);
    program.hints.push((
        0,
        vec![CairoHint {
            code: "ap += 1".to_string(),
            accessible_scopes: Vec::new(),
            flow_tracking_data: oriac::program::FlowTrackingDataActual {},
        }],
    ));
    let mut runner = new_runner(
        Program::Full(Box::new(program)),
        CairoLayout::plain_instance(),
    );
    runner.initialize_segments();
    let end = runner.initialize_main_entrypoint().unwrap();
    runner.initialize_vm(Vec::new()).unwrap();
    match runner.run_until_pc(MaybeRelocatable::RelocatableValue(end), None) {
        Err(Error::VirtualMachineError(VirtualMachineError::HintExecuteError { .. })) => {}
        _ => panic!("expected the hint fault"),
    }
    assert_eq!(runner.vm.as_ref().unwrap().current_step, 0);
}

#[test]
fn immediate_mode_needs_off2_one() {
    // An immediate operand whose offset is not one is refused while the
    // operand addresses are computed.
    let bad = (16384u64 + 4 + 2) << 48 | 0x8002u64 << 32 | 0x7fffu64 << 16 | 0x8000;
    let program = stripped(&[bad, 5, 0x208b7fff7fff7ffe], &[], Some(0));
    let mut runner = new_runner(program, CairoLayout::plain_instance());
    runner.initialize_segments();
    let end = runner.initialize_main_entrypoint().unwrap();
    runner.initialize_vm(Vec::new()).unwrap();
    match runner.run_until_pc(MaybeRelocatable::RelocatableValue(end), None) {
        Err(Error::VirtualMachineError(VirtualMachineError::RunContextError(
            RunContextError::InvalidOff2Value,
        ))) => {}
        _ => panic!("expected the off2 fault"),
    }
}

#[test]
fn scopes_must_balance_before_the_run_ends() {
    let program = stripped(&[0x208b7fff7fff7ffe], &[], Some(0));
    let mut runner = new_runner(program, CairoLayout::plain_instance());
    runner.initialize_segments();
    let end = runner.initialize_main_entrypoint().unwrap();
    runner.initialize_vm(Vec::new()).unwrap();
    runner.vm.as_mut().unwrap().enter_scope(None);
    runner
        .run_until_pc(MaybeRelocatable::RelocatableValue(end), None)
        .unwrap();
    match runner.end_run(false, false) {
        Err(Error::VirtualMachineError(VirtualMachineError::EnterExitScopeMismatch)) => {}
        _ => panic!("expected the scope fault"),
    }
    // Leaving the extra scope repairs the balance; the next attempt at
    // ending the run succeeds.
    runner.vm.as_mut().unwrap().exit_scope().unwrap();
    runner.end_run(false, false).unwrap();
}

#[test]
fn builtins_must_keep_the_canonical_order() {
    // Declared out of order: the declaration list is no subsequence of
    // the supported order, even though every name is supported.
    let program = stripped(&[0x208b7fff7fff7ffe], &["range_check", "output"], Some(0));
    match CairoRunner::new(
        program,
        CairoLayout::small_instance(),
        MemoryDict::new(),
        false,
        false,
    ) {
        Err(Error::BuiltinsNotSubsequence {
            supported_builtin_list,
            program_builtins,
        }) => {
            assert_eq!(supported_builtin_list.len(), 5);
            assert_eq!(program_builtins.len(), 2);
        }
        _ => panic!("expected the ordering fault"),
    }
    // A duplicate declaration is no subsequence either.
    let program = stripped(&[0x208b7fff7fff7ffe], &["output", "output"], Some(0));
    assert!(matches!(
        CairoRunner::new(
            program,
            CairoLayout::small_instance(),
            MemoryDict::new(),
            false,
            false,
        ),
        Err(Error::BuiltinsNotSubsequence { .. })
    ));
}

#[test]
fn builtins_missing_from_the_layout_are_reported() {
    // The plain layout has no builtins at all.
    let program = stripped(&[0x208b7fff7fff7ffe], &["output"], Some(0));
    match CairoRunner::new(
        program,
        CairoLayout::plain_instance(),
        MemoryDict::new(),
        false,
        false,
    ) {
        Err(Error::BuiltinsNotPresent {
            non_existing_builtins,
            layout,
        }) => {
            assert_eq!(non_existing_builtins.len(), 1);
            assert_eq!(layout, "plain");
        }
        _ => panic!("expected the missing-builtin fault"),
    }
}

#[test]
fn trivial_run_appends_nothing_to_public_memory() {
    let program = stripped(&[0x208b7fff7fff7ffe], &[], Some(0));
    let mut runner = new_runner(program, CairoLayout::plain_instance());
    runner.initialize_segments();
    let end = runner.initialize_main_entrypoint().unwrap();
    runner.initialize_vm(Vec::new()).unwrap();
    runner
        .run_until_pc(MaybeRelocatable::RelocatableValue(end), None)
        .unwrap();
    runner.end_run(false, false).unwrap();
    runner.read_return_values().unwrap();
    // No builtins: the walked range is empty.
    assert_eq!(runner.execution_public_memory, Some(Vec::new()));
}
