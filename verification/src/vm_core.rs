use vstd::prelude::*;
use crate::encode::{decode_instruction, decode_result_of, opt_felt_view, spec_decode, DecodeError};
use crate::felt::{nat_and, nat_or, nat_xor, Felt};
use crate::instruction::{
    ApUpdate, FpUpdate, Instruction, InstructionV, Op1Addr, Opcode, PcUpdate, Register, Res,
};
use crate::memory_dict::{
    spec_read, Error as MemoryDictError, MemoryDict, mem_result_of,
};
use crate::program::{CairoHint, Program};
use crate::relocatable::{
    cell_add, cell_add_int, cell_rem, cell_result_of, cell_sub, Cell, MathError, MaybeRelocatable,
    RelocatableValue,
};
use crate::trace_entry::TraceEntry;
use crate::validated_memory_dict::ValidatedMemoryDict;

verus! {

/// Values of the operands of one instruction.
#[derive(Debug)]
pub struct Operands {
    pub dst: MaybeRelocatable,
    pub res: Option<MaybeRelocatable>,
    pub op0: MaybeRelocatable,
    pub op1: MaybeRelocatable,
}

/// The mathematical content of the operands.
pub struct OperandsV {
    pub dst: Cell,
    pub res: Option<Cell>,
    pub op0: Cell,
    pub op1: Cell,
}

impl View for Operands {
    type V = OperandsV;

    open spec fn view(&self) -> OperandsV {
        OperandsV {
            dst: self.dst@,
            res: match &self.res {
                Some(r) => Some(r@),
                None => None,
            },
            op0: self.op0@,
            op1: self.op1@,
        }
    }
}

/// A fault while computing an operand address.
#[derive(Debug, Clone, Copy, PartialEq, Eq, Structural)]
pub enum RunContextError {
    /// In immediate mode, off2 must be 1.
    InvalidOff2Value,
    /// op0 must be known in a double dereference.
    UnknownOp0,
}

/// A fault while running the machine.
#[derive(Debug)]
pub enum VirtualMachineError {
    RunContextError(RunContextError),
    MemoryDictError(MemoryDictError),
    /// An operation needed a field element where an address stood, or the
    /// arithmetic fell outside what addresses can represent.
    PureValueError(MathError),
    DecodeError(DecodeError),
    /// An unconstrained result cannot be asserted against.
    AssertEqWithUnconstrained,
    /// An equality assertion failed.
    AssertEqFailed { dst: MaybeRelocatable, res: MaybeRelocatable },
    /// A call failed to write its return location.
    FailedToWriteReturnPc { op0: MaybeRelocatable, return_pc: MaybeRelocatable },
    /// A call failed to write its caller's frame pointer.
    FailedToWriteReturnFp { dst: MaybeRelocatable, return_fp: MaybeRelocatable },
    /// An unconstrained result cannot move the allocation pointer.
    AddWithUnconstrained,
    /// An unconstrained result cannot be jumped to.
    JumpWithUnconstrained,
    /// An unconstrained result cannot be jumped by.
    JumpRelWithUnconstrained,
    /// Every scope that is entered must be left before the run ends.
    EnterExitScopeMismatch,
    /// A stored cell disagrees with what its deduction rule computes.
    InconsistentAutoDeduction {
        addr: RelocatableValue,
        current_value: MaybeRelocatable,
        new_value: MaybeRelocatable,
    },
    /// A hint stands at the current location, and hint execution needs an
    /// embedding runtime.
    HintExecuteError { hint_index: usize, exception: String },
}

/// Registers and prime of a running machine; the memory lives with its
/// owner and is handed in where needed.
#[derive(Debug)]
pub struct RunContext {
    pub pc: MaybeRelocatable,
    pub ap: MaybeRelocatable,
    pub fp: MaybeRelocatable,
    pub prime: Felt,
}

/// The base register an instruction field names.
pub open spec fn spec_reg(ap: Cell, fp: Cell, r: Register) -> Cell {
    match r {
        Register::AP => ap,
        Register::FP => fp,
    }
}

/// The address of the destination operand: the named register moved by
/// off0, reduced by the prime.
pub open spec fn spec_dst_addr(ap: Cell, fp: Cell, i: InstructionV, p: nat) -> Result<
    Cell,
    MathError,
> {
    cell_add_int(spec_reg(ap, fp, i.dst_register), i.off0, p)
}

/// The address of the first operand: the named register moved by off1,
/// reduced by the prime.
pub open spec fn spec_op0_addr(ap: Cell, fp: Cell, i: InstructionV, p: nat) -> Result<
    Cell,
    MathError,
> {
    cell_add_int(spec_reg(ap, fp, i.op0_register), i.off1, p)
}

/// The base of the second operand: a register, the location after the
/// instruction (off2 must then be 1), or the first operand's value, which
/// must then be known.
pub open spec fn spec_op1_base(
    pc: Cell,
    ap: Cell,
    fp: Cell,
    i: InstructionV,
    op0: Option<Cell>,
) -> Result<Cell, RunContextError> {
    match i.op1_addr {
        Op1Addr::FP => Ok(fp),
        Op1Addr::AP => Ok(ap),
        Op1Addr::IMM => if i.off2 == 1 {
            Ok(pc)
        } else {
            Err(RunContextError::InvalidOff2Value)
        },
        Op1Addr::OP0 => match op0 {
            Some(c) => Ok(c),
            None => Err(RunContextError::UnknownOp0),
        },
    }
}

impl RunContext {
    pub fn new(pc: MaybeRelocatable, ap: MaybeRelocatable, fp: MaybeRelocatable, prime: Felt)
        -> (r: Self)
        ensures
            r.pc@ == pc@,
            r.ap@ == ap@,
            r.fp@ == fp@,
            r.prime@ == prime@,
    {
        Self { pc, ap, fp, prime }
    }

    pub fn compute_dst_addr(&self, instruction: &Instruction) -> (r: Result<
        MaybeRelocatable,
        MathError,
    >)
        requires
            self.prime@ > 0,
        ensures
            cell_result_of(r) == spec_dst_addr(self.ap@, self.fp@, instruction@, self.prime@),
    {
        let base_addr = match instruction.dst_register {
            Register::AP => &self.ap,
            Register::FP => &self.fp,
        };
        base_addr.add_int(instruction.off0 as i64, &self.prime)
    }

    pub fn compute_op0_addr(&self, instruction: &Instruction) -> (r: Result<
        MaybeRelocatable,
        MathError,
    >)
        requires
            self.prime@ > 0,
        ensures
            cell_result_of(r) == spec_op0_addr(self.ap@, self.fp@, instruction@, self.prime@),
    {
        let base_addr = match instruction.op0_register {
            Register::AP => &self.ap,
            Register::FP => &self.fp,
        };
        base_addr.add_int(instruction.off1 as i64, &self.prime)
    }

    /// The address of the second operand: its base moved by off2, reduced
    /// by the prime.
    pub fn compute_op1_addr(&self, instruction: &Instruction, op0: Option<&MaybeRelocatable>)
        -> (r: Result<MaybeRelocatable, VirtualMachineError>)
        requires
            self.prime@ > 0,
        ensures
            ({
                let base = spec_op1_base(
                    self.pc@,
                    self.ap@,
                    self.fp@,
                    instruction@,
                    match op0 {
                        Some(c) => Some(c@),
                        None => None,
                    },
                );
                match r {
                    Ok(v) => base matches Ok(b) && cell_add_int(b, instruction@.off2, self.prime@)
                        == Ok::<Cell, MathError>(v@),
                    Err(VirtualMachineError::RunContextError(e)) => base == Err::<
                        Cell,
                        RunContextError,
                    >(e),
                    Err(VirtualMachineError::PureValueError(e)) => base matches Ok(b)
                        && cell_add_int(b, instruction@.off2, self.prime@) == Err::<
                        Cell,
                        MathError,
                    >(e),
                    Err(_) => false,
                }
            }),
    {
        let base_addr = match instruction.op1_addr {
            Op1Addr::FP => &self.fp,
            Op1Addr::AP => &self.ap,
            Op1Addr::IMM => {
                if instruction.off2 != 1 {
                    return Err(
                        VirtualMachineError::RunContextError(RunContextError::InvalidOff2Value),
                    );
                }
                &self.pc
            },
            Op1Addr::OP0 => match op0 {
                Some(op0) => op0,
                None => {
                    return Err(
                        VirtualMachineError::RunContextError(RunContextError::UnknownOp0),
                    );
                },
            },
        };
        match base_addr.add_int(instruction.off2 as i64, &self.prime) {
            Ok(v) => Ok(v),
            Err(e) => Err(VirtualMachineError::PureValueError(e)),
        }
    }

    /// The encoded instruction at the current location, together with the
    /// immediate value in the following cell, if one is stored there.
    pub fn get_instruction_encoding(&self, memory: &MemoryDict) -> (r: Result<
        (Felt, Option<Felt>),
        VirtualMachineError,
    >)
        ensures
            match r {
                Ok((enc, imm)) => {
                    &&& self.pc@ matches Cell::Addr(a)
                    &&& spec_read(*memory, a) == Ok::<Cell, MemoryDictError>(Cell::Int(enc@))
                    &&& a.offset < i64::MAX
                    &&& ({
                        let next = RelocatableValue {
                            segment_index: a.segment_index,
                            offset: (a.offset + 1) as i64,
                        };
                        match spec_read(*memory, next) {
                            Ok(Cell::Int(v)) => opt_felt_view(imm) == Some(v),
                            _ => imm is None,
                        }
                    })
                },
                Err(VirtualMachineError::PureValueError(MathError::PureValue)) => self.pc@
                    is Int || (self.pc@ matches Cell::Addr(a) && (spec_read(*memory, a) matches
                Ok(c) && c is Addr)),
                Err(VirtualMachineError::PureValueError(MathError::OffsetOutOfRange)) => self.pc@
                    matches Cell::Addr(a) && a.offset == i64::MAX && (spec_read(*memory, a) matches
                Ok(c) && c is Int),
                Err(VirtualMachineError::MemoryDictError(e)) => self.pc@ matches Cell::Addr(a)
                    && (spec_read(*memory, a) == Err::<Cell, MemoryDictError>(e) || (
                    a.offset < i64::MAX && (spec_read(*memory, a) matches Ok(c) && c is Int)
                        && spec_read(
                        *memory,
                        RelocatableValue {
                            segment_index: a.segment_index,
                            offset: (a.offset + 1) as i64,
                        },
                    ) == Err::<Cell, MemoryDictError>(e))),
                Err(_) => false,
            },
            memory.relocation_rules@.len() == 0 ==> match r {
                Err(VirtualMachineError::MemoryDictError(e)) => self.pc@ matches Cell::Addr(a)
                    && spec_read(*memory, a) == Err::<Cell, MemoryDictError>(e),
                _ => true,
            },
    {
        let pc = match &self.pc {
            MaybeRelocatable::RelocatableValue(a) => a,
            MaybeRelocatable::Int(_) => {
                return Err(VirtualMachineError::PureValueError(MathError::PureValue));
            },
        };
        let enc = match memory.index(pc) {
            Ok(MaybeRelocatable::Int(f)) => f,
            Ok(MaybeRelocatable::RelocatableValue(_)) => {
                return Err(VirtualMachineError::PureValueError(MathError::PureValue));
            },
            Err(e) => {
                return Err(VirtualMachineError::MemoryDictError(e));
            },
        };
        if pc.offset == i64::MAX {
            return Err(VirtualMachineError::PureValueError(MathError::OffsetOutOfRange));
        }
        let next = RelocatableValue::new(pc.segment_index, pc.offset + 1);
        let imm = match memory.get(&next, None) {
            Ok(Some(MaybeRelocatable::Int(f))) => Some(f),
            Ok(_) => None,
            Err(e) => {
                proof {
                    if memory.relocation_rules@.len() == 0 {
                        if memory@.dom().contains(next) {
                            crate::memory_dict::lemma_relocate_no_rules(*memory, memory@[next]);
                        }
                        assert(false);
                    }
                }
                return Err(VirtualMachineError::MemoryDictError(e));
            },
        };
        Ok((enc, imm))
    }
}


/// An auto-deduction rule for a segment: a pure function from the memory
/// and an address to a possibly deduced field element.
#[derive(Debug, Clone, Copy, PartialEq, Eq, Structural)]
pub enum Rule {
    /// The segment holds groups of five cells: two inputs followed by
    /// their bitwise conjunction, exclusive disjunction and disjunction,
    /// which are deduced once both inputs are field elements.
    Bitwise,
}

/// What the bitwise rule deduces at an address, reading the two inputs of
/// the address's group.
pub open spec fn spec_bitwise_deduce(
    m: Map<RelocatableValue, Cell>,
    addr: RelocatableValue,
) -> Option<nat> {
    if addr.offset < 0 {
        None
    } else {
        let idx = addr.offset % 5;
        if idx < 2 {
            None
        } else {
            let xa = RelocatableValue {
                segment_index: addr.segment_index,
                offset: (addr.offset - idx) as i64,
            };
            let ya = RelocatableValue {
                segment_index: addr.segment_index,
                offset: (addr.offset - idx + 1) as i64,
            };
            if m.dom().contains(xa) && m.dom().contains(ya) && (m[xa] matches Cell::Int(_))
                && (m[ya] matches Cell::Int(_)) {
                let x = m[xa]->Int_0;
                let y = m[ya]->Int_0;
                if idx == 2 {
                    Some(nat_and(x, y))
                } else if idx == 3 {
                    Some(nat_xor(x, y))
                } else {
                    Some(nat_or(x, y))
                }
            } else {
                None
            }
        }
    }
}

/// What a rule deduces at an address.
pub open spec fn rule_deduces(
    r: Rule,
    m: Map<RelocatableValue, Cell>,
    addr: RelocatableValue,
) -> Option<nat> {
    match r {
        Rule::Bitwise => spec_bitwise_deduce(m, addr),
    }
}

impl Rule {
    /// Applies the rule to an address.
    pub fn deduce(&self, memory: &MemoryDict, addr: &RelocatableValue) -> (r: Option<Felt>)
        ensures
            match r {
                Some(v) => rule_deduces(*self, memory@, *addr) == Some(v@),
                None => rule_deduces(*self, memory@, *addr) is None,
            },
    {
        match self {
            Rule::Bitwise => {
                if addr.offset < 0 {
                    return None;
                }
                let idx = addr.offset % 5;
                if idx < 2 {
                    return None;
                }
                let xa = RelocatableValue::new(addr.segment_index, addr.offset - idx);
                let ya = RelocatableValue::new(addr.segment_index, addr.offset - idx + 1);
                let x = match memory.peek(&xa) {
                    Some(MaybeRelocatable::Int(f)) => f.clone(),
                    _ => {
                        return None;
                    },
                };
                let y = match memory.peek(&ya) {
                    Some(MaybeRelocatable::Int(f)) => f.clone(),
                    _ => {
                        return None;
                    },
                };
                if idx == 2 {
                    Some(x.and_felt(&y))
                } else if idx == 3 {
                    Some(x.xor_felt(&y))
                } else {
                    Some(x.or_felt(&y))
                }
            },
        }
    }
}

/// One stack level of user-defined locals available to hints.
#[derive(Debug)]
pub struct HintScope {
    pub locals: Vec<String>,
}

/// The whole state of the virtual machine apart from memory: registers,
/// counters, trace, hints, scopes and deduction rules.
#[derive(Debug)]
pub struct VirtualMachine {
    pub prime: Felt,
    pub exec_scopes: Vec<HintScope>,
    /// Maps an address to the hints to run before the instruction there.
    pub hints: Vec<(RelocatableValue, Vec<CairoHint>)>,
    /// Maps a hint id to its address and index among that address's hints.
    pub hint_pc_and_index: Vec<(u64, (RelocatableValue, u64))>,
    /// Maps a segment index to its auto-deduction rules.
    pub auto_deduction: Vec<(i64, Vec<Rule>)>,
    /// Set by a hint to skip the instruction under it.
    pub skip_instruction_execution: bool,
    pub run_context: RunContext,
    /// The addresses actual instructions touched.
    pub accessed_addresses: Vec<RelocatableValue>,
    pub trace: Vec<TraceEntry<MaybeRelocatable>>,
    pub current_step: u64,
}

/// The auto-deduction rules as a map from segment index to its rules.
pub open spec fn rules_of(s: Seq<(i64, Vec<Rule>)>) -> Map<i64, Seq<Rule>> {
    crate::assoc::assoc_map(s.map_values(|e: (i64, Vec<Rule>)| (e.0, e.1@)))
}

impl VirtualMachine {
    /// The auto-deduction rules as a map.
    pub open spec fn rules_map(&self) -> Map<i64, Seq<Rule>> {
        rules_of(self.auto_deduction@)
    }

    /// Trace length and step counter go hand in hand.
    pub open spec fn trace_consistent(&self) -> bool {
        self.trace@.len() == self.current_step
    }

    /// Builds a machine over a loaded program: the program's cells count
    /// as accessed, one hint scope is open, and for a full program the
    /// hints are filed under their addresses.
    pub fn new(
        program: &Program,
        run_context: RunContext,
        hint_locals: Vec<String>,
        program_base: Option<RelocatableValue>,
    ) -> (r: Result<Self, VirtualMachineError>)
        ensures
            match r {
                Ok(vm) => {
                    &&& vm.prime@ == program.spec_prime()
                    &&& vm.run_context == run_context
                    &&& vm.exec_scopes@.len() == 1
                    &&& vm.auto_deduction@.len() == 0
                    &&& !vm.skip_instruction_execution
                    &&& vm.trace@.len() == 0
                    &&& vm.current_step == 0
                    &&& vm.trace_consistent()
                    &&& ({
                        let base = match program_base {
                            Some(b) => b,
                            None => run_context.pc@->Addr_0,
                        };
                        &&& vm.accessed_addresses@.len() == program.spec_data().len()
                        &&& forall|i: int|
                            0 <= i < program.spec_data().len()
                                ==> (#[trigger] vm.accessed_addresses@[i]) == (RelocatableValue {
                                segment_index: base.segment_index,
                                offset: (base.offset + i) as i64,
                            })
                    })
                    &&& (program matches Program::Stripped(_) ==> vm.hints@.len() == 0)
                },
                Err(e) => e matches VirtualMachineError::PureValueError(m) && (m
                    == MathError::OffsetOutOfRange || m == MathError::PureValue),
            },
            (program_base matches Some(b) && b.offset >= 0 && b.offset
                + program.spec_data().len() <= i64::MAX && (match program {
                Program::Stripped(_) => true,
                Program::Full(f) => forall|j: int|
                    0 <= j < f.hints@.len() ==> (#[trigger] f.hints@[j]).0 + b.offset
                        <= i64::MAX,
            })) ==> r is Ok,
    {
        let base: RelocatableValue = match program_base {
            Some(b) => b,
            None => match &run_context.pc {
                MaybeRelocatable::RelocatableValue(a) => *a,
                MaybeRelocatable::Int(_) => {
                    return Err(VirtualMachineError::PureValueError(MathError::PureValue));
                },
            },
        };
        let data_len = program.data().len();
        if data_len > 0 {
            if base.offset < 0 {
                return Err(VirtualMachineError::PureValueError(MathError::OffsetOutOfRange));
            }
            let room: u64 = (i64::MAX - base.offset) as u64;
            if ((data_len - 1) as u64) > room {
                return Err(VirtualMachineError::PureValueError(MathError::OffsetOutOfRange));
            }
        }
        let mut accessed_addresses: Vec<RelocatableValue> = Vec::new();
        let mut i: usize = 0;
        while i < data_len
            invariant
                i <= data_len,
                data_len > 0 ==> base.offset >= 0 && base.offset + data_len - 1 <= i64::MAX,
                accessed_addresses@.len() == i,
                forall|j: int|
                    0 <= j < i ==> (#[trigger] accessed_addresses@[j]) == (RelocatableValue {
                        segment_index: base.segment_index,
                        offset: (base.offset + j) as i64,
                    }),
            decreases data_len - i,
        {
            accessed_addresses.push(RelocatableValue::new(base.segment_index, base.offset + (
            i as i64)));
            i = i + 1;
        }
        let mut exec_scopes: Vec<HintScope> = Vec::new();
        exec_scopes.push(HintScope { locals: hint_locals });
        let mut vm = Self {
            prime: program.prime().clone(),
            exec_scopes,
            hints: Vec::new(),
            hint_pc_and_index: Vec::new(),
            auto_deduction: Vec::new(),
            skip_instruction_execution: false,
            run_context,
            accessed_addresses,
            trace: Vec::new(),
            current_step: 0,
        };
        match program {
            Program::Full(full) => {
                match vm.load_hints(full, base) {
                    Ok(()) => {},
                    Err(e) => {
                        return Err(e);
                    },
                }
            },
            Program::Stripped(_) => {},
        }
        Ok(vm)
    }

    /// Files a full program's hints under their addresses in the program
    /// segment.
    pub fn load_hints(&mut self, program: &crate::program::FullProgram, program_base:
        RelocatableValue) -> (r: Result<(), VirtualMachineError>)
        ensures
            final(self).prime == old(self).prime,
            final(self).exec_scopes == old(self).exec_scopes,
            final(self).auto_deduction == old(self).auto_deduction,
            final(self).skip_instruction_execution == old(self).skip_instruction_execution,
            final(self).run_context == old(self).run_context,
            final(self).accessed_addresses == old(self).accessed_addresses,
            final(self).trace == old(self).trace,
            final(self).current_step == old(self).current_step,
            match r {
                Ok(()) => final(self).hints@.len() == old(self).hints@.len()
                    + program.hints@.len(),
                Err(e) => e matches VirtualMachineError::PureValueError(
                    MathError::OffsetOutOfRange,
                ),
            },
            (program_base.offset >= 0 && forall|j: int|
                0 <= j < program.hints@.len() ==> (#[trigger] program.hints@[j]).0
                    + program_base.offset <= i64::MAX) ==> r is Ok,
    {
        let n = program.hints.len();
        let mut i: usize = 0;
        while i < n
            invariant
                n == program.hints@.len(),
                i <= n,
                self.prime == old(self).prime,
                self.exec_scopes == old(self).exec_scopes,
                self.auto_deduction == old(self).auto_deduction,
                self.skip_instruction_execution == old(self).skip_instruction_execution,
                self.run_context == old(self).run_context,
                self.accessed_addresses == old(self).accessed_addresses,
                self.trace == old(self).trace,
                self.current_step == old(self).current_step,
                self.hints@.len() == old(self).hints@.len() + i,
            decreases n - i,
        {
            let pc = program.hints[i].0;
            if program_base.offset < 0 || pc > i64::MAX as u64 || (pc as i64) > i64::MAX
                - program_base.offset {
                proof {
                    assert(program.hints@[i as int].0 == pc);
                }
                return Err(VirtualMachineError::PureValueError(MathError::OffsetOutOfRange));
            }
            let addr = RelocatableValue::new(
                program_base.segment_index,
                program_base.offset + (pc as i64),
            );
            let hints_here = &program.hints[i].1;
            let mut compiled: Vec<CairoHint> = Vec::new();
            let m = hints_here.len();
            let mut j: usize = 0;
            while j < m
                invariant
                    m == hints_here@.len(),
                    j <= m,
                    self.prime == old(self).prime,
                    self.exec_scopes == old(self).exec_scopes,
                    self.auto_deduction == old(self).auto_deduction,
                    self.skip_instruction_execution == old(self).skip_instruction_execution,
                    self.run_context == old(self).run_context,
                    self.accessed_addresses == old(self).accessed_addresses,
                    self.trace == old(self).trace,
                    self.current_step == old(self).current_step,
                    self.hints@.len() == old(self).hints@.len() + i,
                decreases m - j,
            {
                #[verifier::truncate]
                let hint_id = self.hint_pc_and_index.len() as u64;
                self.hint_pc_and_index.push((hint_id, (addr, j as u64)));
                compiled.push(hints_here[j].clone_hint());
                j = j + 1;
            }
            self.hints.push((addr, compiled));
            i = i + 1;
        }
        Ok(())
    }

    /// Opens a new scope of hint locals; it must be closed again before
    /// the run ends.
    pub fn enter_scope(&mut self, new_scope_locals: Option<Vec<String>>)
        ensures
            *final(self) == (VirtualMachine { exec_scopes: final(self).exec_scopes, ..*old(self) }),
            final(self).exec_scopes@.len() == old(self).exec_scopes@.len() + 1,
    {
        let locals = match new_scope_locals {
            Some(l) => l,
            None => Vec::new(),
        };
        self.exec_scopes.push(HintScope { locals });
    }

    /// Closes the innermost scope of hint locals.
    pub fn exit_scope(&mut self) -> (r: Result<(), VirtualMachineError>)
        ensures
            match r {
                Ok(()) => old(self).exec_scopes@.len() > 0 && *final(self) == (VirtualMachine {
                    exec_scopes: final(self).exec_scopes,
                    ..*old(self)
                }) && final(self).exec_scopes@ == old(self).exec_scopes@.drop_last(),
                Err(VirtualMachineError::EnterExitScopeMismatch) => old(self).exec_scopes@.len()
                    == 0 && *final(self) == *old(self),
                Err(_) => false,
            },
    {
        if self.exec_scopes.len() == 0 {
            return Err(VirtualMachineError::EnterExitScopeMismatch);
        }
        let _ = self.exec_scopes.pop();
        Ok(())
    }
}

/// What the opcode deduces for the first operand, together with a result
/// it implies: a call stores its return location; an equality assertion
/// solves for the missing operand where the result logic allows it.
pub open spec fn spec_deduce_op0(
    i: InstructionV,
    pc: Cell,
    dst: Option<Cell>,
    op1: Option<Cell>,
    p: nat,
) -> Result<(Option<Cell>, Option<Cell>), MathError> {
    match i.opcode {
        Opcode::CALL => match cell_add_int(pc, i.spec_size() as int, p) {
            Ok(c) => Ok((Some(c), None)),
            Err(e) => Err(e),
        },
        Opcode::ASSERT_EQ => if i.res is ADD && dst is Some && op1 is Some {
            match cell_sub(dst->Some_0, op1->Some_0, p) {
                Ok(c) => Ok((Some(c), Some(dst->Some_0))),
                Err(e) => Err(e),
            }
        } else if i.res is MUL && dst is Some && op1 is Some && dst->Some_0 is Int
            && op1->Some_0 is Int {
            let dx = dst->Some_0->Int_0;
            let oy = op1->Some_0->Int_0;
            if oy != 0 && crate::felt::spec_gcd(oy, p) == 1 {
                Ok(
                    (
                        Some(Cell::Int(((dx * crate::felt::inv_mod_spec(oy, p)) % p) as nat)),
                        Some(Cell::Int(dx)),
                    ),
                )
            } else {
                Ok((None, None))
            }
        } else {
            Ok((None, None))
        },
        _ => Ok((None, None)),
    }
}

/// What the opcode deduces for the second operand, together with a result
/// it implies.
pub open spec fn spec_deduce_op1(
    i: InstructionV,
    dst: Option<Cell>,
    op0: Option<Cell>,
    p: nat,
) -> Result<(Option<Cell>, Option<Cell>), MathError> {
    match i.opcode {
        Opcode::ASSERT_EQ => if i.res is OP1 && dst is Some {
            Ok((Some(dst->Some_0), Some(dst->Some_0)))
        } else if i.res is ADD && dst is Some && op0 is Some {
            match cell_sub(dst->Some_0, op0->Some_0, p) {
                Ok(c) => Ok((Some(c), Some(dst->Some_0))),
                Err(e) => Err(e),
            }
        } else if i.res is MUL && dst is Some && op0 is Some && dst->Some_0 is Int
            && op0->Some_0 is Int {
            let dx = dst->Some_0->Int_0;
            let ox = op0->Some_0->Int_0;
            if ox != 0 && crate::felt::spec_gcd(ox, p) == 1 {
                Ok(
                    (
                        Some(Cell::Int(((dx * crate::felt::inv_mod_spec(ox, p)) % p) as nat)),
                        Some(Cell::Int(dx)),
                    ),
                )
            } else {
                Ok((None, None))
            }
        } else {
            Ok((None, None))
        },
        _ => Ok((None, None)),
    }
}

/// What the result logic computes from the two operands: the second
/// operand itself, their sum, their product (of field elements only), or
/// nothing for an unconstrained result.
pub open spec fn spec_compute_res(i: InstructionV, op0: Cell, op1: Cell, p: nat) -> Result<
    Option<Cell>,
    MathError,
> {
    match i.res {
        Res::OP1 => Ok(Some(op1)),
        Res::ADD => match cell_add(op0, op1, p) {
            Ok(c) => Ok(Some(c)),
            Err(e) => Err(e),
        },
        Res::MUL => if op0 is Int && op1 is Int {
            Ok(Some(Cell::Int(((op0->Int_0 * op1->Int_0) % p) as nat)))
        } else {
            Err(MathError::PureValue)
        },
        Res::UNCONSTRAINED => Ok(None),
    }
}

impl VirtualMachine {
    /// Returns what the opcode deduces for the first operand, and the
    /// result it implies.
    pub fn deduce_op0(
        &self,
        instruction: &Instruction,
        dst: Option<&MaybeRelocatable>,
        op1: Option<&MaybeRelocatable>,
    ) -> (r: Result<(Option<MaybeRelocatable>, Option<MaybeRelocatable>), VirtualMachineError>)
        requires
            self.run_context.prime@ > 1,
        ensures
            ({
                let m = spec_deduce_op0(
                    instruction@,
                    self.run_context.pc@,
                    opt_cell(dst),
                    opt_cell(op1),
                    self.run_context.prime@,
                );
                match r {
                    Ok((a, b)) => m matches Ok(pair) && opt_view(a) == pair.0 && opt_view(b)
                        == pair.1,
                    Err(VirtualMachineError::PureValueError(e)) => m == Err::<
                        (Option<Cell>, Option<Cell>),
                        MathError,
                    >(e),
                    Err(_) => false,
                }
            }),
    {
        match instruction.opcode {
            Opcode::CALL => {
                let size = instruction.size();
                match self.run_context.pc.add_int(size as i64, &self.run_context.prime) {
                    Ok(c) => Ok((Some(c), None)),
                    Err(e) => Err(VirtualMachineError::PureValueError(e)),
                }
            },
            Opcode::ASSERT_EQ => {
                match (&instruction.res, dst, op1) {
                    (Res::ADD, Some(d), Some(o1)) => {
                        match d.sub_cell(o1, &self.run_context.prime) {
                            Ok(c) => Ok((Some(c), Some(d.clone()))),
                            Err(e) => Err(VirtualMachineError::PureValueError(e)),
                        }
                    },
                    (Res::MUL, Some(MaybeRelocatable::Int(dx)), Some(MaybeRelocatable::Int(oy)))
                        => {
                        if oy.is_zero() {
                            Ok((None, None))
                        } else {
                            match oy.inv_mod(&self.run_context.prime) {
                                Some(inv) => {
                                    let q = dx.mul_mod(&inv, &self.run_context.prime);
                                    Ok(
                                        (
                                            Some(MaybeRelocatable::Int(q)),
                                            Some(MaybeRelocatable::Int(dx.clone())),
                                        ),
                                    )
                                },
                                None => Ok((None, None)),
                            }
                        }
                    },
                    _ => Ok((None, None)),
                }
            },
            _ => Ok((None, None)),
        }
    }

    /// Returns what the opcode deduces for the second operand, and the
    /// result it implies.
    pub fn deduce_op1(
        &self,
        instruction: &Instruction,
        dst: Option<&MaybeRelocatable>,
        op0: Option<&MaybeRelocatable>,
    ) -> (r: Result<(Option<MaybeRelocatable>, Option<MaybeRelocatable>), VirtualMachineError>)
        requires
            self.run_context.prime@ > 1,
        ensures
            ({
                let m = spec_deduce_op1(
                    instruction@,
                    opt_cell(dst),
                    opt_cell(op0),
                    self.run_context.prime@,
                );
                match r {
                    Ok((a, b)) => m matches Ok(pair) && opt_view(a) == pair.0 && opt_view(b)
                        == pair.1,
                    Err(VirtualMachineError::PureValueError(e)) => m == Err::<
                        (Option<Cell>, Option<Cell>),
                        MathError,
                    >(e),
                    Err(_) => false,
                }
            }),
    {
        match instruction.opcode {
            Opcode::ASSERT_EQ => {
                match (&instruction.res, dst, op0) {
                    (Res::OP1, Some(d), _) => Ok((Some(d.clone()), Some(d.clone()))),
                    (Res::ADD, Some(d), Some(o0)) => {
                        match d.sub_cell(o0, &self.run_context.prime) {
                            Ok(c) => Ok((Some(c), Some(d.clone()))),
                            Err(e) => Err(VirtualMachineError::PureValueError(e)),
                        }
                    },
                    (Res::MUL, Some(MaybeRelocatable::Int(dx)), Some(MaybeRelocatable::Int(ox)))
                        => {
                        if ox.is_zero() {
                            Ok((None, None))
                        } else {
                            match ox.inv_mod(&self.run_context.prime) {
                                Some(inv) => {
                                    let q = dx.mul_mod(&inv, &self.run_context.prime);
                                    Ok(
                                        (
                                            Some(MaybeRelocatable::Int(q)),
                                            Some(MaybeRelocatable::Int(dx.clone())),
                                        ),
                                    )
                                },
                                None => Ok((None, None)),
                            }
                        }
                    },
                    _ => Ok((None, None)),
                }
            },
            _ => Ok((None, None)),
        }
    }

    /// Computes the result value, where the result logic constrains one.
    pub fn compute_res(
        &self,
        instruction: &Instruction,
        op0: &MaybeRelocatable,
        op1: &MaybeRelocatable,
    ) -> (r: Result<Option<MaybeRelocatable>, VirtualMachineError>)
        requires
            self.run_context.prime@ > 0,
        ensures
            ({
                let m = spec_compute_res(instruction@, op0@, op1@, self.run_context.prime@);
                match r {
                    Ok(v) => m matches Ok(c) && opt_view(v) == c,
                    Err(VirtualMachineError::PureValueError(e)) => m == Err::<
                        Option<Cell>,
                        MathError,
                    >(e),
                    Err(_) => false,
                }
            }),
    {
        match instruction.res {
            Res::OP1 => Ok(Some(op1.clone())),
            Res::ADD => match op0.add_cell(op1, &self.run_context.prime) {
                Ok(c) => Ok(Some(c)),
                Err(e) => Err(VirtualMachineError::PureValueError(e)),
            },
            Res::MUL => match (op0, op1) {
                (MaybeRelocatable::Int(x), MaybeRelocatable::Int(y)) => Ok(
                    Some(MaybeRelocatable::Int(x.mul_mod(y, &self.run_context.prime))),
                ),
                _ => Err(VirtualMachineError::PureValueError(MathError::PureValue)),
            },
            Res::UNCONSTRAINED => Ok(None),
        }
    }

    /// Tries to deduce the cell at an address from the rules of its
    /// segment, writing anything deduced into memory.
    pub fn deduce_memory_cell(&self, memory: &mut ValidatedMemoryDict, addr: &RelocatableValue)
        -> (r: Result<Option<MaybeRelocatable>, VirtualMachineError>)
        ensures
            final(memory).validation_rules == old(memory).validation_rules,
            final(memory).memory.frozen == old(memory).memory.frozen,
            final(memory).memory.relocation_rules == old(memory).memory.relocation_rules,
            forall|a: RelocatableValue| #[trigger] old(memory).memory@.dom().contains(a)
                ==> final(memory).memory@.dom().contains(a) && final(memory).memory@[a] == old(memory).memory@[a],
            forall|a: RelocatableValue| #[trigger] final(memory).memory@.dom().contains(a)
                ==> old(memory).memory@.dom().contains(a) || a == *addr,
            !self.rules_map().dom().contains(addr.segment_index) ==> *final(memory) == *old(memory),
            r matches Ok(v) ==> v is None,
    {
        let n = self.auto_deduction.len();
        let mut i: usize = 0;
        while i < n
            invariant_except_break
                n == self.auto_deduction@.len(),
                i <= n,
                *memory == *old(memory),
                forall|j: int|
                    0 <= j < i ==> (#[trigger] self.auto_deduction@[j]).0 != addr.segment_index,
            ensures
                i <= n,
                *memory == *old(memory),
                forall|j: int|
                    0 <= j < i ==> (#[trigger] self.auto_deduction@[j]).0 != addr.segment_index,
                i < n ==> self.auto_deduction@[i as int].0 == addr.segment_index,
            decreases n - i,
        {
            if self.auto_deduction[i].0 == addr.segment_index {
                break;
            }
            i = i + 1;
        }
        if i == self.auto_deduction.len() {
            proof {
                crate::assoc::lemma_assoc_contains(
                    self.auto_deduction@.map_values(|e: (i64, Vec<Rule>)| (e.0, e.1@)),
                    addr.segment_index,
                );
            }
            return Ok(None);
        }
        proof {
            let mapped = self.auto_deduction@.map_values(|e: (i64, Vec<Rule>)| (e.0, e.1@));
            assert(mapped[i as int].0 == addr.segment_index);
            crate::assoc::lemma_assoc_contains(mapped, addr.segment_index);
        }
        let rules = &self.auto_deduction[i].1;
        let m = rules.len();
        let mut k: usize = 0;
        while k < m
            invariant
                i < self.auto_deduction@.len(),
                m == self.auto_deduction@[i as int].1@.len(),
                k <= m,
                memory.validation_rules == old(memory).validation_rules,
                self.rules_map().dom().contains(addr.segment_index),
                memory.memory.frozen == old(memory).memory.frozen,
                memory.memory.relocation_rules == old(memory).memory.relocation_rules,
                forall|a: RelocatableValue| #[trigger] old(memory).memory@.dom().contains(a)
                    ==> memory.memory@.dom().contains(a) && memory.memory@[a] == old(memory).memory@[a],
                forall|a: RelocatableValue| #[trigger] memory.memory@.dom().contains(a)
                    ==> old(memory).memory@.dom().contains(a) || a == *addr,
            decreases m - k,
        {
            let rule = &self.auto_deduction[i].1[k];
            match rule.deduce(&memory.memory, addr) {
                Some(v) => {
                    match memory.index_set(*addr, MaybeRelocatable::Int(v)) {
                        Ok(()) => {},
                        Err(e) => {
                            return Err(VirtualMachineError::MemoryDictError(e));
                        },
                    }
                },
                None => {},
            }
            k = k + 1;
        }
        Ok(None)
    }
}

/// The mathematical value of an optional borrowed cell.
pub open spec fn opt_cell(o: Option<&MaybeRelocatable>) -> Option<Cell> {
    match o {
        Some(v) => Some(v@),
        None => None,
    }
}

/// The mathematical value of an optional owned cell.
pub open spec fn opt_view(o: Option<MaybeRelocatable>) -> Option<Cell> {
    match o {
        Some(v) => Some(v@),
        None => None,
    }
}


/// What an optional read of an address yields: the cell, or nothing for
/// an address that holds none.
pub open spec fn spec_read_opt(mem: MemoryDict, a: RelocatableValue) -> Option<Cell> {
    match spec_read(mem, a) {
        Ok(c) => Some(c),
        Err(_) => None,
    }
}

/// The operands of an instruction whose three operand cells are all held
/// in memory, together with their addresses; nothing is deduced or
/// written on this path.
pub open spec fn happy_operands(
    mem: MemoryDict,
    pc: Cell,
    ap: Cell,
    fp: Cell,
    i: InstructionV,
    p: nat,
) -> Option<(OperandsV, RelocatableValue, RelocatableValue, RelocatableValue)> {
    match spec_dst_addr(ap, fp, i, p) {
        Ok(Cell::Addr(da)) => match spec_read(mem, da) {
            Ok(dv) => match spec_op0_addr(ap, fp, i, p) {
                Ok(Cell::Addr(oa)) => match spec_read(mem, oa) {
                    Ok(o0v) => match spec_op1_base(pc, ap, fp, i, Some(o0v)) {
                        Ok(b) => match cell_add_int(b, i.off2, p) {
                            Ok(Cell::Addr(o1a)) => match spec_read(mem, o1a) {
                                Ok(o1v) => match spec_compute_res(i, o0v, o1v, p) {
                                    Ok(resv) => Some(
                                        (
                                            OperandsV {
                                                dst: dv,
                                                res: resv,
                                                op0: o0v,
                                                op1: o1v,
                                            },
                                            da,
                                            oa,
                                            o1a,
                                        ),
                                    ),
                                    Err(_) => None,
                                },
                                Err(_) => None,
                            },
                            _ => None,
                        },
                        Err(_) => None,
                    },
                    Err(_) => None,
                },
                _ => None,
            },
            Err(_) => None,
        },
        _ => None,
    }
}

impl VirtualMachine {
    /// Computes the values of the operands, fetching them from memory,
    /// deducing the missing ones from the rules and the opcode, and
    /// writing every deduced value back; returns the operands and their
    /// three addresses.
    pub fn compute_operands(&self, memory: &mut ValidatedMemoryDict, instruction: &Instruction)
        -> (r: Result<(Operands, Vec<MaybeRelocatable>), VirtualMachineError>)
        requires
            self.run_context.prime@ > 1,
        ensures
            final(memory).validation_rules == old(memory).validation_rules,
            final(memory).memory.frozen == old(memory).memory.frozen,
            final(memory).memory.relocation_rules == old(memory).memory.relocation_rules,
            forall|a: RelocatableValue| #[trigger] old(memory).memory@.dom().contains(a)
                ==> final(memory).memory@.dom().contains(a) && final(memory).memory@[a] == old(memory).memory@[a],
            match r {
                Ok((ops, addrs)) => {
                    &&& addrs@.len() == 3
                    &&& spec_dst_addr(
                        self.run_context.ap@,
                        self.run_context.fp@,
                        instruction@,
                        self.run_context.prime@,
                    ) == Ok::<Cell, MathError>(addrs@[0]@)
                    &&& spec_op0_addr(
                        self.run_context.ap@,
                        self.run_context.fp@,
                        instruction@,
                        self.run_context.prime@,
                    ) == Ok::<Cell, MathError>(addrs@[1]@)
                    &&& addrs@[0]@ is Addr
                    &&& addrs@[1]@ is Addr
                    &&& addrs@[2]@ is Addr
                    &&& spec_op1_base(
                        self.run_context.pc@,
                        self.run_context.ap@,
                        self.run_context.fp@,
                        instruction@,
                        spec_read_opt(old(memory).memory, addrs@[1]@->Addr_0),
                    ) matches Ok(b) && cell_add_int(
                        b,
                        instruction@.off2,
                        self.run_context.prime@,
                    ) == Ok::<Cell, MathError>(addrs@[2]@)
                    &&& forall|a: RelocatableValue| #[trigger] final(memory).memory@.dom().contains(a) ==> old(memory).memory@.dom().contains(a) || a
                        == addrs@[0]@->Addr_0 || a == addrs@[1]@->Addr_0 || a == addrs@[2]@->Addr_0
                    &&& (old(memory).memory.relocation_rules@.len() == 0 ==> {
                        &&& final(memory).memory@.dom().contains(addrs@[0]@->Addr_0)
                        &&& final(memory).memory@[addrs@[0]@->Addr_0] == ops@.dst
                        &&& final(memory).memory@.dom().contains(addrs@[1]@->Addr_0)
                        &&& final(memory).memory@[addrs@[1]@->Addr_0] == ops@.op0
                        &&& final(memory).memory@.dom().contains(addrs@[2]@->Addr_0)
                        &&& final(memory).memory@[addrs@[2]@->Addr_0] == ops@.op1
                    })
                },
                Err(_) => true,
            },
            old(memory).memory.relocation_rules@.len() == 0 ==> match happy_operands(
                old(memory).memory,
                self.run_context.pc@,
                self.run_context.ap@,
                self.run_context.fp@,
                instruction@,
                self.run_context.prime@,
            ) {
                Some(t) => r matches Ok((ops, addrs)) && ops@ == t.0 && *final(memory) == *old(memory) && addrs@[0]@ == Cell::Addr(t.1) && addrs@[1]@ == Cell::Addr(t.2) && addrs@[2]@
                    == Cell::Addr(t.3),
                None => true,
            },
    {
        let ghost rules_empty = old(memory).memory.relocation_rules@.len() == 0;
        let dst_addr_mr = match self.run_context.compute_dst_addr(instruction) {
            Ok(v) => v,
            Err(e) => {
                return Err(VirtualMachineError::PureValueError(e));
            },
        };
        let dst_addr = match &dst_addr_mr {
            MaybeRelocatable::RelocatableValue(a) => *a,
            MaybeRelocatable::Int(_) => {
                return Err(VirtualMachineError::PureValueError(MathError::PureValue));
            },
        };
        let mut dst: Option<MaybeRelocatable> = match memory.get(&dst_addr, None) {
            Ok(v) => v,
            Err(e) => {
                return Err(VirtualMachineError::MemoryDictError(e));
            },
        };
        let op0_addr_mr = match self.run_context.compute_op0_addr(instruction) {
            Ok(v) => v,
            Err(e) => {
                return Err(VirtualMachineError::PureValueError(e));
            },
        };
        let op0_addr = match &op0_addr_mr {
            MaybeRelocatable::RelocatableValue(a) => *a,
            MaybeRelocatable::Int(_) => {
                return Err(VirtualMachineError::PureValueError(MathError::PureValue));
            },
        };
        let mut op0: Option<MaybeRelocatable> = match memory.get(&op0_addr, None) {
            Ok(v) => v,
            Err(e) => {
                return Err(VirtualMachineError::MemoryDictError(e));
            },
        };
        let op1_addr_mr = match self.run_context.compute_op1_addr(instruction, op0.as_ref()) {
            Ok(v) => v,
            Err(e) => {
                return Err(e);
            },
        };
        let op1_addr = match &op1_addr_mr {
            MaybeRelocatable::RelocatableValue(a) => *a,
            MaybeRelocatable::Int(_) => {
                return Err(VirtualMachineError::PureValueError(MathError::PureValue));
            },
        };
        let mut op1: Option<MaybeRelocatable> = match memory.get(&op1_addr, None) {
            Ok(v) => v,
            Err(e) => {
                return Err(VirtualMachineError::MemoryDictError(e));
            },
        };
        let mut res: Option<MaybeRelocatable> = None;

        // Auto-deduction rules may fill a missing operand's cell.
        if op0.is_none() {
            match self.deduce_memory_cell(memory, &op0_addr) {
                Ok(_) => {},
                Err(e) => {
                    return Err(e);
                },
            }
            op0 = match memory.get(&op0_addr, None) {
                Ok(v) => v,
                Err(e) => {
                    return Err(VirtualMachineError::MemoryDictError(e));
                },
            };
        }
        if op1.is_none() {
            match self.deduce_memory_cell(memory, &op1_addr) {
                Ok(_) => {},
                Err(e) => {
                    return Err(e);
                },
            }
            op1 = match memory.get(&op1_addr, None) {
                Ok(v) => v,
                Err(e) => {
                    return Err(VirtualMachineError::MemoryDictError(e));
                },
            };
        }
        let should_update_dst = dst.is_none();
        let should_update_op0 = op0.is_none();
        let should_update_op1 = op1.is_none();

        // Deduce op0 from the opcode if needed.
        if op0.is_none() {
            let (d0, dres) = match self.deduce_op0(instruction, dst.as_ref(), op1.as_ref()) {
                Ok(v) => v,
                Err(e) => {
                    return Err(e);
                },
            };
            op0 = d0;
            if res.is_none() {
                res = dres;
            }
        }
        // Deduce op1 from the opcode if needed.
        if op1.is_none() {
            let (d1, dres) = match self.deduce_op1(instruction, dst.as_ref(), op0.as_ref()) {
                Ok(v) => v,
                Err(e) => {
                    return Err(e);
                },
            };
            op1 = d1;
            if res.is_none() {
                res = dres;
            }
        }
        // Force both operands out of memory, for soundness.
        let op0: MaybeRelocatable = match op0 {
            Some(v) => v,
            None => match memory.index(&op0_addr) {
                Ok(v) => v,
                Err(e) => {
                    return Err(VirtualMachineError::MemoryDictError(e));
                },
            },
        };
        let op1: MaybeRelocatable = match op1 {
            Some(v) => v,
            None => match memory.index(&op1_addr) {
                Ok(v) => v,
                Err(e) => {
                    return Err(VirtualMachineError::MemoryDictError(e));
                },
            },
        };
        // Compute res if it was not deduced.
        if res.is_none() {
            res = match self.compute_res(instruction, &op0, &op1) {
                Ok(v) => v,
                Err(e) => {
                    return Err(e);
                },
            };
        }
        // Deduce dst if needed.
        if dst.is_none() {
            match instruction.opcode {
                Opcode::ASSERT_EQ => match &res {
                    Some(r) => {
                        dst = Some(r.clone());
                    },
                    None => {},
                },
                Opcode::CALL => {
                    dst = Some(self.run_context.fp.clone());
                },
                _ => {},
            }
        }
        // Force dst out of memory, for soundness.
        let dst: MaybeRelocatable = match dst {
            Some(v) => v,
            None => match memory.index(&dst_addr) {
                Ok(v) => v,
                Err(e) => {
                    return Err(VirtualMachineError::MemoryDictError(e));
                },
            },
        };
        // Write deduced values back; the write-once store reports any
        // conflict with what a rule already wrote.
        if should_update_dst {
            match memory.index_set(dst_addr, dst.clone()) {
                Ok(()) => {},
                Err(e) => {
                    return Err(VirtualMachineError::MemoryDictError(e));
                },
            }
        }
        if should_update_op0 {
            match memory.index_set(op0_addr, op0.clone()) {
                Ok(()) => {},
                Err(e) => {
                    return Err(VirtualMachineError::MemoryDictError(e));
                },
            }
        }
        if should_update_op1 {
            match memory.index_set(op1_addr, op1.clone()) {
                Ok(()) => {},
                Err(e) => {
                    return Err(VirtualMachineError::MemoryDictError(e));
                },
            }
        }
        proof {
            if rules_empty {
                if old(memory).memory@.dom().contains(dst_addr) {
                    crate::memory_dict::lemma_relocate_no_rules(
                        old(memory).memory,
                        old(memory).memory@[dst_addr],
                    );
                }
                if old(memory).memory@.dom().contains(op0_addr) {
                    crate::memory_dict::lemma_relocate_no_rules(
                        old(memory).memory,
                        old(memory).memory@[op0_addr],
                    );
                }
                if old(memory).memory@.dom().contains(op1_addr) {
                    crate::memory_dict::lemma_relocate_no_rules(
                        old(memory).memory,
                        old(memory).memory@[op1_addr],
                    );
                }
            }
        }
        let mut addrs: Vec<MaybeRelocatable> = Vec::new();
        addrs.push(MaybeRelocatable::RelocatableValue(dst_addr));
        addrs.push(MaybeRelocatable::RelocatableValue(op0_addr));
        addrs.push(MaybeRelocatable::RelocatableValue(op1_addr));
        Ok((Operands { dst, res, op0, op1 }, addrs))
    }
}


/// A fault while updating registers or checking an opcode, in its
/// mathematical form.
pub enum UpdateErr {
    /// A needed result was unconstrained.
    Unconstrained,
    Math(MathError),
}

/// The next frame pointer: kept, moved past the call frame, or taken from
/// the destination operand.
pub open spec fn spec_new_fp(i: InstructionV, ops: OperandsV, ap: Cell, fp: Cell, p: nat)
    -> Result<Cell, MathError> {
    match i.fp_update {
        FpUpdate::AP_PLUS2 => cell_add_int(ap, 2, p),
        FpUpdate::DST => Ok(ops.dst),
        FpUpdate::REGULAR => Ok(fp),
    }
}

/// The next allocation pointer, reduced by the prime: kept, moved by the
/// (reduced) result, or moved by one or two cells.
pub open spec fn spec_new_ap(i: InstructionV, ops: OperandsV, ap: Cell, p: nat) -> Result<
    Cell,
    UpdateErr,
> {
    let moved = match i.ap_update {
        ApUpdate::ADD => match ops.res {
            Some(r) => match cell_add(ap, cell_rem(r, p), p) {
                Ok(c) => Ok(c),
                Err(e) => Err(UpdateErr::Math(e)),
            },
            None => Err(UpdateErr::Unconstrained),
        },
        ApUpdate::ADD1 => match cell_add_int(ap, 1, p) {
            Ok(c) => Ok(c),
            Err(e) => Err(UpdateErr::Math(e)),
        },
        ApUpdate::ADD2 => match cell_add_int(ap, 2, p) {
            Ok(c) => Ok(c),
            Err(e) => Err(UpdateErr::Math(e)),
        },
        ApUpdate::REGULAR => Ok(ap),
    };
    match moved {
        Ok(c) => Ok(cell_rem(c, p)),
        Err(e) => Err(e),
    }
}

/// Whether a cell counts as zero for a conditional jump: a zero field
/// element is zero, an address with a non-negative offset is not, and an
/// address with a negative offset is a fault.
pub open spec fn spec_is_zero(c: Cell) -> Result<bool, MathError> {
    match c {
        Cell::Int(x) => Ok(x == 0),
        Cell::Addr(r) => if r.offset >= 0 {
            Ok(false)
        } else {
            Err(MathError::PureValue)
        },
    }
}

/// The next program counter, reduced by the prime: past the instruction,
/// to the result, by the result, or, conditionally on the destination, by
/// the second operand.
pub open spec fn spec_new_pc(i: InstructionV, ops: OperandsV, pc: Cell, p: nat) -> Result<
    Cell,
    UpdateErr,
> {
    let moved = match i.pc_update {
        PcUpdate::REGULAR => match cell_add_int(pc, i.spec_size() as int, p) {
            Ok(c) => Ok(c),
            Err(e) => Err(UpdateErr::Math(e)),
        },
        PcUpdate::JUMP => match ops.res {
            Some(r) => Ok(r),
            None => Err(UpdateErr::Unconstrained),
        },
        PcUpdate::JUMP_REL => match ops.res {
            Some(r) => if r is Int {
                match cell_add(pc, r, p) {
                    Ok(c) => Ok(c),
                    Err(e) => Err(UpdateErr::Math(e)),
                }
            } else {
                Err(UpdateErr::Math(MathError::PureValue))
            },
            None => Err(UpdateErr::Unconstrained),
        },
        PcUpdate::JNZ => match spec_is_zero(ops.dst) {
            Ok(true) => match cell_add_int(pc, i.spec_size() as int, p) {
                Ok(c) => Ok(c),
                Err(e) => Err(UpdateErr::Math(e)),
            },
            Ok(false) => match cell_add(pc, ops.op1, p) {
                Ok(c) => Ok(c),
                Err(e) => Err(UpdateErr::Math(e)),
            },
            Err(e) => Err(UpdateErr::Math(e)),
        },
    };
    match moved {
        Ok(c) => Ok(cell_rem(c, p)),
        Err(e) => Err(e),
    }
}

/// Whether the opcode's own assertions hold of the operands: an equality
/// assertion requires the destination to equal the result, and a call
/// requires its return location and caller frame to have been written.
pub open spec fn spec_opcode_check(i: InstructionV, ops: OperandsV, pc: Cell, fp: Cell, p: nat)
    -> bool {
    match i.opcode {
        Opcode::ASSERT_EQ => ops.res matches Some(r) && ops.dst == r,
        Opcode::CALL => cell_add_int(pc, i.spec_size() as int, p) matches Ok(rpc) && ops.op0
            == rpc && ops.dst == fp,
        _ => true,
    }
}

impl VirtualMachine {
    /// Checks the opcode's assertions on the computed operands.
    pub fn opcode_assertions(&self, instruction: &Instruction, operands: &Operands) -> (r: Result<
        (),
        VirtualMachineError,
    >)
        requires
            self.run_context.prime@ > 0,
        ensures
            match r {
                Ok(()) => spec_opcode_check(
                    instruction@,
                    operands@,
                    self.run_context.pc@,
                    self.run_context.fp@,
                    self.run_context.prime@,
                ),
                Err(VirtualMachineError::AssertEqWithUnconstrained) => instruction@.opcode
                    is ASSERT_EQ && operands@.res is None,
                Err(VirtualMachineError::AssertEqFailed { dst, res }) => {
                    &&& instruction@.opcode is ASSERT_EQ
                    &&& operands@.res matches Some(rv) && rv != operands@.dst && dst@
                        == operands@.dst && res@ == rv
                },
                Err(VirtualMachineError::FailedToWriteReturnPc { op0, return_pc }) => {
                    &&& instruction@.opcode is CALL
                    &&& cell_add_int(
                        self.run_context.pc@,
                        instruction@.spec_size() as int,
                        self.run_context.prime@,
                    ) matches Ok(rpc) && operands@.op0 != rpc && op0@ == operands@.op0
                        && return_pc@ == rpc
                },
                Err(VirtualMachineError::FailedToWriteReturnFp { dst, return_fp }) => {
                    &&& instruction@.opcode is CALL
                    &&& cell_add_int(
                        self.run_context.pc@,
                        instruction@.spec_size() as int,
                        self.run_context.prime@,
                    ) matches Ok(rpc) && operands@.op0 == rpc && operands@.dst
                        != self.run_context.fp@ && dst@ == operands@.dst && return_fp@
                        == self.run_context.fp@
                },
                Err(VirtualMachineError::PureValueError(e)) => instruction@.opcode is CALL
                    && cell_add_int(
                    self.run_context.pc@,
                    instruction@.spec_size() as int,
                    self.run_context.prime@,
                ) == Err::<Cell, MathError>(e),
                Err(_) => false,
            },
    {
        match instruction.opcode {
            Opcode::ASSERT_EQ => match &operands.res {
                Some(res) => {
                    if !(&operands.dst == res) {
                        Err(
                            VirtualMachineError::AssertEqFailed {
                                dst: operands.dst.clone(),
                                res: res.clone(),
                            },
                        )
                    } else {
                        Ok(())
                    }
                },
                None => Err(VirtualMachineError::AssertEqWithUnconstrained),
            },
            Opcode::CALL => {
                let size = instruction.size();
                let return_pc = match self.run_context.pc.add_int(size as i64, &self
                    .run_context.prime) {
                    Ok(v) => v,
                    Err(e) => {
                        return Err(VirtualMachineError::PureValueError(e));
                    },
                };
                if !(&operands.op0 == &return_pc) {
                    return Err(
                        VirtualMachineError::FailedToWriteReturnPc {
                            op0: operands.op0.clone(),
                            return_pc,
                        },
                    );
                }
                if !(&operands.dst == &self.run_context.fp) {
                    return Err(
                        VirtualMachineError::FailedToWriteReturnFp {
                            dst: operands.dst.clone(),
                            return_fp: self.run_context.fp.clone(),
                        },
                    );
                }
                Ok(())
            },
            Opcode::RET => Ok(()),
            Opcode::NOP => Ok(()),
        }
    }

    /// Updates the registers for the executed instruction: the frame
    /// pointer first, then the allocation pointer, then the program
    /// counter, so that a fault leaves the program counter on the failed
    /// instruction.
    #[verifier::rlimit(60)]
    pub fn update_registers(&mut self, instruction: &Instruction, operands: &Operands) -> (r:
        Result<(), VirtualMachineError>)
        requires
            old(self).run_context.prime@ > 0,
        ensures
            *final(self) == (VirtualMachine { run_context: final(self).run_context, ..*old(self) }),
            final(self).run_context.prime == old(self).run_context.prime,
            ({
                let i = instruction@;
                let ops = operands@;
                let p = old(self).run_context.prime@;
                let fpr = spec_new_fp(i, ops, old(self).run_context.ap@, old(self).run_context.fp@, p);
                let apr = spec_new_ap(i, ops, old(self).run_context.ap@, p);
                let pcr = spec_new_pc(i, ops, old(self).run_context.pc@, p);
                match r {
                    Ok(()) => fpr matches Ok(f) && apr matches Ok(a) && pcr matches Ok(c) && final(self).run_context.fp@ == f && final(self).run_context.ap@ == a && final(self).run_context.pc@ == c,
                    Err(e) => final(self).run_context.pc@ == old(self).run_context.pc@ && (
                    match fpr {
                        Err(f) => final(self).run_context.ap@ == old(self).run_context.ap@
                            && final(self).run_context.fp@ == old(self).run_context.fp@ && (
                        e matches VirtualMachineError::PureValueError(m) && m == f),
                        Ok(fv) => final(self).run_context.fp@ == fv && (match apr {
                            Err(UpdateErr::Unconstrained) => final(self).run_context.ap@ == old(self).run_context.ap@ && (e
                                matches VirtualMachineError::AddWithUnconstrained),
                            Err(UpdateErr::Math(m)) => final(self).run_context.ap@ == old(self).run_context.ap@ && (e matches VirtualMachineError::PureValueError(
                                m2,
                            ) && m2 == m),
                            Ok(av) => final(self).run_context.ap@ == av && (match pcr {
                                Err(UpdateErr::Unconstrained) => if instruction@.pc_update
                                    is JUMP {
                                    e matches VirtualMachineError::JumpWithUnconstrained
                                } else {
                                    e matches VirtualMachineError::JumpRelWithUnconstrained
                                },
                                Err(UpdateErr::Math(m)) => e
                                    matches VirtualMachineError::PureValueError(m2) && m2 == m,
                                Ok(_) => false,
                            }),
                        }),
                    }),
                }
            }),
    {
        // Update fp.
        let new_fp: MaybeRelocatable = match instruction.fp_update {
            FpUpdate::AP_PLUS2 => match self.run_context.ap.add_int(2, &self.run_context.prime) {
                Ok(v) => v,
                Err(e) => {
                    return Err(VirtualMachineError::PureValueError(e));
                },
            },
            FpUpdate::DST => operands.dst.clone(),
            FpUpdate::REGULAR => self.run_context.fp.clone(),
        };
        self.run_context.fp = new_fp;

        // Update ap.
        let moved_ap: MaybeRelocatable = match instruction.ap_update {
            ApUpdate::ADD => match &operands.res {
                Some(res) => {
                    let reduced = res.rem_cell(&self.run_context.prime);
                    match self.run_context.ap.add_cell(&reduced, &self.run_context.prime) {
                        Ok(v) => v,
                        Err(e) => {
                            return Err(VirtualMachineError::PureValueError(e));
                        },
                    }
                },
                None => {
                    return Err(VirtualMachineError::AddWithUnconstrained);
                },
            },
            ApUpdate::ADD1 => match self.run_context.ap.add_int(1, &self.run_context.prime) {
                Ok(v) => v,
                Err(e) => {
                    return Err(VirtualMachineError::PureValueError(e));
                },
            },
            ApUpdate::ADD2 => match self.run_context.ap.add_int(2, &self.run_context.prime) {
                Ok(v) => v,
                Err(e) => {
                    return Err(VirtualMachineError::PureValueError(e));
                },
            },
            ApUpdate::REGULAR => self.run_context.ap.clone(),
        };
        self.run_context.ap = moved_ap.rem_cell(&self.run_context.prime);

        // Update pc, last, so that a fault above leaves it in place.
        let moved_pc: MaybeRelocatable = match instruction.pc_update {
            PcUpdate::REGULAR => {
                let size = instruction.size();
                match self.run_context.pc.add_int(size as i64, &self.run_context.prime) {
                    Ok(v) => v,
                    Err(e) => {
                        return Err(VirtualMachineError::PureValueError(e));
                    },
                }
            },
            PcUpdate::JUMP => match &operands.res {
                Some(res) => res.clone(),
                None => {
                    return Err(VirtualMachineError::JumpWithUnconstrained);
                },
            },
            PcUpdate::JUMP_REL => match &operands.res {
                Some(res) => match res {
                    MaybeRelocatable::Int(_) => {
                        match self.run_context.pc.add_cell(res, &self.run_context.prime) {
                            Ok(v) => v,
                            Err(e) => {
                                return Err(VirtualMachineError::PureValueError(e));
                            },
                        }
                    },
                    MaybeRelocatable::RelocatableValue(_) => {
                        return Err(
                            VirtualMachineError::PureValueError(MathError::PureValue),
                        );
                    },
                },
                None => {
                    return Err(VirtualMachineError::JumpRelWithUnconstrained);
                },
            },
            PcUpdate::JNZ => {
                let zero = match &operands.dst {
                    MaybeRelocatable::Int(f) => f.is_zero(),
                    MaybeRelocatable::RelocatableValue(a) => {
                        if a.offset >= 0 {
                            false
                        } else {
                            return Err(
                                VirtualMachineError::PureValueError(MathError::PureValue),
                            );
                        }
                    },
                };
                if zero {
                    let size = instruction.size();
                    match self.run_context.pc.add_int(size as i64, &self.run_context.prime) {
                        Ok(v) => v,
                        Err(e) => {
                            return Err(VirtualMachineError::PureValueError(e));
                        },
                    }
                } else {
                    match self.run_context.pc.add_cell(&operands.op1, &self.run_context.prime) {
                        Ok(v) => v,
                        Err(e) => {
                            return Err(VirtualMachineError::PureValueError(e));
                        },
                    }
                }
            },
        };
        self.run_context.pc = moved_pc.rem_cell(&self.run_context.prime);
        Ok(())
    }
}


/// The immediate cell value after an address, if a field element is
/// stored there.
pub open spec fn spec_imm_at(mem: MemoryDict, a: RelocatableValue) -> Option<nat> {
    match spec_read(
        mem,
        RelocatableValue { segment_index: a.segment_index, offset: (a.offset + 1) as i64 },
    ) {
        Ok(Cell::Int(v)) => Some(v),
        _ => None,
    }
}

/// What decoding the cell under a program counter yields: the decoded
/// instruction or a decode fault, or nothing where no well-formed
/// encoding can even be read.
pub open spec fn spec_decoded_at(mem: MemoryDict, pcc: Cell) -> Option<
    Result<InstructionV, DecodeError>,
> {
    match pcc {
        Cell::Addr(a) => if a.offset < i64::MAX {
            match spec_read(mem, a) {
                Ok(Cell::Int(enc)) => Some(spec_decode(enc as int, spec_imm_at(mem, a))),
                _ => None,
            }
        } else {
            None
        },
        _ => None,
    }
}

/// The hints stored for an address.
pub open spec fn hints_at(hints: Seq<(RelocatableValue, Vec<CairoHint>)>, a: RelocatableValue)
    -> Option<Seq<CairoHint>> {
    let m = crate::assoc::assoc_map(
        hints.map_values(|e: (RelocatableValue, Vec<CairoHint>)| (e.0, e.1@)),
    );
    if m.dom().contains(a) {
        Some(m[a])
    } else {
        None
    }
}

impl VirtualMachine {
    /// Decodes the instruction under the current program counter, reading
    /// one or two cells.
    pub fn decode_current_instruction(&self, memory: &ValidatedMemoryDict) -> (r: Result<
        Instruction,
        VirtualMachineError,
    >)
        ensures
            match r {
                Ok(inst) => spec_decoded_at(memory.memory, self.run_context.pc@) == Some(
                    Ok::<InstructionV, DecodeError>(inst@),
                ),
                Err(VirtualMachineError::DecodeError(e)) => spec_decoded_at(
                    memory.memory,
                    self.run_context.pc@,
                ) == Some(Err::<InstructionV, DecodeError>(e)),
                Err(VirtualMachineError::MemoryDictError(e)) => spec_decoded_at(
                    memory.memory,
                    self.run_context.pc@,
                ) is None || (self.run_context.pc@ matches Cell::Addr(a) && spec_read(
                    memory.memory,
                    RelocatableValue {
                        segment_index: a.segment_index,
                        offset: (a.offset + 1) as i64,
                    },
                ) == Err::<Cell, MemoryDictError>(e)),
                Err(_) => spec_decoded_at(memory.memory, self.run_context.pc@) is None,
            },
            (memory.memory.relocation_rules@.len() == 0 && r matches Err(
                VirtualMachineError::MemoryDictError(_),
            )) ==> spec_decoded_at(memory.memory, self.run_context.pc@) is None,
    {
        let (enc, imm) = match self.run_context.get_instruction_encoding(&memory.memory) {
            Ok(v) => v,
            Err(e) => {
                return Err(e);
            },
        };
        match decode_instruction(enc, imm) {
            Ok(inst) => Ok(inst),
            Err(e) => Err(VirtualMachineError::DecodeError(e)),
        }
    }

    /// Runs one decoded instruction: computes its operands, checks the
    /// opcode's assertions, appends the trace entry, notes the accessed
    /// addresses, updates the registers and counts the step.
    pub fn run_instruction(&mut self, memory: &mut ValidatedMemoryDict, instruction: &Instruction)
        -> (r: Result<(), VirtualMachineError>)
        requires
            old(self).run_context.prime@ > 1,
            old(self).current_step < u64::MAX,
        ensures
            final(memory).validation_rules == old(memory).validation_rules,
            final(memory).memory.frozen == old(memory).memory.frozen,
            final(memory).memory.relocation_rules == old(memory).memory.relocation_rules,
            forall|a: RelocatableValue| #[trigger] old(memory).memory@.dom().contains(a)
                ==> final(memory).memory@.dom().contains(a) && final(memory).memory@[a] == old(memory).memory@[a],
            final(self).prime == old(self).prime,
            final(self).exec_scopes == old(self).exec_scopes,
            final(self).hints == old(self).hints,
            final(self).auto_deduction == old(self).auto_deduction,
            final(self).run_context.prime == old(self).run_context.prime,
            match r {
                Ok(()) => {
                    &&& final(self).current_step == old(self).current_step + 1
                    &&& final(self).trace@.len() == old(self).trace@.len() + 1
                    &&& (forall|j: int|
                        0 <= j < old(self).trace@.len() ==> (#[trigger] final(self).trace@[j])
                            == old(self).trace@[j])
                    &&& final(self).trace@.last().pc@ == old(self).run_context.pc@
                    &&& final(self).trace@.last().ap@ == old(self).run_context.ap@
                    &&& final(self).trace@.last().fp@ == old(self).run_context.fp@
                    &&& (old(self).trace_consistent() ==> final(self).trace_consistent())
                    &&& old(self).run_context.pc@ is Addr
                    &&& final(self).accessed_addresses@.len() == old(self).accessed_addresses@.len() + 4
                    &&& (forall|j: int|
                        0 <= j < old(self).accessed_addresses@.len() ==> (#[trigger] final(self).accessed_addresses@[j]) == old(self).accessed_addresses@[j])
                    &&& ({
                        let base = old(self).accessed_addresses@.len() as int;
                        let ap = old(self).run_context.ap@;
                        let fp = old(self).run_context.fp@;
                        let p = old(self).run_context.prime@;
                        &&& spec_dst_addr(ap, fp, instruction@, p) == Ok::<Cell, MathError>(
                            Cell::Addr(final(self).accessed_addresses@[base]),
                        )
                        &&& spec_op0_addr(ap, fp, instruction@, p) == Ok::<Cell, MathError>(
                            Cell::Addr(final(self).accessed_addresses@[base + 1]),
                        )
                        &&& spec_op1_base(
                            old(self).run_context.pc@,
                            ap,
                            fp,
                            instruction@,
                            spec_read_opt(
                                old(memory).memory,
                                final(self).accessed_addresses@[base + 1],
                            ),
                        ) matches Ok(b) && cell_add_int(b, instruction@.off2, p) == Ok::<
                            Cell,
                            MathError,
                        >(Cell::Addr(final(self).accessed_addresses@[base + 2]))
                        &&& final(self).accessed_addresses@[base + 3] == old(self).run_context.pc@->Addr_0
                    })
                },
                Err(_) => final(self).current_step == old(self).current_step && final(self).run_context.pc@ == old(self).run_context.pc@,
            },
            (old(memory).memory.relocation_rules@.len() == 0 && old(self).run_context.pc@
                is Addr) ==> match happy_operands(
                old(memory).memory,
                old(self).run_context.pc@,
                old(self).run_context.ap@,
                old(self).run_context.fp@,
                instruction@,
                old(self).run_context.prime@,
            ) {
                Some(t) => {
                    let o = t.0;
                    let p = old(self).run_context.prime@;
                    let checked = spec_opcode_check(
                        instruction@,
                        o,
                        old(self).run_context.pc@,
                        old(self).run_context.fp@,
                        p,
                    );
                    let fpr = spec_new_fp(instruction@, o, old(self).run_context.ap@, old(self).run_context.fp@, p);
                    let apr = spec_new_ap(instruction@, o, old(self).run_context.ap@, p);
                    let pcr = spec_new_pc(instruction@, o, old(self).run_context.pc@, p);
                    &&& (r is Ok <==> checked && fpr is Ok && apr is Ok && pcr is Ok)
                    &&& (r is Ok ==> final(self).run_context.fp@ == fpr->Ok_0 && final(self).run_context.ap@ == apr->Ok_0 && final(self).run_context.pc@ == pcr->Ok_0)
                    &&& final(memory).memory@ == old(memory).memory@
                },
                None => true,
            },
    {
        let (operands, operands_mem_addresses) = match self.compute_operands(memory, instruction) {
            Ok(v) => v,
            Err(e) => {
                return Err(e);
            },
        };
        match self.opcode_assertions(instruction, &operands) {
            Ok(()) => {},
            Err(e) => {
                return Err(e);
            },
        }
        let pc_addr = match &self.run_context.pc {
            MaybeRelocatable::RelocatableValue(a) => *a,
            MaybeRelocatable::Int(_) => {
                return Err(VirtualMachineError::PureValueError(MathError::PureValue));
            },
        };
        let mut i: usize = 0;
        while i < 3
            invariant
                i <= 3,
                operands_mem_addresses@.len() == 3,
                forall|j: int|
                    0 <= j < 3 ==> (#[trigger] operands_mem_addresses@[j]@) is Addr,
                self.accessed_addresses@.len() == old(self).accessed_addresses@.len() + i,
                forall|j: int|
                    0 <= j < old(self).accessed_addresses@.len() ==> (#[trigger] self
                        .accessed_addresses@[j]) == old(self).accessed_addresses@[j],
                forall|j: int|
                    0 <= j < i ==> Cell::Addr(
                        #[trigger] self.accessed_addresses@[old(self).accessed_addresses@.len()
                            + j],
                    ) == operands_mem_addresses@[j]@,
                *self == (VirtualMachine {
                    accessed_addresses: self.accessed_addresses,
                    ..*old(self)
                }),
            decreases 3 - i,
        {
            proof {
                assert(operands_mem_addresses@[i as int]@ is Addr);
            }
            match &operands_mem_addresses[i] {
                MaybeRelocatable::RelocatableValue(a) => {
                    self.accessed_addresses.push(*a);
                },
                MaybeRelocatable::Int(_) => {
                    proof {
                        assert(false);
                    }
                },
            }
            i = i + 1;
        }
        proof {
            let base = old(self).accessed_addresses@.len() as int;
            assert(Cell::Addr(self.accessed_addresses@[base + 0]) == operands_mem_addresses@[0]@);
            assert(Cell::Addr(self.accessed_addresses@[base + 1]) == operands_mem_addresses@[1]@);
            assert(Cell::Addr(self.accessed_addresses@[base + 2]) == operands_mem_addresses@[2]@);
        }
        self.accessed_addresses.push(pc_addr);
        self.trace.push(
            TraceEntry {
                pc: self.run_context.pc.clone(),
                ap: self.run_context.ap.clone(),
                fp: self.run_context.fp.clone(),
            },
        );
        match self.update_registers(instruction, &operands) {
            Ok(()) => {},
            Err(e) => {
                return Err(e);
            },
        }
        self.current_step = self.current_step + 1;
        Ok(())
    }

    /// Runs one step: where hints stand at the current location they would
    /// run first, which needs an embedding runtime and is reported as a
    /// fault; otherwise the instruction under the program counter is
    /// decoded and run.
    pub fn step(&mut self, memory: &mut ValidatedMemoryDict) -> (r: Result<
        (),
        VirtualMachineError,
    >)
        requires
            old(self).run_context.prime@ > 1,
            old(self).current_step < u64::MAX,
        ensures
            final(memory).validation_rules == old(memory).validation_rules,
            final(memory).memory.frozen == old(memory).memory.frozen,
            final(memory).memory.relocation_rules == old(memory).memory.relocation_rules,
            forall|a: RelocatableValue| #[trigger] old(memory).memory@.dom().contains(a)
                ==> final(memory).memory@.dom().contains(a) && final(memory).memory@[a] == old(memory).memory@[a],
            final(self).prime == old(self).prime,
            final(self).exec_scopes == old(self).exec_scopes,
            final(self).hints == old(self).hints,
            final(self).auto_deduction == old(self).auto_deduction,
            final(self).run_context.prime == old(self).run_context.prime,
            match r {
                Ok(()) => {
                    &&& final(self).current_step == old(self).current_step + 1
                    &&& final(self).trace@.len() == old(self).trace@.len() + 1
                    &&& final(self).trace@.last().pc@ == old(self).run_context.pc@
                    &&& (old(self).trace_consistent() ==> final(self).trace_consistent())
                    &&& old(self).run_context.pc@ is Addr
                    &&& final(self).accessed_addresses@.len() == old(self).accessed_addresses@.len() + 4
                    &&& (forall|j: int|
                        0 <= j < old(self).accessed_addresses@.len() ==> (#[trigger] final(self).accessed_addresses@[j]) == old(self).accessed_addresses@[j])
                    &&& final(self).accessed_addresses@.last() == old(self).run_context.pc@->Addr_0
                    &&& (spec_decoded_at(old(memory).memory, old(self).run_context.pc@) matches
                    Some(d) && d is Ok)
                },
                Err(e) => if old(self).run_context.pc@ is Addr && (hints_at(
                    old(self).hints@,
                    old(self).run_context.pc@->Addr_0,
                ) matches Some(l) && l.len() > 0) {
                    &&& e matches VirtualMachineError::HintExecuteError { .. }
                    &&& *final(self) == (VirtualMachine {
                        skip_instruction_execution: false,
                        ..*old(self)
                    })
                    &&& *final(memory) == *old(memory)
                } else {
                    final(self).current_step == old(self).current_step
                        && final(self).run_context.pc@ == old(self).run_context.pc@
                },
            },
            (old(memory).memory.relocation_rules@.len() == 0 && old(self).run_context.pc@ is Addr && !(hints_at(
                old(self).hints@,
                old(self).run_context.pc@->Addr_0,
            ) matches Some(l) && l.len() > 0)) ==> match spec_decoded_at(
                old(memory).memory,
                old(self).run_context.pc@,
            ) {
                Some(Ok(iv)) => match happy_operands(
                    old(memory).memory,
                    old(self).run_context.pc@,
                    old(self).run_context.ap@,
                    old(self).run_context.fp@,
                    iv,
                    old(self).run_context.prime@,
                ) {
                    Some(t) => {
                        let o = t.0;
                        let p = old(self).run_context.prime@;
                        let checked = spec_opcode_check(
                            iv,
                            o,
                            old(self).run_context.pc@,
                            old(self).run_context.fp@,
                            p,
                        );
                        let fpr = spec_new_fp(iv, o, old(self).run_context.ap@, old(self).run_context.fp@, p);
                        let apr = spec_new_ap(iv, o, old(self).run_context.ap@, p);
                        let pcr = spec_new_pc(iv, o, old(self).run_context.pc@, p);
                        &&& (r is Ok <==> checked && fpr is Ok && apr is Ok && pcr is Ok)
                        &&& (r is Ok ==> final(self).run_context.fp@ == fpr->Ok_0 && final(self).run_context.ap@ == apr->Ok_0 && final(self).run_context.pc@
                            == pcr->Ok_0)
                        &&& final(memory).memory@ == old(memory).memory@
                    },
                    None => true,
                },
                Some(Err(de)) => r matches Err(VirtualMachineError::DecodeError(e2)) && e2 == de,
                None => r is Err,
            },
    {
        self.skip_instruction_execution = false;
        match &self.run_context.pc {
            MaybeRelocatable::RelocatableValue(pc_addr) => {
                if self.hints_pending(pc_addr) {
                    return Err(
                        VirtualMachineError::HintExecuteError {
                            hint_index: 0,
                            exception: String::new(),
                        },
                    );
                }
            },
            MaybeRelocatable::Int(_) => {},
        }
        let instruction = match self.decode_current_instruction(memory) {
            Ok(inst) => inst,
            Err(e) => {
                return Err(e);
            },
        };
        self.run_instruction(memory, &instruction)
    }
}

impl VirtualMachine {
    /// Whether hints stand at an address: the address's (latest) hint list
    /// exists and is non-empty.
    fn hints_pending(&self, pc: &RelocatableValue) -> (r: bool)
        ensures
            r == (hints_at(self.hints@, *pc) matches Some(l) && l.len() > 0),
    {
        let ghost mapped = self.hints@.map_values(
            |e: (RelocatableValue, Vec<CairoHint>)| (e.0, e.1@),
        );
        let mut i = self.hints.len();
        while i > 0
            invariant
                i <= self.hints@.len(),
                mapped == self.hints@.map_values(
                    |e: (RelocatableValue, Vec<CairoHint>)| (e.0, e.1@),
                ),
                forall|j: int| i <= j < self.hints@.len() ==> (#[trigger] self.hints@[j]).0 != *pc,
            decreases i,
        {
            i = i - 1;
            if self.hints[i].0 == *pc {
                proof {
                    assert(mapped[i as int] == (self.hints@[i as int].0, self.hints@[i as int].1@));
                    assert(forall|j: int|
                        i < j < mapped.len() ==> (#[trigger] mapped[j]).0 != *pc);
                    crate::assoc::lemma_assoc_value(mapped, i as int);
                }
                return self.hints[i].1.len() > 0;
            }
        }
        proof {
            crate::assoc::lemma_assoc_contains(mapped, *pc);
        }
        false
    }
}


/// Every deduction rule of an address's segment is consistent with the
/// memory at that address: where a rule deduces a value, the address
/// reads back exactly that field element.
pub open spec fn deductions_hold(
    rules: Map<i64, Seq<Rule>>,
    mem: MemoryDict,
    a: RelocatableValue,
) -> bool {
    rules.dom().contains(a.segment_index) ==> forall|k: int|
        0 <= k < rules[a.segment_index].len() ==> match rule_deduces(
            #[trigger] rules[a.segment_index][k],
            mem@,
            a,
        ) {
            Some(v) => spec_read(mem, a) == Ok::<Cell, MemoryDictError>(Cell::Int(v)),
            None => true,
        }
}

/// A witness that a stored cell disagrees with a deduction rule of its
/// segment: some rule deduces the claimed new value while the address
/// reads back the different current value.
pub open spec fn inconsistent_deduction(
    rules: Map<i64, Seq<Rule>>,
    mem: MemoryDict,
    addr: RelocatableValue,
    cur: Cell,
    nv: Cell,
) -> bool {
    &&& mem@.dom().contains(addr)
    &&& rules.dom().contains(addr.segment_index)
    &&& exists|k: int|
        0 <= k < rules[addr.segment_index].len() && match rule_deduces(
            #[trigger] rules[addr.segment_index][k],
            mem@,
            addr,
        ) {
            Some(v) => nv == Cell::Int(v) && spec_read(mem, addr) == Ok::<
                Cell,
                MemoryDictError,
            >(cur) && cur != Cell::Int(v),
            None => false,
        }
}

impl VirtualMachine {
    /// The deduction rules of one segment.
    fn rules_for(&self, seg: i64) -> (r: Option<&Vec<Rule>>)
        ensures
            match r {
                Some(v) => self.rules_map().dom().contains(seg) && self.rules_map()[seg] == v@,
                None => !self.rules_map().dom().contains(seg),
            },
    {
        let ghost mapped = self.auto_deduction@.map_values(|e: (i64, Vec<Rule>)| (e.0, e.1@));
        let mut i = self.auto_deduction.len();
        while i > 0
            invariant
                i <= self.auto_deduction@.len(),
                mapped == self.auto_deduction@.map_values(|e: (i64, Vec<Rule>)| (e.0, e.1@)),
                forall|j: int|
                    i <= j < self.auto_deduction@.len() ==> (#[trigger] self.auto_deduction@[j]).0
                        != seg,
            decreases i,
        {
            i = i - 1;
            if self.auto_deduction[i].0 == seg {
                proof {
                    assert(mapped[i as int] == (self.auto_deduction@[i as int].0,
                    self.auto_deduction@[i as int].1@));
                    assert(forall|j: int|
                        i < j < mapped.len() ==> (#[trigger] mapped[j]).0 != seg);
                    crate::assoc::lemma_assoc_value(mapped, i as int);
                }
                return Some(&self.auto_deduction[i].1);
            }
        }
        proof {
            crate::assoc::lemma_assoc_contains(mapped, seg);
        }
        None
    }

    /// Makes sure every assigned cell is consistent with the deduction
    /// rules of its segment.
    #[verifier::rlimit(100)]
    #[verifier::spinoff_prover]
    pub fn verify_auto_deductions(&self, memory: &ValidatedMemoryDict) -> (r: Result<
        (),
        VirtualMachineError,
    >)
        ensures
            r is Ok ==> forall|a: RelocatableValue|
                #[trigger] memory.memory@.dom().contains(a) ==> deductions_hold(
                    self.rules_map(),
                    memory.memory,
                    a,
                ),
            r matches Err(VirtualMachineError::InconsistentAutoDeduction {
                addr,
                current_value,
                new_value,
            }) ==> inconsistent_deduction(
                self.rules_map(),
                memory.memory,
                addr,
                current_value@,
                new_value@,
            ),
            r matches Err(VirtualMachineError::MemoryDictError(e)) ==> exists|
                a: RelocatableValue,
            |
                #[trigger] memory.memory@.dom().contains(a) && spec_read(memory.memory, a)
                    == Err::<Cell, MemoryDictError>(e),
            r is Err ==> (r matches Err(VirtualMachineError::InconsistentAutoDeduction { .. })
                || r matches Err(VirtualMachineError::MemoryDictError(_))),
            (forall|a: RelocatableValue|
                #[trigger] memory.memory@.dom().contains(a) ==> deductions_hold(
                    self.rules_map(),
                    memory.memory,
                    a,
                )) ==> r is Ok,
    {
        let n = memory.memory.data.len();
        let mut i: usize = 0;
        while i < n
            invariant
                n == memory.memory.data@.len(),
                i <= n,
                forall|j: int|
                    0 <= j < i ==> deductions_hold(
                        self.rules_map(),
                        memory.memory,
                        (#[trigger] memory.memory.data@[j]).0,
                    ),
            decreases n - i,
        {
            let addr = memory.memory.data[i].0;
            match self.rules_for(addr.segment_index) {
                None => {},
                Some(rules) => {
                    let m = rules.len();
                    let mut k: usize = 0;
                    while k < m
                        invariant
                            m == self.rules_map()[addr.segment_index].len(),
                            self.rules_map().dom().contains(addr.segment_index),
                            rules@ == self.rules_map()[addr.segment_index],
                            k <= m,
                            i < memory.memory.data@.len(),
                            addr == memory.memory.data@[i as int].0,
                            forall|kk: int|
                                0 <= kk < k ==> match rule_deduces(
                                    #[trigger] self.rules_map()[addr.segment_index][kk],
                                    memory.memory@,
                                    addr,
                                ) {
                                    Some(v) => spec_read(memory.memory, addr) == Ok::<
                                        Cell,
                                        MemoryDictError,
                                    >(Cell::Int(v)),
                                    None => true,
                                },
                        decreases m - k,
                    {
                        match rules[k].deduce(&memory.memory, &addr) {
                            Some(v) => {
                                let current = match memory.index(&addr) {
                                    Ok(c) => c,
                                    Err(e) => {
                                        proof {
                                            assert(crate::memory_dict::mem_entries(
                                                memory.memory.data@,
                                            )[i as int].0 == addr);
                                            crate::assoc::lemma_assoc_contains(
                                                crate::memory_dict::mem_entries(
                                                    memory.memory.data@,
                                                ),
                                                addr,
                                            );
                                            assert(memory.memory@.dom().contains(addr));
                                            assert(!deductions_hold(
                                                self.rules_map(),
                                                memory.memory,
                                                addr,
                                            )) by {
                                                assert(rule_deduces(
                                                    self.rules_map()[addr.segment_index][
                                                    k as int],
                                                    memory.memory@,
                                                    addr,
                                                ) is Some);
                                            }
                                        }
                                        return Err(VirtualMachineError::MemoryDictError(e));
                                    },
                                };
                                let expected = MaybeRelocatable::Int(v);
                                if !(&current == &expected) {
                                    proof {
                                        assert(crate::memory_dict::mem_entries(
                                            memory.memory.data@,
                                        )[i as int].0 == addr);
                                        crate::assoc::lemma_assoc_contains(
                                            crate::memory_dict::mem_entries(memory.memory.data@),
                                            addr,
                                        );
                                        assert(memory.memory@.dom().contains(addr));
                                        assert(rules@[k as int] == self.rules_map()[
                                        addr.segment_index][k as int]);
                                        assert(rule_deduces(
                                            self.rules_map()[addr.segment_index][k as int],
                                            memory.memory@,
                                            addr,
                                        ) == Some(expected@->Int_0));
                                        assert(current@ != expected@);
                                        assert(0 <= k < self.rules_map()[
                                        addr.segment_index].len() && match rule_deduces(
                                            self.rules_map()[addr.segment_index][k as int],
                                            memory.memory@,
                                            addr,
                                        ) {
                                            Some(vv) => expected@ == Cell::Int(vv) && spec_read(
                                                memory.memory,
                                                addr,
                                            ) == Ok::<Cell, MemoryDictError>(current@)
                                                && current@ != Cell::Int(vv),
                                            None => false,
                                        });
                                        assert(inconsistent_deduction(
                                            self.rules_map(),
                                            memory.memory,
                                            addr,
                                            current@,
                                            expected@,
                                        ));
                                        assert(!deductions_hold(
                                            self.rules_map(),
                                            memory.memory,
                                            addr,
                                        )) by {
                                            assert(rule_deduces(
                                                self.rules_map()[addr.segment_index][k as int],
                                                memory.memory@,
                                                addr,
                                            ) is Some);
                                        }
                                    }
                                    return Err(
                                        VirtualMachineError::InconsistentAutoDeduction {
                                            addr,
                                            current_value: current,
                                            new_value: expected,
                                        },
                                    );
                                }
                            },
                            None => {},
                        }
                        k = k + 1;
                    }
                },
            }
            i = i + 1;
        }
        proof {
            assert forall|a: RelocatableValue| #[trigger] memory.memory@.dom().contains(a)
                implies deductions_hold(self.rules_map(), memory.memory, a) by {
                crate::assoc::lemma_assoc_contains(
                    crate::memory_dict::mem_entries(memory.memory.data@),
                    a,
                );
                let j = choose|j: int|
                    0 <= j < crate::memory_dict::mem_entries(memory.memory.data@).len()
                        && (#[trigger] crate::memory_dict::mem_entries(memory.memory.data@)[j]).0
                        == a;
                assert(memory.memory.data@[j].0 == a);
            }
        }
        Ok(())
    }

    /// Ends the machine's part of a run: the deduction rules must agree
    /// with memory, and every entered scope must have been left.
    pub fn end_run(&self, memory: &ValidatedMemoryDict) -> (r: Result<(), VirtualMachineError>)
        ensures
            match r {
                Ok(()) => self.exec_scopes@.len() == 1 && forall|a: RelocatableValue|
                    #[trigger] memory.memory@.dom().contains(a) ==> deductions_hold(
                        self.rules_map(),
                        memory.memory,
                        a,
                    ),
                Err(VirtualMachineError::EnterExitScopeMismatch) => self.exec_scopes@.len() != 1
                    && forall|a: RelocatableValue|
                    #[trigger] memory.memory@.dom().contains(a) ==> deductions_hold(
                        self.rules_map(),
                        memory.memory,
                        a,
                    ),
                Err(_) => true,
            },
            (self.exec_scopes@.len() == 1 && forall|a: RelocatableValue|
                #[trigger] memory.memory@.dom().contains(a) ==> deductions_hold(
                    self.rules_map(),
                    memory.memory,
                    a,
                )) ==> r is Ok,
    {
        match self.verify_auto_deductions(memory) {
            Ok(()) => {},
            Err(e) => {
                return Err(e);
            },
        }
        if self.exec_scopes.len() != 1 {
            return Err(VirtualMachineError::EnterExitScopeMismatch);
        }
        Ok(())
    }
}

} // verus!