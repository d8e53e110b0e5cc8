use vstd::prelude::*;
use crate::felt::Felt;

verus! {

#[derive(Debug, Clone, Copy, PartialEq, Eq, Structural)]
pub enum Register {
    AP,
    FP,
}

#[derive(Debug, Clone, Copy, PartialEq, Eq, Structural)]
pub enum Op1Addr {
    /// op1 = [pc + 1].
    IMM,
    /// op1 = [ap + off2].
    AP,
    /// op1 = [fp + off2].
    FP,
    /// op1 = [op0].
    OP0,
}

#[derive(Debug, Clone, Copy, PartialEq, Eq, Structural)]
pub enum Res {
    /// res = operand_1.
    OP1,
    /// res = operand_0 + operand_1.
    ADD,
    /// res = operand_0 * operand_1.
    MUL,
    /// res is not constrained.
    UNCONSTRAINED,
}

/// Flags for the program-counter update.
#[allow(non_camel_case_types)]
#[derive(Debug, Clone, Copy, PartialEq, Eq, Structural)]
pub enum PcUpdate {
    /// Next pc: pc + op_size.
    REGULAR,
    /// Next pc: res (jmp abs).
    JUMP,
    /// Next pc: pc + res (jmp rel).
    JUMP_REL,
    /// Next pc: pc + op_size if dst is zero, else pc + op1.
    JNZ,
}

#[derive(Debug, Clone, Copy, PartialEq, Eq, Structural)]
pub enum ApUpdate {
    /// Next ap: ap.
    REGULAR,
    /// Next ap: ap + res.
    ADD,
    /// Next ap: ap + 1.
    ADD1,
    /// Next ap: ap + 2.
    ADD2,
}

#[allow(non_camel_case_types)]
#[derive(Debug, Clone, Copy, PartialEq, Eq, Structural)]
pub enum FpUpdate {
    /// Next fp: fp.
    REGULAR,
    /// Next fp: ap + 2.
    AP_PLUS2,
    /// Next fp: operand_dst.
    DST,
}

#[allow(non_camel_case_types)]
#[derive(Debug, Clone, Copy, PartialEq, Eq, Structural)]
pub enum Opcode {
    NOP,
    ASSERT_EQ,
    CALL,
    RET,
}

/// A decoded instruction.
#[derive(Debug)]
pub struct Instruction {
    /// Offset applied to the destination register, in [-2^15, 2^15).
    pub off0: i16,
    /// Offset applied to the first operand register, in [-2^15, 2^15).
    pub off1: i16,
    /// Offset applied to the second operand base, in [-2^15, 2^15).
    pub off2: i16,
    /// Immediate value, exactly when `op1_addr` is `IMM`.
    pub imm: Option<Felt>,
    pub dst_register: Register,
    pub op0_register: Register,
    pub op1_addr: Op1Addr,
    pub res: Res,
    pub pc_update: PcUpdate,
    pub ap_update: ApUpdate,
    pub fp_update: FpUpdate,
    pub opcode: Opcode,
}

/// The mathematical content of an instruction.
pub struct InstructionV {
    pub off0: int,
    pub off1: int,
    pub off2: int,
    pub imm: Option<nat>,
    pub dst_register: Register,
    pub op0_register: Register,
    pub op1_addr: Op1Addr,
    pub res: Res,
    pub pc_update: PcUpdate,
    pub ap_update: ApUpdate,
    pub fp_update: FpUpdate,
    pub opcode: Opcode,
}

impl View for Instruction {
    type V = InstructionV;

    open spec fn view(&self) -> InstructionV {
        InstructionV {
            off0: self.off0 as int,
            off1: self.off1 as int,
            off2: self.off2 as int,
            imm: match self.imm {
                Some(f) => Some(f@),
                None => None,
            },
            dst_register: self.dst_register,
            op0_register: self.op0_register,
            op1_addr: self.op1_addr,
            res: self.res,
            pc_update: self.pc_update,
            ap_update: self.ap_update,
            fp_update: self.fp_update,
            opcode: self.opcode,
        }
    }
}

impl InstructionV {
    /// How many cells the instruction occupies: two when an immediate
    /// follows it.
    pub open spec fn spec_size(self) -> nat {
        if self.imm is Some {
            2
        } else {
            1
        }
    }
}

impl Instruction {
    /// How many cells the instruction occupies: two when an immediate
    /// follows it.
    pub fn size(&self) -> (r: u64)
        ensures
            r == self@.spec_size(),
    {
        if self.imm.is_some() {
            2
        } else {
            1
        }
    }
}

impl Clone for Instruction {
    fn clone(&self) -> (r: Self)
        ensures
            r@ == self@,
    {
        Instruction {
            off0: self.off0,
            off1: self.off1,
            off2: self.off2,
            imm: match &self.imm {
                Some(f) => Some(f.clone()),
                None => None,
            },
            dst_register: self.dst_register,
            op0_register: self.op0_register,
            op1_addr: self.op1_addr,
            res: self.res,
            pc_update: self.pc_update,
            ap_update: self.ap_update,
            fp_update: self.fp_update,
            opcode: self.opcode,
        }
    }
}

} // verus!
