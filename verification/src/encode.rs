use vstd::prelude::*;
use crate::felt::Felt;
use crate::instruction::{
    ApUpdate, FpUpdate, Instruction, InstructionV, Op1Addr, Opcode, PcUpdate, Register, Res,
};
use vstd::arithmetic::div_mod::{
    lemma_div_denominator, lemma_div_multiples_vanish_fancy, lemma_mod_multiples_vanish,
    lemma_small_mod,
};

verus! {

/// A fault found while decoding an encoded instruction.
#[derive(Debug, Clone, Copy, PartialEq, Eq, Structural)]
pub enum DecodeError {
    /// The encoding does not lie in the instruction range.
    UnsupportedEncoding,
    /// More than one source is named for the second operand.
    InvalidOp1,
    /// The second operand is immediate but no immediate value follows.
    MissingImmediate,
    /// More than one program-counter update is named.
    InvalidPcUpdate,
    /// Both result flags are set, or a conditional jump constrains the
    /// result.
    InvalidRes,
    /// Both allocation-pointer flags are set, or a call sets one.
    InvalidApUpdate,
    /// More than one opcode is named.
    InvalidOpcode,
}

/// The immediate value an optional cell holds.
pub open spec fn opt_felt_view(o: Option<Felt>) -> Option<nat> {
    match o {
        Some(f) => Some(f@),
        None => None,
    }
}

/// The mathematical outcome of a decode.
pub open spec fn decode_result_of(r: Result<Instruction, DecodeError>) -> Result<
    InstructionV,
    DecodeError,
> {
    match r {
        Ok(i) => Ok(i@),
        Err(e) => Err(e),
    }
}

/// What decoding makes of an encoded instruction: the three 16-bit offset
/// lanes are read (biased by 2^15) and the fifteen flag bits select the
/// enumerated fields, with every contradictory combination refused.
pub open spec fn spec_decode(enc: int, imm: Option<nat>) -> Result<InstructionV, DecodeError> {
    if !(0 <= enc < 0x8000_0000_0000_0000) {
        Err(DecodeError::UnsupportedEncoding)
    } else {
        let off0 = enc % 0x10000;
        let off1 = (enc / 0x10000) % 0x10000;
        let off2 = (enc / 0x1_0000_0000) % 0x10000;
        let flags = enc / 0x1_0000_0000_0000;
        let dst_fp = (flags / 1) % 2 == 1;
        let op0_fp = (flags / 2) % 2 == 1;
        let op1_imm = (flags / 4) % 2 == 1;
        let op1_fp = (flags / 8) % 2 == 1;
        let op1_ap = (flags / 16) % 2 == 1;
        let res_add = (flags / 32) % 2 == 1;
        let res_mul = (flags / 64) % 2 == 1;
        let pc_jump = (flags / 128) % 2 == 1;
        let pc_jump_rel = (flags / 256) % 2 == 1;
        let pc_jnz = (flags / 512) % 2 == 1;
        let ap_add = (flags / 1024) % 2 == 1;
        let ap_add1 = (flags / 2048) % 2 == 1;
        let op_call = (flags / 4096) % 2 == 1;
        let op_ret = (flags / 8192) % 2 == 1;
        let op_aeq = (flags / 16384) % 2 == 1;
        if (op1_imm && op1_ap) || (op1_imm && op1_fp) || (op1_ap && op1_fp) {
            Err(DecodeError::InvalidOp1)
        } else {
            let op1_addr = if op1_imm {
                Op1Addr::IMM
            } else if op1_ap {
                Op1Addr::AP
            } else if op1_fp {
                Op1Addr::FP
            } else {
                Op1Addr::OP0
            };
            if op1_addr is IMM && imm is None {
                Err(DecodeError::MissingImmediate)
            } else {
                let kept_imm: Option<nat> = if op1_addr is IMM {
                    imm
                } else {
                    None
                };
                if (pc_jump && pc_jump_rel) || (pc_jump && pc_jnz) || (pc_jump_rel && pc_jnz) {
                    Err(DecodeError::InvalidPcUpdate)
                } else {
                    let pc_update = if pc_jump {
                        PcUpdate::JUMP
                    } else if pc_jump_rel {
                        PcUpdate::JUMP_REL
                    } else if pc_jnz {
                        PcUpdate::JNZ
                    } else {
                        PcUpdate::REGULAR
                    };
                    if res_add && res_mul {
                        Err(DecodeError::InvalidRes)
                    } else {
                        let res = if res_add {
                            Res::ADD
                        } else if res_mul {
                            Res::MUL
                        } else if pc_update is JNZ {
                            Res::UNCONSTRAINED
                        } else {
                            Res::OP1
                        };
                        if pc_update is JNZ && !(res is UNCONSTRAINED) {
                            Err(DecodeError::InvalidRes)
                        } else if ap_add && ap_add1 {
                            Err(DecodeError::InvalidApUpdate)
                        } else {
                            let ap_base = if ap_add {
                                ApUpdate::ADD
                            } else if ap_add1 {
                                ApUpdate::ADD1
                            } else {
                                ApUpdate::REGULAR
                            };
                            if (op_call && op_ret) || (op_call && op_aeq) || (op_ret && op_aeq) {
                                Err(DecodeError::InvalidOpcode)
                            } else {
                                let opcode = if op_call {
                                    Opcode::CALL
                                } else if op_ret {
                                    Opcode::RET
                                } else if op_aeq {
                                    Opcode::ASSERT_EQ
                                } else {
                                    Opcode::NOP
                                };
                                if opcode is CALL && !(ap_base is REGULAR) {
                                    Err(DecodeError::InvalidApUpdate)
                                } else {
                                    let ap_update = if opcode is CALL {
                                        ApUpdate::ADD2
                                    } else {
                                        ap_base
                                    };
                                    let fp_update = if opcode is CALL {
                                        FpUpdate::AP_PLUS2
                                    } else if opcode is RET {
                                        FpUpdate::DST
                                    } else {
                                        FpUpdate::REGULAR
                                    };
                                    Ok(
                                        InstructionV {
                                            off0: off0 - 0x8000,
                                            off1: off1 - 0x8000,
                                            off2: off2 - 0x8000,
                                            imm: kept_imm,
                                            dst_register: if dst_fp {
                                                Register::FP
                                            } else {
                                                Register::AP
                                            },
                                            op0_register: if op0_fp {
                                                Register::FP
                                            } else {
                                                Register::AP
                                            },
                                            op1_addr,
                                            res,
                                            pc_update,
                                            ap_update,
                                            fp_update,
                                            opcode,
                                        },
                                    )
                                }
                            }
                        }
                    }
                }
            }
        }
    }
}

/// The fifteen flag bits of an instruction, as one integer.
pub open spec fn spec_flags(i: InstructionV) -> int {
    (if i.dst_register is FP { 1int } else { 0int })
    + (if i.op0_register is FP { 2int } else { 0int })
    + (if i.op1_addr is IMM { 4int } else { 0int })
    + (if i.op1_addr is FP { 8int } else { 0int })
    + (if i.op1_addr is AP { 16int } else { 0int })
    + (if i.res is ADD { 32int } else { 0int })
    + (if i.res is MUL { 64int } else { 0int })
    + (if i.pc_update is JUMP { 128int } else { 0int })
    + (if i.pc_update is JUMP_REL { 256int } else { 0int })
    + (if i.pc_update is JNZ { 512int } else { 0int })
    + (if i.ap_update is ADD { 1024int } else { 0int })
    + (if i.ap_update is ADD1 { 2048int } else { 0int })
    + (if i.opcode is CALL { 4096int } else { 0int })
    + (if i.opcode is RET { 8192int } else { 0int })
    + (if i.opcode is ASSERT_EQ { 16384int } else { 0int })
}

/// The defined encoding of an instruction: three biased offset lanes and
/// the flag bits above them.
pub open spec fn spec_encode(i: InstructionV) -> int {
    (i.off0 + 0x8000) + (i.off1 + 0x8000) * 0x10000 + (i.off2 + 0x8000) * 0x1_0000_0000
        + spec_flags(i) * 0x1_0000_0000_0000
}

/// An instruction a valid encoder can produce: offsets in range, an
/// immediate exactly for an immediate operand, and the derived fields
/// consistent with the opcode and jump mode.
pub open spec fn valid_instruction(i: InstructionV) -> bool {
    &&& -0x8000 <= i.off0 < 0x8000
    &&& -0x8000 <= i.off1 < 0x8000
    &&& -0x8000 <= i.off2 < 0x8000
    &&& (i.op1_addr is IMM <==> i.imm is Some)
    &&& (i.pc_update is JNZ <==> i.res is UNCONSTRAINED)
    &&& (i.opcode is CALL <==> i.ap_update is ADD2)
    &&& i.fp_update == (if i.opcode is CALL {
        FpUpdate::AP_PLUS2
    } else if i.opcode is RET {
        FpUpdate::DST
    } else {
        FpUpdate::REGULAR
    })
}

/// One digit step: splitting off the low part below a weight.
proof fn lemma_digit(q: int, rlow: int, w: int)
    requires
        w > 0,
        0 <= rlow < w,
    ensures
        (w * q + rlow) / w == q,
        (w * q + rlow) % w == rlow,
{
    lemma_div_multiples_vanish_fancy(q, rlow, w);
    lemma_mod_multiples_vanish(q, rlow, w);
    lemma_small_mod(rlow as nat, w as nat);
}

/// One flag bit read back out of the flag field.
proof fn lemma_one_bit(f: int, low: int, d: int, rest: int, w: int)
    requires
        w > 0,
        0 <= low < w,
        0 <= d <= 1,
        rest >= 0,
        f == w * (d + 2 * rest) + low,
    ensures
        (f / w) % 2 == d,
{
    lemma_digit(d + 2 * rest, low, w);
    lemma_digit(rest, d, 2);
}

/// Fifteen binary digits read back out of their weighted sum.
#[verifier::rlimit(100)]
proof fn lemma_bits15(f: int, d0: int, d1: int, d2: int, d3: int, d4: int, d5: int, d6: int, d7: int, d8: int, d9: int, d10: int, d11: int, d12: int, d13: int, d14: int)
    requires
        0 <= d0 <= 1,
        0 <= d1 <= 1,
        0 <= d2 <= 1,
        0 <= d3 <= 1,
        0 <= d4 <= 1,
        0 <= d5 <= 1,
        0 <= d6 <= 1,
        0 <= d7 <= 1,
        0 <= d8 <= 1,
        0 <= d9 <= 1,
        0 <= d10 <= 1,
        0 <= d11 <= 1,
        0 <= d12 <= 1,
        0 <= d13 <= 1,
        0 <= d14 <= 1,
        f == d0 + 2 * d1 + 4 * d2 + 8 * d3 + 16 * d4 + 32 * d5 + 64 * d6 + 128 * d7 + 256 * d8 + 512 * d9 + 1024 * d10 + 2048 * d11 + 4096 * d12 + 8192 * d13 + 16384 * d14,
    ensures
        0 <= f < 0x8000,
        (f / 1) % 2 == d0,
        (f / 2) % 2 == d1,
        (f / 4) % 2 == d2,
        (f / 8) % 2 == d3,
        (f / 16) % 2 == d4,
        (f / 32) % 2 == d5,
        (f / 64) % 2 == d6,
        (f / 128) % 2 == d7,
        (f / 256) % 2 == d8,
        (f / 512) % 2 == d9,
        (f / 1024) % 2 == d10,
        (f / 2048) % 2 == d11,
        (f / 4096) % 2 == d12,
        (f / 8192) % 2 == d13,
        (f / 16384) % 2 == d14,
{
    lemma_one_bit(f, 0, d0, d1 + 2 * d2 + 4 * d3 + 8 * d4 + 16 * d5 + 32 * d6 + 64 * d7 + 128 * d8 + 256 * d9 + 512 * d10 + 1024 * d11 + 2048 * d12 + 4096 * d13 + 8192 * d14, 1);
    lemma_one_bit(f, d0, d1, d2 + 2 * d3 + 4 * d4 + 8 * d5 + 16 * d6 + 32 * d7 + 64 * d8 + 128 * d9 + 256 * d10 + 512 * d11 + 1024 * d12 + 2048 * d13 + 4096 * d14, 2);
    lemma_one_bit(f, d0 + 2 * d1, d2, d3 + 2 * d4 + 4 * d5 + 8 * d6 + 16 * d7 + 32 * d8 + 64 * d9 + 128 * d10 + 256 * d11 + 512 * d12 + 1024 * d13 + 2048 * d14, 4);
    lemma_one_bit(f, d0 + 2 * d1 + 4 * d2, d3, d4 + 2 * d5 + 4 * d6 + 8 * d7 + 16 * d8 + 32 * d9 + 64 * d10 + 128 * d11 + 256 * d12 + 512 * d13 + 1024 * d14, 8);
    lemma_one_bit(f, d0 + 2 * d1 + 4 * d2 + 8 * d3, d4, d5 + 2 * d6 + 4 * d7 + 8 * d8 + 16 * d9 + 32 * d10 + 64 * d11 + 128 * d12 + 256 * d13 + 512 * d14, 16);
    lemma_one_bit(f, d0 + 2 * d1 + 4 * d2 + 8 * d3 + 16 * d4, d5, d6 + 2 * d7 + 4 * d8 + 8 * d9 + 16 * d10 + 32 * d11 + 64 * d12 + 128 * d13 + 256 * d14, 32);
    lemma_one_bit(f, d0 + 2 * d1 + 4 * d2 + 8 * d3 + 16 * d4 + 32 * d5, d6, d7 + 2 * d8 + 4 * d9 + 8 * d10 + 16 * d11 + 32 * d12 + 64 * d13 + 128 * d14, 64);
    lemma_one_bit(f, d0 + 2 * d1 + 4 * d2 + 8 * d3 + 16 * d4 + 32 * d5 + 64 * d6, d7, d8 + 2 * d9 + 4 * d10 + 8 * d11 + 16 * d12 + 32 * d13 + 64 * d14, 128);
    lemma_one_bit(f, d0 + 2 * d1 + 4 * d2 + 8 * d3 + 16 * d4 + 32 * d5 + 64 * d6 + 128 * d7, d8, d9 + 2 * d10 + 4 * d11 + 8 * d12 + 16 * d13 + 32 * d14, 256);
    lemma_one_bit(f, d0 + 2 * d1 + 4 * d2 + 8 * d3 + 16 * d4 + 32 * d5 + 64 * d6 + 128 * d7 + 256 * d8, d9, d10 + 2 * d11 + 4 * d12 + 8 * d13 + 16 * d14, 512);
    lemma_one_bit(f, d0 + 2 * d1 + 4 * d2 + 8 * d3 + 16 * d4 + 32 * d5 + 64 * d6 + 128 * d7 + 256 * d8 + 512 * d9, d10, d11 + 2 * d12 + 4 * d13 + 8 * d14, 1024);
    lemma_one_bit(f, d0 + 2 * d1 + 4 * d2 + 8 * d3 + 16 * d4 + 32 * d5 + 64 * d6 + 128 * d7 + 256 * d8 + 512 * d9 + 1024 * d10, d11, d12 + 2 * d13 + 4 * d14, 2048);
    lemma_one_bit(f, d0 + 2 * d1 + 4 * d2 + 8 * d3 + 16 * d4 + 32 * d5 + 64 * d6 + 128 * d7 + 256 * d8 + 512 * d9 + 1024 * d10 + 2048 * d11, d12, d13 + 2 * d14, 4096);
    lemma_one_bit(f, d0 + 2 * d1 + 4 * d2 + 8 * d3 + 16 * d4 + 32 * d5 + 64 * d6 + 128 * d7 + 256 * d8 + 512 * d9 + 1024 * d10 + 2048 * d11 + 4096 * d12, d13, d14, 8192);
    lemma_one_bit(f, d0 + 2 * d1 + 4 * d2 + 8 * d3 + 16 * d4 + 32 * d5 + 64 * d6 + 128 * d7 + 256 * d8 + 512 * d9 + 1024 * d10 + 2048 * d11 + 4096 * d12 + 8192 * d13, d14, 0, 16384);
}

/// Each flag bit of the encoding reads back the field that set it.
#[verifier::rlimit(100)]
proof fn lemma_flag_bits(i: InstructionV)
    ensures
        0 <= spec_flags(i) < 0x8000,
        (spec_flags(i) / 1) % 2 == (if i.dst_register is FP { 1int } else { 0int }),
        (spec_flags(i) / 2) % 2 == (if i.op0_register is FP { 1int } else { 0int }),
        (spec_flags(i) / 4) % 2 == (if i.op1_addr is IMM { 1int } else { 0int }),
        (spec_flags(i) / 8) % 2 == (if i.op1_addr is FP { 1int } else { 0int }),
        (spec_flags(i) / 16) % 2 == (if i.op1_addr is AP { 1int } else { 0int }),
        (spec_flags(i) / 32) % 2 == (if i.res is ADD { 1int } else { 0int }),
        (spec_flags(i) / 64) % 2 == (if i.res is MUL { 1int } else { 0int }),
        (spec_flags(i) / 128) % 2 == (if i.pc_update is JUMP { 1int } else { 0int }),
        (spec_flags(i) / 256) % 2 == (if i.pc_update is JUMP_REL { 1int } else { 0int }),
        (spec_flags(i) / 512) % 2 == (if i.pc_update is JNZ { 1int } else { 0int }),
        (spec_flags(i) / 1024) % 2 == (if i.ap_update is ADD { 1int } else { 0int }),
        (spec_flags(i) / 2048) % 2 == (if i.ap_update is ADD1 { 1int } else { 0int }),
        (spec_flags(i) / 4096) % 2 == (if i.opcode is CALL { 1int } else { 0int }),
        (spec_flags(i) / 8192) % 2 == (if i.opcode is RET { 1int } else { 0int }),
        (spec_flags(i) / 16384) % 2 == (if i.opcode is ASSERT_EQ { 1int } else { 0int }),
{
    let f = spec_flags(i);
    let d0 = if i.dst_register is FP { 1int } else { 0int };
    let d1 = if i.op0_register is FP { 1int } else { 0int };
    let d2 = if i.op1_addr is IMM { 1int } else { 0int };
    let d3 = if i.op1_addr is FP { 1int } else { 0int };
    let d4 = if i.op1_addr is AP { 1int } else { 0int };
    let d5 = if i.res is ADD { 1int } else { 0int };
    let d6 = if i.res is MUL { 1int } else { 0int };
    let d7 = if i.pc_update is JUMP { 1int } else { 0int };
    let d8 = if i.pc_update is JUMP_REL { 1int } else { 0int };
    let d9 = if i.pc_update is JNZ { 1int } else { 0int };
    let d10 = if i.ap_update is ADD { 1int } else { 0int };
    let d11 = if i.ap_update is ADD1 { 1int } else { 0int };
    let d12 = if i.opcode is CALL { 1int } else { 0int };
    let d13 = if i.opcode is RET { 1int } else { 0int };
    let d14 = if i.opcode is ASSERT_EQ { 1int } else { 0int };
    assert(f == d0 + 2 * d1 + 4 * d2 + 8 * d3 + 16 * d4 + 32 * d5 + 64 * d6 + 128 * d7 + 256 * d8 + 512 * d9 + 1024 * d10 + 2048 * d11 + 4096 * d12 + 8192 * d13 + 16384 * d14);
    lemma_bits15(f, d0, d1, d2, d3, d4, d5, d6, d7, d8, d9, d10, d11, d12, d13, d14);
}

/// The offset lanes and flag field read back from the defined encoding.
#[verifier::rlimit(100)]
proof fn lemma_encode_extract(i: InstructionV)
    requires
        valid_instruction(i),
    ensures
        0 <= spec_encode(i) < 0x8000_0000_0000_0000,
        spec_encode(i) % 0x10000 == i.off0 + 0x8000,
        (spec_encode(i) / 0x10000) % 0x10000 == i.off1 + 0x8000,
        (spec_encode(i) / 0x1_0000_0000) % 0x10000 == i.off2 + 0x8000,
        spec_encode(i) / 0x1_0000_0000_0000 == spec_flags(i),
{
    lemma_flag_bits(i);
    let a = i.off0 + 0x8000;
    let b = i.off1 + 0x8000;
    let c = i.off2 + 0x8000;
    let f = spec_flags(i);
    let e = spec_encode(i);
    let q2 = c + 0x10000 * f;
    let q1 = b + 0x10000 * q2;
    assert(e == 0x10000 * q1 + a);
    assert(e / 0x10000 == q1 && e % 0x10000 == a) by {
        lemma_digit(q1, a, 0x10000);
    }
    assert(q1 / 0x10000 == q2 && q1 % 0x10000 == b) by {
        lemma_digit(q2, b, 0x10000);
    }
    assert(q2 / 0x10000 == f && q2 % 0x10000 == c) by {
        lemma_digit(f, c, 0x10000);
    }
    assert(0 <= e) by {
        assert(q2 >= 0);
        assert(q1 >= 0);
    }
    assert(e / 0x1_0000_0000 == q2) by {
        lemma_div_denominator(e, 0x10000, 0x10000);
    }
    assert(e / 0x1_0000_0000_0000 == f) by {
        lemma_div_denominator(e, 0x10000, 0x10000);
        lemma_div_denominator(e, 0x1_0000_0000, 0x10000);
        assert(q2 >= 0);
    }
}

/// Decoding is the inverse of the defined encoding: every instruction a
/// valid encoder produces decodes back to itself.
#[verifier::rlimit(100)]
pub proof fn lemma_decode_of_encode(i: InstructionV)
    requires
        valid_instruction(i),
    ensures
        spec_decode(spec_encode(i), i.imm) == Ok::<InstructionV, DecodeError>(i),
{
    lemma_encode_extract(i);
    lemma_flag_bits(i);
}


/// Splits an encoded instruction into its flag field and its three raw
/// 16-bit offset lanes.
pub fn decode_instruction_values(encoded_instruction: u64) -> (r: (u64, u16, u16, u16))
    requires
        encoded_instruction < 0x8000_0000_0000_0000,
    ensures
        r.0 == encoded_instruction as int / 0x1_0000_0000_0000,
        r.1 == encoded_instruction as int % 0x10000,
        r.2 == (encoded_instruction as int / 0x10000) % 0x10000,
        r.3 == (encoded_instruction as int / 0x1_0000_0000) % 0x10000,
{
    let off0 = (encoded_instruction % 0x10000) as u16;
    let off1 = ((encoded_instruction / 0x10000) % 0x10000) as u16;
    let off2 = ((encoded_instruction / 0x1_0000_0000) % 0x10000) as u16;
    let flags = encoded_instruction / 0x1_0000_0000_0000;
    (flags, off0, off1, off2)
}

/// Decodes one (or, with an immediate, two) memory cells into an
/// instruction. An immediate given for an instruction without one is
/// ignored.
pub fn decode_instruction(encoding: Felt, imm: Option<Felt>) -> (r: Result<
    Instruction,
    DecodeError,
>)
    ensures
        decode_result_of(r) == spec_decode(encoding@ as int, opt_felt_view(imm)),
{
    let enc: u64 = match encoding.to_u64() {
        Some(e) => e,
        None => {
            return Err(DecodeError::UnsupportedEncoding);
        },
    };
    if enc >= 0x8000_0000_0000_0000 {
        return Err(DecodeError::UnsupportedEncoding);
    }
    let (flags, off0_enc, off1_enc, off2_enc) = decode_instruction_values(enc);
    let dst_fp = (flags / 1) % 2 == 1;
    let op0_fp = (flags / 2) % 2 == 1;
    let op1_imm = (flags / 4) % 2 == 1;
    let op1_fp = (flags / 8) % 2 == 1;
    let op1_ap = (flags / 16) % 2 == 1;
    let res_add = (flags / 32) % 2 == 1;
    let res_mul = (flags / 64) % 2 == 1;
    let pc_jump = (flags / 128) % 2 == 1;
    let pc_jump_rel = (flags / 256) % 2 == 1;
    let pc_jnz = (flags / 512) % 2 == 1;
    let ap_add = (flags / 1024) % 2 == 1;
    let ap_add1 = (flags / 2048) % 2 == 1;
    let op_call = (flags / 4096) % 2 == 1;
    let op_ret = (flags / 8192) % 2 == 1;
    let op_aeq = (flags / 16384) % 2 == 1;

    if (op1_imm && op1_ap) || (op1_imm && op1_fp) || (op1_ap && op1_fp) {
        return Err(DecodeError::InvalidOp1);
    }
    let op1_addr = if op1_imm {
        Op1Addr::IMM
    } else if op1_ap {
        Op1Addr::AP
    } else if op1_fp {
        Op1Addr::FP
    } else {
        Op1Addr::OP0
    };
    let kept_imm: Option<Felt> = match op1_addr {
        Op1Addr::IMM => {
            if imm.is_none() {
                return Err(DecodeError::MissingImmediate);
            }
            imm
        },
        _ => None,
    };
    if (pc_jump && pc_jump_rel) || (pc_jump && pc_jnz) || (pc_jump_rel && pc_jnz) {
        return Err(DecodeError::InvalidPcUpdate);
    }
    let pc_update = if pc_jump {
        PcUpdate::JUMP
    } else if pc_jump_rel {
        PcUpdate::JUMP_REL
    } else if pc_jnz {
        PcUpdate::JNZ
    } else {
        PcUpdate::REGULAR
    };
    if res_add && res_mul {
        return Err(DecodeError::InvalidRes);
    }
    let res = if res_add {
        Res::ADD
    } else if res_mul {
        Res::MUL
    } else if matches!(pc_update, PcUpdate::JNZ) {
        Res::UNCONSTRAINED
    } else {
        Res::OP1
    };
    if matches!(pc_update, PcUpdate::JNZ) && !matches!(res, Res::UNCONSTRAINED) {
        return Err(DecodeError::InvalidRes);
    }
    if ap_add && ap_add1 {
        return Err(DecodeError::InvalidApUpdate);
    }
    let ap_base = if ap_add {
        ApUpdate::ADD
    } else if ap_add1 {
        ApUpdate::ADD1
    } else {
        ApUpdate::REGULAR
    };
    if (op_call && op_ret) || (op_call && op_aeq) || (op_ret && op_aeq) {
        return Err(DecodeError::InvalidOpcode);
    }
    let opcode = if op_call {
        Opcode::CALL
    } else if op_ret {
        Opcode::RET
    } else if op_aeq {
        Opcode::ASSERT_EQ
    } else {
        Opcode::NOP
    };
    if matches!(opcode, Opcode::CALL) && !matches!(ap_base, ApUpdate::REGULAR) {
        return Err(DecodeError::InvalidApUpdate);
    }
    let ap_update = if matches!(opcode, Opcode::CALL) {
        ApUpdate::ADD2
    } else {
        ap_base
    };
    let fp_update = match opcode {
        Opcode::CALL => FpUpdate::AP_PLUS2,
        Opcode::RET => FpUpdate::DST,
        _ => FpUpdate::REGULAR,
    };
    Ok(
        Instruction {
            off0: ((off0_enc as i32) - 0x8000) as i16,
            off1: ((off1_enc as i32) - 0x8000) as i16,
            off2: ((off2_enc as i32) - 0x8000) as i16,
            imm: kept_imm,
            dst_register: if dst_fp {
                Register::FP
            } else {
                Register::AP
            },
            op0_register: if op0_fp {
                Register::FP
            } else {
                Register::AP
            },
            op1_addr,
            res,
            pc_update,
            ap_update,
            fp_update,
            opcode,
        },
    )
}

/// Encodes an instruction by the defined encoding; the immediate, if any,
/// stands in its own cell and is not part of the result.
#[verifier::rlimit(60)]
#[verifier::spinoff_prover]
pub fn encode_instruction(instruction: &Instruction) -> (r: u64)
    requires
        valid_instruction(instruction@),
    ensures
        r == spec_encode(instruction@),
        r < 0x8000_0000_0000_0000,
        spec_decode(r as int, instruction@.imm) == Ok::<InstructionV, DecodeError>(
            instruction@,
        ),
{
    proof {
        lemma_encode_extract(instruction@);
        lemma_decode_of_encode(instruction@);
    }
    let f: u64 = (if matches!(instruction.dst_register, Register::FP) {
        1u64
    } else {
        0u64
    }) + (if matches!(instruction.op0_register, Register::FP) {
        2u64
    } else {
        0u64
    }) + (if matches!(instruction.op1_addr, Op1Addr::IMM) {
        4u64
    } else {
        0u64
    }) + (if matches!(instruction.op1_addr, Op1Addr::FP) {
        8u64
    } else {
        0u64
    }) + (if matches!(instruction.op1_addr, Op1Addr::AP) {
        16u64
    } else {
        0u64
    }) + (if matches!(instruction.res, Res::ADD) {
        32u64
    } else {
        0u64
    }) + (if matches!(instruction.res, Res::MUL) {
        64u64
    } else {
        0u64
    }) + (if matches!(instruction.pc_update, PcUpdate::JUMP) {
        128u64
    } else {
        0u64
    }) + (if matches!(instruction.pc_update, PcUpdate::JUMP_REL) {
        256u64
    } else {
        0u64
    }) + (if matches!(instruction.pc_update, PcUpdate::JNZ) {
        512u64
    } else {
        0u64
    }) + (if matches!(instruction.ap_update, ApUpdate::ADD) {
        1024u64
    } else {
        0u64
    }) + (if matches!(instruction.ap_update, ApUpdate::ADD1) {
        2048u64
    } else {
        0u64
    }) + (if matches!(instruction.opcode, Opcode::CALL) {
        4096u64
    } else {
        0u64
    }) + (if matches!(instruction.opcode, Opcode::RET) {
        8192u64
    } else {
        0u64
    }) + (if matches!(instruction.opcode, Opcode::ASSERT_EQ) {
        16384u64
    } else {
        0u64
    });
    let o0: u64 = ((instruction.off0 as i32) + 0x8000) as u64;
    let o1: u64 = ((instruction.off1 as i32) + 0x8000) as u64;
    let o2: u64 = ((instruction.off2 as i32) + 0x8000) as u64;
    o0 + o1 * 0x10000 + o2 * 0x1_0000_0000 + f * 0x1_0000_0000_0000
}

} // verus!
