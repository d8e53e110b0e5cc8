use oriac::encode::{decode_instruction, encode_instruction, DecodeError};
use oriac::felt::Felt;
use oriac::instruction::{
    ApUpdate, FpUpdate, Instruction, Op1Addr, Opcode, PcUpdate, Register, Res,
};
use oriac::relocatable::{MathError, MaybeRelocatable, RelocatableValue};

fn felt(x: u64) -> Felt {
    Felt::from_u64(x)
}

fn decode_u64(enc: u64, imm: Option<u64>) -> Result<Instruction, DecodeError> {
    decode_instruction(felt(enc), imm.map(felt))
}

#[test]
fn decode_ret() {
    // The canonical return instruction.
    let inst = decode_u64(0x208b7fff7fff7ffe, None).unwrap();
    assert_eq!(inst.off0, -2);
    assert_eq!(inst.off1, -1);
    assert_eq!(inst.off2, -1);
    assert!(inst.imm.is_none());
    assert!(matches!(inst.dst_register, Register::FP));
    assert!(matches!(inst.op0_register, Register::FP));
    assert!(matches!(inst.op1_addr, Op1Addr::FP));
    assert!(matches!(inst.res, Res::OP1));
    assert!(matches!(inst.pc_update, PcUpdate::JUMP));
    assert!(matches!(inst.ap_update, ApUpdate::REGULAR));
    assert!(matches!(inst.fp_update, FpUpdate::DST));
    assert!(matches!(inst.opcode, Opcode::RET));
    assert_eq!(inst.size(), 1);
}

#[test]
fn decode_immediate_assert() {
    // [ap] = 42; ap++
    let inst = decode_u64(0x480680017fff8000, Some(42)).unwrap();
    assert_eq!(inst.off0, 0);
    assert_eq!(inst.off1, -1);
    assert_eq!(inst.off2, 1);
    assert!(matches!(inst.opcode, Opcode::ASSERT_EQ));
    assert!(matches!(inst.op1_addr, Op1Addr::IMM));
    assert!(matches!(inst.ap_update, ApUpdate::ADD1));
    assert_eq!(inst.size(), 2);
}

#[test]
fn decode_rejects_bad_combinations() {
    // Two op1 source bits at once.
    let op1_bits = (4u64 + 16) << 48;
    assert!(matches!(
        decode_u64(op1_bits | 0x800080008000, None),
        Err(DecodeError::InvalidOp1)
    ));
    // An immediate operand without an immediate cell.
    let imm_flag = 4u64 << 48;
    assert!(matches!(
        decode_u64(imm_flag | 0x800180008000, None),
        Err(DecodeError::MissingImmediate)
    ));
    // Two program-counter updates at once.
    let pc_bits = (128u64 + 256) << 48;
    assert!(matches!(
        decode_u64(pc_bits | 0x800080008000, None),
        Err(DecodeError::InvalidPcUpdate)
    ));
    // Both result bits at once.
    let res_bits = (32u64 + 64) << 48;
    assert!(matches!(
        decode_u64(res_bits | 0x800080008000, None),
        Err(DecodeError::InvalidRes)
    ));
    // A conditional jump with a constrained result.
    let jnz_add = (512u64 + 32) << 48;
    assert!(matches!(
        decode_u64(jnz_add | 0x800080008000, None),
        Err(DecodeError::InvalidRes)
    ));
    // Both allocation-pointer bits at once.
    let ap_bits = (1024u64 + 2048) << 48;
    assert!(matches!(
        decode_u64(ap_bits | 0x800080008000, None),
        Err(DecodeError::InvalidApUpdate)
    ));
    // A call with an allocation-pointer bit.
    let call_ap = (4096u64 + 1024) << 48;
    assert!(matches!(
        decode_u64(call_ap | 0x800080008000, None),
        Err(DecodeError::InvalidApUpdate)
    ));
    // Two opcode bits at once.
    let op_bits = (4096u64 + 8192) << 48;
    assert!(matches!(
        decode_u64(op_bits | 0x800080008000, None),
        Err(DecodeError::InvalidOpcode)
    ));
    // Out of the instruction range.
    assert!(matches!(
        decode_instruction(felt(0x8000_0000_0000_0000), None),
        Err(DecodeError::UnsupportedEncoding)
    ));
}

fn roundtrip(inst: Instruction) {
    let imm_copy = inst.imm.clone();
    let enc = encode_instruction(&inst);
    let back = decode_instruction(felt(enc), imm_copy).unwrap();
    assert_eq!(back.off0, inst.off0);
    assert_eq!(back.off1, inst.off1);
    assert_eq!(back.off2, inst.off2);
    match (&back.imm, &inst.imm) {
        (None, None) => {}
        (Some(a), Some(b)) => assert!(a.eq_felt(b)),
        _ => panic!("immediate lost in the round trip"),
    }
    assert_eq!(back.dst_register, inst.dst_register);
    assert_eq!(back.op0_register, inst.op0_register);
    assert_eq!(back.op1_addr, inst.op1_addr);
    assert_eq!(back.res, inst.res);
    assert_eq!(back.pc_update, inst.pc_update);
    assert_eq!(back.ap_update, inst.ap_update);
    assert_eq!(back.fp_update, inst.fp_update);
    assert_eq!(back.opcode, inst.opcode);
}

#[test]
fn encode_then_decode_is_identity() {
    roundtrip(Instruction {
        off0: -2,
        off1: -1,
        off2: -1,
        imm: None,
        dst_register: Register::FP,
        op0_register: Register::FP,
        op1_addr: Op1Addr::FP,
        res: Res::OP1,
        pc_update: PcUpdate::JUMP,
        ap_update: ApUpdate::REGULAR,
        fp_update: FpUpdate::DST,
        opcode: Opcode::RET,
    });
    roundtrip(Instruction {
        off0: 0,
        off1: 1,
        off2: 1,
        imm: Some(felt(1234)),
        dst_register: Register::AP,
        op0_register: Register::AP,
        op1_addr: Op1Addr::IMM,
        res: Res::OP1,
        pc_update: PcUpdate::JUMP_REL,
        ap_update: ApUpdate::ADD2,
        fp_update: FpUpdate::AP_PLUS2,
        opcode: Opcode::CALL,
    });
    roundtrip(Instruction {
        off0: 3,
        off1: -4,
        off2: 5,
        imm: None,
        dst_register: Register::AP,
        op0_register: Register::FP,
        op1_addr: Op1Addr::OP0,
        res: Res::MUL,
        pc_update: PcUpdate::REGULAR,
        ap_update: ApUpdate::ADD,
        fp_update: FpUpdate::REGULAR,
        opcode: Opcode::ASSERT_EQ,
    });
}

#[test]
fn encode_ret_matches_known_encoding() {
    let ret = Instruction {
        off0: -2,
        off1: -1,
        off2: -1,
        imm: None,
        dst_register: Register::FP,
        op0_register: Register::FP,
        op1_addr: Op1Addr::FP,
        res: Res::OP1,
        pc_update: PcUpdate::JUMP,
        ap_update: ApUpdate::REGULAR,
        fp_update: FpUpdate::DST,
        opcode: Opcode::RET,
    };
    assert_eq!(encode_instruction(&ret), 0x208b7fff7fff7ffe);
}

#[test]
fn offset_extremes_round_trip() {
    // The extremes of the biased offsets.
    roundtrip(Instruction {
        off0: 32767,
        off1: -32767,
        off2: 32767,
        imm: None,
        dst_register: Register::AP,
        op0_register: Register::AP,
        op1_addr: Op1Addr::AP,
        res: Res::ADD,
        pc_update: PcUpdate::REGULAR,
        ap_update: ApUpdate::REGULAR,
        fp_update: FpUpdate::REGULAR,
        opcode: Opcode::NOP,
    });
    let enc = encode_instruction(&Instruction {
        off0: -32768,
        off1: 32767,
        off2: -32768,
        imm: None,
        dst_register: Register::AP,
        op0_register: Register::AP,
        op1_addr: Op1Addr::OP0,
        res: Res::OP1,
        pc_update: PcUpdate::REGULAR,
        ap_update: ApUpdate::REGULAR,
        fp_update: FpUpdate::REGULAR,
        opcode: Opcode::NOP,
    });
    let back = decode_instruction(felt(enc), None).unwrap();
    assert_eq!(back.off0, -32768);
    assert_eq!(back.off1, 32767);
    assert_eq!(back.off2, -32768);
}

#[test]
fn felt_arithmetic_is_modular() {
    let p = felt(7);
    let a = felt(5);
    let b = felt(4);
    assert_eq!(a.add_mod(&b, &p).to_u64(), Some(2));
    assert_eq!(a.sub_mod(&b, &p).to_u64(), Some(1));
    assert_eq!(b.sub_mod(&a, &p).to_u64(), Some(6));
    assert_eq!(a.mul_mod(&b, &p).to_u64(), Some(6));
    assert_eq!(felt(22).rem_prime(&p).to_u64(), Some(1));
}

#[test]
fn felt_inverse() {
    let p = felt(7);
    let inv = felt(3).inv_mod(&p).unwrap();
    assert_eq!(inv.to_u64(), Some(5));
    // No inverse where the values share a factor.
    assert!(felt(2).inv_mod(&felt(8)).is_none());
}

#[test]
fn felt_bit_operations() {
    let x = felt(0b1100);
    let y = felt(0b1010);
    assert_eq!(x.and_felt(&y).to_u64(), Some(0b1000));
    assert_eq!(x.xor_felt(&y).to_u64(), Some(0b0110));
    assert_eq!(x.or_felt(&y).to_u64(), Some(0b1110));
}

#[test]
fn default_prime_has_known_residue() {
    // The default prime is 2^251 + 17 * 2^192 + 1; its residue modulo
    // 10^18 pins the whole construction.
    let p = Felt::prime();
    assert!(p.to_u64().is_none());
    let m = felt(1_000_000_000_000_000_000);
    assert_eq!(p.rem_prime(&m).to_u64(), Some(92_056_135_872_020_481));
}

#[test]
fn cell_arithmetic_follows_the_rules() {
    let p = Felt::prime();
    let int = |x: u64| MaybeRelocatable::Int(felt(x));
    let addr = |s: i64, o: i64| {
        MaybeRelocatable::RelocatableValue(RelocatableValue::new(s, o))
    };
    // Int + Int reduces modulo the prime.
    let r = int(3).add_cell(&int(4), &felt(5)).unwrap();
    assert!(r == int(2));
    // Int + Addr moves the offset; it commutes.
    let r = int(3).add_cell(&addr(1, 4), &p).unwrap();
    assert!(r == addr(1, 7));
    let r = addr(1, 4).add_cell(&int(3), &p).unwrap();
    assert!(r == addr(1, 7));
    // Addr + Addr is forbidden.
    assert!(matches!(
        addr(1, 0).add_cell(&addr(1, 1), &p),
        Err(MathError::PureValue)
    ));
    // Addr - Int moves the offset back.
    let r = addr(1, 4).sub_cell(&int(3), &p).unwrap();
    assert!(r == addr(1, 1));
    // Addr - Addr of one segment is the offset difference.
    let r = addr(1, 9).sub_cell(&addr(1, 4), &p).unwrap();
    assert!(r == int(5));
    // Addr - Addr across segments is forbidden.
    assert!(matches!(
        addr(1, 9).sub_cell(&addr(2, 4), &p),
        Err(MathError::SegmentMismatch)
    ));
    // Int - Addr is forbidden.
    assert!(matches!(
        int(9).sub_cell(&addr(2, 4), &p),
        Err(MathError::PureValue)
    ));
    // A field element added to an address can step it backwards through
    // the reduction: adding p - 2 is subtracting two.
    let minus_two = MaybeRelocatable::Int(felt(0).sub_mod(&felt(2), &p));
    let r = addr(0, 5).add_cell(&minus_two, &p).unwrap();
    assert!(r == addr(0, 3));
}

#[test]
fn felt_byte_and_decimal_conversions() {
    let f = Felt::from_bytes_be(&[1, 0]);
    assert_eq!(f.to_u64(), Some(256));
    let g = Felt::from_bytes_be(&[0x12, 0x34, 0x56]);
    assert_eq!(g.to_u64(), Some(0x123456));
    assert_eq!(Felt::from_bytes_be(&[]).to_u64(), Some(0));
    assert_eq!(felt(0).to_dec_string(), "0");
    assert_eq!(felt(90210).to_dec_string(), "90210");
}
