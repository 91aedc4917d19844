//! Instruction words: their fixed fields, their immediates and the table of
//! supported instructions.
use vstd::arithmetic::power2::{lemma2_to64, pow2};
use vstd::prelude::*;

use crate::fault::Fault;

verus! {

pub const LUI: u32 = 0x37;
pub const AUIPC: u32 = 0x17;

pub const JAL: u32 = 0x6f;
pub const JALR: u32 = 0x67;

pub const B_TYPE: u32 = 0x63;
pub const BEQ: u32 = 0x0;
pub const BNE: u32 = 0x1;
pub const BLT: u32 = 0x4;
pub const BGE: u32 = 0x5;
pub const BLTU: u32 = 0x6;
pub const BGEU: u32 = 0x7;

pub const LOAD: u32 = 0x03;
pub const LB: u32 = 0x0;
pub const LH: u32 = 0x1;
pub const LW: u32 = 0x2;
pub const LD: u32 = 0x3;
pub const LBU: u32 = 0x4;
pub const LHU: u32 = 0x5;
pub const LWU: u32 = 0x6;

pub const S_TYPE: u32 = 0x23;
pub const SB: u32 = 0x0;
pub const SH: u32 = 0x1;
pub const SW: u32 = 0x2;
pub const SD: u32 = 0x3;

pub const I_TYPE: u32 = 0x13;
pub const ADDI: u32 = 0x0;
pub const SLLI: u32 = 0x1;
pub const SLTI: u32 = 0x2;
pub const SLTIU: u32 = 0x3;
pub const XORI: u32 = 0x4;
pub const SRI: u32 = 0x5;
pub const SRLI: u32 = 0x00;
pub const SRAI: u32 = 0x20;
pub const ORI: u32 = 0x6;
pub const ANDI: u32 = 0x7;

pub const R_TYPE: u32 = 0x33;
pub const ADDSUB: u32 = 0x0;
pub const ADD: u32 = 0x00;
pub const SUB: u32 = 0x20;
pub const SLL: u32 = 0x1;
pub const SLT: u32 = 0x2;
pub const SLTU: u32 = 0x3;
pub const XOR: u32 = 0x4;
pub const SR: u32 = 0x5;
pub const SRL: u32 = 0x00;
pub const SRA: u32 = 0x20;
pub const OR: u32 = 0x6;
pub const AND: u32 = 0x7;

pub const FENCE: u32 = 0x0f;
pub const FENCE_I: u32 = 0x1;

pub const CSR: u32 = 0x73;
pub const ECALL: u32 = 0x00;
pub const EBREAK: u32 = 0x00;
pub const CSRRW: u32 = 0x01;
pub const CSRRS: u32 = 0x02;
pub const CSRRC: u32 = 0x03;
pub const CSRRWI: u32 = 0x05;
pub const CSRRSI: u32 = 0x06;
pub const CSRRCI: u32 = 0x07;

/// Bits `lo .. lo + len` of `w` (bits `[lo + len - 1 : lo]`), as a number.
#[verifier::opaque]
pub open spec fn bits(w: u32, lo: nat, len: nat) -> nat {
    (w as nat / pow2(lo)) % pow2(len)
}

/// The `width`-bit two's-complement number whose bit pattern is `v`.
pub open spec fn signed(v: nat, width: nat) -> int {
    if v < pow2((width - 1) as nat) {
        v as int
    } else {
        v - pow2(width)
    }
}

/// The 32-bit machine word that holds `i` in two's complement: `i` modulo `2^32`.
pub open spec fn word(i: int) -> u32 {
    (i % 0x1_0000_0000) as u32
}

/// The signed value of a machine word.
pub open spec fn signed_word(w: u32) -> int {
    signed(w as nat, 32)
}

/// I-immediate: bits `[31:20]`, sign-extended.
pub open spec fn i_imm(w: u32) -> int {
    signed(bits(w, 20, 12), 12)
}

/// S-immediate: bits `[31:25]` above bits `[11:7]`, sign-extended.
pub open spec fn s_imm(w: u32) -> int {
    signed(bits(w, 25, 7) * 32 + bits(w, 7, 5), 12)
}

/// B-immediate: bit 31, bit 7, bits `[30:25]`, bits `[11:8]` and an implicit
/// zero, most significant first, sign-extended.
pub open spec fn b_imm(w: u32) -> int {
    signed(bits(w, 31, 1) * 4096 + bits(w, 7, 1) * 2048 + bits(w, 25, 6) * 32 + bits(w, 8, 4) * 2, 13)
}

/// U-immediate: bits `[31:12]` above twelve zero bits, as a signed 32-bit value.
pub open spec fn u_imm(w: u32) -> int {
    signed(bits(w, 12, 20) * 4096, 32)
}

/// J-immediate: bit 31, bits `[19:12]`, bit 20, bits `[30:21]` and an implicit
/// zero, most significant first, sign-extended.
pub open spec fn j_imm(w: u32) -> int {
    signed(bits(w, 31, 1) * 0x10_0000 + bits(w, 12, 8) * 4096 + bits(w, 20, 1) * 2048 + bits(w, 21, 10) * 2, 21)
}

proof fn lemma_field_masks(w: u32)
    by (bit_vector)
    ensures
        w & 0x7f == w % 128,
        (w >> 7) & 0x1f == (w / 0x80) % 32,
        (w >> 12) & 0x7 == (w / 0x1000) % 8,
        (w >> 15) & 0x1f == (w / 0x8000) % 32,
        (w >> 20) & 0x1f == (w / 0x10_0000) % 32,
        w >> 20 == (w / 0x10_0000) % 4096,
        w >> 25 == (w / 0x200_0000) % 128,
        ((w >> 25) << 5) | ((w >> 7) & 0x1f) == ((w / 0x200_0000) % 128) * 32 + (w / 0x80) % 32,
        ((w >> 31) << 12) | (((w >> 7) & 1) << 11) | (((w >> 25) & 0x3f) << 5) | (((w >> 8) & 0xf) << 1)
            == ((w / 0x8000_0000) % 2) * 4096 + ((w / 0x80) % 2) * 2048 + ((w / 0x200_0000) % 64) * 32
            + ((w / 0x100) % 16) * 2,
        w & 0xffff_f000 == ((w / 0x1000) % 0x10_0000) * 4096,
        ((w >> 31) << 20) | (((w >> 12) & 0xff) << 12) | (((w >> 20) & 1) << 11) | (((w >> 21) & 0x3ff) << 1)
            == ((w / 0x8000_0000) % 2) * 0x10_0000 + ((w / 0x1000) % 256) * 4096 + ((w / 0x10_0000) % 2) * 2048
            + ((w / 0x20_0000) % 1024) * 2,
{
}

/// Reads `value` as a `width`-bit two's-complement number and widens it to a
/// machine word.
pub fn sign_extend(value: u32, width: u32) -> (r: u32)
    requires
        1 <= width <= 32,
        value < pow2(width as nat),
    ensures
        r == word(signed(value as nat, width as nat)),
{
    proof {
        lemma2_to64();
    }
    if width == 32 {
        return value;
    }
    proof {
        vstd::bits::lemma_u32_shl_is_mul(1, width);
        vstd::bits::lemma_u32_shl_is_mul(1, (width - 1) as u32);
        vstd::arithmetic::power2::lemma_pow2_adds((width - 1) as nat, 1);
    }
    let half: u32 = 1u32 << (width - 1);
    let limit: u32 = 1u32 << width;
    if value < half {
        value
    } else {
        value.wrapping_sub(limit)
    }
}

/// The major opcode, bits `[6:0]`.
pub fn opcode(instr: u32) -> (r: u32)
    ensures
        r == bits(instr, 0, 7),
{
    proof {
        lemma_field_masks(instr);
        lemma2_to64();
        reveal(bits);
    }
    instr & 0x7f
}

/// The minor opcode, bits `[14:12]`.
pub fn funct3(instr: u32) -> (r: u32)
    ensures
        r == bits(instr, 12, 3),
{
    proof {
        lemma_field_masks(instr);
        lemma2_to64();
        reveal(bits);
    }
    (instr >> 12) & 0x7
}

/// The function field, bits `[31:25]`.
pub fn funct7(instr: u32) -> (r: u32)
    ensures
        r == bits(instr, 25, 7),
{
    proof {
        lemma_field_masks(instr);
        lemma2_to64();
        reveal(bits);
    }
    instr >> 25
}

/// The destination register, bits `[11:7]`.
pub fn rd(instr: u32) -> (r: u32)
    ensures
        r == bits(instr, 7, 5),
        r < 32,
{
    proof {
        lemma_field_masks(instr);
        lemma2_to64();
        reveal(bits);
    }
    (instr >> 7) & 0x1f
}

/// The first source register, bits `[19:15]`.
pub fn rs1(instr: u32) -> (r: u32)
    ensures
        r == bits(instr, 15, 5),
        r < 32,
{
    proof {
        lemma_field_masks(instr);
        lemma2_to64();
        reveal(bits);
    }
    (instr >> 15) & 0x1f
}

/// The second source register, bits `[24:20]`.
pub fn rs2(instr: u32) -> (r: u32)
    ensures
        r == bits(instr, 20, 5),
        r < 32,
{
    proof {
        lemma_field_masks(instr);
        lemma2_to64();
        reveal(bits);
    }
    (instr >> 20) & 0x1f
}

/// The shift amount of an immediate shift: the low five bits of the
/// I-immediate, bits `[24:20]`, never sign-extended.
pub fn shamt(instr: u32) -> (r: u32)
    ensures
        r == bits(instr, 20, 5),
        r < 32,
{
    proof {
        lemma_field_masks(instr);
        lemma2_to64();
        reveal(bits);
    }
    (instr >> 20) & 0x1f
}

/// The control and status register number, bits `[31:20]`, unsigned.
pub fn csr(instr: u32) -> (r: u32)
    ensures
        r == bits(instr, 20, 12),
{
    proof {
        lemma_field_masks(instr);
        lemma2_to64();
        reveal(bits);
    }
    instr >> 20
}

/// The I-immediate.
pub fn imm_i(instr: u32) -> (r: i32)
    ensures
        r == i_imm(instr),
        -2048 <= r < 2048,
{
    proof {
        lemma_field_masks(instr);
        lemma2_to64();
        reveal(bits);
    }
    let v = sign_extend(instr >> 20, 12);
    proof {
        lemma_word_as_i32(i_imm(instr));
    }
    v as i32
}

/// The S-immediate, as a machine word.
pub fn imm_s(instr: u32) -> (r: u32)
    ensures
        r == word(s_imm(instr)),
{
    proof {
        lemma_field_masks(instr);
        lemma2_to64();
        reveal(bits);
    }
    sign_extend(((instr >> 25) << 5) | ((instr >> 7) & 0x1f), 12)
}

/// The B-immediate, as a machine word.
pub fn imm_b(instr: u32) -> (r: u32)
    ensures
        r == word(b_imm(instr)),
{
    proof {
        lemma_field_masks(instr);
        lemma2_to64();
        reveal(bits);
    }
    let v = ((instr >> 31) << 12) | (((instr >> 7) & 1) << 11) | (((instr >> 25) & 0x3f) << 5) | (((
    instr >> 8) & 0xf) << 1);
    sign_extend(v, 13)
}

/// The U-immediate, as a machine word.
pub fn imm_u(instr: u32) -> (r: u32)
    ensures
        r == word(u_imm(instr)),
{
    proof {
        lemma_field_masks(instr);
        lemma2_to64();
        reveal(bits);
    }
    sign_extend(instr & 0xffff_f000, 32)
}

/// The J-immediate, as a machine word.
pub fn imm_j(instr: u32) -> (r: u32)
    ensures
        r == word(j_imm(instr)),
{
    proof {
        lemma_field_masks(instr);
        lemma2_to64();
        reveal(bits);
    }
    let v = ((instr >> 31) << 20) | (((instr >> 12) & 0xff) << 12) | (((instr >> 20) & 1) << 11) | (((
    instr >> 21) & 0x3ff) << 1);
    sign_extend(v, 21)
}

/// Register fields name one of the 32 registers.
pub proof fn lemma_field_ranges(w: u32)
    ensures
        bits(w, 7, 5) < 32,
        bits(w, 15, 5) < 32,
        bits(w, 20, 5) < 32,
{
    reveal(bits);
    lemma2_to64();
}

/// A machine word read back as `i32` gives the number it holds.
pub proof fn lemma_word_as_i32(i: int)
    requires
        -0x8000_0000 <= i < 0x8000_0000,
    ensures
        word(i) as i32 == i,
{
    let w = word(i);
    assert(w < 0x8000_0000 ==> w as i32 == w as int) by (bit_vector);
    assert(w >= 0x8000_0000 ==> w as i32 == w as int - 0x1_0000_0000) by (bit_vector);
}

/// A machine word read as `i32` gives its signed value.
pub proof fn lemma_signed_word(w: u32)
    ensures
        w as i32 == signed_word(w),
{
    lemma2_to64();
    assert(w < 0x8000_0000 ==> w as i32 == w as int) by (bit_vector);
    assert(w >= 0x8000_0000 ==> w as i32 == w as int - 0x1_0000_0000) by (bit_vector);
}


/// The instructions that the core decodes, one per mnemonic.
#[derive(Debug, Clone, Copy, PartialEq, Eq, Structural)]
pub enum Instruction {
    Lui,
    Auipc,
    Jal,
    Jalr,
    Beq,
    Bne,
    Blt,
    Bge,
    Bltu,
    Bgeu,
    Lb,
    Lh,
    Lw,
    Ld,
    Lbu,
    Lhu,
    Lwu,
    Sb,
    Sh,
    Sw,
    Sd,
    Addi,
    Slti,
    Sltiu,
    Xori,
    Ori,
    Andi,
    Slli,
    Srli,
    Srai,
    Add,
    Sub,
    Sll,
    Slt,
    Sltu,
    Xor,
    Srl,
    Sra,
    Or,
    And,
    Fence,
    FenceI,
    Ecall,
    Ebreak,
    Csrrw,
    Csrrs,
    Csrrc,
    Csrrwi,
    Csrrsi,
    Csrrci,
}

/// Whether the fixed fields of `w` (opcode, and funct3, funct7 or the
/// immediate where the instruction fixes them) are those of `k`.
pub open spec fn encodes(k: Instruction, w: u32) -> bool {
    let op = bits(w, 0, 7);
    let f3 = bits(w, 12, 3);
    let f7 = bits(w, 25, 7);
    match k {
        Instruction::Lui => op == LUI,
        Instruction::Auipc => op == AUIPC,
        Instruction::Jal => op == JAL,
        Instruction::Jalr => op == JALR && f3 == 0,
        Instruction::Beq => op == B_TYPE && f3 == BEQ,
        Instruction::Bne => op == B_TYPE && f3 == BNE,
        Instruction::Blt => op == B_TYPE && f3 == BLT,
        Instruction::Bge => op == B_TYPE && f3 == BGE,
        Instruction::Bltu => op == B_TYPE && f3 == BLTU,
        Instruction::Bgeu => op == B_TYPE && f3 == BGEU,
        Instruction::Lb => op == LOAD && f3 == LB,
        Instruction::Lh => op == LOAD && f3 == LH,
        Instruction::Lw => op == LOAD && f3 == LW,
        Instruction::Ld => op == LOAD && f3 == LD,
        Instruction::Lbu => op == LOAD && f3 == LBU,
        Instruction::Lhu => op == LOAD && f3 == LHU,
        Instruction::Lwu => op == LOAD && f3 == LWU,
        Instruction::Sb => op == S_TYPE && f3 == SB,
        Instruction::Sh => op == S_TYPE && f3 == SH,
        Instruction::Sw => op == S_TYPE && f3 == SW,
        Instruction::Sd => op == S_TYPE && f3 == SD,
        Instruction::Addi => op == I_TYPE && f3 == ADDI,
        Instruction::Slti => op == I_TYPE && f3 == SLTI,
        Instruction::Sltiu => op == I_TYPE && f3 == SLTIU,
        Instruction::Xori => op == I_TYPE && f3 == XORI,
        Instruction::Ori => op == I_TYPE && f3 == ORI,
        Instruction::Andi => op == I_TYPE && f3 == ANDI,
        Instruction::Slli => op == I_TYPE && f3 == SLLI && f7 == 0,
        Instruction::Srli => op == I_TYPE && f3 == SRI && f7 == SRLI,
        Instruction::Srai => op == I_TYPE && f3 == SRI && f7 == SRAI,
        Instruction::Add => op == R_TYPE && f3 == ADDSUB && f7 == ADD,
        Instruction::Sub => op == R_TYPE && f3 == ADDSUB && f7 == SUB,
        Instruction::Sll => op == R_TYPE && f3 == SLL && f7 == 0,
        Instruction::Slt => op == R_TYPE && f3 == SLT && f7 == 0,
        Instruction::Sltu => op == R_TYPE && f3 == SLTU && f7 == 0,
        Instruction::Xor => op == R_TYPE && f3 == XOR && f7 == 0,
        Instruction::Srl => op == R_TYPE && f3 == SR && f7 == SRL,
        Instruction::Sra => op == R_TYPE && f3 == SR && f7 == SRA,
        Instruction::Or => op == R_TYPE && f3 == OR && f7 == 0,
        Instruction::And => op == R_TYPE && f3 == AND && f7 == 0,
        Instruction::Fence => op == FENCE && f3 == 0,
        Instruction::FenceI => op == FENCE && f3 == FENCE_I,
        Instruction::Ecall => op == CSR && f3 == ECALL && bits(w, 20, 12) == 0,
        Instruction::Ebreak => op == CSR && f3 == EBREAK && bits(w, 20, 12) == 1,
        Instruction::Csrrw => op == CSR && f3 == CSRRW,
        Instruction::Csrrs => op == CSR && f3 == CSRRS,
        Instruction::Csrrc => op == CSR && f3 == CSRRC,
        Instruction::Csrrwi => op == CSR && f3 == CSRRWI,
        Instruction::Csrrsi => op == CSR && f3 == CSRRSI,
        Instruction::Csrrci => op == CSR && f3 == CSRRCI,
    }
}

/// What decoding `w` gives: the instruction whose fixed fields `w` carries,
/// or a decode fault where there is none.
pub open spec fn decoded(w: u32) -> Result<Instruction, Fault> {
    if exists|k: Instruction| encodes(k, w) {
        Ok(choose|k: Instruction| encodes(k, w))
    } else {
        Err(Fault::Decode(w))
    }
}

/// Whether `op` is the opcode of a family of supported instructions.
pub open spec fn known_opcode(op: nat) -> bool {
    op == LUI || op == AUIPC || op == JAL || op == JALR || op == B_TYPE || op == LOAD || op == S_TYPE
        || op == I_TYPE || op == R_TYPE || op == FENCE || op == CSR
}

/// `r` is what decoding `w` owes: the one instruction whose fixed fields `w`
/// carries, or a decode fault where no instruction has them.
pub open spec fn decode_result(w: u32, r: Result<Instruction, Fault>) -> bool {
    match r {
        Ok(k) => encodes(k, w) && forall|k2: Instruction| #[trigger] encodes(k2, w) ==> k2 == k,
        Err(f) => f == Fault::Decode(w) && forall|k2: Instruction| !#[trigger] encodes(k2, w),
    }
}

proof fn lemma_decode_result(w: u32, r: Result<Instruction, Fault>)
    requires
        decode_result(w, r),
    ensures
        r == decoded(w),
{
    if let Ok(k) = r {
        let c = choose|k2: Instruction| encodes(k2, w);
        assert(encodes(c, w));
    }
}

fn decode_branch(instr: u32) -> (r: Result<Instruction, Fault>)
    requires
        bits(instr, 0, 7) == B_TYPE,
    ensures
        decode_result(instr, r),
{
    match funct3(instr) {
        BEQ => Ok(Instruction::Beq),
        BNE => Ok(Instruction::Bne),
        BLT => Ok(Instruction::Blt),
        BGE => Ok(Instruction::Bge),
        BLTU => Ok(Instruction::Bltu),
        BGEU => Ok(Instruction::Bgeu),
        _ => Err(Fault::Decode(instr)),
    }
}

fn decode_load(instr: u32) -> (r: Result<Instruction, Fault>)
    requires
        bits(instr, 0, 7) == LOAD,
    ensures
        decode_result(instr, r),
{
    match funct3(instr) {
        LB => Ok(Instruction::Lb),
        LH => Ok(Instruction::Lh),
        LW => Ok(Instruction::Lw),
        LD => Ok(Instruction::Ld),
        LBU => Ok(Instruction::Lbu),
        LHU => Ok(Instruction::Lhu),
        LWU => Ok(Instruction::Lwu),
        _ => Err(Fault::Decode(instr)),
    }
}

fn decode_store(instr: u32) -> (r: Result<Instruction, Fault>)
    requires
        bits(instr, 0, 7) == S_TYPE,
    ensures
        decode_result(instr, r),
{
    match funct3(instr) {
        SB => Ok(Instruction::Sb),
        SH => Ok(Instruction::Sh),
        SW => Ok(Instruction::Sw),
        SD => Ok(Instruction::Sd),
        _ => Err(Fault::Decode(instr)),
    }
}

fn decode_op_imm(instr: u32) -> (r: Result<Instruction, Fault>)
    requires
        bits(instr, 0, 7) == I_TYPE,
    ensures
        decode_result(instr, r),
{
    let f7 = funct7(instr);
    match funct3(instr) {
        ADDI => Ok(Instruction::Addi),
        SLTI => Ok(Instruction::Slti),
        SLTIU => Ok(Instruction::Sltiu),
        XORI => Ok(Instruction::Xori),
        ORI => Ok(Instruction::Ori),
        ANDI => Ok(Instruction::Andi),
        SLLI if f7 == 0 => Ok(Instruction::Slli),
        SRI if f7 == SRLI => Ok(Instruction::Srli),
        SRI if f7 == SRAI => Ok(Instruction::Srai),
        _ => Err(Fault::Decode(instr)),
    }
}

fn decode_op(instr: u32) -> (r: Result<Instruction, Fault>)
    requires
        bits(instr, 0, 7) == R_TYPE,
    ensures
        decode_result(instr, r),
{
    let f7 = funct7(instr);
    match funct3(instr) {
        ADDSUB if f7 == ADD => Ok(Instruction::Add),
        ADDSUB if f7 == SUB => Ok(Instruction::Sub),
        SLL if f7 == 0 => Ok(Instruction::Sll),
        SLT if f7 == 0 => Ok(Instruction::Slt),
        SLTU if f7 == 0 => Ok(Instruction::Sltu),
        XOR if f7 == 0 => Ok(Instruction::Xor),
        SR if f7 == SRL => Ok(Instruction::Srl),
        SR if f7 == SRA => Ok(Instruction::Sra),
        OR if f7 == 0 => Ok(Instruction::Or),
        AND if f7 == 0 => Ok(Instruction::And),
        _ => Err(Fault::Decode(instr)),
    }
}

fn decode_misc(instr: u32) -> (r: Result<Instruction, Fault>)
    requires
        bits(instr, 0, 7) == FENCE,
    ensures
        decode_result(instr, r),
{
    match funct3(instr) {
        0 => Ok(Instruction::Fence),
        FENCE_I => Ok(Instruction::FenceI),
        _ => Err(Fault::Decode(instr)),
    }
}

fn decode_system(instr: u32) -> (r: Result<Instruction, Fault>)
    requires
        bits(instr, 0, 7) == CSR,
    ensures
        decode_result(instr, r),
{
    let imm = csr(instr);
    match funct3(instr) {
        0 if imm == 0 => Ok(Instruction::Ecall),
        0 if imm == 1 => Ok(Instruction::Ebreak),
        CSRRW => Ok(Instruction::Csrrw),
        CSRRS => Ok(Instruction::Csrrs),
        CSRRC => Ok(Instruction::Csrrc),
        CSRRWI => Ok(Instruction::Csrrwi),
        CSRRSI => Ok(Instruction::Csrrsi),
        CSRRCI => Ok(Instruction::Csrrci),
        _ => Err(Fault::Decode(instr)),
    }
}

/// Decodes an instruction word: the opcode selects the family, funct3 the
/// operation and funct7 (or, for the environment calls, the immediate) tells
/// apart the operations that share both.
pub fn decode(instr: u32) -> (r: Result<Instruction, Fault>)
    ensures
        r == decoded(instr),
        decode_result(instr, r),
{
    let op = opcode(instr);
    let r = if op == LUI {
        Ok(Instruction::Lui)
    } else if op == AUIPC {
        Ok(Instruction::Auipc)
    } else if op == JAL {
        Ok(Instruction::Jal)
    } else if op == JALR {
        if funct3(instr) == 0 {
            Ok(Instruction::Jalr)
        } else {
            Err(Fault::Decode(instr))
        }
    } else if op == B_TYPE {
        decode_branch(instr)
    } else if op == LOAD {
        decode_load(instr)
    } else if op == S_TYPE {
        decode_store(instr)
    } else if op == I_TYPE {
        decode_op_imm(instr)
    } else if op == R_TYPE {
        decode_op(instr)
    } else if op == FENCE {
        decode_misc(instr)
    } else if op == CSR {
        decode_system(instr)
    } else {
        Err(Fault::Decode(instr))
    };
    proof {
        lemma_decode_result(instr, r);
    }
    r
}

/// A word whose opcode belongs to no supported family decodes to a decode
/// fault, never to an instruction.
pub proof fn lemma_unknown_opcode_faults(w: u32)
    requires
        !known_opcode(bits(w, 0, 7)),
    ensures
        decoded(w) == Err::<Instruction, Fault>(Fault::Decode(w)),
        forall|k: Instruction| !encodes(k, w),
{
}

/// The assembler mnemonic of `k`.
pub open spec fn mnemonic(k: Instruction) -> Seq<char> {
    match k {
        Instruction::Lui => "lui"@,
        Instruction::Auipc => "auipc"@,
        Instruction::Jal => "jal"@,
        Instruction::Jalr => "jalr"@,
        Instruction::Beq => "beq"@,
        Instruction::Bne => "bne"@,
        Instruction::Blt => "blt"@,
        Instruction::Bge => "bge"@,
        Instruction::Bltu => "bltu"@,
        Instruction::Bgeu => "bgeu"@,
        Instruction::Lb => "lb"@,
        Instruction::Lh => "lh"@,
        Instruction::Lw => "lw"@,
        Instruction::Ld => "ld"@,
        Instruction::Lbu => "lbu"@,
        Instruction::Lhu => "lhu"@,
        Instruction::Lwu => "lwu"@,
        Instruction::Sb => "sb"@,
        Instruction::Sh => "sh"@,
        Instruction::Sw => "sw"@,
        Instruction::Sd => "sd"@,
        Instruction::Addi => "addi"@,
        Instruction::Slti => "slti"@,
        Instruction::Sltiu => "sltiu"@,
        Instruction::Xori => "xori"@,
        Instruction::Ori => "ori"@,
        Instruction::Andi => "andi"@,
        Instruction::Slli => "slli"@,
        Instruction::Srli => "srli"@,
        Instruction::Srai => "srai"@,
        Instruction::Add => "add"@,
        Instruction::Sub => "sub"@,
        Instruction::Sll => "sll"@,
        Instruction::Slt => "slt"@,
        Instruction::Sltu => "sltu"@,
        Instruction::Xor => "xor"@,
        Instruction::Srl => "srl"@,
        Instruction::Sra => "sra"@,
        Instruction::Or => "or"@,
        Instruction::And => "and"@,
        Instruction::Fence => "fence"@,
        Instruction::FenceI => "fence.i"@,
        Instruction::Ecall => "ecall"@,
        Instruction::Ebreak => "ebreak"@,
        Instruction::Csrrw => "csrrw"@,
        Instruction::Csrrs => "csrrs"@,
        Instruction::Csrrc => "csrrc"@,
        Instruction::Csrrwi => "csrrwi"@,
        Instruction::Csrrsi => "csrrsi"@,
        Instruction::Csrrci => "csrrci"@,
    }
}

impl Instruction {
    /// The assembler mnemonic of the instruction.
    pub fn name(&self) -> (r: &'static str)
        ensures
            r@ == mnemonic(*self),
    {
        match self {
            Instruction::Lui => "lui",
            Instruction::Auipc => "auipc",
            Instruction::Jal => "jal",
            Instruction::Jalr => "jalr",
            Instruction::Beq => "beq",
            Instruction::Bne => "bne",
            Instruction::Blt => "blt",
            Instruction::Bge => "bge",
            Instruction::Bltu => "bltu",
            Instruction::Bgeu => "bgeu",
            Instruction::Lb => "lb",
            Instruction::Lh => "lh",
            Instruction::Lw => "lw",
            Instruction::Ld => "ld",
            Instruction::Lbu => "lbu",
            Instruction::Lhu => "lhu",
            Instruction::Lwu => "lwu",
            Instruction::Sb => "sb",
            Instruction::Sh => "sh",
            Instruction::Sw => "sw",
            Instruction::Sd => "sd",
            Instruction::Addi => "addi",
            Instruction::Slti => "slti",
            Instruction::Sltiu => "sltiu",
            Instruction::Xori => "xori",
            Instruction::Ori => "ori",
            Instruction::Andi => "andi",
            Instruction::Slli => "slli",
            Instruction::Srli => "srli",
            Instruction::Srai => "srai",
            Instruction::Add => "add",
            Instruction::Sub => "sub",
            Instruction::Sll => "sll",
            Instruction::Slt => "slt",
            Instruction::Sltu => "sltu",
            Instruction::Xor => "xor",
            Instruction::Srl => "srl",
            Instruction::Sra => "sra",
            Instruction::Or => "or",
            Instruction::And => "and",
            Instruction::Fence => "fence",
            Instruction::FenceI => "fence.i",
            Instruction::Ecall => "ecall",
            Instruction::Ebreak => "ebreak",
            Instruction::Csrrw => "csrrw",
            Instruction::Csrrs => "csrrs",
            Instruction::Csrrc => "csrrc",
            Instruction::Csrrwi => "csrrwi",
            Instruction::Csrrsi => "csrrsi",
            Instruction::Csrrci => "csrrci",
        }
    }
}

/// The mnemonic of the instruction that `instr` holds, or the decode fault.
pub fn get_instr_name(instr: u32) -> (r: Result<&'static str, Fault>)
    ensures
        match decoded(instr) {
            Ok(k) => r is Ok && r->Ok_0@ == mnemonic(k),
            Err(f) => r == Err::<&'static str, Fault>(f),
        },
{
    match decode(instr) {
        Ok(k) => Ok(k.name()),
        Err(f) => Err(f),
    }
}

/// The I-type word with immediate `imm` (taken modulo `2^12`) and the given
/// register and function fields.
pub open spec fn i_type_word(imm: int, rs1: nat, funct3: nat, rd: nat, opcode: nat) -> int {
    (imm % 4096) * 0x10_0000 + rs1 * 0x8000 + funct3 * 0x1000 + rd * 0x80 + opcode
}

/// Encodes an I-type instruction.
pub fn encode_i(imm: i32, rs1: u32, funct3: u32, rd: u32, opcode: u32) -> (r: u32)
    requires
        -2048 <= imm < 2048,
        rs1 < 32,
        funct3 < 8,
        rd < 32,
        opcode < 128,
    ensures
        r == i_type_word(imm as int, rs1 as nat, funct3 as nat, rd as nat, opcode as nat),
{
    let field: u32 = if imm < 0 {
        (imm + 4096) as u32
    } else {
        imm as u32
    };
    field * 0x10_0000 + rs1 * 0x8000 + funct3 * 0x1000 + rd * 0x80 + opcode
}

/// Encoding an immediate in `-2048 .. 2048` into an I-type word and decoding
/// the word gives the immediate back, and every other field as it was given.
pub proof fn lemma_i_type_round_trip(imm: int, rs1: nat, funct3: nat, rd: nat, opcode: nat)
    requires
        -2048 <= imm < 2048,
        rs1 < 32,
        funct3 < 8,
        rd < 32,
        opcode < 128,
    ensures
        0 <= i_type_word(imm, rs1, funct3, rd, opcode) <= u32::MAX,
        i_imm(i_type_word(imm, rs1, funct3, rd, opcode) as u32) == imm,
        bits(i_type_word(imm, rs1, funct3, rd, opcode) as u32, 15, 5) == rs1,
        bits(i_type_word(imm, rs1, funct3, rd, opcode) as u32, 12, 3) == funct3,
        bits(i_type_word(imm, rs1, funct3, rd, opcode) as u32, 7, 5) == rd,
        bits(i_type_word(imm, rs1, funct3, rd, opcode) as u32, 0, 7) == opcode,
{
    let field = imm % 4096;
    let w = i_type_word(imm, rs1, funct3, rd, opcode);
    assert(field == if imm < 0 { imm + 4096 } else { imm });
    lemma2_to64();
    reveal(bits);
    let below_imm = rs1 * 0x8000 + funct3 * 0x1000 + rd * 0x80 + opcode;
    let below_f3 = rd * 0x80 + opcode;
    vstd::arithmetic::div_mod::lemma_div_multiples_vanish_fancy(field, below_imm as int, 0x10_0000);
    vstd::arithmetic::div_mod::lemma_small_mod(field as nat, 4096);
    assert(w / 0x8000 == field * 32 + rs1) by (nonlinear_arith)
        requires
            w == field * 0x10_0000 + rs1 * 0x8000 + funct3 * 0x1000 + below_f3,
            0 <= funct3 * 0x1000 + below_f3 < 0x8000,
    ;
    assert((field * 32 + rs1) % 32 == rs1) by (nonlinear_arith)
        requires 0 <= rs1 < 32, field >= 0,
    ;
    assert(w / 0x1000 == (field * 32 + rs1) * 8 + funct3) by (nonlinear_arith)
        requires
            w == field * 0x10_0000 + rs1 * 0x8000 + funct3 * 0x1000 + below_f3,
            0 <= below_f3 < 0x1000,
    ;
    assert(((field * 32 + rs1) * 8 + funct3) % 8 == funct3) by (nonlinear_arith)
        requires 0 <= funct3 < 8, field >= 0, rs1 >= 0,
    ;
    assert(w / 0x80 == ((field * 32 + rs1) * 8 + funct3) * 32 + rd) by (nonlinear_arith)
        requires
            w == field * 0x10_0000 + rs1 * 0x8000 + funct3 * 0x1000 + rd * 0x80 + opcode,
            0 <= opcode < 0x80,
    ;
    assert((((field * 32 + rs1) * 8 + funct3) * 32 + rd) % 32 == rd) by (nonlinear_arith)
        requires 0 <= rd < 32, field >= 0, rs1 >= 0, funct3 >= 0,
    ;
    assert(w % 128 == opcode) by (nonlinear_arith)
        requires
            w == ((field * 32 + rs1) * 8 + funct3) * 32 * 0x80 + rd * 0x80 + opcode,
            0 <= opcode < 0x80, field >= 0, rs1 >= 0, funct3 >= 0, rd >= 0,
    ;
}

} // verus!
