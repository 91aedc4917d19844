//! The hart: its state, the semantics of every instruction, and the
//! fetch-decode-execute-advance cycle.
use vstd::prelude::*;

use crate::fault::Fault;
use crate::memory::{self, read_spec, write_spec, BUS, MEM_BASE, MEM_SIZE};
use crate::opcode::{
    b_imm, bits, decode, decoded, encodes, i_imm, imm_b, imm_i, imm_j, imm_s, imm_u, j_imm, rd,
    rs1, rs2, s_imm, shamt, signed, signed_word, u_imm, word, Instruction, BEQ, B_TYPE, JAL,
};
use crate::registers::{reg_value, XREGS};

verus! {

/// What the architecture sees of a hart: the register slots, the program
/// counter and the bytes of the bus.
pub struct HartState {
    pub regs: Seq<u32>,
    pub pc: u32,
    pub mem: Seq<u8>,
}

/// One simulated hart: its register file, program counter and memory bus.
#[derive(Debug)]
pub struct CPU {
    pub xregs: XREGS,
    pub pc: u32,
    pub bus: BUS,
}

impl View for CPU {
    type V = HartState;

    open spec fn view(&self) -> HartState {
        HartState { regs: self.xregs.regs@, pc: self.pc, mem: self.bus@ }
    }
}

/// The slot of the first source register of `w`.
pub open spec fn src1(s: HartState, w: u32) -> u32 {
    s.regs[bits(w, 15, 5) as int]
}

/// The slot of the second source register of `w`.
pub open spec fn src2(s: HartState, w: u32) -> u32 {
    s.regs[bits(w, 20, 5) as int]
}

/// `s` with `v` written to the destination register of `w`.
pub open spec fn write_rd(s: HartState, w: u32, v: u32) -> HartState {
    HartState { regs: s.regs.update(bits(w, 7, 5) as int, v), ..s }
}

/// Arithmetic right shift: `a` shifted right by `n`, with copies of its sign
/// bit shifted in from the left.
pub open spec fn sra(a: u32, n: u32) -> u32 {
    if a < 0x8000_0000 {
        a >> n
    } else {
        !(!a >> n)
    }
}

/// `1` if `c` holds, else `0`.
pub open spec fn flag(c: bool) -> u32 {
    if c {
        1
    } else {
        0
    }
}

/// The value of register-immediate and register-register operations.
pub open spec fn alu_value(k: Instruction, s: HartState, w: u32) -> u32 {
    let a = src1(s, w);
    let b = src2(s, w);
    let imm = i_imm(w);
    let sh = bits(w, 20, 5) as u32;
    match k {
        Instruction::Lui => word(u_imm(w)),
        Instruction::Auipc => word(s.pc + u_imm(w)),
        Instruction::Addi => word(a + imm),
        Instruction::Slti => flag(signed_word(a) < imm),
        Instruction::Sltiu => flag(a < word(imm)),
        Instruction::Xori => a ^ word(imm),
        Instruction::Ori => a | word(imm),
        Instruction::Andi => a & word(imm),
        Instruction::Slli => a << sh,
        Instruction::Srli => a >> sh,
        Instruction::Srai => sra(a, sh),
        Instruction::Add => word(a + b),
        Instruction::Sub => word(a - b),
        Instruction::Sll => a << (b % 32),
        Instruction::Slt => flag(signed_word(a) < signed_word(b)),
        Instruction::Sltu => flag(a < b),
        Instruction::Xor => a ^ b,
        Instruction::Srl => a >> (b % 32),
        Instruction::Sra => sra(a, b % 32),
        Instruction::Or => a | b,
        Instruction::And => a & b,
        _ => 0,
    }
}

/// Whether a conditional branch is taken on the operands `a` and `b`.
pub open spec fn branch_taken(k: Instruction, a: u32, b: u32) -> bool {
    match k {
        Instruction::Beq => a == b,
        Instruction::Bne => a != b,
        Instruction::Blt => signed_word(a) < signed_word(b),
        Instruction::Bge => signed_word(a) >= signed_word(b),
        Instruction::Bltu => a < b,
        Instruction::Bgeu => a >= b,
        _ => false,
    }
}

/// Bytes read by a load, or written by a store.
pub open spec fn access_bytes(k: Instruction) -> nat {
    match k {
        Instruction::Lb | Instruction::Lbu | Instruction::Sb => 1,
        Instruction::Lh | Instruction::Lhu | Instruction::Sh => 2,
        Instruction::Lw | Instruction::Lwu | Instruction::Sw => 4,
        _ => 8,
    }
}

/// The register value of a load that read `v`: sign-extended from the access
/// width for the signed loads, zero-extended for the others, and cut to the
/// low 32 bits where the access is wider than a register.
pub open spec fn loaded_value(k: Instruction, v: nat) -> u32 {
    match k {
        Instruction::Lb | Instruction::Lh | Instruction::Lw | Instruction::Ld => word(
            signed(v, 8 * access_bytes(k)),
        ),
        _ => word(v as int),
    }
}

/// The effect of executing `k`, held in the word `w`, on `s`: the new state
/// and whether the instruction set the program counter itself, or the fault.
pub open spec fn execute_spec(k: Instruction, s: HartState, w: u32) -> Result<(HartState, bool), Fault> {
    match k {
        Instruction::Jal => Ok(
            (HartState { pc: word(s.pc + j_imm(w)), ..write_rd(s, w, word(s.pc + 4)) }, true),
        ),
        Instruction::Jalr => {
            let target = word(src1(s, w) + i_imm(w));
            Ok((HartState { pc: (target - target % 2) as u32, ..write_rd(s, w, word(s.pc + 4)) }, true))
        },
        Instruction::Beq | Instruction::Bne | Instruction::Blt | Instruction::Bge | Instruction::Bltu
        | Instruction::Bgeu => if branch_taken(k, src1(s, w), src2(s, w)) {
            Ok((HartState { pc: word(s.pc + b_imm(w)), ..s }, true))
        } else {
            Ok((s, false))
        },
        Instruction::Lb | Instruction::Lh | Instruction::Lw | Instruction::Ld | Instruction::Lbu
        | Instruction::Lhu | Instruction::Lwu => {
            let addr = word(src1(s, w) + i_imm(w));
            match read_spec(s.mem, addr, access_bytes(k)) {
                Some(v) => Ok((write_rd(s, w, loaded_value(k, v)), false)),
                None => Err(Fault::Memory(addr)),
            }
        },
        Instruction::Sb | Instruction::Sh | Instruction::Sw | Instruction::Sd => {
            let addr = word(src1(s, w) + s_imm(w));
            match write_spec(s.mem, addr, access_bytes(k), src2(s, w) as nat) {
                Some(m) => Ok((HartState { mem: m, ..s }, false)),
                None => Err(Fault::Memory(addr)),
            }
        },
        Instruction::Fence | Instruction::FenceI | Instruction::Ecall | Instruction::Ebreak => Ok(
            (s, false),
        ),
        Instruction::Csrrw | Instruction::Csrrs | Instruction::Csrrc | Instruction::Csrrwi
        | Instruction::Csrrsi | Instruction::Csrrci => Err(Fault::Unimplemented(w)),
        _ => Ok((write_rd(s, w, alu_value(k, s, w)), false)),
    }
}

/// Executing `k` from `before` ends in `after`, with `jumped` telling whether
/// the instruction set the program counter.
pub open spec fn completes(k: Instruction, before: HartState, w: u32, after: HartState, jumped: bool) -> bool {
    execute_spec(k, before, w) == Ok::<(HartState, bool), Fault>((after, jumped))
}

/// A handler that can fault returned `r` and left `after`: the new state on
/// success, or the fault with the state untouched.
pub open spec fn handled(k: Instruction, before: HartState, w: u32, after: HartState, r: Result<(), Fault>) -> bool {
    match execute_spec(k, before, w) {
        Ok((t, _)) => r is Ok && after == t,
        Err(f) => r == Err::<(), Fault>(f) && after == before,
    }
}


/// `s` with register slot 0 cleared, as the dispatcher does before every instruction.
pub open spec fn clear_x0(s: HartState) -> HartState {
    HartState { regs: s.regs.update(0, 0u32), ..s }
}

/// The word at the program counter, or the memory fault.
pub open spec fn fetch_spec(s: HartState) -> Result<u32, Fault> {
    match read_spec(s.mem, s.pc, 4) {
        Some(v) => Ok(v as u32),
        None => Err(Fault::Memory(s.pc)),
    }
}

/// One cycle on the word `w`: decode it, clear slot 0, run the handler, and
/// advance the program counter by 4 unless the handler set it. A decode fault
/// leaves the hart as it was; a fault of the handler leaves it with slot 0
/// cleared.
pub open spec fn cycle_spec(s: HartState, w: u32) -> (HartState, Result<Instruction, Fault>) {
    match decoded(w) {
        Err(f) => (s, Err(f)),
        Ok(k) => match execute_spec(k, clear_x0(s), w) {
            Err(f) => (clear_x0(s), Err(f)),
            Ok((t, jumped)) => (
                if jumped {
                    t
                } else {
                    HartState { pc: word(t.pc + 4), ..t }
                },
                Ok(k),
            ),
        },
    }
}

/// One step: fetch the word at the program counter, then run a cycle on it.
/// A fetch fault leaves the hart as it was.
pub open spec fn step_spec(s: HartState) -> (HartState, Result<Instruction, Fault>) {
    match fetch_spec(s) {
        Err(f) => (s, Err(f)),
        Ok(w) => cycle_spec(s, w),
    }
}

/// Up to `n` steps from `s`, stopping at the first fault: the state reached,
/// the number of steps that completed, and the fault, if one stopped the run.
pub open spec fn run_spec(s: HartState, n: nat) -> (HartState, nat, Option<Fault>)
    decreases n,
{
    if n == 0 {
        (s, 0, None)
    } else {
        match step_spec(s).1 {
            Err(f) => (step_spec(s).0, 0, Some(f)),
            Ok(_) => {
                let rest = run_spec(step_spec(s).0, (n - 1) as nat);
                (rest.0, (rest.1 + 1) as nat, rest.2)
            },
        }
    }
}

/// A cycle on a JAL whose destination is x5 and whose offset is 12, from any
/// program counter `P`: x5 receives `P + 4` and the program counter becomes
/// `P + 12`, with no further advance.
pub proof fn lemma_jal_links_and_jumps(s: HartState, w: u32)
    requires
        s.regs.len() == 32,
        bits(w, 0, 7) == JAL,
        bits(w, 7, 5) == 5,
        j_imm(w) == 12,
    ensures
        cycle_spec(s, w).1 == Ok::<Instruction, Fault>(Instruction::Jal),
        cycle_spec(s, w).0.regs[5] == word(s.pc + 4),
        cycle_spec(s, w).0.pc == word(s.pc + 12),
{
    assert(encodes(Instruction::Jal, w));
    assert forall|k: Instruction| encodes(k, w) implies k == Instruction::Jal by {}
    assert(decoded(w) == Ok::<Instruction, Fault>(Instruction::Jal)) by {
        let c = choose|k: Instruction| encodes(k, w);
        assert(encodes(c, w));
    }
}

/// A cycle on a BEQ with offset 12 at program counter 500 ends at 512 when
/// the two source registers read equal, and at 504 when they do not.
pub proof fn lemma_beq_target(s: HartState, w: u32)
    requires
        s.regs.len() == 32,
        bits(w, 0, 7) == B_TYPE,
        bits(w, 12, 3) == BEQ,
        b_imm(w) == 12,
        s.pc == 500,
    ensures
        cycle_spec(s, w).1 == Ok::<Instruction, Fault>(Instruction::Beq),
        cycle_spec(s, w).0.pc == if reg_value(s.regs, bits(w, 15, 5) as u32) == reg_value(
            s.regs,
            bits(w, 20, 5) as u32,
        ) {
            512u32
        } else {
            504u32
        },
{
    assert(encodes(Instruction::Beq, w));
    assert forall|k: Instruction| encodes(k, w) implies k == Instruction::Beq by {}
    assert(decoded(w) == Ok::<Instruction, Fault>(Instruction::Beq)) by {
        let c = choose|k: Instruction| encodes(k, w);
        assert(encodes(c, w));
    }
    let z = clear_x0(s);
    crate::opcode::lemma_field_ranges(w);
    assert(src1(z, w) == reg_value(s.regs, bits(w, 15, 5) as u32));
    assert(src2(z, w) == reg_value(s.regs, bits(w, 20, 5) as u32));
}

/// Adding a number held as a machine word wraps as adding the number.
proof fn lemma_add_word(a: u32, i: int)
    ensures
        word(a + word(i)) == word(a + i),
{
    vstd::arithmetic::div_mod::lemma_add_mod_noop(a as int, i, 0x1_0000_0000);
    vstd::arithmetic::div_mod::lemma_mod_twice(a as int, 0x1_0000_0000);
}

/// `a + b` modulo `2^32`.
fn add_word(a: u32, b: u32) -> (r: u32)
    ensures
        r == word(a + b),
{
    a.wrapping_add(b)
}

/// Writes `v` to the slot of the destination register of `instr`.
fn write_reg(cpu: &mut CPU, instr: u32, v: u32)
    ensures
        final(cpu)@ == write_rd(old(cpu)@, instr, v),
{
    let d = rd(instr);
    cpu.xregs.regs[d as usize] = v;
}

/// An `i32` reinterpreted as a machine word.
proof fn lemma_i32_as_word(x: i32)
    ensures
        x as u32 == word(x as int),
{
    assert(x >= 0 ==> x as u32 == x as int) by (bit_vector);
    assert(x < 0 ==> x as u32 == x as int + 0x1_0000_0000) by (bit_vector);
}

/// Shifting the `i32` reading of a word right is an arithmetic shift.
proof fn lemma_sra(a: u32, n: u32)
    requires
        n < 32,
    ensures
        ((a as i32) >> n) as u32 == sra(a, n),
{
    assert(n < 32 ==> ((a as i32) >> n) as u32 == if a < 0x8000_0000 { a >> n } else { !(!a >> n) })
        by (bit_vector);
}

/// The low 32 bits of a 64-bit value.
proof fn lemma_u64_low_word(v: u64)
    ensures
        v as u32 == word(v as int),
        v as u32 == word(signed(v as nat, 64)),
{
    assert(v as u32 == v % 0x1_0000_0000) by (bit_vector);
    vstd::arithmetic::power2::lemma2_to64();
    vstd::arithmetic::div_mod::lemma_mod_sub_multiples_vanish(v as int, 0x1_0000_0000);
    assert(0x1_0000_0000_0000_0000int == 0x1_0000_0000int * 0x1_0000_0000int);
    vstd::arithmetic::div_mod::lemma_mod_multiples_vanish(-0x1_0000_0000, v as int, 0x1_0000_0000);
}

/// The slots of the two source registers of `instr`.
fn src_values(cpu: &CPU, instr: u32) -> (r: (u32, u32))
    ensures
        r == (src1(cpu@, instr), src2(cpu@, instr)),
{
    (cpu.xregs.regs[rs1(instr) as usize], cpu.xregs.regs[rs2(instr) as usize])
}

/// The I-immediate as a machine word.
fn imm_i_word(instr: u32) -> (r: u32)
    ensures
        r == word(i_imm(instr)),
{
    let imm = imm_i(instr);
    proof {
        lemma_i32_as_word(imm);
    }
    imm as u32
}

/// Completes an instruction whose only effect is to write `v`, its result, to
/// the destination register.
fn write_alu(cpu: &mut CPU, instr: u32, k: Instruction, v: u32)
    requires
        v == alu_value(k, old(cpu)@, instr),
        execute_spec(k, old(cpu)@, instr) == Ok::<(HartState, bool), Fault>(
            (write_rd(old(cpu)@, instr, alu_value(k, old(cpu)@, instr)), false),
        ),
    ensures
        completes(k, old(cpu)@, instr, final(cpu)@, false),
{
    write_reg(cpu, instr, v);
}

/// Sets the program counter to the branch target where `taken` holds.
fn branch(cpu: &mut CPU, instr: u32, taken: bool) -> (r: bool)
    ensures
        r == taken,
        final(cpu)@ == if taken {
            HartState { pc: word(old(cpu)@.pc + b_imm(instr)), ..old(cpu)@ }
        } else {
            old(cpu)@
        },
{
    if taken {
        proof {
            lemma_add_word(cpu.pc, b_imm(instr));
        }
        cpu.pc = add_word(cpu.pc, imm_b(instr));
    }
    taken
}

/// Runs the load `k`: reads at `rs1` plus the I-immediate and writes the
/// extended value to the destination register.
fn exec_load(cpu: &mut CPU, instr: u32, k: Instruction) -> (r: Result<(), Fault>)
    requires
        k is Lb || k is Lh || k is Lw || k is Ld || k is Lbu || k is Lhu || k is Lwu,
    ensures
        handled(k, old(cpu)@, instr, final(cpu)@, r),
{
    let width: u32 = match k {
        Instruction::Lb | Instruction::Lbu => 8,
        Instruction::Lh | Instruction::Lhu => 16,
        Instruction::Lw | Instruction::Lwu => 32,
        _ => 64,
    };
    let (a, _) = src_values(cpu, instr);
    proof {
        lemma_add_word(a, i_imm(instr));
        vstd::arithmetic::power2::lemma2_to64();
    }
    let addr = add_word(a, imm_i_word(instr));
    let v = match cpu.bus.load(addr, width) {
        Ok(v) => v,
        Err(f) => return Err(f),
    };
    proof {
        let n = width as nat / 8;
        let off = addr - MEM_BASE;
        cpu.bus.lemma_len();
        memory::lemma_le_value_bound(cpu.bus@.subrange(off as int, off + n));
        memory::lemma_radix_values();
        lemma_u64_low_word(v);
        assert(v < memory::byte_radix(n));
        if width < 64 {
            vstd::arithmetic::div_mod::lemma_small_mod(v as nat, 0x1_0000_0000);
            assert(v as u32 == v);
        }
        if width == 32 {
            vstd::arithmetic::div_mod::lemma_mod_sub_multiples_vanish(v as int, 0x1_0000_0000);
            assert(word(signed(v as nat, 32)) == v);
        }
    }
    let value: u32 = match k {
        Instruction::Lb | Instruction::Lh => crate::opcode::sign_extend(v as u32, width),
        _ => v as u32,
    };
    write_reg(cpu, instr, value);
    Ok(())
}

/// Runs the store `k`: writes the low bytes of `rs2` at `rs1` plus the
/// S-immediate.
fn exec_store(cpu: &mut CPU, instr: u32, k: Instruction) -> (r: Result<(), Fault>)
    requires
        k is Sb || k is Sh || k is Sw || k is Sd,
    ensures
        handled(k, old(cpu)@, instr, final(cpu)@, r),
{
    let width: u32 = match k {
        Instruction::Sb => 8,
        Instruction::Sh => 16,
        Instruction::Sw => 32,
        _ => 64,
    };
    let (a, b) = src_values(cpu, instr);
    proof {
        lemma_add_word(a, s_imm(instr));
    }
    let addr = add_word(a, imm_s(instr));
    cpu.bus.store(addr, width, b as u64)
}

impl CPU {
    /// A hart at reset: every register zero but the stack pointer (x2), which
    /// holds the address just past memory; the program counter at the start
    /// of memory; memory all zero.
    pub fn new() -> (cpu: CPU)
        ensures
            cpu@.regs == Seq::new(32, |i: int| if i == 2 { (MEM_BASE + MEM_SIZE) as u32 } else { 0u32 }),
            cpu@.pc == MEM_BASE,
            cpu@.mem == Seq::new(MEM_SIZE as nat, |i: int| 0u8),
    {
        let mut cpu = CPU { xregs: XREGS::new(), pc: MEM_BASE, bus: BUS::new() };
        cpu.xregs.regs[2] = MEM_BASE + MEM_SIZE;
        assert(cpu@.regs =~= Seq::new(32, |i: int| if i == 2 { (MEM_BASE + MEM_SIZE) as u32 } else { 0u32 }));
        cpu
    }

    /// Runs the handler of `k` on the word `instr`; tells whether it set the
    /// program counter.
    fn dispatch(&mut self, k: Instruction, instr: u32) -> (r: Result<bool, Fault>)
        ensures
            match execute_spec(k, old(self)@, instr) {
                Ok((t, jumped)) => r == Ok::<bool, Fault>(jumped) && final(self)@ == t,
                Err(f) => r == Err::<bool, Fault>(f) && final(self)@ == old(self)@,
            },
    {
        match k {
            Instruction::Lui => {
                exec_lui(self, instr);
                Ok(false)
            },
            Instruction::Auipc => {
                exec_auipc(self, instr);
                Ok(false)
            },
            Instruction::Jal => {
                exec_jal(self, instr);
                Ok(true)
            },
            Instruction::Jalr => {
                exec_jalr(self, instr);
                Ok(true)
            },
            Instruction::Beq => Ok(exec_beq(self, instr)),
            Instruction::Bne => Ok(exec_bne(self, instr)),
            Instruction::Blt => Ok(exec_blt(self, instr)),
            Instruction::Bge => Ok(exec_bge(self, instr)),
            Instruction::Bltu => Ok(exec_bltu(self, instr)),
            Instruction::Bgeu => Ok(exec_bgeu(self, instr)),
            Instruction::Lb => match exec_lb(self, instr) {
                Ok(()) => Ok(false),
                Err(f) => Err(f),
            },
            Instruction::Lh => match exec_lh(self, instr) {
                Ok(()) => Ok(false),
                Err(f) => Err(f),
            },
            Instruction::Lw => match exec_lw(self, instr) {
                Ok(()) => Ok(false),
                Err(f) => Err(f),
            },
            Instruction::Ld => match exec_ld(self, instr) {
                Ok(()) => Ok(false),
                Err(f) => Err(f),
            },
            Instruction::Lbu => match exec_lbu(self, instr) {
                Ok(()) => Ok(false),
                Err(f) => Err(f),
            },
            Instruction::Lhu => match exec_lhu(self, instr) {
                Ok(()) => Ok(false),
                Err(f) => Err(f),
            },
            Instruction::Lwu => match exec_lwu(self, instr) {
                Ok(()) => Ok(false),
                Err(f) => Err(f),
            },
            Instruction::Sb => match exec_sb(self, instr) {
                Ok(()) => Ok(false),
                Err(f) => Err(f),
            },
            Instruction::Sh => match exec_sh(self, instr) {
                Ok(()) => Ok(false),
                Err(f) => Err(f),
            },
            Instruction::Sw => match exec_sw(self, instr) {
                Ok(()) => Ok(false),
                Err(f) => Err(f),
            },
            Instruction::Sd => match exec_sd(self, instr) {
                Ok(()) => Ok(false),
                Err(f) => Err(f),
            },
            Instruction::Addi => {
                exec_addi(self, instr);
                Ok(false)
            },
            Instruction::Slti => {
                exec_slti(self, instr);
                Ok(false)
            },
            Instruction::Sltiu => {
                exec_sltiu(self, instr);
                Ok(false)
            },
            Instruction::Xori => {
                exec_xori(self, instr);
                Ok(false)
            },
            Instruction::Ori => {
                exec_ori(self, instr);
                Ok(false)
            },
            Instruction::Andi => {
                exec_andi(self, instr);
                Ok(false)
            },
            Instruction::Slli => {
                exec_slli(self, instr);
                Ok(false)
            },
            Instruction::Srli => {
                exec_srli(self, instr);
                Ok(false)
            },
            Instruction::Srai => {
                exec_srai(self, instr);
                Ok(false)
            },
            Instruction::Add => {
                exec_add(self, instr);
                Ok(false)
            },
            Instruction::Sub => {
                exec_sub(self, instr);
                Ok(false)
            },
            Instruction::Sll => {
                exec_sll(self, instr);
                Ok(false)
            },
            Instruction::Slt => {
                exec_slt(self, instr);
                Ok(false)
            },
            Instruction::Sltu => {
                exec_sltu(self, instr);
                Ok(false)
            },
            Instruction::Xor => {
                exec_xor(self, instr);
                Ok(false)
            },
            Instruction::Srl => {
                exec_srl(self, instr);
                Ok(false)
            },
            Instruction::Sra => {
                exec_sra(self, instr);
                Ok(false)
            },
            Instruction::Or => {
                exec_or(self, instr);
                Ok(false)
            },
            Instruction::And => {
                exec_and(self, instr);
                Ok(false)
            },
            Instruction::Fence => {
                exec_fence(self, instr);
                Ok(false)
            },
            Instruction::FenceI => {
                exec_fence_i(self, instr);
                Ok(false)
            },
            Instruction::Ecall => {
                exec_ecall(self, instr);
                Ok(false)
            },
            Instruction::Ebreak => {
                exec_ebreak(self, instr);
                Ok(false)
            },
            Instruction::Csrrw => match exec_csrrw(self, instr) {
                Ok(()) => Ok(false),
                Err(f) => Err(f),
            },
            Instruction::Csrrs => match exec_csrrs(self, instr) {
                Ok(()) => Ok(false),
                Err(f) => Err(f),
            },
            Instruction::Csrrc => match exec_csrrc(self, instr) {
                Ok(()) => Ok(false),
                Err(f) => Err(f),
            },
            Instruction::Csrrwi => match exec_csrrwi(self, instr) {
                Ok(()) => Ok(false),
                Err(f) => Err(f),
            },
            Instruction::Csrrsi => match exec_csrrsi(self, instr) {
                Ok(()) => Ok(false),
                Err(f) => Err(f),
            },
            Instruction::Csrrci => match exec_csrrci(self, instr) {
                Ok(()) => Ok(false),
                Err(f) => Err(f),
            },
        }
    }

    /// Fetches the 32-bit little-endian word at the program counter.
    pub fn fetch(&self) -> (r: Result<u32, Fault>)
        ensures
            r == fetch_spec(self@),
    {
        match self.bus.load(self.pc, 32) {
            Ok(v) => {
                proof {
                    let off = self.pc - MEM_BASE;
                    self.bus.lemma_len();
                    memory::lemma_le_value_bound(self@.mem.subrange(off as int, off + 4));
                    memory::lemma_radix_values();
                    lemma_u64_low_word(v);
                    vstd::arithmetic::div_mod::lemma_small_mod(v as nat, 0x1_0000_0000);
                }
                Ok(v as u32)
            },
            Err(f) => Err(f),
        }
    }

    /// Runs one cycle on the word `instr`: decodes it, clears register slot 0,
    /// runs the handler and advances the program counter by 4 unless the
    /// handler set it. Returns the decoded instruction, or the fault.
    pub fn execute(&mut self, instr: u32) -> (r: Result<Instruction, Fault>)
        ensures
            (final(self)@, r) == cycle_spec(old(self)@, instr),
    {
        let k = match decode(instr) {
            Ok(k) => k,
            Err(f) => return Err(f),
        };
        self.xregs.regs[0] = 0;
        match self.dispatch(k, instr) {
            Ok(jumped) => {
                if !jumped {
                    self.pc = add_word(self.pc, 4);
                }
                Ok(k)
            },
            Err(f) => Err(f),
        }
    }

    /// Runs one fetch-decode-execute-advance cycle. Returns the decoded
    /// instruction, or the fault that stopped it.
    pub fn step(&mut self) -> (r: Result<Instruction, Fault>)
        ensures
            (final(self)@, r) == step_spec(old(self)@),
    {
        match self.fetch() {
            Ok(w) => self.execute(w),
            Err(f) => Err(f),
        }
    }


    /// Steps until `max_steps` steps have completed or a step faults. Returns
    /// the number of completed steps and the fault that stopped the run, if any.
    pub fn run(&mut self, max_steps: u64) -> (r: (u64, Option<Fault>))
        ensures
            run_spec(old(self)@, max_steps as nat) == (final(self)@, r.0 as nat, r.1),
    {
        let mut done: u64 = 0;
        while done < max_steps
            invariant
                done <= max_steps,
                run_spec(old(self)@, max_steps as nat) == ({
                    let rest = run_spec(self@, (max_steps - done) as nat);
                    (rest.0, (rest.1 + done) as nat, rest.2)
                }),
            decreases max_steps - done,
        {
            match self.step() {
                Ok(_) => {
                    done = done + 1;
                },
                Err(f) => {
                    return (done, Some(f));
                },
            }
        }
        (done, None)
    }

}

// RV32I: one handler per instruction. Each takes the hart and the instruction
// word, and reads the register slots as they stand: the dispatcher clears
// slot 0 before it calls one.

pub fn exec_lui(cpu: &mut CPU, instr: u32)
    ensures
        completes(Instruction::Lui, old(cpu)@, instr, final(cpu)@, false),
{
    write_alu(cpu, instr, Instruction::Lui, imm_u(instr));
}

pub fn exec_auipc(cpu: &mut CPU, instr: u32)
    ensures
        completes(Instruction::Auipc, old(cpu)@, instr, final(cpu)@, false),
{
    proof {
        lemma_add_word(cpu.pc, u_imm(instr));
    }
    let v = add_word(cpu.pc, imm_u(instr));
    write_alu(cpu, instr, Instruction::Auipc, v);
}

pub fn exec_jal(cpu: &mut CPU, instr: u32)
    ensures
        completes(Instruction::Jal, old(cpu)@, instr, final(cpu)@, true),
{
    let pc = cpu.pc;
    proof {
        lemma_add_word(pc, j_imm(instr));
    }
    write_reg(cpu, instr, add_word(pc, 4));
    cpu.pc = add_word(pc, imm_j(instr));
}

pub fn exec_jalr(cpu: &mut CPU, instr: u32)
    ensures
        completes(Instruction::Jalr, old(cpu)@, instr, final(cpu)@, true),
{
    let pc = cpu.pc;
    let (a, _) = src_values(cpu, instr);
    proof {
        lemma_add_word(a, i_imm(instr));
    }
    let target = add_word(a, imm_i_word(instr));
    write_reg(cpu, instr, add_word(pc, 4));
    assert(target & !1u32 == target - target % 2) by (bit_vector);
    cpu.pc = target & !1u32;
}

pub fn exec_beq(cpu: &mut CPU, instr: u32) -> (taken: bool)
    ensures
        completes(Instruction::Beq, old(cpu)@, instr, final(cpu)@, taken),
{
    let (a, b) = src_values(cpu, instr);
    branch(cpu, instr, a == b)
}

pub fn exec_bne(cpu: &mut CPU, instr: u32) -> (taken: bool)
    ensures
        completes(Instruction::Bne, old(cpu)@, instr, final(cpu)@, taken),
{
    let (a, b) = src_values(cpu, instr);
    branch(cpu, instr, a != b)
}

pub fn exec_blt(cpu: &mut CPU, instr: u32) -> (taken: bool)
    ensures
        completes(Instruction::Blt, old(cpu)@, instr, final(cpu)@, taken),
{
    let (a, b) = src_values(cpu, instr);
    proof {
        crate::opcode::lemma_signed_word(a);
        crate::opcode::lemma_signed_word(b);
    }
    branch(cpu, instr, (a as i32) < (b as i32))
}

pub fn exec_bge(cpu: &mut CPU, instr: u32) -> (taken: bool)
    ensures
        completes(Instruction::Bge, old(cpu)@, instr, final(cpu)@, taken),
{
    let (a, b) = src_values(cpu, instr);
    proof {
        crate::opcode::lemma_signed_word(a);
        crate::opcode::lemma_signed_word(b);
    }
    branch(cpu, instr, (a as i32) >= (b as i32))
}

pub fn exec_bltu(cpu: &mut CPU, instr: u32) -> (taken: bool)
    ensures
        completes(Instruction::Bltu, old(cpu)@, instr, final(cpu)@, taken),
{
    let (a, b) = src_values(cpu, instr);
    branch(cpu, instr, a < b)
}

pub fn exec_bgeu(cpu: &mut CPU, instr: u32) -> (taken: bool)
    ensures
        completes(Instruction::Bgeu, old(cpu)@, instr, final(cpu)@, taken),
{
    let (a, b) = src_values(cpu, instr);
    branch(cpu, instr, a >= b)
}

pub fn exec_lb(cpu: &mut CPU, instr: u32) -> (r: Result<(), Fault>)
    ensures
        handled(Instruction::Lb, old(cpu)@, instr, final(cpu)@, r),
{
    exec_load(cpu, instr, Instruction::Lb)
}

pub fn exec_lh(cpu: &mut CPU, instr: u32) -> (r: Result<(), Fault>)
    ensures
        handled(Instruction::Lh, old(cpu)@, instr, final(cpu)@, r),
{
    exec_load(cpu, instr, Instruction::Lh)
}

pub fn exec_lw(cpu: &mut CPU, instr: u32) -> (r: Result<(), Fault>)
    ensures
        handled(Instruction::Lw, old(cpu)@, instr, final(cpu)@, r),
{
    exec_load(cpu, instr, Instruction::Lw)
}

pub fn exec_ld(cpu: &mut CPU, instr: u32) -> (r: Result<(), Fault>)
    ensures
        handled(Instruction::Ld, old(cpu)@, instr, final(cpu)@, r),
{
    exec_load(cpu, instr, Instruction::Ld)
}

pub fn exec_lbu(cpu: &mut CPU, instr: u32) -> (r: Result<(), Fault>)
    ensures
        handled(Instruction::Lbu, old(cpu)@, instr, final(cpu)@, r),
{
    exec_load(cpu, instr, Instruction::Lbu)
}

pub fn exec_lhu(cpu: &mut CPU, instr: u32) -> (r: Result<(), Fault>)
    ensures
        handled(Instruction::Lhu, old(cpu)@, instr, final(cpu)@, r),
{
    exec_load(cpu, instr, Instruction::Lhu)
}

pub fn exec_lwu(cpu: &mut CPU, instr: u32) -> (r: Result<(), Fault>)
    ensures
        handled(Instruction::Lwu, old(cpu)@, instr, final(cpu)@, r),
{
    exec_load(cpu, instr, Instruction::Lwu)
}

pub fn exec_sb(cpu: &mut CPU, instr: u32) -> (r: Result<(), Fault>)
    ensures
        handled(Instruction::Sb, old(cpu)@, instr, final(cpu)@, r),
{
    exec_store(cpu, instr, Instruction::Sb)
}

pub fn exec_sh(cpu: &mut CPU, instr: u32) -> (r: Result<(), Fault>)
    ensures
        handled(Instruction::Sh, old(cpu)@, instr, final(cpu)@, r),
{
    exec_store(cpu, instr, Instruction::Sh)
}

pub fn exec_sw(cpu: &mut CPU, instr: u32) -> (r: Result<(), Fault>)
    ensures
        handled(Instruction::Sw, old(cpu)@, instr, final(cpu)@, r),
{
    exec_store(cpu, instr, Instruction::Sw)
}

pub fn exec_sd(cpu: &mut CPU, instr: u32) -> (r: Result<(), Fault>)
    ensures
        handled(Instruction::Sd, old(cpu)@, instr, final(cpu)@, r),
{
    exec_store(cpu, instr, Instruction::Sd)
}

pub fn exec_addi(cpu: &mut CPU, instr: u32)
    ensures
        completes(Instruction::Addi, old(cpu)@, instr, final(cpu)@, false),
{
    let (a, _) = src_values(cpu, instr);
    proof {
        lemma_add_word(a, i_imm(instr));
    }
    let v = add_word(a, imm_i_word(instr));
    write_alu(cpu, instr, Instruction::Addi, v);
}

pub fn exec_slti(cpu: &mut CPU, instr: u32)
    ensures
        completes(Instruction::Slti, old(cpu)@, instr, final(cpu)@, false),
{
    let (a, _) = src_values(cpu, instr);
    proof {
        crate::opcode::lemma_signed_word(a);
    }
    let v: u32 = if (a as i32) < imm_i(instr) {
        1
    } else {
        0
    };
    write_alu(cpu, instr, Instruction::Slti, v);
}

pub fn exec_sltiu(cpu: &mut CPU, instr: u32)
    ensures
        completes(Instruction::Sltiu, old(cpu)@, instr, final(cpu)@, false),
{
    let (a, _) = src_values(cpu, instr);
    let v: u32 = if a < imm_i_word(instr) {
        1
    } else {
        0
    };
    write_alu(cpu, instr, Instruction::Sltiu, v);
}

pub fn exec_xori(cpu: &mut CPU, instr: u32)
    ensures
        completes(Instruction::Xori, old(cpu)@, instr, final(cpu)@, false),
{
    let (a, _) = src_values(cpu, instr);
    let v = a ^ imm_i_word(instr);
    write_alu(cpu, instr, Instruction::Xori, v);
}

pub fn exec_ori(cpu: &mut CPU, instr: u32)
    ensures
        completes(Instruction::Ori, old(cpu)@, instr, final(cpu)@, false),
{
    let (a, _) = src_values(cpu, instr);
    let v = a | imm_i_word(instr);
    write_alu(cpu, instr, Instruction::Ori, v);
}

pub fn exec_andi(cpu: &mut CPU, instr: u32)
    ensures
        completes(Instruction::Andi, old(cpu)@, instr, final(cpu)@, false),
{
    let (a, _) = src_values(cpu, instr);
    let v = a & imm_i_word(instr);
    write_alu(cpu, instr, Instruction::Andi, v);
}

pub fn exec_slli(cpu: &mut CPU, instr: u32)
    ensures
        completes(Instruction::Slli, old(cpu)@, instr, final(cpu)@, false),
{
    let (a, _) = src_values(cpu, instr);
    let v = a << shamt(instr);
    write_alu(cpu, instr, Instruction::Slli, v);
}

pub fn exec_srli(cpu: &mut CPU, instr: u32)
    ensures
        completes(Instruction::Srli, old(cpu)@, instr, final(cpu)@, false),
{
    let (a, _) = src_values(cpu, instr);
    let v = a >> shamt(instr);
    write_alu(cpu, instr, Instruction::Srli, v);
}

pub fn exec_srai(cpu: &mut CPU, instr: u32)
    ensures
        completes(Instruction::Srai, old(cpu)@, instr, final(cpu)@, false),
{
    let (a, _) = src_values(cpu, instr);
    let n = shamt(instr);
    proof {
        lemma_sra(a, n);
    }
    let v = ((a as i32) >> n) as u32;
    write_alu(cpu, instr, Instruction::Srai, v);
}

pub fn exec_add(cpu: &mut CPU, instr: u32)
    ensures
        completes(Instruction::Add, old(cpu)@, instr, final(cpu)@, false),
{
    let (a, b) = src_values(cpu, instr);
    let v = a.wrapping_add(b);
    write_alu(cpu, instr, Instruction::Add, v);
}

pub fn exec_sub(cpu: &mut CPU, instr: u32)
    ensures
        completes(Instruction::Sub, old(cpu)@, instr, final(cpu)@, false),
{
    let (a, b) = src_values(cpu, instr);
    let v = a.wrapping_sub(b);
    write_alu(cpu, instr, Instruction::Sub, v);
}

pub fn exec_sll(cpu: &mut CPU, instr: u32)
    ensures
        completes(Instruction::Sll, old(cpu)@, instr, final(cpu)@, false),
{
    let (a, b) = src_values(cpu, instr);
    let v = a << (b % 32);
    write_alu(cpu, instr, Instruction::Sll, v);
}

pub fn exec_slt(cpu: &mut CPU, instr: u32)
    ensures
        completes(Instruction::Slt, old(cpu)@, instr, final(cpu)@, false),
{
    let (a, b) = src_values(cpu, instr);
    proof {
        crate::opcode::lemma_signed_word(a);
        crate::opcode::lemma_signed_word(b);
    }
    let v: u32 = if (a as i32) < (b as i32) {
        1
    } else {
        0
    };
    write_alu(cpu, instr, Instruction::Slt, v);
}

pub fn exec_sltu(cpu: &mut CPU, instr: u32)
    ensures
        completes(Instruction::Sltu, old(cpu)@, instr, final(cpu)@, false),
{
    let (a, b) = src_values(cpu, instr);
    let v: u32 = if a < b {
        1
    } else {
        0
    };
    write_alu(cpu, instr, Instruction::Sltu, v);
}

pub fn exec_xor(cpu: &mut CPU, instr: u32)
    ensures
        completes(Instruction::Xor, old(cpu)@, instr, final(cpu)@, false),
{
    let (a, b) = src_values(cpu, instr);
    let v = a ^ b;
    write_alu(cpu, instr, Instruction::Xor, v);
}

pub fn exec_srl(cpu: &mut CPU, instr: u32)
    ensures
        completes(Instruction::Srl, old(cpu)@, instr, final(cpu)@, false),
{
    let (a, b) = src_values(cpu, instr);
    let v = a >> (b % 32);
    write_alu(cpu, instr, Instruction::Srl, v);
}

pub fn exec_sra(cpu: &mut CPU, instr: u32)
    ensures
        completes(Instruction::Sra, old(cpu)@, instr, final(cpu)@, false),
{
    let (a, b) = src_values(cpu, instr);
    let n = b % 32;
    proof {
        lemma_sra(a, n);
    }
    let v = ((a as i32) >> n) as u32;
    write_alu(cpu, instr, Instruction::Sra, v);
}

pub fn exec_or(cpu: &mut CPU, instr: u32)
    ensures
        completes(Instruction::Or, old(cpu)@, instr, final(cpu)@, false),
{
    let (a, b) = src_values(cpu, instr);
    let v = a | b;
    write_alu(cpu, instr, Instruction::Or, v);
}

pub fn exec_and(cpu: &mut CPU, instr: u32)
    ensures
        completes(Instruction::And, old(cpu)@, instr, final(cpu)@, false),
{
    let (a, b) = src_values(cpu, instr);
    let v = a & b;
    write_alu(cpu, instr, Instruction::And, v);
}

/// No architectural effect in this core.
pub fn exec_fence(cpu: &mut CPU, instr: u32)
    ensures
        completes(Instruction::Fence, old(cpu)@, instr, final(cpu)@, false),
{
}

/// No architectural effect in this core.
pub fn exec_fence_i(cpu: &mut CPU, instr: u32)
    ensures
        completes(Instruction::FenceI, old(cpu)@, instr, final(cpu)@, false),
{
}

/// No architectural effect in this core.
pub fn exec_ecall(cpu: &mut CPU, instr: u32)
    ensures
        completes(Instruction::Ecall, old(cpu)@, instr, final(cpu)@, false),
{
}

/// No architectural effect in this core.
pub fn exec_ebreak(cpu: &mut CPU, instr: u32)
    ensures
        completes(Instruction::Ebreak, old(cpu)@, instr, final(cpu)@, false),
{
}

/// Control and status registers are not modelled: an unimplemented-instruction fault.
pub fn exec_csrrw(cpu: &mut CPU, instr: u32) -> (r: Result<(), Fault>)
    ensures
        handled(Instruction::Csrrw, old(cpu)@, instr, final(cpu)@, r),
{
    Err(Fault::Unimplemented(instr))
}

/// Control and status registers are not modelled: an unimplemented-instruction fault.
pub fn exec_csrrs(cpu: &mut CPU, instr: u32) -> (r: Result<(), Fault>)
    ensures
        handled(Instruction::Csrrs, old(cpu)@, instr, final(cpu)@, r),
{
    Err(Fault::Unimplemented(instr))
}

/// Control and status registers are not modelled: an unimplemented-instruction fault.
pub fn exec_csrrc(cpu: &mut CPU, instr: u32) -> (r: Result<(), Fault>)
    ensures
        handled(Instruction::Csrrc, old(cpu)@, instr, final(cpu)@, r),
{
    Err(Fault::Unimplemented(instr))
}

/// Control and status registers are not modelled: an unimplemented-instruction fault.
pub fn exec_csrrwi(cpu: &mut CPU, instr: u32) -> (r: Result<(), Fault>)
    ensures
        handled(Instruction::Csrrwi, old(cpu)@, instr, final(cpu)@, r),
{
    Err(Fault::Unimplemented(instr))
}

/// Control and status registers are not modelled: an unimplemented-instruction fault.
pub fn exec_csrrsi(cpu: &mut CPU, instr: u32) -> (r: Result<(), Fault>)
    ensures
        handled(Instruction::Csrrsi, old(cpu)@, instr, final(cpu)@, r),
{
    Err(Fault::Unimplemented(instr))
}

/// Control and status registers are not modelled: an unimplemented-instruction fault.
pub fn exec_csrrci(cpu: &mut CPU, instr: u32) -> (r: Result<(), Fault>)
    ensures
        handled(Instruction::Csrrci, old(cpu)@, instr, final(cpu)@, r),
{
    Err(Fault::Unimplemented(instr))
}

} // verus!
