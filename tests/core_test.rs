use riscland::cpu::CPU;
use riscland::elf::{load_program, LoadError, ELF};
use riscland::fault::Fault;
use riscland::memory::{BUS, MEM_BASE, MEM_SIZE};
use riscland::opcode::{
    decode, encode_i, get_instr_name, imm_b, imm_i, imm_j, imm_s, imm_u, rd, rs1, rs2, shamt,
    sign_extend, Instruction, ADDI, I_TYPE, R_TYPE,
};

fn store_word(cpu: &mut CPU, addr: u32, word: u32) {
    cpu.bus.store(addr, 32, word as u64).unwrap();
}

#[test]
fn i_immediate_round_trips_at_the_edges() {
    for v in [-2048, -2047, -1, 0, 1, 2046, 2047] {
        let w = encode_i(v, 17, 5, 9, I_TYPE);
        assert_eq!(imm_i(w), v);
        assert_eq!(rs1(w), 17);
        assert_eq!(rd(w), 9);
    }
    assert_eq!(encode_i(-1, 0, 0, 0, 0), 0xfff0_0000);
    assert_eq!(encode_i(4, 0, ADDI, 31, I_TYPE), 0x0040_0f93);
}

#[test]
fn immediates_of_literal_encodings() {
    // sw x5, -8(x2)
    assert_eq!(imm_s(0xfe51_2c23), (-8i32) as u32);
    // beq x0, x0, -4
    assert_eq!(imm_b(0xfe00_0ee3), (-4i32) as u32);
    // bne x1, x2, 2048 (bit 11 of the offset comes from bit 7)
    assert_eq!(imm_b(0x0020_90e3), 2048);
    // jal x0, -8
    assert_eq!(imm_j(0xff9f_f06f), (-8i32) as u32);
    // jal x1, 2048 (bit 11 of the offset comes from bit 20)
    assert_eq!(imm_j(0x0010_00ef), 2048);
    // lui x1, 0xfffff
    assert_eq!(imm_u(0xffff_f0b7), 0xffff_f000);
    // srai x1, x1, 31
    assert_eq!(shamt(0x41f0_d093), 31);
    assert_eq!(rs2(0x0020_8033), 2);
}

#[test]
fn sign_extend_widens_the_sign_bit() {
    assert_eq!(sign_extend(0x800, 12), 0xffff_f800);
    assert_eq!(sign_extend(0x7ff, 12), 0x7ff);
    assert_eq!(sign_extend(0xff, 8), u32::MAX);
    assert_eq!(sign_extend(0x1000, 13), 0xffff_f000);
    assert_eq!(sign_extend(0x8000_0000, 32), 0x8000_0000);
}

#[test]
fn addi_then_read_and_register_zero_stays_zero() {
    let mut cpu = CPU::new();
    // addi x31, x0, 4
    assert_eq!(cpu.execute(0x0040_0f93), Ok(Instruction::Addi));
    assert_eq!(cpu.xregs.read(31), 4);
    // addi x0, x0, 5
    assert_eq!(cpu.execute(0x0050_0013), Ok(Instruction::Addi));
    assert_eq!(cpu.xregs.read(0), 0);
    // the slot is cleared again before the next instruction reads it
    // add x6, x0, x0
    assert_eq!(cpu.execute(0x0000_0333), Ok(Instruction::Add));
    assert_eq!(cpu.xregs.regs[6], 0);
    assert_eq!(cpu.xregs.regs[0], 0);
}

#[test]
fn slti_compares_signed() {
    let mut cpu = CPU::new();
    cpu.xregs.regs[1] = 3;
    // slti x31, x1, 2 / 4 / -2
    cpu.execute(0x0020_af93).unwrap();
    assert_eq!(cpu.xregs.regs[31], 0);
    cpu.execute(0x0040_af93).unwrap();
    assert_eq!(cpu.xregs.regs[31], 1);
    cpu.execute(0xffe0_af93).unwrap();
    assert_eq!(cpu.xregs.regs[31], 0);
}

#[test]
fn srai_shifts_in_the_sign() {
    let mut cpu = CPU::new();
    cpu.xregs.regs[1] = (-2i32) as u32;
    // srai x31, x1, 2
    assert_eq!(cpu.execute(0x4020_df93), Ok(Instruction::Srai));
    assert_eq!(cpu.xregs.regs[31], u32::MAX);
    // srli x30, x1, 2
    assert_eq!(cpu.execute(0x0020_df13), Ok(Instruction::Srli));
    assert_eq!(cpu.xregs.regs[30], 0x3fff_ffff);
}

#[test]
fn register_ops_wrap_and_shift() {
    let mut cpu = CPU::new();
    cpu.xregs.regs[1] = u32::MAX;
    cpu.xregs.regs[2] = 33;
    // add x3, x1, x2
    cpu.execute(0x0020_81b3).unwrap();
    assert_eq!(cpu.xregs.regs[3], 32);
    // sll x4, x2, x2: shifts by 33 % 32 = 1
    cpu.execute(0x0021_1233).unwrap();
    assert_eq!(cpu.xregs.regs[4], 66);
    // sra x5, x1, x2
    cpu.execute(0x4020_d2b3).unwrap();
    assert_eq!(cpu.xregs.regs[5], u32::MAX);
    // slt x6, x1, x2: -1 < 33
    cpu.execute(0x0020_a333).unwrap();
    assert_eq!(cpu.xregs.regs[6], 1);
    // sltu x7, x1, x2
    cpu.execute(0x0020_b3b3).unwrap();
    assert_eq!(cpu.xregs.regs[7], 0);
    // xor, or, and x8, x1, x2
    cpu.execute(0x0020_c433).unwrap();
    assert_eq!(cpu.xregs.regs[8], !33u32);
    cpu.execute(0x0020_e433).unwrap();
    assert_eq!(cpu.xregs.regs[8], u32::MAX);
    cpu.execute(0x0020_f433).unwrap();
    assert_eq!(cpu.xregs.regs[8], 33);
    // srl x9, x1, x2
    cpu.execute(0x0020_d4b3).unwrap();
    assert_eq!(cpu.xregs.regs[9], 0x7fff_ffff);
}

#[test]
fn jal_links_and_jumps_without_double_advance() {
    let mut cpu = CPU::new();
    let p = cpu.pc;
    // jal x5, 12
    store_word(&mut cpu, p, 0x00c0_02ef);
    assert_eq!(cpu.step(), Ok(Instruction::Jal));
    assert_eq!(cpu.xregs.regs[5], p + 4);
    assert_eq!(cpu.pc, p + 12);
}

#[test]
fn jalr_clears_the_low_bit() {
    let mut cpu = CPU::new();
    cpu.xregs.regs[1] = MEM_BASE + 0x41;
    // jalr x0, 2(x1)
    assert_eq!(cpu.execute(0x0020_8067), Ok(Instruction::Jalr));
    assert_eq!(cpu.pc, MEM_BASE + 0x42);
    assert_eq!(cpu.xregs.read(0), 0);
}

#[test]
fn beq_taken_and_not_taken_in_a_cycle() {
    let mut cpu = CPU::new();
    cpu.pc = 500;
    cpu.xregs.regs[7] = 3;
    cpu.xregs.regs[8] = 3;
    cpu.xregs.regs[9] = 4;
    // beq x8, x7, 12
    assert_eq!(cpu.execute(0x0074_0663), Ok(Instruction::Beq));
    assert_eq!(cpu.pc, 512);
    cpu.pc = 500;
    // beq x9, x7, 12
    assert_eq!(cpu.execute(0x0074_8663), Ok(Instruction::Beq));
    assert_eq!(cpu.pc, 504);
}

#[test]
fn branch_to_the_next_instruction_advances_once() {
    let mut cpu = CPU::new();
    cpu.pc = 500;
    // beq x0, x0, 4
    assert_eq!(cpu.execute(0x0000_0263), Ok(Instruction::Beq));
    assert_eq!(cpu.pc, 504);
}

#[test]
fn store_then_load_round_trips_every_width() {
    let mut bus = BUS::new();
    let value: u64 = 0x8899_aabb_ccdd_eeff;
    for (width, expected) in [(8, 0xff), (16, 0xeeff), (32, 0xccdd_eeff), (64, value)] {
        let addr = MEM_BASE + 100 + width;
        bus.store(addr, width, value).unwrap();
        assert_eq!(bus.load(addr, width), Ok(expected));
    }
    // misaligned accesses are allowed
    bus.store(MEM_BASE + 1, 32, 0x0102_0304).unwrap();
    assert_eq!(bus.load(MEM_BASE + 1, 32), Ok(0x0102_0304));
    assert_eq!(bus.load(MEM_BASE + 1, 8), Ok(0x04));
}

#[test]
fn bus_bounds_are_checked() {
    let mut bus = BUS::new();
    let end = MEM_BASE + MEM_SIZE;
    assert_eq!(bus.store(end - 8, 64, u64::MAX), Ok(()));
    assert_eq!(bus.load(end - 1, 8), Ok(0xff));
    assert_eq!(bus.load(end - 1, 16), Err(Fault::Memory(end - 1)));
    assert_eq!(bus.load(end, 8), Err(Fault::Memory(end)));
    assert_eq!(bus.load(MEM_BASE - 1, 8), Err(Fault::Memory(MEM_BASE - 1)));
    assert_eq!(bus.store(end - 3, 32, 0), Err(Fault::Memory(end - 3)));
    assert_eq!(bus.load(end - 4, 32), Ok(0xffff_ffff));
    assert_eq!(bus.load(u32::MAX, 8), Err(Fault::Memory(u32::MAX)));
}

#[test]
fn loads_and_stores_fault_outside_the_bus() {
    let mut cpu = CPU::new();
    cpu.xregs.regs[1] = 0x10;
    // lw x2, 0(x1)
    assert_eq!(cpu.execute(0x0000_a103), Err(Fault::Memory(0x10)));
    assert_eq!(cpu.pc, MEM_BASE);
    // sw x2, 4(x1)
    assert_eq!(cpu.execute(0x0020_a223), Err(Fault::Memory(0x14)));
}

#[test]
fn wide_accesses_keep_the_low_word() {
    let mut cpu = CPU::new();
    cpu.xregs.regs[1] = MEM_BASE + 16;
    cpu.xregs.regs[2] = 0x8000_0001;
    // sd x2, 0(x1): the register is zero-extended to 64 bits
    assert_eq!(cpu.execute(0x0020_b023), Ok(Instruction::Sd));
    assert_eq!(cpu.bus.load(MEM_BASE + 16, 64), Ok(0x8000_0001));
    // ld x3, 0(x1)
    assert_eq!(cpu.execute(0x0000_b183), Ok(Instruction::Ld));
    assert_eq!(cpu.xregs.regs[3], 0x8000_0001);
}

#[test]
fn unknown_opcode_is_a_decode_fault() {
    let mut cpu = CPU::new();
    assert_eq!(decode(0xffff_ffff), Err(Fault::Decode(0xffff_ffff)));
    assert_eq!(decode(0x0000_0000), Err(Fault::Decode(0)));
    // the whole cycle refuses it and leaves the hart as it was
    store_word(&mut cpu, MEM_BASE, 0x0000_007f);
    assert_eq!(cpu.step(), Err(Fault::Decode(0x7f)));
    assert_eq!(cpu.pc, MEM_BASE);
}

#[test]
fn unsupported_function_fields_are_decode_faults() {
    // branch with funct3 = 2
    assert_eq!(decode(0x0000_2063), Err(Fault::Decode(0x0000_2063)));
    // add with funct7 = 1
    assert_eq!(decode(0x0200_0033), Err(Fault::Decode(0x0200_0033)));
    // slli with funct7 = 0x20
    assert_eq!(decode(0x4000_1013), Err(Fault::Decode(0x4000_1013)));
    // store with funct3 = 4
    assert_eq!(decode(0x0000_4023), Err(Fault::Decode(0x0000_4023)));
    assert_eq!(decode(0x0000_0033), Ok(Instruction::Add));
    assert_eq!(decode(0x4000_0033), Ok(Instruction::Sub));
    assert_eq!(decode(R_TYPE | (5 << 12) | (0x20 << 25)), Ok(Instruction::Sra));
}

#[test]
fn csr_instructions_are_unimplemented() {
    let mut cpu = CPU::new();
    // csrrw x1, mstatus, x2
    assert_eq!(decode(0x3001_10f3), Ok(Instruction::Csrrw));
    assert_eq!(cpu.execute(0x3001_10f3), Err(Fault::Unimplemented(0x3001_10f3)));
    assert_eq!(cpu.pc, MEM_BASE);
}

#[test]
fn system_and_fence_only_advance() {
    let mut cpu = CPU::new();
    assert_eq!(cpu.execute(0x0000_0073), Ok(Instruction::Ecall));
    assert_eq!(cpu.execute(0x0010_0073), Ok(Instruction::Ebreak));
    assert_eq!(cpu.execute(0x0ff0_000f), Ok(Instruction::Fence));
    assert_eq!(cpu.execute(0x0000_100f), Ok(Instruction::FenceI));
    assert_eq!(cpu.pc, MEM_BASE + 16);
    assert_eq!(decode(0x0020_0073), Err(Fault::Decode(0x0020_0073)));
}

#[test]
fn fetch_faults_outside_the_bus() {
    let mut cpu = CPU::new();
    cpu.pc = MEM_BASE + MEM_SIZE - 2;
    assert_eq!(cpu.fetch(), Err(Fault::Memory(MEM_BASE + MEM_SIZE - 2)));
    assert_eq!(cpu.step(), Err(Fault::Memory(MEM_BASE + MEM_SIZE - 2)));
}

#[test]
fn reset_state() {
    let cpu = CPU::new();
    assert_eq!(cpu.pc, MEM_BASE);
    assert_eq!(cpu.xregs.regs[2], MEM_BASE + MEM_SIZE);
    assert_eq!(cpu.xregs.regs[1], 0);
    assert_eq!(cpu.fetch(), Ok(0));
}

#[test]
fn instruction_names() {
    assert_eq!(get_instr_name(0x0040_0f93), Ok("addi"));
    assert_eq!(get_instr_name(0x0000_100f), Ok("fence.i"));
    assert_eq!(get_instr_name(0x4020_d2b3), Ok("sra"));
    assert_eq!(get_instr_name(0x7f), Err(Fault::Decode(0x7f)));
    assert_eq!(Instruction::Bgeu.name(), "bgeu");
}

#[test]
fn runs_a_small_program() {
    let mut cpu = CPU::new();
    let program: [u32; 4] = [
        0x0050_0093, // addi x1, x0, 5
        0x0030_0113, // addi x2, x0, 3
        0x0020_81b3, // add x3, x1, x2
        0xfe00_0ee3, // beq x0, x0, -4
    ];
    let mut image = Vec::new();
    for w in program {
        image.extend_from_slice(&w.to_le_bytes());
    }
    cpu.bus.init_memory(&image).unwrap();
    for _ in 0..4 {
        cpu.step().unwrap();
    }
    assert_eq!(cpu.xregs.regs[3], 8);
    assert_eq!(cpu.pc, MEM_BASE + 8);
}

#[test]
fn init_memory_refuses_an_image_larger_than_memory() {
    let mut bus = BUS::new();
    let image = vec![1u8; MEM_SIZE as usize + 1];
    assert_eq!(bus.init_memory(&image), Err(Fault::Memory(MEM_BASE + MEM_SIZE)));
    assert_eq!(bus.load(MEM_BASE, 8), Ok(0));
    let image = vec![1u8; MEM_SIZE as usize];
    assert_eq!(bus.init_memory(&image), Ok(()));
    assert_eq!(bus.load(MEM_BASE + MEM_SIZE - 1, 8), Ok(1));
}

/// A 32-bit little-endian RISC-V ELF file whose `.text.init` section holds `code`.
fn elf_with_code(code: &[u8]) -> Vec<u8> {
    let names: &[u8] = b"\0.text.init\0.shstrtab\0";
    let code_off = 52u32;
    let names_off = code_off + code.len() as u32;
    let sh_off = (names_off + names.len() as u32 + 3) & !3;
    let mut f = Vec::new();
    f.extend_from_slice(&[0x7f, b'E', b'L', b'F', 1, 1, 1, 0, 0, 0, 0, 0, 0, 0, 0, 0]);
    f.extend_from_slice(&2u16.to_le_bytes()); // executable
    f.extend_from_slice(&243u16.to_le_bytes()); // RISC-V
    f.extend_from_slice(&1u32.to_le_bytes());
    f.extend_from_slice(&MEM_BASE.to_le_bytes()); // entry
    f.extend_from_slice(&0u32.to_le_bytes()); // no program headers
    f.extend_from_slice(&sh_off.to_le_bytes());
    f.extend_from_slice(&0u32.to_le_bytes()); // flags
    f.extend_from_slice(&52u16.to_le_bytes());
    f.extend_from_slice(&32u16.to_le_bytes());
    f.extend_from_slice(&0u16.to_le_bytes());
    f.extend_from_slice(&40u16.to_le_bytes());
    f.extend_from_slice(&3u16.to_le_bytes());
    f.extend_from_slice(&2u16.to_le_bytes()); // section names in section 2
    f.extend_from_slice(code);
    f.extend_from_slice(names);
    while (f.len() as u32) < sh_off {
        f.push(0);
    }
    let sections: [[u32; 10]; 3] = [
        [0; 10],
        [1, 1, 6, MEM_BASE, code_off, code.len() as u32, 0, 0, 4, 0],
        [12, 3, 0, 0, names_off, names.len() as u32, 0, 0, 1, 0],
    ];
    for header in sections {
        for field in header {
            f.extend_from_slice(&field.to_le_bytes());
        }
    }
    f
}

#[test]
fn load_program_places_the_code_section() {
    let mut code = Vec::new();
    code.extend_from_slice(&0x0040_0f93u32.to_le_bytes()); // addi x31, x0, 4
    code.extend_from_slice(&0x0000_0073u32.to_le_bytes()); // ecall
    let image = elf_with_code(&code);
    let mut cpu = CPU::new();
    assert_eq!(load_program(&mut cpu, &image), Ok(()));
    assert_eq!(cpu.fetch(), Ok(0x0040_0f93));
    assert_eq!(cpu.step(), Ok(Instruction::Addi));
    assert_eq!(cpu.step(), Ok(Instruction::Ecall));
    assert_eq!(cpu.xregs.regs[31], 4);
    assert_eq!(cpu.bus.load(MEM_BASE + 8, 32), Ok(0));
}

#[test]
fn load_program_refuses_what_is_not_an_object_file() {
    let mut cpu = CPU::new();
    let image = vec![0x13u8, 0, 0, 0];
    assert_eq!(load_program(&mut cpu, &image), Err(LoadError::NoCodeSection));
    assert_eq!(cpu.fetch(), Ok(0));
    let big = elf_with_code(&vec![0u8; MEM_SIZE as usize + 4]);
    assert_eq!(load_program(&mut cpu, &big), Err(LoadError::TooLarge));
}

#[test]
fn elf_keeps_its_path() {
    let elf = ELF::new("tests/program.elf");
    assert_eq!(elf.path(), "tests/program.elf");
}

#[test]
fn run_stops_at_the_first_fault_or_the_step_budget() {
    let mut cpu = CPU::new();
    store_word(&mut cpu, MEM_BASE, 0x0050_0093); // addi x1, x0, 5
    store_word(&mut cpu, MEM_BASE + 4, 0x0010_8093); // addi x1, x1, 1
    let mut twin = CPU::new();
    store_word(&mut twin, MEM_BASE, 0x0050_0093);
    store_word(&mut twin, MEM_BASE + 4, 0x0010_8093);
    assert_eq!(twin.run(1), (1, None));
    assert_eq!(twin.pc, MEM_BASE + 4);
    // the word after the program is zero, which is no instruction
    assert_eq!(cpu.run(10), (2, Some(Fault::Decode(0))));
    assert_eq!(cpu.xregs.regs[1], 6);
    assert_eq!(cpu.pc, MEM_BASE + 8);
    assert_eq!(cpu.run(0), (0, None));
}
