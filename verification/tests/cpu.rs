use rv64i_emu::cpu::RV64I;
use rv64i_emu::dram::{DRAM_BASE, MAX_MEMORY};
use rv64i_emu::fault::Fault;

const OP_IMM: u32 = 0b0010011;
const OP_LOAD: u32 = 0b0000011;
const OP_REG: u32 = 0b0110011;
const OP_STORE: u32 = 0b0100011;
const OP_BRANCH: u32 = 0b1100011;

fn i_word(imm: u32, rs1: u32, funct3: u32, rd: u32, opcode: u32) -> u32 {
    (imm << 20) | (rs1 << 15) | (funct3 << 12) | (rd << 7) | opcode
}

fn r_word(funct7: u32, rs2: u32, rs1: u32, funct3: u32, rd: u32) -> u32 {
    (funct7 << 25) | (rs2 << 20) | (rs1 << 15) | (funct3 << 12) | (rd << 7) | OP_REG
}

fn s_word(imm: u32, rs2: u32, rs1: u32, funct3: u32) -> u32 {
    ((imm >> 5) << 25) | (rs2 << 20) | (rs1 << 15) | (funct3 << 12) | ((imm & 31) << 7) | OP_STORE
}

fn addi(rd: u32, rs1: u32, imm: u32) -> u32 {
    i_word(imm, rs1, 0, rd, OP_IMM)
}

fn add(rd: u32, rs1: u32, rs2: u32) -> u32 {
    r_word(0, rs2, rs1, 0, rd)
}

fn program(words: &[u32]) -> Vec<u8> {
    let mut bytes: Vec<u8> = Vec::new();
    for word in words {
        bytes.extend_from_slice(&word.to_le_bytes());
    }
    bytes
}

/// Instructions that leave the memory base in x1: x2 starts as 2^27 and is
/// doubled four times.
fn base_into_x1() -> Vec<u32> {
    vec![add(1, 2, 2), add(1, 1, 1), add(1, 1, 1), add(1, 1, 1)]
}

#[test]
fn a_new_processor_is_at_the_base_with_the_stack_pointer_set() {
    let cpu = RV64I::new(vec![1, 2, 3, 4]);
    let regs: [u64; 32] = cpu.registers();
    for (i, value) in regs.iter().enumerate() {
        if i == 2 {
            assert_eq!(*value, MAX_MEMORY);
        } else {
            assert_eq!(*value, 0);
        }
    }
    assert_eq!(cpu.program_counter(), DRAM_BASE);
    assert!(!cpu.is_stalled());
    assert_eq!(cpu.fault(), None);
    assert_eq!(cpu.bus().load(DRAM_BASE, 32), Ok(0x0403_0201));
    assert_eq!(cpu.bus().load(DRAM_BASE + 4, 64), Ok(0));
}

#[test]
fn fetch_reads_the_word_at_the_program_counter() {
    let mut cpu = RV64I::new(program(&[addi(1, 0, 1), addi(2, 0, 2)]));
    assert_eq!(cpu.fetch(), Ok(addi(1, 0, 1)));
    cpu.step();
    assert_eq!(cpu.fetch(), Ok(addi(2, 0, 2)));
    cpu.step();
    assert_eq!(cpu.fetch(), Ok(0));
}

#[test]
fn addi_adds_a_positive_immediate() {
    let mut cpu = RV64I::new(program(&[addi(10, 0, 0x7ff)]));
    cpu.step();
    assert!(!cpu.is_stalled());
    assert_eq!(cpu.registers()[10], 0x7ff);
}

#[test]
fn addi_adds_a_negative_immediate() {
    let mut cpu = RV64I::new(program(&[addi(10, 0, 0xfff)]));
    cpu.step();
    assert!(!cpu.is_stalled());
    assert_eq!(cpu.registers()[10], 0xffff_ffff_ffff_ffff);
}

#[test]
fn addi_wraps_around() {
    let mut cpu = RV64I::new(program(&[addi(5, 0, 0xfff), addi(5, 5, 1), addi(6, 5, 0x800)]));
    cpu.step();
    assert_eq!(cpu.registers()[5], u64::MAX);
    cpu.step();
    assert_eq!(cpu.registers()[5], 0);
    cpu.step();
    assert_eq!(cpu.registers()[6], 0xffff_ffff_ffff_f800);
    // x2 = 2^27, minus 1
    let mut cpu = RV64I::new(program(&[addi(7, 2, 0xfff)]));
    cpu.step();
    assert_eq!(cpu.registers()[7], MAX_MEMORY - 1);
}

#[test]
fn add_sums_two_registers() {
    let mut cpu = RV64I::new(program(&[addi(1, 0, 5), addi(2, 0, 7), add(3, 1, 2)]));
    cpu.step();
    cpu.step();
    cpu.step();
    assert!(!cpu.is_stalled());
    let regs: [u64; 32] = cpu.registers();
    assert_eq!(regs[1], 5);
    assert_eq!(regs[2], 7);
    assert_eq!(regs[3], 12);
}

#[test]
fn add_wraps_around() {
    let mut cpu = RV64I::new(program(&[addi(1, 0, 0xfff), addi(2, 0, 2), add(3, 1, 2), add(4, 1, 1)]));
    cpu.run();
    let regs: [u64; 32] = cpu.registers();
    assert_eq!(regs[3], 1);
    assert_eq!(regs[4], u64::MAX - 1);
}

#[test]
fn store_byte_then_load_it_unsigned_and_signed() {
    let mut words: Vec<u32> = base_into_x1();
    words.push(addi(3, 0, 0xab));
    // sb x3, 0x100(x1); lbu x4, 0x100(x1); lb x5, 0x100(x1)
    words.push(s_word(0x100, 3, 1, 0b000));
    words.push(i_word(0x100, 1, 0b100, 4, OP_LOAD));
    words.push(i_word(0x100, 1, 0b000, 5, OP_LOAD));
    let count: usize = words.len();
    let mut cpu = RV64I::new(program(&words));
    for _ in 0..count {
        cpu.step();
        assert!(!cpu.is_stalled());
    }
    let regs: [u64; 32] = cpu.registers();
    assert_eq!(regs[1], DRAM_BASE);
    assert_eq!(regs[4], 0xab);
    assert_eq!(regs[5], 0xffff_ffff_ffff_ffab);
    assert_eq!(cpu.bus().load(DRAM_BASE + 0x100, 8), Ok(0xab));
    assert_eq!(cpu.bus().load(DRAM_BASE + 0x101, 8), Ok(0));
}

#[test]
fn store_byte_at_the_base_then_load_it_through_the_handlers() {
    let mut cpu = RV64I::new(vec![]);
    assert_eq!(cpu.handle_i_type(OP_IMM, 1, 0, 0, DRAM_BASE), Ok(()));
    assert_eq!(cpu.handle_i_type(OP_IMM, 3, 0, 0, 0xab), Ok(()));
    assert_eq!(cpu.handle_s_type(OP_STORE, 0b000, 1, 3, 0), Ok(()));
    assert_eq!(cpu.handle_i_type(OP_LOAD, 4, 0b100, 1, 0), Ok(()));
    assert_eq!(cpu.handle_i_type(OP_LOAD, 5, 0b000, 1, 0), Ok(()));
    let regs: [u64; 32] = cpu.registers();
    assert_eq!(regs[4], 0xab);
    assert_eq!(regs[5], 0xffff_ffff_ffff_ffab);
    assert_eq!(cpu.bus().load(DRAM_BASE, 8), Ok(0xab));
}

#[test]
fn every_load_extends_as_its_funct3_says() {
    let mut cpu = RV64I::new(vec![0x81, 0x92, 0xa3, 0xb4, 0xc5, 0xd6, 0xe7, 0xf8]);
    assert_eq!(cpu.handle_i_type(OP_IMM, 1, 0, 0, DRAM_BASE), Ok(()));
    let expected: [(u32, u64); 7] = [
        (0b000, 0xffff_ffff_ffff_ff81),
        (0b001, 0xffff_ffff_ffff_9281),
        (0b010, 0xffff_ffff_b4a3_9281),
        (0b011, 0xf8e7_d6c5_b4a3_9281),
        (0b100, 0x81),
        (0b101, 0x9281),
        (0b110, 0xb4a3_9281),
    ];
    for (funct3, value) in expected {
        assert_eq!(cpu.handle_i_type(OP_LOAD, 6, funct3, 1, 0), Ok(()));
        assert_eq!(cpu.registers()[6], value);
    }
    assert_eq!(cpu.handle_i_type(OP_LOAD, 6, 0b111, 1, 0), Err(Fault::DecodeFailure));
    assert_eq!(cpu.registers()[6], 0xb4a3_9281);
}

#[test]
fn signed_loads_keep_a_positive_value() {
    let mut cpu = RV64I::new(vec![0x7f, 0x00, 0xff, 0x7f, 0xff, 0xff, 0xff, 0x7f]);
    assert_eq!(cpu.handle_i_type(OP_IMM, 1, 0, 0, DRAM_BASE), Ok(()));
    assert_eq!(cpu.handle_i_type(OP_LOAD, 6, 0b000, 1, 0), Ok(()));
    assert_eq!(cpu.registers()[6], 0x7f);
    assert_eq!(cpu.handle_i_type(OP_LOAD, 6, 0b001, 1, 2), Ok(()));
    assert_eq!(cpu.registers()[6], 0x7fff);
    assert_eq!(cpu.handle_i_type(OP_LOAD, 6, 0b010, 1, 4), Ok(()));
    assert_eq!(cpu.registers()[6], 0x7fff_ffff);
}

#[test]
fn every_store_writes_its_width() {
    let mut cpu = RV64I::new(vec![]);
    assert_eq!(cpu.handle_i_type(OP_IMM, 1, 0, 0, DRAM_BASE + 0x40), Ok(()));
    assert_eq!(cpu.handle_i_type(OP_IMM, 3, 0, 0, 0x1122_3344_5566_7788), Ok(()));
    let expected: [(u32, u64); 4] = [
        (0b000, 0x88),
        (0b001, 0x7788),
        (0b010, 0x5566_7788),
        (0b011, 0x1122_3344_5566_7788),
    ];
    for (i, (funct3, value)) in expected.iter().enumerate() {
        let offset: u64 = 16 * i as u64;
        assert_eq!(cpu.handle_s_type(OP_STORE, *funct3, 1, 3, offset), Ok(()));
        assert_eq!(cpu.bus().load(DRAM_BASE + 0x40 + offset, 64), Ok(*value));
    }
    assert_eq!(cpu.handle_s_type(OP_STORE, 0b100, 1, 3, 0), Err(Fault::DecodeFailure));
    assert_eq!(cpu.handle_s_type(OP_STORE, 0b111, 1, 3, 0), Err(Fault::DecodeFailure));
    assert_eq!(cpu.bus().load(DRAM_BASE + 0x40, 64), Ok(0x88));
}

#[test]
fn a_store_with_a_negative_offset() {
    let mut words: Vec<u32> = base_into_x1();
    words.push(addi(1, 1, 0x200));
    words.push(addi(3, 0, 0x55));
    // sh x3, -2(x1); lhu x4, -2(x1)
    words.push(s_word(0xffe, 3, 1, 0b001));
    words.push(i_word(0xffe, 1, 0b101, 4, OP_LOAD));
    let mut cpu = RV64I::new(program(&words));
    cpu.run();
    assert_eq!(cpu.fault(), None);
    assert_eq!(cpu.registers()[4], 0x55);
    assert_eq!(cpu.bus().load(DRAM_BASE + 0x1fe, 16), Ok(0x55));
}

#[test]
fn a_zero_word_stalls_and_alters_no_register() {
    let mut cpu = RV64I::new(program(&[addi(1, 0, 5), 0, addi(1, 0, 9)]));
    cpu.step();
    let before: [u64; 32] = cpu.registers();
    assert!(!cpu.is_stalled());
    cpu.step();
    assert!(cpu.is_stalled());
    assert_eq!(cpu.fault(), None);
    assert_eq!(cpu.registers(), before);
    assert_eq!(cpu.program_counter(), DRAM_BASE + 4);
}

#[test]
fn an_empty_program_stalls_at_once() {
    let mut cpu = RV64I::new(vec![]);
    let before: [u64; 32] = cpu.registers();
    cpu.step();
    assert!(cpu.is_stalled());
    assert_eq!(cpu.fault(), None);
    assert_eq!(cpu.registers(), before);
    assert_eq!(cpu.program_counter(), DRAM_BASE);
}

#[test]
fn an_unknown_opcode_stalls() {
    for opcode in [0b1111111u32, 0b0110111, 0b1101111, 0b1100111, 0b0010111, 0b0011011, 0b0111011, 0b1110011, 0b0000001] {
        let mut cpu = RV64I::new(program(&[(5 << 7) | opcode]));
        let before: [u64; 32] = cpu.registers();
        cpu.step();
        assert!(cpu.is_stalled());
        assert_eq!(cpu.fault(), Some(Fault::UnimplementedOpcode));
        assert_eq!(cpu.registers(), before);
        assert_eq!(cpu.program_counter(), DRAM_BASE + 4);
    }
}

#[test]
fn execute_refuses_an_unknown_opcode_and_changes_nothing() {
    let mut cpu = RV64I::new(vec![]);
    let before: [u64; 32] = cpu.registers();
    assert_eq!(cpu.execute(0xffff_ffff), Err(Fault::UnimplementedOpcode));
    assert_eq!(cpu.execute(0x0000_0037), Err(Fault::UnimplementedOpcode));
    assert_eq!(cpu.registers(), before);
    assert_eq!(cpu.program_counter(), DRAM_BASE);
    assert!(!cpu.is_stalled());
    assert_eq!(cpu.fault(), None);
}

#[test]
fn execute_carries_out_one_word() {
    let mut cpu = RV64I::new(vec![]);
    assert_eq!(cpu.execute(addi(1, 0, 5)), Ok(()));
    assert_eq!(cpu.execute(addi(2, 0, 7)), Ok(()));
    assert_eq!(cpu.execute(add(3, 1, 2)), Ok(()));
    assert_eq!(cpu.registers()[3], 12);
    assert_eq!(cpu.program_counter(), DRAM_BASE);
    // execute alone does not restore x0
    assert_eq!(cpu.execute(addi(0, 0, 5)), Ok(()));
    assert_eq!(cpu.registers()[0], 5);
}

#[test]
fn a_branch_stalls() {
    for funct3 in 0..8u32 {
        let word: u32 = (2 << 20) | (1 << 15) | (funct3 << 12) | (0b0100 << 8) | OP_BRANCH;
        let mut cpu = RV64I::new(program(&[word]));
        let before: [u64; 32] = cpu.registers();
        cpu.step();
        assert!(cpu.is_stalled());
        assert_eq!(cpu.fault(), Some(Fault::DecodeFailure));
        assert_eq!(cpu.registers(), before);
        assert_eq!(cpu.program_counter(), DRAM_BASE + 4);
    }
    let mut cpu = RV64I::new(vec![]);
    assert_eq!(cpu.handle_b_type(OP_BRANCH, 0, 1, 2, 8), Err(Fault::DecodeFailure));
}

#[test]
fn an_unimplemented_function_stalls() {
    // slli x1, x1, 1; sub x3, x1, x2; or x3, x1, x2
    let words: [u32; 3] = [i_word(1, 1, 0b001, 1, OP_IMM), r_word(0b0100000, 2, 1, 0, 3), r_word(0, 2, 1, 0b110, 3)];
    for word in words {
        let mut cpu = RV64I::new(program(&[word]));
        let before: [u64; 32] = cpu.registers();
        cpu.step();
        assert!(cpu.is_stalled());
        assert_eq!(cpu.fault(), Some(Fault::DecodeFailure));
        assert_eq!(cpu.registers(), before);
    }
    for funct3 in 1..8u32 {
        let mut cpu = RV64I::new(vec![]);
        assert_eq!(cpu.handle_i_type(OP_IMM, 1, funct3, 2, 1), Err(Fault::DecodeFailure));
        assert_eq!(cpu.handle_r_type(OP_REG, 1, funct3, 2, 2, 0), Err(Fault::DecodeFailure));
    }
}

#[test]
fn a_handler_refuses_the_opcode_of_another_format() {
    let mut cpu = RV64I::new(vec![]);
    let before: [u64; 32] = cpu.registers();
    assert_eq!(cpu.handle_r_type(OP_IMM, 1, 0, 2, 2, 0), Err(Fault::DecodeFailure));
    assert_eq!(cpu.handle_i_type(OP_REG, 1, 0, 2, 1), Err(Fault::DecodeFailure));
    assert_eq!(cpu.handle_i_type(OP_STORE, 1, 0, 2, 1), Err(Fault::DecodeFailure));
    assert_eq!(cpu.handle_s_type(OP_LOAD, 0, 2, 2, 0), Err(Fault::DecodeFailure));
    assert_eq!(cpu.registers(), before);
}

#[test]
fn a_load_from_below_the_base_stalls() {
    // lw x5, 0(x0)
    let mut cpu = RV64I::new(program(&[i_word(0, 0, 0b010, 5, OP_LOAD)]));
    let before: [u64; 32] = cpu.registers();
    cpu.step();
    assert!(cpu.is_stalled());
    assert_eq!(cpu.fault(), Some(Fault::AddressRange));
    assert_eq!(cpu.registers(), before);
    assert_eq!(cpu.program_counter(), DRAM_BASE + 4);
}

#[test]
fn a_store_below_the_base_stalls() {
    // sd x2, 8(x2): x2 holds 2^27, which lies below the base
    let mut cpu = RV64I::new(program(&[s_word(8, 2, 2, 0b011)]));
    cpu.step();
    assert!(cpu.is_stalled());
    assert_eq!(cpu.fault(), Some(Fault::AddressRange));
}

#[test]
fn a_load_past_the_end_of_the_store_stalls() {
    let mut cpu = RV64I::new(vec![]);
    assert_eq!(cpu.handle_i_type(OP_IMM, 1, 0, 0, DRAM_BASE + MAX_MEMORY - 4), Ok(()));
    assert_eq!(cpu.handle_i_type(OP_LOAD, 5, 0b010, 1, 0), Ok(()));
    assert_eq!(cpu.handle_i_type(OP_LOAD, 5, 0b011, 1, 0), Err(Fault::AddressRange));
    assert_eq!(cpu.handle_i_type(OP_LOAD, 5, 0b000, 1, 4), Err(Fault::AddressRange));
    assert_eq!(cpu.handle_s_type(OP_STORE, 0b011, 1, 1, 0), Err(Fault::AddressRange));
    assert_eq!(cpu.handle_s_type(OP_STORE, 0b010, 1, 1, 0), Ok(()));
}

#[test]
fn x0_reads_zero_after_every_step() {
    let mut words: Vec<u32> = base_into_x1();
    words.push(addi(0, 0, 5));
    words.push(addi(3, 0, 0x7ff));
    words.push(add(0, 3, 3));
    words.push(s_word(0x100, 3, 1, 0b011));
    // ld x0, 0x100(x1)
    words.push(i_word(0x100, 1, 0b011, 0, OP_LOAD));
    words.push(addi(4, 0, 1));
    let mut cpu = RV64I::new(program(&words));
    while !cpu.is_stalled() {
        cpu.step();
        assert_eq!(cpu.registers()[0], 0);
    }
    assert_eq!(cpu.fault(), None);
    assert_eq!(cpu.registers()[4], 1);
    assert_eq!(cpu.registers()[3], 0x7ff);
}

#[test]
fn the_program_counter_advances_by_four() {
    let words: [u32; 5] = [addi(1, 0, 1), addi(2, 0, 2), add(3, 1, 2), addi(4, 3, 0xfff), add(5, 4, 4)];
    let mut cpu = RV64I::new(program(&words));
    assert_eq!(cpu.program_counter(), DRAM_BASE);
    for k in 1..=5u64 {
        cpu.step();
        assert!(!cpu.is_stalled());
        assert_eq!(cpu.program_counter(), DRAM_BASE + 4 * k);
        assert_eq!(cpu.program_counter() % 4, 0);
    }
    cpu.step();
    assert!(cpu.is_stalled());
    assert_eq!(cpu.program_counter(), DRAM_BASE + 20);
}

#[test]
fn run_goes_on_until_the_processor_stalls() {
    let mut cpu = RV64I::new(program(&[addi(1, 0, 1), add(1, 1, 1), add(1, 1, 1), add(1, 1, 1), 0, addi(1, 0, 0)]));
    cpu.run();
    assert!(cpu.is_stalled());
    assert_eq!(cpu.fault(), None);
    assert_eq!(cpu.registers()[1], 8);
    assert_eq!(cpu.program_counter(), DRAM_BASE + 16);
}

#[test]
fn run_stops_at_the_first_fault() {
    let mut cpu = RV64I::new(program(&[addi(1, 0, 1), 0x0000_007f, addi(1, 0, 2)]));
    cpu.run();
    assert!(cpu.is_stalled());
    assert_eq!(cpu.fault(), Some(Fault::UnimplementedOpcode));
    assert_eq!(cpu.registers()[1], 1);
    assert_eq!(cpu.program_counter(), DRAM_BASE + 8);
}

#[test]
fn run_leaves_a_stalled_processor_alone() {
    let mut cpu = RV64I::new(program(&[0x0000_007f, addi(1, 0, 2)]));
    cpu.run();
    let regs: [u64; 32] = cpu.registers();
    let pc: u64 = cpu.program_counter();
    cpu.run();
    assert!(cpu.is_stalled());
    assert_eq!(cpu.registers(), regs);
    assert_eq!(cpu.program_counter(), pc);
    assert_eq!(cpu.fault(), Some(Fault::UnimplementedOpcode));
}

#[test]
fn a_step_on_a_stalled_processor_keeps_it_stalled() {
    let mut cpu = RV64I::new(program(&[0x0000_007f, addi(1, 0, 2), 0]));
    cpu.step();
    assert!(cpu.is_stalled());
    cpu.step();
    assert!(cpu.is_stalled());
    assert_eq!(cpu.registers()[1], 2);
    assert_eq!(cpu.fault(), Some(Fault::UnimplementedOpcode));
    cpu.step();
    assert!(cpu.is_stalled());
    assert_eq!(cpu.program_counter(), DRAM_BASE + 8);
}

#[test]
fn a_program_can_overwrite_itself() {
    let mut words: Vec<u32> = base_into_x1();
    // sw x0, 24(x1): blanks the word that is two instructions ahead
    words.push(s_word(24, 0, 1, 0b010));
    words.push(addi(5, 0, 1));
    words.push(addi(5, 0, 2));
    let mut cpu = RV64I::new(program(&words));
    cpu.run();
    assert_eq!(cpu.fault(), None);
    assert_eq!(cpu.registers()[5], 1);
    assert_eq!(cpu.program_counter(), DRAM_BASE + 24);
}

#[test]
fn a_clone_runs_on_its_own() {
    let mut cpu = RV64I::new(program(&[addi(1, 0, 1), addi(1, 1, 1)]));
    cpu.step();
    let mut copy = cpu.clone();
    copy.step();
    assert_eq!(cpu.registers()[1], 1);
    assert_eq!(copy.registers()[1], 2);
    assert_eq!(cpu.program_counter(), DRAM_BASE + 4);
    assert_eq!(copy.program_counter(), DRAM_BASE + 8);
}

#[test]
fn a_refused_step_still_restores_x0() {
    // sb x0, 0(x0): a store to address 0, which the bus refuses
    let mut cpu = RV64I::new(vec![0x23, 0, 0, 0]);
    assert_eq!(cpu.execute(0x0050_0013), Ok(()));
    assert_eq!(cpu.registers()[0], 5);
    let mut expected: [u64; 32] = cpu.registers();
    expected[0] = 0;
    cpu.step();
    assert!(cpu.is_stalled());
    assert_eq!(cpu.fault(), Some(Fault::AddressRange));
    assert_eq!(cpu.registers()[0], 0);
    assert_eq!(cpu.registers(), expected);
    assert_eq!(cpu.program_counter(), DRAM_BASE + 4);
}

#[test]
fn an_unknown_opcode_still_restores_x0() {
    let mut cpu = RV64I::new(program(&[0x0000_007f]));
    assert_eq!(cpu.execute(addi(7, 0, 9)), Ok(()));
    assert_eq!(cpu.execute(addi(0, 0, 5)), Ok(()));
    let mut expected: [u64; 32] = cpu.registers();
    assert_eq!(expected[0], 5);
    expected[0] = 0;
    cpu.step();
    assert!(cpu.is_stalled());
    assert_eq!(cpu.fault(), Some(Fault::UnimplementedOpcode));
    assert_eq!(cpu.registers(), expected);
    assert_eq!(cpu.registers()[7], 9);
}

#[test]
fn a_refused_branch_or_function_still_restores_x0() {
    let branch: u32 = (2 << 20) | (1 << 15) | (0b0100 << 8) | OP_BRANCH;
    let sub: u32 = r_word(0b0100000, 2, 1, 0, 3);
    for word in [branch, sub] {
        let mut cpu = RV64I::new(program(&[word]));
        assert_eq!(cpu.execute(addi(0, 0, 0x7ff)), Ok(()));
        assert_eq!(cpu.registers()[0], 0x7ff);
        cpu.step();
        assert!(cpu.is_stalled());
        assert_eq!(cpu.fault(), Some(Fault::DecodeFailure));
        assert_eq!(cpu.registers()[0], 0);
    }
}

#[test]
fn a_step_that_is_carried_out_restores_x0_whatever_it_held() {
    let mut cpu = RV64I::new(program(&[addi(1, 0, 3)]));
    assert_eq!(cpu.execute(addi(0, 0, 5)), Ok(()));
    // x0 still holds 5 while the word is executed, so x1 = 5 + 3
    cpu.step();
    assert!(!cpu.is_stalled());
    assert_eq!(cpu.registers()[0], 0);
    assert_eq!(cpu.registers()[1], 8);
}

#[test]
fn a_step_that_stalls_at_the_fetch_alters_no_register() {
    let mut cpu = RV64I::new(vec![]);
    assert_eq!(cpu.execute(addi(0, 0, 5)), Ok(()));
    let before: [u64; 32] = cpu.registers();
    cpu.step();
    assert!(cpu.is_stalled());
    assert_eq!(cpu.fault(), None);
    assert_eq!(cpu.registers(), before);
    assert_eq!(cpu.program_counter(), DRAM_BASE);
}
