use tinyvm::cpu::{Fault, Instruction, StopReason, CPU};
use tinyvm::memory::Memory;

fn load_program(memory: &mut Memory, program: &[u8]) {
    let mut address: u16 = 0;
    for &byte in program {
        memory.write(address, byte);
        address += 1;
    }
}

#[test]
fn memory_new_is_zeroed() {
    let memory = Memory::new(256);
    assert_eq!(memory.read(0), 0);
    assert_eq!(memory.read(128), 0);
    assert_eq!(memory.read(255), 0);
}

#[test]
fn memory_write_then_read() {
    let mut memory = Memory::new(16);
    memory.write(3, 0xAB);
    memory.write(15, 0x01);
    assert_eq!(memory.read(3), 0xAB);
    assert_eq!(memory.read(15), 0x01);
    assert_eq!(memory.read(4), 0);
}

#[test]
fn new_cpu_is_all_zero() {
    let cpu = CPU::new();
    assert_eq!(cpu.a, 0);
    assert_eq!(cpu.b, 0);
    assert_eq!(cpu.pc, 0);
    assert!(!cpu.flag_z);
    assert!(!cpu.flag_c);
}

#[test]
fn load_immediate_sets_accumulator_and_keeps_flags() {
    let mut memory = Memory::new(8);
    let mut cpu = CPU::new();
    cpu.flag_z = true;
    cpu.flag_c = true;
    let r = cpu.decode_and_execute(Instruction::LoadImmediate(200), &mut memory);
    assert_eq!(r, Ok(None));
    assert_eq!(cpu.a, 200);
    assert!(cpu.flag_z);
    assert!(cpu.flag_c);

    cpu.flag_z = false;
    cpu.flag_c = false;
    let r = cpu.decode_and_execute(Instruction::LoadImmediate(0), &mut memory);
    assert_eq!(r, Ok(None));
    assert_eq!(cpu.a, 0);
    assert!(!cpu.flag_z);
    assert!(!cpu.flag_c);
}

#[test]
fn add_immediate_computes_sum_and_flags() {
    let mut memory = Memory::new(8);
    let mut cpu = CPU::new();
    cpu.a = 200;
    let r = cpu.decode_and_execute(Instruction::AddImmediate(100), &mut memory);
    assert_eq!(r, Ok(None));
    assert_eq!(cpu.a, 44); // (200 + 100) mod 256
    assert!(cpu.flag_c);
    assert!(!cpu.flag_z);

    cpu.a = 1;
    cpu.flag_c = true; // recomputed from scratch
    let r = cpu.decode_and_execute(Instruction::AddImmediate(2), &mut memory);
    assert_eq!(r, Ok(None));
    assert_eq!(cpu.a, 3);
    assert!(!cpu.flag_c);
    assert!(!cpu.flag_z);

    cpu.a = 156;
    let r = cpu.decode_and_execute(Instruction::AddImmediate(100), &mut memory);
    assert_eq!(r, Ok(None));
    assert_eq!(cpu.a, 0); // wraps to exactly zero
    assert!(cpu.flag_c);
    assert!(cpu.flag_z);
}

#[test]
fn store_then_read_returns_accumulator() {
    let mut memory = Memory::new(64);
    let mut cpu = CPU::new();
    cpu.a = 77;
    let r = cpu.decode_and_execute(Instruction::StoreAccumulator(0x10), &mut memory);
    assert_eq!(r, Ok(None));
    assert_eq!(memory.read(0x10), 77);
    assert_eq!(cpu.a, 77);
    assert_eq!(memory.read(0x11), 0); // neighbours untouched
    assert_eq!(memory.read(0x0F), 0);
}

#[test]
fn store_out_of_bounds_is_a_fault_and_changes_nothing() {
    let mut memory = Memory::new(8);
    let mut cpu = CPU::new();
    cpu.a = 5;
    let r = cpu.decode_and_execute(Instruction::StoreAccumulator(8), &mut memory);
    assert_eq!(r, Err(Fault::OutOfBoundsAddress { address: 8, size: 8 }));
    assert_eq!(cpu.a, 5);
    for address in 0..8 {
        assert_eq!(memory.read(address), 0);
    }
}

#[test]
fn output_emits_accumulator_without_mutation() {
    let mut memory = Memory::new(8);
    let mut cpu = CPU::new();
    cpu.a = 42;
    let r = cpu.decode_and_execute(Instruction::Output, &mut memory);
    assert_eq!(r, Ok(Some(42)));
    assert_eq!(cpu.a, 42);
    assert_eq!(cpu.pc, 0);
}

#[test]
fn halt_parks_pointer_at_memory_size() {
    let mut memory = Memory::new(16);
    let mut cpu = CPU::new();
    let r = cpu.decode_and_execute(Instruction::Halt, &mut memory);
    assert_eq!(r, Ok(None));
    assert_eq!(cpu.pc, 16);
}

#[test]
fn decode_store_is_big_endian_and_advances_three() {
    let mut memory = Memory::new(8);
    load_program(&mut memory, &[0x03, 0x12, 0x34]);
    let mut cpu = CPU::new();
    let fetched = cpu.fetch(&memory);
    assert_eq!(fetched, Ok(Instruction::StoreAccumulator(0x1234)));
    assert_eq!(cpu.pc, 3);
}

#[test]
fn decode_load_and_add_advance_two() {
    let mut memory = Memory::new(8);
    load_program(&mut memory, &[0x01, 0x2A, 0x02, 0x07]);
    let mut cpu = CPU::new();
    assert_eq!(cpu.fetch(&memory), Ok(Instruction::LoadImmediate(0x2A)));
    assert_eq!(cpu.pc, 2);
    assert_eq!(cpu.fetch(&memory), Ok(Instruction::AddImmediate(0x07)));
    assert_eq!(cpu.pc, 4);
}

#[test]
fn decode_output_and_halt_advance_one() {
    let mut memory = Memory::new(8);
    load_program(&mut memory, &[0xFF, 0x00]);
    let mut cpu = CPU::new();
    assert_eq!(cpu.fetch(&memory), Ok(Instruction::Output));
    assert_eq!(cpu.pc, 1);
    assert_eq!(cpu.fetch(&memory), Ok(Instruction::Halt));
    assert_eq!(cpu.pc, 2);
}

#[test]
fn unrecognized_opcode_advances_exactly_one() {
    let mut memory = Memory::new(8);
    load_program(&mut memory, &[0x7C]);
    let mut cpu = CPU::new();
    let fetched = cpu.fetch(&memory);
    assert_eq!(fetched, Err(Fault::UnrecognizedOpcode { byte: 0x7C }));
    assert_eq!(cpu.pc, 1);
}

#[test]
fn fetch_past_end_is_out_of_bounds() {
    let memory = Memory::new(4);
    let mut cpu = CPU::new();
    cpu.pc = 4;
    let fetched = cpu.fetch(&memory);
    assert_eq!(fetched, Err(Fault::OutOfBoundsAddress { address: 4, size: 4 }));
    assert_eq!(cpu.pc, 4);
}

#[test]
fn fetch_with_missing_operand_is_out_of_bounds() {
    let mut memory = Memory::new(1);
    load_program(&mut memory, &[0x01]);
    let mut cpu = CPU::new();
    let fetched = cpu.fetch(&memory);
    assert_eq!(fetched, Err(Fault::OutOfBoundsAddress { address: 1, size: 1 }));
    assert_eq!(cpu.pc, 1); // past the opcode, no further
}

#[test]
fn run_end_to_end_emits_eight_and_halts() {
    let mut memory = Memory::new(256);
    load_program(&mut memory, &[0x01, 0x05, 0x02, 0x03, 0xFF, 0x00]);
    let mut cpu = CPU::new();
    let (outputs, stop) = cpu.run(&mut memory);
    assert_eq!(outputs, vec![8]);
    assert_eq!(stop, StopReason::Halted);
    assert_eq!(cpu.a, 8);
    assert!(!cpu.flag_c);
    assert!(!cpu.flag_z);
    assert_eq!(cpu.pc, 256);
}

#[test]
fn run_overflow_scenario_wraps_with_carry() {
    let mut memory = Memory::new(16);
    load_program(&mut memory, &[0x01, 250, 0x02, 10, 0x00]);
    let mut cpu = CPU::new();
    let (outputs, stop) = cpu.run(&mut memory);
    assert_eq!(outputs, Vec::<u8>::new());
    assert_eq!(stop, StopReason::Halted);
    assert_eq!(cpu.a, 4); // (250 + 10) mod 256
    assert!(cpu.flag_c);
    assert!(!cpu.flag_z); // 4 != 0
}

#[test]
fn run_stops_on_unrecognized_opcode_without_executing() {
    let mut memory = Memory::new(16);
    load_program(&mut memory, &[0x01, 0x09, 0x7C, 0x01, 0x63]);
    let mut cpu = CPU::new();
    let (outputs, stop) = cpu.run(&mut memory);
    assert_eq!(outputs, Vec::<u8>::new());
    assert_eq!(stop, StopReason::Faulted(Fault::UnrecognizedOpcode { byte: 0x7C }));
    assert_eq!(cpu.a, 9); // the load before the bad byte ran, the one after did not
    assert_eq!(cpu.pc, 3); // past the bad opcode, no further
}

#[test]
fn run_stops_on_out_of_bounds_store() {
    let mut memory = Memory::new(8);
    load_program(&mut memory, &[0x01, 0x07, 0x03, 0xFF, 0xFF]);
    let mut cpu = CPU::new();
    let (outputs, stop) = cpu.run(&mut memory);
    assert_eq!(outputs, Vec::<u8>::new());
    assert_eq!(
        stop,
        StopReason::Faulted(Fault::OutOfBoundsAddress { address: 0xFFFF, size: 8 })
    );
    assert_eq!(cpu.a, 7);
}

#[test]
fn run_off_the_end_of_memory_faults() {
    let mut memory = Memory::new(2);
    load_program(&mut memory, &[0x01, 0x05]);
    let mut cpu = CPU::new();
    let (outputs, stop) = cpu.run(&mut memory);
    assert_eq!(outputs, Vec::<u8>::new());
    assert_eq!(stop, StopReason::Faulted(Fault::OutOfBoundsAddress { address: 2, size: 2 }));
    assert_eq!(cpu.a, 5);
    assert_eq!(cpu.pc, 2);
}

#[test]
fn run_on_empty_memory_faults_immediately() {
    let mut memory = Memory::new(0);
    let mut cpu = CPU::new();
    let (outputs, stop) = cpu.run(&mut memory);
    assert_eq!(outputs, Vec::<u8>::new());
    assert_eq!(stop, StopReason::Faulted(Fault::OutOfBoundsAddress { address: 0, size: 0 }));
}

#[test]
fn run_emits_every_output_in_order() {
    let mut memory = Memory::new(32);
    load_program(
        &mut memory,
        &[0x01, 42, 0xFF, 0x02, 1, 0xFF, 0xFF, 0x00],
    );
    let mut cpu = CPU::new();
    let (outputs, stop) = cpu.run(&mut memory);
    assert_eq!(outputs, vec![42, 43, 43]);
    assert_eq!(stop, StopReason::Halted);
}

#[test]
fn reset_restores_initial_state_and_leaves_memory_alone() {
    let mut memory = Memory::new(64);
    load_program(&mut memory, &[0x01, 0xFA, 0x02, 0x0A, 0x03, 0x00, 0x20, 0x00]);
    let mut cpu = CPU::new();
    let (_, stop) = cpu.run(&mut memory);
    assert_eq!(stop, StopReason::Halted);
    assert_eq!(memory.read(0x20), 4); // the program stored its result

    cpu.reset();
    assert_eq!(cpu.a, 0);
    assert_eq!(cpu.b, 0);
    assert_eq!(cpu.pc, 0);
    assert!(!cpu.flag_z);
    assert!(!cpu.flag_c);
    // memory contents are untouched by reset
    assert_eq!(memory.read(0), 0x01);
    assert_eq!(memory.read(1), 0xFA);
    assert_eq!(memory.read(0x20), 4);
}
