use emu8::{get_inst, program_well_formed, Cpu, RAM_SIZE};

fn chars(s: &str) -> Vec<char> {
    s.chars().collect()
}

fn with_code(code: &[u8]) -> Cpu {
    let mut cpu = Cpu::new();
    for (i, b) in code.iter().enumerate() {
        cpu.ram[i] = *b;
    }
    cpu
}

fn step(cpu: &mut Cpu, count: u8, data: &str) -> bool {
    let data = chars(data);
    assert!(cpu.can_emulate(count, &data));
    cpu.emulate(count, &data)
}

#[test]
fn new_cpu_is_zeroed() {
    let cpu = Cpu::new();
    assert_eq!(cpu.registers, vec![0; 8]);
    assert_eq!(cpu.input_ports, vec![0; 4]);
    assert_eq!(cpu.output_ports, vec![0; 4]);
    assert_eq!(cpu.inst, vec![0; 4]);
    assert_eq!(cpu.ram.len(), RAM_SIZE);
    assert!(cpu.ram.iter().all(|b| *b == 0));
    assert_eq!(cpu.pc, 0);
    assert!(!cpu.zero_flag && !cpu.carry_flag);
}

#[test]
fn get_inst_copies_four_bytes() {
    let mut ram = vec![1, 2, 3, 4, 5, 6, 7];
    let mut pc = 2u32;
    assert_eq!(get_inst(&mut pc, &mut ram), vec![3, 4, 5, 6]);
    assert_eq!(pc, 2);
}

#[test]
fn add_immediates_into_register() {
    let mut cpu = with_code(&[0xC0, 5, 7, 1]);
    assert!(!step(&mut cpu, 0, "00000000"));
    assert_eq!(cpu.registers[0], 12);
    assert_eq!(cpu.pc, 4);
    assert_eq!(cpu.inst, vec![0xC0, 5, 7, 1]);
    assert!(!cpu.zero_flag && !cpu.carry_flag);
}

#[test]
fn register_sources_and_flags() {
    // r1 = 200, r2 = 100; add r1 + r2 into r3 sets the carry.
    let mut cpu = with_code(&[0x00, 1, 2, 3]);
    cpu.registers[0] = 200;
    cpu.registers[1] = 100;
    assert!(!step(&mut cpu, 3, "00000000"));
    assert_eq!(cpu.registers[2], 44);
    assert!(cpu.carry_flag);
    assert_eq!(cpu.inst, vec![0x00, 200, 100, 3]);
}

#[test]
fn ignore_flags_and_shift_bits() {
    // SUB 3 - 10 with flags ignored and shift: (249) / 2 = 124.
    let mut cpu = with_code(&[0xC0 | 0x20 | 0x10 | 1, 3, 10, 1]);
    cpu.zero_flag = true;
    cpu.carry_flag = true;
    assert!(!step(&mut cpu, 0, "00000000"));
    assert_eq!(cpu.registers[0], 124);
    assert!(cpu.zero_flag && cpu.carry_flag);
}

#[test]
fn input_ports_feed_output_ports() {
    // in0 + in3 -> out0
    let mut cpu = with_code(&[0x00, 11, 14, 11]);
    assert!(!step(&mut cpu, 0, "0a0b0c0d"));
    assert_eq!(cpu.input_ports, vec![10, 11, 12, 13]);
    assert_eq!(cpu.output_ports, vec![23, 0, 0, 0]);
    assert_eq!(cpu.output_port_text(), b"17000000".to_vec());
}

#[test]
fn memory_at_data_address() {
    // ram[addr] = 9 + 0, then read it back into r1.
    let mut cpu = with_code(&[0xC0, 9, 0, 9, 0x40, 9, 1, 2]);
    cpu.registers[2] = 0x34;
    cpu.registers[3] = 0x12;
    cpu.registers[4] = 0x01;
    assert!(!step(&mut cpu, 0, "00000000"));
    assert_eq!(cpu.ram[0x011234], 9);
    assert!(!step(&mut cpu, 1, "00000000"));
    assert_eq!(cpu.registers[1], 10);
    assert_eq!(cpu.pc, 8);
}

#[test]
fn push_then_pop_returns_value() {
    let mut cpu = with_code(&[0xC0, 42, 0, 10, 0x40, 10, 0, 2, 0x0F, 0, 0, 0]);
    cpu.registers[6] = 1; // stack pointer 0x000100
    assert!(!step(&mut cpu, 0, "00000000"));
    assert_eq!(cpu.ram[0x100], 42);
    assert_eq!(&cpu.registers[5..8], &[0xff, 0, 0]);
    assert!(!step(&mut cpu, 1, "00000000"));
    assert_eq!(cpu.registers[1], 42);
    assert_eq!(&cpu.registers[5..8], &[0, 1, 0]);
    assert!(step(&mut cpu, 2, "00000000"));
    assert_eq!(cpu.pc, 8);
}

#[test]
fn two_pops_in_one_instruction() {
    // Pop a, then pop b (reading the stack pointer after the first pop).
    let mut cpu = with_code(&[0x00, 10, 10, 1]);
    cpu.registers[5] = 0x10;
    cpu.ram[0x11] = 3;
    cpu.ram[0x12] = 4;
    assert!(!step(&mut cpu, 0, "00000000"));
    assert_eq!(cpu.registers[0], 7);
    assert_eq!(cpu.registers[4], 0);
    assert_eq!(cpu.registers[5], 0x12);
}

#[test]
fn jump_and_conditional_branches() {
    let mut cpu = with_code(&[0xCA, 1, 2, 1]);
    cpu.registers[2] = 0x40;
    assert!(!step(&mut cpu, 0, "00000000"));
    assert_eq!(cpu.pc, 0x40);
    assert_eq!(cpu.registers[0], 3);

    // Branch if zero, not taken, then taken after the flag is set.
    let mut cpu = with_code(&[0xCB, 0, 0, 0, 0xCB, 0, 0, 0]);
    cpu.registers[2] = 0x20;
    assert!(!step(&mut cpu, 0, "00000000"));
    assert_eq!(cpu.pc, 4);
    assert!(cpu.zero_flag);
    assert!(!step(&mut cpu, 1, "00000000"));
    assert_eq!(cpu.pc, 0x20);

    // Branch if not carry is taken on a clear carry; the flags then follow
    // the addition.
    let mut cpu = with_code(&[0xCE, 200, 100, 0]);
    cpu.registers[2] = 0x08;
    assert!(!step(&mut cpu, 0, "00000000"));
    assert_eq!(cpu.pc, 8);
    assert!(cpu.carry_flag);
}

#[test]
fn halt_keeps_program_counter() {
    let mut cpu = with_code(&[0xCF, 1, 1, 11]);
    cpu.pc = 0;
    assert!(step(&mut cpu, 0, "00000000"));
    assert_eq!(cpu.pc, 0);
    assert_eq!(cpu.output_ports, vec![0; 4]);
}

#[test]
fn cycle_limit_stops_without_change() {
    let mut cpu = with_code(&[0xC0, 5, 7, 1]);
    let data = chars("not hex at all");
    assert!(cpu.can_emulate(26, &data));
    assert!(cpu.emulate(26, &data));
    assert_eq!(cpu.registers[0], 0);
    assert_eq!(cpu.pc, 0);
    assert!(!step(&mut cpu, 25, "00000000"));
}

#[test]
fn faults_are_detected() {
    let cpu = with_code(&[0x00, 15, 0, 0]);
    assert!(!cpu.can_emulate(0, &chars("00000000")));
    let cpu = with_code(&[0x00, 0, 0, 15]);
    assert!(!cpu.can_emulate(0, &chars("00000000")));
    // Push with the stack pointer at 0.
    let cpu = with_code(&[0x00, 0, 0, 10]);
    assert!(!cpu.can_emulate(0, &chars("00000000")));
    // Pop with the stack pointer at the top of memory.
    let mut cpu = with_code(&[0x00, 10, 0, 0]);
    cpu.registers[5] = 0xff;
    cpu.registers[6] = 0xff;
    cpu.registers[7] = 0xff;
    assert!(!cpu.can_emulate(0, &chars("00000000")));
    // Short or malformed input text.
    let cpu = with_code(&[0xC0, 0, 0, 0]);
    assert!(!cpu.can_emulate(0, &chars("0000000")));
    assert!(!cpu.can_emulate(0, &chars("0000000g")));
    // Instruction past the end of memory.
    let mut cpu = Cpu::new();
    cpu.pc = (RAM_SIZE - 3) as u32;
    assert!(!cpu.can_emulate(0, &chars("00000000")));
    cpu.pc = (RAM_SIZE - 4) as u32;
    assert!(cpu.can_emulate(0, &chars("00000000")));
}

#[test]
fn load_program_image() {
    let program = chars("000004c0050701");
    assert!(program_well_formed(&program));
    let mut cpu = Cpu::new();
    cpu.load_program(&program);
    assert_eq!(&cpu.ram[0..5], &[0xc0, 0x05, 0x07, 0x01, 0]);
    assert!(!step(&mut cpu, 0, "00000000"));
    assert_eq!(cpu.registers[0], 12);
}

#[test]
fn malformed_program_images() {
    assert!(!program_well_formed(&chars("00000")));
    assert!(!program_well_formed(&chars("000002c0")));
    assert!(!program_well_formed(&chars("000001zz")));
    assert!(program_well_formed(&chars("000000")));
    assert!(program_well_formed(&chars("000001ffextra")));
}
