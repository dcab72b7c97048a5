use vstd::prelude::*;

use crate::alu::{
    alu_carry,
    add_inst, alu_result, and_inst, bic, biz, bnc, bnz, flags_after, impl_inst, nand_inst,
    nimpl_inst, nor_inst, or_inst, sub_inst, xnor_inst, xor_inst,
};
use crate::hex::{
    byte_value, chars_of, header_length, hex_digit_byte, hex_digits_from, hex_text, hex_to_dec, is_hex_digit, is_hex_digit_char,
    lemma_hex_digit_roundtrip, program_length, to_hex_text,
};

verus! {

/// Bytes of random-access memory: 24-bit addresses.
pub const RAM_SIZE: usize = 16777216;

/// The processor: eight byte registers (registers 2..=4 form the 24-bit data
/// address, registers 5..=7 the 24-bit stack pointer, least significant
/// first), four input and four output ports, the memory, the instruction
/// being executed, the program counter and two flags.
pub struct Cpu {
    pub registers: Vec<u8>,
    pub input_ports: Vec<u8>,
    pub output_ports: Vec<u8>,
    pub ram: Vec<u8>,
    pub inst: Vec<u8>,
    pub pc: u32,
    pub zero_flag: bool,
    pub carry_flag: bool,
}

/// The processor's state as values.
pub struct CpuState {
    pub registers: Seq<u8>,
    pub input_ports: Seq<u8>,
    pub output_ports: Seq<u8>,
    pub ram: Seq<u8>,
    pub inst: Seq<u8>,
    pub pc: u32,
    pub zero_flag: bool,
    pub carry_flag: bool,
}

impl View for Cpu {
    type V = CpuState;

    open spec fn view(&self) -> CpuState {
        CpuState {
            registers: self.registers@,
            input_ports: self.input_ports@,
            output_ports: self.output_ports@,
            ram: self.ram@,
            inst: self.inst@,
            pc: self.pc,
            zero_flag: self.zero_flag,
            carry_flag: self.carry_flag,
        }
    }
}

impl CpuState {
    /// Every part has its size.
    pub open spec fn wf(self) -> bool {
        &&& self.registers.len() == 8
        &&& self.input_ports.len() == 4
        &&& self.output_ports.len() == 4
        &&& self.ram.len() == RAM_SIZE
        &&& self.inst.len() == 4
    }
}

impl Cpu {
    /// Every part has its size.
    pub open spec fn wf(&self) -> bool {
        self@.wf()
    }
}

/// A 24-bit value from three bytes, least significant first.
pub open spec fn le24(lo: u8, mid: u8, hi: u8) -> int {
    lo + mid * 256 + hi * 65536
}

/// The data address held in registers 2..=4.
pub open spec fn data_address(regs: Seq<u8>) -> int {
    le24(regs[2], regs[3], regs[4])
}

/// The stack pointer held in registers 5..=7.
pub open spec fn stack_pointer(regs: Seq<u8>) -> int {
    le24(regs[5], regs[6], regs[7])
}

/// The registers with the stack pointer set to `sp`.
pub open spec fn with_stack_pointer(regs: Seq<u8>, sp: int) -> Seq<u8> {
    regs.update(5, (sp % 256) as u8).update(6, ((sp / 256) % 256) as u8).update(
        7,
        ((sp / 65536) % 256) as u8,
    )
}

/// A source selector names a value an instruction can read: 0 is the
/// constant 0, 1..=8 the registers, 9 memory at the data address, 10 pops the
/// stack (the incremented stack pointer must address memory), 11..=14 the
/// input ports.
pub open spec fn source_ok(sel: u8, sp: int) -> bool {
    &&& sel <= 14
    &&& sel == 10 ==> sp + 1 < RAM_SIZE
}

/// Reads source `sel`: the value, the registers and the stack pointer after.
pub open spec fn read_source(
    regs: Seq<u8>,
    ram: Seq<u8>,
    inputs: Seq<u8>,
    sel: u8,
    addr: int,
    sp: int,
) -> (u8, Seq<u8>, int) {
    if sel == 0 {
        (0, regs, sp)
    } else if sel <= 8 {
        (regs[sel - 1], regs, sp)
    } else if sel == 9 {
        (ram[addr], regs, sp)
    } else if sel == 10 {
        (ram[sp + 1], with_stack_pointer(regs, sp + 1), sp + 1)
    } else {
        (inputs[sel - 11], regs, sp)
    }
}

/// An operand: the instruction byte itself when immediate, else the source it
/// selects.
pub open spec fn operand(
    immediate: bool,
    sel: u8,
    regs: Seq<u8>,
    ram: Seq<u8>,
    inputs: Seq<u8>,
    addr: int,
    sp: int,
) -> (u8, Seq<u8>, int) {
    if immediate {
        (sel, regs, sp)
    } else {
        read_source(regs, ram, inputs, sel, addr, sp)
    }
}

/// Where a result goes.
pub enum Target {
    Discard,
    Register(usize),
    Memory(usize),
    OutputPort(usize),
}

/// A destination selector names a place an instruction can write: 0 discards,
/// 1..=8 the registers, 9 memory at the data address, 10 pushes (the stack
/// pointer must be above 0), 11..=14 the output ports.
pub open spec fn dest_ok(sel: u8, sp: int) -> bool {
    &&& sel <= 14
    &&& sel == 10 ==> sp >= 1
}

/// Resolves destination `sel`: the place, the registers and the stack pointer
/// after (a push writes at the stack pointer, then decrements it).
pub open spec fn select_target(regs: Seq<u8>, sel: u8, addr: int, sp: int) -> (
    Target,
    Seq<u8>,
    int,
) {
    if sel == 0 {
        (Target::Discard, regs, sp)
    } else if sel <= 8 {
        (Target::Register((sel - 1) as usize), regs, sp)
    } else if sel == 9 {
        (Target::Memory(addr as usize), regs, sp)
    } else if sel == 10 {
        (Target::Memory(sp as usize), with_stack_pointer(regs, sp - 1), sp - 1)
    } else {
        (Target::OutputPort((sel - 11) as usize), regs, sp)
    }
}

/// The state with `v` written at `t`.
pub open spec fn store(s: CpuState, t: Target, v: u8) -> CpuState {
    match t {
        Target::Discard => s,
        Target::Register(i) => CpuState { registers: s.registers.update(i as int, v), ..s },
        Target::Memory(m) => CpuState { ram: s.ram.update(m as int, v), ..s },
        Target::OutputPort(i) => CpuState { output_ports: s.output_ports.update(i as int, v), ..s },
    }
}

/// Bit 7 of the first instruction byte: the first operand is immediate.
pub open spec fn first_immediate(b0: u8) -> bool {
    b0 >= 128
}

/// Bit 6: the second operand is immediate.
pub open spec fn second_immediate(b0: u8) -> bool {
    (b0 / 64) % 2 == 1
}

/// Bit 5: the flags are left unchanged.
pub open spec fn ignores_flags(b0: u8) -> bool {
    (b0 / 32) % 2 == 1
}

/// Bit 4: the result is halved.
pub open spec fn shifts_right(b0: u8) -> bool {
    (b0 / 16) % 2 == 1
}

/// The low nibble: the operation (15 halts).
pub open spec fn opcode(b0: u8) -> u8 {
    b0 % 16
}

/// Whether operation `op` sets the program counter to the data address:
/// 10 always, 11 on zero, 12 on not zero, 13 on carry, 14 on not carry.
pub open spec fn branch_taken(op: u8, zero: bool, carry: bool) -> bool {
    if op == 10 {
        true
    } else if op == 11 {
        zero
    } else if op == 12 {
        !zero
    } else if op == 13 {
        carry
    } else if op == 14 {
        !carry
    } else {
        false
    }
}

/// The input port text holds four bytes as pairs of hexadecimal digits.
pub open spec fn ports_text_ok(data: Seq<char>) -> bool {
    hex_digits_from(data, 0, 4)
}

/// The four input port values that the text spells, most significant digit
/// first in each pair.
pub open spec fn port_values(data: Seq<char>) -> Seq<u8> {
    Seq::new(4, |k: int| byte_value(data[2 * k + 1], data[2 * k]) as u8)
}

/// The number of cycles after which the emulator stops.
pub open spec fn cycle_limit_reached(count: u8) -> bool {
    count > 25
}

/// The four bytes at the program counter.
pub open spec fn fetch(s: CpuState) -> Seq<u8> {
    s.ram.subrange(s.pc as int, s.pc + 4)
}

/// The cycle runs without a fault: the instruction lies in memory, the input
/// text holds four bytes, and every selector names something (a pop needs
/// the stack pointer below the top of memory, a push above 0).
pub open spec fn emulate_ok(s: CpuState, count: u8, data: Seq<char>) -> bool {
    cycle_limit_reached(count) || {
        let inst = fetch(s);
        let inputs = port_values(data);
        let addr = data_address(s.registers);
        let sp0 = stack_pointer(s.registers);
        let first = operand(
            first_immediate(inst[0]),
            inst[1],
            s.registers,
            s.ram,
            inputs,
            addr,
            sp0,
        );
        let second = operand(
            second_immediate(inst[0]),
            inst[2],
            first.1,
            s.ram,
            inputs,
            addr,
            first.2,
        );
        &&& s.pc + 4 <= RAM_SIZE
        &&& ports_text_ok(data)
        &&& first_immediate(inst[0]) || source_ok(inst[1], sp0)
        &&& second_immediate(inst[0]) || source_ok(inst[2], first.2)
        &&& dest_ok(inst[3], second.2)
    }
}

/// The state once the cycle has fetched its instruction, decoded the input
/// port text, read both operands into instruction bytes 1 and 2 and resolved
/// the destination; and the destination.
pub open spec fn decode_spec(s: CpuState, data: Seq<char>) -> (CpuState, Target) {
    let inst = fetch(s);
    let b0 = inst[0];
    let inputs = port_values(data);
    let addr = data_address(s.registers);
    let sp0 = stack_pointer(s.registers);
    let first = operand(first_immediate(b0), inst[1], s.registers, s.ram, inputs, addr, sp0);
    let second = operand(second_immediate(b0), inst[2], first.1, s.ram, inputs, addr, first.2);
    let dest = select_target(second.1, inst[3], addr, second.2);
    (
        CpuState {
            registers: dest.1,
            input_ports: inputs,
            inst: inst.update(1, first.0).update(2, second.0),
            ..s
        },
        dest.0,
    )
}

/// Executes a decoded instruction: halts on operation 15; otherwise
/// computes, updates the flags, moves the program counter (to `addr` when
/// the operation branches, four bytes on otherwise) and stores the result.
pub open spec fn execute_spec(d: CpuState, t: Target, addr: int) -> (CpuState, bool) {
    let b0 = d.inst[0];
    let a = d.inst[1];
    let b = d.inst[2];
    let op = opcode(b0);
    if op == 15 {
        (d, true)
    } else {
        let flags = flags_after(
            op,
            a,
            b,
            shifts_right(b0),
            ignores_flags(b0),
            d.carry_flag,
            d.zero_flag,
        );
        let pc = if branch_taken(op, d.zero_flag, d.carry_flag) {
            addr
        } else {
            d.pc + 4
        };
        let executed = CpuState { pc: pc as u32, carry_flag: flags.0, zero_flag: flags.1, ..d };
        (store(executed, t, alu_result(op, a, b, shifts_right(b0))), false)
    }
}

/// One cycle: the state after it and whether the emulator halts. Past the
/// cycle limit nothing changes and the emulator halts.
pub open spec fn emulate_spec(s: CpuState, count: u8, data: Seq<char>) -> (CpuState, bool) {
    if cycle_limit_reached(count) {
        (s, true)
    } else {
        let d = decode_spec(s, data);
        execute_spec(d.0, d.1, data_address(s.registers))
    }
}

/// The program image: a header of three bytes giving the length `n`, then
/// `n` bytes, each as two hexadecimal digits, most significant first.
pub open spec fn program_ok(program: Seq<char>) -> bool {
    &&& hex_digits_from(program, 0, 3)
    &&& hex_digits_from(program, 6, program_length(program) as int)
}

/// Memory after loading: byte `k` of the image at address `k`.
pub open spec fn loaded_ram(ram: Seq<u8>, program: Seq<char>) -> Seq<u8> {
    Seq::new(
        ram.len(),
        |k: int|
            if k < program_length(program) {
                byte_value(program[6 + 2 * k + 1], program[6 + 2 * k]) as u8
            } else {
                ram[k]
            },
    )
}

/// Copies the four bytes at the program counter.
pub fn get_inst(pc: &mut u32, ram: &mut Vec<u8>) -> (inst: Vec<u8>)
    requires
        *old(pc) + 4 <= old(ram)@.len(),
    ensures
        *final(pc) == *old(pc),
        final(ram)@ == old(ram)@,
        inst@ == old(ram)@.subrange(*old(pc) as int, *old(pc) + 4),
{
    let mut inst: Vec<u8> = Vec::new();
    let n: usize = ram.len();
    let mut i: usize = 0;
    while i < 4
        invariant
            i <= 4,
            n == ram@.len(),
            *pc + 4 <= ram@.len(),
            inst@ == ram@.subrange(*pc as int, *pc + i),
        decreases 4 - i,
    {
        inst.push(ram[*pc as usize + i]);
        i = i + 1;
        assert(inst@ =~= ram@.subrange(*pc as int, *pc + i));
    }
    inst
}

/// The three bytes of a 24-bit value, least significant first, masked and
/// shifted out.
fn split24(v: u32) -> (bytes: (u8, u8, u8))
    requires
        v < 16777216,
    ensures
        bytes.0 == v % 256,
        bytes.1 == (v / 256) % 256,
        bytes.2 == (v / 65536) % 256,
{
    let lo: u32 = v & 0xFF;
    let mid: u32 = (v & 0xFF00) >> 0x8;
    let hi: u32 = (v & 0xFF0000) >> 0x10;
    assert(lo == v % 256 && mid == (v / 256) % 256 && hi == (v / 65536) % 256) by (bit_vector)
        requires
            lo == v & 0xFF,
            mid == (v & 0xFF00) >> 0x8,
            hi == (v & 0xFF0000) >> 0x10,
    ;
    (lo as u8, mid as u8, hi as u8)
}

impl Cpu {
    /// A processor with every register, port, flag and memory byte 0.
    pub fn new() -> (cpu: Cpu)
        ensures
            cpu.wf(),
            cpu@.registers == Seq::new(8, |i: int| 0u8),
            cpu@.input_ports == Seq::new(4, |i: int| 0u8),
            cpu@.output_ports == Seq::new(4, |i: int| 0u8),
            cpu@.ram == Seq::new(RAM_SIZE as nat, |i: int| 0u8),
            cpu@.inst == Seq::new(4, |i: int| 0u8),
            cpu@.pc == 0,
            !cpu@.zero_flag,
            !cpu@.carry_flag,
    {
        Cpu {
            registers: zeros(8),
            input_ports: zeros(4),
            output_ports: zeros(4),
            ram: zeros(RAM_SIZE),
            inst: zeros(4),
            pc: 0,
            zero_flag: false,
            carry_flag: false,
        }
    }

    /// Writes the stack pointer into registers 5..=7.
    fn set_stack_pointer(&mut self, sp: u32)
        requires
            old(self).wf(),
            sp < RAM_SIZE,
        ensures
            final(self)@ == (CpuState {
                registers: with_stack_pointer(old(self)@.registers, sp as int),
                ..old(self)@
            }),
    {
        let (lo, mid, hi) = split24(sp);
        self.registers[5] = lo;
        self.registers[6] = mid;
        self.registers[7] = hi;
    }

    /// Reads source `sel`, popping the stack for selector 10.
    fn read_source(&mut self, sel: u8, addr: u32, sp: &mut u32) -> (v: u8)
        requires
            old(self).wf(),
            addr < RAM_SIZE,
            *old(sp) < RAM_SIZE,
            source_ok(sel, *old(sp) as int),
        ensures
            (v, final(self)@.registers, *final(sp) as int) == read_source(
                old(self)@.registers,
                old(self)@.ram,
                old(self)@.input_ports,
                sel,
                addr as int,
                *old(sp) as int,
            ),
            final(self)@ == (CpuState { registers: final(self)@.registers, ..old(self)@ }),
            final(self).wf(),
            *final(sp) < RAM_SIZE,
    {
        if sel == 0 {
            0
        } else if sel <= 8 {
            self.registers[(sel - 1) as usize]
        } else if sel == 9 {
            self.ram[addr as usize]
        } else if sel == 10 {
            *sp = *sp + 1;
            let v: u8 = self.ram[*sp as usize];
            self.set_stack_pointer(*sp);
            v
        } else {
            self.input_ports[(sel - 11) as usize]
        }
    }

    /// Resolves destination `sel`, pushing for selector 10.
    fn select_target(&mut self, sel: u8, addr: u32, sp: &mut u32) -> (t: Target)
        requires
            old(self).wf(),
            addr < RAM_SIZE,
            *old(sp) < RAM_SIZE,
            dest_ok(sel, *old(sp) as int),
        ensures
            (t, final(self)@.registers, *final(sp) as int) == select_target(
                old(self)@.registers,
                sel,
                addr as int,
                *old(sp) as int,
            ),
            final(self)@ == (CpuState { registers: final(self)@.registers, ..old(self)@ }),
            final(self).wf(),
    {
        if sel == 0 {
            Target::Discard
        } else if sel <= 8 {
            Target::Register((sel - 1) as usize)
        } else if sel == 9 {
            Target::Memory(addr as usize)
        } else if sel == 10 {
            let tmp: u32 = *sp;
            *sp = *sp - 1;
            self.set_stack_pointer(*sp);
            Target::Memory(tmp as usize)
        } else {
            Target::OutputPort((sel - 11) as usize)
        }
    }

    /// Writes `v` at `t`.
    fn store(&mut self, t: Target, v: u8)
        requires
            old(self).wf(),
            match t {
                Target::Discard => true,
                Target::Register(i) => i < 8,
                Target::Memory(m) => m < RAM_SIZE,
                Target::OutputPort(i) => i < 4,
            },
        ensures
            final(self)@ == store(old(self)@, t, v),
            final(self).wf(),
    {
        match t {
            Target::Discard => {},
            Target::Register(i) => {
                self.registers[i] = v;
            },
            Target::Memory(m) => {
                self.ram[m] = v;
            },
            Target::OutputPort(i) => {
                self.output_ports[i] = v;
            },
        }
    }
}

/// Runs operation `op` (below 15) on the ALU: the codes 10..=14 add, as
/// code 0 does.
fn run_alu(
    op: u8,
    a: u8,
    b: u8,
    ignore_flags: &mut bool,
    shift_right: &mut bool,
    carry_flag: &mut bool,
    zero_flag: &mut bool,
) -> (result: u8)
    requires
        op < 15,
    ensures
        *final(ignore_flags) == *old(ignore_flags),
        *final(shift_right) == *old(shift_right),
        result == alu_result(op, a, b, *old(shift_right)),
        (*final(carry_flag), *final(zero_flag)) == flags_after(
            op,
            a,
            b,
            *old(shift_right),
            *old(ignore_flags),
            *old(carry_flag),
            *old(zero_flag),
        ),
{
    match op {
        1 => sub_inst(a, b, ignore_flags, shift_right, carry_flag, zero_flag),
        2 => or_inst(a, b, ignore_flags, shift_right, carry_flag, zero_flag),
        3 => nor_inst(a, b, ignore_flags, shift_right, carry_flag, zero_flag),
        4 => and_inst(a, b, ignore_flags, shift_right, carry_flag, zero_flag),
        5 => nand_inst(a, b, ignore_flags, shift_right, carry_flag, zero_flag),
        6 => xor_inst(a, b, ignore_flags, shift_right, carry_flag, zero_flag),
        7 => xnor_inst(a, b, ignore_flags, shift_right, carry_flag, zero_flag),
        8 => impl_inst(a, b, ignore_flags, shift_right, carry_flag, zero_flag),
        9 => nimpl_inst(a, b, ignore_flags, shift_right, carry_flag, zero_flag),
        _ => add_inst(a, b, ignore_flags, shift_right, carry_flag, zero_flag),
    }
}

impl Cpu {
    /// Decodes the input port text into the input ports.
    fn read_input_ports(&mut self, input_port_data: &Vec<char>)
        requires
            old(self).wf(),
            ports_text_ok(input_port_data@),
        ensures
            final(self)@ == (CpuState { input_ports: port_values(input_port_data@), ..old(self)@ }),
    {
        let mut k: usize = 0;
        while k < 4
            invariant
                self.wf(),
                k <= 4,
                ports_text_ok(input_port_data@),
                self@ == (CpuState { input_ports: self@.input_ports, ..old(self)@ }),
                forall|j: int| 0 <= j < k ==> self@.input_ports[j] == port_values(input_port_data@)[j],
            decreases 4 - k,
        {
            let v: u8 = hex_to_dec(input_port_data[2 * k + 1], input_port_data[2 * k]);
            self.input_ports[k] = v;
            k = k + 1;
        }
        assert(self@.input_ports =~= port_values(input_port_data@));
    }

    /// Reads an operand into instruction byte `which` (1 or 2) unless it is
    /// immediate.
    fn load_operand(&mut self, which: usize, immediate: bool, addr: u32, sp: &mut u32)
        requires
            old(self).wf(),
            which == 1 || which == 2,
            addr < RAM_SIZE,
            *old(sp) < RAM_SIZE,
            immediate || source_ok(old(self)@.inst[which as int], *old(sp) as int),
        ensures
            final(self).wf(),
            *final(sp) < RAM_SIZE,
            ({
                let r = operand(
                    immediate,
                    old(self)@.inst[which as int],
                    old(self)@.registers,
                    old(self)@.ram,
                    old(self)@.input_ports,
                    addr as int,
                    *old(sp) as int,
                );
                &&& final(self)@ == (CpuState {
                    registers: r.1,
                    inst: old(self)@.inst.update(which as int, r.0),
                    ..old(self)@
                })
                &&& *final(sp) == r.2
            }),
    {
        if !immediate {
            let sel: u8 = self.inst[which];
            let v: u8 = self.read_source(sel, addr, sp);
            self.inst[which] = v;
        } else {
            assert(old(self)@.inst.update(which as int, old(self)@.inst[which as int]) =~= old(
                self,
            )@.inst);
        }
    }

    /// Fetches, decodes the input ports and both operands, and resolves the
    /// destination.
    #[verifier::rlimit(40)]
    fn decode(&mut self, input_port_data: &Vec<char>) -> (t: Target)
        requires
            old(self).wf(),
            emulate_ok(old(self)@, 0, input_port_data@),
        ensures
            final(self).wf(),
            (final(self)@, t) == decode_spec(old(self)@, input_port_data@),
    {
        self.inst = get_inst(&mut self.pc, &mut self.ram);
        self.read_input_ports(input_port_data);
        let addr: u32 = (self.registers[2] as u32) + (self.registers[3] as u32) * 256
            + (self.registers[4] as u32) * 65536;
        let mut sp: u32 = (self.registers[5] as u32) + (self.registers[6] as u32) * 256
            + (self.registers[7] as u32) * 65536;
        let b0: u8 = self.inst[0];
        assert((b0 & 128 != 128) == !first_immediate(b0)) by (bit_vector);
        assert((b0 & 64 != 64) == !second_immediate(b0)) by (bit_vector);
        self.load_operand(1, b0 & 128 == 128, addr, &mut sp);
        self.load_operand(2, b0 & 64 == 64, addr, &mut sp);
        let sel: u8 = self.inst[3];
        self.select_target(sel, addr, &mut sp)
    }

    /// Executes the decoded instruction; returns whether it halts.
    fn execute(&mut self, target: Target, addr: u32) -> (halted: bool)
        requires
            old(self).wf(),
            addr < RAM_SIZE,
            old(self).pc + 4 <= RAM_SIZE,
            match target {
                Target::Discard => true,
                Target::Register(i) => i < 8,
                Target::Memory(m) => m < RAM_SIZE,
                Target::OutputPort(i) => i < 4,
            },
        ensures
            final(self).wf(),
            (final(self)@, halted) == execute_spec(old(self)@, target, addr as int),
    {
        let b0: u8 = self.inst[0];
        assert((b0 & 32 == 32) == ignores_flags(b0)) by (bit_vector);
        assert((b0 & 16 == 16) == shifts_right(b0)) by (bit_vector);
        assert((b0 & 15) == opcode(b0)) by (bit_vector);
        let mut ignore_flags: bool = b0 & 32 == 32;
        let mut shift_right: bool = b0 & 16 == 16;
        let op: u8 = b0 & 15;
        if op == 15 {
            return true;
        }
        let a: u8 = self.inst[1];
        let b: u8 = self.inst[2];
        let mut branched: bool = false;
        if op == 10 {
            branched = true;
            self.pc = addr;
        } else if op == 11 {
            branched = biz(&mut self.pc, &mut self.zero_flag, addr);
        } else if op == 12 {
            branched = bnz(&mut self.pc, &mut self.zero_flag, addr);
        } else if op == 13 {
            branched = bic(&mut self.pc, &mut self.carry_flag, addr);
        } else if op == 14 {
            branched = bnc(&mut self.pc, &mut self.carry_flag, addr);
        }
        let result: u8 = run_alu(
            op,
            a,
            b,
            &mut ignore_flags,
            &mut shift_right,
            &mut self.carry_flag,
            &mut self.zero_flag,
        );
        if !branched {
            self.pc = self.pc + 4;
        }
        self.store(target, result);
        false
    }

    /// One instruction cycle. Past the cycle limit it halts and changes
    /// nothing. Otherwise it fetches the four instruction bytes at the
    /// program counter, decodes the input port text, reads the two operands
    /// and resolves the destination (in that order, so pops and a push move
    /// the stack pointer in turn), then halts on operation 15, or computes,
    /// updates the flags, stores the result and moves the program counter
    /// to the data address when it branches and four bytes on otherwise.
    /// Returns whether the emulator halts.
    pub fn emulate(&mut self, count: u8, input_port_data: &Vec<char>) -> (halted: bool)
        requires
            old(self).wf(),
            emulate_ok(old(self)@, count, input_port_data@),
        ensures
            final(self).wf(),
            (final(self)@, halted) == emulate_spec(old(self)@, count, input_port_data@),
    {
        if count > 25 {
            return true;
        }
        let addr: u32 = (self.registers[2] as u32) + (self.registers[3] as u32) * 256
            + (self.registers[4] as u32) * 65536;
        let target: Target = self.decode(input_port_data);
        self.execute(target, addr)
    }
}

/// Whether source selector `sel` pops the stack when read.
pub open spec fn pops(immediate: bool, sel: u8) -> bool {
    !immediate && sel == 10
}

/// An operand moves the stack pointer by one exactly when it pops.
proof fn lemma_operand_sp(
    immediate: bool,
    sel: u8,
    regs: Seq<u8>,
    ram: Seq<u8>,
    inputs: Seq<u8>,
    addr: int,
    sp: int,
)
    ensures
        operand(immediate, sel, regs, ram, inputs, addr, sp).2 == sp + if pops(immediate, sel) {
            1int
        } else {
            0int
        },
{
}

/// Whether the text holds hexadecimal digits at `start..start + 2 * n`.
fn check_hex_digits(text: &Vec<char>, start: usize, n: usize) -> (ok: bool)
    requires
        start + 2 * n <= usize::MAX,
    ensures
        ok == hex_digits_from(text@, start as int, n as int),
{
    let end: usize = start + 2 * n;
    if end > text.len() {
        return false;
    }
    let mut i: usize = start;
    while i < end
        invariant
            end == start + 2 * n,
            start <= i <= end <= text@.len(),
            forall|j: int| start <= j < i ==> #[trigger] is_hex_digit(text@[j]),
        decreases end - i,
    {
        if !is_hex_digit_char(text[i]) {
            return false;
        }
        i = i + 1;
    }
    true
}

/// Whether the text is a program image the loader accepts.
pub fn program_well_formed(program: &Vec<char>) -> (ok: bool)
    ensures
        ok == program_ok(program@),
{
    if !check_hex_digits(program, 0, 3) {
        return false;
    }
    let n: u32 = header_length(program);
    check_hex_digits(program, 6, n as usize)
}

impl Cpu {
    /// Whether a cycle on this state and input text runs without a fault.
    pub fn can_emulate(&self, count: u8, input_port_data: &Vec<char>) -> (ok: bool)
        requires
            self.wf(),
        ensures
            ok == emulate_ok(self@, count, input_port_data@),
    {
        if count > 25 {
            return true;
        }
        if self.pc > (RAM_SIZE - 4) as u32 {
            return false;
        }
        if !check_hex_digits(input_port_data, 0, 4) {
            return false;
        }
        let b0: u8 = self.ram[self.pc as usize];
        let s1: u8 = self.ram[self.pc as usize + 1];
        let s2: u8 = self.ram[self.pc as usize + 2];
        let s3: u8 = self.ram[self.pc as usize + 3];
        let ghost inst = fetch(self@);
        assert(inst[0] == b0 && inst[1] == s1 && inst[2] == s2 && inst[3] == s3);
        assert((b0 & 128 == 128) == first_immediate(b0)) by (bit_vector);
        assert((b0 & 64 == 64) == second_immediate(b0)) by (bit_vector);
        let imm1: bool = b0 & 128 == 128;
        let imm2: bool = b0 & 64 == 64;
        let sp0: u32 = (self.registers[5] as u32) + (self.registers[6] as u32) * 256
            + (self.registers[7] as u32) * 65536;
        let ghost inputs = port_values(input_port_data@);
        let ghost addr = data_address(self@.registers);
        proof {
            lemma_operand_sp(imm1, s1, self@.registers, self@.ram, inputs, addr, sp0 as int);
            let first = operand(imm1, s1, self@.registers, self@.ram, inputs, addr, sp0 as int);
            lemma_operand_sp(imm2, s2, first.1, self@.ram, inputs, addr, first.2);
        }
        if !imm1 && !(s1 <= 14 && (s1 != 10 || (sp0 as usize) + 1 < RAM_SIZE)) {
            return false;
        }
        let sp1: u32 = if !imm1 && s1 == 10 {
            sp0 + 1
        } else {
            sp0
        };
        if !imm2 && !(s2 <= 14 && (s2 != 10 || (sp1 as usize) + 1 < RAM_SIZE)) {
            return false;
        }
        let sp2: u32 = if !imm2 && s2 == 10 {
            sp1 + 1
        } else {
            sp1
        };
        s3 <= 14 && (s3 != 10 || sp2 >= 1)
    }

    /// Loads a program image: byte `k` of the image goes to address `k`.
    pub fn load_program(&mut self, program: &Vec<char>)
        requires
            old(self).wf(),
            program_ok(program@),
        ensures
            final(self)@ == (CpuState {
                ram: loaded_ram(old(self)@.ram, program@),
                ..old(self)@
            }),
            final(self).wf(),
    {
        let len: u32 = header_length(program) * 2;
        let ghost n = program_length(program@);
        let mut i: u32 = 6;
        while i < len + 6
            invariant
                len == 2 * n,
                n == program_length(program@),
                old(self)@.ram.len() == RAM_SIZE,
                6 + 2 * n <= program@.len(),
                forall|j: int| 6 <= j < 6 + 2 * n ==> #[trigger] is_hex_digit(program@[j]),
                n <= 255 * 256 + 255 * 16 + 255,
                program_ok(program@),
                i % 2 == 0,
                6 <= i <= len + 6,
                self.wf(),
                self@ == (CpuState { ram: self@.ram, ..old(self)@ }),
                forall|k: int|
                    0 <= k < self@.ram.len() ==> #[trigger] self@.ram[k] == if k < (i - 6) / 2 {
                        loaded_ram(old(self)@.ram, program@)[k]
                    } else {
                        old(self)@.ram[k]
                    },
            decreases len + 6 - i,
        {
            assert(is_hex_digit(program@[i as int]) && is_hex_digit(program@[i + 1]));
            let first_char: char = program[(i + 1) as usize];
            let second_char: char = program[i as usize];
            let ghost before = self@.ram;
            let idx: usize = (i / 2 - 3) as usize;
            let v: u8 = hex_to_dec(first_char, second_char);
            self.ram[idx] = v;
            assert(6 + 2 * idx == i && idx < n && idx < RAM_SIZE);
            assert(v == loaded_ram(old(self)@.ram, program@)[idx as int]);
            i = i + 2;
            assert forall|k: int| 0 <= k < self@.ram.len() implies #[trigger] self@.ram[k] == if k
                < (i - 6) / 2 {
                loaded_ram(old(self)@.ram, program@)[k]
            } else {
                old(self)@.ram[k]
            } by {
                if k != idx {
                    assert(self@.ram[k] == before[k]);
                }
            }
        }
        assert(self@.ram =~= loaded_ram(old(self)@.ram, program@));
    }

    /// The output ports as the emulator writes them out: two lower-case
    /// hexadecimal digits per port, most significant first.
    pub fn output_port_text(&self) -> (text: Vec<u8>)
        requires
            self.wf(),
        ensures
            text@ == hex_text(self@.output_ports),
    {
        to_hex_text(self.output_ports.as_slice())
    }
}

/// A vector of `n` zero bytes.
fn zeros(n: usize) -> (v: Vec<u8>)
    ensures
        v@ == Seq::new(n as nat, |i: int| 0u8),
{
    let mut v: Vec<u8> = Vec::new();
    let mut i: usize = 0;
    while i < n
        invariant
            i <= n,
            v@ =~= Seq::new(i as nat, |j: int| 0u8),
        decreases n - i,
    {
        v.push(0);
        i = i + 1;
    }
    v
}

} // verus!

verus! {

/// Splitting a 24-bit value into bytes and joining them gives it back.
proof fn lemma_le24_roundtrip(x: u32)
    requires
        x < 16777216,
    ensures
        le24((x % 256) as u8, ((x / 256) % 256) as u8, ((x / 65536) % 256) as u8) == x,
{
    assert((x % 256) + ((x / 256) % 256) * 256 + ((x / 65536) % 256) * 65536 == x) by (bit_vector)
        requires
            x < 16777216,
    ;
}

/// Joining three bytes and splitting the value gives them back.
proof fn lemma_le24_bytes(lo: u8, mid: u8, hi: u8)
    ensures
        le24(lo, mid, hi) % 256 == lo,
        (le24(lo, mid, hi) / 256) % 256 == mid,
        (le24(lo, mid, hi) / 65536) % 256 == hi,
        0 <= le24(lo, mid, hi) < 16777216,
{
    let l: u32 = lo as u32;
    let m: u32 = mid as u32;
    let h: u32 = hi as u32;
    assert((l + m * 256 + h * 65536) % 256 == l && ((l + m * 256 + h * 65536) / 256) % 256 == m
        && ((l + m * 256 + h * 65536) / 65536) % 256 == h && l + m * 256 + h * 65536 < 16777216)
        by (bit_vector)
        requires
            l < 256,
            m < 256,
            h < 256,
    ;
}

/// The stack pointer read back after it is written is the value written, and
/// writing back the stack pointer the registers hold changes nothing.
pub proof fn lemma_stack_pointer_roundtrip(regs: Seq<u8>, sp: int)
    requires
        regs.len() == 8,
        0 <= sp < RAM_SIZE,
    ensures
        stack_pointer(with_stack_pointer(regs, sp)) == sp,
        with_stack_pointer(regs, stack_pointer(regs)) == regs,
{
    lemma_le24_roundtrip(sp as u32);
    lemma_le24_bytes(regs[5], regs[6], regs[7]);
    assert(with_stack_pointer(regs, stack_pointer(regs)) =~= regs);
}

/// The stack is last in, first out: a byte that a destination pushes is the
/// byte that the next pop reads, and the pop puts the stack pointer (and the
/// registers that hold it) back where they were.
pub proof fn lemma_pop_after_push(
    regs: Seq<u8>,
    ram: Seq<u8>,
    inputs: Seq<u8>,
    addr: int,
    v: u8,
)
    requires
        regs.len() == 8,
        ram.len() == RAM_SIZE,
        stack_pointer(regs) >= 1,
    ensures
        ({
            let sp = stack_pointer(regs);
            let pushed = select_target(regs, 10, addr, sp);
            &&& dest_ok(10, sp)
            &&& pushed.0 == Target::Memory(sp as usize)
            &&& stack_pointer(pushed.1) == sp - 1
            &&& source_ok(10, pushed.2)
            &&& read_source(pushed.1, ram.update(sp, v), inputs, 10, addr, pushed.2) == (
                v,
                regs,
                sp,
            )
        }),
{
    let sp = stack_pointer(regs);
    lemma_le24_bytes(regs[5], regs[6], regs[7]);
    let pushed = select_target(regs, 10, addr, sp);
    lemma_stack_pointer_roundtrip(regs, sp - 1);
    lemma_stack_pointer_roundtrip(pushed.1, sp);
    lemma_stack_pointer_roundtrip(regs, sp);
    assert(with_stack_pointer(pushed.1, sp) =~= with_stack_pointer(regs, sp));
}

/// Past the cycle limit a cycle changes nothing and halts.
pub proof fn lemma_cycle_limit_halts(s: CpuState, count: u8, data: Seq<char>)
    requires
        cycle_limit_reached(count),
    ensures
        emulate_spec(s, count, data) == (s, true),
{
}

/// The halt operation (15) stops the emulator without storing a result: the
/// program counter, the flags, memory and the output ports keep their
/// values.
pub proof fn lemma_halt_keeps_state(s: CpuState, count: u8, data: Seq<char>)
    requires
        s.wf(),
        !cycle_limit_reached(count),
        emulate_ok(s, count, data),
        opcode(fetch(s)[0]) == 15,
    ensures
        ({
            let r = emulate_spec(s, count, data);
            &&& r.1
            &&& r.0.pc == s.pc
            &&& r.0.zero_flag == s.zero_flag
            &&& r.0.carry_flag == s.carry_flag
            &&& r.0.ram == s.ram
            &&& r.0.output_ports == s.output_ports
        }),
{
}

/// Any other operation continues: the program counter moves to the data
/// address when the operation branches and four bytes on otherwise.
pub proof fn lemma_program_counter_moves(s: CpuState, count: u8, data: Seq<char>)
    requires
        s.wf(),
        !cycle_limit_reached(count),
        emulate_ok(s, count, data),
        opcode(fetch(s)[0]) != 15,
    ensures
        ({
            let r = emulate_spec(s, count, data);
            &&& !r.1
            &&& r.0.pc == if branch_taken(opcode(fetch(s)[0]), s.zero_flag, s.carry_flag) {
                data_address(s.registers)
            } else {
                s.pc + 4
            }
        }),
{
    let d = decode_spec(s, data);
    assert(d.0.inst[0] == fetch(s)[0]);
    lemma_le24_bytes(s.registers[2], s.registers[3], s.registers[4]);
}

/// The output port text read back as input port text gives the output ports:
/// the emulator's output format is its input format.
pub proof fn lemma_port_text_roundtrip(ports: Seq<u8>)
    requires
        ports.len() == 4,
    ensures
        ports_text_ok(chars_of(hex_text(ports))),
        port_values(chars_of(hex_text(ports))) == ports,
{
    let text = chars_of(hex_text(ports));
    assert forall|i: int| 0 <= i < 8 implies #[trigger] is_hex_digit(text[i]) by {
        lemma_hex_digit_roundtrip(ports[i / 2]);
    }
    assert forall|k: int| 0 <= k < 4 implies #[trigger] port_values(text)[k] == ports[k] by {
        lemma_hex_digit_roundtrip(ports[k]);
        assert(text[2 * k] == hex_digit_byte(ports[k] / 16) as char);
        assert(text[2 * k + 1] == hex_digit_byte(ports[k] % 16) as char);
    }
    assert(port_values(text) =~= ports);
}

} // verus!

verus! {

/// The first instruction byte's bits: bit 7 makes the first operand
/// immediate, bit 6 the second, bit 5 (and only it) suppresses flag updates,
/// bit 4 (and only it) halves the result, and the low nibble is the
/// operation.
pub proof fn lemma_control_bits(b0: u8)
    ensures
        first_immediate(b0) <==> b0 & 0x80 != 0,
        second_immediate(b0) <==> b0 & 0x40 != 0,
        ignores_flags(b0) <==> b0 & 0x20 != 0,
        shifts_right(b0) <==> b0 & 0x10 != 0,
        opcode(b0) == b0 & 0x0F,
{
    assert((b0 >= 128) <==> b0 & 0x80 != 0) by (bit_vector);
    assert(((b0 / 64) % 2 == 1) <==> b0 & 0x40 != 0) by (bit_vector);
    assert(((b0 / 32) % 2 == 1) <==> b0 & 0x20 != 0) by (bit_vector);
    assert(((b0 / 16) % 2 == 1) <==> b0 & 0x10 != 0) by (bit_vector);
    assert(b0 % 16 == b0 & 0x0F) by (bit_vector);
}

/// A cycle on an instruction `[b0, a, b, 1]` with both operands immediate
/// and an operation below 10 stores the operation's result on `a` and `b`
/// into register 0 (halved exactly when bit 4 is set), updates the flags from
/// it unless bit 5 is set, and moves on four bytes. For an addition the
/// stored byte is `(a + b) / 2` with bit 4 and `(a + b) % 256` without.
pub proof fn lemma_immediate_operation_cycle(s: CpuState, data: Seq<char>)
    requires
        s.wf(),
        s.pc + 4 <= RAM_SIZE,
        ports_text_ok(data),
        fetch(s)[0] & 0xC0 == 0xC0,
        fetch(s)[0] & 0x0F < 10,
        fetch(s)[3] == 1,
    ensures
        ({
            let b0 = fetch(s)[0];
            let a = fetch(s)[1];
            let b = fetch(s)[2];
            let op = b0 & 0x0F;
            let shift = b0 & 0x10 != 0;
            let r = emulate_spec(s, 0, data);
            &&& emulate_ok(s, 0, data)
            &&& !r.1
            &&& r.0.registers[0] == alu_result(op, a, b, shift)
            &&& op == 0 ==> r.0.registers[0] == if shift {
                (a + b) / 2
            } else {
                (a + b) % 256
            }
            &&& b0 & 0x20 == 0 ==> r.0.carry_flag == alu_carry(op, a, b, shift)
                && r.0.zero_flag == (r.0.registers[0] == 0)
            &&& b0 & 0x20 != 0 ==> r.0.carry_flag == s.carry_flag && r.0.zero_flag
                == s.zero_flag
            &&& r.0.pc == s.pc + 4
            &&& r.0.ram == s.ram
            &&& r.0.output_ports == s.output_ports
        }),
{
    let b0 = fetch(s)[0];
    lemma_control_bits(b0);
    assert(b0 & 0x0F < 10 ==> b0 & 0x0F != 15);
    assert(b0 & 0xC0 == 0xC0 ==> b0 & 0x80 != 0 && b0 & 0x40 != 0) by (bit_vector);
}

} // verus!

verus! {

/// Branch conditions: code 10 always jumps, 11 and 12 test the zero flag
/// and are each other's negation, 13 and 14 test the carry flag and are each
/// other's negation; the other codes never jump.
pub proof fn lemma_branch_conditions(op: u8, zero: bool, carry: bool)
    ensures
        branch_taken(10, zero, carry),
        branch_taken(11, zero, carry) == zero,
        branch_taken(12, zero, carry) == !branch_taken(11, zero, carry),
        branch_taken(13, zero, carry) == carry,
        branch_taken(14, zero, carry) == !branch_taken(13, zero, carry),
        op < 10 || op > 14 ==> !branch_taken(op, zero, carry),
{
}

/// Selectors 1..=9 name the same place as source and as destination: a byte
/// stored at destination `sel` is what source `sel` then reads. Selector 0
/// reads 0 and discards what is stored; selectors 11..=14 read input port
/// `sel - 11` and write output port `sel - 11`.
pub proof fn lemma_selectors_name_places(s: CpuState, sel: u8, v: u8)
    requires
        s.wf(),
        sel <= 14,
        sel != 10,
    ensures
        ({
            let addr = data_address(s.registers);
            let sp = stack_pointer(s.registers);
            let t = select_target(s.registers, sel, addr, sp);
            let after = store(s, t.0, v);
            &&& t.1 == s.registers
            &&& t.2 == sp
            &&& read_source(s.registers, s.ram, s.input_ports, sel, addr, sp).1 == s.registers
            &&& 1 <= sel <= 9 ==> read_source(
                after.registers,
                after.ram,
                after.input_ports,
                sel,
                addr,
                sp,
            ).0 == v
            &&& 1 <= sel <= 8 ==> read_source(s.registers, s.ram, s.input_ports, sel, addr, sp).0
                == s.registers[sel - 1] && after.registers == s.registers.update(sel - 1, v)
            &&& sel == 9 ==> after.ram == s.ram.update(addr, v)
            &&& sel == 0 ==> read_source(s.registers, s.ram, s.input_ports, sel, addr, sp).0 == 0
                && after == s
            &&& 11 <= sel ==> read_source(s.registers, s.ram, s.input_ports, sel, addr, sp).0
                == s.input_ports[sel - 11] && after.output_ports == s.output_ports.update(
                sel - 11,
                v,
            )
        }),
{
    lemma_le24_bytes(s.registers[2], s.registers[3], s.registers[4]);
}

} // verus!
