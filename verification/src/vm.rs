use vstd::prelude::*;

use crate::bytes::{be16_value, le32_value};
use crate::opcode::{opcode_of_byte, Opcode};
use crate::sys::{fresh_machine_id, logical_core_count, now_utc_millis};
use vstd::wrapping::i32_specs;

verus! {

/// What a run can log: its start, an orderly stop with an exit code, or a
/// crash with a code.
#[derive(Debug, Clone, Copy, PartialEq, Eq, Structural)]
pub enum VMEventType {
    Start,
    GracefulStop { code: u32 },
    Crash { code: u32 },
}

/// The exit code an event carries; a start carries zero.
pub open spec fn spec_stop_code(e: VMEventType) -> u32 {
    match e {
        VMEventType::Start => 0,
        VMEventType::GracefulStop { code } => code,
        VMEventType::Crash { code } => code,
    }
}

impl VMEventType {
    /// The exit code this event carries; a start carries zero.
    pub fn stop_code(&self) -> (r: u32)
        ensures
            r == spec_stop_code(*self),
    {
        match self {
            VMEventType::Start => 0,
            VMEventType::GracefulStop { code } => *code,
            VMEventType::Crash { code } => *code,
        }
    }
}

/// One entry of a machine's event log: what happened, when (milliseconds
/// since the Unix epoch), and which machine it happened to.
#[derive(Debug, Clone, Copy, PartialEq, Eq, Structural)]
pub struct VMEvent {
    pub event: VMEventType,
    pub at: i64,
    pub application_id: u128,
}

/// The part of a machine that executing instructions reads and writes: the
/// register file, the program counter and bytes, the comparison flag, the
/// remainder of the last division, the heap, the read-only data, and the
/// bytes printed so far.
pub ghost struct VmCore {
    pub registers: Seq<i32>,
    pub pc: int,
    pub program: Seq<u8>,
    pub remainder: u32,
    pub equal_flag: bool,
    pub heap: Seq<u8>,
    pub ro_data: Seq<u8>,
    pub output: Seq<u8>,
}

/// The position of the first NUL byte at or after `i`, or -1 when none is
/// left.
pub open spec fn spec_find_nul(ro: Seq<u8>, i: int) -> int
    decreases ro.len() - i,
{
    if 0 <= i < ro.len() {
        if ro[i] == 0 {
            i
        } else {
            spec_find_nul(ro, i + 1)
        }
    } else {
        -1
    }
}

/// A step that cannot be carried out: the machine is left unchanged and
/// the run ends with code 1.
pub open spec fn spec_fault(c: VmCore) -> (VmCore, Option<u32>) {
    (c, Some(1u32))
}

/// One fetch-decode-execute step of the machine.
///
/// A fetch at or past the end of the program ends the run with code 1, as
/// do `HLT` and every undefined opcode (`IGL`), each after consuming its
/// opcode byte. Every other instruction owns a four-byte slot: it leaves
/// `pc` four bytes further, except the jumps, which place `pc` themselves.
/// A step whose operands reach past the program, name a register outside
/// the file, divide by zero or overflow the division, jump to a negative
/// or unrepresentable target, shrink the heap, or print from a region
/// without a terminating NUL is a fault: it ends the run with code 1 and
/// changes nothing. Arithmetic on registers wraps around.
pub open spec fn spec_step(c: VmCore) -> (VmCore, Option<u32>) {
    if c.pc >= c.program.len() || c.pc < 0 {
        (c, Some(1u32))
    } else {
        let op = opcode_of_byte(c.program[c.pc]);
        match op {
            Opcode::HLT => (VmCore { pc: c.pc + 1, ..c }, Some(1u32)),
            Opcode::IGL => (VmCore { pc: c.pc + 1, ..c }, Some(1u32)),
            Opcode::LOAD => {
                if c.pc + 4 > c.program.len() {
                    spec_fault(c)
                } else {
                    let a = c.program[c.pc + 1];
                    if a >= 32 {
                        spec_fault(c)
                    } else {
                        let v = be16_value(c.program[c.pc + 2], c.program[c.pc + 3]);
                        (
                            VmCore {
                                registers: c.registers.update(a as int, v as i32),
                                pc: c.pc + 4,
                                ..c
                            },
                            None,
                        )
                    }
                }
            },
            Opcode::ADD => spec_arith(c, op),
            Opcode::SUB => spec_arith(c, op),
            Opcode::MUL => spec_arith(c, op),
            Opcode::DIV => spec_arith(c, op),
            Opcode::EQ => spec_compare(c, op),
            Opcode::NEQ => spec_compare(c, op),
            Opcode::GT => spec_compare(c, op),
            Opcode::LT => spec_compare(c, op),
            Opcode::GTQ => spec_compare(c, op),
            Opcode::LTQ => spec_compare(c, op),
            Opcode::JMP => {
                if c.pc + 4 > c.program.len() {
                    spec_fault(c)
                } else {
                    let a = c.program[c.pc + 1];
                    if a >= 32 {
                        spec_fault(c)
                    } else {
                        let t = c.registers[a as int];
                        if t < 0 {
                            spec_fault(c)
                        } else {
                            (VmCore { pc: t as int, ..c }, None)
                        }
                    }
                }
            },
            Opcode::JMPF => {
                if c.pc + 4 > c.program.len() {
                    spec_fault(c)
                } else {
                    let a = c.program[c.pc + 1];
                    if a >= 32 {
                        spec_fault(c)
                    } else {
                        let v = c.registers[a as int];
                        if v < 0 || c.pc + 2 + v > usize::MAX {
                            spec_fault(c)
                        } else {
                            (VmCore { pc: c.pc + 2 + v, ..c }, None)
                        }
                    }
                }
            },
            Opcode::JMPB => {
                if c.pc + 4 > c.program.len() {
                    spec_fault(c)
                } else {
                    let a = c.program[c.pc + 1];
                    if a >= 32 {
                        spec_fault(c)
                    } else {
                        let v = c.registers[a as int];
                        if v < 0 || v > c.pc + 2 {
                            spec_fault(c)
                        } else {
                            (VmCore { pc: c.pc + 2 - v, ..c }, None)
                        }
                    }
                }
            },
            Opcode::JEQ => spec_cond_jump(c, true),
            Opcode::JNEQ => spec_cond_jump(c, false),
            Opcode::ALOC => {
                if c.pc + 4 > c.program.len() {
                    spec_fault(c)
                } else {
                    let a = c.program[c.pc + 1];
                    if a >= 32 {
                        spec_fault(c)
                    } else {
                        let v = c.registers[a as int];
                        if v < 0 || c.heap.len() + v > usize::MAX {
                            spec_fault(c)
                        } else {
                            (
                                VmCore {
                                    heap: c.heap + Seq::new(v as nat, |i: int| 0u8),
                                    pc: c.pc + 4,
                                    ..c
                                },
                                None,
                            )
                        }
                    }
                }
            },
            Opcode::INC => {
                if c.pc + 4 > c.program.len() {
                    spec_fault(c)
                } else {
                    let a = c.program[c.pc + 1];
                    if a >= 32 {
                        spec_fault(c)
                    } else {
                        (
                            VmCore {
                                registers: c.registers.update(
                                    a as int,
                                    i32_specs::wrapping_add(c.registers[a as int], 1),
                                ),
                                pc: c.pc + 4,
                                ..c
                            },
                            None,
                        )
                    }
                }
            },
            Opcode::DEC => {
                if c.pc + 4 > c.program.len() {
                    spec_fault(c)
                } else {
                    let a = c.program[c.pc + 1];
                    if a >= 32 {
                        spec_fault(c)
                    } else {
                        (
                            VmCore {
                                registers: c.registers.update(
                                    a as int,
                                    i32_specs::wrapping_sub(c.registers[a as int], 1),
                                ),
                                pc: c.pc + 4,
                                ..c
                            },
                            None,
                        )
                    }
                }
            },
            Opcode::LUI => {
                if c.pc + 4 > c.program.len() {
                    spec_fault(c)
                } else {
                    (VmCore { pc: c.pc + 4, ..c }, None)
                }
            },
            Opcode::PRTS => {
                if c.pc + 4 > c.program.len() {
                    spec_fault(c)
                } else {
                    let off = be16_value(c.program[c.pc + 1], c.program[c.pc + 2]) as int;
                    let nul = spec_find_nul(c.ro_data, off);
                    if nul < 0 {
                        spec_fault(c)
                    } else {
                        (
                            VmCore {
                                output: c.output + c.ro_data.subrange(off, nul),
                                pc: c.pc + 4,
                                ..c
                            },
                            None,
                        )
                    }
                }
            },
        }
    }
}

/// The three-register arithmetic step: the first two operands name the
/// inputs, the third names the destination. Addition, subtraction and
/// multiplication wrap; division faults on zero and on overflow and keeps
/// the truncated remainder.
pub open spec fn spec_arith(c: VmCore, op: Opcode) -> (VmCore, Option<u32>) {
    if c.pc + 4 > c.program.len() {
        spec_fault(c)
    } else {
        let a = c.program[c.pc + 1];
        let b = c.program[c.pc + 2];
        let d = c.program[c.pc + 3];
        if a >= 32 || b >= 32 || d >= 32 {
            spec_fault(c)
        } else {
            let x = c.registers[a as int];
            let y = c.registers[b as int];
            match op {
                Opcode::ADD => (
                    VmCore {
                        registers: c.registers.update(d as int, i32_specs::wrapping_add(x, y)),
                        pc: c.pc + 4,
                        ..c
                    },
                    None,
                ),
                Opcode::SUB => (
                    VmCore {
                        registers: c.registers.update(d as int, i32_specs::wrapping_sub(x, y)),
                        pc: c.pc + 4,
                        ..c
                    },
                    None,
                ),
                Opcode::MUL => (
                    VmCore {
                        registers: c.registers.update(d as int, i32_specs::wrapping_mul(x, y)),
                        pc: c.pc + 4,
                        ..c
                    },
                    None,
                ),
                Opcode::DIV => {
                    match (x.checked_div(y), x.checked_rem(y)) {
                        (Some(q), Some(rm)) => (
                            VmCore {
                                registers: c.registers.update(d as int, q),
                                remainder: rm as u32,
                                pc: c.pc + 4,
                                ..c
                            },
                            None,
                        ),
                        _ => spec_fault(c),
                    }
                },
                _ => spec_fault(c),
            }
        }
    }
}

/// The comparison step: the first two operands are compared, the outcome
/// lands in the equal flag, and the third operand byte is consumed unread.
pub open spec fn spec_compare(c: VmCore, op: Opcode) -> (VmCore, Option<u32>) {
    if c.pc + 4 > c.program.len() {
        spec_fault(c)
    } else {
        let a = c.program[c.pc + 1];
        let b = c.program[c.pc + 2];
        if a >= 32 || b >= 32 {
            spec_fault(c)
        } else {
            let x = c.registers[a as int];
            let y = c.registers[b as int];
            let flag = match op {
                Opcode::EQ => x == y,
                Opcode::NEQ => x != y,
                Opcode::GT => x > y,
                Opcode::LT => x < y,
                Opcode::GTQ => x >= y,
                Opcode::LTQ => x <= y,
                _ => false,
            };
            (VmCore { equal_flag: flag, pc: c.pc + 4, ..c }, None)
        }
    }
}

/// The conditional jumps: when the equal flag agrees with `when_equal`,
/// `pc` becomes the named register's value; otherwise the instruction's
/// four-byte slot is consumed.
pub open spec fn spec_cond_jump(c: VmCore, when_equal: bool) -> (VmCore, Option<u32>) {
    if c.pc + 4 > c.program.len() {
        spec_fault(c)
    } else {
        let a = c.program[c.pc + 1];
        if a >= 32 {
            spec_fault(c)
        } else {
            let t = c.registers[a as int];
            if c.equal_flag == when_equal {
                if t < 0 {
                    spec_fault(c)
                } else {
                    (VmCore { pc: t as int, ..c }, None)
                }
            } else {
                (VmCore { pc: c.pc + 4, ..c }, None)
            }
        }
    }
}

/// Up to `fuel` steps of the machine: the state and code where the run
/// ended, or the state reached with `None` when `fuel` ran out first.
pub open spec fn spec_run_steps(c: VmCore, fuel: nat) -> (VmCore, Option<u32>)
    decreases fuel,
{
    if fuel == 0 {
        (c, None)
    } else {
        let stepped = spec_step(c);
        match stepped.1 {
            Some(code) => stepped,
            None => spec_run_steps(stepped.0, (fuel - 1) as nat),
        }
    }
}

/// Whether an image's frame is sound: it is long enough to hold the
/// 64-byte header and the entry offset, and opens with the magic.
pub open spec fn spec_header_ok(program: Seq<u8>) -> bool {
    &&& program.len() >= 68
    &&& program[0] == 0x45
    &&& program[1] == 0x50
    &&& program[2] == 0x49
    &&& program[3] == 0x45
}

/// The entry offset an image names, read as a little-endian 32-bit value
/// from bytes 64 through 67.
pub open spec fn spec_entry_offset(program: Seq<u8>) -> u32 {
    le32_value(program[64], program[65], program[66], program[67])
}

/// Law: a step that executes a non-jump, non-terminal instruction leaves
/// `pc` exactly four bytes — the instruction's full slot — past where it
/// stood.
pub proof fn lemma_step_advances_four(c: VmCore)
    requires
        0 <= c.pc < c.program.len(),
        spec_step(c).1 is None,
        ({
            let op = opcode_of_byte(c.program[c.pc]);
            !(op == Opcode::JMP || op == Opcode::JMPF || op == Opcode::JMPB || op == Opcode::JEQ
                || op == Opcode::JNEQ)
        }),
    ensures
        spec_step(c).0.pc == c.pc + 4,
{
}

/// A step never rewrites the program or the read-only data, and never
/// resizes a full register file.
pub proof fn lemma_step_frame(c: VmCore)
    requires
        c.registers.len() == 32,
    ensures
        spec_step(c).0.program == c.program,
        spec_step(c).0.ro_data == c.ro_data,
        spec_step(c).0.registers.len() == 32,
{
}

/// A whole run never rewrites the program or the read-only data, and
/// never resizes a full register file.
pub proof fn lemma_run_steps_frame(c: VmCore, fuel: nat)
    requires
        c.registers.len() == 32,
    ensures
        spec_run_steps(c, fuel).0.program == c.program,
        spec_run_steps(c, fuel).0.ro_data == c.ro_data,
        spec_run_steps(c, fuel).0.registers.len() == 32,
    decreases fuel,
{
    if fuel > 0 {
        lemma_step_frame(c);
        let stepped = spec_step(c);
        if stepped.1 is None {
            lemma_run_steps_frame(stepped.0, (fuel - 1) as nat);
        }
    }
}

/// Law: every byte of the undefined range — 200 through 255 among them —
/// decodes to `IGL`, and executing it ends the run with code 1 after its
/// opcode byte.
pub proof fn lemma_undefined_byte_terminates(c: VmCore)
    requires
        0 <= c.pc < c.program.len(),
        22 <= c.program[c.pc],
    ensures
        opcode_of_byte(c.program[c.pc]) == Opcode::IGL,
        spec_step(c).0 == (VmCore { pc: c.pc + 1, ..c }),
        spec_step(c).1 == Some(1u32),
{
    crate::opcode::lemma_undefined_byte_decodes_igl(c.program[c.pc]);
}

/// How much stack space a machine reserves up front.
pub const DEFAULT_STACK_SPACE: usize = 2097152;

/// The register machine: thirty-two signed 32-bit registers, a program
/// counter into its program bytes, a comparison flag, the remainder of the
/// last division, a growable zeroed heap, read-only data for `PRTS`, and a
/// byte sink holding everything printed. Each machine carries a fresh
/// identifier and logs the start and end of every run.
#[derive(Debug)]
pub struct VirtualMachine {
    pub registers: Vec<i32>,
    pub logical_cores: usize,
    pub stack: Vec<i32>,
    pub loop_counter: usize,
    pub id: u128,
    pub events: Vec<VMEvent>,
    pub pc: usize,
    pub sp: usize,
    pub bp: usize,
    pub program: Vec<u8>,
    pub remainder: u32,
    pub equal_flag: bool,
    pub heap: Vec<u8>,
    pub ro_data: Vec<u8>,
    pub output: Vec<u8>,
    pub alias: Option<String>,
}

/// The executing part of a machine, as the step function sees it.
pub open spec fn core_of(vm: VirtualMachine) -> VmCore {
    VmCore {
        registers: vm.registers@,
        pc: vm.pc as int,
        program: vm.program@,
        remainder: vm.remainder,
        equal_flag: vm.equal_flag,
        heap: vm.heap@,
        ro_data: vm.ro_data@,
        output: vm.output@,
    }
}

/// The first NUL byte of `ro` at or after `from`, if any is left.
fn find_nul(ro: &Vec<u8>, from: usize) -> (r: Option<usize>)
    ensures
        match r {
            Some(j) => spec_find_nul(ro@, from as int) == j as int && from <= j < ro@.len(),
            None => spec_find_nul(ro@, from as int) < 0,
        },
{
    let mut i = from;
    while i < ro.len() && ro[i] != 0
        invariant
            from <= i,
            spec_find_nul(ro@, from as int) == spec_find_nul(ro@, i as int),
        decreases ro@.len() - i,
    {
        i = i + 1;
    }
    if i < ro.len() {
        Some(i)
    } else {
        None
    }
}

/// An exact copy of an event log.
fn clone_events(v: &Vec<VMEvent>) -> (r: Vec<VMEvent>)
    ensures
        r@ == v@,
{
    let mut out: Vec<VMEvent> = Vec::new();
    let mut i: usize = 0;
    while i < v.len()
        invariant
            i <= v@.len(),
            out@ =~= v@.subrange(0, i as int),
        decreases v@.len() - i,
    {
        out.push(v[i]);
        i = i + 1;
    }
    proof {
        assert(out@ =~= v@);
    }
    out
}

impl VirtualMachine {
    /// A machine is well formed when its register file holds exactly
    /// thirty-two registers.
    pub open spec fn wf(&self) -> bool {
        self.registers@.len() == 32
    }

    /// A fresh machine: zeroed registers, empty program, heap and logs,
    /// and a newly drawn identifier.
    pub fn new() -> (vm: Self)
        ensures
            vm.wf(),
            vm.registers@ =~= Seq::new(32, |i: int| 0i32),
            vm.pc == 0,
            vm.sp == 0,
            vm.bp == 0,
            vm.loop_counter == 0,
            vm.remainder == 0,
            vm.equal_flag == false,
            vm.program@ =~= Seq::<u8>::empty(),
            vm.heap@ =~= Seq::<u8>::empty(),
            vm.ro_data@ =~= Seq::<u8>::empty(),
            vm.output@ =~= Seq::<u8>::empty(),
            vm.events@ =~= Seq::<VMEvent>::empty(),
            vm.stack@ =~= Seq::<i32>::empty(),
            vm.alias is None,
            vm.logical_cores >= 1,
    {
        VirtualMachine {
            id: fresh_machine_id(),
            events: Vec::new(),
            logical_cores: logical_core_count(),
            loop_counter: 0,
            stack: Vec::with_capacity(DEFAULT_STACK_SPACE),
            registers: vec![0i32; 32],
            program: Vec::new(),
            pc: 0,
            sp: 0,
            bp: 0,
            remainder: 0,
            equal_flag: false,
            heap: Vec::new(),
            ro_data: Vec::new(),
            output: Vec::new(),
            alias: None,
        }
    }

    /// The same machine under a name; an empty name clears it.
    pub fn with_alias(self, alias: String) -> (r: Self)
        ensures
            alias@.len() == 0 ==> r == (VirtualMachine { alias: None, ..self }),
            alias@.len() > 0 ==> r == (VirtualMachine { alias: Some(alias), ..self }),
    {
        let mut vm = self;
        if alias.as_str().is_empty() {
            vm.alias = None;
        } else {
            vm.alias = Some(alias);
        }
        vm
    }

    /// Append one byte to the program.
    pub fn add_byte(&mut self, b: u8)
        ensures
            *final(self) == (VirtualMachine { program: final(self).program, ..*old(self) }),
            final(self).program@ == old(self).program@.push(b),
    {
        self.program.push(b);
    }

    /// Append a whole byte string to the program.
    pub fn add_bytes(&mut self, b: Vec<u8>)
        ensures
            *final(self) == (VirtualMachine { program: final(self).program, ..*old(self) }),
            final(self).program@ == old(self).program@ + b@,
    {
        let mut tail = b;
        self.program.append(&mut tail);
    }

    /// A fresh machine with two registers preloaded, for exercising
    /// instructions.
    pub fn get_test_vm() -> (vm: Self)
        ensures
            vm.wf(),
            vm.registers@ =~= Seq::new(32, |i: int| 0i32).update(0, 5i32).update(1, 10i32),
            vm.pc == 0,
            vm.remainder == 0,
            vm.equal_flag == false,
            vm.program@ =~= Seq::<u8>::empty(),
            vm.heap@ =~= Seq::<u8>::empty(),
            vm.ro_data@ =~= Seq::<u8>::empty(),
            vm.output@ =~= Seq::<u8>::empty(),
            vm.events@ =~= Seq::<VMEvent>::empty(),
    {
        let mut vm = VirtualMachine::new();
        vm.registers[0] = 5;
        vm.registers[1] = 10;
        vm
    }

    fn verify_header(&self) -> (r: bool)
        ensures
            r == spec_header_ok(self.program@),
    {
        if self.program.len() < 68 {
            return false;
        }
        self.program[0] == 0x45 && self.program[1] == 0x50 && self.program[2] == 0x49
            && self.program[3] == 0x45
    }

    fn get_starting_offset(&self) -> (r: u32)
        requires
            self.program@.len() >= 68,
        ensures
            r == spec_entry_offset(self.program@),
    {
        (self.program[64] as u32) | ((self.program[65] as u32) << 8) | ((self.program[66]
            as u32) << 16) | ((self.program[67] as u32) << 24)
    }

    fn execute_instruction(&mut self) -> (r: Option<u32>)
        requires
            old(self).wf(),
        ensures
            final(self).wf(),
            core_of(*final(self)) == spec_step(core_of(*old(self))).0,
            r == spec_step(core_of(*old(self))).1,
            final(self).events == old(self).events,
            final(self).id == old(self).id,
            final(self).logical_cores == old(self).logical_cores,
            final(self).stack == old(self).stack,
            final(self).sp == old(self).sp,
            final(self).bp == old(self).bp,
            final(self).loop_counter == old(self).loop_counter,
            final(self).alias == old(self).alias,
    {
        if self.pc >= self.program.len() {
            return Some(1);
        }
        let pc0 = self.pc;
        let op = Opcode::from_byte(self.program[pc0]);
        match op {
            Opcode::HLT => {
                self.pc = pc0 + 1;
                Some(1)
            },
            Opcode::IGL => {
                self.pc = pc0 + 1;
                Some(1)
            },
            Opcode::LOAD => {
                if self.program.len() - pc0 < 4 {
                    return Some(1);
                }
                let a = self.program[pc0 + 1];
                if a >= 32 {
                    return Some(1);
                }
                let v: u16 = ((self.program[pc0 + 2] as u16) << 8) | (self.program[pc0 + 3]
                    as u16);
                self.registers[a as usize] = v as i32;
                self.pc = pc0 + 4;
                None
            },
            Opcode::ADD | Opcode::SUB | Opcode::MUL | Opcode::DIV => {
                if self.program.len() - pc0 < 4 {
                    return Some(1);
                }
                let a = self.program[pc0 + 1];
                let b = self.program[pc0 + 2];
                let d = self.program[pc0 + 3];
                if a >= 32 || b >= 32 || d >= 32 {
                    return Some(1);
                }
                let x = self.registers[a as usize];
                let y = self.registers[b as usize];
                match op {
                    Opcode::ADD => {
                        self.registers[d as usize] = x.wrapping_add(y);
                    },
                    Opcode::SUB => {
                        self.registers[d as usize] = x.wrapping_sub(y);
                    },
                    Opcode::MUL => {
                        self.registers[d as usize] = x.wrapping_mul(y);
                    },
                    _ => {
                        match (x.checked_div(y), x.checked_rem(y)) {
                            (Some(q), Some(rm)) => {
                                self.registers[d as usize] = q;
                                self.remainder = #[verifier::truncate] (rm as u32);
                            },
                            _ => {
                                return Some(1);
                            },
                        }
                    },
                }
                self.pc = pc0 + 4;
                None
            },
            Opcode::EQ | Opcode::NEQ | Opcode::GT | Opcode::LT | Opcode::GTQ | Opcode::LTQ => {
                if self.program.len() - pc0 < 4 {
                    return Some(1);
                }
                let a = self.program[pc0 + 1];
                let b = self.program[pc0 + 2];
                if a >= 32 || b >= 32 {
                    return Some(1);
                }
                let x = self.registers[a as usize];
                let y = self.registers[b as usize];
                self.equal_flag = match op {
                    Opcode::EQ => x == y,
                    Opcode::NEQ => x != y,
                    Opcode::GT => x > y,
                    Opcode::LT => x < y,
                    Opcode::GTQ => x >= y,
                    _ => x <= y,
                };
                self.pc = pc0 + 4;
                None
            },
            Opcode::JMP => {
                if self.program.len() - pc0 < 4 {
                    return Some(1);
                }
                let a = self.program[pc0 + 1];
                if a >= 32 {
                    return Some(1);
                }
                let t = self.registers[a as usize];
                if t < 0 {
                    return Some(1);
                }
                self.pc = t as usize;
                None
            },
            Opcode::JMPF => {
                if self.program.len() - pc0 < 4 {
                    return Some(1);
                }
                let a = self.program[pc0 + 1];
                if a >= 32 {
                    return Some(1);
                }
                let v = self.registers[a as usize];
                if v < 0 {
                    return Some(1);
                }
                match (pc0 + 2).checked_add(v as usize) {
                    Some(np) => {
                        self.pc = np;
                        None
                    },
                    None => Some(1),
                }
            },
            Opcode::JMPB => {
                if self.program.len() - pc0 < 4 {
                    return Some(1);
                }
                let a = self.program[pc0 + 1];
                if a >= 32 {
                    return Some(1);
                }
                let v = self.registers[a as usize];
                if v < 0 {
                    return Some(1);
                }
                if (v as usize) > pc0 + 2 {
                    return Some(1);
                }
                self.pc = pc0 + 2 - (v as usize);
                None
            },
            Opcode::JEQ | Opcode::JNEQ => {
                if self.program.len() - pc0 < 4 {
                    return Some(1);
                }
                let a = self.program[pc0 + 1];
                if a >= 32 {
                    return Some(1);
                }
                let t = self.registers[a as usize];
                let taken = if matches!(op, Opcode::JEQ) {
                    self.equal_flag
                } else {
                    !self.equal_flag
                };
                if taken {
                    if t < 0 {
                        return Some(1);
                    }
                    self.pc = t as usize;
                } else {
                    self.pc = pc0 + 4;
                }
                None
            },
            Opcode::ALOC => {
                if self.program.len() - pc0 < 4 {
                    return Some(1);
                }
                let a = self.program[pc0 + 1];
                if a >= 32 {
                    return Some(1);
                }
                let v = self.registers[a as usize];
                if v < 0 {
                    return Some(1);
                }
                match self.heap.len().checked_add(v as usize) {
                    Some(_) => {
                        crate::bytes::grow_zeroed(&mut self.heap, v as usize);
                        self.pc = pc0 + 4;
                        None
                    },
                    None => Some(1),
                }
            },
            Opcode::INC => {
                if self.program.len() - pc0 < 4 {
                    return Some(1);
                }
                let a = self.program[pc0 + 1];
                if a >= 32 {
                    return Some(1);
                }
                let x = self.registers[a as usize];
                self.registers[a as usize] = x.wrapping_add(1);
                self.pc = pc0 + 4;
                None
            },
            Opcode::DEC => {
                if self.program.len() - pc0 < 4 {
                    return Some(1);
                }
                let a = self.program[pc0 + 1];
                if a >= 32 {
                    return Some(1);
                }
                let x = self.registers[a as usize];
                self.registers[a as usize] = x.wrapping_sub(1);
                self.pc = pc0 + 4;
                None
            },
            Opcode::LUI => {
                if self.program.len() - pc0 < 4 {
                    return Some(1);
                }
                self.pc = pc0 + 4;
                None
            },
            Opcode::PRTS => {
                if self.program.len() - pc0 < 4 {
                    return Some(1);
                }
                let off: u16 = ((self.program[pc0 + 1] as u16) << 8) | (self.program[pc0 + 2]
                    as u16);
                match find_nul(&self.ro_data, off as usize) {
                    Some(nul) => {
                        crate::bytes::push_sub(
                            &mut self.output,
                            &self.ro_data,
                            off as usize,
                            nul,
                        );
                        self.pc = pc0 + 4;
                        None
                    },
                    None => Some(1),
                }
            },
        }
    }

    /// Execute exactly one instruction, for controlled stepping.
    pub fn run_once(&mut self)
        requires
            old(self).wf(),
        ensures
            final(self).wf(),
            core_of(*final(self)) == spec_step(core_of(*old(self))).0,
            final(self).events == old(self).events,
            final(self).id == old(self).id,
            final(self).logical_cores == old(self).logical_cores,
            final(self).stack == old(self).stack,
            final(self).sp == old(self).sp,
            final(self).bp == old(self).bp,
            final(self).loop_counter == old(self).loop_counter,
            final(self).alias == old(self).alias,
    {
        let _ = self.execute_instruction();
    }

    /// Run the loaded image to its end and hand back the event log.
    ///
    /// The run is logged first. An image whose frame is unsound — too
    /// short for the header, opening with the wrong magic, or naming an
    /// entry the machine cannot address — is logged as a crash with code
    /// 1 and leaves the machine unchanged. Otherwise `pc` is placed at 68
    /// plus the entry offset and instructions execute until one of them
    /// ends the run, whose code is logged as a graceful stop. A run still
    /// going after the step budget is cut off and logged as a crash.
    pub fn run(&mut self) -> (r: Vec<VMEvent>)
        requires
            old(self).wf(),
        ensures
            final(self).wf(),
            r@ == final(self).events@,
            final(self).id == old(self).id,
            final(self).logical_cores == old(self).logical_cores,
            final(self).alias == old(self).alias,
            final(self).stack == old(self).stack,
            final(self).sp == old(self).sp,
            final(self).bp == old(self).bp,
            final(self).loop_counter == old(self).loop_counter,
            final(self).events@.len() == old(self).events@.len() + 2,
            final(self).events@.subrange(0, old(self).events@.len() as int) == old(
                self,
            ).events@,
            final(self).events@[old(self).events@.len() as int].event == VMEventType::Start,
            final(self).events@[old(self).events@.len() as int].application_id == old(self).id,
            final(self).events@.last().application_id == old(self).id,
            ({
                let c0 = core_of(*old(self));
                let last = final(self).events@.last().event;
                if !(spec_header_ok(c0.program) && 68 + spec_entry_offset(c0.program)
                    <= usize::MAX) {
                    core_of(*final(self)) == c0 && last == (VMEventType::Crash { code: 1u32 })
                } else {
                    let start = (VmCore { pc: 68 + spec_entry_offset(c0.program), ..c0 });
                    let outcome = spec_run_steps(start, usize::MAX as nat);
                    core_of(*final(self)) == outcome.0 && match outcome.1 {
                        Some(code) => last == (VMEventType::GracefulStop { code }),
                        None => last == (VMEventType::Crash { code: 1u32 }),
                    }
                }
            }),
    {
        let t0 = now_utc_millis();
        let start_event = VMEvent { event: VMEventType::Start, at: t0, application_id: self.id };
        self.events.push(start_event);
        if !self.verify_header() {
            let t1 = now_utc_millis();
            self.events.push(
                VMEvent {
                    event: VMEventType::Crash { code: 1 },
                    at: t1,
                    application_id: self.id,
                },
            );
            return clone_events(&self.events);
        }
        let entry = self.get_starting_offset();
        let start_pc = match (68usize).checked_add(entry as usize) {
            Some(p) => p,
            None => {
                let t1 = now_utc_millis();
                self.events.push(
                    VMEvent {
                        event: VMEventType::Crash { code: 1 },
                        at: t1,
                        application_id: self.id,
                    },
                );
                return clone_events(&self.events);
            },
        };
        self.pc = start_pc;
        let ghost pre = *self;
        let ghost start_core = core_of(*self);
        let mut steps: usize = 0;
        let mut outcome: Option<u32> = None;
        loop
            invariant_except_break
                self.wf(),
                steps <= usize::MAX,
                outcome is None,
                spec_run_steps(start_core, usize::MAX as nat) == spec_run_steps(
                    core_of(*self),
                    (usize::MAX - steps) as nat,
                ),
                self.events == pre.events,
                self.id == pre.id,
                self.logical_cores == pre.logical_cores,
                self.alias == pre.alias,
                self.stack == pre.stack,
                self.sp == pre.sp,
                self.bp == pre.bp,
                self.loop_counter == pre.loop_counter,
            ensures
                self.wf(),
                self.events == pre.events,
                self.id == pre.id,
                self.logical_cores == pre.logical_cores,
                self.alias == pre.alias,
                self.stack == pre.stack,
                self.sp == pre.sp,
                self.bp == pre.bp,
                self.loop_counter == pre.loop_counter,
                spec_run_steps(start_core, usize::MAX as nat) == (
                    core_of(*self),
                    outcome,
                ),
            decreases usize::MAX - steps,
        {
            if steps == usize::MAX {
                break ;
            }
            let stepped = self.execute_instruction();
            steps = steps + 1;
            match stepped {
                Some(code) => {
                    outcome = Some(code);
                    break ;
                },
                None => {},
            }
        }
        let t1 = now_utc_millis();
        match outcome {
            Some(code) => {
                self.events.push(
                    VMEvent {
                        event: VMEventType::GracefulStop { code },
                        at: t1,
                        application_id: self.id,
                    },
                );
            },
            None => {
                self.events.push(
                    VMEvent {
                        event: VMEventType::Crash { code: 1 },
                        at: t1,
                        application_id: self.id,
                    },
                );
            },
        }
        clone_events(&self.events)
    }

    /// Frame raw code bytes as a runnable image: the 64-byte header, a
    /// zero entry offset, then the bytes.
    pub fn prepend_header(b: Vec<u8>) -> (r: Vec<u8>)
        ensures
            r@ == crate::assembler::spec_pie_header() + Seq::new(4, |i: int| 0u8) + b@,
    {
        let mut prepension: Vec<u8> = Vec::new();
        prepension.push(0x45);
        prepension.push(0x50);
        prepension.push(0x49);
        prepension.push(0x45);
        while prepension.len() < 68
            invariant
                4 <= prepension@.len() <= 68,
                prepension@.subrange(0, 4) =~= crate::assembler::spec_pie_magic(),
                forall|k: int| 4 <= k < prepension@.len() ==> prepension@[k] == 0u8,
            decreases 68 - prepension@.len(),
        {
            prepension.push(0);
        }
        let mut tail = b;
        let ghost tailv = tail@;
        prepension.append(&mut tail);
        proof {
            assert(prepension@ =~= crate::assembler::spec_pie_header() + Seq::new(
                4,
                |i: int| 0u8,
            ) + tailv);
        }
        prepension
    }
}

} // verus!

