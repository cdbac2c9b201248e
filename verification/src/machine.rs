//! Small-step semantics of the byte-code machine.
//!
//! A `Machine` is the ghost state of one run: the 256 memory cells, the
//! program counter and the two general registers.  `step` maps a state to
//! the outcome of executing one instruction; `run` iterates it.  The
//! executable interpreter in `interp` is proved to follow `step` exactly.

use vstd::prelude::*;

verus! {

/// Opcode byte of LOAD reg, addr: reg <- memory[addr].
pub const LOAD: u8 = 0x01;

/// Opcode byte of STORE reg, addr: memory[addr] <- reg.
pub const STORE: u8 = 0x02;

/// Opcode byte of ADD reg1, reg2: reg1 <- reg1 + reg2 (wrapping).
pub const ADD: u8 = 0x03;

/// Opcode byte of SUB reg1, reg2: reg1 <- reg1 - reg2 (wrapping).
pub const SUB: u8 = 0x04;

/// Opcode byte of ADDI reg, imm: reg <- reg + imm (wrapping).
pub const ADDI: u8 = 0x05;

/// Opcode byte of SUBI reg, imm: reg <- reg - imm (wrapping).
pub const SUBI: u8 = 0x06;

/// Opcode byte of JUMP target: the program counter is set to target.
pub const JUMP: u8 = 0x07;

/// Opcode byte of BEQZ reg, offset: if reg is zero the program counter
/// is set to the fall-through address plus offset.
pub const BEQZ: u8 = 0x08;

/// Opcode byte of HALT: the run ends normally.
pub const HALT: u8 = 0xff;

/// First index of the instruction region; the data region is below it.
pub const MEMORY_SHIFT: usize = 8;

/// Number of memory cells.
pub const MEMORY_SIZE: usize = 256;

/// Identifier byte of the first general register.
pub const R1: u8 = 0x01;

/// Identifier byte of the second general register.
pub const R2: u8 = 0x02;

/// An unrecoverable contract violation in the instruction stream.  Each
/// variant carries the offending value: the opcode byte, the register
/// identifier, or the address that fell outside its region.
#[derive(Clone, Copy, Debug, PartialEq, Eq)]
pub enum Fault {
    /// The opcode byte at the program counter names no instruction.
    UnknownOpcode(u8),
    /// A register operand names neither general register.
    BadRegister(usize),
    /// A load or store address falls outside the data region.
    DataAddress(usize),
    /// An instruction fetch, jump target or branch target falls outside
    /// the instruction region.
    CodeAddress(usize),
}

/// The ghost state of a run: memory contents, program counter and the
/// two general registers.
pub struct Machine {
    pub mem: Seq<u8>,
    pub pc: int,
    pub r1: u8,
    pub r2: u8,
}

/// What executing from a state can lead to: still running in a new
/// state, halted normally, or aborted by a fault.  The machine carried
/// by `Halted` and `Faulted` is the state at that moment; a fault keeps
/// the state of the instant before the faulting instruction, so no
/// partial effect of it is visible.
pub enum Outcome {
    Running(Machine),
    Halted(Machine),
    Faulted(Machine, Fault),
}

/// True of indices in the data region.
pub open spec fn in_data(i: int) -> bool {
    0 <= i < MEMORY_SHIFT
}

/// True of indices in the instruction region.
pub open spec fn in_code(i: int) -> bool {
    MEMORY_SHIFT <= i < MEMORY_SIZE
}

/// True of operand bytes that name a general register.
pub open spec fn reg_valid(r: u8) -> bool {
    r == R1 || r == R2
}

/// The value of the named general register.
pub open spec fn reg_read(s: Machine, r: u8) -> u8
    recommends
        reg_valid(r),
{
    if r == R1 {
        s.r1
    } else {
        s.r2
    }
}

/// The state with the named general register set to `v`.
pub open spec fn reg_write(s: Machine, r: u8, v: u8) -> Machine
    recommends
        reg_valid(r),
{
    if r == R1 {
        Machine { r1: v, ..s }
    } else {
        Machine { r2: v, ..s }
    }
}

/// Effect of LOAD at the program counter: the register named at pc+1 is
/// set to the data cell named at pc+2, and execution falls through.
pub open spec fn spec_load(s: Machine) -> Outcome {
    if !in_code(s.pc + 1) {
        Outcome::Faulted(s, Fault::CodeAddress((s.pc + 1) as usize))
    } else if !in_code(s.pc + 2) {
        Outcome::Faulted(s, Fault::CodeAddress((s.pc + 2) as usize))
    } else {
        let reg = s.mem[s.pc + 1];
        let addr = s.mem[s.pc + 2];
        if !reg_valid(reg) {
            Outcome::Faulted(s, Fault::BadRegister(reg as usize))
        } else if !in_data(addr as int) {
            Outcome::Faulted(s, Fault::DataAddress(addr as usize))
        } else {
            Outcome::Running(Machine { pc: s.pc + 3, ..reg_write(s, reg, s.mem[addr as int]) })
        }
    }
}

/// Effect of STORE at the program counter: the data cell named at pc+2
/// is set to the register named at pc+1, and execution falls through.
pub open spec fn spec_store(s: Machine) -> Outcome {
    if !in_code(s.pc + 1) {
        Outcome::Faulted(s, Fault::CodeAddress((s.pc + 1) as usize))
    } else if !in_code(s.pc + 2) {
        Outcome::Faulted(s, Fault::CodeAddress((s.pc + 2) as usize))
    } else {
        let reg = s.mem[s.pc + 1];
        let addr = s.mem[s.pc + 2];
        if !reg_valid(reg) {
            Outcome::Faulted(s, Fault::BadRegister(reg as usize))
        } else if !in_data(addr as int) {
            Outcome::Faulted(s, Fault::DataAddress(addr as usize))
        } else {
            Outcome::Running(
                Machine { mem: s.mem.update(addr as int, reg_read(s, reg)), pc: s.pc + 3, ..s },
            )
        }
    }
}

/// Which of the two wrapping operations an arithmetic instruction performs.
#[derive(Clone, Copy, Debug)]
pub enum ArithOp {
    Add,
    Sub,
}

/// Wrapping 8-bit addition or subtraction.
pub open spec fn apply_arith(op: ArithOp, a: u8, b: u8) -> u8 {
    match op {
        ArithOp::Add => a.wrapping_add(b),
        ArithOp::Sub => a.wrapping_sub(b),
    }
}

/// Effect of ADD or SUB at the program counter: the register named at
/// pc+1 is combined with the register named at pc+2, wrapping at 8 bits.
pub open spec fn spec_arith(s: Machine, op: ArithOp) -> Outcome {
    if !in_code(s.pc + 1) {
        Outcome::Faulted(s, Fault::CodeAddress((s.pc + 1) as usize))
    } else if !in_code(s.pc + 2) {
        Outcome::Faulted(s, Fault::CodeAddress((s.pc + 2) as usize))
    } else {
        let reg1 = s.mem[s.pc + 1];
        let reg2 = s.mem[s.pc + 2];
        if !reg_valid(reg1) {
            Outcome::Faulted(s, Fault::BadRegister(reg1 as usize))
        } else if !reg_valid(reg2) {
            Outcome::Faulted(s, Fault::BadRegister(reg2 as usize))
        } else {
            let v = apply_arith(op, reg_read(s, reg1), reg_read(s, reg2));
            Outcome::Running(Machine { pc: s.pc + 3, ..reg_write(s, reg1, v) })
        }
    }
}

/// Effect of ADDI or SUBI at the program counter: the register named at
/// pc+1 is combined with the immediate byte at pc+2, wrapping at 8 bits.
pub open spec fn spec_arith_imm(s: Machine, op: ArithOp) -> Outcome {
    if !in_code(s.pc + 1) {
        Outcome::Faulted(s, Fault::CodeAddress((s.pc + 1) as usize))
    } else if !in_code(s.pc + 2) {
        Outcome::Faulted(s, Fault::CodeAddress((s.pc + 2) as usize))
    } else {
        let reg1 = s.mem[s.pc + 1];
        let imm = s.mem[s.pc + 2];
        if !reg_valid(reg1) {
            Outcome::Faulted(s, Fault::BadRegister(reg1 as usize))
        } else {
            let v = apply_arith(op, reg_read(s, reg1), imm);
            Outcome::Running(Machine { pc: s.pc + 3, ..reg_write(s, reg1, v) })
        }
    }
}

/// Effect of JUMP at the program counter: the program counter is set to
/// the absolute address given by the byte at pc+1.
pub open spec fn spec_jump(s: Machine) -> Outcome {
    if !in_code(s.pc + 1) {
        Outcome::Faulted(s, Fault::CodeAddress((s.pc + 1) as usize))
    } else {
        let target = s.mem[s.pc + 1];
        if !in_code(target as int) {
            Outcome::Faulted(s, Fault::CodeAddress(target as usize))
        } else {
            Outcome::Running(Machine { pc: target as int, ..s })
        }
    }
}

/// Effect of BEQZ at the program counter: if the register named at pc+1
/// is zero, the offset byte at pc+2 is added (unsigned) to the
/// fall-through address pc+3; otherwise execution falls through.
pub open spec fn spec_beqz(s: Machine) -> Outcome {
    if !in_code(s.pc + 1) {
        Outcome::Faulted(s, Fault::CodeAddress((s.pc + 1) as usize))
    } else if !in_code(s.pc + 2) {
        Outcome::Faulted(s, Fault::CodeAddress((s.pc + 2) as usize))
    } else {
        let reg1 = s.mem[s.pc + 1];
        let offset = s.mem[s.pc + 2];
        if !reg_valid(reg1) {
            Outcome::Faulted(s, Fault::BadRegister(reg1 as usize))
        } else if reg_read(s, reg1) == 0 {
            let target = s.pc + 3 + offset;
            if !in_code(target) {
                Outcome::Faulted(s, Fault::CodeAddress(target as usize))
            } else {
                Outcome::Running(Machine { pc: target, ..s })
            }
        } else {
            Outcome::Running(Machine { pc: s.pc + 3, ..s })
        }
    }
}

/// One step of the machine: fetch the opcode byte at the program
/// counter and execute it.  Fetching outside the instruction region,
/// or a byte that names no instruction, is a fault.
pub open spec fn step(s: Machine) -> Outcome {
    if !in_code(s.pc) {
        Outcome::Faulted(s, Fault::CodeAddress(s.pc as usize))
    } else {
        let op = s.mem[s.pc];
        if op == HALT {
            Outcome::Halted(s)
        } else if op == LOAD {
            spec_load(s)
        } else if op == STORE {
            spec_store(s)
        } else if op == ADD {
            spec_arith(s, ArithOp::Add)
        } else if op == SUB {
            spec_arith(s, ArithOp::Sub)
        } else if op == ADDI {
            spec_arith_imm(s, ArithOp::Add)
        } else if op == SUBI {
            spec_arith_imm(s, ArithOp::Sub)
        } else if op == JUMP {
            spec_jump(s)
        } else if op == BEQZ {
            spec_beqz(s)
        } else {
            Outcome::Faulted(s, Fault::UnknownOpcode(op))
        }
    }
}

/// The initial state over the given memory: the program counter at the
/// first instruction byte and both registers zero.
pub open spec fn start(mem: Seq<u8>) -> Machine {
    Machine { mem, pc: MEMORY_SHIFT as int, r1: 0, r2: 0 }
}

/// The outcome after `n` steps from `s`.  Halting and faulting are
/// absorbing: once reached, further steps change nothing.
pub open spec fn run(s: Machine, n: nat) -> Outcome
    decreases n,
{
    if n == 0 {
        Outcome::Running(s)
    } else {
        match run(s, (n - 1) as nat) {
            Outcome::Running(t) => step(t),
            o => o,
        }
    }
}

/// True when the outcome is a normal halt with the given memory.
pub open spec fn halted_with(o: Outcome, mem: Seq<u8>) -> bool {
    o matches Outcome::Halted(m) && m.mem == mem
}

/// True when the outcome is an abort with the given fault, the memory
/// standing as it did when the fault was raised.
pub open spec fn faulted_with(o: Outcome, mem: Seq<u8>, f: Fault) -> bool {
    o matches Outcome::Faulted(m, f2) && f2 == f && m.mem == mem
}

/// True of memory contents whose program stops: some number of steps
/// from the initial state reaches a halt or a fault.  A program that
/// jumps in a cycle forever has no such bound.
pub open spec fn stops(mem: Seq<u8>) -> bool {
    exists|n: nat| !(#[trigger] run(start(mem), n) is Running)
}

/// Runs compose: stepping `a + b` times from `s` is stepping `b` times
/// from wherever `a` steps left it running.
pub proof fn lemma_run_add(s: Machine, t: Machine, a: nat, b: nat)
    requires
        run(s, a) == Outcome::Running(t),
    ensures
        run(s, a + b) == run(t, b),
    decreases b,
{
    if b > 0 {
        lemma_run_add(s, t, a, (b - 1) as nat);
    }
}

/// A halt or fault is final: whatever `run` reaches at step `m` other
/// than a running state, it still holds at every later step `n`.
pub proof fn lemma_run_stops(s: Machine, m: nat, n: nat)
    requires
        m <= n,
        !(run(s, m) is Running),
    ensures
        run(s, n) == run(s, m),
    decreases n,
{
    if n > m {
        lemma_run_stops(s, m, (n - 1) as nat);
    }
}

} // verus!
