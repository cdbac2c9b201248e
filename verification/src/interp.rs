//! The executable fetch-decode-execute loop, proved against the
//! small-step semantics in `machine`.
//!
//! Every fatal contract violation in the instruction stream (unknown
//! opcode, bad register operand, address outside its region) ends the
//! run at once with the corresponding `Fault`; nothing of the faulting
//! instruction's effect is visible.

use crate::machine::{
    faulted_with, halted_with, in_code, in_data, lemma_run_stops, run, spec_arith, spec_arith_imm,
    spec_beqz, spec_jump, spec_load, spec_store, start, step, stops, ArithOp, Fault, Machine,
    Outcome, ADD, ADDI, BEQZ, HALT, JUMP, LOAD, MEMORY_SHIFT, MEMORY_SIZE, STORE, SUB, SUBI,
};
use vstd::prelude::*;

verus! {

/// Register operand byte naming the first general register.
const R1: usize = 0x01;

/// Register operand byte naming the second general register.
const R2: usize = 0x02;

/// Byte length of every instruction that carries two operands.
const CMD_LEN: usize = 3;

/// The register file of one run: the program counter and the two
/// general registers.  Register values are bytes; all arithmetic on
/// them wraps at 8 bits.
struct Registers {
    pc: usize,
    r1: u8,
    r2: u8,
}

/// Reads a data-region cell; an index outside the data region is a fault.
fn get_mem(memory: &[u8; 256], idx: usize) -> (r: Result<u8, Fault>)
    ensures
        in_data(idx as int) ==> r == Ok::<u8, Fault>(memory@[idx as int]),
        !in_data(idx as int) ==> r == Err::<u8, Fault>(Fault::DataAddress(idx)),
{
    if idx < MEMORY_SHIFT {
        Ok(memory[idx])
    } else {
        Err(Fault::DataAddress(idx))
    }
}

/// Writes a data-region cell; an index outside the data region is a
/// fault that leaves memory unchanged.
fn set_mem(memory: &mut [u8; 256], idx: usize, value: u8) -> (r: Result<(), Fault>)
    ensures
        in_data(idx as int) ==> r == Ok::<(), Fault>(()) && final(memory)@ == old(
            memory,
        )@.update(idx as int, value),
        !in_data(idx as int) ==> r == Err::<(), Fault>(Fault::DataAddress(idx)) && final(memory)@
            == old(memory)@,
{
    if idx < MEMORY_SHIFT {
        memory[idx] = value;
        Ok(())
    } else {
        Err(Fault::DataAddress(idx))
    }
}

/// Reads an instruction-region byte; an index outside the instruction
/// region is a fault.
fn get_cmd(memory: &[u8; 256], idx: usize) -> (r: Result<u8, Fault>)
    ensures
        in_code(idx as int) ==> r == Ok::<u8, Fault>(memory@[idx as int]),
        !in_code(idx as int) ==> r == Err::<u8, Fault>(Fault::CodeAddress(idx)),
{
    if MEMORY_SHIFT <= idx && idx < MEMORY_SIZE {
        Ok(memory[idx])
    } else {
        Err(Fault::CodeAddress(idx))
    }
}

/// Reads an instruction-region byte widened to an index.
fn get_idx(memory: &[u8; 256], idx: usize) -> (r: Result<usize, Fault>)
    ensures
        in_code(idx as int) ==> r == Ok::<usize, Fault>(memory@[idx as int] as usize),
        !in_code(idx as int) ==> r == Err::<usize, Fault>(Fault::CodeAddress(idx)),
{
    match get_cmd(memory, idx) {
        Ok(b) => Ok(b as usize),
        Err(f) => Err(f),
    }
}

/// Executes LOAD at `cmd_idx`, following `spec_load`.
fn load(memory: &[u8; 256], registers: &mut Registers, cmd_idx: usize) -> (r: Result<usize, Fault>)
    requires
        cmd_idx < MEMORY_SIZE,
    ensures
        final(registers).pc == old(registers).pc,
        ({
            let s = Machine {
                mem: memory@,
                pc: cmd_idx as int,
                r1: old(registers).r1,
                r2: old(registers).r2,
            };
            let t = Machine {
                mem: memory@,
                pc: cmd_idx as int,
                r1: final(registers).r1,
                r2: final(registers).r2,
            };
            match r {
                Ok(pc2) => spec_load(s) == Outcome::Running(Machine { pc: pc2 as int, ..t }),
                Err(f) => spec_load(s) == Outcome::Faulted(s, f) && t == s,
            }
        }),
{
    let reg_idx: usize = match get_idx(memory, cmd_idx + 1) {
        Ok(v) => v,
        Err(f) => {
            return Err(f);
        },
    };
    let mem_addr: usize = match get_idx(memory, cmd_idx + 2) {
        Ok(v) => v,
        Err(f) => {
            return Err(f);
        },
    };
    if !(reg_idx == R1 || reg_idx == R2) {
        return Err(Fault::BadRegister(reg_idx));
    }
    let value: u8 = match get_mem(memory, mem_addr) {
        Ok(v) => v,
        Err(f) => {
            return Err(f);
        },
    };
    if reg_idx == R1 {
        registers.r1 = value;
    } else {
        registers.r2 = value;
    }
    Ok(cmd_idx + CMD_LEN)
}

/// Executes STORE at `cmd_idx`, following `spec_store`.
fn store(memory: &mut [u8; 256], registers: &Registers, cmd_idx: usize) -> (r: Result<usize, Fault>)
    requires
        cmd_idx < MEMORY_SIZE,
    ensures
        ({
            let s = Machine {
                mem: old(memory)@,
                pc: cmd_idx as int,
                r1: registers.r1,
                r2: registers.r2,
            };
            match r {
                Ok(pc2) => spec_store(s) == Outcome::Running(
                    Machine {
                        mem: final(memory)@,
                        pc: pc2 as int,
                        r1: registers.r1,
                        r2: registers.r2,
                    },
                ),
                Err(f) => spec_store(s) == Outcome::Faulted(s, f) && final(memory)@ == old(
                    memory,
                )@,
            }
        }),
{
    let reg_idx: usize = match get_idx(memory, cmd_idx + 1) {
        Ok(v) => v,
        Err(f) => {
            return Err(f);
        },
    };
    let mem_addr: usize = match get_idx(memory, cmd_idx + 2) {
        Ok(v) => v,
        Err(f) => {
            return Err(f);
        },
    };
    if !(reg_idx == R1 || reg_idx == R2) {
        return Err(Fault::BadRegister(reg_idx));
    }
    let value: u8 = if reg_idx == R1 {
        registers.r1
    } else {
        registers.r2
    };
    match set_mem(memory, mem_addr, value) {
        Ok(u) => u,
        Err(f) => {
            return Err(f);
        },
    };
    Ok(cmd_idx + CMD_LEN)
}

/// Executes ADD or SUB at `cmd_idx`, following `spec_arith`.
fn arithmetic_op(
    memory: &[u8; 256],
    registers: &mut Registers,
    cmd_idx: usize,
    op: ArithOp,
) -> (r: Result<usize, Fault>)
    requires
        cmd_idx < MEMORY_SIZE,
    ensures
        final(registers).pc == old(registers).pc,
        ({
            let s = Machine {
                mem: memory@,
                pc: cmd_idx as int,
                r1: old(registers).r1,
                r2: old(registers).r2,
            };
            let t = Machine {
                mem: memory@,
                pc: cmd_idx as int,
                r1: final(registers).r1,
                r2: final(registers).r2,
            };
            match r {
                Ok(pc2) => spec_arith(s, op) == Outcome::Running(Machine { pc: pc2 as int, ..t }),
                Err(f) => spec_arith(s, op) == Outcome::Faulted(s, f) && t == s,
            }
        }),
{
    let reg1: usize = match get_idx(memory, cmd_idx + 1) {
        Ok(v) => v,
        Err(f) => {
            return Err(f);
        },
    };
    let reg2: usize = match get_idx(memory, cmd_idx + 2) {
        Ok(v) => v,
        Err(f) => {
            return Err(f);
        },
    };
    if !(reg1 == R1 || reg1 == R2) {
        return Err(Fault::BadRegister(reg1));
    }
    if !(reg2 == R1 || reg2 == R2) {
        return Err(Fault::BadRegister(reg2));
    }
    let a: u8 = if reg1 == R1 {
        registers.r1
    } else {
        registers.r2
    };
    let b: u8 = if reg2 == R1 {
        registers.r1
    } else {
        registers.r2
    };
    let v: u8 = match op {
        ArithOp::Add => a.wrapping_add(b),
        ArithOp::Sub => a.wrapping_sub(b),
    };
    if reg1 == R1 {
        registers.r1 = v;
    } else {
        registers.r2 = v;
    }
    Ok(cmd_idx + CMD_LEN)
}

/// Executes ADDI or SUBI at `cmd_idx`, following `spec_arith_imm`.
fn arithmetic_immediate_op(
    memory: &[u8; 256],
    registers: &mut Registers,
    cmd_idx: usize,
    op: ArithOp,
) -> (r: Result<usize, Fault>)
    requires
        cmd_idx < MEMORY_SIZE,
    ensures
        final(registers).pc == old(registers).pc,
        ({
            let s = Machine {
                mem: memory@,
                pc: cmd_idx as int,
                r1: old(registers).r1,
                r2: old(registers).r2,
            };
            let t = Machine {
                mem: memory@,
                pc: cmd_idx as int,
                r1: final(registers).r1,
                r2: final(registers).r2,
            };
            match r {
                Ok(pc2) => spec_arith_imm(s, op) == Outcome::Running(
                    Machine { pc: pc2 as int, ..t },
                ),
                Err(f) => spec_arith_imm(s, op) == Outcome::Faulted(s, f) && t == s,
            }
        }),
{
    let reg1: usize = match get_idx(memory, cmd_idx + 1) {
        Ok(v) => v,
        Err(f) => {
            return Err(f);
        },
    };
    let value: u8 = match get_cmd(memory, cmd_idx + 2) {
        Ok(v) => v,
        Err(f) => {
            return Err(f);
        },
    };
    if !(reg1 == R1 || reg1 == R2) {
        return Err(Fault::BadRegister(reg1));
    }
    let a: u8 = if reg1 == R1 {
        registers.r1
    } else {
        registers.r2
    };
    let v: u8 = match op {
        ArithOp::Add => a.wrapping_add(value),
        ArithOp::Sub => a.wrapping_sub(value),
    };
    if reg1 == R1 {
        registers.r1 = v;
    } else {
        registers.r2 = v;
    }
    Ok(cmd_idx + CMD_LEN)
}

/// Executes JUMP at `cmd_idx`, following `spec_jump`.  The registers
/// play no part, so the contract holds for every register file over
/// this memory and program counter.
fn jump(memory: &[u8; 256], cmd_idx: usize) -> (r: Result<usize, Fault>)
    requires
        cmd_idx < MEMORY_SIZE,
    ensures
        match r {
            Ok(pc2) => forall|s: Machine|
                s.mem == memory@ && s.pc == cmd_idx as int ==> #[trigger] spec_jump(s)
                    == Outcome::Running(Machine { pc: pc2 as int, ..s }),
            Err(f) => forall|s: Machine|
                s.mem == memory@ && s.pc == cmd_idx as int ==> #[trigger] spec_jump(s)
                    == Outcome::Faulted(s, f),
        },
{
    let jump_to: usize = match get_idx(memory, cmd_idx + 1) {
        Ok(v) => v,
        Err(f) => {
            return Err(f);
        },
    };
    if MEMORY_SHIFT <= jump_to && jump_to < MEMORY_SIZE {
        Ok(jump_to)
    } else {
        Err(Fault::CodeAddress(jump_to))
    }
}

/// Executes BEQZ at `cmd_idx`, following `spec_beqz`.
fn beqz(memory: &[u8; 256], registers: &Registers, cmd_idx: usize) -> (r: Result<usize, Fault>)
    requires
        cmd_idx < MEMORY_SIZE,
    ensures
        ({
            let s = Machine {
                mem: memory@,
                pc: cmd_idx as int,
                r1: registers.r1,
                r2: registers.r2,
            };
            match r {
                Ok(pc2) => spec_beqz(s) == Outcome::Running(Machine { pc: pc2 as int, ..s }),
                Err(f) => spec_beqz(s) == Outcome::Faulted(s, f),
            }
        }),
{
    let reg1: usize = match get_idx(memory, cmd_idx + 1) {
        Ok(v) => v,
        Err(f) => {
            return Err(f);
        },
    };
    let offset: usize = match get_idx(memory, cmd_idx + 2) {
        Ok(v) => v,
        Err(f) => {
            return Err(f);
        },
    };
    if !(reg1 == R1 || reg1 == R2) {
        return Err(Fault::BadRegister(reg1));
    }
    let value: u8 = if reg1 == R1 {
        registers.r1
    } else {
        registers.r2
    };
    if value == 0 {
        let jump_to: usize = cmd_idx + CMD_LEN + offset;
        if MEMORY_SHIFT <= jump_to && jump_to < MEMORY_SIZE {
            Ok(jump_to)
        } else {
            Err(Fault::CodeAddress(jump_to))
        }
    } else {
        Ok(cmd_idx + CMD_LEN)
    }
}

/// Runs the program laid out in `memory` from the first instruction
/// byte until it halts or faults, mutating the data region in place.
///
/// The contract ties the call to the small-step semantics: an `Ok`
/// return means some number of `step`s from the initial state halts
/// with exactly the memory left behind, an `Err` means they raise
/// exactly that fault; either way the instruction region is untouched.
/// The caller owes a program that stops — halts or faults after some
/// number of steps — since the loop must be shown to terminate.
#[verifier::loop_isolation(false)]
pub fn compute(memory: &mut [u8; 256]) -> (r: Result<(), Fault>)
    requires
        stops(old(memory)@),
    ensures
        forall|i: int| in_code(i) ==> final(memory)@[i] == old(memory)@[i],
        r is Ok ==> exists|n: nat|
            halted_with(#[trigger] run(start(old(memory)@), n), final(memory)@),
        r matches Err(f) ==> exists|n: nat|
            faulted_with(#[trigger] run(start(old(memory)@), n), final(memory)@, f),
{
    let mut registers = Registers { pc: MEMORY_SHIFT, r1: 0, r2: 0 };
    let ghost mut n: nat = 0;
    let ghost fuel: nat = choose|k: nat| !(run(start(old(memory)@), k) is Running);
    loop
        invariant
            MEMORY_SHIFT <= registers.pc,
            run(start(old(memory)@), n) == Outcome::Running(
                Machine {
                    mem: memory@,
                    pc: registers.pc as int,
                    r1: registers.r1,
                    r2: registers.r2,
                },
            ),
            forall|i: int| in_code(i) ==> memory@[i] == old(memory)@[i],
            !(run(start(old(memory)@), fuel) is Running),
        decreases fuel - n,
    {
        proof {
            if fuel <= n {
                lemma_run_stops(start(old(memory)@), fuel, n);
            }
        }
        let pc: usize = registers.pc;
        let ghost cur = Machine {
            mem: memory@,
            pc: pc as int,
            r1: registers.r1,
            r2: registers.r2,
        };
        if pc >= MEMORY_SIZE {
            proof {
                assert(run(start(old(memory)@), n + 1) == Outcome::Faulted(
                    cur,
                    Fault::CodeAddress(pc),
                ));
            }
            return Err(Fault::CodeAddress(pc));
        }
        let op: u8 = memory[pc];
        if op == HALT {
            proof {
                assert(run(start(old(memory)@), n + 1) == Outcome::Halted(cur));
            }
            return Ok(());
        }
        let outcome: Result<usize, Fault> = if op == LOAD {
            load(memory, &mut registers, pc)
        } else if op == STORE {
            store(memory, &registers, pc)
        } else if op == ADD {
            arithmetic_op(memory, &mut registers, pc, ArithOp::Add)
        } else if op == SUB {
            arithmetic_op(memory, &mut registers, pc, ArithOp::Sub)
        } else if op == ADDI {
            arithmetic_immediate_op(memory, &mut registers, pc, ArithOp::Add)
        } else if op == SUBI {
            arithmetic_immediate_op(memory, &mut registers, pc, ArithOp::Sub)
        } else if op == JUMP {
            jump(memory, pc)
        } else if op == BEQZ {
            beqz(memory, &registers, pc)
        } else {
            proof {
                assert(run(start(old(memory)@), n + 1) == Outcome::Faulted(
                    cur,
                    Fault::UnknownOpcode(op),
                ));
            }
            return Err(Fault::UnknownOpcode(op));
        };
        match outcome {
            Ok(pc2) => {
                registers.pc = pc2;
                proof {
                    assert(step(cur) == Outcome::Running(
                        Machine {
                            mem: memory@,
                            pc: pc2 as int,
                            r1: registers.r1,
                            r2: registers.r2,
                        },
                    ));
                    n = n + 1;
                }
            },
            Err(f) => {
                proof {
                    assert(run(start(old(memory)@), n + 1) == Outcome::Faulted(cur, f));
                }
                return Err(f);
            },
        }
    }
}

} // verus!
