//! Behavioural theorems about the machine: what canonical programs
//! compute, for every choice of data, and that every contract
//! violation in the instruction stream faults without touching state.
//!
//! Each theorem speaks of `run` over the small-step semantics; the
//! contract of `interp::compute` carries the conclusions over to the
//! executable interpreter.

use crate::machine::{
    in_code, in_data, lemma_run_add, lemma_run_stops, reg_read, reg_valid, run, start, step,
    stops, Fault, Machine, Outcome, ADD, ADDI, BEQZ, HALT, JUMP, LOAD, STORE, SUB, SUBI,
};
use vstd::arithmetic::div_mod::lemma_add_mod_noop_right;
use vstd::prelude::*;

verus! {

/// A memory whose first instruction byte is HALT halts at once, after
/// any positive number of steps, with every cell — the data region
/// included — exactly as the caller left it.
pub proof fn lemma_halt_only(mem: Seq<u8>)
    requires
        mem.len() == 256,
        mem[8] == HALT,
    ensures
        forall|n: nat| n >= 1 ==> run(start(mem), n) == Outcome::Halted(start(mem)),
        stops(mem),
{
    assert(step(start(mem)) == Outcome::Halted(start(mem)));
    assert(run(start(mem), 0) == Outcome::Running(start(mem)));
    assert(run(start(mem), 1) == Outcome::Halted(start(mem)));
    assert forall|n: nat| n >= 1 implies run(start(mem), n) == Outcome::Halted(start(mem)) by {
        lemma_run_stops(start(mem), 1, n);
    }
}

/// The program `LOAD R1, 1; STORE R1, 0; HALT` copies the data byte at
/// offset 1 — whatever it is, the boundary values 0 and 255 included —
/// verbatim to offset 0 and halts.
pub proof fn lemma_load_store_round_trip(mem: Seq<u8>)
    requires
        mem.len() == 256,
        mem[8] == LOAD,
        mem[9] == 1,
        mem[10] == 1,
        mem[11] == STORE,
        mem[12] == 1,
        mem[13] == 0,
        mem[14] == HALT,
    ensures
        forall|n: nat|
            n >= 3 ==> run(start(mem), n) == Outcome::Halted(
                Machine { mem: mem.update(0, mem[1]), pc: 14, r1: mem[1], r2: 0 },
            ),
        stops(mem),
{
    let s0 = start(mem);
    let s1 = Machine { mem, pc: 11, r1: mem[1], r2: 0 };
    let s2 = Machine { mem: mem.update(0, mem[1]), pc: 14, r1: mem[1], r2: 0 };
    assert(step(s0) == Outcome::Running(s1));
    assert(step(s1) == Outcome::Running(s2));
    assert(step(s2) == Outcome::Halted(s2));
    assert(run(s0, 0) == Outcome::Running(s0));
    assert(run(s0, 1) == Outcome::Running(s1));
    assert(run(s0, 2) == Outcome::Running(s2));
    assert(run(s0, 3) == Outcome::Halted(s2));
    assert forall|n: nat| n >= 3 implies run(s0, n) == Outcome::Halted(s2) by {
        lemma_run_stops(s0, 3, n);
    }
}

/// The program `LOAD R1, 1; LOAD R2, 2; ADD R1, R2; STORE R1, 0; HALT`
/// halts with offset 0 holding the sum of the data bytes at offsets 1
/// and 2, wrapping at 8 bits.
pub proof fn lemma_add_program(mem: Seq<u8>)
    requires
        mem.len() == 256,
        mem[8] == LOAD,
        mem[9] == 1,
        mem[10] == 1,
        mem[11] == LOAD,
        mem[12] == 2,
        mem[13] == 2,
        mem[14] == ADD,
        mem[15] == 1,
        mem[16] == 2,
        mem[17] == STORE,
        mem[18] == 1,
        mem[19] == 0,
        mem[20] == HALT,
    ensures
        forall|n: nat|
            n >= 5 ==> run(start(mem), n) == Outcome::Halted(
                Machine {
                    mem: mem.update(0, mem[1].wrapping_add(mem[2])),
                    pc: 20,
                    r1: mem[1].wrapping_add(mem[2]),
                    r2: mem[2],
                },
            ),
        stops(mem),
{
    let s0 = start(mem);
    let s1 = Machine { mem, pc: 11, r1: mem[1], r2: 0 };
    let s2 = Machine { mem, pc: 14, r1: mem[1], r2: mem[2] };
    let v = mem[1].wrapping_add(mem[2]);
    let s3 = Machine { mem, pc: 17, r1: v, r2: mem[2] };
    let s4 = Machine { mem: mem.update(0, v), pc: 20, r1: v, r2: mem[2] };
    assert(step(s0) == Outcome::Running(s1));
    assert(step(s1) == Outcome::Running(s2));
    assert(step(s2) == Outcome::Running(s3));
    assert(step(s3) == Outcome::Running(s4));
    assert(step(s4) == Outcome::Halted(s4));
    assert(run(s0, 0) == Outcome::Running(s0));
    assert(run(s0, 1) == Outcome::Running(s1));
    assert(run(s0, 2) == Outcome::Running(s2));
    assert(run(s0, 3) == Outcome::Running(s3));
    assert(run(s0, 4) == Outcome::Running(s4));
    assert(run(s0, 5) == Outcome::Halted(s4));
    assert forall|n: nat| n >= 5 implies run(s0, n) == Outcome::Halted(s4) by {
        lemma_run_stops(s0, 5, n);
    }
}

/// The program `LOAD R1, 1; LOAD R2, 2; SUB R1, R2; STORE R1, 0; HALT`
/// halts with offset 0 holding the difference of the data bytes at
/// offsets 1 and 2, wrapping backward at 8 bits.
pub proof fn lemma_sub_program(mem: Seq<u8>)
    requires
        mem.len() == 256,
        mem[8] == LOAD,
        mem[9] == 1,
        mem[10] == 1,
        mem[11] == LOAD,
        mem[12] == 2,
        mem[13] == 2,
        mem[14] == SUB,
        mem[15] == 1,
        mem[16] == 2,
        mem[17] == STORE,
        mem[18] == 1,
        mem[19] == 0,
        mem[20] == HALT,
    ensures
        forall|n: nat|
            n >= 5 ==> run(start(mem), n) == Outcome::Halted(
                Machine {
                    mem: mem.update(0, mem[1].wrapping_sub(mem[2])),
                    pc: 20,
                    r1: mem[1].wrapping_sub(mem[2]),
                    r2: mem[2],
                },
            ),
        stops(mem),
{
    let s0 = start(mem);
    let s1 = Machine { mem, pc: 11, r1: mem[1], r2: 0 };
    let s2 = Machine { mem, pc: 14, r1: mem[1], r2: mem[2] };
    let v = mem[1].wrapping_sub(mem[2]);
    let s3 = Machine { mem, pc: 17, r1: v, r2: mem[2] };
    let s4 = Machine { mem: mem.update(0, v), pc: 20, r1: v, r2: mem[2] };
    assert(step(s0) == Outcome::Running(s1));
    assert(step(s1) == Outcome::Running(s2));
    assert(step(s2) == Outcome::Running(s3));
    assert(step(s3) == Outcome::Running(s4));
    assert(step(s4) == Outcome::Halted(s4));
    assert(run(s0, 0) == Outcome::Running(s0));
    assert(run(s0, 1) == Outcome::Running(s1));
    assert(run(s0, 2) == Outcome::Running(s2));
    assert(run(s0, 3) == Outcome::Running(s3));
    assert(run(s0, 4) == Outcome::Running(s4));
    assert(run(s0, 5) == Outcome::Halted(s4));
    assert forall|n: nat| n >= 5 implies run(s0, n) == Outcome::Halted(s4) by {
        lemma_run_stops(s0, 5, n);
    }
}

/// The program `LOAD R1, 1; LOAD R2, 2; BEQZ R2, 3; STORE R1, 0; HALT`
/// branches both ways: with the data byte at offset 2 zero, the store
/// is skipped and memory is left untouched; with it nonzero, offset 0
/// receives the data byte at offset 1.
pub proof fn lemma_beqz_branches(mem: Seq<u8>)
    requires
        mem.len() == 256,
        mem[8] == LOAD,
        mem[9] == 1,
        mem[10] == 1,
        mem[11] == LOAD,
        mem[12] == 2,
        mem[13] == 2,
        mem[14] == BEQZ,
        mem[15] == 2,
        mem[16] == 3,
        mem[17] == STORE,
        mem[18] == 1,
        mem[19] == 0,
        mem[20] == HALT,
    ensures
        mem[2] == 0 ==> forall|n: nat|
            n >= 4 ==> run(start(mem), n) == Outcome::Halted(
                Machine { mem, pc: 20, r1: mem[1], r2: 0 },
            ),
        mem[2] != 0 ==> forall|n: nat|
            n >= 5 ==> run(start(mem), n) == Outcome::Halted(
                Machine { mem: mem.update(0, mem[1]), pc: 20, r1: mem[1], r2: mem[2] },
            ),
        stops(mem),
{
    let s0 = start(mem);
    let s1 = Machine { mem, pc: 11, r1: mem[1], r2: 0 };
    let s2 = Machine { mem, pc: 14, r1: mem[1], r2: mem[2] };
    assert(step(s0) == Outcome::Running(s1));
    assert(step(s1) == Outcome::Running(s2));
    assert(run(s0, 0) == Outcome::Running(s0));
    assert(run(s0, 1) == Outcome::Running(s1));
    assert(run(s0, 2) == Outcome::Running(s2));
    if mem[2] == 0 {
        let s3 = Machine { mem, pc: 20, r1: mem[1], r2: 0 };
        assert(step(s2) == Outcome::Running(s3));
        assert(step(s3) == Outcome::Halted(s3));
        assert(run(s0, 3) == Outcome::Running(s3));
        assert(run(s0, 4) == Outcome::Halted(s3));
        assert forall|n: nat| n >= 4 implies run(s0, n) == Outcome::Halted(s3) by {
            lemma_run_stops(s0, 4, n);
        }
    } else {
        let s3 = Machine { mem, pc: 17, r1: mem[1], r2: mem[2] };
        let s4 = Machine { mem: mem.update(0, mem[1]), pc: 20, r1: mem[1], r2: mem[2] };
        assert(step(s2) == Outcome::Running(s3));
        assert(step(s3) == Outcome::Running(s4));
        assert(step(s4) == Outcome::Halted(s4));
        assert(run(s0, 3) == Outcome::Running(s3));
        assert(run(s0, 4) == Outcome::Running(s4));
        assert(run(s0, 5) == Outcome::Halted(s4));
        assert forall|n: nat| n >= 5 implies run(s0, n) == Outcome::Halted(s4) by {
            lemma_run_stops(s0, 5, n);
        }
    }
}

/// The triangle number 0 + 1 + ... + k.
pub open spec fn triangle(k: nat) -> nat
    decreases k,
{
    if k == 0 {
        0
    } else {
        k + triangle((k - 1) as nat)
    }
}

/// The triangle numbers follow the closed formula: twice the sum
/// 0 + 1 + ... + k is k * (k + 1).
pub proof fn lemma_triangle_closed(k: nat)
    ensures
        2 * triangle(k) == k * (k + 1),
    decreases k,
{
    if k > 0 {
        let j = (k - 1) as nat;
        lemma_triangle_closed(j);
        assert(2 * triangle(k) == 2 * k + j * (j + 1));
        assert(2 * k + j * (j + 1) == k * (k + 1)) by (nonlinear_arith)
            requires
                k == j + 1,
        ;
    } else {
        assert(triangle(0) == 0);
    }
}

/// The triangle number of `k` wrapped to a byte — what the canonical
/// summing loop leaves behind.
pub open spec fn sum_mod(k: u8) -> u8 {
    (triangle(k as nat) % 256) as u8
}

/// One pass of the canonical summing loop, proved by induction on the
/// counter: from the loop head with counter `k` and accumulator `acc`,
/// the machine halts with `acc + 0 + 1 + ... + k` (wrapped to a byte)
/// both in the second register and stored at offset 0.
proof fn lemma_sum_loop(mem: Seq<u8>, k: u8, acc: u8)
    requires
        mem.len() == 256,
        mem[11] == BEQZ,
        mem[12] == 1,
        mem[13] == 8,
        mem[14] == ADD,
        mem[15] == 2,
        mem[16] == 1,
        mem[17] == SUBI,
        mem[18] == 1,
        mem[19] == 1,
        mem[20] == JUMP,
        mem[21] == 11,
        mem[22] == STORE,
        mem[23] == 2,
        mem[24] == 0,
        mem[25] == HALT,
    ensures
        forall|n: nat|
            n >= 4 * (k as nat) + 3 ==> run(Machine { mem, pc: 11, r1: k, r2: acc }, n)
                == Outcome::Halted(
                Machine {
                    mem: mem.update(0, ((acc + triangle(k as nat)) % 256) as u8),
                    pc: 25,
                    r1: 0,
                    r2: ((acc + triangle(k as nat)) % 256) as u8,
                },
            ),
    decreases k,
{
    let t0 = Machine { mem, pc: 11, r1: k, r2: acc };
    if k == 0 {
        let v = ((acc + triangle(0)) % 256) as u8;
        assert(v == acc);
        let t1 = Machine { mem, pc: 22, r1: 0, r2: acc };
        let t2 = Machine { mem: mem.update(0, acc), pc: 25, r1: 0, r2: acc };
        assert(step(t0) == Outcome::Running(t1));
        assert(step(t1) == Outcome::Running(t2));
        assert(step(t2) == Outcome::Halted(t2));
        assert(run(t0, 0) == Outcome::Running(t0));
        assert(run(t0, 1) == Outcome::Running(t1));
        assert(run(t0, 2) == Outcome::Running(t2));
        assert(run(t0, 3) == Outcome::Halted(t2));
        assert forall|n: nat| n >= 3 implies run(t0, n) == Outcome::Halted(t2) by {
            lemma_run_stops(t0, 3, n);
        }
    } else {
        let acc2 = acc.wrapping_add(k);
        let k2 = (k - 1) as u8;
        let t1 = Machine { mem, pc: 14, r1: k, r2: acc };
        let t2 = Machine { mem, pc: 17, r1: k, r2: acc2 };
        let t3 = Machine { mem, pc: 20, r1: k2, r2: acc2 };
        let t4 = Machine { mem, pc: 11, r1: k2, r2: acc2 };
        assert(step(t0) == Outcome::Running(t1));
        assert(step(t1) == Outcome::Running(t2));
        assert(step(t2) == Outcome::Running(t3));
        assert(step(t3) == Outcome::Running(t4));
        assert(run(t0, 0) == Outcome::Running(t0));
        assert(run(t0, 1) == Outcome::Running(t1));
        assert(run(t0, 2) == Outcome::Running(t2));
        assert(run(t0, 3) == Outcome::Running(t3));
        assert(run(t0, 4) == Outcome::Running(t4));
        lemma_sum_loop(mem, k2, acc2);
        let v2 = ((acc2 + triangle(k2 as nat)) % 256) as u8;
        let v = ((acc + triangle(k as nat)) % 256) as u8;
        assert(acc2 == (acc + k) % 256);
        lemma_add_mod_noop_right(triangle(k2 as nat) as int, acc + k, 256);
        assert(v2 == v);
        assert forall|n: nat|
            n >= 4 * (k as nat) + 3 implies run(t0, n) == Outcome::Halted(
            Machine { mem: mem.update(0, v), pc: 25, r1: 0, r2: v },
        ) by {
            lemma_run_add(t0, t4, 4, (n - 4) as nat);
            assert(run(t4, (n - 4) as nat) == Outcome::Halted(
                Machine { mem: mem.update(0, v2), pc: 25, r1: 0, r2: v2 },
            ));
        }
    }
}

/// The canonical summing program `LOAD R1, 1; BEQZ R1, 8; ADD R2, R1;
/// SUBI R1, 1; JUMP 11; STORE R2, 0; HALT` halts for every value `n`
/// of the data byte at offset 1, leaving 1 + 2 + ... + n, wrapped to a
/// byte, at offset 0.
pub proof fn lemma_sum_program(mem: Seq<u8>)
    requires
        mem.len() == 256,
        mem[8] == LOAD,
        mem[9] == 1,
        mem[10] == 1,
        mem[11] == BEQZ,
        mem[12] == 1,
        mem[13] == 8,
        mem[14] == ADD,
        mem[15] == 2,
        mem[16] == 1,
        mem[17] == SUBI,
        mem[18] == 1,
        mem[19] == 1,
        mem[20] == JUMP,
        mem[21] == 11,
        mem[22] == STORE,
        mem[23] == 2,
        mem[24] == 0,
        mem[25] == HALT,
    ensures
        forall|n: nat|
            n >= 4 * (mem[1] as nat) + 4 ==> run(start(mem), n) == Outcome::Halted(
                Machine {
                    mem: mem.update(0, sum_mod(mem[1])),
                    pc: 25,
                    r1: 0,
                    r2: sum_mod(mem[1]),
                },
            ),
        stops(mem),
{
    let s0 = start(mem);
    let k = mem[1];
    let t0 = Machine { mem, pc: 11, r1: k, r2: 0 };
    assert(step(s0) == Outcome::Running(t0));
    assert(run(s0, 0) == Outcome::Running(s0));
    assert(run(s0, 1) == Outcome::Running(t0));
    lemma_sum_loop(mem, k, 0);
    let v = ((0 + triangle(k as nat)) % 256) as u8;
    assert(v == sum_mod(k));
    assert forall|n: nat|
        n >= 4 * (k as nat) + 4 implies run(s0, n) == Outcome::Halted(
        Machine { mem: mem.update(0, sum_mod(k)), pc: 25, r1: 0, r2: sum_mod(k) },
    ) by {
        lemma_run_add(s0, t0, 1, (n - 1) as nat);
        assert(run(t0, (n - 1) as nat) == Outcome::Halted(
            Machine { mem: mem.update(0, v), pc: 25, r1: 0, r2: v },
        ));
    }
    assert(!(run(s0, 4 * (k as nat) + 4) is Running));
}

/// True of the nine opcode bytes the machine defines.
pub open spec fn known_opcode(op: u8) -> bool {
    op == LOAD || op == STORE || op == ADD || op == SUB || op == ADDI || op == SUBI || op == JUMP
        || op == BEQZ || op == HALT
}

/// True of the opcodes whose first operand names a register.
pub open spec fn takes_register(op: u8) -> bool {
    op == LOAD || op == STORE || op == ADD || op == SUB || op == ADDI || op == SUBI || op == BEQZ
}

/// Fetching outside the instruction region aborts at once, the state
/// untouched.
pub proof fn lemma_fetch_out_of_code_faults(s: Machine)
    requires
        !in_code(s.pc),
    ensures
        step(s) == Outcome::Faulted(s, Fault::CodeAddress(s.pc as usize)),
{
}

/// An opcode byte outside the nine defined values aborts at once, the
/// state untouched.
pub proof fn lemma_unknown_opcode_faults(s: Machine)
    requires
        s.mem.len() == 256,
        in_code(s.pc),
        !known_opcode(s.mem[s.pc]),
    ensures
        step(s) == Outcome::Faulted(s, Fault::UnknownOpcode(s.mem[s.pc])),
{
}

/// A first register operand naming neither general register aborts at
/// once, the state untouched, for every instruction that takes one.
pub proof fn lemma_bad_register_faults(s: Machine)
    requires
        s.mem.len() == 256,
        in_code(s.pc),
        in_code(s.pc + 1),
        in_code(s.pc + 2),
        takes_register(s.mem[s.pc]),
        !reg_valid(s.mem[s.pc + 1]),
    ensures
        step(s) == Outcome::Faulted(s, Fault::BadRegister(s.mem[s.pc + 1] as usize)),
{
}

/// A second register operand of ADD or SUB naming neither general
/// register aborts at once, the state untouched, even though the
/// destination register was named correctly.
pub proof fn lemma_bad_second_register_faults(s: Machine)
    requires
        s.mem.len() == 256,
        in_code(s.pc),
        in_code(s.pc + 1),
        in_code(s.pc + 2),
        s.mem[s.pc] == ADD || s.mem[s.pc] == SUB,
        reg_valid(s.mem[s.pc + 1]),
        !reg_valid(s.mem[s.pc + 2]),
    ensures
        step(s) == Outcome::Faulted(s, Fault::BadRegister(s.mem[s.pc + 2] as usize)),
{
}

/// A load or store address outside the data region aborts at once, the
/// state untouched.
pub proof fn lemma_bad_data_address_faults(s: Machine)
    requires
        s.mem.len() == 256,
        in_code(s.pc),
        in_code(s.pc + 1),
        in_code(s.pc + 2),
        s.mem[s.pc] == LOAD || s.mem[s.pc] == STORE,
        reg_valid(s.mem[s.pc + 1]),
        !in_data(s.mem[s.pc + 2] as int),
    ensures
        step(s) == Outcome::Faulted(s, Fault::DataAddress(s.mem[s.pc + 2] as usize)),
{
}

/// A jump target outside the instruction region aborts at once, the
/// state untouched.
pub proof fn lemma_bad_jump_target_faults(s: Machine)
    requires
        s.mem.len() == 256,
        in_code(s.pc),
        in_code(s.pc + 1),
        s.mem[s.pc] == JUMP,
        !in_code(s.mem[s.pc + 1] as int),
    ensures
        step(s) == Outcome::Faulted(s, Fault::CodeAddress(s.mem[s.pc + 1] as usize)),
{
}

/// A taken branch whose computed target falls outside the instruction
/// region aborts at once, the state untouched.
pub proof fn lemma_bad_branch_target_faults(s: Machine)
    requires
        s.mem.len() == 256,
        in_code(s.pc),
        in_code(s.pc + 1),
        in_code(s.pc + 2),
        s.mem[s.pc] == BEQZ,
        reg_valid(s.mem[s.pc + 1]),
        reg_read(s, s.mem[s.pc + 1]) == 0,
        !in_code(s.pc + 3 + s.mem[s.pc + 2]),
    ensures
        step(s) == Outcome::Faulted(s, Fault::CodeAddress((s.pc + 3 + s.mem[s.pc + 2]) as usize)),
{
}

} // verus!
