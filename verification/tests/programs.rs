use vm::{compute, Fault};

/// Lays `code` at the start of the instruction region and `data` at the
/// start of the data region, runs the machine, and returns the outcome
/// with the final memory.
fn run_machine(code: &[u8], data: &[u8]) -> (Result<(), Fault>, [u8; 256]) {
    let mut memory = [0u8; 256];
    memory[8..8 + code.len()].copy_from_slice(code);
    memory[..data.len()].copy_from_slice(data);
    let result = compute(&mut memory);
    (result, memory)
}

#[test]
fn halt_leaves_data_region_unchanged() {
    let (result, memory) = run_machine(&[0xff], &[9, 8, 7, 6, 5, 4, 3, 2]);
    assert!(result.is_ok());
    assert_eq!(&memory[..8], &[9, 8, 7, 6, 5, 4, 3, 2]);
}

#[test]
fn load_store_boundary_values() {
    for value in [0u8, 1, 127, 128, 255] {
        // load r1 1; store r1 0; halt.
        let (result, memory) =
            run_machine(&[0x01, 0x01, 0x01, 0x02, 0x01, 0x00, 0xff], &[0, value]);
        assert!(result.is_ok());
        assert_eq!(memory[0], value);
        assert_eq!(memory[1], value);
    }
}

#[test]
fn load_store_last_data_cell() {
    // load r2 7; store r2 0; halt — both ends of the data region.
    let mut memory = [0u8; 256];
    memory[7] = 99;
    memory[8..15].copy_from_slice(&[0x01, 0x02, 0x07, 0x02, 0x02, 0x00, 0xff]);
    let result = compute(&mut memory);
    assert!(result.is_ok());
    assert_eq!(memory[0], 99);
    assert_eq!(memory[7], 99);
}

#[test]
fn add_wraps() {
    // load r1 1; load r2 2; add r1 r2; store r1 0; halt.
    let code = [
        0x01, 0x01, 0x01, 0x01, 0x02, 0x02, 0x03, 0x01, 0x02, 0x02, 0x01, 0x00, 0xff,
    ];
    for (x, y, out) in [(1u8, 2u8, 3u8), (254, 1, 255), (255, 1, 0), (200, 200, 144)] {
        let (result, memory) = run_machine(&code, &[0, x, y]);
        assert!(result.is_ok());
        assert_eq!(memory[0], out, "add {} {}", x, y);
    }
}

#[test]
fn sub_wraps_backward() {
    // load r1 1; load r2 2; sub r1 r2; store r1 0; halt.
    let code = [
        0x01, 0x01, 0x01, 0x01, 0x02, 0x02, 0x04, 0x01, 0x02, 0x02, 0x01, 0x00, 0xff,
    ];
    for (x, y, out) in [(5u8, 3u8, 2u8), (0, 1, 255), (3, 200, 59)] {
        let (result, memory) = run_machine(&code, &[0, x, y]);
        assert!(result.is_ok());
        assert_eq!(memory[0], out, "sub {} {}", x, y);
    }
}

#[test]
fn addi_subi_wrap() {
    // load r1 1; addi r1 255; store r1 0; halt — adding 255 wraps to
    // one below.
    let (result, memory) = run_machine(
        &[0x01, 0x01, 0x01, 0x05, 0x01, 0xff, 0x02, 0x01, 0x00, 0xff],
        &[0, 2],
    );
    assert!(result.is_ok());
    assert_eq!(memory[0], 1);

    // load r1 1; subi r1 1; store r1 0; halt — zero wraps to 255.
    let (result, memory) = run_machine(
        &[0x01, 0x01, 0x01, 0x06, 0x01, 0x01, 0x02, 0x01, 0x00, 0xff],
        &[0, 0],
    );
    assert!(result.is_ok());
    assert_eq!(memory[0], 255);
}

#[test]
fn beqz_taken_and_not_taken() {
    // load r1 1; load r2 2; beqz r2 3; store r1 0; halt.
    let code = [
        0x01, 0x01, 0x01, 0x01, 0x02, 0x02, 0x08, 0x02, 0x03, 0x02, 0x01, 0x00, 0xff,
    ];
    let (result, memory) = run_machine(&code, &[0, 42, 0]);
    assert!(result.is_ok());
    assert_eq!(memory[0], 0);

    let (result, memory) = run_machine(&code, &[0, 42, 1]);
    assert!(result.is_ok());
    assert_eq!(memory[0], 42);

    // A taken branch skips the store outright: whatever sat at offset 0
    // stays there.
    let (result, memory) = run_machine(&code, &[33, 42, 0]);
    assert!(result.is_ok());
    assert_eq!(memory[0], 33);
}

#[test]
fn beqz_offset_zero_falls_through_to_next() {
    // beqz r1 0 with r1 zero targets the fall-through address itself.
    let (result, _) = run_machine(&[0x08, 0x01, 0x00, 0xff], &[]);
    assert!(result.is_ok());
}

#[test]
fn jump_skips_code() {
    // load r1 1; jump 16; store r1 0; halt — the store is jumped over.
    let (result, memory) = run_machine(
        &[0x01, 0x01, 0x01, 0x07, 0x10, 0x02, 0x01, 0x00, 0xff],
        &[0, 42],
    );
    assert!(result.is_ok());
    assert_eq!(memory[0], 0);
}

#[test]
fn jump_backward() {
    // jump 14; halt; ... 14: load r1 1; jump 11 — only JUMP can go
    // backward, and it lands on the halt.
    let (result, memory) = run_machine(
        &[0x07, 0x0e, 0x00, 0xff, 0x00, 0x00, 0x01, 0x01, 0x01, 0x07, 0x0b],
        &[0, 5],
    );
    assert!(result.is_ok());
    assert_eq!(memory[0], 0);
}

#[test]
fn sum_to_n_loop() {
    // load r1 1; beqz r1 8; add r2 r1; subi r1 1; jump 11; store r2 0;
    // halt — accumulates 1 + 2 + ... + n.
    let code = [
        0x01, 0x01, 0x01, 0x08, 0x01, 0x08, 0x03, 0x02, 0x01, 0x06, 0x01, 0x01, 0x07, 0x0b, 0x02,
        0x02, 0x00, 0xff,
    ];
    for (n, out) in [(0u8, 0u8), (1, 1), (5, 15), (10, 55), (100, 186)] {
        let (result, memory) = run_machine(&code, &[0, n]);
        assert!(result.is_ok());
        assert_eq!(memory[0], out, "sum to {}", n);
    }
}
