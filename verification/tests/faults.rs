use vm::{compute, Fault};

/// Lays `code` at the start of the instruction region and `data` at the
/// start of the data region, runs the machine, and returns the outcome
/// with the final memory.
fn run_machine(code: &[u8], data: &[u8]) -> (Result<(), Fault>, [u8; 256]) {
    let mut memory = [0u8; 256];
    memory[8..8 + code.len()].copy_from_slice(code);
    memory[..data.len()].copy_from_slice(data);
    let result = compute(&mut memory);
    (result, memory)
}

#[test]
fn unknown_opcode_faults() {
    let (result, _) = run_machine(&[0x09], &[]);
    assert_eq!(result, Err(Fault::UnknownOpcode(0x09)));
}

#[test]
fn zero_opcode_faults() {
    // An empty instruction region fetches the zero byte, which names
    // no instruction.
    let (result, _) = run_machine(&[], &[]);
    assert_eq!(result, Err(Fault::UnknownOpcode(0x00)));
}

#[test]
fn bad_register_in_load_faults() {
    // load r3 1 — no such register.
    let (result, _) = run_machine(&[0x01, 0x03, 0x01], &[]);
    assert_eq!(result, Err(Fault::BadRegister(3)));
}

#[test]
fn bad_register_in_beqz_faults() {
    // beqz r0 0 — no such register.
    let (result, _) = run_machine(&[0x08, 0x00, 0x00, 0xff], &[]);
    assert_eq!(result, Err(Fault::BadRegister(0)));
}

#[test]
fn bad_second_register_in_add_faults() {
    // add r1 r5 — the destination is valid, the source is not.
    let (result, _) = run_machine(&[0x03, 0x01, 0x05], &[]);
    assert_eq!(result, Err(Fault::BadRegister(5)));
}

#[test]
fn bad_register_in_addi_faults() {
    // addi r7 1 — no such register, even though the immediate is fine.
    let (result, _) = run_machine(&[0x05, 0x07, 0x01], &[]);
    assert_eq!(result, Err(Fault::BadRegister(7)));
}

#[test]
fn load_outside_data_region_faults() {
    // load r1 8 — the first instruction byte is no data cell.
    let (result, _) = run_machine(&[0x01, 0x01, 0x08], &[]);
    assert_eq!(result, Err(Fault::DataAddress(8)));
}

#[test]
fn store_outside_data_region_faults() {
    // store r1 200.
    let (result, _) = run_machine(&[0x02, 0x01, 0xc8], &[]);
    assert_eq!(result, Err(Fault::DataAddress(200)));
}

#[test]
fn jump_into_data_region_faults() {
    // jump 3 — absolute targets below 8 are not instructions.
    let (result, _) = run_machine(&[0x07, 0x03], &[]);
    assert_eq!(result, Err(Fault::CodeAddress(3)));
}

#[test]
fn branch_beyond_memory_faults() {
    // beqz r1 255 with r1 zero: 8 + 3 + 255 overshoots memory.
    let (result, _) = run_machine(&[0x08, 0x01, 0xff], &[]);
    assert_eq!(result, Err(Fault::CodeAddress(266)));
}

#[test]
fn fetch_beyond_memory_faults() {
    // jump 253, then addi r1 0 at 253 runs the counter to 256.
    let mut memory = [0u8; 256];
    memory[8] = 0x07;
    memory[9] = 253;
    memory[253] = 0x05;
    memory[254] = 0x01;
    memory[255] = 0x00;
    let result = compute(&mut memory);
    assert_eq!(result, Err(Fault::CodeAddress(256)));
}

#[test]
fn operand_beyond_memory_faults() {
    // jump 254, then a load opcode at 254 reaches for an operand at 256.
    let mut memory = [0u8; 256];
    memory[8] = 0x07;
    memory[9] = 254;
    memory[254] = 0x01;
    memory[255] = 0x01;
    let result = compute(&mut memory);
    assert_eq!(result, Err(Fault::CodeAddress(256)));
}

#[test]
fn fault_preserves_state() {
    // load r1 1; store r1 0; then an unknown opcode. The copy before
    // the fault is visible, nothing after it changes, and the whole
    // instruction region is untouched.
    let (result, memory) = run_machine(&[0x01, 0x01, 0x01, 0x02, 0x01, 0x00, 0x55], &[7, 42, 9]);
    assert_eq!(result, Err(Fault::UnknownOpcode(0x55)));
    assert_eq!(memory[0], 42);
    assert_eq!(memory[1], 42);
    assert_eq!(memory[2], 9);
    assert_eq!(memory[8], 0x01);
    assert_eq!(memory[14], 0x55);
    for i in 15..256 {
        assert_eq!(memory[i], 0);
    }
}

#[test]
fn fault_before_any_mutation() {
    // The very first instruction faults: no cell moves.
    let (result, memory) = run_machine(&[0x42], &[1, 2, 3, 4, 5, 6, 7, 8]);
    assert_eq!(result, Err(Fault::UnknownOpcode(0x42)));
    assert_eq!(&memory[..8], &[1, 2, 3, 4, 5, 6, 7, 8]);
}
