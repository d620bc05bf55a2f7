use rc8::chip8::Chip8;
use rc8::errors::{Chip8Error, Quirks, StepOutcome};

/// Build a ROM image from a list of big-endian opcode words.
fn rom(ops: &[u16]) -> Vec<u8> {
    let mut bytes = Vec::new();
    for op in ops {
        bytes.push((op >> 8) as u8);
        bytes.push(*op as u8);
    }
    bytes
}

/// A machine with the given opcodes loaded at the program origin.
fn vm_with(ops: &[u16]) -> Chip8 {
    let mut vm = Chip8::new();
    vm.load_rom(&rom(ops)).expect("rom fits");
    vm
}

/// One deterministic step that must succeed.
fn step(vm: &mut Chip8) -> StepOutcome {
    vm.step_with(0).expect("step succeeds")
}

#[test]
fn new_machine_is_zeroed() {
    let vm = Chip8::new();
    assert_eq!(vm.pc, 0x200);
    assert_eq!(vm.sp, 0);
    assert_eq!(vm.i_reg, 0);
    assert_eq!(vm.sound_timer, 0);
    assert_eq!(vm.delay_timer, 0);
    assert_eq!(vm.memory.len(), 4096);
    assert_eq!(vm.gfx.len(), 64 * 32);
    assert!(vm.gfx.iter().all(|p| *p == 0));
    assert!(vm.memory.iter().all(|b| *b == 0));
    assert!(vm.v_reg.iter().all(|v| *v == 0));
    assert!(vm.keypad.iter().all(|k| *k == 0));
    assert!(vm.quirks.shift_reads_vy);
    assert!(vm.quirks.index_advances);
}

#[test]
fn fontset_installed_at_font_base() {
    let mut vm = Chip8::new();
    vm.load_fontset();
    let expected: [u8; 80] = [
        0xF0, 0x90, 0x90, 0x90, 0xF0, 0x20, 0x60, 0x20, 0x20, 0x70, 0xF0, 0x10, 0xF0, 0x80, 0xF0,
        0xF0, 0x10, 0xF0, 0x10, 0xF0, 0x90, 0x90, 0xF0, 0x10, 0x10, 0xF0, 0x80, 0xF0, 0x10, 0xF0,
        0xF0, 0x80, 0xF0, 0x90, 0xF0, 0xF0, 0x10, 0x20, 0x40, 0x40, 0xF0, 0x90, 0xF0, 0x90, 0xF0,
        0xF0, 0x90, 0xF0, 0x10, 0xF0, 0xF0, 0x90, 0xF0, 0x90, 0x90, 0xE0, 0x90, 0xE0, 0x90, 0xE0,
        0xF0, 0x80, 0x80, 0x80, 0xF0, 0xE0, 0x90, 0x90, 0x90, 0xE0, 0xF0, 0x80, 0xF0, 0x80, 0xF0,
        0xF0, 0x80, 0xF0, 0x80, 0x80,
    ];
    assert_eq!(&vm.memory[0x50..0xA0], &expected[..]);
    // The rest of memory is untouched.
    assert!(vm.memory[..0x50].iter().all(|b| *b == 0));
    assert!(vm.memory[0xA0..].iter().all(|b| *b == 0));
}

#[test]
fn load_rom_copies_at_program_origin() {
    let mut vm = Chip8::new();
    vm.load_rom(&[1, 2, 3]).expect("fits");
    assert_eq!(vm.memory[0x200], 1);
    assert_eq!(vm.memory[0x201], 2);
    assert_eq!(vm.memory[0x202], 3);
    assert_eq!(vm.memory[0x203], 0);
}

#[test]
fn load_rom_rejects_oversized_image() {
    let mut vm = Chip8::new();
    let big = vec![0u8; 4096 - 0x200 + 1];
    assert_eq!(vm.load_rom(&big), Err(Chip8Error::RomTooLarge));
    // The largest fitting image is accepted.
    let full = vec![0xAAu8; 4096 - 0x200];
    vm.load_rom(&full).expect("fits exactly");
    assert_eq!(vm.memory[4095], 0xAA);
}

#[test]
fn add_byte_wraps_without_flag() {
    // V5 = 200, then V5 += 100: wraps to 44 and VF stays put.
    let mut vm = vm_with(&[0x65C8, 0x7564]);
    step(&mut vm);
    assert_eq!(vm.v_reg[5], 200);
    step(&mut vm);
    assert_eq!(vm.v_reg[5], 44);
    assert_eq!(vm.v_reg[0xF], 0);
    assert_eq!(vm.pc, 0x204);
}

#[test]
fn add_reg_sets_carry() {
    // VA = 255, VB = 2, VA += VB: same wrapped sum, VF = 1.
    let mut vm = vm_with(&[0x6AFF, 0x6B02, 0x8AB4]);
    step(&mut vm);
    step(&mut vm);
    step(&mut vm);
    assert_eq!(vm.v_reg[0xA], 1);
    assert_eq!(vm.v_reg[0xF], 1);
}

#[test]
fn add_reg_clears_carry_when_no_overflow() {
    let mut vm = vm_with(&[0x6A05, 0x6B02, 0x8AB4]);
    vm.v_reg[0xF] = 1;
    step(&mut vm);
    step(&mut vm);
    step(&mut vm);
    assert_eq!(vm.v_reg[0xA], 7);
    assert_eq!(vm.v_reg[0xF], 0);
}

#[test]
fn sub_reg_borrow_and_wrap() {
    // V0 = 5, V1 = 9: V0 - V1 wraps to 252, VF = 0 (borrow).
    let mut vm = vm_with(&[0x6005, 0x6109, 0x8015]);
    step(&mut vm);
    step(&mut vm);
    step(&mut vm);
    assert_eq!(vm.v_reg[0], 252);
    assert_eq!(vm.v_reg[0xF], 0);
}

#[test]
fn sub_reg_no_borrow() {
    let mut vm = vm_with(&[0x6009, 0x6105, 0x8015]);
    step(&mut vm);
    step(&mut vm);
    step(&mut vm);
    assert_eq!(vm.v_reg[0], 4);
    assert_eq!(vm.v_reg[0xF], 1);
}

#[test]
fn subn_reg_both_directions() {
    // V0 = 5, V1 = 9: V0 = V1 - V0 = 4, VF = 1 (no borrow).
    let mut vm = vm_with(&[0x6005, 0x6109, 0x8017]);
    step(&mut vm);
    step(&mut vm);
    step(&mut vm);
    assert_eq!(vm.v_reg[0], 4);
    assert_eq!(vm.v_reg[0xF], 1);

    // V0 = 9, V1 = 5: V0 = V1 - V0 wraps to 252, VF = 0.
    let mut vm = vm_with(&[0x6009, 0x6105, 0x8017]);
    step(&mut vm);
    step(&mut vm);
    step(&mut vm);
    assert_eq!(vm.v_reg[0], 252);
    assert_eq!(vm.v_reg[0xF], 0);
}

#[test]
fn or_and_xor_assign() {
    let mut vm = vm_with(&[0x600C, 0x610A, 0x8011]);
    step(&mut vm);
    step(&mut vm);
    step(&mut vm);
    assert_eq!(vm.v_reg[0], 0x0C | 0x0A);

    let mut vm = vm_with(&[0x600C, 0x610A, 0x8012]);
    step(&mut vm);
    step(&mut vm);
    step(&mut vm);
    assert_eq!(vm.v_reg[0], 0x0C & 0x0A);

    let mut vm = vm_with(&[0x600C, 0x610A, 0x8013]);
    step(&mut vm);
    step(&mut vm);
    step(&mut vm);
    assert_eq!(vm.v_reg[0], 0x0C ^ 0x0A);
}

#[test]
fn shift_right_reads_vy_by_default() {
    // VA = 4, VB = 5: shift reads VB, so VA = 2 and VF = 1 (low bit of 5).
    let mut vm = vm_with(&[0x6A04, 0x6B05, 0x8AB6]);
    step(&mut vm);
    step(&mut vm);
    step(&mut vm);
    assert_eq!(vm.v_reg[0xA], 2);
    assert_eq!(vm.v_reg[0xF], 1);
}

#[test]
fn shift_right_reads_vx_with_quirk_off() {
    let mut vm = vm_with(&[0x6A04, 0x6B05, 0x8AB6]);
    vm.set_quirks(Quirks { shift_reads_vy: false, index_advances: true });
    step(&mut vm);
    step(&mut vm);
    step(&mut vm);
    assert_eq!(vm.v_reg[0xA], 2);
    assert_eq!(vm.v_reg[0xF], 0);
}

#[test]
fn shift_left_flag_is_masked_top_bit() {
    // VB = 0x81: VA = 0x02, and VF takes the masked top bit 0x80, not 1.
    let mut vm = vm_with(&[0x6B81, 0x8ABE]);
    step(&mut vm);
    step(&mut vm);
    assert_eq!(vm.v_reg[0xA], 0x02);
    assert_eq!(vm.v_reg[0xF], 0x80);
}

#[test]
fn skip_if_equal_byte_advances_four() {
    let mut vm = vm_with(&[0x6007, 0x3007]);
    step(&mut vm);
    step(&mut vm);
    assert_eq!(vm.pc, 0x202 + 4);
}

#[test]
fn skip_if_equal_byte_advances_two_when_false() {
    let mut vm = vm_with(&[0x6007, 0x3008]);
    step(&mut vm);
    step(&mut vm);
    assert_eq!(vm.pc, 0x202 + 2);
}

#[test]
fn skip_if_not_equal_byte_both_branches() {
    let mut vm = vm_with(&[0x6007, 0x4008]);
    step(&mut vm);
    step(&mut vm);
    assert_eq!(vm.pc, 0x202 + 4);

    let mut vm = vm_with(&[0x6007, 0x4007]);
    step(&mut vm);
    step(&mut vm);
    assert_eq!(vm.pc, 0x202 + 2);
}

#[test]
fn skip_if_registers_equal_both_branches() {
    let mut vm = vm_with(&[0x6005, 0x6105, 0x5010]);
    step(&mut vm);
    step(&mut vm);
    step(&mut vm);
    assert_eq!(vm.pc, 0x204 + 4);

    let mut vm = vm_with(&[0x6005, 0x6106, 0x5010]);
    step(&mut vm);
    step(&mut vm);
    step(&mut vm);
    assert_eq!(vm.pc, 0x204 + 2);
}

#[test]
fn skip_if_registers_differ_both_branches() {
    let mut vm = vm_with(&[0x6005, 0x6106, 0x9010]);
    step(&mut vm);
    step(&mut vm);
    step(&mut vm);
    assert_eq!(vm.pc, 0x204 + 4);

    let mut vm = vm_with(&[0x6005, 0x6105, 0x9010]);
    step(&mut vm);
    step(&mut vm);
    step(&mut vm);
    assert_eq!(vm.pc, 0x204 + 2);
}

#[test]
fn skip_on_key_state_both_branches() {
    // V0 = 3; key 3 pressed: Ex9E skips, ExA1 does not.
    let mut vm = vm_with(&[0x6003, 0xE09E]);
    vm.keypad[3] = 1;
    step(&mut vm);
    step(&mut vm);
    assert_eq!(vm.pc, 0x202 + 4);

    let mut vm = vm_with(&[0x6003, 0xE0A1]);
    vm.keypad[3] = 1;
    step(&mut vm);
    step(&mut vm);
    assert_eq!(vm.pc, 0x202 + 2);

    // Key released: the other branch of each.
    let mut vm = vm_with(&[0x6003, 0xE09E]);
    step(&mut vm);
    step(&mut vm);
    assert_eq!(vm.pc, 0x202 + 2);

    let mut vm = vm_with(&[0x6003, 0xE0A1]);
    step(&mut vm);
    step(&mut vm);
    assert_eq!(vm.pc, 0x202 + 4);
}

#[test]
fn skip_on_key_rejects_out_of_range_register() {
    let mut vm = vm_with(&[0x6014, 0xE09E]);
    step(&mut vm);
    assert_eq!(vm.step_with(0), Err(Chip8Error::AddressOutOfRange));
    // The machine is untouched by the failed step.
    assert_eq!(vm.pc, 0x202);
}

#[test]
fn jump_is_absolute() {
    // 0x1204 jumps; the next opcode is fetched from 0x204.
    let mut vm = vm_with(&[0x1204, 0x6001, 0x6012]);
    step(&mut vm);
    assert_eq!(vm.pc, 0x204);
    step(&mut vm);
    assert_eq!(vm.v_reg[0], 0x12);
}

#[test]
fn jump_with_offset_adds_v0() {
    let mut vm = vm_with(&[0x6004, 0xB204]);
    step(&mut vm);
    step(&mut vm);
    assert_eq!(vm.pc, 0x208);
}

#[test]
fn call_then_return_resumes_after_call() {
    // Call 0x206 from 0x202; the return lands on the instruction after the
    // call, not on the call itself.
    let mut vm = vm_with(&[0x6001, 0x2206, 0x6102, 0x00EE]);
    step(&mut vm);
    step(&mut vm);
    assert_eq!(vm.pc, 0x206);
    assert_eq!(vm.sp, 1);
    step(&mut vm);
    assert_eq!(vm.pc, 0x204);
    assert_eq!(vm.sp, 0);
    step(&mut vm);
    assert_eq!(vm.v_reg[1], 2);
}

#[test]
fn sixteen_nested_calls_succeed_and_seventeenth_overflows() {
    // At 0x200 + 2k a call to the next address; the first sixteen descend,
    // the seventeenth must fail.
    let mut ops = Vec::new();
    for k in 0..17u16 {
        ops.push(0x2000 | (0x202 + 2 * k));
    }
    let mut vm = vm_with(&ops);
    for _ in 0..16 {
        let out = step(&mut vm);
        assert!(out.retired);
    }
    assert_eq!(vm.sp, 16);
    assert_eq!(vm.step_with(0), Err(Chip8Error::StackOverflow));
    // The failed call leaves the machine untouched.
    assert_eq!(vm.sp, 16);
    assert_eq!(vm.pc, 0x200 + 2 * 16);
}

#[test]
fn return_with_empty_stack_underflows() {
    let mut vm = vm_with(&[0x00EE]);
    assert_eq!(vm.step_with(0), Err(Chip8Error::StackUnderflow));
    assert_eq!(vm.pc, 0x200);
}

#[test]
fn clear_display_zeroes_every_pixel() {
    // Draw a glyph, then 00E0: the buffer reads all zero.
    let mut vm = vm_with(&[0xA050, 0xD005, 0x00E0]);
    vm.load_fontset();
    step(&mut vm);
    step(&mut vm);
    assert!(vm.gfx.iter().any(|p| *p == 1));
    step(&mut vm);
    assert!(vm.gfx.iter().all(|p| *p == 0));
    assert_eq!(vm.pc, 0x206);
}

#[test]
fn font_address_and_glyph_draw() {
    // Fx29 with V0 = 0xA points I at the glyph for hex digit A, and a
    // five-row draw at (0,0) reproduces it exactly.
    let mut vm = vm_with(&[0x600A, 0xF029, 0x6100, 0x6200, 0xD125]);
    vm.load_fontset();
    step(&mut vm);
    step(&mut vm);
    assert_eq!(vm.i_reg, 0x50 + 5 * 10);
    assert_eq!(vm.i_reg, 0x82);
    step(&mut vm);
    step(&mut vm);
    step(&mut vm);
    let glyph_a: [u8; 5] = [0xF0, 0x90, 0xF0, 0x90, 0x90];
    for (row, bits) in glyph_a.iter().enumerate() {
        for col in 0..8 {
            let expected = (bits >> (7 - col)) & 1;
            assert_eq!(vm.gfx[row * 64 + col], expected, "row {row} col {col}");
        }
    }
    // No collision on a blank screen.
    assert_eq!(vm.v_reg[0xF], 0);
}

#[test]
fn drawing_twice_restores_the_display() {
    // The same sprite at the same position twice: every pixel is back, and
    // the second pass reports the collision.
    let mut vm = vm_with(&[0xA050, 0xD005, 0xD005]);
    vm.load_fontset();
    step(&mut vm);
    step(&mut vm);
    let after_first: Vec<u8> = vm.gfx.clone();
    assert!(after_first.iter().any(|p| *p == 1));
    step(&mut vm);
    assert!(vm.gfx.iter().all(|p| *p == 0));
    assert_eq!(vm.v_reg[0xF], 1);
}

#[test]
fn draw_wraps_around_the_plane() {
    // A draw anchored at the last cell wraps onto the start of the plane.
    let mut vm = vm_with(&[0x603F, 0x611F, 0xA050, 0xD011]);
    vm.load_fontset();
    step(&mut vm);
    step(&mut vm);
    step(&mut vm);
    step(&mut vm);
    // Sprite byte 0xF0: four set bits starting at (63, 31), positions
    // computed modulo 2048.
    assert_eq!(vm.gfx[31 * 64 + 63], 1);
    assert_eq!(vm.gfx[(31 * 64 + 64) % 2048], 1);
    assert_eq!(vm.gfx[(31 * 64 + 65) % 2048], 1);
    assert_eq!(vm.gfx[(31 * 64 + 66) % 2048], 1);
}

#[test]
fn draw_out_of_range_sprite_fails() {
    let mut vm = vm_with(&[0xAFFF, 0xD125]);
    step(&mut vm);
    assert_eq!(vm.step_with(0), Err(Chip8Error::AddressOutOfRange));
    assert_eq!(vm.pc, 0x202);
}

#[test]
fn store_and_load_registers_advance_index() {
    let mut vm = vm_with(&[0x6005, 0x6107, 0xA300, 0xF155, 0x6000, 0x6100, 0xA300, 0xF165]);
    step(&mut vm);
    step(&mut vm);
    step(&mut vm);
    step(&mut vm);
    assert_eq!(vm.memory[0x300], 5);
    assert_eq!(vm.memory[0x301], 7);
    assert_eq!(vm.i_reg, 0x302);
    step(&mut vm);
    step(&mut vm);
    assert_eq!(vm.v_reg[0], 0);
    assert_eq!(vm.v_reg[1], 0);
    step(&mut vm);
    step(&mut vm);
    assert_eq!(vm.v_reg[0], 5);
    assert_eq!(vm.v_reg[1], 7);
    assert_eq!(vm.i_reg, 0x302);
}

#[test]
fn store_registers_keeps_index_with_quirk_off() {
    let mut vm = vm_with(&[0x6005, 0xA300, 0xF055]);
    vm.set_quirks(Quirks { shift_reads_vy: true, index_advances: false });
    step(&mut vm);
    step(&mut vm);
    step(&mut vm);
    assert_eq!(vm.memory[0x300], 5);
    assert_eq!(vm.i_reg, 0x300);
}

#[test]
fn store_registers_out_of_range_fails() {
    let mut vm = vm_with(&[0xAFFF, 0xF155]);
    step(&mut vm);
    assert_eq!(vm.step_with(0), Err(Chip8Error::AddressOutOfRange));
}

#[test]
fn bcd_stores_three_decimal_digits() {
    let mut vm = vm_with(&[0x609F, 0xA300, 0xF033]);
    step(&mut vm);
    step(&mut vm);
    step(&mut vm);
    assert_eq!(vm.memory[0x300], 1);
    assert_eq!(vm.memory[0x301], 5);
    assert_eq!(vm.memory[0x302], 9);
}

#[test]
fn bcd_out_of_range_fails() {
    let mut vm = vm_with(&[0xAFFE, 0xF033]);
    step(&mut vm);
    assert_eq!(vm.step_with(0), Err(Chip8Error::AddressOutOfRange));
}

#[test]
fn add_to_index_accumulates() {
    let mut vm = vm_with(&[0x6005, 0xA300, 0xF01E]);
    step(&mut vm);
    step(&mut vm);
    step(&mut vm);
    assert_eq!(vm.i_reg, 0x305);
}

#[test]
fn timers_count_down_and_beep_while_sounding() {
    // ST = 3: the setting step already ticks it to 2 and beeps; the beep
    // holds while the timer runs and stops when it is spent.
    let mut vm = vm_with(&[0x6003, 0xF018, 0x6000, 0x6000, 0x6000]);
    let out = step(&mut vm);
    assert!(!out.beep);
    let out = step(&mut vm);
    assert!(out.beep);
    assert_eq!(vm.sound_timer, 2);
    let out = step(&mut vm);
    assert!(out.beep);
    let out = step(&mut vm);
    assert!(out.beep);
    assert_eq!(vm.sound_timer, 0);
    let out = step(&mut vm);
    assert!(!out.beep);
}

#[test]
fn delay_timer_round_trip() {
    // DT = 5; the read one step later sees one tick gone.
    let mut vm = vm_with(&[0x6005, 0xF015, 0xF107]);
    step(&mut vm);
    step(&mut vm);
    step(&mut vm);
    assert_eq!(vm.v_reg[1], 4);
    assert_eq!(vm.delay_timer, 3);
}

#[test]
fn wait_key_parks_until_a_key_is_pressed() {
    let mut vm = vm_with(&[0xF30A]);
    let out = step(&mut vm);
    assert!(!out.retired);
    assert_eq!(vm.pc, 0x200);
    let out = step(&mut vm);
    assert!(!out.retired);
    // Two keys down: the lowest-numbered one is reported.
    vm.keypad[7] = 1;
    vm.keypad[4] = 1;
    let out = step(&mut vm);
    assert!(out.retired);
    assert_eq!(vm.v_reg[3], 4);
    assert_eq!(vm.pc, 0x202);
}

#[test]
fn wait_key_still_ticks_timers() {
    let mut vm = vm_with(&[0x6002, 0xF015, 0xF30A]);
    step(&mut vm);
    step(&mut vm);
    assert_eq!(vm.delay_timer, 1);
    step(&mut vm);
    step(&mut vm);
    assert_eq!(vm.delay_timer, 0);
    assert_eq!(vm.pc, 0x204);
}

#[test]
fn random_is_masked_by_the_immediate() {
    let mut vm = vm_with(&[0xC00F]);
    vm.v_reg[0] = 0xFF;
    let out = vm.interpret().expect("step succeeds");
    assert!(out.retired);
    assert!(vm.v_reg[0] <= 0x0F);
    assert_eq!(vm.pc, 0x202);
}

#[test]
fn invalid_opcodes_are_rejected_strictly() {
    for op in [0x0000u16, 0x5001, 0x8008, 0x9005, 0xE000, 0xF0FF] {
        let mut vm = vm_with(&[op]);
        assert_eq!(vm.step_with(0), Err(Chip8Error::InvalidOpcode(op)), "opcode {op:#06x}");
        assert_eq!(vm.pc, 0x200);
    }
}

#[test]
fn fetch_at_end_of_memory_fails() {
    let mut vm = Chip8::new();
    vm.pc = 4095;
    assert_eq!(vm.step_with(0), Err(Chip8Error::AddressOutOfRange));
    vm.pc = 4096;
    assert_eq!(vm.step_with(0), Err(Chip8Error::AddressOutOfRange));
}

#[test]
fn register_copy_and_read_delay() {
    let mut vm = vm_with(&[0x6A2A, 0x8BA0]);
    step(&mut vm);
    step(&mut vm);
    assert_eq!(vm.v_reg[0xB], 0x2A);
}
