use chip8::{Chip8, Chip8Error, Display, Keyboard, Memory, StepOutcome, CPU};

fn machine(program: &[u16]) -> Chip8 {
    let mut rom = Vec::new();
    for word in program {
        rom.push((word >> 8) as u8);
        rom.push((word & 0xFF) as u8);
    }
    let mut chip8 = Chip8::new();
    chip8.load_rom(rom);
    chip8
}

fn run_to_end(chip8: &mut Chip8, steps: usize) {
    for _ in 0..steps {
        assert_eq!(chip8.step_with(0), Ok(StepOutcome::Completed));
    }
}

fn registers(chip8: &Chip8) -> Vec<u8> {
    (0..16u8).map(|x| chip8.cpu().register(x)).collect()
}

#[test]
fn processor_starts_at_0x200_with_everything_zero() {
    let cpu = CPU::new();
    assert_eq!(cpu.program_counter(), 0x200);
    assert_eq!(cpu.index_register(), 0);
    assert_eq!(cpu.delay_timer(), 0);
    assert_eq!(cpu.sound_timer(), 0);
    assert_eq!(cpu.stack_depth(), 0);
    for x in 0..16u8 {
        assert_eq!(cpu.register(x), 0);
    }
}

#[test]
fn fetch_is_big_endian_and_advances_by_two() {
    // 0x6A12 must be read as "VA = 0x12", not as 0x126A.
    let mut chip8 = machine(&[0x6A12]);
    assert_eq!(chip8.step_with(0), Ok(StepOutcome::Completed));
    assert_eq!(chip8.cpu().register(0xA), 0x12);
    assert_eq!(chip8.cpu().program_counter(), 0x202);
}

#[test]
fn zero_word_halts_and_changes_nothing() {
    let mut chip8 = machine(&[0x6105, 0x0000]);
    run_to_end(&mut chip8, 1);
    assert_eq!(chip8.step_with(0), Err(Chip8Error::Halted));
    assert_eq!(chip8.cpu().program_counter(), 0x202);
    assert_eq!(chip8.cpu().register(1), 5);
    // The fault is a function of the state: it comes again.
    assert_eq!(chip8.step_with(0), Err(Chip8Error::Halted));
    assert_eq!(chip8.cpu().program_counter(), 0x202);
}

#[test]
fn empty_machine_halts_at_once() {
    let mut chip8 = Chip8::new();
    assert_eq!(chip8.step_with(0), Err(Chip8Error::Halted));
    assert_eq!(chip8.cpu().program_counter(), 0x200);
}

#[test]
fn unknown_opcode_is_reported_with_the_word() {
    let mut chip8 = machine(&[0x6105, 0x5121]);
    run_to_end(&mut chip8, 1);
    let before = registers(&chip8);
    assert_eq!(chip8.step_with(0), Err(Chip8Error::UnknownOpcode(0x5121)));
    // The program counter has moved past the word; nothing else changed.
    assert_eq!(chip8.cpu().program_counter(), 0x204);
    assert_eq!(registers(&chip8), before);
    assert_eq!(chip8.cpu().stack_depth(), 0);
}

#[test]
fn every_unknown_family_member_is_reported() {
    for word in [0x0001u16, 0x00E1, 0x8008, 0x9001, 0xE000, 0xF000, 0xF0FF] {
        let mut chip8 = machine(&[word]);
        assert_eq!(chip8.step_with(0), Err(Chip8Error::UnknownOpcode(word)));
        assert_eq!(chip8.cpu().program_counter(), 0x202);
    }
}

#[test]
fn fetch_beyond_memory_is_out_of_bounds() {
    // Jump to the last byte: the second byte of the word would be at 0x1000.
    let mut chip8 = machine(&[0x1FFF]);
    run_to_end(&mut chip8, 1);
    assert_eq!(chip8.cpu().program_counter(), 0xFFF);
    assert_eq!(chip8.step_with(0), Err(Chip8Error::OutOfBoundsAccess));
    assert_eq!(chip8.cpu().program_counter(), 0xFFF);
}

#[test]
fn running_off_the_end_of_memory_is_out_of_bounds() {
    // V0 = 0xFF, jump to 0xFFF + V0.
    let mut chip8 = machine(&[0x60FF, 0xBFFF]);
    run_to_end(&mut chip8, 2);
    assert_eq!(chip8.cpu().program_counter(), 0xFFF + 0xFF);
    assert_eq!(chip8.step_with(0), Err(Chip8Error::OutOfBoundsAccess));
    assert_eq!(chip8.cpu().program_counter(), 0xFFF + 0xFF);
}

#[test]
fn clear_screen_turns_pixels_off() {
    let mut chip8 = machine(&[0xA208, 0xD001, 0x00E0, 0x0000, 0xFF00]);
    run_to_end(&mut chip8, 2);
    assert_eq!(chip8.display().snapshot()[0][0], 1);
    run_to_end(&mut chip8, 1);
    assert!(chip8.display().snapshot().iter().all(|row| row.iter().all(|cell| *cell == 0)));
    assert_eq!(chip8.cpu().program_counter(), 0x206);
}

#[test]
fn jump_sets_the_program_counter() {
    let mut chip8 = machine(&[0x1ABC]);
    run_to_end(&mut chip8, 1);
    assert_eq!(chip8.cpu().program_counter(), 0xABC);
}

#[test]
fn jump_with_offset_adds_v0() {
    let mut chip8 = machine(&[0x6010, 0xB300]);
    run_to_end(&mut chip8, 2);
    assert_eq!(chip8.cpu().program_counter(), 0x310);
}

#[test]
fn call_pushes_and_return_restores() {
    // 0x200: call 0x206; 0x202: V1 = 1; 0x204: halt; 0x206: return.
    let mut chip8 = machine(&[0x2206, 0x6101, 0x0000, 0x00EE]);
    run_to_end(&mut chip8, 1);
    assert_eq!(chip8.cpu().program_counter(), 0x206);
    assert_eq!(chip8.cpu().stack_depth(), 1);
    run_to_end(&mut chip8, 1);
    assert_eq!(chip8.cpu().program_counter(), 0x202);
    assert_eq!(chip8.cpu().stack_depth(), 0);
    run_to_end(&mut chip8, 1);
    assert_eq!(chip8.cpu().register(1), 1);
}

#[test]
fn nested_calls_return_in_reverse_order() {
    // 0x200: call 0x204; 0x202: halt; 0x204: call 0x208; 0x206: return;
    // 0x208: return.
    let mut chip8 = machine(&[0x2204, 0x0000, 0x2208, 0x00EE, 0x00EE]);
    run_to_end(&mut chip8, 2);
    assert_eq!(chip8.cpu().program_counter(), 0x208);
    assert_eq!(chip8.cpu().stack_depth(), 2);
    run_to_end(&mut chip8, 1);
    assert_eq!(chip8.cpu().program_counter(), 0x206);
    run_to_end(&mut chip8, 1);
    assert_eq!(chip8.cpu().program_counter(), 0x202);
    assert_eq!(chip8.cpu().stack_depth(), 0);
}

#[test]
fn return_on_empty_stack_underflows() {
    let mut chip8 = machine(&[0x00EE]);
    assert_eq!(chip8.step_with(0), Err(Chip8Error::StackUnderflow));
    assert_eq!(chip8.cpu().program_counter(), 0x202);
    assert_eq!(chip8.cpu().stack_depth(), 0);
}

#[test]
fn seventeenth_nested_call_overflows() {
    // A subroutine that calls itself.
    let mut chip8 = machine(&[0x2200]);
    for depth in 1..=16 {
        assert_eq!(chip8.step_with(0), Ok(StepOutcome::Completed));
        assert_eq!(chip8.cpu().stack_depth(), depth);
        assert_eq!(chip8.cpu().program_counter(), 0x200);
    }
    assert_eq!(chip8.step_with(0), Err(Chip8Error::StackOverflow));
    assert_eq!(chip8.cpu().stack_depth(), 16);
    assert_eq!(chip8.cpu().program_counter(), 0x202);
}

#[test]
fn skip_if_equal_immediate() {
    let mut chip8 = machine(&[0x6142, 0x3142]);
    run_to_end(&mut chip8, 2);
    assert_eq!(chip8.cpu().program_counter(), 0x206);
    let mut chip8 = machine(&[0x6142, 0x3143]);
    run_to_end(&mut chip8, 2);
    assert_eq!(chip8.cpu().program_counter(), 0x204);
}

#[test]
fn skip_if_not_equal_immediate() {
    let mut chip8 = machine(&[0x6142, 0x4143]);
    run_to_end(&mut chip8, 2);
    assert_eq!(chip8.cpu().program_counter(), 0x206);
    let mut chip8 = machine(&[0x6142, 0x4142]);
    run_to_end(&mut chip8, 2);
    assert_eq!(chip8.cpu().program_counter(), 0x204);
}

#[test]
fn skip_if_registers_equal() {
    let mut chip8 = machine(&[0x6107, 0x6207, 0x5120]);
    run_to_end(&mut chip8, 3);
    assert_eq!(chip8.cpu().program_counter(), 0x208);
    let mut chip8 = machine(&[0x6107, 0x6208, 0x5120]);
    run_to_end(&mut chip8, 3);
    assert_eq!(chip8.cpu().program_counter(), 0x206);
}

#[test]
fn skip_if_registers_not_equal() {
    let mut chip8 = machine(&[0x6107, 0x6208, 0x9120]);
    run_to_end(&mut chip8, 3);
    assert_eq!(chip8.cpu().program_counter(), 0x208);
    let mut chip8 = machine(&[0x6107, 0x6207, 0x9120]);
    run_to_end(&mut chip8, 3);
    assert_eq!(chip8.cpu().program_counter(), 0x206);
}

#[test]
fn add_immediate_wraps_and_leaves_the_flag_alone() {
    for x in 0..15u16 {
        // VF = 0x55, Vx = 0xFF, Vx += 1.
        let mut chip8 = machine(&[0x6F55, 0x60FF | (x << 8), 0x7001 | (x << 8)]);
        run_to_end(&mut chip8, 3);
        assert_eq!(chip8.cpu().register(x as u8), 0x00);
        assert_eq!(chip8.cpu().register(0xF), 0x55);
    }
}

#[test]
fn add_immediate_to_the_flag_register_changes_only_it() {
    let mut chip8 = machine(&[0x6FFF, 0x7F01]);
    run_to_end(&mut chip8, 2);
    assert_eq!(chip8.cpu().register(0xF), 0x00);
    for x in 0..15u8 {
        assert_eq!(chip8.cpu().register(x), 0);
    }
}

#[test]
fn add_immediate_without_wrap() {
    let mut chip8 = machine(&[0x6110, 0x7122]);
    run_to_end(&mut chip8, 2);
    assert_eq!(chip8.cpu().register(1), 0x32);
}

fn alu(vx: u8, vy: u8, n: u16) -> (u8, u8, u8) {
    // V1 = vx, V2 = vy, then 8 1 2 n.
    let mut chip8 = machine(&[0x6100 | vx as u16, 0x6200 | vy as u16, 0x8120 | n]);
    run_to_end(&mut chip8, 3);
    assert_eq!(chip8.cpu().program_counter(), 0x206);
    (chip8.cpu().register(1), chip8.cpu().register(2), chip8.cpu().register(0xF))
}

#[test]
fn alu_assign_or_and_xor() {
    assert_eq!(alu(0x12, 0x34, 0x0), (0x34, 0x34, 0));
    assert_eq!(alu(0b1100, 0b1010, 0x1), (0b1110, 0b1010, 0));
    assert_eq!(alu(0b1100, 0b1010, 0x2), (0b1000, 0b1010, 0));
    assert_eq!(alu(0b1100, 0b1010, 0x3), (0b0110, 0b1010, 0));
}

#[test]
fn alu_add_sets_carry() {
    assert_eq!(alu(0xFF, 0x01, 0x4), (0x00, 0x01, 1));
    assert_eq!(alu(0x01, 0x01, 0x4), (0x02, 0x01, 0));
    assert_eq!(alu(0xFF, 0xFF, 0x4), (0xFE, 0xFF, 1));
    assert_eq!(alu(0x80, 0x7F, 0x4), (0xFF, 0x7F, 0));
}

#[test]
fn alu_subtract_sets_no_borrow() {
    assert_eq!(alu(0x05, 0x03, 0x5), (0x02, 0x03, 1));
    assert_eq!(alu(0x03, 0x05, 0x5), (0xFE, 0x05, 0));
    assert_eq!(alu(0x07, 0x07, 0x5), (0x00, 0x07, 1));
}

#[test]
fn alu_subtract_from_sets_no_borrow() {
    assert_eq!(alu(0x03, 0x05, 0x7), (0x02, 0x05, 1));
    assert_eq!(alu(0x05, 0x03, 0x7), (0xFE, 0x03, 0));
    assert_eq!(alu(0x07, 0x07, 0x7), (0x00, 0x07, 1));
}

#[test]
fn alu_shift_right_keeps_the_bit_shifted_out() {
    assert_eq!(alu(0b0000_0101, 0xEE, 0x6), (0b0000_0010, 0xEE, 1));
    assert_eq!(alu(0b1000_0100, 0xEE, 0x6), (0b0100_0010, 0xEE, 0));
}

#[test]
fn alu_shift_left_keeps_the_bit_shifted_out() {
    assert_eq!(alu(0b1000_0101, 0xEE, 0xE), (0b0000_1010, 0xEE, 1));
    assert_eq!(alu(0b0100_0001, 0xEE, 0xE), (0b1000_0010, 0xEE, 0));
}

#[test]
fn alu_clears_a_flag_left_by_the_caller() {
    // VF = 0x77 before an add that does not carry.
    let mut chip8 = machine(&[0x6F77, 0x6101, 0x6201, 0x8124]);
    run_to_end(&mut chip8, 4);
    assert_eq!(chip8.cpu().register(0xF), 0);
}

#[test]
fn add_into_the_flag_register_keeps_the_flag() {
    // VF = 0xFF, V1 = 0x02, VF += V1: the sum 0x01 is then replaced by carry 1.
    let mut chip8 = machine(&[0x6FFF, 0x6102, 0x8F14]);
    run_to_end(&mut chip8, 3);
    assert_eq!(chip8.cpu().register(0xF), 1);
    // VF = 0x10, V1 = 0x02, VF += V1: the sum 0x12 is replaced by carry 0.
    let mut chip8 = machine(&[0x6F10, 0x6102, 0x8F14]);
    run_to_end(&mut chip8, 3);
    assert_eq!(chip8.cpu().register(0xF), 0);
}

#[test]
fn shift_of_the_flag_register_keeps_the_result() {
    // VF = 0b0000_0111, VF >>= 1: the flag 1 is then replaced by the result.
    let mut chip8 = machine(&[0x6F07, 0x8F06]);
    run_to_end(&mut chip8, 2);
    assert_eq!(chip8.cpu().register(0xF), 0b0000_0011);
    // VF = 0b1000_0001, VF <<= 1.
    let mut chip8 = machine(&[0x6F81, 0x8F0E]);
    run_to_end(&mut chip8, 2);
    assert_eq!(chip8.cpu().register(0xF), 0b0000_0010);
}

#[test]
fn load_index_and_add_to_index() {
    let mut chip8 = machine(&[0xA123, 0x6110, 0xF11E]);
    run_to_end(&mut chip8, 3);
    assert_eq!(chip8.cpu().index_register(), 0x133);
    assert_eq!(chip8.cpu().register(0xF), 0);
}

#[test]
fn add_to_index_wraps_at_sixteen_bits() {
    // I = 0xFFF, then add 0xFF until the register wraps.
    let mut program = vec![0xAFFF, 0x61FF];
    let adds = (0x10000 - 0xFFF) / 0xFF + 1;
    for _ in 0..adds {
        program.push(0xF11E);
    }
    let mut chip8 = machine(&program);
    run_to_end(&mut chip8, program.len());
    let expected = (0xFFF + adds * 0xFF) % 0x10000;
    assert!(0xFFF + adds * 0xFF >= 0x10000);
    assert_eq!(chip8.cpu().index_register() as usize, expected);
}

#[test]
fn load_glyph_points_at_five_bytes_per_digit() {
    let mut chip8 = machine(&[0x6107, 0xF129]);
    run_to_end(&mut chip8, 2);
    assert_eq!(chip8.cpu().index_register(), 35);
    let mut chip8 = machine(&[0x61FF, 0xF129]);
    run_to_end(&mut chip8, 2);
    assert_eq!(chip8.cpu().index_register(), 1275);
}

#[test]
fn timers_are_set_and_read() {
    let mut chip8 = machine(&[0x6133, 0xF115, 0xF118, 0xF207]);
    run_to_end(&mut chip8, 4);
    assert_eq!(chip8.cpu().delay_timer(), 0x33);
    assert_eq!(chip8.cpu().sound_timer(), 0x33);
    assert_eq!(chip8.cpu().register(2), 0x33);
}

#[test]
fn steps_do_not_count_timers_down() {
    let mut chip8 = machine(&[0x6103, 0xF115, 0x6000, 0x6000, 0x6000]);
    run_to_end(&mut chip8, 5);
    assert_eq!(chip8.cpu().delay_timer(), 3);
}

#[test]
fn tick_counts_timers_down_to_zero_and_stops() {
    let mut chip8 = machine(&[0x6102, 0xF115, 0x6201, 0xF218]);
    run_to_end(&mut chip8, 4);
    chip8.tick_timers();
    assert_eq!(chip8.cpu().delay_timer(), 1);
    assert_eq!(chip8.cpu().sound_timer(), 0);
    chip8.tick_timers();
    assert_eq!(chip8.cpu().delay_timer(), 0);
    assert_eq!(chip8.cpu().sound_timer(), 0);
    chip8.tick_timers();
    assert_eq!(chip8.cpu().delay_timer(), 0);
    assert_eq!(chip8.cpu().sound_timer(), 0);
    assert_eq!(chip8.cpu().program_counter(), 0x208);
}

#[test]
fn bcd_stores_hundreds_tens_ones() {
    // V1 = 157, I = 0x300.
    let mut chip8 = machine(&[0x619D, 0xA300, 0xF133]);
    run_to_end(&mut chip8, 3);
    assert_eq!(chip8.memory().read_range(0x300, 3), Ok(vec![1, 5, 7]));
    assert_eq!(chip8.memory().read_from_address(0x2FF), Ok(0));
    assert_eq!(chip8.memory().read_from_address(0x303), Ok(0));
    assert_eq!(chip8.cpu().index_register(), 0x300);
}

#[test]
fn bcd_of_small_and_large_values() {
    let cases = [(0u16, [0u8, 0, 0]), (9, [0, 0, 9]), (40, [0, 4, 0]), (255, [2, 5, 5])];
    for (value, digits) in cases {
        let mut chip8 = machine(&[0x6100 | value, 0xA300, 0xF133]);
        run_to_end(&mut chip8, 3);
        assert_eq!(chip8.memory().read_range(0x300, 3), Ok(digits.to_vec()));
    }
}

#[test]
fn bcd_past_the_end_of_memory_writes_nothing() {
    let mut chip8 = machine(&[0x619D, 0xAFFE, 0xF133]);
    run_to_end(&mut chip8, 2);
    assert_eq!(chip8.step_with(0), Err(Chip8Error::OutOfBoundsAccess));
    assert_eq!(chip8.memory().read_from_address(0xFFE), Ok(0));
    assert_eq!(chip8.memory().read_from_address(0xFFF), Ok(0));
    assert_eq!(chip8.cpu().program_counter(), 0x206);
    // At 0xFFD the three digits just fit.
    let mut chip8 = machine(&[0x619D, 0xAFFD, 0xF133]);
    run_to_end(&mut chip8, 3);
    assert_eq!(chip8.memory().read_range(0xFFD, 3), Ok(vec![1, 5, 7]));
}

#[test]
fn store_registers_writes_v0_through_vx_only() {
    let mut chip8 = machine(&[0x6011, 0x6122, 0x6233, 0x6344, 0xA300, 0xF255]);
    run_to_end(&mut chip8, 6);
    assert_eq!(chip8.memory().read_range(0x300, 4), Ok(vec![0x11, 0x22, 0x33, 0x00]));
    assert_eq!(chip8.cpu().index_register(), 0x300);
}

#[test]
fn store_all_registers() {
    let mut program: Vec<u16> = (0..16u16).map(|x| 0x6000 | (x << 8) | (0xA0 + x)).collect();
    program.push(0xA400);
    program.push(0xFF55);
    let mut chip8 = machine(&program);
    run_to_end(&mut chip8, program.len());
    let expected: Vec<u8> = (0..16u8).map(|x| 0xA0 + x).collect();
    assert_eq!(chip8.memory().read_range(0x400, 16), Ok(expected));
    assert_eq!(chip8.memory().read_from_address(0x410), Ok(0));
}

#[test]
fn load_registers_reads_v0_through_vx_only() {
    // The program itself is the data: I = 0x200.
    let mut chip8 = machine(&[0x63EE, 0xA200, 0xF265]);
    run_to_end(&mut chip8, 3);
    assert_eq!(chip8.cpu().register(0), 0x63);
    assert_eq!(chip8.cpu().register(1), 0xEE);
    assert_eq!(chip8.cpu().register(2), 0xA2);
    assert_eq!(chip8.cpu().register(3), 0xEE);
    assert_eq!(chip8.cpu().register(4), 0);
    assert_eq!(chip8.cpu().index_register(), 0x200);
}

#[test]
fn store_then_load_gives_the_registers_back() {
    let mut chip8 = machine(&[
        0x6011, 0x6122, 0x6233, 0xA300, 0xF255, 0x6000, 0x6100, 0x6200, 0xF265,
    ]);
    run_to_end(&mut chip8, 9);
    assert_eq!(&registers(&chip8)[..4], &[0x11, 0x22, 0x33, 0x00]);
}

#[test]
fn register_block_past_the_end_of_memory_is_rejected_whole() {
    let mut chip8 = machine(&[0x6011, 0x6122, 0xAFFF, 0xF155]);
    run_to_end(&mut chip8, 3);
    assert_eq!(chip8.step_with(0), Err(Chip8Error::OutOfBoundsAccess));
    assert_eq!(chip8.memory().read_from_address(0xFFF), Ok(0));
    let mut chip8 = machine(&[0x6011, 0x6122, 0xAFFF, 0xF165]);
    run_to_end(&mut chip8, 3);
    assert_eq!(chip8.step_with(0), Err(Chip8Error::OutOfBoundsAccess));
    assert_eq!(chip8.cpu().register(0), 0x11);
    assert_eq!(chip8.cpu().register(1), 0x22);
    // One register at the last address fits.
    let mut chip8 = machine(&[0x6011, 0xAFFF, 0xF055]);
    run_to_end(&mut chip8, 3);
    assert_eq!(chip8.memory().read_from_address(0xFFF), Ok(0x11));
}

#[test]
fn draw_reads_the_sprite_at_the_index_register() {
    // V1 = 2, V2 = 1, I = 0x20A, draw 2 rows at (V1, V2); sprite follows.
    let mut chip8 = machine(&[0x6102, 0x6201, 0xA20A, 0xD122, 0x0000, 0xC081]);
    run_to_end(&mut chip8, 4);
    let cells = chip8.display().snapshot();
    let mut lit = Vec::new();
    for row in 0..32 {
        for col in 0..64 {
            if cells[row][col] == 1 {
                lit.push((row, col));
            }
        }
    }
    assert_eq!(lit, vec![(1, 2), (1, 3), (2, 2), (2, 9)]);
    assert_eq!(chip8.cpu().register(0xF), 0);
    assert_eq!(chip8.cpu().program_counter(), 0x208);
}

#[test]
fn draw_uses_register_values_not_register_numbers() {
    // V1 = 40, V2 = 20: the sprite must land at (40, 20), not at (1, 2).
    let mut chip8 = machine(&[0x6128, 0x6214, 0xA208, 0xD121, 0x8000]);
    run_to_end(&mut chip8, 4);
    let cells = chip8.display().snapshot();
    assert_eq!(cells[20][40], 1);
    assert_eq!(cells[2][1], 0);
}

#[test]
fn draw_sets_the_flag_on_collision_and_clears_it_otherwise() {
    let mut chip8 = machine(&[0x6F09, 0xA20A, 0xD001, 0xD001, 0xD001, 0xFF00]);
    run_to_end(&mut chip8, 3);
    assert_eq!(chip8.cpu().register(0xF), 0);
    run_to_end(&mut chip8, 1);
    assert_eq!(chip8.cpu().register(0xF), 1);
    assert!(chip8.display().snapshot()[0].iter().all(|cell| *cell == 0));
    run_to_end(&mut chip8, 1);
    assert_eq!(chip8.cpu().register(0xF), 0);
}

#[test]
fn draw_wraps_coordinates_taken_from_registers() {
    // V1 = 0xFF, V2 = 0xFF: 255 mod 64 = 63, 255 mod 32 = 31.
    let mut chip8 = machine(&[0x61FF, 0x62FF, 0xA208, 0xD121, 0xC000]);
    run_to_end(&mut chip8, 4);
    let cells = chip8.display().snapshot();
    assert_eq!(cells[31][63], 1);
    assert_eq!(cells[31][0], 1);
}

#[test]
fn draw_past_the_end_of_memory_is_rejected() {
    let mut chip8 = machine(&[0x6F05, 0xAFFF, 0xD002]);
    run_to_end(&mut chip8, 2);
    assert_eq!(chip8.step_with(0), Err(Chip8Error::OutOfBoundsAccess));
    assert_eq!(chip8.cpu().register(0xF), 5);
    assert_eq!(chip8.cpu().program_counter(), 0x206);
    assert!(chip8.display().snapshot().iter().all(|row| row.iter().all(|cell| *cell == 0)));
}

#[test]
fn draw_of_no_rows_draws_nothing_and_clears_the_flag() {
    let mut chip8 = machine(&[0x6F05, 0xAFFF, 0xD000]);
    run_to_end(&mut chip8, 3);
    assert_eq!(chip8.cpu().register(0xF), 0);
    assert!(chip8.display().snapshot().iter().all(|row| row.iter().all(|cell| *cell == 0)));
}

#[test]
fn skip_if_key_compares_the_key_with_vx() {
    let mut chip8 = machine(&[0x6105, 0xE19E]);
    chip8.set_key_pressed(Some(5));
    run_to_end(&mut chip8, 2);
    assert_eq!(chip8.cpu().program_counter(), 0x206);

    let mut chip8 = machine(&[0x6105, 0xE19E]);
    chip8.set_key_pressed(Some(3));
    run_to_end(&mut chip8, 2);
    assert_eq!(chip8.cpu().program_counter(), 0x204);

    let mut chip8 = machine(&[0x6105, 0xE19E]);
    run_to_end(&mut chip8, 2);
    assert_eq!(chip8.cpu().program_counter(), 0x204);
}

#[test]
fn skip_if_not_key_compares_the_key_with_vx() {
    let mut chip8 = machine(&[0x6105, 0xE1A1]);
    chip8.set_key_pressed(Some(5));
    run_to_end(&mut chip8, 2);
    assert_eq!(chip8.cpu().program_counter(), 0x204);

    let mut chip8 = machine(&[0x6105, 0xE1A1]);
    chip8.set_key_pressed(Some(3));
    run_to_end(&mut chip8, 2);
    assert_eq!(chip8.cpu().program_counter(), 0x206);

    let mut chip8 = machine(&[0x6105, 0xE1A1]);
    run_to_end(&mut chip8, 2);
    assert_eq!(chip8.cpu().program_counter(), 0x206);
}

#[test]
fn wait_for_key_suspends_until_a_key_is_held() {
    let mut chip8 = machine(&[0x61AA, 0xF10A, 0x6201]);
    run_to_end(&mut chip8, 1);
    for _ in 0..3 {
        assert_eq!(chip8.step_with(0), Ok(StepOutcome::WaitingForKey));
        assert_eq!(chip8.cpu().program_counter(), 0x202);
        assert_eq!(chip8.cpu().register(1), 0xAA);
    }
    chip8.set_key_pressed(Some(0xB));
    assert_eq!(chip8.step_with(0), Ok(StepOutcome::Completed));
    assert_eq!(chip8.cpu().register(1), 0xB);
    assert_eq!(chip8.cpu().program_counter(), 0x204);
}

#[test]
fn timers_can_tick_while_waiting_for_a_key() {
    let mut chip8 = machine(&[0x6103, 0xF115, 0xF20A]);
    run_to_end(&mut chip8, 2);
    assert_eq!(chip8.step_with(0), Ok(StepOutcome::WaitingForKey));
    chip8.tick_timers();
    assert_eq!(chip8.step_with(0), Ok(StepOutcome::WaitingForKey));
    assert_eq!(chip8.cpu().delay_timer(), 2);
}

#[test]
fn random_instruction_masks_the_given_byte() {
    let mut chip8 = machine(&[0xC10F, 0xC2F0, 0xC300, 0xC4FF]);
    assert_eq!(chip8.step_with(0xAB), Ok(StepOutcome::Completed));
    assert_eq!(chip8.step_with(0xAB), Ok(StepOutcome::Completed));
    assert_eq!(chip8.step_with(0xAB), Ok(StepOutcome::Completed));
    assert_eq!(chip8.step_with(0xAB), Ok(StepOutcome::Completed));
    assert_eq!(chip8.cpu().register(1), 0x0B);
    assert_eq!(chip8.cpu().register(2), 0xA0);
    assert_eq!(chip8.cpu().register(3), 0x00);
    assert_eq!(chip8.cpu().register(4), 0xAB);
}

#[test]
fn other_instructions_ignore_the_given_byte() {
    let program = [0x6105, 0x7103, 0x8114, 0xA300, 0xF133];
    let mut first = machine(&program);
    let mut second = machine(&program);
    for i in 0..program.len() {
        assert_eq!(first.step_with(0x00), second.step_with(0xFF - i as u8));
    }
    assert_eq!(registers(&first), registers(&second));
    assert_eq!(first.memory().read_range(0, 4096), second.memory().read_range(0, 4096));
}

#[test]
fn random_instruction_with_the_generator_stays_inside_the_mask() {
    for _ in 0..64 {
        let mut chip8 = machine(&[0x61FF, 0xC10F, 0x62FF, 0xC200]);
        for _ in 0..4 {
            assert_eq!(chip8.step(), Ok(StepOutcome::Completed));
        }
        assert!(chip8.cpu().register(1) <= 0x0F);
        assert_eq!(chip8.cpu().register(2), 0);
        assert_eq!(chip8.cpu().program_counter(), 0x208);
    }
}

#[test]
fn step_with_the_generator_runs_ordinary_instructions() {
    let mut chip8 = machine(&[0x61FF, 0x6201, 0x8124, 0x0000]);
    assert_eq!(chip8.step(), Ok(StepOutcome::Completed));
    assert_eq!(chip8.step(), Ok(StepOutcome::Completed));
    assert_eq!(chip8.step(), Ok(StepOutcome::Completed));
    assert_eq!(chip8.step(), Err(Chip8Error::Halted));
    assert_eq!(chip8.cpu().register(1), 0);
    assert_eq!(chip8.cpu().register(0xF), 1);
}

#[test]
fn processor_steps_on_parts_owned_by_the_caller() {
    let mut cpu = CPU::new();
    let mut memory = Memory::new();
    let mut display = Display::new();
    let mut keyboard = Keyboard::new();
    memory.write_range(0x200, &[0x6A, 0x07, 0xEA, 0x9E, 0x00, 0x00, 0xCA, 0x03]).unwrap();
    keyboard.set_key_pressed(Some(7));
    assert_eq!(
        cpu.execute_instruction_with(&mut memory, &mut display, &keyboard, 0),
        Ok(StepOutcome::Completed)
    );
    assert_eq!(
        cpu.execute_instruction(&mut memory, &mut display, &keyboard),
        Ok(StepOutcome::Completed)
    );
    assert_eq!(cpu.program_counter(), 0x206);
    assert_eq!(
        cpu.execute_instruction(&mut memory, &mut display, &keyboard),
        Ok(StepOutcome::Completed)
    );
    assert!(cpu.register(0xA) <= 3);
    cpu.tick_timers();
    assert_eq!(cpu.delay_timer(), 0);
}
