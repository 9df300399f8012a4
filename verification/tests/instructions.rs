use chip8::{Chip8, Chip8Error, Instruction};

fn machine_with(program: &[u8]) -> Chip8 {
    let mut chip8 = Chip8::new();
    chip8.init();
    chip8.load(program).unwrap();
    chip8
}

fn after(program: &[u8], cycles: usize) -> Chip8 {
    let mut chip8 = machine_with(program);
    for _ in 0..cycles {
        chip8.cycle_with(0).unwrap();
    }
    chip8
}

#[test]
fn add_with_carry() {
    let chip8 = after(&[0x60, 0xFA, 0x61, 0x0A, 0x80, 0x14], 3);
    assert_eq!(chip8.registers()[0], 4);
    assert_eq!(chip8.registers()[0xF], 1);
    assert_eq!(chip8.registers()[1], 10);
    assert_eq!(chip8.pc(), 0x206);
}

#[test]
fn add_without_carry() {
    let chip8 = after(&[0x60, 0x0A, 0x61, 0x0A, 0x80, 0x14], 3);
    assert_eq!(chip8.registers()[0], 20);
    assert_eq!(chip8.registers()[0xF], 0);
}

#[test]
fn add_to_exactly_255_does_not_carry() {
    let chip8 = after(&[0x60, 0xFF, 0x61, 0x00, 0x80, 0x14], 3);
    assert_eq!(chip8.registers()[0], 255);
    assert_eq!(chip8.registers()[0xF], 0);
    let chip8 = after(&[0x60, 0xFF, 0x61, 0x01, 0x80, 0x14], 3);
    assert_eq!(chip8.registers()[0], 0);
    assert_eq!(chip8.registers()[0xF], 1);
}

#[test]
fn add_overwrites_a_value_kept_in_vf() {
    let chip8 = after(&[0x6F, 0x77, 0x60, 0x01, 0x61, 0x01, 0x80, 0x14], 4);
    assert_eq!(chip8.registers()[0], 2);
    assert_eq!(chip8.registers()[0xF], 0);
}

#[test]
fn sub_of_equal_values_has_no_borrow() {
    let chip8 = after(&[0x60, 0x05, 0x61, 0x05, 0x80, 0x15], 3);
    assert_eq!(chip8.registers()[0], 0);
    assert_eq!(chip8.registers()[0xF], 1);
}

#[test]
fn sub_with_borrow_wraps() {
    let chip8 = after(&[0x60, 0x03, 0x61, 0x05, 0x80, 0x15], 3);
    assert_eq!(chip8.registers()[0], 254);
    assert_eq!(chip8.registers()[0xF], 0);
}

#[test]
fn sub_without_borrow() {
    let chip8 = after(&[0x60, 0x09, 0x61, 0x05, 0x80, 0x15], 3);
    assert_eq!(chip8.registers()[0], 4);
    assert_eq!(chip8.registers()[0xF], 1);
    assert_eq!(chip8.registers()[1], 5);
}

#[test]
fn subn_subtracts_vx_from_vy() {
    let chip8 = after(&[0x60, 0x05, 0x61, 0x03, 0x80, 0x17], 3);
    assert_eq!(chip8.registers()[0], 254);
    assert_eq!(chip8.registers()[0xF], 0);
    let chip8 = after(&[0x60, 0x03, 0x61, 0x05, 0x80, 0x17], 3);
    assert_eq!(chip8.registers()[0], 2);
    assert_eq!(chip8.registers()[0xF], 1);
    let chip8 = after(&[0x60, 0x07, 0x61, 0x07, 0x80, 0x17], 3);
    assert_eq!(chip8.registers()[0], 0);
    assert_eq!(chip8.registers()[0xF], 1);
}

#[test]
fn shift_right_moves_the_low_bit_to_vf() {
    let chip8 = after(&[0x60, 0x05, 0x80, 0x06], 2);
    assert_eq!(chip8.registers()[0], 2);
    assert_eq!(chip8.registers()[0xF], 1);
    let chip8 = after(&[0x60, 0x04, 0x80, 0x06], 2);
    assert_eq!(chip8.registers()[0], 2);
    assert_eq!(chip8.registers()[0xF], 0);
    let chip8 = after(&[0x60, 0xFF, 0x80, 0x06], 2);
    assert_eq!(chip8.registers()[0], 0x7F);
    assert_eq!(chip8.registers()[0xF], 1);
}

#[test]
fn shift_left_moves_the_high_bit_to_vf() {
    let chip8 = after(&[0x60, 0x81, 0x80, 0x0E], 2);
    assert_eq!(chip8.registers()[0], 0x02);
    assert_eq!(chip8.registers()[0xF], 1);
    let chip8 = after(&[0x60, 0x41, 0x80, 0x0E], 2);
    assert_eq!(chip8.registers()[0], 0x82);
    assert_eq!(chip8.registers()[0xF], 0);
}

#[test]
fn shifts_work_on_vx_and_ignore_vy() {
    let chip8 = after(&[0x60, 0x08, 0x61, 0xFF, 0x80, 0x16], 3);
    assert_eq!(chip8.registers()[0], 4);
    assert_eq!(chip8.registers()[1], 0xFF);
    assert_eq!(chip8.registers()[0xF], 0);
    let chip8 = after(&[0x60, 0x08, 0x61, 0xFF, 0x80, 0x1E], 3);
    assert_eq!(chip8.registers()[0], 16);
    assert_eq!(chip8.registers()[1], 0xFF);
    assert_eq!(chip8.registers()[0xF], 0);
}

#[test]
fn arithmetic_into_vf_keeps_the_result() {
    // VF = 250 + 10: the sum 4 stays in VF, not the carry.
    let chip8 = after(&[0x6F, 0xFA, 0x61, 0x0A, 0x8F, 0x14], 3);
    assert_eq!(chip8.registers()[0xF], 4);
    // VF = 9 >> 1: the shifted value 4 stays in VF, not the bit.
    let chip8 = after(&[0x6F, 0x09, 0x8F, 0x06], 2);
    assert_eq!(chip8.registers()[0xF], 4);
}

#[test]
fn bitwise_instructions() {
    let chip8 = after(&[0x60, 0x0C, 0x61, 0x0A, 0x80, 0x11], 3);
    assert_eq!(chip8.registers()[0], 0x0E);
    let chip8 = after(&[0x60, 0x0C, 0x61, 0x0A, 0x80, 0x12], 3);
    assert_eq!(chip8.registers()[0], 0x08);
    let chip8 = after(&[0x60, 0x0C, 0x61, 0x0A, 0x80, 0x13], 3);
    assert_eq!(chip8.registers()[0], 0x06);
    assert_eq!(chip8.registers()[1], 0x0A);
    assert_eq!(chip8.registers()[0xF], 0);
}

#[test]
fn set_and_copy_registers() {
    let chip8 = after(&[0x61, 0x2A, 0x80, 0x10], 2);
    assert_eq!(chip8.registers()[0], 0x2A);
    assert_eq!(chip8.registers()[1], 0x2A);
    assert_eq!(chip8.pc(), 0x204);
}

#[test]
fn add_constant_wraps_and_leaves_vf() {
    let chip8 = after(&[0x60, 0xFF, 0x70, 0x02], 2);
    assert_eq!(chip8.registers()[0], 1);
    assert_eq!(chip8.registers()[0xF], 0);
    let chip8 = after(&[0x60, 0x10, 0x70, 0x22], 2);
    assert_eq!(chip8.registers()[0], 0x32);
}

#[test]
fn skip_if_equal_to_constant() {
    assert_eq!(after(&[0x60, 0x05, 0x30, 0x05], 2).pc(), 0x206);
    assert_eq!(after(&[0x60, 0x05, 0x30, 0x06], 2).pc(), 0x204);
}

#[test]
fn skip_if_not_equal_to_constant() {
    assert_eq!(after(&[0x60, 0x05, 0x40, 0x05], 2).pc(), 0x204);
    assert_eq!(after(&[0x60, 0x05, 0x40, 0x06], 2).pc(), 0x206);
}

#[test]
fn skip_if_registers_equal() {
    assert_eq!(after(&[0x60, 0x05, 0x61, 0x05, 0x50, 0x10], 3).pc(), 0x208);
    assert_eq!(after(&[0x60, 0x05, 0x61, 0x06, 0x50, 0x10], 3).pc(), 0x206);
}

#[test]
fn skip_if_registers_differ() {
    assert_eq!(after(&[0x60, 0x05, 0x61, 0x05, 0x90, 0x10], 3).pc(), 0x206);
    assert_eq!(after(&[0x60, 0x05, 0x61, 0x06, 0x90, 0x10], 3).pc(), 0x208);
}

#[test]
fn jump_sets_the_program_counter() {
    let mut chip8 = machine_with(&[0x12, 0x34]);
    assert_eq!(chip8.cycle_with(0), Ok(Instruction::Jump(0x234)));
    assert_eq!(chip8.pc(), 0x234);
    assert_eq!(chip8.sp(), 0);
}

#[test]
fn call_pushes_the_return_address_and_return_pops_it() {
    let mut chip8 = machine_with(&[0x22, 0x04, 0x00, 0x00, 0x00, 0xEE]);
    assert_eq!(chip8.cycle_with(0), Ok(Instruction::Call(0x204)));
    assert_eq!(chip8.pc(), 0x204);
    assert_eq!(chip8.sp(), 1);
    assert_eq!(chip8.stack()[0], 0x202);
    assert_eq!(chip8.cycle_with(0), Ok(Instruction::Return));
    assert_eq!(chip8.pc(), 0x202);
    assert_eq!(chip8.sp(), 0);
    assert_eq!(chip8.stack()[0], 0);
}

#[test]
fn sixteen_nested_calls_succeed_and_the_seventeenth_overflows() {
    let mut chip8 = machine_with(&[0x22, 0x00]);
    for depth in 1..=16u8 {
        assert_eq!(chip8.cycle_with(0), Ok(Instruction::Call(0x200)));
        assert_eq!(chip8.sp(), depth);
    }
    assert!(chip8.stack().iter().all(|slot| *slot == 0x202));
    assert_eq!(chip8.cycle_with(0), Err(Chip8Error::StackOverflow));
    assert_eq!(chip8.sp(), 16);
    assert_eq!(chip8.pc(), 0x200);
    assert_eq!(chip8.cycle(), Err(Chip8Error::StackOverflow));
    assert_eq!(chip8.sp(), 16);
}

#[test]
fn sixteen_calls_unwind_in_reverse_order() {
    // Sixteen calls, each to the next call; then sixteen returns.
    let mut program = Vec::new();
    for depth in 0..16u16 {
        let target = 0x200 + 4 * (depth + 1);
        program.push(0x20 | (target >> 8) as u8);
        program.push((target & 0xFF) as u8);
        program.push(0x00);
        program.push(0xEE);
    }
    program.push(0x00);
    program.push(0xEE);
    let mut chip8 = machine_with(&program);
    for _ in 0..16 {
        assert!(matches!(chip8.cycle_with(0), Ok(Instruction::Call(_))));
    }
    assert_eq!(chip8.sp(), 16);
    assert_eq!(chip8.pc(), 0x240);
    for depth in (0..16u16).rev() {
        assert_eq!(chip8.cycle_with(0), Ok(Instruction::Return));
        assert_eq!(chip8.pc(), 0x200 + 4 * depth + 2);
        assert_eq!(u16::from(chip8.sp()), depth);
    }
    assert!(chip8.stack().iter().all(|slot| *slot == 0));
    assert_eq!(chip8.cycle_with(0), Err(Chip8Error::StackUnderflow));
}

#[test]
fn return_with_an_empty_stack_underflows() {
    let mut chip8 = machine_with(&[0x00, 0xEE]);
    assert_eq!(chip8.cycle_with(0), Err(Chip8Error::StackUnderflow));
    assert_eq!(chip8.pc(), 0x200);
    assert_eq!(chip8.sp(), 0);
    assert_eq!(chip8.cycle(), Err(Chip8Error::StackUnderflow));
}

#[test]
fn set_index() {
    let chip8 = after(&[0xA1, 0x23], 1);
    assert_eq!(chip8.index(), 0x123);
    assert_eq!(chip8.pc(), 0x202);
}

#[test]
fn add_to_index() {
    let chip8 = after(&[0xA0, 0x10, 0x60, 0x05, 0xF0, 0x1E], 3);
    assert_eq!(chip8.index(), 0x15);
    assert_eq!(chip8.registers()[0xF], 0);
}

#[test]
fn add_to_index_passes_the_end_of_memory() {
    let chip8 = after(&[0xAF, 0xFF, 0x60, 0x02, 0xF0, 0x1E], 3);
    assert_eq!(chip8.index(), 0x1001);
}

#[test]
fn add_to_index_wraps_at_sixteen_bits() {
    // I = 0xFFF, V0 = 255, then I += V0 in a loop.
    let mut chip8 = machine_with(&[0xAF, 0xFF, 0x60, 0xFF, 0xF0, 0x1E, 0x12, 0x04]);
    chip8.cycle_with(0).unwrap();
    chip8.cycle_with(0).unwrap();
    for _ in 0..240 {
        assert_eq!(chip8.cycle_with(0), Ok(Instruction::AddI(0)));
        assert_eq!(chip8.cycle_with(0), Ok(Instruction::Jump(0x204)));
    }
    assert_eq!(chip8.index(), 65295);
    assert_eq!(chip8.cycle_with(0), Ok(Instruction::AddI(0)));
    assert_eq!(chip8.index(), 14);
}

#[test]
fn font_address_is_five_times_the_digit() {
    assert_eq!(after(&[0x60, 0x0A, 0xF0, 0x29], 2).index(), 50);
    assert_eq!(after(&[0x60, 0x00, 0xF0, 0x29], 2).index(), 0);
    assert_eq!(after(&[0x60, 0x0F, 0xF0, 0x29], 2).index(), 75);
    assert_eq!(after(&[0x60, 0xFF, 0xF0, 0x29], 2).index(), 1275);
}

#[test]
fn bcd_of_255() {
    let chip8 = after(&[0x60, 0xFF, 0xA3, 0x00, 0xF0, 0x33], 3);
    assert_eq!(chip8.memory()[0x300], 2);
    assert_eq!(chip8.memory()[0x301], 5);
    assert_eq!(chip8.memory()[0x302], 5);
    assert_eq!(chip8.memory()[0x303], 0);
    assert_eq!(chip8.memory()[0x2FF], 0);
    assert_eq!(chip8.index(), 0x300);
    assert_eq!(chip8.pc(), 0x206);
}

#[test]
fn bcd_of_other_values() {
    let chip8 = after(&[0x60, 0x7B, 0xA3, 0x00, 0xF0, 0x33], 3);
    assert_eq!(chip8.memory()[0x300..0x303], [1, 2, 3]);
    let chip8 = after(&[0x60, 0x07, 0xA3, 0x00, 0xF0, 0x33], 3);
    assert_eq!(chip8.memory()[0x300..0x303], [0, 0, 7]);
    let chip8 = after(&[0x60, 0x00, 0xA3, 0x00, 0xF0, 0x33], 3);
    assert_eq!(chip8.memory()[0x300..0x303], [0, 0, 0]);
    let chip8 = after(&[0x60, 0x64, 0xA3, 0x00, 0xF0, 0x33], 3);
    assert_eq!(chip8.memory()[0x300..0x303], [1, 0, 0]);
    let chip8 = after(&[0x60, 0xC8, 0xA3, 0x00, 0xF0, 0x33], 3);
    assert_eq!(chip8.memory()[0x300..0x303], [2, 0, 0]);
}

#[test]
fn bcd_at_the_end_of_memory() {
    let chip8 = after(&[0x60, 0x7B, 0xAF, 0xFD, 0xF0, 0x33], 3);
    assert_eq!(chip8.memory()[4093..], [1, 2, 3]);
}

#[test]
fn bcd_past_the_end_of_memory_is_reported() {
    let mut chip8 = after(&[0x60, 0x7B, 0xAF, 0xFE, 0xF0, 0x33], 2);
    let memory = *chip8.memory();
    assert_eq!(chip8.cycle_with(0), Err(Chip8Error::InvalidAddress(0xFFE)));
    assert_eq!(chip8.memory()[..], memory[..]);
    assert_eq!(chip8.pc(), 0x204);
}

#[test]
fn store_registers() {
    let chip8 = after(&[0x60, 0x01, 0x61, 0x02, 0x62, 0x03, 0x63, 0x04, 0xA3, 0x00, 0xF2, 0x55], 6);
    assert_eq!(chip8.memory()[0x300..0x304], [1, 2, 3, 0]);
    assert_eq!(chip8.memory()[0x2FF], 0);
    assert_eq!(chip8.index(), 0x300);
    assert_eq!(chip8.pc(), 0x20C);
}

#[test]
fn store_only_v0() {
    let chip8 = after(&[0x60, 0x09, 0x61, 0x08, 0xA3, 0x00, 0xF0, 0x55], 4);
    assert_eq!(chip8.memory()[0x300..0x302], [9, 0]);
}

#[test]
fn store_all_registers() {
    let mut program = Vec::new();
    for register in 0..16u8 {
        program.push(0x60 | register);
        program.push(0xA0 + register);
    }
    program.extend_from_slice(&[0xA4, 0x00, 0xFF, 0x55]);
    let chip8 = after(&program, 18);
    for register in 0..16usize {
        assert_eq!(chip8.memory()[0x400 + register], 0xA0 + register as u8);
    }
    assert_eq!(chip8.memory()[0x410], 0);
}

#[test]
fn store_registers_past_the_end_of_memory_is_reported() {
    let mut chip8 = after(&[0x60, 0x11, 0x61, 0x22, 0xAF, 0xFF, 0xF1, 0x55], 3);
    assert_eq!(chip8.cycle_with(0), Err(Chip8Error::InvalidAddress(0xFFF)));
    assert_eq!(chip8.memory()[4095], 0);
    assert_eq!(chip8.pc(), 0x206);
    let chip8 = after(&[0x60, 0x11, 0x61, 0x22, 0xAF, 0xFF, 0xF0, 0x55], 4);
    assert_eq!(chip8.memory()[4095], 0x11);
}

#[test]
fn load_registers() {
    let chip8 = after(&[0x63, 0x44, 0xA2, 0x06, 0xF2, 0x65, 0xAA, 0xBB, 0xCC, 0xDD], 3);
    assert_eq!(chip8.registers()[..5], [0xAA, 0xBB, 0xCC, 0x44, 0]);
    assert_eq!(chip8.index(), 0x206);
    assert_eq!(chip8.pc(), 0x206);
}

#[test]
fn load_registers_past_the_end_of_memory_is_reported() {
    let mut chip8 = after(&[0x60, 0x11, 0xAF, 0xFE, 0xF2, 0x65], 2);
    assert_eq!(chip8.cycle_with(0), Err(Chip8Error::InvalidAddress(0xFFE)));
    assert_eq!(chip8.registers()[0], 0x11);
    let chip8 = after(&[0x60, 0x11, 0xAF, 0xFE, 0xF1, 0x65], 3);
    assert_eq!(chip8.registers()[..2], [0, 0]);
}

#[test]
fn store_then_load_brings_the_registers_back() {
    let chip8 = after(
        &[
            0x60, 0x01, 0x61, 0x02, 0x62, 0x03, 0xA3, 0x00, 0xF2, 0x55, 0x60, 0x00, 0x61, 0x00,
            0x62, 0x00, 0xF2, 0x65,
        ],
        9,
    );
    assert_eq!(chip8.registers()[..3], [1, 2, 3]);
}

#[test]
fn delay_timer_is_written_and_read() {
    let chip8 = after(&[0x60, 0x2A, 0xF0, 0x15, 0xF1, 0x07], 3);
    assert_eq!(chip8.delay_timer(), 0x2A);
    assert_eq!(chip8.registers()[1], 0x2A);
    assert_eq!(chip8.sound_timer(), 0);
}

#[test]
fn sound_timer_is_written() {
    let chip8 = after(&[0x60, 0x07, 0xF0, 0x18], 2);
    assert_eq!(chip8.sound_timer(), 7);
    assert_eq!(chip8.delay_timer(), 0);
}

#[test]
fn random_byte_is_masked() {
    let mut chip8 = machine_with(&[0xC0, 0x0F, 0xC1, 0xF0, 0xC2, 0x00, 0xC3, 0xFF]);
    assert_eq!(chip8.cycle_with(0xAB), Ok(Instruction::Rand(0, 0x0F)));
    assert_eq!(chip8.registers()[0], 0x0B);
    assert_eq!(chip8.cycle_with(0xAB), Ok(Instruction::Rand(1, 0xF0)));
    assert_eq!(chip8.registers()[1], 0xA0);
    assert_eq!(chip8.cycle_with(0xAB), Ok(Instruction::Rand(2, 0x00)));
    assert_eq!(chip8.registers()[2], 0x00);
    assert_eq!(chip8.cycle_with(0xAB), Ok(Instruction::Rand(3, 0xFF)));
    assert_eq!(chip8.registers()[3], 0xAB);
    assert_eq!(chip8.pc(), 0x208);
}

#[test]
fn random_byte_is_read_by_no_other_instruction() {
    let program = [0x60, 0xFA, 0x61, 0x0A, 0x80, 0x14, 0xA1, 0x23, 0xF0, 0x33, 0xD0, 0x15];
    let mut one = machine_with(&program);
    let mut other = machine_with(&program);
    for _ in 0..6 {
        assert_eq!(one.cycle_with(0x00), other.cycle_with(0xFF));
    }
    assert_eq!(one.registers(), other.registers());
    assert_eq!(one.memory()[..], other.memory()[..]);
    assert_eq!(one.framebuffer()[..], other.framebuffer()[..]);
    assert_eq!(one.pc(), other.pc());
}

#[test]
fn cycle_takes_its_random_byte_from_the_system() {
    let mut chip8 = machine_with(&[0xC0, 0x00, 0xC1, 0x0F, 0x12, 0x02]);
    assert_eq!(chip8.cycle(), Ok(Instruction::Rand(0, 0x00)));
    assert_eq!(chip8.registers()[0], 0);
    for _ in 0..50 {
        assert_eq!(chip8.cycle(), Ok(Instruction::Rand(1, 0x0F)));
        assert!(chip8.registers()[1] < 16);
        assert_eq!(chip8.cycle(), Ok(Instruction::Jump(0x202)));
    }
}

#[test]
fn cycle_runs_like_cycle_with_where_no_random_byte_is_needed() {
    let program = [0x60, 0xFA, 0x61, 0x0A, 0x80, 0x14, 0x22, 0x0A, 0x00, 0x00, 0x00, 0xEE];
    let mut one = machine_with(&program);
    let mut other = machine_with(&program);
    for _ in 0..5 {
        assert_eq!(one.cycle(), other.cycle_with(0x5A));
        assert_eq!(one.registers(), other.registers());
        assert_eq!(one.pc(), other.pc());
        assert_eq!(one.sp(), other.sp());
    }
    assert_eq!(one.pc(), 0x208);
}
