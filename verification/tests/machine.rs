use chip8::font::FONT;
use chip8::{
    Chip8, Chip8Error, Instruction, GFX_HEIGHT, GFX_SIZE, GFX_WIDTH, MEMORY_SIZE, MEMORY_START,
};

fn reset_machine() -> Chip8 {
    let mut chip8 = Chip8::new();
    chip8.init();
    chip8
}

fn checksum(chip8: &Chip8) -> u64 {
    let mut sum: u64 = 0;
    for (address, byte) in chip8.memory().iter().enumerate() {
        sum = sum.wrapping_mul(31).wrapping_add(u64::from(*byte) + address as u64);
    }
    sum
}

#[test]
fn display_is_64_by_32() {
    assert_eq!(GFX_WIDTH, 64);
    assert_eq!(GFX_HEIGHT, 32);
    assert_eq!(GFX_SIZE, 2048);
    assert_eq!(Chip8::new().framebuffer().len(), 2048);
}

#[test]
fn new_machine_is_blank() {
    let chip8 = Chip8::new();
    assert_eq!(chip8.pc(), 0x200);
    assert_eq!(chip8.index(), 0);
    assert_eq!(chip8.sp(), 0);
    assert_eq!(chip8.delay_timer(), 0);
    assert_eq!(chip8.sound_timer(), 0);
    assert!(chip8.registers().iter().all(|v| *v == 0));
    assert!(chip8.stack().iter().all(|slot| *slot == 0));
    assert!(chip8.memory().iter().all(|byte| *byte == 0));
    assert!(chip8.framebuffer().iter().all(|cell| !*cell));
}

#[test]
fn default_machine_is_blank() {
    let chip8 = Chip8::default();
    assert_eq!(chip8.pc(), 0x200);
    assert!(chip8.memory().iter().all(|byte| *byte == 0));
    assert!(chip8.framebuffer().iter().all(|cell| !*cell));
}

#[test]
fn init_puts_the_font_at_the_start_of_memory() {
    let chip8 = reset_machine();
    assert_eq!(&chip8.memory()[..80], &FONT[..]);
    assert!(chip8.memory()[80..].iter().all(|byte| *byte == 0));
    assert_eq!(chip8.memory()[0], 0xF0);
    assert_eq!(chip8.memory()[5], 0x20);
    assert_eq!(chip8.memory()[6], 0x60);
    assert_eq!(chip8.memory()[50], 0xF0);
    assert_eq!(chip8.memory()[54], 0x90);
    assert_eq!(chip8.memory()[79], 0x80);
}

#[test]
fn init_resets_a_machine_that_ran() {
    let mut chip8 = reset_machine();
    chip8
        .load(&[0x60, 0x2A, 0xA0, 0x00, 0xF0, 0x15, 0xF0, 0x18, 0xD0, 0x05, 0x23, 0x00])
        .unwrap();
    chip8.set_key(4, true);
    for _ in 0..6 {
        chip8.cycle_with(0).unwrap();
    }
    chip8.set_key(9, true);
    assert_eq!(chip8.sp(), 1);
    assert_eq!(chip8.pc(), 0x300);
    assert_eq!(chip8.delay_timer(), 0x2A);
    assert!(chip8.framebuffer().iter().any(|cell| *cell));
    chip8.init();
    assert_eq!(chip8.pc(), 0x200);
    assert_eq!(chip8.index(), 0);
    assert_eq!(chip8.sp(), 0);
    assert_eq!(chip8.delay_timer(), 0);
    assert_eq!(chip8.sound_timer(), 0);
    assert!(chip8.registers().iter().all(|v| *v == 0));
    assert!(chip8.stack().iter().all(|slot| *slot == 0));
    assert!(chip8.framebuffer().iter().all(|cell| !*cell));
    assert_eq!(&chip8.memory()[..80], &FONT[..]);
    assert!(chip8.memory()[80..].iter().all(|byte| *byte == 0));
    // Neither the held keys nor the last key press survive the reset.
    chip8.load(&[0x60, 0x04, 0xE0, 0x9E, 0xF1, 0x0A]).unwrap();
    chip8.cycle_with(0).unwrap();
    chip8.cycle_with(0).unwrap();
    assert_eq!(chip8.pc(), 0x204);
    chip8.cycle_with(0).unwrap();
    assert_eq!(chip8.pc(), 0x204);
}

#[test]
fn load_copies_the_program_to_the_load_address() {
    let mut chip8 = reset_machine();
    assert_eq!(chip8.load(&[0x12, 0x34, 0x56]), Ok(()));
    assert_eq!(MEMORY_START, 0x200);
    assert_eq!(chip8.memory()[0x200], 0x12);
    assert_eq!(chip8.memory()[0x201], 0x34);
    assert_eq!(chip8.memory()[0x202], 0x56);
    assert_eq!(chip8.memory()[0x203], 0);
    assert_eq!(chip8.memory()[0x1FF], 0);
    assert_eq!(&chip8.memory()[..80], &FONT[..]);
    assert_eq!(chip8.pc(), 0x200);
}

#[test]
fn load_changes_only_the_bytes_under_the_program() {
    let mut chip8 = reset_machine();
    chip8.load(&[0xAA; 16]).unwrap();
    chip8.load(&[0xBB; 4]).unwrap();
    assert!(chip8.memory()[0x200..0x204].iter().all(|byte| *byte == 0xBB));
    assert!(chip8.memory()[0x204..0x210].iter().all(|byte| *byte == 0xAA));
    assert!(chip8.memory()[0x210..].iter().all(|byte| *byte == 0));
}

#[test]
fn load_accepts_an_empty_program() {
    let mut chip8 = reset_machine();
    let before = checksum(&chip8);
    assert_eq!(chip8.load(&[]), Ok(()));
    assert_eq!(checksum(&chip8), before);
}

#[test]
fn load_accepts_a_program_that_fills_memory() {
    let mut chip8 = reset_machine();
    let mut program = vec![0x11u8; MEMORY_SIZE - 0x200];
    program[3583] = 0x77;
    assert_eq!(program.len(), 3584);
    assert_eq!(chip8.load(&program), Ok(()));
    assert_eq!(chip8.memory()[0x200], 0x11);
    assert_eq!(chip8.memory()[4094], 0x11);
    assert_eq!(chip8.memory()[4095], 0x77);
    assert_eq!(chip8.memory()[0x1FF], 0);
}

#[test]
fn load_refuses_a_program_that_is_one_byte_too_long() {
    let mut chip8 = reset_machine();
    chip8.load(&[0x60, 0x01]).unwrap();
    let before = checksum(&chip8);
    let memory_before = *chip8.memory();
    let program = vec![0xFFu8; 3585];
    assert_eq!(chip8.load(&program), Err(Chip8Error::InvalidProgramSize(3585)));
    assert_eq!(checksum(&chip8), before);
    assert_eq!(chip8.memory()[..], memory_before[..]);
    assert_eq!(chip8.pc(), 0x200);
}

#[test]
fn load_refuses_a_program_as_large_as_memory() {
    let mut chip8 = reset_machine();
    let before = checksum(&chip8);
    let program = vec![0x01u8; 4096];
    assert_eq!(chip8.load(&program), Err(Chip8Error::InvalidProgramSize(4096)));
    assert_eq!(checksum(&chip8), before);
    let program = vec![0x01u8; 10_000];
    assert_eq!(chip8.load(&program), Err(Chip8Error::InvalidProgramSize(10_000)));
    assert_eq!(checksum(&chip8), before);
}

#[test]
fn timers_count_down_and_stop_at_zero() {
    let mut chip8 = reset_machine();
    chip8.load(&[0x60, 0x03, 0x61, 0x01, 0xF0, 0x15, 0xF1, 0x18]).unwrap();
    for _ in 0..4 {
        chip8.cycle_with(0).unwrap();
    }
    assert_eq!((chip8.delay_timer(), chip8.sound_timer()), (3, 1));
    chip8.update_timers();
    assert_eq!((chip8.delay_timer(), chip8.sound_timer()), (2, 0));
    chip8.update_timers();
    assert_eq!((chip8.delay_timer(), chip8.sound_timer()), (1, 0));
    chip8.update_timers();
    assert_eq!((chip8.delay_timer(), chip8.sound_timer()), (0, 0));
    chip8.update_timers();
    assert_eq!((chip8.delay_timer(), chip8.sound_timer()), (0, 0));
}

#[test]
fn timer_ticks_change_nothing_else() {
    let mut chip8 = reset_machine();
    chip8.load(&[0x60, 0xFF, 0xF0, 0x15]).unwrap();
    chip8.cycle_with(0).unwrap();
    chip8.cycle_with(0).unwrap();
    let before = checksum(&chip8);
    let registers = *chip8.registers();
    chip8.update_timers();
    assert_eq!(chip8.delay_timer(), 254);
    assert_eq!(chip8.pc(), 0x204);
    assert_eq!(*chip8.registers(), registers);
    assert_eq!(checksum(&chip8), before);
}

#[test]
fn cycles_do_not_count_timers_down() {
    let mut chip8 = reset_machine();
    // Set both timers to 9, then spin in a jump to self.
    chip8.load(&[0x60, 0x09, 0xF0, 0x15, 0xF0, 0x18, 0x12, 0x06]).unwrap();
    for _ in 0..100 {
        chip8.cycle_with(0).unwrap();
    }
    assert_eq!(chip8.pc(), 0x206);
    assert_eq!((chip8.delay_timer(), chip8.sound_timer()), (9, 9));
}

#[test]
fn read_reg_checks_the_index() {
    let mut chip8 = reset_machine();
    chip8.load(&[0x6E, 0x42]).unwrap();
    chip8.cycle_with(0).unwrap();
    assert_eq!(chip8.read_reg(0xE), Ok(0x42));
    assert_eq!(chip8.read_reg(0xF), Ok(0));
    assert_eq!(chip8.read_reg(16), Err(Chip8Error::InvalidReg(16)));
    assert_eq!(chip8.read_reg(255), Err(Chip8Error::InvalidReg(255)));
}

#[test]
fn write_reg_checks_the_index() {
    let mut chip8 = reset_machine();
    assert_eq!(chip8.write_reg(3, 9), Ok(()));
    assert_eq!(chip8.read_reg(3), Ok(9));
    assert_eq!(chip8.write_reg(15, 200), Ok(()));
    assert_eq!(chip8.registers()[15], 200);
    let registers = *chip8.registers();
    assert_eq!(chip8.write_reg(16, 1), Err(Chip8Error::InvalidReg(16)));
    assert_eq!(chip8.write_reg(200, 1), Err(Chip8Error::InvalidReg(200)));
    assert_eq!(*chip8.registers(), registers);
}

#[test]
fn fetch_past_the_end_of_memory_is_reported() {
    let mut chip8 = reset_machine();
    chip8.load(&[0x1F, 0xFF]).unwrap();
    assert_eq!(chip8.cycle_with(0), Ok(Instruction::Jump(0xFFF)));
    assert_eq!(chip8.pc(), 0xFFF);
    assert_eq!(chip8.cycle_with(0), Err(Chip8Error::ProgramCounterOutOfBounds(0xFFF)));
    assert_eq!(chip8.pc(), 0xFFF);
    assert_eq!(chip8.cycle(), Err(Chip8Error::ProgramCounterOutOfBounds(0xFFF)));
}

#[test]
fn last_two_bytes_of_memory_can_be_fetched() {
    let mut chip8 = reset_machine();
    let mut program = vec![0u8; 3584];
    program[0] = 0x1F;
    program[1] = 0xFE;
    program[3582] = 0x6A;
    program[3583] = 0x55;
    chip8.load(&program).unwrap();
    assert_eq!(chip8.cycle_with(0), Ok(Instruction::Jump(0xFFE)));
    assert_eq!(chip8.cycle_with(0), Ok(Instruction::SetVConst(0xA, 0x55)));
    assert_eq!(chip8.pc(), 0x1000);
    assert_eq!(chip8.cycle_with(0), Err(Chip8Error::ProgramCounterOutOfBounds(0x1000)));
}

#[test]
fn unknown_instruction_is_reported_and_changes_nothing() {
    let mut chip8 = reset_machine();
    let before = checksum(&chip8);
    assert_eq!(
        chip8.cycle_with(0),
        Err(Chip8Error::UnknownInstruction(Instruction::Unknown(0x0000)))
    );
    assert_eq!(chip8.pc(), 0x200);
    assert_eq!(checksum(&chip8), before);
    chip8.load(&[0xB1, 0x23]).unwrap();
    assert_eq!(
        chip8.cycle(),
        Err(Chip8Error::UnknownInstruction(Instruction::Unknown(0xB123)))
    );
    assert_eq!(chip8.pc(), 0x200);
}

#[test]
fn errors_have_a_readable_form() {
    assert_eq!(format!("{:?}", Chip8Error::StackOverflow), "StackOverflow");
    assert_eq!(format!("{:?}", Chip8Error::InvalidProgramSize(5000)), "InvalidProgramSize(5000)");
    assert_eq!(
        format!("{:?}", Chip8Error::UnknownInstruction(Instruction::Unknown(1))),
        "UnknownInstruction(Unknown(1))"
    );
}
