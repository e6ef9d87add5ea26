use chip8::chip::{MAX_PROGRAM_SIZE, PROGRAM_START};
use chip8::display::FONT;
use chip8::{Chip, ChipError, OpcodeHandler, Step};

#[test]
fn three_cycles_add_two_registers() {
    let handler = OpcodeHandler::new();
    let mut chip = Chip::new();
    chip.load_program(&[0x60, 0x05, 0x61, 0x01, 0x80, 0x14]);

    for _ in 0..3 {
        assert_eq!(chip.cycle(&handler), Ok(Step::Continue));
    }

    assert_eq!(chip.v.get(0), 6);
    assert_eq!(chip.v.get(1), 1);
    assert_eq!(chip.v.get(0xF), 0);
    assert_eq!(chip.program_counter, 0x200 + 6);
}

#[test]
fn font_address_of_a_digit() {
    let handler = OpcodeHandler::new();
    let mut chip = Chip::new();
    chip.v.set(3, 0xA);

    handler.next(0xA000, &mut chip).unwrap();
    assert_eq!(chip.i, 0);
    handler.next(0xF329, &mut chip).unwrap();

    assert_eq!(chip.i, 50);
    assert_eq!(&chip.memory[50..55], &[0xF0, 0x90, 0xF0, 0x90, 0x90]);
}

#[test]
fn font_address_of_the_largest_byte() {
    let mut chip = Chip::new();
    chip.v.set(0, 0xFF);
    OpcodeHandler::ldfvx(0xF029, &mut chip);
    assert_eq!(chip.i, 1275);
}

#[test]
fn call_then_return_restores_counter() {
    let handler = OpcodeHandler::new();
    let mut chip = Chip::new();
    chip.program_counter.set(12);
    assert_eq!(chip.stack_pointer, 0);

    handler.next(0x2DEA, &mut chip).unwrap();
    assert_eq!(chip.program_counter, 0xDEA);
    assert_eq!(chip.stack_pointer, 1);
    assert_eq!(chip.stack[1], 12);

    handler.next(0x00EE, &mut chip).unwrap();
    assert_eq!(chip.program_counter, 12);
    assert_eq!(chip.stack_pointer, 0);
}

#[test]
fn new_machine_holds_the_font() {
    let chip = Chip::new();
    assert_eq!(&chip.memory[0..80], &FONT[..]);
    assert!(chip.memory[80..].iter().all(|b| *b == 0));
    assert_eq!(chip.program_counter, PROGRAM_START);
    assert_eq!(chip.stack_pointer, 0);
    assert_eq!(chip.i, 0);
    assert_eq!(chip.delay_timer, 0);
    assert_eq!(chip.sound_timer, 0);
}

#[test]
fn load_program_copies_from_program_start() {
    let mut chip = Chip::new();
    chip.load_program(&[1, 2, 3]);
    assert_eq!(&chip.memory[0x1FF..0x204], &[0, 1, 2, 3, 0]);

    let full = vec![7u8; MAX_PROGRAM_SIZE];
    chip.load_program(&full);
    assert_eq!(chip.memory[4095], 7);
    assert_eq!(chip.memory[0x200], 7);
}

#[test]
fn decode_opcode_is_big_endian() {
    let mut chip = Chip::new();
    chip.load_program(&[0xAB, 0xCD]);
    assert_eq!(chip.decode_opcode(), Ok(0xABCD));

    chip.program_counter.set(4095);
    assert_eq!(
        chip.decode_opcode(),
        Err(ChipError::ProgramCounterOutOfBounds { address: 4095 })
    );
}

#[test]
fn unknown_opcode_is_reported() {
    let handler = OpcodeHandler::new();
    let mut chip = Chip::new();
    assert_eq!(
        handler.next(0x8008, &mut chip),
        Err(ChipError::UnknownOpcode { opcode: 0x8008, address: 0x200 })
    );
    assert_eq!(
        handler.next(0xE000, &mut chip),
        Err(ChipError::UnknownOpcode { opcode: 0xE000, address: 0x200 })
    );
    assert_eq!(chip.program_counter, 0x200);
}

#[test]
fn program_counter_past_memory_is_reported() {
    let handler = OpcodeHandler::new();
    let mut chip = Chip::new();
    chip.program_counter.set(4096);
    assert_eq!(
        handler.next(0x6001, &mut chip),
        Err(ChipError::ProgramCounterOutOfBounds { address: 4096 })
    );
    assert_eq!(chip.v.get(0), 0);
}

#[test]
fn return_on_empty_stack_underflows() {
    let handler = OpcodeHandler::new();
    let mut chip = Chip::new();
    assert_eq!(
        handler.next(0x00EE, &mut chip),
        Err(ChipError::StackUnderflow { address: 0x200 })
    );
    assert_eq!(chip.stack_pointer, 0);
}

#[test]
fn call_on_full_stack_overflows() {
    let handler = OpcodeHandler::new();
    let mut chip = Chip::new();
    for k in 0..15u16 {
        chip.program_counter.set(0x300 + 2 * k);
        handler.next(0x2300 + 2 * (k + 1), &mut chip).unwrap();
    }
    assert_eq!(chip.stack_pointer, 15);
    assert_eq!(
        handler.next(0x2400, &mut chip),
        Err(ChipError::StackOverflow { address: 0x31E })
    );
    assert_eq!(chip.stack_pointer, 15);
    assert_eq!(chip.program_counter, 0x31E);
}

#[test]
fn bcd_stores_three_digits() {
    let handler = OpcodeHandler::new();
    let mut chip = Chip::new();
    chip.v.set(7, 254);
    chip.i = 0x300;
    handler.next(0xF733, &mut chip).unwrap();
    assert_eq!(&chip.memory[0x300..0x303], &[2, 5, 4]);

    chip.i = 4094;
    assert_eq!(
        handler.next(0xF733, &mut chip),
        Err(ChipError::MemoryOutOfBounds { address: 0x202 })
    );
}

#[test]
fn store_and_load_registers() {
    let handler = OpcodeHandler::new();
    let mut chip = Chip::new();
    for k in 0..16u8 {
        chip.v.set(k, 10 + k);
    }
    chip.i = 0x400;
    handler.next(0xF355, &mut chip).unwrap();
    assert_eq!(&chip.memory[0x400..0x405], &[10, 11, 12, 13, 0]);

    chip.memory[0x500] = 99;
    chip.memory[0x501] = 98;
    chip.i = 0x500;
    handler.next(0xF165, &mut chip).unwrap();
    assert_eq!(chip.v.get(0), 99);
    assert_eq!(chip.v.get(1), 98);
    assert_eq!(chip.v.get(2), 12);

    chip.i = 4090;
    assert_eq!(
        handler.next(0xFF55, &mut chip),
        Err(ChipError::MemoryOutOfBounds { address: 0x204 })
    );
}

#[test]
fn draw_instruction_sets_collision_flag() {
    let handler = OpcodeHandler::new();
    let mut chip = Chip::new();
    chip.v.set(0, 0);
    chip.v.set(1, 0);
    chip.i = 0;
    handler.next(0xD015, &mut chip).unwrap();
    assert_eq!(chip.v.get(0xF), 0);
    assert_eq!(chip.screen.contents[0], 0xF0u64 << 56);
    assert_eq!(chip.screen.contents[1], 0x90u64 << 56);
    assert!(chip.screen.should_redraw);

    handler.next(0xD015, &mut chip).unwrap();
    assert_eq!(chip.v.get(0xF), 1);
    assert_eq!(chip.screen.contents, [0u64; 32]);

    chip.i = 4093;
    assert_eq!(
        handler.next(0xD014, &mut chip),
        Err(ChipError::MemoryOutOfBounds { address: 0x204 })
    );
}

#[test]
fn clear_instruction_blanks_the_screen() {
    let handler = OpcodeHandler::new();
    let mut chip = Chip::new();
    chip.screen.contents[3] = 5;
    handler.next(0x00E0, &mut chip).unwrap();
    assert_eq!(chip.screen.contents, [0u64; 32]);
    assert_eq!(chip.program_counter, 0x202);
}

#[test]
fn add_to_index_sets_carry() {
    let handler = OpcodeHandler::new();
    let mut chip = Chip::new();
    chip.v.set(2, 0x10);
    chip.i = 0xFFF8;
    handler.next(0xF21E, &mut chip).unwrap();
    assert_eq!(chip.i, 0x0008);
    assert_eq!(chip.v.get(0xF), 1);

    handler.next(0xF21E, &mut chip).unwrap();
    assert_eq!(chip.i, 0x0018);
    assert_eq!(chip.v.get(0xF), 0);
}

#[test]
fn timers_load_and_count_down() {
    let handler = OpcodeHandler::new();
    let mut chip = Chip::new();
    chip.v.set(4, 2);
    handler.next(0xF415, &mut chip).unwrap();
    handler.next(0xF418, &mut chip).unwrap();
    assert_eq!(chip.delay_timer, 2);
    assert_eq!(chip.sound_timer, 2);

    chip.tick_timers();
    handler.next(0xF507, &mut chip).unwrap();
    assert_eq!(chip.v.get(5), 1);

    chip.tick_timers();
    chip.tick_timers();
    assert_eq!(chip.delay_timer, 0);
    assert_eq!(chip.sound_timer, 0);
}

#[test]
fn key_skips_follow_the_keypad() {
    let handler = OpcodeHandler::new();
    let mut chip = Chip::new();
    chip.v.set(1, 0xC);
    chip.keyboard.set_state(0xC, true);

    handler.next(0xE19E, &mut chip).unwrap();
    assert_eq!(chip.program_counter, 0x204);
    handler.next(0xE1A1, &mut chip).unwrap();
    assert_eq!(chip.program_counter, 0x206);

    chip.v.set(1, 200);
    handler.next(0xE1A1, &mut chip).unwrap();
    assert_eq!(chip.program_counter, 0x20A);
}

#[test]
fn wait_for_key_is_handed_to_the_driver() {
    let handler = OpcodeHandler::new();
    let mut chip = Chip::new();
    assert_eq!(handler.next(0xF30A, &mut chip), Ok(Step::AwaitKey(3)));
    assert_eq!(chip.program_counter, 0x202);
    OpcodeHandler::ldvxkey(0xF30A, &mut chip, 0xB);
    assert_eq!(chip.v.get(3), 0xB);
}

#[test]
fn random_byte_is_masked() {
    let handler = OpcodeHandler::new();
    let mut chip = Chip::new();
    chip.v.set(6, 0xFF);
    handler.next(0xC600, &mut chip).unwrap();
    assert_eq!(chip.v.get(6), 0);
    handler.next(0xC60F, &mut chip).unwrap();
    assert!(chip.v.get(6) <= 0x0F);

    OpcodeHandler::rand_from(0xC63C, &mut chip, 0xFF);
    assert_eq!(chip.v.get(6), 0x3C);
    OpcodeHandler::rand_from(0xC63C, &mut chip, 0x0F);
    assert_eq!(chip.v.get(6), 0x0C);
}

#[test]
fn shifts_put_the_lost_bit_in_the_flag() {
    let handler = OpcodeHandler::new();
    let mut chip = Chip::new();
    chip.v.set(2, 0b1000_0011);
    handler.next(0x8206, &mut chip).unwrap();
    assert_eq!(chip.v.get(2), 0b0100_0001);
    assert_eq!(chip.v.get(0xF), 1);
    handler.next(0x820E, &mut chip).unwrap();
    assert_eq!(chip.v.get(2), 0b1000_0010);
    assert_eq!(chip.v.get(0xF), 0);
}

#[test]
fn flag_register_as_operand_ends_with_the_flag() {
    let handler = OpcodeHandler::new();
    let mut chip = Chip::new();
    chip.v.set(0xF, 0xFF);
    chip.v.set(1, 0x02);
    handler.next(0x8F14, &mut chip).unwrap();
    assert_eq!(chip.v.get(0xF), 1);
}

#[test]
fn subtract_then_add_restores_register() {
    let handler = OpcodeHandler::new();
    let mut chip = Chip::new();
    chip.v.set(0, 3);
    chip.v.set(1, 5);
    handler.next(0x8015, &mut chip).unwrap();
    assert_eq!(chip.v.get(0), 254);
    assert_eq!(chip.v.get(0xF), 0);
    handler.next(0x8014, &mut chip).unwrap();
    assert_eq!(chip.v.get(0), 3);
    assert_eq!(chip.v.get(0xF), 1);
}

#[test]
fn reverse_subtraction_uses_the_same_convention() {
    let handler = OpcodeHandler::new();
    let mut chip = Chip::new();
    chip.v.set(0, 9);
    chip.v.set(1, 4);
    handler.next(0x8015, &mut chip).unwrap();
    let (forward, forward_flag) = (chip.v.get(0), chip.v.get(0xF));

    chip.v.set(0, 4);
    chip.v.set(1, 9);
    handler.next(0x8017, &mut chip).unwrap();
    assert_eq!((chip.v.get(0), chip.v.get(0xF)), (forward, forward_flag));
    assert_eq!((forward, forward_flag), (5, 1));
}

#[test]
fn load_immediate_then_skip_advances_by_four() {
    let handler = OpcodeHandler::new();
    let mut chip = Chip::new();
    handler.next(0x6A07, &mut chip).unwrap();
    assert_eq!(chip.program_counter, 0x202);
    handler.next(0x3A07, &mut chip).unwrap();
    assert_eq!(chip.program_counter, 0x206);
    handler.next(0x9A00, &mut chip).unwrap();
    assert_eq!(chip.program_counter, 0x20A);
}
