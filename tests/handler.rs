use chip8::{Chip, OpcodeHandler};

#[test]
fn next_increases_program_counter() {
    let (handler, mut chip) = (OpcodeHandler::new(), Chip::new());

    chip.program_counter.set(0x2);
    handler.next(0x6512, &mut chip).unwrap();

    assert_eq!(chip.program_counter, 0x4);
}

#[test]
fn ret_does_not_increase_pc() {
    let (handler, mut chip) = (OpcodeHandler::new(), Chip::new());
    let sp = 5;
    let new_pc = 0x6;

    chip.stack_pointer = sp;
    chip.stack[sp as usize] = new_pc;
    chip.program_counter.set(0x2);
    handler.next(0x00EE, &mut chip).unwrap();

    assert_eq!(chip.program_counter, new_pc)
}

#[test]
fn jp_does_not_increase_pc() {
    let (handler, mut chip) = (OpcodeHandler::new(), Chip::new());

    chip.program_counter.set(2);

    handler.next(0x1034, &mut chip).unwrap();

    assert_eq!(chip.program_counter, 0x0034);
}

#[test]
fn call_does_not_increase_pc() {
    let (handler, mut chip) = (OpcodeHandler::new(), Chip::new());

    chip.program_counter.set(2);

    handler.next(0x2012, &mut chip).unwrap();

    assert_eq!(chip.program_counter, 0x0012)
}

#[test]
fn jmpv0_does_not_increase_pc() {
    let (handler, mut chip) = (OpcodeHandler::new(), Chip::new());

    chip.program_counter.set(2);

    handler.next(0xB123, &mut chip).unwrap();

    assert_eq!(chip.program_counter, 0x0123);
}
