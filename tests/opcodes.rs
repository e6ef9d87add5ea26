use chip8::{Chip, OpcodeHandler};

#[test]
fn opcodes_tests_ret_test() {
    let mut chip = Chip::new();

    chip.stack_pointer = 10;
    chip.stack[chip.stack_pointer as usize] = 0x1234;

    OpcodeHandler::ret(0x00EE, &mut chip).unwrap();

    assert_eq!(chip.program_counter, 0x1234);
    assert_eq!(chip.stack_pointer, 9);
}

#[test]
fn opcodes_tests_jp_test() {
    let mut chip = Chip::new();
    chip.program_counter.set(0xABC);

    OpcodeHandler::jp(0x1DEA, &mut chip);

    assert_eq!(chip.program_counter, 0xDEA)
}

#[test]
fn opcodes_tests_call_test() {
    let mut chip = Chip::new();
    chip.program_counter.set(12);

    OpcodeHandler::call(0x2DEA, &mut chip).unwrap();

    assert_eq!(chip.program_counter, 0xDEA);
    assert_eq!(chip.stack_pointer, 1);
    assert_eq!(chip.stack[chip.stack_pointer as usize], 12);
}

#[test]
fn se_test_neq() {
    let mut chip = Chip::new();
    chip.program_counter.set(12);
    chip.v.set(5, 0x10);

    OpcodeHandler::se(0x3512, &mut chip);

    assert_eq!(chip.program_counter, 12);
}

#[test]
fn se_test_eq() {
    let mut chip = Chip::new();
    chip.program_counter.set(12);
    chip.v.set(4, 0x12);

    OpcodeHandler::se(0x3412, &mut chip);

    assert_eq!(chip.program_counter, 14);
}

#[test]
fn sne_test_eq() {
    let mut chip = Chip::new();
    chip.program_counter.set(12);
    chip.v.set(4, 0x12);

    OpcodeHandler::sne(0x4412, &mut chip);

    assert_eq!(chip.program_counter, 12);
}

#[test]
fn sne_test_neq() {
    let mut chip = Chip::new();
    chip.program_counter.set(12);
    chip.v.set(4, 0x13);

    OpcodeHandler::sne(0x4412, &mut chip);

    assert_eq!(chip.program_counter, 14);
}

#[test]
fn opcodes_tests_sre_test() {
    let mut chip = Chip::new();
    chip.program_counter.set(12);
    chip.v.set(5, 0x12);
    chip.v.set(6, 0x13);

    OpcodeHandler::sre(0x5460, &mut chip);

    assert_eq!(chip.program_counter, 12)
}

#[test]
fn sre_test_eq() {
    let mut chip = Chip::new();
    chip.program_counter.set(12);
    chip.v.set(4, 0x12);
    chip.v.set(5, 0x12);

    OpcodeHandler::sre(0x5450, &mut chip);

    assert_eq!(chip.program_counter, 14);
}

#[test]
fn opcodes_tests_ld_test() {
    let mut chip = Chip::new();
    chip.v.set(0xE, 0xAB);

    OpcodeHandler::ld(0x6EAB, &mut chip);

    assert_eq!(chip.v.get(0xE), 0xAB);
}

#[test]
fn opcodes_tests_add_test() {
    let mut chip = Chip::new();
    chip.v.set(0x5, 0x1);

    OpcodeHandler::add(0x75AB, &mut chip);

    assert_eq!(chip.v.get(0x5), 0xAC);
}

#[test]
fn opcodes_tests_add_overflow_test() {
    let mut chip = Chip::new();
    chip.v.set(0x5, 0xFF);

    OpcodeHandler::add(0x7502, &mut chip);

    assert_eq!(chip.v.get(0x5), 0x1);
}

#[test]
fn opcodes_tests_ldr_test() {
    let mut chip = Chip::new();
    chip.v.set(1, 111);
    chip.v.set(2, 222);

    OpcodeHandler::ldr(0x8120, &mut chip);

    assert_eq!(chip.v.get(1), 222);
}

#[test]
fn opcodes_tests_or_test() {
    let mut chip = Chip::new();
    chip.v.set(1, 0x12);
    chip.v.set(2, 0x34);

    OpcodeHandler::or(0x8121, &mut chip);
    assert_eq!(chip.v.get(1), 0x36);
    assert_eq!(chip.v.get(2), 0x34);
}

#[test]
fn opcodes_tests_and_test() {
    let mut chip = Chip::new();
    chip.v.set(1, 0x12);
    chip.v.set(2, 0x34);

    OpcodeHandler::and(0x8122, &mut chip);

    assert_eq!(chip.v.get(1), 0x10);
    assert_eq!(chip.v.get(2), 0x34);
}

#[test]
fn opcodes_tests_xor_test() {
    let mut chip = Chip::new();
    chip.v.set(1, 0x12);
    chip.v.set(2, 0x34);

    OpcodeHandler::xor(0x8123, &mut chip);

    assert_eq!(chip.v.get(1), 0x26);
    assert_eq!(chip.v.get(2), 0x34);
}

#[test]
fn opcodes_tests_addreg_test() {
    let mut chip = Chip::new();
    chip.v.set(0, 0x20);
    chip.v.set(1, 0x01);
    chip.v.set(0xF, 1);

    OpcodeHandler::addreg(0x8014, &mut chip);

    assert_eq!(chip.v.get(0), 0x21);
    assert_eq!(chip.v.get(1), 0x01);
    assert_eq!(chip.v.get(0xF), 0);
}

#[test]
fn opcodes_tests_addreg_carry_test() {
    let mut chip = Chip::new();
    chip.v.set(0, 0xFF);
    chip.v.set(1, 0x02);
    chip.v.set(0xF, 0);

    OpcodeHandler::addreg(0x8014, &mut chip);

    assert_eq!(chip.v.get(0), 0x01);
    assert_eq!(chip.v.get(1), 0x02);
    assert_eq!(chip.v.get(0xF), 1);
}

// VF is 1 when the subtraction does not borrow, 0 when it does.
#[test]
fn opcodes_tests_subreg_test() {
    let mut chip = Chip::new();
    chip.v.set(0, 0x20);
    chip.v.set(1, 0x01);
    chip.v.set(0xF, 1);

    OpcodeHandler::subreg(0x8015, &mut chip);

    assert_eq!(chip.v.get(0), 0x1F);
    assert_eq!(chip.v.get(1), 0x01);
    assert_eq!(chip.v.get(0xF), 1);
}

#[test]
fn opcodes_tests_subreg_carry_test() {
    let mut chip = Chip::new();
    chip.v.set(0, 0x00);
    chip.v.set(1, 0x01);
    chip.v.set(0xF, 0);

    OpcodeHandler::subreg(0x8015, &mut chip);

    assert_eq!(chip.v.get(0), 0xFF);
    assert_eq!(chip.v.get(1), 0x01);
    assert_eq!(chip.v.get(0xF), 0);
}

#[test]
fn opcodes_tests_shiftr_test() {
    let mut chip = Chip::new();
    chip.v.set(0, 0x10);
    chip.v.set(0xF, 1);

    OpcodeHandler::shiftr(0x8016, &mut chip);

    assert_eq!(chip.v.get(0), 0x8);
    assert_eq!(chip.v.get(0xF), 0);
}

#[test]
fn opcodes_tests_sub_test() {
    let mut chip = Chip::new();
    chip.v.set(0, 0);
    chip.v.set(1, 1);
    chip.v.set(0xF, 1);

    OpcodeHandler::sub(0x8107, &mut chip);

    assert_eq!(chip.v.get(1), 255);
    assert_eq!(chip.v.get(0xF), 0);
}

#[test]
fn opcodes_tests_sub_test_overflow() {
    let mut chip = Chip::new();
    chip.v.set(0, 0);
    chip.v.set(1, 1);
    chip.v.set(0xF, 1);

    OpcodeHandler::sub(0x8017, &mut chip);

    assert_eq!(chip.v.get(0), 1);
    assert_eq!(chip.v.get(0xF), 1);
}

#[test]
fn opcodes_tests_shiftl_test_significant_one() {
    let mut chip = Chip::new();
    chip.v.set(0, 0b100_0100_1);
    chip.v.set(0xf, 0);

    OpcodeHandler::shiftl(0x801E, &mut chip);

    assert_eq!(chip.v.get(0), 0b0001_001_0);
    assert_eq!(chip.v.get(0xf), 1);
}

#[test]
fn srne_test_eq() {
    let mut chip = Chip::new();
    chip.program_counter.set(12);
    chip.v.set(1, 0x12);
    chip.v.set(2, 0x12);

    OpcodeHandler::srne(0x9120, &mut chip);

    assert_eq!(chip.program_counter, 12);
}

#[test]
fn srne_test_neq() {
    let mut chip = Chip::new();
    chip.program_counter.set(12);
    chip.v.set(1, 0x12);
    chip.v.set(2, 0x13);

    OpcodeHandler::srne(0x9120, &mut chip);

    assert_eq!(chip.program_counter, 14);
}

#[test]
fn jmpv0_test() {
    let mut chip = Chip::new();
    chip.v.set(0, 0x0002);
    chip.program_counter.set(0x1);

    OpcodeHandler::jmpv0(0xA123, &mut chip);

    assert_eq!(chip.program_counter, 0x0125)
}

#[test]
fn opcode_ret_test() {
    let mut chip = Chip::new();
    chip.stack_pointer = 10;
    chip.stack[chip.stack_pointer as usize] = 0x1234;

    OpcodeHandler::ret(0x00EE, &mut chip).unwrap();

    assert_eq!(chip.program_counter, 0x1234);
    assert_eq!(chip.stack_pointer, 9);
}

#[test]
fn opcode_jp_test() {
    let mut chip = Chip::new();
    chip.program_counter.set(0xABC);

    OpcodeHandler::jp(0x1DEA, &mut chip);

    assert_eq!(chip.program_counter, 0xDEA)
}

#[test]
fn opcode_call_test() {
    let mut chip = Chip::new();
    chip.program_counter.set(12);

    OpcodeHandler::call(0x2DEA, &mut chip).unwrap();

    assert_eq!(chip.program_counter, 0xDEA);
    assert_eq!(chip.stack_pointer, 1);
    assert_eq!(chip.stack[chip.stack_pointer as usize], 12);
}
