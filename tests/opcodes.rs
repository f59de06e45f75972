use rusty_chip::opcodes::{Opcode, OpcodeBytes, UnrecognizedOpcode};

#[test]
fn build_opcode() {
    let opcode_bytes = OpcodeBytes::build(&[0xAB, 0xCD]);
    assert_eq!(opcode_bytes.first_byte(), 0xAB);
    assert_eq!(opcode_bytes.second_byte(), 0xCD);
    assert_eq!(opcode_bytes.first_nibble(), 0xA);
    assert_eq!(opcode_bytes.last_nibble(), 0xD);
}

#[test]
fn get_nibble() {
    let byte = 0xAE;
    assert_eq!(OpcodeBytes::get_upper_nibble(byte), 0xA);
    assert_eq!(OpcodeBytes::get_lower_nibble(byte), 0xE);
}

#[test]
fn get_addr_value() {
    let opcode_bytes = OpcodeBytes::build(&[0x8A, 0x78]);
    assert_eq!(opcode_bytes.get_addr(), 0xA78);
}

#[test]
fn to_string() {
    let opcode_bytes = OpcodeBytes::build(&[0x36, 0x91]);
    assert_eq!(opcode_bytes.to_string(), String::from("3691"));
}

#[test]
fn to_string_pads_and_uses_upper_case() {
    let opcode_bytes = OpcodeBytes::build(&[0x0A, 0xEF]);
    assert_eq!(opcode_bytes.to_string(), String::from("0AEF"));
}

#[test]
fn get_unrecognized_opcode() {
    let opcode_bytes = OpcodeBytes::build(&[0x51, 0xC7]);
    assert_eq!(opcode_bytes.get_opcode(), Err(UnrecognizedOpcode { first_byte: 0x51, second_byte: 0xC7 }));
}

#[test]
fn get_sys_addr_opcode() {
    let opcode_bytes = OpcodeBytes::build(&[0x0A, 0x78]);
    assert_eq!(opcode_bytes.get_opcode(), Ok(Opcode::SystemAddr(0xA78)));
}

#[test]
fn get_clear_screen_opcode() {
    let opcode_bytes = OpcodeBytes::build(&[0x00, 0xE0]);
    assert_eq!(opcode_bytes.get_opcode(), Ok(Opcode::ClearScreen));
}

#[test]
fn get_return_opcode() {
    let opcode_bytes = OpcodeBytes::build(&[0x00, 0xEE]);
    assert_eq!(opcode_bytes.get_opcode(), Ok(Opcode::Return));
}

#[test]
fn get_jump_addr_opcode() {
    let opcode_bytes = OpcodeBytes::build(&[0x1B, 0xEE]);
    assert_eq!(opcode_bytes.get_opcode(), Ok(Opcode::JumpAddr(0xBEE)));
}

#[test]
fn get_call_addr_opcode() {
    let opcode_bytes = OpcodeBytes::build(&[0x23, 0x10]);
    assert_eq!(opcode_bytes.get_opcode(), Ok(Opcode::CallAddr(0x310)));
}

#[test]
fn get_skip_register_equals_value_opcode() {
    let opcode_bytes = OpcodeBytes::build(&[0x36, 0x5A]);
    assert_eq!(opcode_bytes.get_opcode(), Ok(Opcode::SkipRegisterEqualsValue(0x6, 0x5A)));
}

#[test]
fn get_skip_register_not_equals_value_opcode() {
    let opcode_bytes = OpcodeBytes::build(&[0x47, 0x1F]);
    assert_eq!(opcode_bytes.get_opcode(), Ok(Opcode::SkipRegisterNotEqualsValue(0x7, 0x1F)));
}

#[test]
fn get_skip_registers_equal_opcode() {
    let opcode_bytes = OpcodeBytes::build(&[0x51, 0xC0]);
    assert_eq!(opcode_bytes.get_opcode(), Ok(Opcode::SkipRegistersEqual(0x1, 0xC)));
}

#[test]
fn get_load_value_opcode() {
    let opcode_bytes = OpcodeBytes::build(&[0x64, 0x88]);
    assert_eq!(opcode_bytes.get_opcode(), Ok(Opcode::LoadValue(0x4, 0x88)));
}

#[test]
fn get_add_value_opcode() {
    let opcode_bytes = OpcodeBytes::build(&[0x7B, 0xEF]);
    assert_eq!(opcode_bytes.get_opcode(), Ok(Opcode::AddValue(0xB, 0xEF)));
}

#[test]
fn get_load_register_value_value_opcode() {
    let opcode_bytes = OpcodeBytes::build(&[0x80, 0x60]);
    assert_eq!(opcode_bytes.get_opcode(), Ok(Opcode::LoadRegisterValue(0x0, 0x6)));
}

#[test]
fn get_or_opcode() {
    let opcode_bytes = OpcodeBytes::build(&[0x8D, 0x91]);
    assert_eq!(opcode_bytes.get_opcode(), Ok(Opcode::Or(0xD, 0x9)));
}

#[test]
fn get_and_opcode() {
    let opcode_bytes = OpcodeBytes::build(&[0x85, 0x42]);
    assert_eq!(opcode_bytes.get_opcode(), Ok(Opcode::And(0x5, 0x4)));
}

#[test]
fn get_xor_opcode() {
    let opcode_bytes = OpcodeBytes::build(&[0x87, 0x23]);
    assert_eq!(opcode_bytes.get_opcode(), Ok(Opcode::Xor(0x7, 0x2)));
}

#[test]
fn get_add_registers_opcode() {
    let opcode_bytes = OpcodeBytes::build(&[0x83, 0xA4]);
    assert_eq!(opcode_bytes.get_opcode(), Ok(Opcode::AddRegisters(0x3, 0xA)));
}

#[test]
fn get_subtract_from_first_register_opcode() {
    let opcode_bytes = OpcodeBytes::build(&[0x88, 0x95]);
    assert_eq!(opcode_bytes.get_opcode(), Ok(Opcode::SubtractFromFirstRegister(0x8, 0x9)));
}

#[test]
fn get_bit_shift_right_opcode() {
    let opcode_bytes = OpcodeBytes::build(&[0x85, 0x36]);
    assert_eq!(opcode_bytes.get_opcode(), Ok(Opcode::BitShiftRight(0x5, 0x3)));
}

#[test]
fn get_subtract_from_second_register_opcode() {
    let opcode_bytes = OpcodeBytes::build(&[0x81, 0x07]);
    assert_eq!(opcode_bytes.get_opcode(), Ok(Opcode::SubtractFromSecondRegister(0x1, 0x0)));
}

#[test]
fn get_bit_shift_left_opcode() {
    let opcode_bytes = OpcodeBytes::build(&[0x8E, 0xCE]);
    assert_eq!(opcode_bytes.get_opcode(), Ok(Opcode::BitShiftLeft(0xE, 0xC)));
}

#[test]
fn get_skip_registers_not_equal_opcode() {
    let opcode_bytes = OpcodeBytes::build(&[0x97, 0x50]);
    assert_eq!(opcode_bytes.get_opcode(), Ok(Opcode::SkipRegistersNotEqual(0x7, 0x5)));
}

#[test]
fn get_set_register_i_opcode() {
    let opcode_bytes = OpcodeBytes::build(&[0xAB, 0xF3]);
    assert_eq!(opcode_bytes.get_opcode(), Ok(Opcode::LoadRegisterI(0xBF3)));
}

#[test]
fn get_jump_addr_v0_opcode() {
    let opcode_bytes = OpcodeBytes::build(&[0xB2, 0x09]);
    assert_eq!(opcode_bytes.get_opcode(), Ok(Opcode::JumpAddrV0(0x209)));
}

#[test]
fn get_random_opcode() {
    let opcode_bytes = OpcodeBytes::build(&[0xCF, 0x58]);
    assert_eq!(opcode_bytes.get_opcode(), Ok(Opcode::Random(0xF, 0x58)));
}

#[test]
fn get_draw_opcode() {
    let opcode_bytes = OpcodeBytes::build(&[0xDA, 0xBC]);
    assert_eq!(opcode_bytes.get_opcode(), Ok(Opcode::Draw(0xA, 0xB, 0xC)));
}

#[test]
fn get_skip_key_pressed_opcode() {
    let opcode_bytes = OpcodeBytes::build(&[0xEB, 0x9E]);
    assert_eq!(opcode_bytes.get_opcode(), Ok(Opcode::SkipKeyPressed(0xB)));
}

#[test]
fn get_skip_key_not_pressed_opcode() {
    let opcode_bytes = OpcodeBytes::build(&[0xED, 0xA1]);
    assert_eq!(opcode_bytes.get_opcode(), Ok(Opcode::SkipKeyNotPressed(0xD)));
}

#[test]
fn get_load_delay_timer_opcode() {
    let opcode_bytes = OpcodeBytes::build(&[0xFC, 0x07]);
    assert_eq!(opcode_bytes.get_opcode(), Ok(Opcode::LoadDelayTimer(0xC)));
}

#[test]
fn get_load_key_press_opcode() {
    let opcode_bytes = OpcodeBytes::build(&[0xF3, 0x0A]);
    assert_eq!(opcode_bytes.get_opcode(), Ok(Opcode::LoadKeyPress(0x3)));
}

#[test]
fn get_set_delay_timer_opcode() {
    let opcode_bytes = OpcodeBytes::build(&[0xF8, 0x15]);
    assert_eq!(opcode_bytes.get_opcode(), Ok(Opcode::SetDelayTimer(0x8)));
}

#[test]
fn get_set_sound_timer_opcode() {
    let opcode_bytes = OpcodeBytes::build(&[0xF6, 0x18]);
    assert_eq!(opcode_bytes.get_opcode(), Ok(Opcode::SetSoundTimer(0x6)));
}

#[test]
fn get_add_register_i_opcode() {
    let opcode_bytes = OpcodeBytes::build(&[0xF2, 0x1E]);
    assert_eq!(opcode_bytes.get_opcode(), Ok(Opcode::AddRegisterI(0x2)));
}

#[test]
fn get_set_i_hex_sprite_location_opcode() {
    let opcode_bytes = OpcodeBytes::build(&[0xFB, 0x29]);
    assert_eq!(opcode_bytes.get_opcode(), Ok(Opcode::SetIHexSpriteLocation(0xB)));
}

#[test]
fn get_binary_coded_decimal_opcode() {
    let opcode_bytes = OpcodeBytes::build(&[0xF7, 0x33]);
    assert_eq!(opcode_bytes.get_opcode(), Ok(Opcode::BinaryCodedDecimal(0x7)));
}

#[test]
fn get_store_registers_opcode() {
    let opcode_bytes = OpcodeBytes::build(&[0xF3, 0x55]);
    assert_eq!(opcode_bytes.get_opcode(), Ok(Opcode::StoreRegisters(0x3)));
}

#[test]
fn get_load_registers_opcode() {
    let opcode_bytes = OpcodeBytes::build(&[0xFA, 0x65]);
    assert_eq!(opcode_bytes.get_opcode(), Ok(Opcode::LoadRegisters(0xA)));
}

#[test]
fn decode_named_words() {
    assert_eq!(OpcodeBytes::build(&[0x00, 0xE0]).get_opcode(), Ok(Opcode::ClearScreen));
    assert_eq!(OpcodeBytes::build(&[0x00, 0xEE]).get_opcode(), Ok(Opcode::Return));
    assert_eq!(OpcodeBytes::build(&[0x1A, 0xBC]).get_opcode(), Ok(Opcode::JumpAddr(0xABC)));
    assert_eq!(OpcodeBytes::build(&[0xF2, 0x65]).get_opcode(), Ok(Opcode::LoadRegisters(2)));
}

#[test]
fn decode_unmapped_words_fail() {
    let unmapped: [[u8; 2]; 12] = [
        [0x52, 0x31],
        [0x5F, 0xFF],
        [0x83, 0x4F],
        [0x83, 0x48],
        [0x83, 0x4D],
        [0x92, 0x31],
        [0x9A, 0xBF],
        [0xE1, 0x9F],
        [0xE1, 0x00],
        [0xF1, 0x00],
        [0xF1, 0x66],
        [0xFF, 0xFF],
    ];
    for word in unmapped.iter() {
        let result = OpcodeBytes::build(word).get_opcode();
        assert_eq!(result, Err(UnrecognizedOpcode { first_byte: word[0], second_byte: word[1] }));
    }
}

#[test]
fn decode_every_family_with_extreme_operands() {
    assert_eq!(OpcodeBytes::build(&[0x0F, 0xFF]).get_opcode(), Ok(Opcode::SystemAddr(0xFFF)));
    assert_eq!(OpcodeBytes::build(&[0x00, 0x00]).get_opcode(), Ok(Opcode::SystemAddr(0x000)));
    assert_eq!(OpcodeBytes::build(&[0xDF, 0xF0]).get_opcode(), Ok(Opcode::Draw(0xF, 0xF, 0x0)));
    assert_eq!(OpcodeBytes::build(&[0x5F, 0xF0]).get_opcode(), Ok(Opcode::SkipRegistersEqual(0xF, 0xF)));
}
