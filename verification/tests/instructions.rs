//! Instruction semantics, handler by handler: arithmetic flags, shifts
//! under both quirk profiles, block transfers, BCD, drawing and collision.

use chip8::keys::KeySet;
use chip8::quirks::{Platform, Quirks};
use chip8::vm::Chip8;

fn base_vm() -> Chip8 {
    Chip8::build(&[], Quirks::new(Platform::Chip8)).unwrap()
}

fn super_vm() -> Chip8 {
    Chip8::build(&[], Quirks::new(Platform::SuperChip)).unwrap()
}

#[test]
fn add_with_flag_wraps_and_carries() {
    let mut vm = base_vm();
    vm.set_register_to_value(0, 0xFF);
    vm.set_register_to_value(1, 0x01);
    vm.add_register_to_register(0, 1);
    assert_eq!(vm.register(0), 0x00);
    assert_eq!(vm.register(0xF), 1);

    vm.set_register_to_value(2, 10);
    vm.set_register_to_value(3, 20);
    vm.add_register_to_register(2, 3);
    assert_eq!(vm.register(2), 30);
    assert_eq!(vm.register(0xF), 0);
}

#[test]
fn add_value_wraps_without_flag() {
    let mut vm = base_vm();
    vm.set_register_to_value(0xF, 7);
    vm.set_register_to_value(0, 0xFE);
    vm.add_value_to_register(0, 5);
    assert_eq!(vm.register(0), 3);
    assert_eq!(vm.register(0xF), 7);
}

#[test]
fn subtract_sets_flag_on_no_borrow() {
    let mut vm = base_vm();
    vm.set_register_to_value(0, 5);
    vm.set_register_to_value(1, 3);
    vm.subtract_register_from_register(0, 1);
    assert_eq!(vm.register(0), 2);
    assert_eq!(vm.register(0xF), 1);

    vm.set_register_to_value(2, 3);
    vm.set_register_to_value(3, 5);
    vm.subtract_register_from_register(2, 3);
    assert_eq!(vm.register(2), 254);
    assert_eq!(vm.register(0xF), 0);

    // equal operands: no borrow
    vm.set_register_to_value(4, 7);
    vm.set_register_to_value(5, 7);
    vm.subtract_register_from_register(4, 5);
    assert_eq!(vm.register(4), 0);
    assert_eq!(vm.register(0xF), 1);
}

#[test]
fn subtract_flipped_sets_flag_on_no_borrow() {
    let mut vm = base_vm();
    vm.set_register_to_value(0, 3);
    vm.set_register_to_value(1, 10);
    vm.subtract_register_from_register_flipped(0, 1);
    assert_eq!(vm.register(0), 7);
    assert_eq!(vm.register(0xF), 1);

    vm.set_register_to_value(2, 10);
    vm.set_register_to_value(3, 3);
    vm.subtract_register_from_register_flipped(2, 3);
    assert_eq!(vm.register(2), 249);
    assert_eq!(vm.register(0xF), 0);
}

#[test]
fn shift_right_reads_source_register_without_quirk() {
    let mut vm = base_vm();
    vm.set_register_to_value(0, 0xAA);
    vm.set_register_to_value(1, 0x0B);
    vm.set_register_to_right_shifted_register(0, 1);
    assert_eq!(vm.register(0), 0x05);
    assert_eq!(vm.register(0xF), 1);
}

#[test]
fn shift_right_in_place_under_quirk() {
    let mut vm = super_vm();
    vm.set_register_to_value(0, 0x04);
    vm.set_register_to_value(1, 0xFF);
    vm.set_register_to_right_shifted_register(0, 1);
    assert_eq!(vm.register(0), 0x02);
    assert_eq!(vm.register(0xF), 0);
}

#[test]
fn shift_left_captures_high_bit() {
    let mut vm = base_vm();
    vm.set_register_to_value(1, 0x81);
    vm.set_register_to_left_shifted_register(0, 1);
    assert_eq!(vm.register(0), 0x02);
    assert_eq!(vm.register(0xF), 1);

    let mut vm = super_vm();
    vm.set_register_to_value(0, 0x41);
    vm.set_register_to_left_shifted_register(0, 1);
    assert_eq!(vm.register(0), 0x82);
    assert_eq!(vm.register(0xF), 0);
}

#[test]
fn logic_ops_reset_flag_only_under_quirk() {
    let mut vm = base_vm();
    vm.set_register_to_value(0, 0x0F);
    vm.set_register_to_value(1, 0xF0);
    vm.set_register_to_value(0xF, 5);
    vm.or_register_with_register(0, 1);
    assert_eq!(vm.register(0), 0xFF);
    assert_eq!(vm.register(0xF), 0);

    let mut vm = super_vm();
    vm.set_register_to_value(0, 0x0F);
    vm.set_register_to_value(1, 0x3C);
    vm.set_register_to_value(0xF, 5);
    vm.and_register_with_register(0, 1);
    assert_eq!(vm.register(0), 0x0C);
    assert_eq!(vm.register(0xF), 5);

    vm.set_register_to_value(2, 0xFF);
    vm.set_register_to_value(3, 0x0F);
    vm.xor_register_with_register(2, 3);
    assert_eq!(vm.register(2), 0xF0);
    assert_eq!(vm.register(0xF), 5);
}

#[test]
fn skips_advance_by_one_instruction() {
    let mut vm = base_vm();
    vm.set_register_to_value(0, 7);
    let pc = vm.pc();
    vm.skip_if_equal_to_value(0, 7);
    assert_eq!(vm.pc(), pc + 2);
    vm.skip_if_equal_to_value(0, 8);
    assert_eq!(vm.pc(), pc + 2);
    vm.skip_if_not_equal_to_value(0, 8);
    assert_eq!(vm.pc(), pc + 4);
    vm.set_register_to_value(1, 7);
    vm.skip_if_equal_to_register(0, 1);
    assert_eq!(vm.pc(), pc + 6);
    vm.skip_if_not_equal_to_register(0, 1);
    assert_eq!(vm.pc(), pc + 6);
}

#[test]
fn jump_with_offset_honors_quirk() {
    let mut vm = base_vm();
    vm.set_register_to_value(0, 0x10);
    vm.set_register_to_value(2, 0x01);
    vm.jump_to_address_with_offset(2, 0x300);
    // quirk off: register zero is the offset
    assert_eq!(vm.pc(), 0x310);

    let mut vm = super_vm();
    vm.set_register_to_value(0, 0x10);
    vm.set_register_to_value(2, 0x01);
    vm.jump_to_address_with_offset(2, 0x300);
    // quirk on: the X register is the offset
    assert_eq!(vm.pc(), 0x301);
}

#[test]
fn block_store_advances_index_only_under_quirk() {
    let mut vm = base_vm();
    vm.set_register_to_value(0, 0xAA);
    vm.set_register_to_value(1, 0xBB);
    vm.set_register_to_value(2, 0xCC);
    vm.set_index_register_to_value(0x300);
    vm.store_registers_in_memory(2);
    assert_eq!(vm.ram_byte(0x300), 0xAA);
    assert_eq!(vm.ram_byte(0x301), 0xBB);
    assert_eq!(vm.ram_byte(0x302), 0xCC);
    assert_eq!(vm.ram_byte(0x303), 0);
    // quirk on: index ends one past the last written address
    assert_eq!(vm.index(), 0x303);

    let mut vm = super_vm();
    vm.set_register_to_value(0, 0x11);
    vm.set_index_register_to_value(0x300);
    vm.store_registers_in_memory(0);
    assert_eq!(vm.ram_byte(0x300), 0x11);
    // quirk off: index unchanged
    assert_eq!(vm.index(), 0x300);
}

#[test]
fn block_load_fills_registers() {
    let rom = [0xDEu8, 0xAD, 0xBE, 0xEF];
    let mut vm = Chip8::build(&rom, Quirks::new(Platform::Chip8)).unwrap();
    vm.set_register_to_value(4, 0x77);
    vm.set_index_register_to_value(0x200);
    vm.load_registers_from_memory(3);
    assert_eq!(vm.register(0), 0xDE);
    assert_eq!(vm.register(1), 0xAD);
    assert_eq!(vm.register(2), 0xBE);
    assert_eq!(vm.register(3), 0xEF);
    assert_eq!(vm.register(4), 0x77);
    assert_eq!(vm.index(), 0x204);

    let mut vm = Chip8::build(&rom, Quirks::new(Platform::SuperChip)).unwrap();
    vm.set_index_register_to_value(0x200);
    vm.load_registers_from_memory(1);
    assert_eq!(vm.register(0), 0xDE);
    assert_eq!(vm.register(1), 0xAD);
    assert_eq!(vm.index(), 0x200);
}

#[test]
fn bcd_store_writes_three_digits() {
    let mut vm = base_vm();
    vm.set_register_to_value(3, 255);
    vm.set_index_register_to_value(0x400);
    vm.set_index_register_to_bcd(3);
    assert_eq!(vm.ram_byte(0x400), 2);
    assert_eq!(vm.ram_byte(0x401), 5);
    assert_eq!(vm.ram_byte(0x402), 5);

    vm.set_register_to_value(4, 7);
    vm.set_index_register_to_value(0x500);
    vm.set_index_register_to_bcd(4);
    assert_eq!(vm.ram_byte(0x500), 0);
    assert_eq!(vm.ram_byte(0x501), 0);
    assert_eq!(vm.ram_byte(0x502), 7);
}

#[test]
fn font_sprite_address() {
    let mut vm = base_vm();
    vm.set_register_to_value(0, 0x0A);
    vm.set_index_register_to_font_sprite(0);
    assert_eq!(vm.index(), 0x50 + 10 * 5);
    // glyph A's first row
    assert_eq!(vm.ram_byte(vm.index() as usize), 0xF0);
}

#[test]
fn add_to_index_wraps_at_sixteen_bits() {
    let mut vm = base_vm();
    vm.set_index_register_to_value(0x0FFE);
    vm.set_register_to_value(0, 4);
    vm.add_register_to_index_register(0);
    assert_eq!(vm.index(), 0x1002);

    vm.set_index_register_to_value(0xFFFE);
    vm.add_register_to_index_register(0);
    assert_eq!(vm.index(), 0x0002);
}

#[test]
fn random_and_is_masked() {
    let mut vm = base_vm();
    vm.set_register_to_random_byte(0, 0x0F, 0xAB);
    assert_eq!(vm.register(0), 0x0B);
    for _ in 0..20 {
        vm.set_register_to_random(1, 0x0F);
        assert!(vm.register(1) <= 0x0F);
        vm.set_register_to_random(2, 0x00);
        assert_eq!(vm.register(2), 0);
    }
}

#[test]
fn key_skips_test_membership() {
    let mut keys = KeySet::new();
    keys.insert(0xB);
    let mut vm = base_vm();
    vm.set_register_to_value(0, 0xB);
    vm.set_register_to_value(1, 0x2);
    let pc = vm.pc();
    vm.skip_if_key_pressed(0, &keys);
    assert_eq!(vm.pc(), pc + 2);
    vm.skip_if_key_pressed(1, &keys);
    assert_eq!(vm.pc(), pc + 2);
    vm.skip_if_key_not_pressed(1, &keys);
    assert_eq!(vm.pc(), pc + 4);
    vm.skip_if_key_not_pressed(0, &keys);
    assert_eq!(vm.pc(), pc + 4);
}

#[test]
fn key_wait_rewinds_or_stores() {
    let mut vm = base_vm();
    let empty = KeySet::new();
    let pc = vm.pc();
    vm.set_register_to_key_with_wait(0, &empty);
    assert_eq!(vm.pc(), pc - 2);

    let mut keys = KeySet::new();
    keys.insert(0xC);
    let mut vm = base_vm();
    vm.set_register_to_key_with_wait(0, &keys);
    assert_eq!(vm.register(0), 0xC);
    assert_eq!(vm.pc(), 0x200);
}

#[test]
fn draw_toggles_and_reports_collision() {
    // one 8x1 sprite, byte 0xFF, drawn twice at (0, 0)
    let rom = [0xFFu8];
    let mut vm = Chip8::build(&rom, Quirks::new(Platform::Chip8)).unwrap();
    vm.set_index_register_to_value(0x200);
    vm.display(0, 1, 1);
    for x in 0..8 {
        assert!(vm.pixel(x, 0));
    }
    assert!(!vm.pixel(8, 0));
    assert!(!vm.pixel(0, 1));
    assert_eq!(vm.register(0xF), 0);
    assert!(vm.take_update_display());

    vm.display(0, 1, 1);
    for x in 0..8 {
        assert!(!vm.pixel(x, 0));
    }
    assert_eq!(vm.register(0xF), 1);
    assert!(vm.take_update_display());
}

#[test]
fn draw_partial_overlap_collides_and_toggles() {
    let rom = [0xFFu8];
    let mut vm = Chip8::build(&rom, Quirks::new(Platform::Chip8)).unwrap();
    vm.set_index_register_to_value(0x200);
    vm.display(1, 2, 1);
    vm.set_register_to_value(0, 4);
    vm.display(0, 2, 1);
    assert_eq!(vm.register(0xF), 1);
    for x in 0..4 {
        assert!(vm.pixel(x, 0));
    }
    for x in 4..8 {
        assert!(!vm.pixel(x, 0));
    }
    for x in 8..12 {
        assert!(vm.pixel(x, 0));
    }
    assert!(!vm.pixel(12, 0));
}

#[test]
fn draw_clips_at_the_edges() {
    let rom = [0xFFu8, 0xFF];
    let mut vm = Chip8::build(&rom, Quirks::new(Platform::Chip8)).unwrap();
    vm.set_index_register_to_value(0x200);
    // columns past the right edge are dropped
    vm.set_register_to_value(0, 60);
    vm.set_register_to_value(1, 31);
    vm.display(0, 1, 2);
    for x in 60..64 {
        assert!(vm.pixel(x, 31));
    }
    // nothing wraps to the left or to the top
    for x in 0..4 {
        assert!(!vm.pixel(x, 31));
        assert!(!vm.pixel(x, 0));
    }
    assert_eq!(vm.register(0xF), 0);
}

#[test]
fn draw_coordinates_wrap_modulo_display() {
    let rom = [0x80u8];
    let mut vm = Chip8::build(&rom, Quirks::new(Platform::Chip8)).unwrap();
    vm.set_index_register_to_value(0x200);
    vm.set_register_to_value(0, 64);
    vm.set_register_to_value(1, 32);
    vm.display(0, 1, 1);
    assert!(vm.pixel(0, 0));
    assert_eq!(vm.register(0xF), 0);
}

#[test]
fn clear_screen_clears_and_marks_dirty() {
    let rom = [0xFFu8];
    let mut vm = Chip8::build(&rom, Quirks::new(Platform::Chip8)).unwrap();
    vm.set_index_register_to_value(0x200);
    vm.display(0, 1, 1);
    assert!(vm.take_update_display());
    vm.clear_screen();
    for x in 0..64 {
        for y in 0..32 {
            assert!(!vm.pixel(x, y));
        }
    }
    assert!(vm.take_update_display());
    assert!(!vm.take_update_display());
}

#[test]
fn flag_register_as_target_keeps_the_flag() {
    // when the flag register is itself the target, the flag wins
    let mut vm = base_vm();
    vm.set_register_to_value(0xF, 5);
    vm.set_register_to_value(1, 200);
    vm.add_register_to_register(0xF, 1);
    assert_eq!(vm.register(0xF), 0);

    vm.set_register_to_value(0xF, 200);
    vm.set_register_to_value(1, 100);
    vm.add_register_to_register(0xF, 1);
    assert_eq!(vm.register(0xF), 1);

    vm.set_register_to_value(0xF, 3);
    vm.set_register_to_value(1, 0xFF);
    vm.set_register_to_right_shifted_register(0xF, 1);
    assert_eq!(vm.register(0xF), 1);
}

#[test]
fn or_register_with_itself() {
    let mut vm = super_vm();
    vm.set_register_to_value(3, 0x5A);
    vm.or_register_with_register(3, 3);
    assert_eq!(vm.register(3), 0x5A);
    vm.xor_register_with_register(3, 3);
    assert_eq!(vm.register(3), 0);
}
