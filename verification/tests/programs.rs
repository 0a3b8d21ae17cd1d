//! Whole programs run through the cycle entry point, and the fatal
//! conditions a cycle reports.

use chip8::keys::KeySet;
use chip8::quirks::{Platform, Quirks};
use chip8::vm::{Chip8, VmError};

fn run(rom: &[u8], cycles: usize) -> Chip8 {
    let mut vm = Chip8::build(rom, Quirks::new(Platform::Chip8)).unwrap();
    let keys = KeySet::new();
    for _ in 0..cycles {
        vm.cycle(&keys).unwrap();
    }
    vm
}

#[test]
fn set_then_add_immediate() {
    // V0 = 0x0A; V0 += 0x05
    let vm = run(&[0x60, 0x0A, 0x70, 0x05], 2);
    assert_eq!(vm.register(0), 0x0F);
}

#[test]
fn clear_screen_program() {
    let mut vm = Chip8::build(&[0x00, 0xE0], Quirks::new(Platform::Chip8)).unwrap();
    let keys = KeySet::new();
    vm.cycle(&keys).unwrap();
    for x in 0..64 {
        for y in 0..32 {
            assert!(!vm.pixel(x, y));
        }
    }
    assert!(vm.take_update_display());
}

#[test]
fn jump_program() {
    let vm = run(&[0x12, 0x04], 1);
    assert_eq!(vm.pc(), 0x204);
}

#[test]
fn call_then_return_resumes_after_call() {
    // 0x200: CALL 0x300 ... 0x300: RET
    let mut rom = vec![0u8; 0x102];
    rom[0] = 0x23;
    rom[1] = 0x00;
    rom[0x100] = 0x00;
    rom[0x101] = 0xEE;
    let mut vm = Chip8::build(&rom, Quirks::new(Platform::Chip8)).unwrap();
    let keys = KeySet::new();
    vm.cycle(&keys).unwrap();
    assert_eq!(vm.pc(), 0x300);
    assert_eq!(vm.sp(), 1);
    vm.cycle(&keys).unwrap();
    assert_eq!(vm.pc(), 0x202);
    assert_eq!(vm.sp(), 0);
}

#[test]
fn add_registers_program_sets_flag() {
    // V0 = 0xFF; V1 = 0x01; V0 += V1
    let vm = run(&[0x60, 0xFF, 0x61, 0x01, 0x80, 0x14], 3);
    assert_eq!(vm.register(0), 0x00);
    assert_eq!(vm.register(0xF), 1);
}

#[test]
fn draw_twice_reverts_and_collides() {
    // I = 0x206; draw 8x1 at (V0, V1); jump back; draw again
    let rom = [0xA2, 0x06, 0xD0, 0x11, 0x12, 0x02, 0xFF];
    let mut vm = Chip8::build(&rom, Quirks::new(Platform::Chip8)).unwrap();
    let keys = KeySet::new();
    vm.cycle(&keys).unwrap();
    vm.cycle(&keys).unwrap();
    for x in 0..8 {
        assert!(vm.pixel(x, 0));
    }
    assert_eq!(vm.register(0xF), 0);
    vm.cycle(&keys).unwrap();
    vm.cycle(&keys).unwrap();
    for x in 0..8 {
        assert!(!vm.pixel(x, 0));
    }
    assert_eq!(vm.register(0xF), 1);
}

#[test]
fn key_wait_spins_until_a_key_arrives() {
    let rom = [0xF5, 0x0A];
    let mut vm = Chip8::build(&rom, Quirks::new(Platform::Chip8)).unwrap();
    let empty = KeySet::new();
    for _ in 0..3 {
        vm.cycle(&empty).unwrap();
        // the rewind makes the whole cycle a no-op
        assert_eq!(vm.pc(), 0x200);
    }
    let mut keys = KeySet::new();
    keys.insert(0x9);
    vm.cycle(&keys).unwrap();
    assert_eq!(vm.register(5), 0x9);
    assert_eq!(vm.pc(), 0x202);
}

#[test]
fn skip_if_key_program() {
    // V0 = 3; skip next if key 3 pressed; (skipped) V1 = 0xAA; V2 = 0xBB
    let rom = [0x60, 0x03, 0xE0, 0x9E, 0x61, 0xAA, 0x62, 0xBB];
    let mut vm = Chip8::build(&rom, Quirks::new(Platform::Chip8)).unwrap();
    let mut keys = KeySet::new();
    keys.insert(3);
    vm.cycle(&keys).unwrap();
    vm.cycle(&keys).unwrap();
    assert_eq!(vm.pc(), 0x206);
    vm.cycle(&keys).unwrap();
    assert_eq!(vm.register(1), 0);
    assert_eq!(vm.register(2), 0xBB);
}

#[test]
fn random_program_respects_mask() {
    let vm = run(&[0xC0, 0x07], 1);
    assert!(vm.register(0) <= 7);
}

#[test]
fn return_with_empty_stack_is_fatal() {
    let rom = [0x00, 0xEE];
    let mut vm = Chip8::build(&rom, Quirks::new(Platform::Chip8)).unwrap();
    let keys = KeySet::new();
    assert_eq!(vm.cycle(&keys), Err(VmError::EmptyStackReturn));
    // the machine is left as it was
    assert_eq!(vm.pc(), 0x200);
    assert_eq!(vm.sp(), 0);
}

#[test]
fn call_with_full_stack_is_fatal() {
    // CALL 0x200, forever
    let rom = [0x22, 0x00];
    let mut vm = Chip8::build(&rom, Quirks::new(Platform::Chip8)).unwrap();
    let keys = KeySet::new();
    for depth in 1..=15u8 {
        vm.cycle(&keys).unwrap();
        assert_eq!(vm.sp(), depth);
    }
    assert_eq!(vm.cycle(&keys), Err(VmError::StackOverflow));
    assert_eq!(vm.sp(), 15);
    assert_eq!(vm.pc(), 0x200);
}

#[test]
fn unrecognized_instructions_are_fatal() {
    let keys = KeySet::new();
    for rom in [[0xFF, 0xFF], [0x00, 0x00], [0x80, 0x08], [0xE0, 0x00], [0xF0, 0x99]] {
        let mut vm = Chip8::build(&rom, Quirks::new(Platform::Chip8)).unwrap();
        let instruction = ((rom[0] as u16) << 8) | rom[1] as u16;
        assert_eq!(vm.cycle(&keys), Err(VmError::UnrecognizedInstruction { instruction }));
        assert_eq!(vm.pc(), 0x200);
    }
}

#[test]
fn sub_opcode_five_low_nibble_is_accepted() {
    // the skip-if-equal register form dispatches on the opcode nibble alone
    let vm = run(&[0x50, 0x17], 1);
    assert_eq!(vm.pc(), 0x204);
}

#[test]
fn fetch_past_memory_is_fatal() {
    // jump to the last byte of memory, then fetch there
    let rom = [0x1F, 0xFF];
    let mut vm = Chip8::build(&rom, Quirks::new(Platform::Chip8)).unwrap();
    let keys = KeySet::new();
    vm.cycle(&keys).unwrap();
    assert_eq!(vm.pc(), 0xFFF);
    assert_eq!(vm.cycle(&keys), Err(VmError::MemoryOutOfBounds));
    assert_eq!(vm.pc(), 0xFFF);
}

#[test]
fn bcd_past_memory_is_fatal() {
    // I = 0xFFF; BCD store needs three bytes
    let rom = [0xAF, 0xFF, 0xF0, 0x33];
    let mut vm = Chip8::build(&rom, Quirks::new(Platform::Chip8)).unwrap();
    let keys = KeySet::new();
    vm.cycle(&keys).unwrap();
    assert_eq!(vm.cycle(&keys), Err(VmError::MemoryOutOfBounds));
    assert_eq!(vm.pc(), 0x202);
}

#[test]
fn draw_past_memory_is_fatal() {
    // I = 0xFFF; a two-row sprite reads past the last byte
    let rom = [0xAF, 0xFF, 0xD0, 0x02];
    let mut vm = Chip8::build(&rom, Quirks::new(Platform::Chip8)).unwrap();
    let keys = KeySet::new();
    vm.cycle(&keys).unwrap();
    assert_eq!(vm.cycle(&keys), Err(VmError::MemoryOutOfBounds));

    // a one-row sprite from the very last byte still fits
    let rom = [0xAF, 0xFF, 0xD0, 0x01];
    let mut vm = Chip8::build(&rom, Quirks::new(Platform::Chip8)).unwrap();
    vm.cycle(&keys).unwrap();
    assert!(vm.cycle(&keys).is_ok());
}

#[test]
fn block_store_past_memory_is_fatal() {
    // I = 0xFFF; storing registers 0 and 1 would pass the end
    let rom = [0xAF, 0xFF, 0xF1, 0x55];
    let mut vm = Chip8::build(&rom, Quirks::new(Platform::Chip8)).unwrap();
    let keys = KeySet::new();
    vm.cycle(&keys).unwrap();
    assert_eq!(vm.cycle(&keys), Err(VmError::MemoryOutOfBounds));

    // storing register 0 alone hits exactly the last byte
    let rom = [0xAF, 0xFF, 0xF0, 0x55];
    let mut vm = Chip8::build(&rom, Quirks::new(Platform::SuperChip)).unwrap();
    vm.cycle(&keys).unwrap();
    assert!(vm.cycle(&keys).is_ok());
    assert_eq!(vm.ram_byte(0xFFF), 0);
}
