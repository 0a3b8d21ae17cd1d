//! The machine state: memory, registers, call stack, timers and
//! framebuffer, together with its construction from a program image,
//! instruction fetch, and the timer cadence step.

use vstd::prelude::*;

use crate::decode::ParsedInstruction;
use crate::keys::{key_down, KeySet};
use crate::quirks::Quirks;
use crate::step::{step_fault, step_state};
use crate::semantics::{
    draw_collision, draw_fb, lemma_cell_index, lemma_covers_row_split, lemma_flat_coords, row_hit,
    row_hit_partial, spec_add_index, spec_add_registers, spec_add_value, spec_and, spec_call,
    spec_clear_screen, spec_display, spec_font_index, spec_jump, spec_jump_offset, spec_key_wait,
    spec_or, spec_random, spec_return, spec_set_delay, spec_set_index, spec_set_register,
    spec_set_sound, spec_shift_left, spec_shift_right, spec_skip, spec_store_bcd, spec_store_block,
    spec_load_block, spec_subtract, spec_subtract_flipped, spec_xor, sprite_bit, sprite_covers,
};

verus! {

/// Size of the byte-addressed memory.
pub const RAM_LEN: usize = 4096;

/// Number of general-purpose registers.
pub const REGISTER_COUNT: usize = 16;

/// Index of the flag/carry register, overwritten by several instructions.
pub const FLAG_REGISTER: usize = 15;

/// Depth of the call stack.
pub const STACK_LEN: usize = 16;

/// Framebuffer width in pixels.
pub const DISPLAY_WIDTH: usize = 64;

/// Framebuffer height in pixels.
pub const DISPLAY_HEIGHT: usize = 32;

/// Number of framebuffer cells, row-major.
pub const DISPLAY_LEN: usize = DISPLAY_WIDTH * DISPLAY_HEIGHT;

/// First address of the built-in font region.
pub const FONT_START: usize = 0x50;

/// Size of the built-in font region: 16 glyphs of 5 bytes each.
pub const FONT_LEN: usize = 80;

/// Address at which the program image is loaded and execution starts.
pub const PROGRAM_START: usize = 0x200;

/// A fatal machine condition; the driving loop aborts on any of these.
#[derive(Clone, Copy, Debug, PartialEq, Eq, Structural)]
pub enum VmError {
    /// The program image does not fit in memory above the load offset.
    RomTooLarge,
    /// An instruction addressed memory outside its bounds.
    MemoryOutOfBounds,
    /// Return from a subroutine with an empty call stack.
    EmptyStackReturn,
    /// Call of a subroutine with the call stack full.
    StackOverflow,
    /// No handler matches the instruction.
    UnrecognizedInstruction { instruction: u16 },
}

/// The built-in glyph table: one 5-byte sprite per hexadecimal digit.
pub open spec fn font_data() -> Seq<u8> {
    seq![
        0xF0u8, 0x90, 0x90, 0x90, 0xF0, // 0
        0x20, 0x60, 0x20, 0x20, 0x70, // 1
        0xF0, 0x10, 0xF0, 0x80, 0xF0, // 2
        0xF0, 0x10, 0xF0, 0x10, 0xF0, // 3
        0x90, 0x90, 0xF0, 0x10, 0x10, // 4
        0xF0, 0x80, 0xF0, 0x10, 0xF0, // 5
        0xF0, 0x80, 0xF0, 0x90, 0xF0, // 6
        0xF0, 0x10, 0x20, 0x40, 0x40, // 7
        0xF0, 0x90, 0xF0, 0x90, 0xF0, // 8
        0xF0, 0x90, 0xF0, 0x10, 0xF0, // 9
        0xF0, 0x90, 0xF0, 0x90, 0x90, // A
        0xE0, 0x90, 0xE0, 0x90, 0xE0, // B
        0xF0, 0x80, 0x80, 0x80, 0xF0, // C
        0xE0, 0x90, 0x90, 0x90, 0xE0, // D
        0xF0, 0x80, 0xF0, 0x80, 0xF0, // E
        0xF0, 0x80, 0xF0, 0x80, 0x80, // F
    ]
}

/// The mathematical model of the machine state.
#[verifier::ext_equal]
pub struct Chip8View {
    pub ram: Seq<u8>,
    pub regs: Seq<u8>,
    pub stack: Seq<u16>,
    pub delay: u8,
    pub sound: u8,
    pub index: u16,
    pub pc: u16,
    pub sp: u8,
    pub fb: Seq<bool>,
    pub dirty: bool,
    pub quirks: Quirks,
}

impl Chip8View {
    /// Structural well-formedness: all fixed-size parts have their size and
    /// the stack pointer stays inside the stack.
    pub open spec fn wf(self) -> bool {
        &&& self.ram.len() == RAM_LEN
        &&& self.regs.len() == REGISTER_COUNT
        &&& self.stack.len() == STACK_LEN
        &&& self.sp < STACK_LEN
        &&& self.fb.len() == DISPLAY_LEN
    }
}

/// The 16-bit instruction stored big-endian at address `pc`.
pub open spec fn instr_at(ram: Seq<u8>, pc: int) -> u16 {
    (ram[pc] * 256 + ram[pc + 1]) as u16
}

/// Memory as it is right after construction: zero everywhere but the font
/// region and the program image.
pub open spec fn initial_ram(rom: Seq<u8>) -> Seq<u8> {
    Seq::new(
        RAM_LEN as nat,
        |a: int|
            if FONT_START <= a < FONT_START + FONT_LEN {
                font_data()[a - FONT_START]
            } else if PROGRAM_START <= a < PROGRAM_START + rom.len() {
                rom[a - PROGRAM_START]
            } else {
                0u8
            },
    )
}

/// The whole machine as it is right after construction.
pub open spec fn fresh_vm(rom: Seq<u8>, quirks: Quirks) -> Chip8View {
    Chip8View {
        ram: initial_ram(rom),
        regs: Seq::new(REGISTER_COUNT as nat, |i: int| 0u8),
        stack: Seq::new(STACK_LEN as nat, |i: int| 0u16),
        delay: 0,
        sound: 0,
        index: 0,
        pc: PROGRAM_START as u16,
        sp: 0,
        fb: Seq::new(DISPLAY_LEN as nat, |i: int| false),
        dirty: false,
        quirks,
    }
}

/// A countdown timer one cadence tick later: down by one, never below zero.
pub open spec fn ticked(t: u8) -> u8 {
    if t > 0 {
        (t - 1) as u8
    } else {
        0u8
    }
}

/// The virtual machine: memory, registers, call stack, timers, framebuffer
/// and the quirk profile chosen at construction.
pub struct Chip8 {
    ram: Vec<u8>,
    registers: Vec<u8>,
    stack: Vec<u16>,
    delay_timer: u8,
    sound_timer: u8,
    index_register: u16,
    program_counter: u16,
    stack_pointer: u8,
    display_buffer: Vec<bool>,
    update_display: bool,
    quirks: Quirks,
}

impl View for Chip8 {
    type V = Chip8View;

    closed spec fn view(&self) -> Chip8View {
        Chip8View {
            ram: self.ram@,
            regs: self.registers@,
            stack: self.stack@,
            delay: self.delay_timer,
            sound: self.sound_timer,
            index: self.index_register,
            pc: self.program_counter,
            sp: self.stack_pointer,
            fb: self.display_buffer@,
            dirty: self.update_display,
            quirks: self.quirks,
        }
    }
}

/// A vector of `len` copies of `value`.
fn filled<T: Copy>(len: usize, value: T) -> (v: Vec<T>)
    ensures
        v@ =~= Seq::new(len as nat, |i: int| value),
{
    let mut v: Vec<T> = Vec::new();
    while v.len() < len
        invariant
            v@.len() <= len,
            forall|j: int| 0 <= j < v@.len() ==> v@[j] == value,
        decreases len - v@.len(),
    {
        v.push(value);
    }
    v
}

/// Appends one 5-byte glyph.
fn push_glyph(v: &mut Vec<u8>, a: u8, b: u8, c: u8, d: u8, e: u8)
    ensures
        final(v)@ =~= old(v)@ + seq![a, b, c, d, e],
{
    v.push(a);
    v.push(b);
    v.push(c);
    v.push(d);
    v.push(e);
}

/// The built-in glyph table as bytes.
fn font_table() -> (v: Vec<u8>)
    ensures
        v@ =~= font_data(),
{
    let mut v: Vec<u8> = Vec::new();
    push_glyph(&mut v, 0xF0, 0x90, 0x90, 0x90, 0xF0);
    push_glyph(&mut v, 0x20, 0x60, 0x20, 0x20, 0x70);
    push_glyph(&mut v, 0xF0, 0x10, 0xF0, 0x80, 0xF0);
    push_glyph(&mut v, 0xF0, 0x10, 0xF0, 0x10, 0xF0);
    push_glyph(&mut v, 0x90, 0x90, 0xF0, 0x10, 0x10);
    push_glyph(&mut v, 0xF0, 0x80, 0xF0, 0x10, 0xF0);
    push_glyph(&mut v, 0xF0, 0x80, 0xF0, 0x90, 0xF0);
    push_glyph(&mut v, 0xF0, 0x10, 0x20, 0x40, 0x40);
    push_glyph(&mut v, 0xF0, 0x90, 0xF0, 0x90, 0xF0);
    push_glyph(&mut v, 0xF0, 0x90, 0xF0, 0x10, 0xF0);
    push_glyph(&mut v, 0xF0, 0x90, 0xF0, 0x90, 0x90);
    push_glyph(&mut v, 0xE0, 0x90, 0xE0, 0x90, 0xE0);
    push_glyph(&mut v, 0xF0, 0x80, 0x80, 0x80, 0xF0);
    push_glyph(&mut v, 0xE0, 0x90, 0x90, 0x90, 0xE0);
    push_glyph(&mut v, 0xF0, 0x80, 0xF0, 0x80, 0xF0);
    push_glyph(&mut v, 0xF0, 0x80, 0xF0, 0x80, 0x80);
    assert(v@ =~= font_data());
    v
}

impl Chip8 {
    /// Builds a machine holding the font table in its fixed low region and
    /// the program image at the load offset, everything else cleared.
    /// An image that does not fit above the load offset is rejected.
    pub fn build(rom: &[u8], quirks: Quirks) -> (r: Result<Chip8, VmError>)
        ensures
            rom@.len() > RAM_LEN - PROGRAM_START ==> r == Err::<Chip8, VmError>(
                VmError::RomTooLarge,
            ),
            rom@.len() <= RAM_LEN - PROGRAM_START ==> (match r {
                Ok(vm) => vm@ == fresh_vm(rom@, quirks) && vm@.wf(),
                Err(_) => false,
            }),
    {
        if rom.len() > RAM_LEN - PROGRAM_START {
            return Err(VmError::RomTooLarge);
        }
        let mut ram = filled(RAM_LEN, 0u8);
        let font = font_table();
        let mut i: usize = 0;
        while i < FONT_LEN
            invariant
                0 <= i <= FONT_LEN,
                ram@.len() == RAM_LEN,
                font@ =~= font_data(),
                forall|j: int| 0 <= j < i ==> ram@[FONT_START + j] == font_data()[j],
                forall|a: int|
                    0 <= a < RAM_LEN && !(FONT_START <= a < FONT_START + i) ==> ram@[a] == 0u8,
            decreases FONT_LEN - i,
        {
            ram[FONT_START + i] = font[i];
            i = i + 1;
        }
        let mut k: usize = 0;
        while k < rom.len()
            invariant
                0 <= k <= rom@.len(),
                rom@.len() <= RAM_LEN - PROGRAM_START,
                ram@.len() == RAM_LEN,
                forall|j: int| 0 <= j < FONT_LEN ==> ram@[FONT_START + j] == font_data()[j],
                forall|j: int| 0 <= j < k ==> ram@[PROGRAM_START + j] == rom@[j],
                forall|a: int|
                    0 <= a < RAM_LEN && !(FONT_START <= a < FONT_START + FONT_LEN) && !(
                    PROGRAM_START <= a < PROGRAM_START + k) ==> ram@[a] == 0u8,
            decreases rom@.len() - k,
        {
            ram[PROGRAM_START + k] = rom[k];
            k = k + 1;
        }
        let vm = Chip8 {
            ram,
            registers: filled(REGISTER_COUNT, 0u8),
            stack: filled(STACK_LEN, 0u16),
            delay_timer: 0,
            sound_timer: 0,
            index_register: 0,
            program_counter: PROGRAM_START as u16,
            stack_pointer: 0,
            display_buffer: filled(DISPLAY_LEN, false),
            update_display: false,
            quirks,
        };
        assert(vm@.ram =~= initial_ram(rom@));
        assert(vm@ =~= fresh_vm(rom@, quirks));
        Ok(vm)
    }

    /// Reads the two instruction bytes at the program counter, big-endian,
    /// and advances the counter by one instruction width.
    pub fn fetch_instruction(&mut self) -> (instruction: u16)
        requires
            old(self)@.wf(),
            old(self)@.pc + 1 < RAM_LEN,
        ensures
            final(self)@.wf(),
            instruction == instr_at(old(self)@.ram, old(self)@.pc as int),
            final(self)@ == (Chip8View { pc: (old(self)@.pc + 2) as u16, ..old(self)@ }),
    {
        let hi = self.ram[self.program_counter as usize];
        let lo = self.ram[self.program_counter as usize + 1];
        self.program_counter = self.program_counter + 2;
        let instruction = ((hi as u16) << 8) | (lo as u16);
        assert(instruction == (hi * 256 + lo) as u16) by (bit_vector)
            requires
                instruction == ((hi as u16) << 8) | (lo as u16),
        ;
        instruction
    }

    /// One cadence tick: both timers count down, independently stopping at
    /// zero, and the result says whether the tone should sound, which is
    /// decided by the sound timer before the tick.
    pub fn tick_timers(&mut self) -> (beep: bool)
        requires
            old(self)@.wf(),
        ensures
            final(self)@.wf(),
            beep == (old(self)@.sound > 0),
            final(self)@ == (Chip8View {
                delay: ticked(old(self)@.delay),
                sound: ticked(old(self)@.sound),
                ..old(self)@
            }),
    {
        if self.delay_timer > 0 {
            self.delay_timer = self.delay_timer - 1;
        }
        let beep = self.sound_timer > 0;
        if self.sound_timer > 0 {
            self.sound_timer = self.sound_timer - 1;
        }
        beep
    }

    /// The program counter.
    pub fn pc(&self) -> (r: u16)
        ensures
            r == self@.pc,
    {
        self.program_counter
    }

    /// The index register.
    pub fn index(&self) -> (r: u16)
        ensures
            r == self@.index,
    {
        self.index_register
    }

    /// The stack pointer.
    pub fn sp(&self) -> (r: u8)
        ensures
            r == self@.sp,
    {
        self.stack_pointer
    }

    /// One general-purpose register.
    pub fn register(&self, register: u8) -> (r: u8)
        requires
            self@.wf(),
            register < 16,
        ensures
            r == self@.regs[register as int],
    {
        self.registers[register as usize]
    }

    /// The delay timer.
    pub fn delay(&self) -> (r: u8)
        ensures
            r == self@.delay,
    {
        self.delay_timer
    }

    /// The sound timer.
    pub fn sound(&self) -> (r: u8)
        ensures
            r == self@.sound,
    {
        self.sound_timer
    }

    /// The quirk profile chosen at construction.
    pub fn quirk_profile(&self) -> (r: Quirks)
        ensures
            r == self@.quirks,
    {
        self.quirks
    }

    /// One byte of memory.
    pub fn ram_byte(&self, address: usize) -> (r: u8)
        requires
            self@.wf(),
            address < RAM_LEN,
        ensures
            r == self@.ram[address as int],
    {
        self.ram[address]
    }

    /// One framebuffer cell.
    pub fn pixel(&self, x: usize, y: usize) -> (r: bool)
        requires
            self@.wf(),
            x < DISPLAY_WIDTH,
            y < DISPLAY_HEIGHT,
        ensures
            r == self@.fb[y * DISPLAY_WIDTH + x],
    {
        self.display_buffer[y * DISPLAY_WIDTH + x]
    }

    /// The whole framebuffer, row-major.
    pub fn framebuffer(&self) -> (r: &Vec<bool>)
        ensures
            r@ == self@.fb,
    {
        &self.display_buffer
    }

    /// Whether the framebuffer changed since it was last presented;
    /// reading clears the mark.
    pub fn take_update_display(&mut self) -> (r: bool)
        ensures
            r == old(self)@.dirty,
            final(self)@ == (Chip8View { dirty: false, ..old(self)@ }),
    {
        let r = self.update_display;
        self.update_display = false;
        r
    }

    /// Clear screen: every framebuffer cell to false, display marked dirty.
    pub fn clear_screen(&mut self)
        requires
            old(self)@.wf(),
        ensures
            final(self)@.wf(),
            final(self)@ == spec_clear_screen(old(self)@),
    {
        self.display_buffer = filled(DISPLAY_LEN, false);
        self.update_display = true;
    }

    /// Return from a subroutine: pop the stack into the program counter.
    /// A return with an empty stack is fatal and excluded here.
    pub fn return_from_subroutine(&mut self)
        requires
            old(self)@.wf(),
            old(self)@.sp > 0,
        ensures
            final(self)@.wf(),
            final(self)@ == spec_return(old(self)@),
    {
        self.program_counter = self.stack[self.stack_pointer as usize];
        self.stack_pointer = self.stack_pointer - 1;
    }

    /// Jump: set the program counter.
    pub fn jump_to_address(&mut self, address: u16)
        requires
            old(self)@.wf(),
        ensures
            final(self)@.wf(),
            final(self)@ == spec_jump(old(self)@, address),
    {
        self.program_counter = address;
    }

    /// Call a subroutine: push the current program counter, then jump.
    /// A call with a full stack is fatal and excluded here.
    pub fn call_subroutine_at_address(&mut self, address: u16)
        requires
            old(self)@.wf(),
            old(self)@.sp + 1 < STACK_LEN,
        ensures
            final(self)@.wf(),
            final(self)@ == spec_call(old(self)@, address),
    {
        self.stack_pointer = self.stack_pointer + 1;
        self.stack[self.stack_pointer as usize] = self.program_counter;
        self.program_counter = address;
    }

    /// Skip the next instruction when the register equals the value.
    pub fn skip_if_equal_to_value(&mut self, register: u8, value: u8)
        requires
            old(self)@.wf(),
            register < 16,
            old(self)@.pc + 2 <= u16::MAX,
        ensures
            final(self)@.wf(),
            final(self)@ == spec_skip(old(self)@, old(self)@.regs[register as int] == value),
    {
        if self.registers[register as usize] == value {
            self.program_counter = self.program_counter + 2;
        }
    }

    /// Skip the next instruction when the register differs from the value.
    pub fn skip_if_not_equal_to_value(&mut self, register: u8, value: u8)
        requires
            old(self)@.wf(),
            register < 16,
            old(self)@.pc + 2 <= u16::MAX,
        ensures
            final(self)@.wf(),
            final(self)@ == spec_skip(old(self)@, old(self)@.regs[register as int] != value),
    {
        if self.registers[register as usize] != value {
            self.program_counter = self.program_counter + 2;
        }
    }

    /// Skip the next instruction when the two registers are equal.
    pub fn skip_if_equal_to_register(&mut self, x_register: u8, y_register: u8)
        requires
            old(self)@.wf(),
            x_register < 16,
            y_register < 16,
            old(self)@.pc + 2 <= u16::MAX,
        ensures
            final(self)@.wf(),
            final(self)@ == spec_skip(
                old(self)@,
                old(self)@.regs[x_register as int] == old(self)@.regs[y_register as int],
            ),
    {
        if self.registers[x_register as usize] == self.registers[y_register as usize] {
            self.program_counter = self.program_counter + 2;
        }
    }

    /// Direct assignment of a value to a register.
    pub fn set_register_to_value(&mut self, register: u8, value: u8)
        requires
            old(self)@.wf(),
            register < 16,
        ensures
            final(self)@.wf(),
            final(self)@ == spec_set_register(old(self)@, register, value),
    {
        self.registers[register as usize] = value;
    }

    /// Add a value to a register, wrapping silently on 8-bit overflow.
    pub fn add_value_to_register(&mut self, register: u8, value: u8)
        requires
            old(self)@.wf(),
            register < 16,
        ensures
            final(self)@.wf(),
            final(self)@ == spec_add_value(old(self)@, register, value),
    {
        let sum = self.registers[register as usize] as u16 + value as u16;
        self.registers[register as usize] = (sum % 256) as u8;
    }

    /// Copy one register into another.
    pub fn set_register_to_register(&mut self, x_register: u8, y_register: u8)
        requires
            old(self)@.wf(),
            x_register < 16,
            y_register < 16,
        ensures
            final(self)@.wf(),
            final(self)@ == spec_set_register(
                old(self)@,
                x_register,
                old(self)@.regs[y_register as int],
            ),
    {
        self.registers[x_register as usize] = self.registers[y_register as usize];
    }

    /// Bitwise OR into the X register; the reset-flag quirk then forces the
    /// flag register to zero.
    pub fn or_register_with_register(&mut self, x_register: u8, y_register: u8)
        requires
            old(self)@.wf(),
            x_register < 16,
            y_register < 16,
        ensures
            final(self)@.wf(),
            final(self)@ == spec_or(old(self)@, x_register, y_register),
    {
        let value = self.registers[x_register as usize] | self.registers[y_register as usize];
        self.registers[x_register as usize] = value;
        if self.quirks.reset_flag {
            self.registers[FLAG_REGISTER] = 0;
        }
    }

    /// Bitwise AND into the X register; the reset-flag quirk then forces the
    /// flag register to zero.
    pub fn and_register_with_register(&mut self, x_register: u8, y_register: u8)
        requires
            old(self)@.wf(),
            x_register < 16,
            y_register < 16,
        ensures
            final(self)@.wf(),
            final(self)@ == spec_and(old(self)@, x_register, y_register),
    {
        let value = self.registers[x_register as usize] & self.registers[y_register as usize];
        self.registers[x_register as usize] = value;
        if self.quirks.reset_flag {
            self.registers[FLAG_REGISTER] = 0;
        }
    }

    /// Bitwise XOR into the X register; the reset-flag quirk then forces the
    /// flag register to zero.
    pub fn xor_register_with_register(&mut self, x_register: u8, y_register: u8)
        requires
            old(self)@.wf(),
            x_register < 16,
            y_register < 16,
        ensures
            final(self)@.wf(),
            final(self)@ == spec_xor(old(self)@, x_register, y_register),
    {
        let value = self.registers[x_register as usize] ^ self.registers[y_register as usize];
        self.registers[x_register as usize] = value;
        if self.quirks.reset_flag {
            self.registers[FLAG_REGISTER] = 0;
        }
    }

    /// Add one register into another: sum modulo 256, flag register 1
    /// exactly when the true sum exceeds 255.
    pub fn add_register_to_register(&mut self, x_register: u8, y_register: u8)
        requires
            old(self)@.wf(),
            x_register < 16,
            y_register < 16,
        ensures
            final(self)@.wf(),
            final(self)@ == spec_add_registers(old(self)@, x_register, y_register),
    {
        let sum = self.registers[x_register as usize] as u16
            + self.registers[y_register as usize] as u16;
        self.registers[x_register as usize] = (sum % 256) as u8;
        self.registers[FLAG_REGISTER] = if sum > 255 {
            1
        } else {
            0
        };
    }

    /// Subtract the Y register from the X register: difference modulo 256,
    /// flag register 1 exactly when no borrow occurred.
    pub fn subtract_register_from_register(&mut self, x_register: u8, y_register: u8)
        requires
            old(self)@.wf(),
            x_register < 16,
            y_register < 16,
        ensures
            final(self)@.wf(),
            final(self)@ == spec_subtract(old(self)@, x_register, y_register),
    {
        let a = self.registers[x_register as usize];
        let b = self.registers[y_register as usize];
        if a >= b {
            self.registers[x_register as usize] = a - b;
            self.registers[FLAG_REGISTER] = 1;
        } else {
            self.registers[x_register as usize] = (a as u16 + 256 - b as u16) as u8;
            self.registers[FLAG_REGISTER] = 0;
        }
    }

    /// Shift right: the source value's low bit goes to the flag register,
    /// its half to the X register. The shift-in-place quirk chooses the
    /// source.
    pub fn set_register_to_right_shifted_register(&mut self, x_register: u8, y_register: u8)
        requires
            old(self)@.wf(),
            x_register < 16,
            y_register < 16,
        ensures
            final(self)@.wf(),
            final(self)@ == spec_shift_right(old(self)@, x_register, y_register),
    {
        let src = if self.quirks.shift_in_place {
            self.registers[x_register as usize]
        } else {
            self.registers[y_register as usize]
        };
        self.registers[x_register as usize] = src >> 1u8;
        self.registers[FLAG_REGISTER] = src & 1;
    }

    /// Subtract the X register from the Y register, result into X; flag
    /// register 1 exactly when no borrow occurred.
    pub fn subtract_register_from_register_flipped(&mut self, x_register: u8, y_register: u8)
        requires
            old(self)@.wf(),
            x_register < 16,
            y_register < 16,
        ensures
            final(self)@.wf(),
            final(self)@ == spec_subtract_flipped(old(self)@, x_register, y_register),
    {
        let a = self.registers[y_register as usize];
        let b = self.registers[x_register as usize];
        if a >= b {
            self.registers[x_register as usize] = a - b;
            self.registers[FLAG_REGISTER] = 1;
        } else {
            self.registers[x_register as usize] = (a as u16 + 256 - b as u16) as u8;
            self.registers[FLAG_REGISTER] = 0;
        }
    }

    /// Shift left: the source value's high bit goes to the flag register,
    /// its double modulo 256 to the X register. The shift-in-place quirk
    /// chooses the source.
    pub fn set_register_to_left_shifted_register(&mut self, x_register: u8, y_register: u8)
        requires
            old(self)@.wf(),
            x_register < 16,
            y_register < 16,
        ensures
            final(self)@.wf(),
            final(self)@ == spec_shift_left(old(self)@, x_register, y_register),
    {
        let src = if self.quirks.shift_in_place {
            self.registers[x_register as usize]
        } else {
            self.registers[y_register as usize]
        };
        self.registers[x_register as usize] = src << 1u8;
        self.registers[FLAG_REGISTER] = (src & 0x80) >> 7u8;
    }

    /// Skip the next instruction when the two registers differ.
    pub fn skip_if_not_equal_to_register(&mut self, x_register: u8, y_register: u8)
        requires
            old(self)@.wf(),
            x_register < 16,
            y_register < 16,
            old(self)@.pc + 2 <= u16::MAX,
        ensures
            final(self)@.wf(),
            final(self)@ == spec_skip(
                old(self)@,
                old(self)@.regs[x_register as int] != old(self)@.regs[y_register as int],
            ),
    {
        if self.registers[x_register as usize] != self.registers[y_register as usize] {
            self.program_counter = self.program_counter + 2;
        }
    }

    /// Direct 12-bit assignment of the index register.
    pub fn set_index_register_to_value(&mut self, value: u16)
        requires
            old(self)@.wf(),
        ensures
            final(self)@.wf(),
            final(self)@ == spec_set_index(old(self)@, value),
    {
        self.index_register = value;
    }

    /// Jump with offset: the address plus either the X register (quirk on)
    /// or register zero (quirk off).
    pub fn jump_to_address_with_offset(&mut self, x_register: u8, address: u16)
        requires
            old(self)@.wf(),
            x_register < 16,
            address < 0x1000,
        ensures
            final(self)@.wf(),
            final(self)@ == spec_jump_offset(old(self)@, x_register, address),
    {
        let offset = if self.quirks.jump_plus_x_register {
            self.registers[x_register as usize]
        } else {
            self.registers[0]
        };
        self.program_counter = address + offset as u16;
    }

    /// Random AND: a random byte masked by the operand, into the register.
    pub fn set_register_to_random(&mut self, register: u8, value: u8)
        requires
            old(self)@.wf(),
            register < 16,
        ensures
            final(self)@.wf(),
            exists|sample: u8| final(self)@ == spec_random(old(self)@, register, value, sample),
    {
        let sample: u8 = rand::random();
        self.set_register_to_random_byte(register, value, sample);
    }

    /// The deterministic part of the random-AND instruction: the sampled
    /// byte masked by the operand, into the register.
    pub fn set_register_to_random_byte(&mut self, register: u8, value: u8, sample: u8)
        requires
            old(self)@.wf(),
            register < 16,
        ensures
            final(self)@.wf(),
            final(self)@ == spec_random(old(self)@, register, value, sample),
    {
        self.registers[register as usize] = sample & value;
    }

    /// Skip the next instruction when the key named by the register is
    /// pressed.
    pub fn skip_if_key_pressed(&mut self, register: u8, pressed_keys: &KeySet)
        requires
            old(self)@.wf(),
            register < 16,
            old(self)@.pc + 2 <= u16::MAX,
        ensures
            final(self)@.wf(),
            final(self)@ == spec_skip(
                old(self)@,
                key_down(pressed_keys.bits, old(self)@.regs[register as int] as u16),
            ),
    {
        let key = self.registers[register as usize];
        if pressed_keys.contains(key) {
            self.program_counter = self.program_counter + 2;
        }
    }

    /// Skip the next instruction when the key named by the register is not
    /// pressed.
    pub fn skip_if_key_not_pressed(&mut self, register: u8, pressed_keys: &KeySet)
        requires
            old(self)@.wf(),
            register < 16,
            old(self)@.pc + 2 <= u16::MAX,
        ensures
            final(self)@.wf(),
            final(self)@ == spec_skip(
                old(self)@,
                !key_down(pressed_keys.bits, old(self)@.regs[register as int] as u16),
            ),
    {
        let key = self.registers[register as usize];
        if !pressed_keys.contains(key) {
            self.program_counter = self.program_counter + 2;
        }
    }

    /// Copy the delay timer into a register.
    pub fn set_register_to_delay_timer(&mut self, register: u8)
        requires
            old(self)@.wf(),
            register < 16,
        ensures
            final(self)@.wf(),
            final(self)@ == spec_set_register(old(self)@, register, old(self)@.delay),
    {
        self.registers[register as usize] = self.delay_timer;
    }

    /// Key-wait: with no key pressed, rewind the program counter one
    /// instruction width so the same instruction is refetched next cycle;
    /// otherwise store the lowest pressed key.
    pub fn set_register_to_key_with_wait(&mut self, register: u8, pressed_keys: &KeySet)
        requires
            old(self)@.wf(),
            register < 16,
            old(self)@.pc >= 2,
        ensures
            final(self)@.wf(),
            final(self)@ == spec_key_wait(old(self)@, register, pressed_keys.bits),
    {
        match pressed_keys.lowest_pressed() {
            None => {
                self.program_counter = self.program_counter - 2;
            },
            Some(key) => {
                self.registers[register as usize] = key;
            },
        }
    }

    /// Set the delay timer from a register.
    pub fn set_delay_timer_to_register(&mut self, register: u8)
        requires
            old(self)@.wf(),
            register < 16,
        ensures
            final(self)@.wf(),
            final(self)@ == spec_set_delay(old(self)@, register),
    {
        self.delay_timer = self.registers[register as usize];
    }

    /// Set the sound timer from a register.
    pub fn set_sound_timer_to_register(&mut self, register: u8)
        requires
            old(self)@.wf(),
            register < 16,
        ensures
            final(self)@.wf(),
            final(self)@ == spec_set_sound(old(self)@, register),
    {
        self.sound_timer = self.registers[register as usize];
    }

    /// Add a register into the index register, 16-bit, wrapping, no flag.
    pub fn add_register_to_index_register(&mut self, register: u8)
        requires
            old(self)@.wf(),
            register < 16,
        ensures
            final(self)@.wf(),
            final(self)@ == spec_add_index(old(self)@, register),
    {
        let sum = self.index_register as u32 + self.registers[register as usize] as u32;
        self.index_register = (sum % 0x10000) as u16;
    }

    /// Point the index register at the font glyph of the register's value.
    pub fn set_index_register_to_font_sprite(&mut self, register: u8)
        requires
            old(self)@.wf(),
            register < 16,
        ensures
            final(self)@.wf(),
            final(self)@ == spec_font_index(old(self)@, register),
    {
        self.index_register = FONT_START as u16 + self.registers[register as usize] as u16 * 5;
    }

    /// BCD store: the register value's hundreds, tens and ones digits to
    /// the three bytes at the index register. Addressing past memory is
    /// fatal and excluded here.
    pub fn set_index_register_to_bcd(&mut self, register: u8)
        requires
            old(self)@.wf(),
            register < 16,
            old(self)@.index + 2 < RAM_LEN,
        ensures
            final(self)@.wf(),
            final(self)@ == spec_store_bcd(old(self)@, register),
    {
        let value = self.registers[register as usize];
        let base = self.index_register as usize;
        self.ram[base] = value / 100;
        self.ram[base + 1] = (value / 10) % 10;
        self.ram[base + 2] = value % 10;
    }

    /// Block store: registers 0 through `x` to memory at the index
    /// register; the auto-increment quirk decides whether the index
    /// register advances. Addressing past memory is fatal and excluded
    /// here.
    pub fn store_registers_in_memory(&mut self, x: u8)
        requires
            old(self)@.wf(),
            x < 16,
            old(self)@.index + x < RAM_LEN,
        ensures
            final(self)@.wf(),
            final(self)@ == spec_store_block(old(self)@, x),
    {
        let ghost s0 = old(self)@;
        let base = self.index_register as usize;
        let mut offset: usize = 0;
        while offset <= x as usize
            invariant
                s0.wf(),
                x < 16,
                s0.index + x < RAM_LEN,
                base == s0.index,
                0 <= offset <= x + 1,
                self@ == (Chip8View { ram: self@.ram, ..s0 }),
                self@.ram.len() == RAM_LEN,
                forall|a: int|
                    0 <= a < RAM_LEN && !(base <= a < base + offset) ==> self@.ram[a] == s0.ram[a],
                forall|j: int| 0 <= j < offset ==> self@.ram[base + j] == s0.regs[j],
            decreases x as int + 1 - offset,
        {
            self.ram[base + offset] = self.registers[offset];
            offset = offset + 1;
        }
        if self.quirks.increment_index_register {
            self.index_register = self.index_register + x as u16 + 1;
        }
        assert(self@.ram =~= spec_store_block(s0, x).ram);
        assert(self@ =~= spec_store_block(s0, x));
    }

    /// One whole cycle: fetch the instruction word at the program counter,
    /// decode it, and execute it against the pressed-key snapshot. Every
    /// fatal condition is reported as the error it is, with the machine
    /// left exactly as it was before the cycle.
    pub fn cycle(&mut self, pressed_keys: &KeySet) -> (r: Result<(), VmError>)
        requires
            old(self)@.wf(),
        ensures
            final(self)@.wf(),
            (match r {
                Ok(()) => step_fault(old(self)@, pressed_keys.bits) is None && exists|sample: u8|
                    final(self)@ == step_state(old(self)@, pressed_keys.bits, sample),
                Err(e) => step_fault(old(self)@, pressed_keys.bits) == Some(e) && final(self)@
                    == old(self)@,
            }),
    {
        let ghost s0 = old(self)@;
        let ghost kb = pressed_keys.bits;
        let pc0 = self.program_counter;
        if pc0 as usize + 1 >= RAM_LEN {
            return Err(VmError::MemoryOutOfBounds);
        }
        let instruction = self.fetch_instruction();
        let p = ParsedInstruction::build(instruction);
        match p.opcode {
            0x0 => {
                if p.nn == 0xE0 {
                    self.clear_screen();
                    proof {
                        assert(self@ == step_state(s0, kb, 0u8));
                    }
                } else if p.nn == 0xEE {
                    if self.stack_pointer == 0 {
                        self.program_counter = pc0;
                        proof {
                            assert(self@ =~= s0);
                        }
                        return Err(VmError::EmptyStackReturn);
                    }
                    self.return_from_subroutine();
                    proof {
                        assert(self@ == step_state(s0, kb, 0u8));
                    }
                } else {
                    self.program_counter = pc0;
                    proof {
                        assert(self@ =~= s0);
                    }
                    return Err(VmError::UnrecognizedInstruction { instruction });
                }
            },
            0x1 => {
                self.jump_to_address(p.nnn);
                proof {
                    assert(self@ == step_state(s0, kb, 0u8));
                }
            },
            0x2 => {
                if self.stack_pointer as usize + 1 >= STACK_LEN {
                    self.program_counter = pc0;
                    proof {
                        assert(self@ =~= s0);
                    }
                    return Err(VmError::StackOverflow);
                }
                self.call_subroutine_at_address(p.nnn);
                proof {
                    assert(self@ == step_state(s0, kb, 0u8));
                }
            },
            0x3 => {
                self.skip_if_equal_to_value(p.x, p.nn);
                proof {
                    assert(self@ == step_state(s0, kb, 0u8));
                }
            },
            0x4 => {
                self.skip_if_not_equal_to_value(p.x, p.nn);
                proof {
                    assert(self@ == step_state(s0, kb, 0u8));
                }
            },
            0x5 => {
                self.skip_if_equal_to_register(p.x, p.y);
                proof {
                    assert(self@ == step_state(s0, kb, 0u8));
                }
            },
            0x6 => {
                self.set_register_to_value(p.x, p.nn);
                proof {
                    assert(self@ == step_state(s0, kb, 0u8));
                }
            },
            0x7 => {
                self.add_value_to_register(p.x, p.nn);
                proof {
                    assert(self@ == step_state(s0, kb, 0u8));
                }
            },
            0x8 => {
                match p.n {
                    0x0 => {
                        self.set_register_to_register(p.x, p.y);
                        proof {
                            assert(self@ == step_state(s0, kb, 0u8));
                        }
                    },
                    0x1 => {
                        self.or_register_with_register(p.x, p.y);
                        proof {
                            assert(self@ == step_state(s0, kb, 0u8));
                        }
                    },
                    0x2 => {
                        self.and_register_with_register(p.x, p.y);
                        proof {
                            assert(self@ == step_state(s0, kb, 0u8));
                        }
                    },
                    0x3 => {
                        self.xor_register_with_register(p.x, p.y);
                        proof {
                            assert(self@ == step_state(s0, kb, 0u8));
                        }
                    },
                    0x4 => {
                        self.add_register_to_register(p.x, p.y);
                        proof {
                            assert(self@ == step_state(s0, kb, 0u8));
                        }
                    },
                    0x5 => {
                        self.subtract_register_from_register(p.x, p.y);
                        proof {
                            assert(self@ == step_state(s0, kb, 0u8));
                        }
                    },
                    0x6 => {
                        self.set_register_to_right_shifted_register(p.x, p.y);
                        proof {
                            assert(self@ == step_state(s0, kb, 0u8));
                        }
                    },
                    0x7 => {
                        self.subtract_register_from_register_flipped(p.x, p.y);
                        proof {
                            assert(self@ == step_state(s0, kb, 0u8));
                        }
                    },
                    0xE => {
                        self.set_register_to_left_shifted_register(p.x, p.y);
                        proof {
                            assert(self@ == step_state(s0, kb, 0u8));
                        }
                    },
                    _ => {
                        self.program_counter = pc0;
                        proof {
                            assert(self@ =~= s0);
                        }
                        return Err(VmError::UnrecognizedInstruction { instruction });
                    },
                }
            },
            0x9 => {
                self.skip_if_not_equal_to_register(p.x, p.y);
                proof {
                    assert(self@ == step_state(s0, kb, 0u8));
                }
            },
            0xA => {
                self.set_index_register_to_value(p.nnn);
                proof {
                    assert(self@ == step_state(s0, kb, 0u8));
                }
            },
            0xB => {
                self.jump_to_address_with_offset(p.x, p.nnn);
                proof {
                    assert(self@ == step_state(s0, kb, 0u8));
                }
            },
            0xC => {
                let sample: u8 = rand::random();
                self.set_register_to_random_byte(p.x, p.nn, sample);
                proof {
                    assert(self@ == step_state(s0, kb, sample));
                }
            },
            0xD => {
                if self.index_register as usize + p.n as usize > RAM_LEN {
                    self.program_counter = pc0;
                    proof {
                        assert(self@ =~= s0);
                    }
                    return Err(VmError::MemoryOutOfBounds);
                }
                self.display(p.x, p.y, p.n);
                proof {
                    assert(self@ == step_state(s0, kb, 0u8));
                }
            },
            0xE => {
                if p.nn == 0x9E {
                    self.skip_if_key_pressed(p.x, pressed_keys);
                    proof {
                        assert(self@ == step_state(s0, kb, 0u8));
                    }
                } else if p.nn == 0xA1 {
                    self.skip_if_key_not_pressed(p.x, pressed_keys);
                    proof {
                        assert(self@ == step_state(s0, kb, 0u8));
                    }
                } else {
                    self.program_counter = pc0;
                    proof {
                        assert(self@ =~= s0);
                    }
                    return Err(VmError::UnrecognizedInstruction { instruction });
                }
            },
            _ => {
                match p.nn {
                    0x07 => {
                        self.set_register_to_delay_timer(p.x);
                        proof {
                            assert(self@ == step_state(s0, kb, 0u8));
                        }
                    },
                    0x0A => {
                        self.set_register_to_key_with_wait(p.x, pressed_keys);
                        proof {
                            assert(self@ == step_state(s0, kb, 0u8));
                        }
                    },
                    0x15 => {
                        self.set_delay_timer_to_register(p.x);
                        proof {
                            assert(self@ == step_state(s0, kb, 0u8));
                        }
                    },
                    0x18 => {
                        self.set_sound_timer_to_register(p.x);
                        proof {
                            assert(self@ == step_state(s0, kb, 0u8));
                        }
                    },
                    0x1E => {
                        self.add_register_to_index_register(p.x);
                        proof {
                            assert(self@ == step_state(s0, kb, 0u8));
                        }
                    },
                    0x29 => {
                        self.set_index_register_to_font_sprite(p.x);
                        proof {
                            assert(self@ == step_state(s0, kb, 0u8));
                        }
                    },
                    0x33 => {
                        if self.index_register as usize + 2 >= RAM_LEN {
                            self.program_counter = pc0;
                            proof {
                                assert(self@ =~= s0);
                            }
                            return Err(VmError::MemoryOutOfBounds);
                        }
                        self.set_index_register_to_bcd(p.x);
                        proof {
                            assert(self@ == step_state(s0, kb, 0u8));
                        }
                    },
                    0x55 => {
                        if self.index_register as usize + p.x as usize >= RAM_LEN {
                            self.program_counter = pc0;
                            proof {
                                assert(self@ =~= s0);
                            }
                            return Err(VmError::MemoryOutOfBounds);
                        }
                        self.store_registers_in_memory(p.x);
                        proof {
                            assert(self@ == step_state(s0, kb, 0u8));
                        }
                    },
                    0x65 => {
                        if self.index_register as usize + p.x as usize >= RAM_LEN {
                            self.program_counter = pc0;
                            proof {
                                assert(self@ =~= s0);
                            }
                            return Err(VmError::MemoryOutOfBounds);
                        }
                        self.load_registers_from_memory(p.x);
                        proof {
                            assert(self@ == step_state(s0, kb, 0u8));
                        }
                    },
                    _ => {
                        self.program_counter = pc0;
                        proof {
                            assert(self@ =~= s0);
                        }
                        return Err(VmError::UnrecognizedInstruction { instruction });
                    },
                }
            },
        }
        Ok(())
    }

    /// One sprite row XOR-toggled onto framebuffer row `cy` starting at
    /// column `x0`, columns past the right edge clipped; the flag register
    /// latches 1 when a set pixel lands on a lit cell.
    fn draw_row(&mut self, sprite_data: u8, x0: usize, cy: usize)
        requires
            old(self)@.wf(),
            x0 < DISPLAY_WIDTH,
            cy < DISPLAY_HEIGHT,
        ensures
            final(self)@.wf(),
            final(self)@ == (Chip8View { fb: final(self)@.fb, regs: final(self)@.regs, ..old(self)@ }),
            final(self)@.fb.len() == DISPLAY_LEN,
            final(self)@.regs == old(self)@.regs.update(
                FLAG_REGISTER as int,
                final(self)@.regs[FLAG_REGISTER as int],
            ),
            final(self)@.regs[FLAG_REGISTER as int] == 1 || final(self)@.regs[FLAG_REGISTER as int]
                == old(self)@.regs[FLAG_REGISTER as int],
            forall|i: int|
                0 <= i < DISPLAY_LEN ==> final(self)@.fb[i] == (old(self)@.fb[i] != (i / 64 == cy
                    && row_hit(sprite_data, x0 as int, i % 64))),
            (final(self)@.regs[FLAG_REGISTER as int] == 1) == (old(self)@.regs[FLAG_REGISTER as int]
                == 1 || exists|px: int|
                #[trigger] row_hit(sprite_data, x0 as int, px) && old(self)@.fb[cy * 64 + px]),
    {
        let ghost s0 = old(self)@;
        let mut col: usize = 0;
        while col < 8 && x0 + col < DISPLAY_WIDTH
            invariant
                s0.wf(),
                x0 < DISPLAY_WIDTH,
                cy < DISPLAY_HEIGHT,
                0 <= col <= 8,
                self@ == (Chip8View { fb: self@.fb, regs: self@.regs, ..s0 }),
                self@.fb.len() == DISPLAY_LEN,
                self@.regs == s0.regs.update(
                    FLAG_REGISTER as int,
                    self@.regs[FLAG_REGISTER as int],
                ),
                self@.regs[FLAG_REGISTER as int] == 1 || self@.regs[FLAG_REGISTER as int]
                    == s0.regs[FLAG_REGISTER as int],
                forall|i: int|
                    0 <= i < DISPLAY_LEN ==> self@.fb[i] == (s0.fb[i] != (i / 64 == cy
                        && row_hit_partial(sprite_data, x0 as int, col as int, i % 64))),
                (self@.regs[FLAG_REGISTER as int] == 1) == (s0.regs[FLAG_REGISTER as int] == 1
                    || exists|px: int|
                    #[trigger] row_hit_partial(sprite_data, x0 as int, col as int, px) && s0.fb[cy
                        * 64 + px]),
            decreases 8 - col,
        {
            let pixel = (sprite_data >> ((7 - col) as u8)) & 1;
            let px = x0 + col;
            proof {
                lemma_cell_index(px as int, cy as int);
            }
            if pixel == 1 {
                let coord = cy * DISPLAY_WIDTH + px;
                proof {
                    assert(sprite_bit(sprite_data, col as int));
                    assert(!row_hit_partial(sprite_data, x0 as int, col as int, px as int));
                    assert(self@.fb[coord as int] == s0.fb[coord as int]);
                }
                let cell = self.display_buffer[coord];
                if cell {
                    self.registers[FLAG_REGISTER] = 1;
                    proof {
                        assert(self@.regs =~= s0.regs.update(FLAG_REGISTER as int, 1u8));
                    }
                }
                self.display_buffer[coord] = !cell;
                proof {
                    assert(row_hit_partial(sprite_data, x0 as int, col as int + 1, px as int));
                    if cell {
                        assert(row_hit_partial(sprite_data, x0 as int, col as int + 1, px as int)
                            && s0.fb[cy * 64 + px as int]);
                    }
                }
            }
            col = col + 1;
            proof {
                let gcol = col as int;
                assert forall|i: int| 0 <= i < DISPLAY_LEN implies self@.fb[i] == (s0.fb[i] != (i
                    / 64 == cy && row_hit_partial(sprite_data, x0 as int, gcol, i % 64))) by {
                    lemma_flat_coords(i);
                    lemma_cell_index(px as int, cy as int);
                }
                assert(((self@.regs[FLAG_REGISTER as int] == 1) == (s0.regs[FLAG_REGISTER as int]
                    == 1 || exists|p: int|
                    #[trigger] row_hit_partial(sprite_data, x0 as int, gcol, p) && s0.fb[cy * 64
                        + p]))) by {
                    if self@.regs[FLAG_REGISTER as int] == 1 && s0.regs[FLAG_REGISTER as int] != 1 {
                        let w = choose|p: int|
                            #[trigger] row_hit_partial(sprite_data, x0 as int, gcol - 1, p)
                                && s0.fb[cy * 64 + p];
                        if row_hit_partial(sprite_data, x0 as int, gcol - 1, w) && s0.fb[cy * 64
                            + w] {
                            assert(row_hit_partial(sprite_data, x0 as int, gcol, w));
                        }
                    }
                    if exists|p: int|
                        #[trigger] row_hit_partial(sprite_data, x0 as int, gcol, p) && s0.fb[cy * 64
                            + p] {
                        let w = choose|p: int|
                            #[trigger] row_hit_partial(sprite_data, x0 as int, gcol, p) && s0.fb[cy
                                * 64 + p];
                        if w < x0 + gcol - 1 {
                            assert(row_hit_partial(sprite_data, x0 as int, gcol - 1, w));
                        }
                    }
                }
            }
        }
        proof {
            assert forall|p: int|
                row_hit_partial(sprite_data, x0 as int, col as int, p) == row_hit(
                    sprite_data,
                    x0 as int,
                    p,
                ) by {}
            assert forall|i: int| 0 <= i < DISPLAY_LEN implies self@.fb[i] == (s0.fb[i] != (i / 64
                == cy && row_hit(sprite_data, x0 as int, i % 64))) by {}
            assert(((self@.regs[FLAG_REGISTER as int] == 1) == (s0.regs[FLAG_REGISTER as int] == 1
                || exists|p: int|
                #[trigger] row_hit(sprite_data, x0 as int, p) && s0.fb[cy * 64 + p]))) by {
                if self@.regs[FLAG_REGISTER as int] == 1 && s0.regs[FLAG_REGISTER as int] != 1 {
                    let w = choose|p: int|
                        #[trigger] row_hit_partial(sprite_data, x0 as int, col as int, p)
                            && s0.fb[cy * 64 + p];
                    assert(row_hit(sprite_data, x0 as int, w) && s0.fb[cy * 64 + w]);
                }
                if exists|p: int| #[trigger] row_hit(sprite_data, x0 as int, p) && s0.fb[cy * 64
                    + p] {
                    let w = choose|p: int|
                        #[trigger] row_hit(sprite_data, x0 as int, p) && s0.fb[cy * 64 + p];
                    assert(row_hit_partial(sprite_data, x0 as int, col as int, w));
                }
            }
        }
    }

    /// Draw: a sprite of `height` rows read from memory at the index
    /// register is XOR-toggled onto the framebuffer at the coordinates in
    /// the two registers, taken modulo the display size. The flag register
    /// is reset first and then reports a collision: some set sprite pixel
    /// landed on an already-lit cell, whatever the toggle did to it. Rows
    /// and columns outside the display are clipped, never wrapped, on every
    /// platform. Reading the sprite past memory is fatal and excluded here.
    pub fn display(&mut self, x_register: u8, y_register: u8, height: u8)
        requires
            old(self)@.wf(),
            x_register < 16,
            y_register < 16,
            height < 16,
            old(self)@.index + height <= RAM_LEN,
        ensures
            final(self)@.wf(),
            final(self)@ == spec_display(old(self)@, x_register, y_register, height),
    {
        let ghost s0 = old(self)@;
        let ghost gi = old(self)@.index as int;
        let x0 = (self.registers[x_register as usize] % 64) as usize;
        let y0 = (self.registers[y_register as usize] % 32) as usize;
        let ghost gx = x0 as int;
        let ghost gy = y0 as int;
        self.registers[FLAG_REGISTER] = 0;
        proof {
            assert(self@.regs =~= s0.regs.update(
                FLAG_REGISTER as int,
                self@.regs[FLAG_REGISTER as int],
            ));
        }
        let mut row: usize = 0;
        while row < height as usize && y0 + row < DISPLAY_HEIGHT
            invariant
                s0.wf(),
                x_register < 16,
                y_register < 16,
                height < 16,
                s0.index + height <= RAM_LEN,
                gi == s0.index as int,
                gx == s0.regs[x_register as int] as int % 64,
                gy == s0.regs[y_register as int] as int % 32,
                x0 == gx,
                y0 == gy,
                0 <= gx < 64,
                0 <= gy < 32,
                0 <= row <= height,
                self@ == (Chip8View { fb: self@.fb, regs: self@.regs, ..s0 }),
                self@.fb.len() == DISPLAY_LEN,
                self@.regs == s0.regs.update(
                    FLAG_REGISTER as int,
                    self@.regs[FLAG_REGISTER as int],
                ),
                self@.regs[FLAG_REGISTER as int] == 0 || self@.regs[FLAG_REGISTER as int] == 1,
                forall|i: int|
                    0 <= i < DISPLAY_LEN ==> self@.fb[i] == (s0.fb[i] != sprite_covers(
                        s0.ram,
                        gi,
                        row as int,
                        gx,
                        gy,
                        i % 64,
                        i / 64,
                    )),
                (self@.regs[FLAG_REGISTER as int] == 1) == exists|cx: int, cy: int|
                    #[trigger] sprite_covers(s0.ram, gi, row as int, gx, gy, cx, cy) && s0.fb[cy
                        * 64 + cx],
            decreases height - row,
        {
            let sprite_data = self.ram[self.index_register as usize + row];
            let cy = y0 + row;
            let ghost prev = self@;
            self.draw_row(sprite_data, x0, cy);
            row = row + 1;
            proof {
                let grow = row as int;
                assert(sprite_data == s0.ram[gi + (grow - 1)]);
                assert forall|i: int|
                    0 <= i < DISPLAY_LEN implies self@.fb[i] == (s0.fb[i] != sprite_covers(
                    s0.ram,
                    gi,
                    grow,
                    gx,
                    gy,
                    i % 64,
                    i / 64,
                )) by {
                    lemma_flat_coords(i);
                    lemma_covers_row_split(s0.ram, gi, grow - 1, gx, gy, i % 64, i / 64);
                }
                assert forall|px: int|
                    row_hit(sprite_data, gx, px) implies prev.fb[cy * 64 + px] == s0.fb[cy * 64
                    + px] by {
                    lemma_cell_index(px, cy as int);
                }
                assert(((self@.regs[FLAG_REGISTER as int] == 1) == exists|cx: int, cy2: int|
                    #[trigger] sprite_covers(s0.ram, gi, grow, gx, gy, cx, cy2) && s0.fb[cy2 * 64
                        + cx])) by {
                    if self@.regs[FLAG_REGISTER as int] == 1 {
                        if prev.regs[FLAG_REGISTER as int] == 1 {
                            let (cx, cy2) = choose|cx: int, cy2: int|
                                #[trigger] sprite_covers(s0.ram, gi, grow - 1, gx, gy, cx, cy2)
                                    && s0.fb[cy2 * 64 + cx];
                            assert(sprite_covers(s0.ram, gi, grow, gx, gy, cx, cy2) && s0.fb[cy2
                                * 64 + cx]);
                        } else {
                            let px = choose|px: int|
                                #[trigger] row_hit(sprite_data, gx, px) && prev.fb[cy * 64 + px];
                            lemma_covers_row_split(s0.ram, gi, grow - 1, gx, gy, px, cy as int);
                            assert(sprite_covers(s0.ram, gi, grow, gx, gy, px, cy as int)
                                && s0.fb[(cy as int) * 64 + px]);
                        }
                    }
                    if exists|cx: int, cy2: int|
                        #[trigger] sprite_covers(s0.ram, gi, grow, gx, gy, cx, cy2) && s0.fb[cy2
                            * 64 + cx] {
                        let (cx, cy2) = choose|cx: int, cy2: int|
                            #[trigger] sprite_covers(s0.ram, gi, grow, gx, gy, cx, cy2) && s0.fb[cy2
                                * 64 + cx];
                        lemma_covers_row_split(s0.ram, gi, grow - 1, gx, gy, cx, cy2);
                        if sprite_covers(s0.ram, gi, grow - 1, gx, gy, cx, cy2) {
                            assert(prev.regs[FLAG_REGISTER as int] == 1);
                        } else {
                            assert(row_hit(sprite_data, gx, cx) && prev.fb[cy * 64 + cx]);
                        }
                    }
                }
            }
        }
        self.update_display = true;
        proof {
            assert forall|cx: int, cy2: int|
                #![trigger sprite_covers(s0.ram, gi, height as int, gx, gy, cx, cy2)]
                #![trigger sprite_covers(s0.ram, gi, row as int, gx, gy, cx, cy2)]
                sprite_covers(s0.ram, gi, row as int, gx, gy, cx, cy2) == sprite_covers(
                s0.ram,
                gi,
                height as int,
                gx,
                gy,
                cx,
                cy2,
            ) by {}
            assert(self@.fb =~= draw_fb(s0, gx, gy, height as int));
            assert(((self@.regs[FLAG_REGISTER as int] == 1) == draw_collision(
                s0,
                gx,
                gy,
                height as int,
            ))) by {
                if self@.regs[FLAG_REGISTER as int] == 1 {
                    let (cx, cy2) = choose|cx: int, cy2: int|
                        #[trigger] sprite_covers(s0.ram, gi, row as int, gx, gy, cx, cy2)
                            && s0.fb[cy2 * 64 + cx];
                    assert(sprite_covers(s0.ram, gi, height as int, gx, gy, cx, cy2) && s0.fb[cy2
                        * 64 + cx]);
                }
                if draw_collision(s0, gx, gy, height as int) {
                    let (cx, cy2) = choose|cx: int, cy2: int|
                        #[trigger] sprite_covers(s0.ram, s0.index as int, height as int, gx, gy, cx, cy2)
                            && s0.fb[cy2 * 64 + cx];
                    assert(sprite_covers(s0.ram, gi, row as int, gx, gy, cx, cy2) && s0.fb[cy2 * 64
                        + cx]);
                }
            }
            assert(self@.regs =~= spec_display(s0, x_register, y_register, height).regs);
            assert(self@ =~= spec_display(s0, x_register, y_register, height));
        }
    }

    /// Block load: registers 0 through `x` from memory at the index
    /// register; the auto-increment quirk decides whether the index
    /// register advances. Addressing past memory is fatal and excluded
    /// here.
    pub fn load_registers_from_memory(&mut self, x: u8)
        requires
            old(self)@.wf(),
            x < 16,
            old(self)@.index + x < RAM_LEN,
        ensures
            final(self)@.wf(),
            final(self)@ == spec_load_block(old(self)@, x),
    {
        let ghost s0 = old(self)@;
        let base = self.index_register as usize;
        let mut offset: usize = 0;
        while offset <= x as usize
            invariant
                s0.wf(),
                x < 16,
                s0.index + x < RAM_LEN,
                base == s0.index,
                0 <= offset <= x + 1,
                self@ == (Chip8View { regs: self@.regs, ..s0 }),
                self@.regs.len() == REGISTER_COUNT,
                forall|j: int| 0 <= j < offset ==> self@.regs[j] == s0.ram[base + j],
                forall|j: int| offset <= j < REGISTER_COUNT ==> self@.regs[j] == s0.regs[j],
            decreases x as int + 1 - offset,
        {
            self.registers[offset] = self.ram[base + offset];
            offset = offset + 1;
        }
        if self.quirks.increment_index_register {
            self.index_register = self.index_register + x as u16 + 1;
        }
        assert(self@.regs =~= spec_load_block(s0, x).regs);
        assert(self@ =~= spec_load_block(s0, x));
    }
}

} // verus!
