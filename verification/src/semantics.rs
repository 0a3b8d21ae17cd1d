//! The meaning of each instruction: one spec-level transform of the state
//! model per opcode or opcode+sub-opcode. The executor's handlers promise
//! exactly these transforms.

use vstd::prelude::*;

use crate::keys::lowest_down;
use crate::vm::{
    Chip8View, DISPLAY_HEIGHT, DISPLAY_LEN, DISPLAY_WIDTH, FLAG_REGISTER, FONT_START, RAM_LEN,
    REGISTER_COUNT,
};

verus! {

/// An 8-bit value reduced modulo 256.
pub open spec fn wrap8(v: int) -> u8 {
    (v % 256) as u8
}

/// A 16-bit value reduced modulo 65536.
pub open spec fn wrap16(v: int) -> u16 {
    (v % 0x10000) as u16
}

/// 8-bit difference `a - b` modulo 256.
pub open spec fn sub8(a: u8, b: u8) -> u8 {
    if a >= b {
        (a - b) as u8
    } else {
        (a + 256 - b) as u8
    }
}

/// Clear screen: every framebuffer cell false, display marked dirty.
pub open spec fn spec_clear_screen(s: Chip8View) -> Chip8View {
    Chip8View { fb: Seq::new(crate::vm::DISPLAY_LEN as nat, |i: int| false), dirty: true, ..s }
}

/// Return: pop the stack into the program counter.
pub open spec fn spec_return(s: Chip8View) -> Chip8View {
    Chip8View { pc: s.stack[s.sp as int], sp: (s.sp - 1) as u8, ..s }
}

/// Jump: set the program counter.
pub open spec fn spec_jump(s: Chip8View, address: u16) -> Chip8View {
    Chip8View { pc: address, ..s }
}

/// Call: push the current program counter, then jump.
pub open spec fn spec_call(s: Chip8View, address: u16) -> Chip8View {
    Chip8View {
        stack: s.stack.update(s.sp + 1, s.pc),
        sp: (s.sp + 1) as u8,
        pc: address,
        ..s
    }
}

/// Skip: advance the program counter one extra instruction width when the
/// condition holds.
pub open spec fn spec_skip(s: Chip8View, condition: bool) -> Chip8View {
    Chip8View { pc: if condition { (s.pc + 2) as u16 } else { s.pc }, ..s }
}

/// Direct assignment to one register.
pub open spec fn spec_set_register(s: Chip8View, x: u8, value: u8) -> Chip8View {
    Chip8View { regs: s.regs.update(x as int, value), ..s }
}

/// Add a value to a register, wrapping, no flag.
pub open spec fn spec_add_value(s: Chip8View, x: u8, value: u8) -> Chip8View {
    spec_set_register(s, x, wrap8(s.regs[x as int] + value))
}

/// Registers after a logic op's result is stored: the flag register is
/// forced to zero afterwards when the reset-flag quirk is active.
pub open spec fn logic_result(s: Chip8View, x: u8, value: u8) -> Chip8View {
    let r = s.regs.update(x as int, value);
    Chip8View {
        regs: if s.quirks.reset_flag {
            r.update(FLAG_REGISTER as int, 0u8)
        } else {
            r
        },
        ..s
    }
}

/// Bitwise OR of two registers.
pub open spec fn spec_or(s: Chip8View, x: u8, y: u8) -> Chip8View {
    logic_result(s, x, s.regs[x as int] | s.regs[y as int])
}

/// Bitwise AND of two registers.
pub open spec fn spec_and(s: Chip8View, x: u8, y: u8) -> Chip8View {
    logic_result(s, x, s.regs[x as int] & s.regs[y as int])
}

/// Bitwise XOR of two registers.
pub open spec fn spec_xor(s: Chip8View, x: u8, y: u8) -> Chip8View {
    logic_result(s, x, s.regs[x as int] ^ s.regs[y as int])
}

/// Add with carry: the sum modulo 256, flag 1 exactly when the sum
/// exceeds 255.
pub open spec fn spec_add_registers(s: Chip8View, x: u8, y: u8) -> Chip8View {
    let sum = s.regs[x as int] + s.regs[y as int];
    Chip8View {
        regs: s.regs.update(x as int, wrap8(sum)).update(
            FLAG_REGISTER as int,
            if sum > 255 {
                1u8
            } else {
                0u8
            },
        ),
        ..s
    }
}

/// Subtract the Y register from the X register: difference modulo 256,
/// flag 1 exactly when no borrow occurred.
pub open spec fn spec_subtract(s: Chip8View, x: u8, y: u8) -> Chip8View {
    let a = s.regs[x as int];
    let b = s.regs[y as int];
    Chip8View {
        regs: s.regs.update(x as int, sub8(a, b)).update(
            FLAG_REGISTER as int,
            if a >= b {
                1u8
            } else {
                0u8
            },
        ),
        ..s
    }
}

/// Subtract the X register from the Y register, result into X; flag 1
/// exactly when no borrow occurred.
pub open spec fn spec_subtract_flipped(s: Chip8View, x: u8, y: u8) -> Chip8View {
    let a = s.regs[y as int];
    let b = s.regs[x as int];
    Chip8View {
        regs: s.regs.update(x as int, sub8(a, b)).update(
            FLAG_REGISTER as int,
            if a >= b {
                1u8
            } else {
                0u8
            },
        ),
        ..s
    }
}

/// The register a shift reads: the target itself under the shift-in-place
/// quirk, the source register otherwise.
pub open spec fn shift_source(s: Chip8View, x: u8, y: u8) -> u8 {
    if s.quirks.shift_in_place {
        s.regs[x as int]
    } else {
        s.regs[y as int]
    }
}

/// Shift right: the pre-shift low bit goes to the flag register.
pub open spec fn spec_shift_right(s: Chip8View, x: u8, y: u8) -> Chip8View {
    let src = shift_source(s, x, y);
    Chip8View {
        regs: s.regs.update(x as int, src >> 1u8).update(FLAG_REGISTER as int, src & 1),
        ..s
    }
}

/// Shift left: the pre-shift high bit goes to the flag register.
pub open spec fn spec_shift_left(s: Chip8View, x: u8, y: u8) -> Chip8View {
    let src = shift_source(s, x, y);
    Chip8View {
        regs: s.regs.update(x as int, src << 1u8).update(
            FLAG_REGISTER as int,
            (src & 0x80) >> 7u8,
        ),
        ..s
    }
}

/// Direct 12-bit assignment of the index register.
pub open spec fn spec_set_index(s: Chip8View, value: u16) -> Chip8View {
    Chip8View { index: value, ..s }
}

/// Jump with offset: the address plus either the X register (quirk on) or
/// register zero (quirk off).
pub open spec fn spec_jump_offset(s: Chip8View, x: u8, address: u16) -> Chip8View {
    let offset = if s.quirks.jump_plus_x_register {
        s.regs[x as int]
    } else {
        s.regs[0]
    };
    Chip8View { pc: (address + offset) as u16, ..s }
}

/// Random AND: the sampled byte masked by the operand.
pub open spec fn spec_random(s: Chip8View, x: u8, mask: u8, sample: u8) -> Chip8View {
    spec_set_register(s, x, sample & mask)
}

/// Key-wait: with no key pressed the program counter rewinds one
/// instruction width so the instruction is refetched; otherwise the lowest
/// pressed key is stored.
pub open spec fn spec_key_wait(s: Chip8View, x: u8, bits: u16) -> Chip8View {
    match lowest_down(bits) {
        None => Chip8View { pc: (s.pc - 2) as u16, ..s },
        Some(key) => spec_set_register(s, x, key),
    }
}

/// Bit `col` of one sprite row byte, bit 0 being the leftmost pixel.
pub open spec fn sprite_bit(row_byte: u8, col: int) -> bool {
    (row_byte >> ((7 - col) as u8)) & 1 == 1
}

/// A set sprite pixel lands on framebuffer cell (`cx`, `cy`): the cell lies
/// in the sprite's span starting at (`x0`, `y0`), inside the display (rows
/// and columns outside are clipped, never wrapped), and the sprite bit
/// aimed at it is 1. The sprite's rows are the `height` bytes at `index`.
pub open spec fn sprite_covers(
    ram: Seq<u8>,
    index: int,
    height: int,
    x0: int,
    y0: int,
    cx: int,
    cy: int,
) -> bool {
    &&& 0 <= cx < DISPLAY_WIDTH
    &&& 0 <= cy < DISPLAY_HEIGHT
    &&& y0 <= cy < y0 + height
    &&& x0 <= cx < x0 + 8
    &&& sprite_bit(ram[index + (cy - y0)], cx - x0)
}

/// Coverage while a draw is in progress: all of the first `rows` full rows,
/// and the first `cols` columns of the row after them.
pub open spec fn sprite_covers_partial(
    ram: Seq<u8>,
    index: int,
    x0: int,
    y0: int,
    rows: int,
    cols: int,
    cx: int,
    cy: int,
) -> bool {
    ||| sprite_covers(ram, index, rows, x0, y0, cx, cy)
    ||| {
        &&& 0 <= cx < DISPLAY_WIDTH
        &&& 0 <= cy < DISPLAY_HEIGHT
        &&& cy == y0 + rows
        &&& x0 <= cx < x0 + cols
        &&& sprite_bit(ram[index + rows], cx - x0)
    }
}

/// A set pixel of one sprite row, drawn at column `x0`, lands on display
/// column `px` (columns outside the display are clipped).
pub open spec fn row_hit(row_byte: u8, x0: int, px: int) -> bool {
    &&& 0 <= px < DISPLAY_WIDTH
    &&& x0 <= px < x0 + 8
    &&& sprite_bit(row_byte, px - x0)
}

/// `row_hit` restricted to the first `cols` columns of the row.
pub open spec fn row_hit_partial(row_byte: u8, x0: int, cols: int, px: int) -> bool {
    &&& 0 <= px < DISPLAY_WIDTH
    &&& x0 <= px < x0 + cols
    &&& sprite_bit(row_byte, px - x0)
}

/// Coverage by `rows + 1` sprite rows splits into coverage by the first
/// `rows` and a hit of the last row.
pub proof fn lemma_covers_row_split(
    ram: Seq<u8>,
    index: int,
    rows: int,
    x0: int,
    y0: int,
    cx: int,
    cy: int,
)
    requires
        0 <= rows,
        0 <= y0,
        y0 + rows < DISPLAY_HEIGHT,
    ensures
        sprite_covers(ram, index, rows + 1, x0, y0, cx, cy) == (sprite_covers(
            ram,
            index,
            rows,
            x0,
            y0,
            cx,
            cy,
        ) || (cy == y0 + rows && row_hit(ram[index + rows], x0, cx))),
{
}

/// The flat row-major index of a cell in range determines its coordinates.
pub proof fn lemma_cell_index(cx: int, cy: int)
    requires
        0 <= cx < 64,
        0 <= cy < 32,
    ensures
        (cy * 64 + cx) % 64 == cx,
        (cy * 64 + cx) / 64 == cy,
        0 <= cy * 64 + cx < 2048,
{
    assert((cy * 64 + cx) % 64 == cx && (cy * 64 + cx) / 64 == cy) by (nonlinear_arith)
        requires
            0 <= cx < 64,
            0 <= cy < 32,
    ;
}

/// A flat index in range is the row-major code of its coordinates.
pub proof fn lemma_flat_coords(i: int)
    requires
        0 <= i < 2048,
    ensures
        i == 64 * (i / 64) + i % 64,
        0 <= i % 64 < 64,
        0 <= i / 64 < 32,
{
    assert(i == 64 * (i / 64) + i % 64 && 0 <= i % 64 < 64 && 0 <= i / 64 < 32) by (nonlinear_arith)
        requires
            0 <= i < 2048,
    ;
}

/// Whether the draw touches a framebuffer cell that is already lit,
/// whatever the toggle then does to that cell.
pub open spec fn draw_collision(s: Chip8View, x0: int, y0: int, height: int) -> bool {
    exists|cx: int, cy: int|
        #[trigger] sprite_covers(s.ram, s.index as int, height, x0, y0, cx, cy) && s.fb[cy
            * DISPLAY_WIDTH + cx]
}

/// The framebuffer after a draw: every covered cell toggled, row-major.
pub open spec fn draw_fb(s: Chip8View, x0: int, y0: int, height: int) -> Seq<bool> {
    Seq::new(
        DISPLAY_LEN as nat,
        |i: int|
            s.fb[i] != sprite_covers(
                s.ram,
                s.index as int,
                height,
                x0,
                y0,
                i % (DISPLAY_WIDTH as int),
                i / (DISPLAY_WIDTH as int),
            ),
    )
}

/// Draw: origin from the two registers modulo the display size, covered
/// cells toggled, flag register 1 exactly on collision and 0 otherwise,
/// display marked dirty.
pub open spec fn spec_display(s: Chip8View, x: u8, y: u8, height: u8) -> Chip8View {
    let x0 = s.regs[x as int] as int % (DISPLAY_WIDTH as int);
    let y0 = s.regs[y as int] as int % (DISPLAY_HEIGHT as int);
    Chip8View {
        fb: draw_fb(s, x0, y0, height as int),
        regs: s.regs.update(
            FLAG_REGISTER as int,
            if draw_collision(s, x0, y0, height as int) {
                1u8
            } else {
                0u8
            },
        ),
        dirty: true,
        ..s
    }
}

/// Set the delay timer from a register.
pub open spec fn spec_set_delay(s: Chip8View, x: u8) -> Chip8View {
    Chip8View { delay: s.regs[x as int], ..s }
}

/// Set the sound timer from a register.
pub open spec fn spec_set_sound(s: Chip8View, x: u8) -> Chip8View {
    Chip8View { sound: s.regs[x as int], ..s }
}

/// Add a register to the index register, 16-bit, wrapping, no flag.
pub open spec fn spec_add_index(s: Chip8View, x: u8) -> Chip8View {
    Chip8View { index: wrap16(s.index + s.regs[x as int]), ..s }
}

/// Index register pointed at the font glyph of a register's value.
pub open spec fn spec_font_index(s: Chip8View, x: u8) -> Chip8View {
    Chip8View { index: (FONT_START + s.regs[x as int] * 5) as u16, ..s }
}

/// BCD store: hundreds, tens and ones digits of a register's value written
/// to the three bytes at the index register.
pub open spec fn spec_store_bcd(s: Chip8View, x: u8) -> Chip8View {
    let v = s.regs[x as int];
    let i = s.index as int;
    Chip8View {
        ram: s.ram.update(i, (v / 100) as u8).update(i + 1, ((v / 10) % 10) as u8).update(
            i + 2,
            (v % 10) as u8,
        ),
        ..s
    }
}

/// The index register after a block transfer of registers 0 through `x`:
/// advanced one step per register copied under the auto-increment quirk,
/// unchanged otherwise.
pub open spec fn block_index(s: Chip8View, x: u8) -> u16 {
    if s.quirks.increment_index_register {
        (s.index + x + 1) as u16
    } else {
        s.index
    }
}

/// Block store: registers 0 through `x` copied to memory at the index
/// register.
pub open spec fn spec_store_block(s: Chip8View, x: u8) -> Chip8View {
    Chip8View {
        ram: Seq::new(
            RAM_LEN as nat,
            |a: int|
                if s.index <= a <= s.index + x {
                    s.regs[a - s.index]
                } else {
                    s.ram[a]
                },
        ),
        index: block_index(s, x),
        ..s
    }
}

/// Block load: registers 0 through `x` filled from memory at the index
/// register.
pub open spec fn spec_load_block(s: Chip8View, x: u8) -> Chip8View {
    Chip8View {
        regs: Seq::new(
            REGISTER_COUNT as nat,
            |j: int|
                if 0 <= j <= x {
                    s.ram[s.index + j]
                } else {
                    s.regs[j]
                },
        ),
        index: block_index(s, x),
        ..s
    }
}

} // verus!
