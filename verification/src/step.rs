//! One whole machine cycle as a mathematical function: which fatal
//! condition, if any, the next instruction raises, and the state a
//! faultless cycle leads to.

use vstd::prelude::*;

use crate::decode::{n_field, nn_field, nnn_field, op_nibble, x_field, y_field};
use crate::keys::{key_down, lowest_down};
use crate::semantics::{
    spec_add_index, spec_add_registers, spec_add_value, spec_and, spec_call, spec_clear_screen,
    spec_display, spec_font_index, spec_jump, spec_jump_offset, spec_key_wait, spec_load_block,
    spec_or, spec_random, spec_return, spec_set_delay, spec_set_index, spec_set_register,
    spec_set_sound, spec_shift_left, spec_shift_right, spec_skip, spec_store_bcd, spec_store_block,
    spec_subtract, spec_subtract_flipped, spec_xor,
};
use crate::vm::{instr_at, Chip8View, VmError, RAM_LEN, STACK_LEN};

verus! {

/// The fatal condition the next cycle raises, if any: fetching past memory,
/// returning on an empty stack, calling on a full stack, a memory operand
/// reaching past memory, or an instruction with no handler.
pub open spec fn step_fault(s: Chip8View, keys: u16) -> Option<VmError> {
    if s.pc + 1 >= RAM_LEN {
        Some(VmError::MemoryOutOfBounds)
    } else {
        let i = instr_at(s.ram, s.pc as int);
        let op = op_nibble(i);
        let x = x_field(i);
        let n = n_field(i);
        let nn = nn_field(i);
        if op == 0x0 {
            if nn == 0xE0 {
                None
            } else if nn == 0xEE {
                if s.sp == 0 {
                    Some(VmError::EmptyStackReturn)
                } else {
                    None
                }
            } else {
                Some(VmError::UnrecognizedInstruction { instruction: i })
            }
        } else if op == 0x2 {
            if s.sp + 1 >= STACK_LEN {
                Some(VmError::StackOverflow)
            } else {
                None
            }
        } else if op == 0x8 {
            if n <= 0x7 || n == 0xE {
                None
            } else {
                Some(VmError::UnrecognizedInstruction { instruction: i })
            }
        } else if op == 0xD {
            if s.index + n > RAM_LEN {
                Some(VmError::MemoryOutOfBounds)
            } else {
                None
            }
        } else if op == 0xE {
            if nn == 0x9E || nn == 0xA1 {
                None
            } else {
                Some(VmError::UnrecognizedInstruction { instruction: i })
            }
        } else if op == 0xF {
            if nn == 0x07 || nn == 0x0A || nn == 0x15 || nn == 0x18 || nn == 0x1E || nn == 0x29 {
                None
            } else if nn == 0x33 {
                if s.index + 2 >= RAM_LEN {
                    Some(VmError::MemoryOutOfBounds)
                } else {
                    None
                }
            } else if nn == 0x55 || nn == 0x65 {
                if s.index + x >= RAM_LEN {
                    Some(VmError::MemoryOutOfBounds)
                } else {
                    None
                }
            } else {
                Some(VmError::UnrecognizedInstruction { instruction: i })
            }
        } else {
            None
        }
    }
}

/// The state one faultless cycle leads to: the fetch advances the program
/// counter two bytes past the big-endian instruction word, then the decoded
/// instruction's transform applies. `sample` is the byte the random
/// instruction drew; every other instruction ignores it.
pub open spec fn step_state(s: Chip8View, keys: u16, sample: u8) -> Chip8View {
    let i = instr_at(s.ram, s.pc as int);
    let op = op_nibble(i);
    let x = x_field(i);
    let y = y_field(i);
    let n = n_field(i);
    let nn = nn_field(i);
    let nnn = nnn_field(i);
    let t = Chip8View { pc: (s.pc + 2) as u16, ..s };
    if op == 0x0 {
        if nn == 0xE0 {
            spec_clear_screen(t)
        } else {
            spec_return(t)
        }
    } else if op == 0x1 {
        spec_jump(t, nnn)
    } else if op == 0x2 {
        spec_call(t, nnn)
    } else if op == 0x3 {
        spec_skip(t, t.regs[x as int] == nn)
    } else if op == 0x4 {
        spec_skip(t, t.regs[x as int] != nn)
    } else if op == 0x5 {
        spec_skip(t, t.regs[x as int] == t.regs[y as int])
    } else if op == 0x6 {
        spec_set_register(t, x, nn)
    } else if op == 0x7 {
        spec_add_value(t, x, nn)
    } else if op == 0x8 {
        if n == 0x0 {
            spec_set_register(t, x, t.regs[y as int])
        } else if n == 0x1 {
            spec_or(t, x, y)
        } else if n == 0x2 {
            spec_and(t, x, y)
        } else if n == 0x3 {
            spec_xor(t, x, y)
        } else if n == 0x4 {
            spec_add_registers(t, x, y)
        } else if n == 0x5 {
            spec_subtract(t, x, y)
        } else if n == 0x6 {
            spec_shift_right(t, x, y)
        } else if n == 0x7 {
            spec_subtract_flipped(t, x, y)
        } else {
            spec_shift_left(t, x, y)
        }
    } else if op == 0x9 {
        spec_skip(t, t.regs[x as int] != t.regs[y as int])
    } else if op == 0xA {
        spec_set_index(t, nnn)
    } else if op == 0xB {
        spec_jump_offset(t, x, nnn)
    } else if op == 0xC {
        spec_random(t, x, nn, sample)
    } else if op == 0xD {
        spec_display(t, x, y, n)
    } else if op == 0xE {
        if nn == 0x9E {
            spec_skip(t, key_down(keys, t.regs[x as int] as u16))
        } else {
            spec_skip(t, !key_down(keys, t.regs[x as int] as u16))
        }
    } else {
        if nn == 0x07 {
            spec_set_register(t, x, t.delay)
        } else if nn == 0x0A {
            spec_key_wait(t, x, keys)
        } else if nn == 0x15 {
            spec_set_delay(t, x)
        } else if nn == 0x18 {
            spec_set_sound(t, x)
        } else if nn == 0x1E {
            spec_add_index(t, x)
        } else if nn == 0x29 {
            spec_font_index(t, x)
        } else if nn == 0x33 {
            spec_store_bcd(t, x)
        } else if nn == 0x55 {
            spec_store_block(t, x)
        } else {
            spec_load_block(t, x)
        }
    }
}

/// Fetch and key-wait cancel out: a cycle on the key-wait instruction with
/// no key pressed raises no fault and leaves the machine exactly as it was,
/// so the same instruction is refetched next cycle.
pub proof fn lemma_key_wait_net_zero(s: Chip8View, keys: u16, sample: u8)
    requires
        s.wf(),
        s.pc + 1 < RAM_LEN,
        op_nibble(instr_at(s.ram, s.pc as int)) == 0xF,
        nn_field(instr_at(s.ram, s.pc as int)) == 0x0A,
        lowest_down(keys) is None,
    ensures
        step_fault(s, keys) is None,
        step_state(s, keys, sample) == s,
{
    assert(step_state(s, keys, sample) =~= s);
}

} // verus!
