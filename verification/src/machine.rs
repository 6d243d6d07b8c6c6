//! The mathematical model of the machine: what a state is, independent of how
//! the interpreter stores it.
//!
//! Addresses wrap: a memory access at address `a` reads or writes cell
//! `a mod 4096`, and arithmetic on the 16-bit registers (`pc`, `idx`, `sp`)
//! wraps modulo 65536. With this policy every instruction is defined on every
//! state.

use vstd::prelude::*;

verus! {

/// Number of memory cells.
pub const MEMORY_SIZE: usize = 4096;

/// Address at which programs are loaded and start running.
pub const PROGRAM_START: u16 = 512;

/// Initial stack pointer: the bottom of the 256-byte region at the top of
/// memory. The stack grows downward from here.
pub const STACK_START: u16 = 3840;

/// Number of display rows.
pub const DISPLAY_ROWS: usize = 32;

/// Number of display columns: the bits of one row word.
pub const DISPLAY_COLS: usize = 64;

/// A machine state as plain mathematical data.
pub struct Machine {
    /// The 4096 memory cells.
    pub memory: Seq<u8>,
    /// The 32 display rows; bit `63 - x` of row `y` is the pixel `(x, y)`.
    pub display: Seq<u64>,
    /// Program counter.
    pub pc: u16,
    /// Index register.
    pub idx: u16,
    /// Stack pointer.
    pub sp: u16,
    /// Delay timer.
    pub delay_timer: u8,
    /// Sound timer.
    pub sound_timer: u8,
    /// The 16 general-purpose registers; register 15 is the flag.
    pub regs: Seq<u8>,
    /// Bit `k` is set while key `k` is held down.
    pub pressed_keys: u16,
}

impl Machine {
    /// The three arrays have their fixed sizes.
    pub open spec fn wf(self) -> bool {
        &&& self.memory.len() == 4096
        &&& self.display.len() == 32
        &&& self.regs.len() == 16
    }

    /// The memory cell that address `a` designates.
    pub open spec fn read(self, a: int) -> u8 {
        self.memory[addr(a)]
    }

    /// The state after writing `v` to the cell that address `a` designates.
    pub open spec fn write(self, a: int, v: u8) -> Machine {
        Machine { memory: self.memory.update(addr(a), v), ..self }
    }

    /// The state after setting register `x` to `v`.
    pub open spec fn set_reg(self, x: int, v: u8) -> Machine {
        Machine { regs: self.regs.update(x, v), ..self }
    }

    /// The state after setting the flag register to `v`.
    pub open spec fn set_flag(self, v: u8) -> Machine {
        self.set_reg(15, v)
    }

    /// The state after moving the program counter past one more instruction
    /// when `cond` holds; the unchanged state otherwise.
    pub open spec fn skip_if(self, cond: bool) -> Machine {
        if cond {
            Machine { pc: wrap16(self.pc + 2), ..self }
        } else {
            self
        }
    }
}

/// The memory cell that an address designates: the address modulo 4096.
pub open spec fn addr(a: int) -> int {
    a % 4096
}

/// A value reduced to 8 bits.
pub open spec fn wrap8(v: int) -> u8 {
    (v % 256) as u8
}

/// A value reduced to 16 bits.
pub open spec fn wrap16(v: int) -> u16 {
    (v % 65536) as u16
}

/// Whether key `k` is held down in the snapshot `keys`. Only keys 0 to 15
/// exist; no other key is ever down.
pub open spec fn key_down(keys: u16, k: u8) -> bool {
    k < 16 && (keys >> (k as u16)) & 1 == 1
}

/// Whether the pixel at column `x`, row `y` is lit. No pixel outside the 64
/// columns and 32 rows is.
pub open spec fn pixel(display: Seq<u64>, x: int, y: int) -> bool {
    0 <= x < 64 && 0 <= y < 32 && (display[y] >> ((63 - x) as u64)) & 1 == 1
}

/// The diagnostic for an instruction word that matches no pattern.
#[derive(Clone, Copy, Debug, PartialEq, Eq, Structural)]
pub struct InvalidInstruction {
    /// The program counter after the fetch, just past the instruction.
    pub pc: u16,
    /// The instruction word.
    pub instruction: u16,
}

} // verus!
