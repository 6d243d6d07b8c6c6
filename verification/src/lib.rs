//! An interpreter for the CHIP-8 virtual machine: 4096 bytes of memory, 16
//! eight-bit registers, a 64 x 32 monochrome display, a delay timer, a sound
//! timer and 16 keys.
//!
//! * [`cpu_state`] holds the machine and the operations of a driver: make a
//!   machine for a program, set the keys, run a tick, read the display.
//! * [`opcode`] decodes instruction words.
//! * [`machine`], [`semantics`] and [`sprite`] define, as mathematics, what a
//!   state is and what each instruction, cycle and tick does to it. The
//!   contracts of the interpreter are stated over them.
//! * [`laws`] proves what follows for every state and every program.
//! * [`driver`] has the rules of the loop around the interpreter.
//! * [`font`] is the built-in font.
//!
//! Three choices make every operation total:
//!
//! * Addresses wrap. An access at address `a` goes to cell `a mod 4096`, and
//!   the program counter, the index register and the stack pointer wrap
//!   modulo 65536.
//! * A program longer than the 3584 bytes from address 512 to the end of
//!   memory is cut off there.
//! * Keys 16 and above do not exist and are never down.

pub mod cpu_state;
pub mod driver;
pub mod font;
pub mod laws;
pub mod machine;
pub mod opcode;
pub mod semantics;
pub mod sprite;
