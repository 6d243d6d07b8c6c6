//! What one instruction, one cycle and one tick do to a machine state.

use vstd::prelude::*;
use crate::font::FONT;
use crate::machine::{
    addr, key_down, wrap16, wrap8, InvalidInstruction, Machine, PROGRAM_START, STACK_START,
};
use crate::opcode::{decode, Opcode};
use crate::sprite::draw;

verus! {

/// The state of a machine that was just made for `program`: the font in
/// cells 0 to 79, the program from cell 512 on as far as memory reaches, and
/// every other cell, every register, row and timer zero.
pub open spec fn boot(program: Seq<u8>) -> Machine {
    Machine {
        memory: Seq::new(
            4096,
            |a: int|
                if a < 80 {
                    FONT@[a]
                } else if 512 <= a < 512 + program.len() {
                    program[a - 512]
                } else {
                    0u8
                },
        ),
        display: Seq::new(32, |y: int| 0u64),
        pc: PROGRAM_START,
        idx: 0,
        sp: STACK_START,
        delay_timer: 0,
        sound_timer: 0,
        regs: Seq::new(16, |i: int| 0u8),
        pressed_keys: 0,
    }
}

/// The instruction word at the program counter: two bytes, most significant
/// first.
pub open spec fn fetch(m: Machine) -> u16 {
    (256 * m.read(m.pc as int) + m.read(m.pc + 1)) as u16
}

/// The state after `2NNN`: the stack pointer moves down by two, the program
/// counter is stored there, most significant byte first, and execution goes
/// on at `nnn`.
pub open spec fn push_call(m: Machine, nnn: u16) -> Machine {
    let sp = wrap16(m.sp - 2);
    Machine {
        sp,
        pc: nnn,
        ..m.write(sp as int, (m.pc / 256) as u8).write(sp + 1, (m.pc % 256) as u8)
    }
}

/// The state after `00EE`: the program counter is read from the two bytes
/// at the stack pointer, most significant first, and the stack pointer moves
/// up by two.
pub open spec fn pop_return(m: Machine) -> Machine {
    Machine {
        pc: (256 * m.read(m.sp as int) + m.read(m.sp + 1)) as u16,
        sp: wrap16(m.sp + 2),
        ..m
    }
}

/// The state after `FX0A`: with no key down the program counter steps back
/// onto the instruction, so that the next cycle executes it again; otherwise
/// register `x` receives the index of the lowest key that is down.
pub open spec fn wait_key(m: Machine, x: u8) -> Machine {
    if m.pressed_keys == 0 {
        Machine { pc: wrap16(m.pc - 2), ..m }
    } else {
        m.set_reg(x as int, m.pressed_keys.trailing_zeros() as u8)
    }
}

/// The state after `FX33`: the hundreds, tens and units digit of register
/// `x` stored at `idx`, `idx + 1` and `idx + 2`.
pub open spec fn store_decimal(m: Machine, x: u8) -> Machine {
    let v = m.regs[x as int];
    m.write(m.idx as int, v / 100).write(m.idx + 1, v % 100 / 10).write(m.idx + 2, v % 10)
}

/// Memory after `FX55`: registers 0 to `x` stored from address `idx` on.
/// Cell `a` receives register `i` if it is the cell of address `idx + i`,
/// that is, if `a - idx` is `i` modulo 4096.
pub open spec fn store_regs(m: Machine, x: u8) -> Seq<u8> {
    Seq::new(
        4096,
        |a: int|
            if addr(a - m.idx) <= x {
                m.regs[addr(a - m.idx)]
            } else {
                m.memory[a]
            },
    )
}

/// Registers after `FX65`: registers 0 to `x` loaded from address `idx` on.
pub open spec fn load_regs(m: Machine, x: u8) -> Seq<u8> {
    Seq::new(
        16,
        |i: int|
            if i <= x {
                m.read(m.idx + i)
            } else {
                m.regs[i]
            },
    )
}

/// The state after the instruction `op`, given the state after the fetch,
/// with the program counter already past the instruction. `random` is the
/// byte that `CXNN` draws; no other instruction looks at it.
///
/// Where an instruction writes a register and the flag, the flag is written
/// last. The definition is opaque: `reveal(execute)` brings it in.
#[verifier::opaque]
pub open spec fn execute(m: Machine, op: Opcode, random: u8) -> Machine {
    match op {
        Opcode::ClearScreen => Machine { display: Seq::new(32, |y: int| 0u64), ..m },
        Opcode::Return => pop_return(m),
        Opcode::MachineRoutine { .. } => m,
        Opcode::Jump { nnn } => Machine { pc: nnn, ..m },
        Opcode::Call { nnn } => push_call(m, nnn),
        Opcode::SkipEqImm { x, nn } => m.skip_if(m.regs[x as int] == nn),
        Opcode::SkipNeImm { x, nn } => m.skip_if(m.regs[x as int] != nn),
        Opcode::SkipEqReg { x, y } => m.skip_if(m.regs[x as int] == m.regs[y as int]),
        Opcode::LoadImm { x, nn } => m.set_reg(x as int, nn),
        Opcode::AddImm { x, nn } => m.set_reg(x as int, wrap8(m.regs[x as int] + nn)),
        Opcode::Move { x, y } => m.set_reg(x as int, m.regs[y as int]),
        Opcode::Or { x, y } => m.set_reg(x as int, m.regs[x as int] | m.regs[y as int]),
        Opcode::And { x, y } => m.set_reg(x as int, m.regs[x as int] & m.regs[y as int]),
        Opcode::Xor { x, y } => m.set_reg(x as int, m.regs[x as int] ^ m.regs[y as int]),
        Opcode::AddReg { x, y } => {
            let sum = m.regs[x as int] + m.regs[y as int];
            m.set_reg(x as int, wrap8(sum)).set_flag(
                if sum > 255 {
                    1
                } else {
                    0
                },
            )
        },
        Opcode::SubReg { x, y } => {
            let diff = m.regs[x as int] - m.regs[y as int];
            m.set_reg(x as int, wrap8(diff)).set_flag(
                if diff < 0 {
                    0
                } else {
                    1
                },
            )
        },
        Opcode::ShiftRight { x } => m.set_reg(x as int, m.regs[x as int] / 2).set_flag(
            m.regs[x as int] % 2,
        ),
        Opcode::SubFrom { x, y } => {
            let diff = m.regs[y as int] - m.regs[x as int];
            m.set_reg(x as int, wrap8(diff)).set_flag(
                if diff < 0 {
                    0
                } else {
                    1
                },
            )
        },
        Opcode::ShiftLeft { x } => m.set_reg(x as int, wrap8(2 * m.regs[x as int])).set_flag(
            m.regs[x as int] / 128,
        ),
        Opcode::SkipNeReg { x, y } => m.skip_if(m.regs[x as int] != m.regs[y as int]),
        Opcode::LoadIndex { nnn } => Machine { idx: nnn, ..m },
        Opcode::JumpOffset { nnn } => Machine { pc: wrap16(m.regs[0] + nnn), ..m },
        Opcode::Random { x, nn } => m.set_reg(x as int, random & nn),
        Opcode::Draw { x, y, n } => draw(m, x, y, n),
        Opcode::SkipKey { x } => m.skip_if(key_down(m.pressed_keys, m.regs[x as int])),
        Opcode::SkipNoKey { x } => m.skip_if(!key_down(m.pressed_keys, m.regs[x as int])),
        Opcode::GetDelay { x } => m.set_reg(x as int, m.delay_timer),
        Opcode::WaitKey { x } => wait_key(m, x),
        Opcode::SetDelay { x } => Machine { delay_timer: m.regs[x as int], ..m },
        Opcode::SetSound { x } => Machine { sound_timer: m.regs[x as int], ..m },
        Opcode::AddIndex { x } => Machine { idx: wrap16(m.idx + m.regs[x as int]), ..m },
        Opcode::FontAddr { x } => Machine { idx: (5 * (m.regs[x as int] % 16)) as u16, ..m },
        Opcode::Bcd { x } => store_decimal(m, x),
        Opcode::Store { x } => Machine { memory: store_regs(m, x), ..m },
        Opcode::Load { x } => Machine { regs: load_regs(m, x), ..m },
        Opcode::Invalid { .. } => m,
    }
}

/// Only `CXNN` looks at the random byte: for any other instruction it may as
/// well be 0.
pub proof fn lemma_execute_ignores_random(m: Machine, op: Opcode, random: u8)
    requires
        !(op is Random),
    ensures
        execute(m, op, random) == execute(m, op, 0),
{
    reveal(execute);
}

/// The state after one cycle: fetch, move the program counter past the
/// instruction, then execute it.
pub open spec fn step(m: Machine, random: u8) -> Machine {
    execute(Machine { pc: wrap16(m.pc + 2), ..m }, decode(fetch(m)), random)
}

/// The diagnostic that one cycle reports: one for an instruction word that
/// matches no pattern, none otherwise.
pub open spec fn step_fault(m: Machine) -> Option<InvalidInstruction> {
    if decode(fetch(m)) is Invalid {
        Some(InvalidInstruction { pc: wrap16(m.pc + 2), instruction: fetch(m) })
    } else {
        None
    }
}

/// The state after one cycle for each byte of `randoms`, in order; cycle `k`
/// draws `randoms[k]` if it needs a random byte.
pub open spec fn run(m: Machine, randoms: Seq<u8>) -> Machine
    decreases randoms.len(),
{
    if randoms.len() == 0 {
        m
    } else {
        step(run(m, randoms.drop_last()), randoms.last())
    }
}

/// The diagnostics that the cycles of `run(m, randoms)` report, in order.
pub open spec fn run_faults(m: Machine, randoms: Seq<u8>) -> Seq<InvalidInstruction>
    decreases randoms.len(),
{
    if randoms.len() == 0 {
        Seq::empty()
    } else {
        let earlier = run_faults(m, randoms.drop_last());
        match step_fault(run(m, randoms.drop_last())) {
            Some(fault) => earlier.push(fault),
            None => earlier,
        }
    }
}

/// A timer one tick later: one less, and 0 stays 0.
pub open spec fn countdown(timer: u8) -> u8 {
    if timer > 0 {
        (timer - 1) as u8
    } else {
        0
    }
}

/// The state after both timers count down once.
pub open spec fn tick_timers(m: Machine) -> Machine {
    Machine {
        delay_timer: countdown(m.delay_timer),
        sound_timer: countdown(m.sound_timer),
        ..m
    }
}

/// The state after one tick: the cycles of `run(m, randoms)`, then one
/// countdown of both timers.
pub open spec fn tick(m: Machine, randoms: Seq<u8>) -> Machine {
    tick_timers(run(m, randoms))
}

/// What a driver supplies for one tick: the key snapshot that it sets before
/// the tick, and one random byte for each cycle of the tick.
pub struct TickInput {
    /// The key snapshot during the tick.
    pub keys: u16,
    /// One byte per cycle; the tick has `randoms.len()` cycles.
    pub randoms: Seq<u8>,
}

/// The state after a driver's ticks: for each input in order, the key
/// snapshot is replaced and one tick runs.
pub open spec fn ticks(m: Machine, inputs: Seq<TickInput>) -> Machine
    decreases inputs.len(),
{
    if inputs.len() == 0 {
        m
    } else {
        tick(
            Machine { pressed_keys: inputs.last().keys, ..ticks(m, inputs.drop_last()) },
            inputs.last().randoms,
        )
    }
}

} // verus!
