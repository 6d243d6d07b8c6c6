//! The interpreter: the machine state as it is stored, and the operations
//! that a driver calls on it.

use vstd::prelude::*;
use vstd::std_specs::bits::axiom_u16_trailing_zeros;
use crate::font::FONT;
use crate::laws::law_step_ignores_random;
use crate::machine::{
    addr, key_down, pixel, InvalidInstruction, Machine, PROGRAM_START, STACK_START,
};
use crate::opcode::{decode, lemma_decode_wf, Opcode};
use crate::semantics::{
    boot, countdown, execute, fetch, lemma_execute_ignores_random, load_regs, run, run_faults, step,
    step_fault, store_regs, tick,
};
use crate::sprite::{collides, draw, row_collides, row_drawn, row_mask, sprite_at_idx};

verus! {

/// The whole state of one machine.
#[derive(Debug)]
pub struct ComputerState {
    memory: [u8; 4096],
    display: [u64; 32],
    pc: u16,
    idx: u16,
    sp: u16,
    delay_timer: u8,
    sound_timer: u8,
    regs: [u8; 16],
    pressed_keys: u16,
}

impl View for ComputerState {
    type V = Machine;

    closed spec fn view(&self) -> Machine {
        Machine {
            memory: self.memory@,
            display: self.display@,
            pc: self.pc,
            idx: self.idx,
            sp: self.sp,
            delay_timer: self.delay_timer,
            sound_timer: self.sound_timer,
            regs: self.regs@,
            pressed_keys: self.pressed_keys,
        }
    }
}

/// One byte from the thread-local generator of the `fastrand` crate: a call
/// of `fastrand::u8` on the full range. Nothing is claimed of the byte.
#[verifier::external_body]
fn random_byte() -> (byte: u8) {
    fastrand::u8(..)
}

impl ComputerState {
    /// The model of every state is well formed.
    pub proof fn lemma_view_wf(self)
        ensures
            self@.wf(),
    {
    }

    /// A machine with the font at address 0, `memory` loaded at address 512,
    /// and everything else zero except the program counter (512) and the
    /// stack pointer (3840). Program bytes that would lie past the last
    /// memory cell are left out.
    pub fn new(memory: &[u8]) -> (state: Box<Self>)
        ensures
            state@ == boot(memory@),
    {
        let mut cells: [u8; 4096] = [0; 4096];
        let mut i: usize = 0;
        while i < 80
            invariant
                i <= 80,
                forall|a: int| 0 <= a < i ==> cells@[a] == FONT@[a],
                forall|a: int| i <= a < 4096 ==> cells@[a] == 0,
            decreases 80 - i,
        {
            cells[i] = FONT[i];
            i += 1;
        }
        let mut i: usize = 0;
        while i < memory.len() && i < 3584
            invariant
                i <= 3584,
                i <= memory.len(),
                forall|a: int| 0 <= a < 80 ==> cells@[a] == FONT@[a],
                forall|a: int| 80 <= a < 512 ==> cells@[a] == 0,
                forall|a: int| 512 <= a < 512 + i ==> cells@[a] == memory@[a - 512],
                forall|a: int| 512 + i <= a < 4096 ==> cells@[a] == 0,
            decreases 3584 - i,
        {
            cells[512 + i] = memory[i];
            i += 1;
        }
        let state = ComputerState {
            memory: cells,
            display: [0; 32],
            pc: PROGRAM_START,
            idx: 0,
            sp: STACK_START,
            delay_timer: 0,
            sound_timer: 0,
            regs: [0; 16],
            pressed_keys: 0,
        };
        assert(state.memory@ =~= boot(memory@).memory);
        assert(state.display@ =~= boot(memory@).display);
        assert(state.regs@ =~= boot(memory@).regs);
        Box::new(state)
    }

    /// Whether the sound timer is running.
    pub fn is_beeping(&self) -> (beeping: bool)
        ensures
            beeping == (self@.sound_timer > 0),
    {
        self.sound_timer > 0
    }

    /// Replaces the snapshot of the keys that are held down: bit `k` of
    /// `keys` stands for key `k`.
    pub fn set_pressed_keys(&mut self, keys: u16)
        ensures
            final(self)@ == (Machine { pressed_keys: keys, ..old(self)@ }),
    {
        self.pressed_keys = keys;
    }

    /// The program counter.
    pub fn pc(&self) -> (pc: u16)
        ensures
            pc == self@.pc,
    {
        self.pc
    }

    /// The index register.
    pub fn idx(&self) -> (idx: u16)
        ensures
            idx == self@.idx,
    {
        self.idx
    }

    /// The stack pointer.
    pub fn sp(&self) -> (sp: u16)
        ensures
            sp == self@.sp,
    {
        self.sp
    }

    /// The delay timer.
    pub fn delay_timer(&self) -> (timer: u8)
        ensures
            timer == self@.delay_timer,
    {
        self.delay_timer
    }

    /// The sound timer.
    pub fn sound_timer(&self) -> (timer: u8)
        ensures
            timer == self@.sound_timer,
    {
        self.sound_timer
    }

    /// The snapshot of the keys that are held down.
    pub fn pressed_keys(&self) -> (keys: u16)
        ensures
            keys == self@.pressed_keys,
    {
        self.pressed_keys
    }

    /// The 16 general-purpose registers.
    pub fn registers(&self) -> (regs: &[u8; 16])
        ensures
            regs@ == self@.regs,
    {
        &self.regs
    }

    /// The 4096 memory cells.
    pub fn memory(&self) -> (memory: &[u8; 4096])
        ensures
            memory@ == self@.memory,
    {
        &self.memory
    }

    /// The 32 display rows; bit `63 - x` of row `y` is the pixel `(x, y)`.
    pub fn display(&self) -> (display: &[u64; 32])
        ensures
            display@ == self@.display,
    {
        &self.display
    }

    /// Whether the pixel at column `x`, row `y` is lit. No pixel outside the
    /// 64 columns and 32 rows is.
    pub fn pixel(&self, x: usize, y: usize) -> (lit: bool)
        ensures
            lit == pixel(self@.display, x as int, y as int),
    {
        x < 64 && y < 32 && (self.display[y] >> ((63 - x) as u64)) & 1 == 1
    }

    /// The memory cell that `address` designates.
    fn read(&self, address: usize) -> (value: u8)
        ensures
            value == self@.read(address as int),
    {
        self.memory[address % 4096]
    }

    /// Writes `value` to the memory cell that `address` designates.
    fn write(&mut self, address: usize, value: u8)
        ensures
            final(self)@ == old(self)@.write(address as int, value),
    {
        self.memory[address % 4096] = value;
    }

    /// The instruction word at the program counter.
    fn fetch(&self) -> (instruction: u16)
        ensures
            instruction == fetch(self@),
    {
        let high = self.read(self.pc as usize);
        let low = self.read(self.pc as usize + 1);
        assert(((high as u16) << 8) | (low as u16) == 256 * high + low) by (bit_vector);
        ((high as u16) << 8) | (low as u16)
    }

    /// Moves the program counter past one more instruction if `cond` holds.
    fn skip_if(&mut self, cond: bool)
        ensures
            final(self)@ == old(self)@.skip_if(cond),
    {
        if cond {
            self.pc = self.pc.wrapping_add(2);
        }
    }

    /// Whether key `key` is held down in the current snapshot.
    fn key_is_down(&self, key: u8) -> (down: bool)
        ensures
            down == key_down(self@.pressed_keys, key),
    {
        key < 16 && (self.pressed_keys >> (key as u16)) & 1 == 1
    }

    /// The instructions that only move the program counter or the stack.
    fn execute_flow(&mut self, op: Opcode)
        requires
            op.wf(),
            op.is_flow(),
        ensures
            final(self)@ == execute(old(self)@, op, 0),
    {
        reveal(execute);
        match op {
            Opcode::Return => {
                let high = self.read(self.sp as usize);
                let low = self.read(self.sp as usize + 1);
                assert(((high as u16) << 8) | (low as u16) == 256 * high + low) by (bit_vector);
                self.pc = ((high as u16) << 8) | (low as u16);
                self.sp = self.sp.wrapping_add(2);
            },
            Opcode::Jump { nnn } => {
                self.pc = nnn;
            },
            Opcode::Call { nnn } => {
                let pc = self.pc;
                assert(pc >> 8 == pc / 256 && pc & 0xFF == pc % 256) by (bit_vector);
                self.sp = self.sp.wrapping_sub(2);
                self.write(self.sp as usize, (pc >> 8) as u8);
                self.write(self.sp as usize + 1, (pc & 0xFF) as u8);
                self.pc = nnn;
            },
            Opcode::SkipEqImm { x, nn } => self.skip_if(self.regs[x as usize] == nn),
            Opcode::SkipNeImm { x, nn } => self.skip_if(self.regs[x as usize] != nn),
            Opcode::SkipEqReg { x, y } => self.skip_if(
                self.regs[x as usize] == self.regs[y as usize],
            ),
            Opcode::SkipNeReg { x, y } => self.skip_if(
                self.regs[x as usize] != self.regs[y as usize],
            ),
            Opcode::JumpOffset { nnn } => {
                self.pc = self.regs[0] as u16 + nnn;
            },
            Opcode::SkipKey { x } => self.skip_if(self.key_is_down(self.regs[x as usize])),
            Opcode::SkipNoKey { x } => self.skip_if(!self.key_is_down(self.regs[x as usize])),
            _ => {},
        }
    }

    /// The instructions that compute one register from registers, an
    /// immediate, the delay timer or the random byte.
    fn execute_register(&mut self, op: Opcode, random: u8)
        requires
            op.wf(),
            op.is_register(),
        ensures
            final(self)@ == execute(old(self)@, op, random),
    {
        reveal(execute);
        match op {
            Opcode::LoadImm { x, nn } => {
                self.regs[x as usize] = nn;
            },
            Opcode::AddImm { x, nn } => {
                self.regs[x as usize] = self.regs[x as usize].wrapping_add(nn);
            },
            Opcode::Move { x, y } => {
                self.regs[x as usize] = self.regs[y as usize];
            },
            Opcode::Or { x, y } => {
                self.regs[x as usize] = self.regs[x as usize] | self.regs[y as usize];
            },
            Opcode::And { x, y } => {
                self.regs[x as usize] = self.regs[x as usize] & self.regs[y as usize];
            },
            Opcode::Xor { x, y } => {
                self.regs[x as usize] = self.regs[x as usize] ^ self.regs[y as usize];
            },
            Opcode::Random { x, nn } => {
                self.regs[x as usize] = random & nn;
            },
            Opcode::GetDelay { x } => {
                self.regs[x as usize] = self.delay_timer;
            },
            _ => {},
        }
    }

    /// `FX0A`: stores the lowest key that is held down, or steps back onto
    /// the instruction if none is.
    fn wait_for_key(&mut self, x: u8)
        requires
            x < 16,
        ensures
            final(self)@ == execute(old(self)@, Opcode::WaitKey { x }, 0),
    {
        reveal(execute);
        if self.pressed_keys == 0 {
            self.pc = self.pc.wrapping_sub(2);
        } else {
            proof {
                axiom_u16_trailing_zeros(self.pressed_keys);
            }
            self.regs[x as usize] = self.pressed_keys.trailing_zeros() as u8;
        }
    }

    /// Writes `value` to register `x`, then `flag` to the flag register.
    fn set_with_flag(&mut self, x: u8, value: u8, flag: u8)
        requires
            x < 16,
        ensures
            final(self)@ == old(self)@.set_reg(x as int, value).set_flag(flag),
    {
        self.regs[x as usize] = value;
        self.regs[15] = flag;
    }

    /// The `8XY_` instructions that set the flag.
    fn execute_flagged(&mut self, op: Opcode)
        requires
            op.wf(),
            op.is_flagged(),
        ensures
            final(self)@ == execute(old(self)@, op, 0),
    {
        reveal(execute);
        match op {
            Opcode::AddReg { x, y } => {
                let a = self.regs[x as usize];
                let b = self.regs[y as usize];
                let carry: u8 = if a as u16 + b as u16 > 255 {
                    1
                } else {
                    0
                };
                self.set_with_flag(x, a.wrapping_add(b), carry);
            },
            Opcode::SubReg { x, y } => {
                let a = self.regs[x as usize];
                let b = self.regs[y as usize];
                let no_borrow: u8 = if a < b {
                    0
                } else {
                    1
                };
                self.set_with_flag(x, a.wrapping_sub(b), no_borrow);
            },
            Opcode::ShiftRight { x } => {
                let a = self.regs[x as usize];
                assert(a & 1 == a % 2 && a >> 1 == a / 2) by (bit_vector);
                self.set_with_flag(x, a >> 1, a & 1);
            },
            Opcode::SubFrom { x, y } => {
                let a = self.regs[x as usize];
                let b = self.regs[y as usize];
                let no_borrow: u8 = if b < a {
                    0
                } else {
                    1
                };
                self.set_with_flag(x, b.wrapping_sub(a), no_borrow);
            },
            Opcode::ShiftLeft { x } => {
                let a = self.regs[x as usize];
                assert((a >> 7) & 1 == a / 128 && a << 1 == (2 * a) % 256) by (bit_vector);
                self.set_with_flag(x, a << 1, (a >> 7) & 1);
            },
            _ => {},
        }
    }

    /// The instructions that set the index register or a timer.
    fn execute_special(&mut self, op: Opcode)
        requires
            op.wf(),
            op.is_special(),
        ensures
            final(self)@ == execute(old(self)@, op, 0),
    {
        reveal(execute);
        match op {
            Opcode::LoadIndex { nnn } => {
                self.idx = nnn;
            },
            Opcode::SetDelay { x } => {
                self.delay_timer = self.regs[x as usize];
            },
            Opcode::SetSound { x } => {
                self.sound_timer = self.regs[x as usize];
            },
            Opcode::AddIndex { x } => {
                self.idx = self.idx.wrapping_add(self.regs[x as usize] as u16);
            },
            Opcode::FontAddr { x } => {
                let value = self.regs[x as usize];
                assert(value & 0xF == value % 16) by (bit_vector);
                self.idx = 5 * (value & 0xF) as u16;
            },
            _ => {},
        }
    }

    /// `00E0`: clears the display.
    fn clear_screen(&mut self)
        ensures
            final(self)@ == execute(old(self)@, Opcode::ClearScreen, 0),
    {
        reveal(execute);
        self.display = [0; 32];
        assert(self.display@ =~= Seq::new(32, |y: int| 0u64));
    }

    /// `DXYN`: draws the sprite at `idx` and sets the flag on a collision.
    fn draw_sprite(&mut self, x: u8, y: u8, n: u8)
        requires
            x < 16,
            y < 16,
            n < 16,
        ensures
            final(self)@ == execute(old(self)@, Opcode::Draw { x, y, n }, 0),
    {
        reveal(execute);
        let ghost before = self@;
        let ghost sprite = sprite_at_idx(before, n);
        let ghost shown = before.display;
        let x0: u8 = self.regs[x as usize] % 64;
        let y0: u8 = self.regs[y as usize] % 32;
        let end: u8 = if y0 + n < 32 {
            y0 + n
        } else {
            32
        };
        self.regs[15] = 0;
        let mut row: u8 = y0;
        while row < end
            invariant
                y0 <= row <= end <= 32,
                x0 < 64,
                n < 16,
                end == y0 + n || (end == 32 && y0 + n >= 32),
                self@ == (Machine { display: self.display@, regs: self.regs@, ..before }),
                before.wf(),
                sprite == sprite_at_idx(before, n),
                shown == before.display,
                forall|r: int|
                    0 <= r < 32 ==> self.display@[r] == if y0 <= r < row {
                        shown[r] ^ row_mask(sprite, x0, y0, r)
                    } else {
                        shown[r]
                    },
                forall|i: int| 0 <= i < 15 ==> self.regs@[i] == before.regs[i],
                self.regs@[15] == 0 || self.regs@[15] == 1,
                self.regs@[15] == 1 <==> exists|r: int|
                    y0 <= r < row && #[trigger] row_collides(shown, sprite, x0, y0, r),
            decreases end - row,
        {
            let sprite_row = self.read(self.idx as usize + (row - y0) as usize);
            let mask = ((sprite_row as u64) << 56) >> (x0 as u64);
            assert(mask == row_mask(sprite, x0, y0, row as int));
            if self.display[row as usize] & mask != 0 {
                self.regs[15] = 1;
                assert(row_collides(shown, sprite, x0, y0, row as int));
            }
            self.display[row as usize] = self.display[row as usize] ^ mask;
            row += 1;
        }
        proof {
            let after = draw(before, x, y, n);
            assert(self.display@ =~= after.display);
            assert(collides(shown, sprite, x0, y0) <==> exists|r: int|
                y0 <= r < end && #[trigger] row_collides(shown, sprite, x0, y0, r)) by {
                if collides(shown, sprite, x0, y0) {
                    let r = choose|r: int|
                        row_drawn(y0 as int, n as int, r) && #[trigger] row_collides(
                            shown,
                            sprite,
                            x0,
                            y0,
                            r,
                        );
                    assert(y0 <= r < end && row_collides(shown, sprite, x0, y0, r));
                }
                if exists|r: int|
                    y0 <= r < end && #[trigger] row_collides(shown, sprite, x0, y0, r) {
                    let r = choose|r: int|
                        y0 <= r < end && #[trigger] row_collides(shown, sprite, x0, y0, r);
                    assert(row_drawn(y0 as int, n as int, r) && row_collides(
                        shown,
                        sprite,
                        x0,
                        y0,
                        r,
                    ));
                }
            }
            assert(self.regs@ =~= after.regs);
        }
    }

    /// `FX33`: stores the decimal digits of `regs[x]`.
    fn store_decimal(&mut self, x: u8)
        requires
            x < 16,
        ensures
            final(self)@ == execute(old(self)@, Opcode::Bcd { x }, 0),
    {
        reveal(execute);
        let value = self.regs[x as usize];
        self.write(self.idx as usize, value / 100);
        self.write(self.idx as usize + 1, (value % 100) / 10);
        self.write(self.idx as usize + 2, value % 10);
    }

    /// `FX55`: stores registers 0 to `x` from address `idx` on.
    fn store_registers(&mut self, x: u8)
        requires
            x < 16,
        ensures
            final(self)@ == execute(old(self)@, Opcode::Store { x }, 0),
    {
        reveal(execute);
        let ghost before = self@;
        let mut i: usize = 0;
        while i <= x as usize
            invariant
                i <= x + 1,
                x < 16,
                before.wf(),
                self@ == (Machine { memory: self.memory@, ..before }),
                forall|a: int|
                    0 <= a < 4096 ==> self.memory@[a] == if addr(a - before.idx) < i {
                        before.regs[addr(a - before.idx)]
                    } else {
                        before.memory[a]
                    },
            decreases x + 1 - i,
        {
            let value = self.regs[i];
            self.write(self.idx as usize + i, value);
            i += 1;
        }
        assert(self.memory@ =~= store_regs(before, x));
    }

    /// `FX65`: loads registers 0 to `x` from address `idx` on.
    fn load_registers(&mut self, x: u8)
        requires
            x < 16,
        ensures
            final(self)@ == execute(old(self)@, Opcode::Load { x }, 0),
    {
        reveal(execute);
        let ghost before = self@;
        let mut i: usize = 0;
        while i <= x as usize
            invariant
                i <= x + 1,
                x < 16,
                before.wf(),
                self@ == (Machine { regs: self.regs@, ..before }),
                forall|k: int|
                    0 <= k < 16 ==> self.regs@[k] == if k < i {
                        before.read(before.idx + k)
                    } else {
                        before.regs[k]
                    },
            decreases x + 1 - i,
        {
            self.regs[i] = self.read(self.idx as usize + i);
            i += 1;
        }
        assert(self.regs@ =~= load_regs(before, x));
    }

    /// Executes one decoded instruction. The program counter is already past
    /// it. `random` is the byte that `CXNN` uses.
    fn execute(&mut self, op: Opcode, random: u8)
        requires
            op.wf(),
        ensures
            final(self)@ == execute(old(self)@, op, random),
    {
        proof {
            if !(op is Random) {
                lemma_execute_ignores_random(self@, op, random);
            }
        }
        match op {
            Opcode::ClearScreen => self.clear_screen(),
            Opcode::Draw { x, y, n } => self.draw_sprite(x, y, n),
            Opcode::Bcd { x } => self.store_decimal(x),
            Opcode::Store { x } => self.store_registers(x),
            Opcode::Load { x } => self.load_registers(x),
            Opcode::WaitKey { x } => self.wait_for_key(x),
            Opcode::AddReg { .. }
            | Opcode::SubReg { .. }
            | Opcode::ShiftRight { .. }
            | Opcode::SubFrom { .. }
            | Opcode::ShiftLeft { .. } => self.execute_flagged(op),
            Opcode::LoadImm { .. }
            | Opcode::AddImm { .. }
            | Opcode::Move { .. }
            | Opcode::Or { .. }
            | Opcode::And { .. }
            | Opcode::Xor { .. }
            | Opcode::Random { .. }
            | Opcode::GetDelay { .. } => self.execute_register(op, random),
            Opcode::LoadIndex { .. }
            | Opcode::SetDelay { .. }
            | Opcode::SetSound { .. }
            | Opcode::AddIndex { .. }
            | Opcode::FontAddr { .. } => self.execute_special(op),
            Opcode::Return
            | Opcode::MachineRoutine { .. }
            | Opcode::Jump { .. }
            | Opcode::Call { .. }
            | Opcode::SkipEqImm { .. }
            | Opcode::SkipNeImm { .. }
            | Opcode::SkipEqReg { .. }
            | Opcode::SkipNeReg { .. }
            | Opcode::JumpOffset { .. }
            | Opcode::SkipKey { .. }
            | Opcode::SkipNoKey { .. }
            | Opcode::Invalid { .. } => self.execute_flow(op),
        }
    }

    /// Runs the instruction word `instruction`, which was fetched from the
    /// program counter and decodes to `op`.
    fn run_instruction(&mut self, instruction: u16, op: Opcode, random: u8) -> (fault: Option<
        InvalidInstruction,
    >)
        requires
            instruction == fetch(old(self)@),
            op == decode(instruction),
        ensures
            final(self)@ == step(old(self)@, random),
            fault == step_fault(old(self)@),
    {
        proof {
            lemma_decode_wf(instruction);
        }
        self.pc = self.pc.wrapping_add(2);
        let pc = self.pc;
        self.execute(op, random);
        match op {
            Opcode::Invalid { .. } => Some(InvalidInstruction { pc, instruction }),
            _ => None,
        }
    }

    /// One cycle with a given random byte: fetches the instruction at the
    /// program counter, moves the program counter past it, and executes it
    /// as `semantics::execute` says. `random` is the byte that `CXNN` uses;
    /// no other instruction looks at it. Returns the diagnostic for an
    /// instruction word that matches no pattern; such an instruction changes
    /// nothing but the program counter.
    pub fn cpu_cycle_with(&mut self, random: u8) -> (fault: Option<InvalidInstruction>)
        ensures
            final(self)@ == step(old(self)@, random),
            fault == step_fault(old(self)@),
    {
        let instruction = self.fetch();
        let op = decode(instruction);
        self.run_instruction(instruction, op, random)
    }

    /// One cycle. `CXNN` draws its byte from the random generator; on every
    /// other instruction the cycle is `cpu_cycle_with` for any byte.
    pub fn cpu_cycle(&mut self) -> (fault: Option<InvalidInstruction>)
        ensures
            exists|random: u8| final(self)@ == #[trigger] step(old(self)@, random),
            forall|random: u8|
                !(decode(fetch(old(self)@)) is Random) ==> final(self)@ == #[trigger] step(
                    old(self)@,
                    random,
                ),
            fault == step_fault(old(self)@),
    {
        let instruction = self.fetch();
        let op = decode(instruction);
        let random = match op {
            Opcode::Random { .. } => random_byte(),
            _ => 0,
        };
        proof {
            assert forall|other: u8| !(op is Random) implies step(self@, random) == #[trigger] step(
                self@,
                other,
            ) by {
                law_step_ignores_random(self@, random, other);
            }
        }
        self.run_instruction(instruction, op, random)
    }

    /// One tick: `cpu_cycles` cycles in order, then one countdown of both
    /// timers, however many cycles there were. Returns the diagnostics of the
    /// cycles, in order. Each `CXNN` draws its byte from the random
    /// generator, so the tick is `advance_tick_with` for some `cpu_cycles`
    /// bytes.
    pub fn advance_tick(&mut self, cpu_cycles: u32) -> (faults: Vec<InvalidInstruction>)
        ensures
            exists|randoms: Seq<u8>|
                #![trigger tick(old(self)@, randoms)]
                randoms.len() == cpu_cycles && final(self)@ == tick(old(self)@, randoms)
                    && faults@ == run_faults(old(self)@, randoms),
    {
        let ghost before = self@;
        let ghost mut randoms: Seq<u8> = Seq::empty();
        let mut faults: Vec<InvalidInstruction> = Vec::new();
        let mut cycle: u32 = 0;
        while cycle < cpu_cycles
            invariant
                cycle <= cpu_cycles,
                randoms.len() == cycle,
                self@ == run(before, randoms),
                faults@ == run_faults(before, randoms),
            decreases cpu_cycles - cycle,
        {
            let ghost current = self@;
            let fault = self.cpu_cycle();
            proof {
                let random = choose|random: u8| self@ == #[trigger] step(current, random);
                let longer = randoms.push(random);
                assert(longer.drop_last() =~= randoms);
                randoms = longer;
            }
            match fault {
                Some(fault) => {
                    faults.push(fault);
                },
                None => {},
            }
            cycle += 1;
        }
        self.delay_timer_cycle();
        self.sound_timer_cycle();
        assert(self@ == tick(before, randoms));
        faults
    }

    /// One tick with given random bytes: one cycle for each byte of
    /// `randoms`, in order, then one countdown of both timers. Cycle `k` has
    /// `randoms[k]` for its `CXNN`. Returns the diagnostics of the cycles, in
    /// order.
    pub fn advance_tick_with(&mut self, randoms: &[u8]) -> (faults: Vec<InvalidInstruction>)
        ensures
            final(self)@ == tick(old(self)@, randoms@),
            faults@ == run_faults(old(self)@, randoms@),
    {
        let ghost before = self@;
        let mut faults: Vec<InvalidInstruction> = Vec::new();
        let mut cycle: usize = 0;
        while cycle < randoms.len()
            invariant
                cycle <= randoms.len(),
                self@ == run(before, randoms@.take(cycle as int)),
                faults@ == run_faults(before, randoms@.take(cycle as int)),
            decreases randoms.len() - cycle,
        {
            let fault = self.cpu_cycle_with(randoms[cycle]);
            proof {
                let longer = randoms@.take(cycle + 1);
                assert(longer.drop_last() =~= randoms@.take(cycle as int));
            }
            match fault {
                Some(fault) => {
                    faults.push(fault);
                },
                None => {},
            }
            cycle += 1;
        }
        assert(randoms@.take(cycle as int) =~= randoms@);
        self.delay_timer_cycle();
        self.sound_timer_cycle();
        assert(self@ == tick(before, randoms@));
        faults
    }

    /// Counts the delay timer down by one; at 0 it stays.
    pub fn delay_timer_cycle(&mut self)
        ensures
            final(self)@ == (Machine {
                delay_timer: countdown(old(self)@.delay_timer),
                ..old(self)@
            }),
    {
        self.delay_timer = self.delay_timer.saturating_sub(1);
    }

    /// Counts the sound timer down by one; at 0 it stays.
    pub fn sound_timer_cycle(&mut self)
        ensures
            final(self)@ == (Machine {
                sound_timer: countdown(old(self)@.sound_timer),
                ..old(self)@
            }),
    {
        self.sound_timer = self.sound_timer.saturating_sub(1);
    }
}

} // verus!
