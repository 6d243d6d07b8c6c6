//! Laws of the instruction set: what holds of every state, stated over the
//! model and proved from the definitions of `step`, `run` and `ticks`.

use vstd::prelude::*;
use vstd::std_specs::bits::{axiom_u16_trailing_zeros, axiom_u64_trailing_zeros};
use crate::font::{glyph_address, FONT};
use crate::machine::{addr, key_down, pixel, wrap16, Machine};
use crate::opcode::{decode, low_byte, low_twelve, nibble, Opcode};
use crate::semantics::{
    boot, execute, fetch, lemma_execute_ignores_random, pop_return, push_call, run, run_faults,
    step, ticks, TickInput,
};
use crate::sprite::{
    blit, collides, draw, lights, row_collides, row_drawn, row_lights, row_mask, sprite_at_idx,
    sprite_mask, sprite_pixel,
};

verus! {

/// A cycle, and so a run and a tick, keeps the sizes of memory, display and
/// register file.
pub proof fn law_step_wf(m: Machine, random: u8)
    requires
        m.wf(),
    ensures
        step(m, random).wf(),
{
    reveal(execute);
}

/// A run keeps the sizes of memory, display and register file.
pub proof fn law_run_wf(m: Machine, randoms: Seq<u8>)
    requires
        m.wf(),
    ensures
        run(m, randoms).wf(),
    decreases randoms.len(),
{
    if randoms.len() > 0 {
        law_run_wf(m, randoms.drop_last());
        law_step_wf(run(m, randoms.drop_last()), randoms.last());
    }
}

/// Only `CXNN` looks at the random byte: any other instruction has the same
/// effect whatever the byte is.
pub proof fn law_step_ignores_random(m: Machine, random: u8, other: u8)
    requires
        !(decode(fetch(m)) is Random),
    ensures
        step(m, random) == step(m, other),
{
    let fetched = Machine { pc: wrap16(m.pc + 2), ..m };
    lemma_execute_ignores_random(fetched, decode(fetch(m)), random);
    lemma_execute_ignores_random(fetched, decode(fetch(m)), other);
}

/// Whether no cycle of `run(m, randoms)` executes `CXNN`.
pub open spec fn random_free(m: Machine, randoms: Seq<u8>) -> bool {
    forall|k: int|
        0 <= k < randoms.len() ==> !(decode(fetch(#[trigger] run(m, randoms.take(k))))
            is Random)
}

/// A run in which no cycle executes `CXNN` does not depend on the random
/// bytes: any other bytes give the same state and the same diagnostics.
pub proof fn law_run_ignores_random(m: Machine, randoms: Seq<u8>, others: Seq<u8>)
    requires
        randoms.len() == others.len(),
        random_free(m, randoms),
    ensures
        run(m, randoms) == run(m, others),
        run_faults(m, randoms) == run_faults(m, others),
    decreases randoms.len(),
{
    if randoms.len() > 0 {
        let earlier = randoms.drop_last();
        assert forall|k: int| 0 <= k < earlier.len() implies !(decode(
            fetch(#[trigger] run(m, earlier.take(k))),
        ) is Random) by {
            assert(earlier.take(k) =~= randoms.take(k));
        }
        law_run_ignores_random(m, earlier, others.drop_last());
        assert(randoms.take(randoms.len() - 1) =~= earlier);
        law_step_ignores_random(run(m, earlier), randoms.last(), others.last());
    }
}

/// `1NNN` sets the program counter to `NNN`.
pub proof fn law_jump(m: Machine, nnn: u16, random: u8)
    requires
        m.wf(),
        nnn < 4096,
        fetch(m) == 0x1000 + nnn,
    ensures
        step(m, random).pc == nnn,
{
    assert(decode(fetch(m)) == Opcode::Jump { nnn });
    reveal(execute);
}

/// `6XNN` sets register `X` to `NN` and moves on to the next instruction.
pub proof fn law_load_immediate(m: Machine, x: u8, nn: u8, random: u8)
    requires
        m.wf(),
        x < 16,
        fetch(m) == 0x6000 + 256 * x + nn,
    ensures
        step(m, random).regs[x as int] == nn,
        step(m, random).pc == wrap16(m.pc + 2),
{
    lemma_word_fields(6, x, nn / 16, nn % 16);
    assert(decode(fetch(m)) == Opcode::LoadImm { x, nn });
    reveal(execute);
}

/// `7XNN` adds `NN` to register `X` modulo 256 and leaves every other
/// register as it is, the flag among them.
pub proof fn law_add_immediate(m: Machine, x: u8, nn: u8, random: u8)
    requires
        m.wf(),
        x < 16,
        fetch(m) == 0x7000 + 256 * x + nn,
    ensures
        step(m, random).regs[x as int] == (m.regs[x as int] + nn) % 256,
        forall|i: int|
            0 <= i < 16 && i != x ==> #[trigger] step(m, random).regs[i] == m.regs[i],
{
    lemma_word_fields(7, x, nn / 16, nn % 16);
    assert(decode(fetch(m)) == Opcode::AddImm { x, nn });
    reveal(execute);
}

/// `8XY4` adds register `Y` to register `X`; the flag is the carry, so that
/// register and flag together hold the whole sum.
pub proof fn law_add_registers(m: Machine, x: u8, y: u8, random: u8)
    requires
        m.wf(),
        x < 15,
        y < 16,
        fetch(m) == 0x8004 + 256 * x + 16 * y,
    ensures
        step(m, random).regs[15] <= 1,
        step(m, random).regs[x as int] + 256 * step(m, random).regs[15] == m.regs[x as int]
            + m.regs[y as int],
{
    lemma_word_fields(8, x, y, 4);
    assert(decode(fetch(m)) == Opcode::AddReg { x, y });
    reveal(execute);
}

/// `8XY5` subtracts register `Y` from register `X`; the flag is 0 if that
/// takes a borrow and 1 if not, so that register and flag together hold the
/// whole difference.
pub proof fn law_subtract_registers(m: Machine, x: u8, y: u8, random: u8)
    requires
        m.wf(),
        x < 15,
        y < 16,
        fetch(m) == 0x8005 + 256 * x + 16 * y,
    ensures
        step(m, random).regs[15] == if m.regs[x as int] < m.regs[y as int] {
            0u8
        } else {
            1u8
        },
        step(m, random).regs[x as int] - 256 * (1 - step(m, random).regs[15])
            == m.regs[x as int] - m.regs[y as int],
{
    lemma_word_fields(8, x, y, 5);
    assert(decode(fetch(m)) == Opcode::SubReg { x, y });
    reveal(execute);
}

/// `00E0` sets every display row to 0, so that no pixel is lit.
pub proof fn law_clear_screen(m: Machine, random: u8)
    requires
        m.wf(),
        fetch(m) == 0x00E0,
    ensures
        forall|y: int| 0 <= y < 32 ==> #[trigger] step(m, random).display[y] == 0,
        forall|x: int, y: int| !pixel(step(m, random).display, x, y),
{
    assert(decode(fetch(m)) == Opcode::ClearScreen);
    reveal(execute);
    assert(forall|k: u64| k < 64 ==> #[trigger] (0u64 >> k) & 1 == 0) by (bit_vector);
}

/// A return pops what a call pushed, wherever the program counter went in
/// between.
pub proof fn law_pop_after_push(m: Machine, nnn: u16, pc: u16)
    requires
        m.wf(),
    ensures
        pop_return(Machine { pc, ..push_call(m, nnn) }).pc == m.pc,
        pop_return(Machine { pc, ..push_call(m, nnn) }).sp == m.sp,
{
    let sp = wrap16(m.sp - 2);
    let called = Machine { pc, ..push_call(m, nnn) };
    assert(called.sp == sp);
    assert(addr(sp as int) != addr(sp + 1));
    assert(called.read(sp as int) == (m.pc / 256) as u8);
    assert(called.read(sp + 1) == (m.pc % 256) as u8);
}

/// A call followed by a return comes back: if `2NNN` is executed and the
/// instruction then found at `NNN` is `00EE`, executing it sets the program
/// counter to the address just after the `2NNN` and the stack pointer to
/// what it was before the call.
pub proof fn law_call_return(m: Machine, nnn: u16, random: u8, other: u8)
    requires
        m.wf(),
        nnn < 4096,
        fetch(m) == 0x2000 + nnn,
        fetch(step(m, random)) == 0x00EE,
    ensures
        step(m, random).pc == nnn,
        step(step(m, random), other).pc == wrap16(m.pc + 2),
        step(step(m, random), other).sp == m.sp,
{
    let fetched = Machine { pc: wrap16(m.pc + 2), ..m };
    assert(decode(fetch(m)) == Opcode::Call { nnn });
    assert(decode(0x00EEu16) == Opcode::Return);
    lemma_execute_ignores_random(fetched, Opcode::Call { nnn }, random);
    let called = step(m, random);
    lemma_execute_ignores_random(Machine { pc: wrap16(called.pc + 2), ..called }, Opcode::Return, other);
    law_pop_after_push(fetched, nnn, wrap16(called.pc + 2));
    assert(called == push_call(fetched, nnn)) by {
        reveal(execute);
    }
    assert(step(called, other) == pop_return(Machine { pc: wrap16(called.pc + 2), ..called }))
        by {
        reveal(execute);
    }
}

/// Drawing the same sprite twice at the same place restores the display. The
/// second draw turns a lit pixel off exactly if the first one lit a pixel.
pub proof fn law_redraw(display: Seq<u64>, sprite: Seq<u8>, x0: u8, y0: u8)
    requires
        display.len() == 32,
    ensures
        blit(blit(display, sprite, x0, y0), sprite, x0, y0) == display,
        collides(blit(display, sprite, x0, y0), sprite, x0, y0) == lights(
            display,
            sprite,
            x0,
            y0,
        ),
{
    let n = sprite.len() as int;
    let once = blit(display, sprite, x0, y0);
    let twice = blit(once, sprite, x0, y0);
    assert forall|row: int| 0 <= row < 32 implies #[trigger] twice[row] == display[row] by {
        let d = display[row];
        let k = row_mask(sprite, x0, y0, row);
        assert((d ^ k) ^ k == d) by (bit_vector);
    }
    assert(twice =~= display);
    assert forall|row: int| row_drawn(y0 as int, n, row) implies (#[trigger] row_collides(
        once,
        sprite,
        x0,
        y0,
        row,
    ) <==> row_lights(display, sprite, x0, y0, row)) by {
        let d = display[row];
        let k = row_mask(sprite, x0, y0, row);
        assert(once[row] == d ^ k);
        assert((d ^ k) & k == !d & k) by (bit_vector);
    }
    if lights(display, sprite, x0, y0) {
        let row = choose|row: int|
            row_drawn(y0 as int, n, row) && #[trigger] row_lights(display, sprite, x0, y0, row);
        assert(row_collides(once, sprite, x0, y0, row));
    }
    if collides(once, sprite, x0, y0) {
        let row = choose|row: int|
            row_drawn(y0 as int, n, row) && #[trigger] row_collides(once, sprite, x0, y0, row);
        assert(row_lights(display, sprite, x0, y0, row));
    }
}

/// The fields of an instruction word put together from its four nibbles.
proof fn lemma_word_fields(n0: u8, x: u8, y: u8, n: u8)
    requires
        n0 < 16,
        x < 16,
        y < 16,
        n < 16,
    ensures
        ({
            let word = (4096 * n0 + 256 * x + 16 * y + n) as u16;
            &&& word == 4096 * n0 + 256 * x + 16 * y + n
            &&& nibble(word, 0) == n0
            &&& nibble(word, 1) == x
            &&& nibble(word, 2) == y
            &&& nibble(word, 3) == n
            &&& low_byte(word) == 16 * y + n
            &&& low_twelve(word) == 256 * x + 16 * y + n
        }),
{
    let word = (4096 * n0 + 256 * x + 16 * y + n) as u16;
    assert(word / 4096 == n0 && word / 256 % 16 == x && word / 16 % 16 == y && word % 16 == n
        && word % 256 == 16 * y + n && word % 4096 == 256 * x + 16 * y + n) by (bit_vector)
        requires
            n0 < 16,
            x < 16,
            y < 16,
            n < 16,
            word == 4096 * n0 + 256 * x + 16 * y + n,
    ;
}

/// `DXYN` executed twice in a row with the same coordinates restores the
/// display: whatever the first draw did to it, the second undoes. The second
/// sets the flag to 1 if the first lit a pixel, and to 0 if it lit none.
pub proof fn law_draw_twice(m: Machine, x: u8, y: u8, n: u8, random: u8, other: u8)
    requires
        m.wf(),
        x < 16,
        y < 16,
        n < 16,
        fetch(m) == 0xD000 + 256 * x + 16 * y + n,
        fetch(step(m, random)) == fetch(m),
        step(m, random).regs[x as int] % 64 == m.regs[x as int] % 64,
        step(m, random).regs[y as int] % 32 == m.regs[y as int] % 32,
    ensures
        step(step(m, random), other).display == m.display,
        step(step(m, random), other).regs[15] == if lights(
            m.display,
            sprite_at_idx(m, n),
            m.regs[x as int] % 64,
            m.regs[y as int] % 32,
        ) {
            1u8
        } else {
            0u8
        },
{
    let x0 = m.regs[x as int] % 64;
    let y0 = m.regs[y as int] % 32;
    let sprite = sprite_at_idx(m, n);
    lemma_word_fields(0xD, x, y, n);
    let fetched = Machine { pc: wrap16(m.pc + 2), ..m };
    let once = step(m, random);
    let refetched = Machine { pc: wrap16(once.pc + 2), ..once };
    assert(sprite_at_idx(fetched, n) =~= sprite);
    assert(once == draw(fetched, x, y, n)) by {
        reveal(execute);
    }
    assert(sprite_at_idx(refetched, n) =~= sprite);
    assert(step(once, other) == draw(refetched, x, y, n)) by {
        reveal(execute);
    }
    law_redraw(m.display, sprite, x0, y0);
}

/// `FX0A` with no key down leaves the whole state as it is: the program
/// counter is back on the instruction.
pub proof fn law_wait_key_holds(m: Machine, x: u8, random: u8)
    requires
        m.wf(),
        x < 16,
        fetch(m) == 0xF00A + 256 * x,
        m.pressed_keys == 0,
    ensures
        step(m, random) == m,
{
    lemma_word_fields(0xF, x, 0, 0xA);
    assert(decode(fetch(m)) == Opcode::WaitKey { x });
    reveal(execute);
}

/// `FX0A` with no key down blocks through any number of cycles.
pub proof fn law_wait_key_run(m: Machine, x: u8, randoms: Seq<u8>)
    requires
        m.wf(),
        x < 16,
        fetch(m) == 0xF00A + 256 * x,
        m.pressed_keys == 0,
    ensures
        run(m, randoms) == m,
    decreases randoms.len(),
{
    if randoms.len() > 0 {
        law_wait_key_run(m, x, randoms.drop_last());
        law_wait_key_holds(m, x, randoms.last());
    }
}

/// `FX0A` blocks through any number of ticks during which no key is down,
/// whatever the number of cycles of each tick: program counter, registers,
/// memory and display stay as they are.
pub proof fn law_wait_key_blocks(m: Machine, x: u8, inputs: Seq<TickInput>)
    requires
        m.wf(),
        x < 16,
        fetch(m) == 0xF00A + 256 * x,
        forall|k: int| 0 <= k < inputs.len() ==> (#[trigger] inputs[k]).keys == 0,
    ensures
        ticks(m, inputs).pc == m.pc,
        ticks(m, inputs).regs == m.regs,
        ticks(m, inputs).memory == m.memory,
        ticks(m, inputs).display == m.display,
        ticks(m, inputs).idx == m.idx,
        ticks(m, inputs).sp == m.sp,
    decreases inputs.len(),
{
    if inputs.len() > 0 {
        law_wait_key_blocks(m, x, inputs.drop_last());
        let waiting = Machine { pressed_keys: 0, ..ticks(m, inputs.drop_last()) };
        assert(inputs.last().keys == 0);
        assert(fetch(waiting) == fetch(m));
        law_wait_key_run(waiting, x, inputs.last().randoms);
    }
}

/// `FX0A` with a key down moves on to the next instruction and stores in
/// register `X` the lowest key that is down: a key below 16 that is down,
/// below which no key is down.
pub proof fn law_wait_key_release(m: Machine, x: u8, random: u8)
    requires
        m.wf(),
        x < 16,
        fetch(m) == 0xF00A + 256 * x,
        m.pressed_keys != 0,
    ensures
        step(m, random).pc == wrap16(m.pc + 2),
        key_down(m.pressed_keys, step(m, random).regs[x as int]),
        forall|k: u8|
            k < step(m, random).regs[x as int] ==> !#[trigger] key_down(m.pressed_keys, k),
{
    lemma_word_fields(0xF, x, 0, 0xA);
    assert(decode(fetch(m)) == Opcode::WaitKey { x });
    reveal(execute);
    axiom_u16_trailing_zeros(m.pressed_keys);
    let found = step(m, random).regs[x as int];
    assert(found == m.pressed_keys.trailing_zeros());
    assert forall|k: u8| k < found implies !#[trigger] key_down(m.pressed_keys, k) by {
        let j = k as u16;
        assert((m.pressed_keys >> j) & 1u16 == 0u16);
    }
}

/// Only `FX15` writes the delay timer.
pub proof fn law_delay_written_by_set_delay(m: Machine, random: u8)
    requires
        m.wf(),
        step(m, random).delay_timer != m.delay_timer,
    ensures
        decode(fetch(m)) is SetDelay,
{
    reveal(execute);
}

/// Whether the cycles of tick `k` of `inputs`, started from `m`, leave the
/// delay timer at the value it had when the tick began.
pub open spec fn cycles_keep_delay(m: Machine, inputs: Seq<TickInput>, k: int) -> bool {
    let before = Machine { pressed_keys: inputs[k].keys, ..ticks(m, inputs.take(k)) };
    run(before, inputs[k].randoms).delay_timer == before.delay_timer
}

/// The delay timer counts ticks, not cycles: after `n` ticks whose cycles
/// leave it alone, a timer that stood at `v` stands at `v - n`, or at 0 if
/// `n` is more than `v`, whatever the number of cycles of each tick.
pub proof fn law_delay_countdown(m: Machine, inputs: Seq<TickInput>)
    requires
        m.wf(),
        forall|k: int| 0 <= k < inputs.len() ==> #[trigger] cycles_keep_delay(m, inputs, k),
    ensures
        ticks(m, inputs).delay_timer == if m.delay_timer >= inputs.len() {
            m.delay_timer - inputs.len()
        } else {
            0
        },
    decreases inputs.len(),
{
    if inputs.len() > 0 {
        let earlier = inputs.drop_last();
        assert forall|k: int| 0 <= k < earlier.len() implies #[trigger] cycles_keep_delay(
            m,
            earlier,
            k,
        ) by {
            assert(cycles_keep_delay(m, inputs, k));
            assert(earlier.take(k) =~= inputs.take(k));
        }
        law_delay_countdown(m, earlier);
        let k = inputs.len() - 1;
        assert(cycles_keep_delay(m, inputs, k));
        assert(inputs.take(k) =~= earlier);
    }
}

/// `FX29` sets the index register to five times the low nibble of register
/// `X`, the address of that digit's glyph.
pub proof fn law_font_address(m: Machine, x: u8, digit: u8, random: u8)
    requires
        m.wf(),
        x < 16,
        fetch(m) == 0xF029 + 256 * x,
        m.regs[x as int] & 0xF == digit,
    ensures
        step(m, random).idx == 5 * digit,
        step(m, random).idx == glyph_address(digit as int),
{
    lemma_word_fields(0xF, x, 2, 9);
    assert(decode(fetch(m)) == Opcode::FontAddr { x });
    reveal(execute);
    let value = m.regs[x as int];
    assert(value & 0xF == value % 16) by (bit_vector);
}

/// In a machine that was just made, the glyph of each hexadecimal digit
/// stands at its glyph address.
pub proof fn law_boot_font(program: Seq<u8>, digit: int, row: int)
    requires
        0 <= digit < 16,
        0 <= row < 5,
    ensures
        boot(program).memory[glyph_address(digit) + row] == FONT@[5 * digit + row],
{
}

/// The bit for column `px` is set in a sprite byte's row word exactly if
/// `px` is one of the eight columns from `x0` on and the bit for that column
/// is set in the byte.
proof fn lemma_mask_bit(byte: u8, x0: u8, px: int)
    requires
        x0 < 64,
        0 <= px < 64,
    ensures
        (sprite_mask(byte, x0) >> ((63 - px) as u64)) & 1 == 1 <==> x0 <= px < x0 + 8 && (byte >> ((7
            - (px - x0)) as u8)) & 1 == 1,
{
    let column = px as u64;
    let start = x0 as u64;
    assert(((((byte as u64) << 56) >> start) >> (63 - column) as u64) & 1 == 1 <==> (start
        <= column && column < start + 8 && (byte >> ((7 - (column - start)) as u8)) & 1 == 1))
        by (bit_vector)
        requires
            start < 64,
            column < 64,
    ;
}

/// Drawing flips exactly the display pixels under set sprite pixels.
pub proof fn law_draw_pixels(display: Seq<u64>, sprite: Seq<u8>, x0: u8, y0: u8, px: int, py: int)
    requires
        display.len() == 32,
        x0 < 64,
        0 <= px < 64,
        0 <= py < 32,
    ensures
        pixel(blit(display, sprite, x0, y0), px, py) == (pixel(display, px, py) != sprite_pixel(
            sprite,
            x0,
            y0,
            px,
            py,
        )),
{
    if row_drawn(y0 as int, sprite.len() as int, py) {
        let d = display[py];
        let mask = row_mask(sprite, x0, y0, py);
        let bit = (63 - px) as u64;
        lemma_mask_bit(sprite[py - y0], x0, px);
        assert(((d ^ mask) >> bit) & 1 == 1 <==> (((d >> bit) & 1 == 1) != ((mask >> bit) & 1
            == 1))) by (bit_vector);
    }
}

/// A draw collides on a row exactly if a set sprite pixel falls on a lit
/// pixel of that row.
pub proof fn law_collision_pixels(display: Seq<u64>, sprite: Seq<u8>, x0: u8, y0: u8, py: int)
    requires
        display.len() == 32,
        x0 < 64,
        row_drawn(y0 as int, sprite.len() as int, py),
    ensures
        row_collides(display, sprite, x0, y0, py) <==> exists|px: int|
            0 <= px < 64 && pixel(display, px, py) && #[trigger] sprite_pixel(
                sprite,
                x0,
                y0,
                px,
                py,
            ),
{
    let d = display[py];
    let mask = row_mask(sprite, x0, y0, py);
    if row_collides(display, sprite, x0, y0, py) {
        let both = d & mask;
        axiom_u64_trailing_zeros(both);
        let bit = both.trailing_zeros() as u64;
        assert((d >> bit) & 1 == 1 && (mask >> bit) & 1 == 1) by (bit_vector)
            requires
                ((d & mask) >> bit) & 1 == 1,
        ;
        let px = 63 - bit;
        lemma_mask_bit(sprite[py - y0], x0, px);
        assert(pixel(display, px, py) && sprite_pixel(sprite, x0, y0, px, py));
    }
    if exists|px: int|
        0 <= px < 64 && pixel(display, px, py) && #[trigger] sprite_pixel(sprite, x0, y0, px, py) {
        let px = choose|px: int|
            0 <= px < 64 && pixel(display, px, py) && #[trigger] sprite_pixel(
                sprite,
                x0,
                y0,
                px,
                py,
            );
        let bit = (63 - px) as u64;
        lemma_mask_bit(sprite[py - y0], x0, px);
        assert(d & mask != 0) by (bit_vector)
            requires
                (d >> bit) & 1 == 1,
                (mask >> bit) & 1 == 1,
        ;
    }
}

} // verus!
