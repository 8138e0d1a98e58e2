//! What holds of the machine whatever its state: the laws that relate its
//! operations to each other.

use crate::display::{
    blit, collides, covers_cell, landing_cell, lemma_landing_cell, sprite_bit, Pixel,
};
use crate::machine::{flag, MachineState, FLAG_REGISTER};
use crate::opcode::Opcode;
use vstd::prelude::*;

verus! {

/// An instruction that executes leaves a well-formed machine well-formed: the
/// stack never holds more than sixteen addresses, the timers and registers
/// stay bytes, and no part of the machine changes its size.
pub proof fn lemma_execute_keeps_well_formed(s: MachineState, op: Opcode, random: u8)
    requires
        s.well_formed(),
    ensures
        s.execute(op, random) matches Ok(t) ==> t.well_formed(),
{
}

/// What a step does depends on the random byte only where the instruction at
/// the program counter draws one.
pub proof fn lemma_random_read_only_where_drawn(s: MachineState, first: u8, second: u8)
    requires
        !s.draws_random(),
    ensures
        s.step(first) == s.step(second),
{
}

/// `AddRegisters` sets `VF` to 1 if and only if the sum of the two registers
/// exceeds 255, and puts the sum modulo 256 in its first register unless that
/// is `VF` itself.
pub proof fn lemma_add_sets_carry(s: MachineState, first: u16, second: u16, random: u8)
    requires
        s.well_formed(),
        s.pc_in_memory(),
        first <= 0xF,
        second <= 0xF,
    ensures
        s.execute(Opcode::AddRegisters { first, second }, random) matches Ok(t) && {
            &&& t.registers[FLAG_REGISTER as int] == flag(s.reg(first) + s.reg(second) > 255)
            &&& first != FLAG_REGISTER ==> t.reg(first) == (s.reg(first) + s.reg(second)) % 256
            &&& t.pc == s.pc + 2
        },
{
}

/// `SubtractRegisters` sets `VF` to 1 if and only if the first register is at
/// least the second, which is when the subtraction borrows nothing, and puts
/// the difference modulo 256 in its first register unless that is `VF`
/// itself.
pub proof fn lemma_subtract_sets_no_borrow(s: MachineState, first: u16, second: u16, random: u8)
    requires
        s.well_formed(),
        s.pc_in_memory(),
        first <= 0xF,
        second <= 0xF,
    ensures
        s.execute(Opcode::SubtractRegisters { first, second }, random) matches Ok(t) && {
            &&& t.registers[FLAG_REGISTER as int] == flag(s.reg(first) >= s.reg(second))
            &&& first != FLAG_REGISTER ==> t.reg(first) == (s.reg(first) - s.reg(second)) % 256
            &&& t.pc == s.pc + 2
        },
{
}

/// `SubtractFirstRegister` sets `VF` to 1 if and only if the second register
/// is at least the first, and puts the second minus the first modulo 256 in
/// its first register unless that is `VF` itself.
pub proof fn lemma_reverse_subtract_sets_no_borrow(
    s: MachineState,
    first: u16,
    second: u16,
    random: u8,
)
    requires
        s.well_formed(),
        s.pc_in_memory(),
        first <= 0xF,
        second <= 0xF,
    ensures
        s.execute(Opcode::SubtractFirstRegister { first, second }, random) matches Ok(t) && {
            &&& t.registers[FLAG_REGISTER as int] == flag(s.reg(second) >= s.reg(first))
            &&& first != FLAG_REGISTER ==> t.reg(first) == (s.reg(second) - s.reg(first)) % 256
            &&& t.pc == s.pc + 2
        },
{
}

/// `SetBCD` stores at the index register the three decimal digits of its
/// register, hundreds first: each is below ten, and together they make the
/// value again.
pub proof fn lemma_decimal_digits(s: MachineState, x: u16, random: u8)
    requires
        s.well_formed(),
        s.pc_in_memory(),
        x <= 0xF,
        s.index_reaches(3),
    ensures
        s.execute(Opcode::SetBCD(x), random) matches Ok(t) && {
            let value = s.reg(x);
            let hundreds = t.memory[s.index];
            let tens = t.memory[s.index + 1];
            let ones = t.memory[s.index + 2];
            &&& hundreds == value / 100
            &&& tens == (value / 10) % 10
            &&& ones == value % 10
            &&& hundreds < 10 && tens < 10 && ones < 10
            &&& 100 * hundreds + 10 * tens + ones == value
        },
{
}

/// A cell is covered by a sprite if and only if some set bit of the sprite
/// lands on it.
pub proof fn lemma_covered_iff_bit_lands(sprite: Seq<u8>, vx: int, vy: int, cell: int)
    requires
        sprite.len() <= 32,
        0 <= vx < 256,
        0 <= vy < 256,
        0 <= cell < 2048,
    ensures
        covers_cell(sprite, vx, vy, cell) <==> exists|row: int, column: int|
            0 <= row < sprite.len() && 0 <= column < 8 && sprite_bit(sprite[row], column)
                && #[trigger] landing_cell(vx, vy, row, column) == cell,
{
    let dx = (cell % 64 - vx) % 64;
    let dy = (cell / 64 - vy) % 32;
    if covers_cell(sprite, vx, vy, cell) {
        lemma_landing_cell(vx, vy, dy, dx, cell);
        assert(landing_cell(vx, vy, dy, dx) == cell);
    }
    if exists|row: int, column: int|
        0 <= row < sprite.len() && 0 <= column < 8 && sprite_bit(sprite[row], column)
            && #[trigger] landing_cell(vx, vy, row, column) == cell {
        let (row, column) = choose|row: int, column: int|
            0 <= row < sprite.len() && 0 <= column < 8 && sprite_bit(sprite[row], column)
                && #[trigger] landing_cell(vx, vy, row, column) == cell;
        lemma_landing_cell(vx, vy, row, column, cell);
    }
}

/// Drawing a sprite twice at one place gives the framebuffer back, and the
/// second drawing collides if and only if the first turned some cell white.
pub proof fn lemma_double_blit(display: Seq<Pixel>, sprite: Seq<u8>, vx: int, vy: int)
    ensures
        blit(blit(display, sprite, vx, vy), sprite, vx, vy) == display,
        collides(blit(display, sprite, vx, vy), sprite, vx, vy) <==> exists|cell: int|
            0 <= cell < display.len() && #[trigger] covers_cell(sprite, vx, vy, cell)
                && display[cell] == Pixel::Black,
{
    let once = blit(display, sprite, vx, vy);
    assert(blit(once, sprite, vx, vy) =~= display);
    if collides(once, sprite, vx, vy) {
        let cell = choose|cell: int|
            0 <= cell < once.len() && #[trigger] covers_cell(sprite, vx, vy, cell) && once[cell]
                == Pixel::White;
        assert(display[cell] == Pixel::Black);
    }
    if exists|cell: int|
        0 <= cell < display.len() && #[trigger] covers_cell(sprite, vx, vy, cell) && display[cell]
            == Pixel::Black {
        let cell = choose|cell: int|
            0 <= cell < display.len() && #[trigger] covers_cell(sprite, vx, vy, cell)
                && display[cell] == Pixel::Black;
        assert(once[cell] == Pixel::White);
    }
}

/// Two `Draw` instructions of the same sprite at the same place, one after
/// the other, give the framebuffer back, and the second leaves `VF` at 1 if
/// and only if the first turned some cell white. (The coordinates are given
/// here as values: a `Draw` that takes one of them from `VF` finds there,
/// the second time, the flag of the first.)
pub proof fn lemma_double_draw(s: MachineState, vx: u8, vy: u8, rows: int)
    requires
        s.well_formed(),
        0 <= rows < 16,
        s.index_reaches(rows),
    ensures
        s.draw(vx, vy, rows).draw(vx, vy, rows).display == s.display,
        s.draw(vx, vy, rows).draw(vx, vy, rows).registers[FLAG_REGISTER as int] == flag(
            exists|cell: int|
                0 <= cell < 2048 && #[trigger] covers_cell(
                    s.sprite(rows),
                    vx as int,
                    vy as int,
                    cell,
                ) && s.display[cell] == Pixel::Black,
        ),
        s.draw(vx, vy, rows).draw(vx, vy, rows).draw_screen,
{
    lemma_double_blit(s.display, s.sprite(rows), vx as int, vy as int);
    assert(s.draw(vx, vy, rows).sprite(rows) == s.sprite(rows));
}

/// Each part of the machine is changed by its own instructions only: a timer
/// by the instruction that sets it, the framebuffer by clearing and drawing,
/// which both ask for a redraw, memory by the decimal store and the register
/// dump, the stack by call and return. No instruction changes the keypad or
/// the count of timer updates.
pub proof fn lemma_instructions_keep_to_their_parts(s: MachineState, op: Opcode, random: u8)
    ensures
        s.execute(op, random) matches Ok(t) ==> {
            &&& !(op is SetDelayTimer) ==> t.delay_timer == s.delay_timer
            &&& !(op is SetSoundTimer) ==> t.sound_timer == s.sound_timer
            &&& !(op is ClearDisplay || op is Draw) ==> t.display == s.display && t.draw_screen
                == s.draw_screen
            &&& (op is ClearDisplay || op is Draw) ==> t.draw_screen
            &&& !(op is SetBCD || op is DumpRegister) ==> t.memory == s.memory
            &&& !(op is CallSubroutine || op is ReturnFromSubroutine) ==> t.stack == s.stack
            &&& t.keys == s.keys
            &&& t.counter == s.counter
        },
{
}

/// The program counter moves on by two after an instruction, or by four
/// after a skip that is taken, unless the instruction is a jump, a call or a
/// return, which replace it, or leaves it in place: the wait for a key while
/// no key is pressed, and the call of a host routine.
pub proof fn lemma_program_counter_moves(s: MachineState, op: Opcode, random: u8)
    ensures
        s.execute(op, random) matches Ok(t) ==> match op {
            Opcode::JumpToAddr(_)
            | Opcode::CallSubroutine(_)
            | Opcode::ReturnFromSubroutine
            | Opcode::SetProgramCounter(_) => true,
            Opcode::CallRCAProgram(_) => t == s,
            Opcode::AssignOnKeyPress(_) => t == s || t.pc == s.pc + 2,
            Opcode::SkipIfRegisterSet { .. }
            | Opcode::SkipIfRegisterNotSet { .. }
            | Opcode::SkipIfRegistersEqual { .. }
            | Opcode::SkipIfRegistersNotEqual { .. }
            | Opcode::SkipIfKeyPressed(_)
            | Opcode::SkipIfKeyNotPressed(_) => (t.pc == s.pc + 2 || t.pc == s.pc + 4) && t == (
            MachineState { pc: t.pc, ..s }),
            _ => t.pc == s.pc + 2,
        },
{
}

/// A return that follows a call resumes at the instruction behind the call,
/// with the stack as it was before the call.
pub proof fn lemma_return_resumes_behind_call(s: MachineState, addr: u16, random: u8)
    requires
        s.well_formed(),
        s.pc_in_memory(),
        s.stack.len() < 16,
        addr % 0x1000 < 0xFFF,
    ensures
        s.execute(Opcode::CallSubroutine(addr), random) matches Ok(called) && called.execute(
            Opcode::ReturnFromSubroutine,
            random,
        ) matches Ok(returned) && returned == s.next(),
{
    let called = s.execute(Opcode::CallSubroutine(addr), random)->Ok_0;
    assert(called.stack.drop_last() =~= s.stack);
}

/// A timer update never raises a timer, and leaves a well-formed machine
/// well-formed.
pub proof fn lemma_tick_never_raises(s: MachineState)
    requires
        s.well_formed(),
    ensures
        s.tick().well_formed(),
        s.tick().delay_timer <= s.delay_timer,
        s.tick().sound_timer <= s.sound_timer,
        s.delay_timer - 1 <= s.tick().delay_timer,
        s.sound_timer - 1 <= s.tick().sound_timer,
{
}

/// The timer cadence: after `n` timer updates each timer has lost one for
/// every tenth update, counted from the update that last took one, and stops
/// at zero. Nothing else has changed.
pub proof fn lemma_timer_cadence(s: MachineState, n: nat)
    requires
        s.well_formed(),
    ensures
        s.ticks(n) == (MachineState {
            counter: (s.counter + n) % 10,
            delay_timer: if s.delay_timer >= (s.counter + n) / 10 {
                s.delay_timer - (s.counter + n) / 10
            } else {
                0
            },
            sound_timer: if s.sound_timer >= (s.counter + n) / 10 {
                s.sound_timer - (s.counter + n) / 10
            } else {
                0
            },
            ..s
        }),
    decreases n,
{
    if n > 0 {
        lemma_timer_cadence(s.tick(), (n - 1) as nat);
    }
}

/// The timer cadence of a machine whose timers were just decremented, or that
/// was just made: after `n` timer updates each timer stands at what it was
/// less `n / 10`, rounded down, or at zero if it was less than that; and ten
/// updates more take at most one more.
pub proof fn lemma_timer_cadence_from_start(s: MachineState, n: nat)
    requires
        s.well_formed(),
        s.counter == 0,
    ensures
        s.ticks(n).delay_timer == if s.delay_timer >= n / 10 {
            s.delay_timer - n / 10
        } else {
            0
        },
        s.ticks(n).sound_timer == if s.sound_timer >= n / 10 {
            s.sound_timer - n / 10
        } else {
            0
        },
        s.ticks(n).delay_timer - 1 <= s.ticks(n + 10).delay_timer <= s.ticks(n).delay_timer,
        s.ticks(n).sound_timer - 1 <= s.ticks(n + 10).sound_timer <= s.ticks(n).sound_timer,
{
    lemma_timer_cadence(s, n);
    lemma_timer_cadence(s, n + 10);
}

} // verus!
