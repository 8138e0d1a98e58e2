//! The executable machine.

use crate::display::{
    collides_before, drawn_before, lemma_draw_bit, lemma_draw_done, lemma_draw_row_end,
    lemma_draw_start, lemma_landing_cell, Pixel,
};
use crate::keypad::{
    keypad_index, lemma_lowest_pressed, lemma_none_pressed, lowest_pressed, InputEvent, KeyState,
    ESCAPE_KEY,
};
use crate::machine::{
    address_operand, agrees, byte_operand, cycle_agrees, Frame, MachineState, SoundSignal,
    FLAG_REGISTER, FONTSET, GLYPH_SIZE, MAX_ROM_SIZE, MEMORY_SIZE, PROGRAM_START, STACK_DEPTH,
    TIMER_PERIOD,
};
use crate::opcode::{decode_word, CpuError, Opcode};
use crate::random::random_byte;
use vstd::prelude::*;

verus! {

/// The machine: memory, registers, call stack, timers, keypad and
/// framebuffer. Its view is the `MachineState` that the contracts speak of.
pub struct Cpu {
    pc: u16,
    index_reg: u16,
    registers: Vec<u8>,
    keys: Vec<KeyState>,
    delay_timer: u8,
    sound_timer: u8,
    counter: u8,
    display: Vec<Pixel>,
    draw_screen: bool,
    stack: Vec<u16>,
    sp: u16,
    memory: Vec<u8>,
}

impl View for Cpu {
    type V = MachineState;

    closed spec fn view(&self) -> MachineState {
        MachineState {
            pc: self.pc as int,
            index: self.index_reg as int,
            registers: self.registers@,
            memory: self.memory@,
            stack: self.stack@.subrange(0, self.sp as int),
            delay_timer: self.delay_timer as int,
            sound_timer: self.sound_timer as int,
            counter: self.counter as int,
            keys: self.keys@,
            display: self.display@,
            draw_screen: self.draw_screen,
        }
    }
}

/// The fields of an instruction word, as masks and shifts cut them out, are
/// its hexadecimal digits.
proof fn lemma_fields(word: u16)
    by (bit_vector)
    ensures
        (word & 0x0F00) >> 8 == (word / 0x100) % 0x10,
        (word & 0x00F0) >> 4 == (word / 0x10) % 0x10,
        word & 0x000F == word % 0x10,
        word & 0x00FF == word % 0x100,
        word & 0x0FFF == word % 0x1000,
{
}

/// Two bytes, the first shifted up by eight places, make the word whose high
/// byte is the first and whose low byte is the second.
proof fn lemma_word(high: u8, low: u8)
    by (bit_vector)
    ensures
        ((high as u16) << 8 | (low as u16)) == (high as u16) * 0x100 + (low as u16),
{
}

/// Shifting a byte right by one place halves it, and its lowest bit is its
/// parity.
proof fn lemma_shift_right(value: u8)
    by (bit_vector)
    ensures
        value >> 1 == value / 2,
        value & 1 == value % 2,
{
}

/// Shifting a byte left by one place doubles it modulo 256, and its highest
/// bit says whether it is 128 or more.
proof fn lemma_shift_left(value: u8)
    by (bit_vector)
    ensures
        (value & 0x80) >> 7 == value / 0x80,
        (value << 1) == ((value as u16 * 2) % 0x100) as u8,
{
}

/// The byte that an instruction encodes of an immediate operand.
fn low_byte(value: u16) -> (byte: u8)
    ensures
        byte == byte_operand(value),
{
    (value % 0x100) as u8
}

/// The address that an instruction encodes of an address operand.
fn low_address(addr: u16) -> (address: u16)
    ensures
        address == address_operand(addr),
{
    addr % 0x1000
}

/// One register number is a register.
fn check_register(r: u16) -> (result: Result<(), CpuError>)
    ensures
        r <= 0xF ==> result is Ok,
        r > 0xF ==> result == Err::<(), CpuError>(CpuError::InvalidRegisterIndex(r)),
{
    if r > 0xF {
        Err(CpuError::InvalidRegisterIndex(r))
    } else {
        Ok(())
    }
}

/// Every register number of the instruction is a register; if not, the first
/// that is none is reported.
fn check_registers(op: Opcode) -> (result: Result<(), CpuError>)
    ensures
        match op.invalid_register() {
            Some(r) => result == Err::<(), CpuError>(CpuError::InvalidRegisterIndex(r)),
            None => result is Ok,
        },
{
    match op {
        Opcode::CallRCAProgram(_)
        | Opcode::ClearDisplay
        | Opcode::ReturnFromSubroutine
        | Opcode::JumpToAddr(_)
        | Opcode::CallSubroutine(_)
        | Opcode::SetIndexRegister(_)
        | Opcode::SetProgramCounter(_) => Ok(()),
        Opcode::SkipIfRegisterSet { addr, .. }
        | Opcode::SkipIfRegisterNotSet { addr, .. }
        | Opcode::SetRegister { addr, .. }
        | Opcode::AddToRegister { addr, .. }
        | Opcode::AssignRandomValue { addr, .. } => check_register(addr),
        Opcode::SkipIfRegistersEqual { first, second }
        | Opcode::AssignRegister { first, second }
        | Opcode::AssignRegisterBitwiseOr { first, second }
        | Opcode::AssignRegisterBitwiseAnd { first, second }
        | Opcode::AssignRegisterBitwiseXor { first, second }
        | Opcode::AddRegisters { first, second }
        | Opcode::SubtractRegisters { first, second }
        | Opcode::AssignRegisterBitshiftRight { first, second }
        | Opcode::SubtractFirstRegister { first, second }
        | Opcode::AssignRegistersBitshiftLeft { first, second }
        | Opcode::SkipIfRegistersNotEqual { first, second }
        | Opcode::Draw { x: first, y: second, .. } => {
            match check_register(first) {
                Err(error) => Err(error),
                Ok(()) => check_register(second),
            }
        },
        Opcode::SkipIfKeyPressed(x)
        | Opcode::SkipIfKeyNotPressed(x)
        | Opcode::AssignToDelayTime(x)
        | Opcode::AssignOnKeyPress(x)
        | Opcode::SetDelayTimer(x)
        | Opcode::SetSoundTimer(x)
        | Opcode::AddToIndexRegister(x)
        | Opcode::SetIndexRegisterToSpriteAddr(x)
        | Opcode::SetBCD(x)
        | Opcode::DumpRegister(x)
        | Opcode::LoadRegister(x) => check_register(x),
    }
}

impl Cpu {
    #[verifier::type_invariant]
    spec fn inv(self) -> bool {
        &&& self.registers.len() == 16
        &&& self.keys.len() == 16
        &&& self.display.len() == 2048
        &&& self.stack.len() == 16
        &&& self.sp <= 16
        &&& self.memory.len() == 4096
        &&& self.counter < 10
    }

    /// A machine at power-on: memory, registers, stack and timers zero, every
    /// key released, every cell black, the program counter at
    /// `PROGRAM_START`.
    pub fn new() -> (cpu: Cpu)
        ensures
            cpu@ == MachineState::initial(),
            cpu@.well_formed(),
    {
        let cpu = Cpu {
            pc: PROGRAM_START,
            index_reg: 0,
            registers: vec![0u8; 16],
            keys: vec![KeyState::Released; 16],
            delay_timer: 0,
            sound_timer: 0,
            counter: 0,
            display: vec![Pixel::Black; 2048],
            draw_screen: false,
            stack: vec![0u16; 16],
            sp: 0,
            memory: vec![0u8; 4096],
        };
        assert(cpu@ =~= MachineState::initial());
        cpu
    }

    /// Copies the built-in font to the first eighty bytes of memory.
    pub fn load_fontset(&mut self)
        ensures
            final(self)@.well_formed(),
            final(self)@ == old(self)@.with_font(),
    {
        proof {
            use_type_invariant(&*self);
        }
        let mut i: usize = 0;
        while i < 80
            invariant
                i <= 80,
                self.inv(),
                *self == (Cpu { memory: self.memory, ..*old(self) }),
                forall|a: int| 0 <= a < i ==> self.memory[a] == FONTSET[a],
                forall|a: int| i <= a < 4096 ==> self.memory[a] == old(self).memory[a],
            decreases 80 - i,
        {
            self.memory[i] = FONTSET[i];
            i += 1;
        }
        assert(self@ =~= old(self)@.with_font());
    }

    /// Copies a program to memory from `PROGRAM_START` on. A program of more
    /// than `MAX_ROM_SIZE` bytes is refused and the machine is left as it
    /// was.
    pub fn load_rom(&mut self, rom: &[u8]) -> (result: Result<(), CpuError>)
        ensures
            final(self)@.well_formed(),
            agrees(old(self)@.load_rom(rom@), result, old(self)@, final(self)@),
    {
        proof {
            use_type_invariant(&*self);
        }
        let len: usize = rom.len();
        if len > MAX_ROM_SIZE {
            return Err(CpuError::RomTooLarge(len));
        }
        let mut i: usize = 0;
        while i < len
            invariant
                i <= len,
                len == rom@.len(),
                len <= MAX_ROM_SIZE,
                self.inv(),
                *self == (Cpu { memory: self.memory, ..*old(self) }),
                forall|a: int| 0x200 <= a < 0x200 + i ==> self.memory[a] == rom@[a - 0x200],
                forall|a: int|
                    0 <= a < 4096 && !(0x200 <= a < 0x200 + i) ==> self.memory[a] == old(
                        self,
                    ).memory[a],
            decreases len - i,
        {
            self.memory[i + 512] = rom[i];
            i += 1;
        }
        assert(self@ =~= old(self)@.with_rom(rom@));
        Ok(())
    }

    /// Decodes an instruction word. Decoding reads nothing of the machine.
    pub fn decode(&self, opcode: u16) -> (decoded: Result<Opcode, CpuError>)
        ensures
            decoded == decode_word(opcode),
    {
        let x: u16 = (opcode & 0x0F00) >> 8;
        let y: u16 = (opcode & 0x00F0) >> 4;
        let n: u16 = opcode & 0x000F;
        let nn: u16 = opcode & 0x00FF;
        let nnn: u16 = opcode & 0x0FFF;
        proof {
            lemma_fields(opcode);
        }
        match opcode {
            0x00E0 => Ok(Opcode::ClearDisplay),
            0x00EE => Ok(Opcode::ReturnFromSubroutine),
            0x0000..=0x0FFF => Ok(Opcode::CallRCAProgram(nnn)),
            0x1000..=0x1FFF => Ok(Opcode::JumpToAddr(nnn)),
            0x2000..=0x2FFF => Ok(Opcode::CallSubroutine(nnn)),
            0x3000..=0x3FFF => Ok(Opcode::SkipIfRegisterSet { addr: x, value: nn }),
            0x4000..=0x4FFF => Ok(Opcode::SkipIfRegisterNotSet { addr: x, value: nn }),
            0x5000..=0x5FFF => Ok(Opcode::SkipIfRegistersEqual { first: x, second: y }),
            0x6000..=0x6FFF => Ok(Opcode::SetRegister { addr: x, value: nn }),
            0x7000..=0x7FFF => Ok(Opcode::AddToRegister { addr: x, value: nn }),
            0x8000..=0x8FFF => match n {
                0x0 => Ok(Opcode::AssignRegister { first: x, second: y }),
                0x1 => Ok(Opcode::AssignRegisterBitwiseOr { first: x, second: y }),
                0x2 => Ok(Opcode::AssignRegisterBitwiseAnd { first: x, second: y }),
                0x3 => Ok(Opcode::AssignRegisterBitwiseXor { first: x, second: y }),
                0x4 => Ok(Opcode::AddRegisters { first: x, second: y }),
                0x5 => Ok(Opcode::SubtractRegisters { first: x, second: y }),
                0x6 => Ok(Opcode::AssignRegisterBitshiftRight { first: x, second: y }),
                0x7 => Ok(Opcode::SubtractFirstRegister { first: x, second: y }),
                0xE => Ok(Opcode::AssignRegistersBitshiftLeft { first: x, second: y }),
                _ => Err(CpuError::IllegalInstruction(opcode)),
            },
            0x9000..=0x9FFF => Ok(Opcode::SkipIfRegistersNotEqual { first: x, second: y }),
            0xA000..=0xAFFF => Ok(Opcode::SetIndexRegister(nnn)),
            0xB000..=0xBFFF => Ok(Opcode::SetProgramCounter(nnn)),
            0xC000..=0xCFFF => Ok(Opcode::AssignRandomValue { addr: x, value: nn }),
            0xD000..=0xDFFF => Ok(Opcode::Draw { x, y, height: n }),
            0xE000..=0xEFFF => match nn {
                0x9E => Ok(Opcode::SkipIfKeyPressed(x)),
                0xA1 => Ok(Opcode::SkipIfKeyNotPressed(x)),
                _ => Err(CpuError::IllegalInstruction(opcode)),
            },
            0xF000..=0xFFFF => match nn {
                0x07 => Ok(Opcode::AssignToDelayTime(x)),
                0x0A => Ok(Opcode::AssignOnKeyPress(x)),
                0x15 => Ok(Opcode::SetDelayTimer(x)),
                0x18 => Ok(Opcode::SetSoundTimer(x)),
                0x1E => Ok(Opcode::AddToIndexRegister(x)),
                0x29 => Ok(Opcode::SetIndexRegisterToSpriteAddr(x)),
                0x33 => Ok(Opcode::SetBCD(x)),
                0x55 => Ok(Opcode::DumpRegister(x)),
                0x65 => Ok(Opcode::LoadRegister(x)),
                _ => Err(CpuError::IllegalInstruction(opcode)),
            },
        }
    }
    /// Turns every cell black, marks the framebuffer as changed and moves to
    /// the next instruction.
    fn clear_display(&mut self)
        requires
            old(self)@.pc_in_memory(),
        ensures
            final(self)@ == (MachineState {
                display: Seq::new(old(self)@.display.len(), |c: int| Pixel::Black),
                draw_screen: true,
                ..old(self)@.next()
            }),
    {
        proof {
            use_type_invariant(&*self);
        }
        let mut cell: usize = 0;
        while cell < 2048
            invariant
                cell <= 2048,
                self.inv(),
                *self == (Cpu { display: self.display, ..*old(self) }),
                forall|c: int| 0 <= c < cell ==> self.display[c] == Pixel::Black,
            decreases 2048 - cell,
        {
            self.display[cell] = Pixel::Black;
            cell += 1;
        }
        self.draw_screen = true;
        self.pc = self.pc + 2;
        assert(self@ =~= (MachineState {
            display: Seq::new(old(self)@.display.len(), |c: int| Pixel::Black),
            draw_screen: true,
            ..old(self)@.next()
        }));
    }

    /// Draws the sprite of `rows` rows at the index register with its corner at
    /// `(vx, vy)`, row by row and each row from its highest bit, and moves to
    /// the next instruction.
    fn draw_sprite(&mut self, vx: u8, vy: u8, rows: u16)
        requires
            rows < 16,
            old(self)@.pc_in_memory(),
            old(self)@.index_reaches(rows as int),
        ensures
            final(self)@ == old(self)@.draw(vx, vy, rows as int).next(),
    {
        proof {
            use_type_invariant(&*self);
        }
        let ghost before = self.display@;
        let ghost sprite = self@.sprite(rows as int);
        let mut collision: bool = false;
        let mut row: u16 = 0;
        proof {
            lemma_draw_start(before, sprite, vx as int, vy as int);
        }
        while row < rows
            invariant
                row <= rows,
                rows < 16,
                self.index_reg + rows <= 4096,
                self.inv(),
                *self == (Cpu { display: self.display, ..*old(self) }),
                before == old(self).display@,
                sprite == old(self)@.sprite(rows as int),
                drawn_before(before, self.display@, sprite, vx as int, vy as int, row as int, 0),
                collision == collides_before(before, sprite, vx as int, vy as int, row as int, 0),
            decreases rows - row,
        {
            let line: u8 = self.memory[self.index_reg as usize + row as usize];
            let y: usize = (vy as usize + row as usize) % 32;
            let mut column: u8 = 0;
            while column < 8
                invariant
                    column <= 8,
                    row < rows,
                    rows < 16,
                    self.index_reg + rows <= 4096,
                    self.inv(),
                    *self == (Cpu { display: self.display, ..*old(self) }),
                    before == old(self).display@,
                    sprite == old(self)@.sprite(rows as int),
                    line == sprite[row as int],
                    y == (vy + row) % 32,
                    drawn_before(
                        before,
                        self.display@,
                        sprite,
                        vx as int,
                        vy as int,
                        row as int,
                        column as int,
                    ),
                    collision == collides_before(
                        before,
                        sprite,
                        vx as int,
                        vy as int,
                        row as int,
                        column as int,
                    ),
                decreases 8 - column,
            {
                proof {
                    lemma_draw_bit(
                        before,
                        self.display@,
                        sprite,
                        vx as int,
                        vy as int,
                        row as int,
                        column as int,
                    );
                    lemma_landing_cell(vx as int, vy as int, row as int, column as int, 0);
                }
                if (line >> (7 - column)) & 1 == 1 {
                    let x: usize = (vx as usize + column as usize) % 64;
                    let cell: usize = y * 64 + x;
                    match self.display[cell] {
                        Pixel::White => {
                            collision = true;
                            self.display[cell] = Pixel::Black;
                        },
                        Pixel::Black => {
                            self.display[cell] = Pixel::White;
                        },
                    }
                }
                column += 1;
            }
            proof {
                lemma_draw_row_end(before, self.display@, sprite, vx as int, vy as int, row as int);
            }
            row += 1;
        }
        proof {
            lemma_draw_done(before, self.display@, sprite, vx as int, vy as int);
        }
        self.registers[FLAG_REGISTER] = if collision {
            1
        } else {
            0
        };
        self.draw_screen = true;
        self.pc = self.pc + 2;
        assert(self@ =~= old(self)@.draw(vx, vy, rows as int).next());
    }

    /// The pressed key with the lowest number.
    fn first_pressed_key(&self) -> (key: Option<u8>)
        ensures
            key == lowest_pressed(self@.keys),
    {
        proof {
            use_type_invariant(self);
        }
        let mut k: u8 = 0;
        while k < 16
            invariant
                k <= 16,
                self.keys.len() == 16,
                forall|lower: int| 0 <= lower < k ==> self.keys[lower] != KeyState::Pressed,
            decreases 16 - k,
        {
            match self.keys[k as usize] {
                KeyState::Pressed => {
                    proof {
                        lemma_lowest_pressed(self.keys@, k);
                    }
                    return Some(k);
                },
                KeyState::Released => {},
            }
            k += 1;
        }
        proof {
            lemma_none_pressed(self.keys@);
        }
        None
    }

    /// Copies the registers `V0..=Vlast` to memory at the index register and
    /// moves to the next instruction.
    fn dump_registers(&mut self, last: u16)
        requires
            last <= 0xF,
            old(self)@.pc_in_memory(),
            old(self)@.index_reaches(last + 1),
        ensures
            final(self)@ == old(self)@.dump_registers(last).next(),
    {
        proof {
            use_type_invariant(&*self);
        }
        let base: usize = self.index_reg as usize;
        let mut r: usize = 0;
        while r <= last as usize
            invariant
                r <= last + 1,
                last <= 0xF,
                base == self.index_reg,
                base + last + 1 <= 4096,
                self.inv(),
                *self == (Cpu { memory: self.memory, ..*old(self) }),
                forall|a: int|
                    0 <= a < 4096 ==> self.memory[a] == if base <= a < base + r {
                        old(self).registers[a - base]
                    } else {
                        old(self).memory[a]
                    },
            decreases last + 1 - r,
        {
            self.memory[base + r] = self.registers[r];
            r += 1;
        }
        self.pc = self.pc + 2;
        assert(self@ =~= old(self)@.dump_registers(last).next());
    }

    /// Loads the registers `V0..=Vlast` from memory at the index register and
    /// moves to the next instruction.
    fn load_registers(&mut self, last: u16)
        requires
            last <= 0xF,
            old(self)@.pc_in_memory(),
            old(self)@.index_reaches(last + 1),
        ensures
            final(self)@ == old(self)@.load_registers(last).next(),
    {
        proof {
            use_type_invariant(&*self);
        }
        let base: usize = self.index_reg as usize;
        let mut r: usize = 0;
        while r <= last as usize
            invariant
                r <= last + 1,
                last <= 0xF,
                base == self.index_reg,
                base + last + 1 <= 4096,
                self.inv(),
                *self == (Cpu { registers: self.registers, ..*old(self) }),
                forall|i: int|
                    0 <= i < 16 ==> self.registers[i] == if i < r {
                        old(self).memory[base + i]
                    } else {
                        old(self).registers[i]
                    },
            decreases last + 1 - r,
        {
            self.registers[r] = self.memory[base + r];
            r += 1;
        }
        self.pc = self.pc + 2;
        assert(self@ =~= old(self)@.load_registers(last).next());
    }

    /// Puts `value` in register `r` and moves to the next instruction.
    fn set_register(&mut self, r: u16, value: u8)
        requires
            r <= 0xF,
            old(self)@.pc_in_memory(),
        ensures
            final(self)@ == old(self)@.with_register(r, value).next(),
    {
        proof {
            use_type_invariant(&*self);
        }
        self.registers[r as usize] = value;
        self.pc = self.pc + 2;
        assert(self@ =~= old(self)@.with_register(r, value).next());
    }

    /// Puts `value` in register `r` and then the flag for `condition` in `VF`,
    /// and moves to the next instruction.
    fn set_result_and_flag(&mut self, r: u16, value: u8, condition: bool)
        requires
            r <= 0xF,
            old(self)@.pc_in_memory(),
        ensures
            final(self)@ == old(self)@.with_result_and_flag(r, value, condition).next(),
    {
        proof {
            use_type_invariant(&*self);
        }
        self.registers[r as usize] = value;
        self.registers[FLAG_REGISTER] = if condition {
            1
        } else {
            0
        };
        self.pc = self.pc + 2;
        assert(self@ =~= old(self)@.with_result_and_flag(r, value, condition).next());
    }

    /// Moves the program counter behind the next instruction if `taken`, and
    /// to it if not.
    fn skip_if(&mut self, taken: bool)
        requires
            old(self)@.pc_in_memory(),
        ensures
            final(self)@ == old(self)@.skip(taken),
    {
        proof {
            use_type_invariant(&*self);
        }
        if taken {
            self.pc = self.pc + 4;
        } else {
            self.pc = self.pc + 2;
        }
    }

    /// Moves the program counter to `target`.
    fn jump(&mut self, target: u16)
        ensures
            final(self)@ == (MachineState { pc: target as int, ..old(self)@ }),
    {
        proof {
            use_type_invariant(&*self);
        }
        self.pc = target;
    }

    /// Pushes the address of the next instruction and moves the program
    /// counter to `target`.
    fn call(&mut self, target: u16)
        requires
            old(self)@.pc_in_memory(),
            old(self)@.stack.len() < STACK_DEPTH,
        ensures
            final(self)@ == (MachineState {
                pc: target as int,
                stack: old(self)@.stack.push((old(self)@.pc + 2) as u16),
                ..old(self)@
            }),
    {
        proof {
            use_type_invariant(&*self);
        }
        self.stack[self.sp as usize] = self.pc + 2;
        self.sp = self.sp + 1;
        self.pc = target;
        assert(self@ =~= (MachineState {
            pc: target as int,
            stack: old(self)@.stack.push((old(self)@.pc + 2) as u16),
            ..old(self)@
        }));
    }

    /// Pops the latest return address into the program counter.
    fn return_from_call(&mut self)
        requires
            old(self)@.stack.len() > 0,
        ensures
            final(self)@ == (MachineState {
                pc: old(self)@.stack.last() as int,
                stack: old(self)@.stack.drop_last(),
                ..old(self)@
            }),
    {
        proof {
            use_type_invariant(&*self);
        }
        self.sp = self.sp - 1;
        self.pc = self.stack[self.sp as usize];
        assert(self@ =~= (MachineState {
            pc: old(self)@.stack.last() as int,
            stack: old(self)@.stack.drop_last(),
            ..old(self)@
        }));
    }

    /// Puts `value` in the index register and moves to the next instruction.
    fn set_index(&mut self, value: u16)
        requires
            old(self)@.pc_in_memory(),
        ensures
            final(self)@ == (MachineState { index: value as int, ..old(self)@.next() }),
    {
        proof {
            use_type_invariant(&*self);
        }
        self.index_reg = value;
        self.pc = self.pc + 2;
    }

    /// Puts `value` in the delay timer and moves to the next instruction.
    fn set_delay_timer(&mut self, value: u8)
        requires
            old(self)@.pc_in_memory(),
        ensures
            final(self)@ == (MachineState { delay_timer: value as int, ..old(self)@.next() }),
    {
        proof {
            use_type_invariant(&*self);
        }
        self.delay_timer = value;
        self.pc = self.pc + 2;
    }

    /// Puts `value` in the sound timer and moves to the next instruction.
    fn set_sound_timer(&mut self, value: u8)
        requires
            old(self)@.pc_in_memory(),
        ensures
            final(self)@ == (MachineState { sound_timer: value as int, ..old(self)@.next() }),
    {
        proof {
            use_type_invariant(&*self);
        }
        self.sound_timer = value;
        self.pc = self.pc + 2;
    }

    /// Stores the decimal digits of `value` at the index register and moves to
    /// the next instruction.
    fn store_decimal(&mut self, value: u8)
        requires
            old(self)@.pc_in_memory(),
            old(self)@.index_reaches(3),
        ensures
            final(self)@ == old(self)@.store_decimal(value).next(),
    {
        proof {
            use_type_invariant(&*self);
        }
        let base: usize = self.index_reg as usize;
        self.memory[base] = value / 100;
        self.memory[base + 1] = (value / 10) % 10;
        self.memory[base + 2] = value % 10;
        self.pc = self.pc + 2;
        assert(self@ =~= old(self)@.store_decimal(value).next());
    }

    /// Executes `op` as the instruction at the program counter. `random` is
    /// the byte that `AssignRandomValue` masks; no other instruction reads
    /// it.
    ///
    /// An instruction that cannot be executed is rejected before it has any
    /// effect. Register dump and load leave the index register where it is.
    /// The indexed jump adds register 0 to its address. A flag goes to `VF`
    /// after the result has gone to its register. `CallRCAProgram` changes
    /// nothing, not even the program counter: the routine that it names
    /// belongs to hardware that this machine does not have.
    pub fn execute(&mut self, op: Opcode, random: u8) -> (result: Result<(), CpuError>)
        ensures
            final(self)@.well_formed(),
            agrees(old(self)@.execute(op, random), result, old(self)@, final(self)@),
    {
        proof {
            use_type_invariant(&*self);
        }
        if self.pc as usize + 1 >= MEMORY_SIZE {
            return Err(CpuError::MemoryOutOfBounds(self.pc));
        }
        match check_registers(op) {
            Err(error) => {
                return Err(error);
            },
            Ok(()) => {},
        }
        match op {
            Opcode::CallRCAProgram(_) => {},
            Opcode::ClearDisplay => {
                self.clear_display();
            },
            Opcode::ReturnFromSubroutine => {
                if self.sp == 0 {
                    return Err(CpuError::StackUnderflow);
                }
                self.return_from_call();
            },
            Opcode::JumpToAddr(addr) => {
                self.jump(low_address(addr));
            },
            Opcode::CallSubroutine(addr) => {
                if self.sp >= STACK_DEPTH {
                    return Err(CpuError::StackOverflow);
                }
                self.call(low_address(addr));
            },
            Opcode::SkipIfRegisterSet { addr, value } => {
                let taken: bool = self.registers[addr as usize] == low_byte(value);
                self.skip_if(taken);
            },
            Opcode::SkipIfRegisterNotSet { addr, value } => {
                let taken: bool = self.registers[addr as usize] != low_byte(value);
                self.skip_if(taken);
            },
            Opcode::SkipIfRegistersEqual { first, second } => {
                let taken: bool = self.registers[first as usize] == self.registers[second as usize];
                self.skip_if(taken);
            },
            Opcode::SetRegister { addr, value } => {
                self.set_register(addr, low_byte(value));
            },
            Opcode::AddToRegister { addr, value } => {
                let sum: u16 = self.registers[addr as usize] as u16 + low_byte(value) as u16;
                self.set_register(addr, (sum % 0x100) as u8);
            },
            Opcode::AssignRegister { first, second } => {
                let other: u8 = self.registers[second as usize];
                self.set_register(first, other);
            },
            Opcode::AssignRegisterBitwiseOr { first, second } => {
                let initial: u8 = self.registers[first as usize];
                let other: u8 = self.registers[second as usize];
                self.set_register(first, initial | other);
            },
            Opcode::AssignRegisterBitwiseAnd { first, second } => {
                let initial: u8 = self.registers[first as usize];
                let other: u8 = self.registers[second as usize];
                self.set_register(first, initial & other);
            },
            Opcode::AssignRegisterBitwiseXor { first, second } => {
                let initial: u8 = self.registers[first as usize];
                let other: u8 = self.registers[second as usize];
                self.set_register(first, initial ^ other);
            },
            Opcode::AddRegisters { first, second } => {
                let initial: u8 = self.registers[first as usize];
                let other: u8 = self.registers[second as usize];
                let sum: u16 = initial as u16 + other as u16;
                self.set_result_and_flag(first, (sum % 0x100) as u8, sum > 0xFF);
            },
            Opcode::SubtractRegisters { first, second } => {
                let initial: u8 = self.registers[first as usize];
                let other: u8 = self.registers[second as usize];
                self.set_result_and_flag(first, initial.wrapping_sub(other), initial >= other);
            },
            Opcode::AssignRegisterBitshiftRight { first, second } => {
                let other: u8 = self.registers[second as usize];
                proof {
                    lemma_shift_right(other);
                }
                self.set_result_and_flag(first, other >> 1, other & 1 == 1);
            },
            Opcode::SubtractFirstRegister { first, second } => {
                let initial: u8 = self.registers[first as usize];
                let other: u8 = self.registers[second as usize];
                self.set_result_and_flag(first, other.wrapping_sub(initial), other >= initial);
            },
            Opcode::AssignRegistersBitshiftLeft { first, second } => {
                let other: u8 = self.registers[second as usize];
                proof {
                    lemma_shift_left(other);
                }
                self.set_result_and_flag(first, other << 1, (other & 0x80) >> 7 == 1);
            },
            Opcode::SkipIfRegistersNotEqual { first, second } => {
                let taken: bool = self.registers[first as usize] != self.registers[second as usize];
                self.skip_if(taken);
            },
            Opcode::SetIndexRegister(addr) => {
                self.set_index(low_address(addr));
            },
            Opcode::SetProgramCounter(addr) => {
                let target: u16 = low_address(addr) + self.registers[0] as u16;
                self.jump(target);
            },
            Opcode::AssignRandomValue { addr, value } => {
                self.set_register(addr, random & low_byte(value));
            },
            Opcode::Draw { x, y, height } => {
                let rows: u16 = height % 0x10;
                if self.index_reg as usize + rows as usize > MEMORY_SIZE {
                    return Err(CpuError::MemoryOutOfBounds(self.index_reg));
                }
                let vx: u8 = self.registers[x as usize];
                let vy: u8 = self.registers[y as usize];
                self.draw_sprite(vx, vy, rows);
            },
            Opcode::SkipIfKeyPressed(x) => {
                let key: u8 = self.registers[x as usize];
                if key > 0xF {
                    return Err(CpuError::InvalidKeyIndex(key));
                }
                let taken: bool = match self.keys[key as usize] {
                    KeyState::Pressed => true,
                    KeyState::Released => false,
                };
                self.skip_if(taken);
            },
            Opcode::SkipIfKeyNotPressed(x) => {
                let key: u8 = self.registers[x as usize];
                if key > 0xF {
                    return Err(CpuError::InvalidKeyIndex(key));
                }
                let taken: bool = match self.keys[key as usize] {
                    KeyState::Released => true,
                    KeyState::Pressed => false,
                };
                self.skip_if(taken);
            },
            Opcode::AssignToDelayTime(x) => {
                let value: u8 = self.delay_timer;
                self.set_register(x, value);
            },
            Opcode::AssignOnKeyPress(x) => {
                match self.first_pressed_key() {
                    Some(key) => {
                        self.set_register(x, key);
                    },
                    None => {},
                }
            },
            Opcode::SetDelayTimer(x) => {
                let value: u8 = self.registers[x as usize];
                self.set_delay_timer(value);
            },
            Opcode::SetSoundTimer(x) => {
                let value: u8 = self.registers[x as usize];
                self.set_sound_timer(value);
            },
            Opcode::AddToIndexRegister(x) => {
                let sum: u16 = self.index_reg.wrapping_add(self.registers[x as usize] as u16);
                self.set_index(sum);
            },
            Opcode::SetIndexRegisterToSpriteAddr(x) => {
                let digit: u8 = self.registers[x as usize];
                if digit > 0xF {
                    return Err(CpuError::InvalidDigit(digit));
                }
                self.set_index(GLYPH_SIZE * digit as u16);
            },
            Opcode::SetBCD(x) => {
                if self.index_reg as usize + 3 > MEMORY_SIZE {
                    return Err(CpuError::MemoryOutOfBounds(self.index_reg));
                }
                let value: u8 = self.registers[x as usize];
                self.store_decimal(value);
            },
            Opcode::DumpRegister(x) => {
                if self.index_reg as usize + x as usize + 1 > MEMORY_SIZE {
                    return Err(CpuError::MemoryOutOfBounds(self.index_reg));
                }
                self.dump_registers(x);
            },
            Opcode::LoadRegister(x) => {
                if self.index_reg as usize + x as usize + 1 > MEMORY_SIZE {
                    return Err(CpuError::MemoryOutOfBounds(self.index_reg));
                }
                self.load_registers(x);
            },
        }
        Ok(())
    }
    /// Reads the word at the program counter, high byte first.
    pub fn fetch(&self) -> (word: Result<u16, CpuError>)
        ensures
            word == self@.fetch(),
    {
        proof {
            use_type_invariant(self);
        }
        let pc: usize = self.pc as usize;
        if pc + 1 >= MEMORY_SIZE {
            return Err(CpuError::MemoryOutOfBounds(self.pc));
        }
        let high: u8 = self.memory[pc];
        let low: u8 = self.memory[pc + 1];
        proof {
            lemma_word(high, low);
        }
        Ok((high as u16) << 8 | low as u16)
    }

    /// Fetches and decodes the instruction at the program counter.
    fn fetch_instruction(&self) -> (decoded: Result<Opcode, CpuError>)
        ensures
            decoded == match self@.fetch() {
                Err(error) => Err::<Opcode, CpuError>(error),
                Ok(word) => decode_word(word),
            },
    {
        match self.fetch() {
            Err(error) => Err(error),
            Ok(word) => self.decode(word),
        }
    }

    /// One step with a given random byte: fetches the instruction at the
    /// program counter, decodes it and executes it. A step that fails leaves
    /// the machine as it was.
    pub fn step_with(&mut self, random: u8) -> (result: Result<(), CpuError>)
        ensures
            final(self)@.well_formed(),
            agrees(old(self)@.step(random), result, old(self)@, final(self)@),
    {
        proof {
            use_type_invariant(&*self);
        }
        match self.fetch_instruction() {
            Err(error) => Err(error),
            Ok(op) => self.execute(op, random),
        }
    }

    /// One step: fetches the instruction at the program counter, decodes it
    /// and executes it. A random byte is drawn where the instruction asks
    /// for one; what the step does is then what `step_with` does for some
    /// byte. A step that fails leaves the machine as it was.
    pub fn step(&mut self) -> (result: Result<(), CpuError>)
        ensures
            final(self)@.well_formed(),
            exists|random: u8| agrees(old(self)@.step(random), result, old(self)@, final(self)@),
            !old(self)@.draws_random() ==> forall|random: u8|
                agrees(old(self)@.step(random), result, old(self)@, final(self)@),
    {
        proof {
            use_type_invariant(&*self);
        }
        let op: Opcode = match self.fetch_instruction() {
            Err(error) => {
                assert(agrees(old(self)@.step(0), Err(error), old(self)@, self@));
                return Err(error);
            },
            Ok(op) => op,
        };
        let random: u8 = match op {
            Opcode::AssignRandomValue { .. } => random_byte(),
            _ => 0,
        };
        let result = self.execute(op, random);
        assert(agrees(old(self)@.step(random), result, old(self)@, self@));
        result
    }

    /// One timer update. Every tenth update takes one from each timer that is
    /// not yet zero. The result says what to do with the tone: start it on the
    /// update that takes the sound timer from one to zero, stop it on an
    /// update that finds the sound timer at zero.
    pub fn update_timers(&mut self) -> (signal: SoundSignal)
        ensures
            final(self)@.well_formed(),
            final(self)@ == old(self)@.tick(),
            signal == old(self)@.sound_signal(),
    {
        proof {
            use_type_invariant(&*self);
        }
        if self.counter + 1 < TIMER_PERIOD {
            self.counter = self.counter + 1;
            return SoundSignal::Keep;
        }
        self.counter = 0;
        if self.delay_timer > 0 {
            self.delay_timer = self.delay_timer - 1;
        }
        if self.sound_timer > 1 {
            self.sound_timer = self.sound_timer - 1;
            SoundSignal::Keep
        } else if self.sound_timer == 1 {
            self.sound_timer = 0;
            SoundSignal::Start
        } else {
            SoundSignal::Stop
        }
    }

    /// Ends a cycle after its step: updates the timers and hands the redraw
    /// request to the driver, clearing it in the machine.
    fn end_cycle(&mut self) -> (frame: Frame)
        ensures
            frame == old(self)@.frame(),
            final(self)@ == old(self)@.end_cycle(),
    {
        let redraw: bool = self.draw_screen;
        let sound: SoundSignal = self.update_timers();
        proof {
            use_type_invariant(&*self);
        }
        self.draw_screen = false;
        Frame { sound, redraw }
    }

    /// One cycle of the machine with a given random byte: one step, then one
    /// timer update. The result tells the driver what to do with the tone and
    /// whether to show the framebuffer; the machine's own redraw request is
    /// cleared. A cycle whose step fails leaves the machine as it was.
    pub fn cycle_with(&mut self, random: u8) -> (result: Result<Frame, CpuError>)
        ensures
            final(self)@.well_formed(),
            cycle_agrees(old(self)@.step(random), result, old(self)@, final(self)@),
    {
        match self.step_with(random) {
            Err(error) => Err(error),
            Ok(()) => Ok(self.end_cycle()),
        }
    }

    /// One cycle of the machine: one step, then one timer update. A random
    /// byte is drawn where the instruction asks for one; what the cycle does
    /// is then what `cycle_with` does for some byte.
    pub fn cycle(&mut self) -> (result: Result<Frame, CpuError>)
        ensures
            final(self)@.well_formed(),
            exists|random: u8|
                cycle_agrees(old(self)@.step(random), result, old(self)@, final(self)@),
            !old(self)@.draws_random() ==> forall|random: u8|
                cycle_agrees(old(self)@.step(random), result, old(self)@, final(self)@),
    {
        let ghost before = self@;
        match self.step() {
            Err(error) => {
                let ghost random = choose|random: u8|
                    agrees(before.step(random), Err::<(), CpuError>(error), before, self@);
                assert(cycle_agrees(before.step(random), Err(error), before, self@));
                Err(error)
            },
            Ok(()) => {
                let ghost random = choose|random: u8|
                    agrees(before.step(random), Ok::<(), CpuError>(()), before, self@);
                let frame = self.end_cycle();
                assert(cycle_agrees(before.step(random), Ok(frame), before, self@));
                Ok(frame)
            },
        }
    }

    /// Puts keypad key `key` in the given state.
    pub fn set_key(&mut self, key: u8, state: KeyState) -> (result: Result<(), CpuError>)
        ensures
            final(self)@.well_formed(),
            key <= 0xF ==> result is Ok && final(self)@ == old(self)@.with_key(key as int, state),
            key > 0xF ==> result == Err::<(), CpuError>(CpuError::InvalidKeyIndex(key))
                && final(self)@ == old(self)@,
    {
        proof {
            use_type_invariant(&*self);
        }
        if key > 0xF {
            return Err(CpuError::InvalidKeyIndex(key));
        }
        self.keys[key as usize] = state;
        Ok(())
    }

    /// Puts the keypad key for which the keyboard key `keycode` stands in the
    /// given state.
    fn key_event(&mut self, keycode: i32, state: KeyState)
        ensures
            final(self)@.well_formed(),
            final(self)@ == old(self)@.key_event(keycode, state),
    {
        proof {
            use_type_invariant(&*self);
        }
        match keypad_index(keycode) {
            Some(key) => {
                self.keys[key as usize] = state;
            },
            None => {},
        }
    }

    /// The keyboard key `keycode` went down: the keypad key for which it
    /// stands is pressed.
    pub fn handle_key_down(&mut self, keycode: i32)
        ensures
            final(self)@.well_formed(),
            final(self)@ == old(self)@.key_event(keycode, KeyState::Pressed),
    {
        self.key_event(keycode, KeyState::Pressed);
    }

    /// The keyboard key `keycode` went up: the keypad key for which it stands
    /// is released.
    pub fn handle_key_up(&mut self, keycode: i32)
        ensures
            final(self)@.well_formed(),
            final(self)@ == old(self)@.key_event(keycode, KeyState::Released),
    {
        self.key_event(keycode, KeyState::Released);
    }

    /// Reacts to an input event and says whether the run goes on: it ends on a
    /// request to quit and on the escape key.
    pub fn handle_event(&mut self, event: InputEvent) -> (running: bool)
        ensures
            final(self)@.well_formed(),
            running == !MachineState::ends_run(event),
            final(self)@ == old(self)@.handle_event(event),
    {
        proof {
            use_type_invariant(&*self);
        }
        match event {
            InputEvent::Quit => false,
            InputEvent::KeyDown(keycode) => {
                if keycode == ESCAPE_KEY {
                    false
                } else {
                    self.handle_key_down(keycode);
                    true
                }
            },
            InputEvent::KeyUp(keycode) => {
                self.handle_key_up(keycode);
                true
            },
            InputEvent::Other => true,
        }
    }
    /// The program counter.
    pub fn program_counter(&self) -> (pc: u16)
        ensures
            pc == self@.pc,
    {
        self.pc
    }

    /// The index register.
    pub fn index_register(&self) -> (index: u16)
        ensures
            index == self@.index,
    {
        self.index_reg
    }

    /// The value of register `r`.
    pub fn register(&self, r: u16) -> (value: Result<u8, CpuError>)
        ensures
            value == if r <= 0xF {
                Ok::<u8, CpuError>(self@.registers[r as int])
            } else {
                Err::<u8, CpuError>(CpuError::InvalidRegisterIndex(r))
            },
    {
        proof {
            use_type_invariant(self);
        }
        if r > 0xF {
            return Err(CpuError::InvalidRegisterIndex(r));
        }
        Ok(self.registers[r as usize])
    }

    /// The byte of memory at `address`.
    pub fn memory_byte(&self, address: u16) -> (value: Result<u8, CpuError>)
        ensures
            value == if address < MEMORY_SIZE {
                Ok::<u8, CpuError>(self@.memory[address as int])
            } else {
                Err::<u8, CpuError>(CpuError::MemoryOutOfBounds(address))
            },
    {
        proof {
            use_type_invariant(self);
        }
        if address as usize >= MEMORY_SIZE {
            return Err(CpuError::MemoryOutOfBounds(address));
        }
        Ok(self.memory[address as usize])
    }

    /// The delay timer.
    pub fn delay_timer(&self) -> (value: u8)
        ensures
            value == self@.delay_timer,
    {
        self.delay_timer
    }

    /// The sound timer.
    pub fn sound_timer(&self) -> (value: u8)
        ensures
            value == self@.sound_timer,
    {
        self.sound_timer
    }

    /// The number of calls in progress.
    pub fn stack_depth(&self) -> (depth: u16)
        ensures
            depth == self@.stack.len(),
    {
        proof {
            use_type_invariant(self);
        }
        self.sp
    }

    /// The keypad, by key number.
    pub fn keys(&self) -> (keys: &Vec<KeyState>)
        ensures
            keys@ == self@.keys,
            keys@.len() == 16,
    {
        proof {
            use_type_invariant(self);
        }
        &self.keys
    }

    /// The framebuffer, row by row: cell `(x, y)` is at `y * 64 + x`.
    pub fn display(&self) -> (display: &Vec<Pixel>)
        ensures
            display@ == self@.display,
            display@.len() == 2048,
    {
        proof {
            use_type_invariant(self);
        }
        &self.display
    }

    /// Whether the framebuffer changed since the flag was last cleared.
    pub fn draw_screen(&self) -> (flag: bool)
        ensures
            flag == self@.draw_screen,
    {
        self.draw_screen
    }

    /// Clears the flag that says that the framebuffer changed; for a driver
    /// that has shown it.
    pub fn clear_draw_screen(&mut self)
        ensures
            final(self)@ == (MachineState { draw_screen: false, ..old(self)@ }),
            final(self)@.well_formed(),
    {
        proof {
            use_type_invariant(&*self);
        }
        self.draw_screen = false;
    }
}

} // verus!
