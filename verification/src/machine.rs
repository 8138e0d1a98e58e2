//! The machine as a mathematical value, and what every operation makes of it.
//!
//! `MachineState` is the view of a `Cpu`. The contracts of the executable
//! operations say that the `Cpu` moves as the functions of this module move
//! its view.

use crate::display::{blit, collides, Pixel};
use crate::keypad::{key_named, lowest_pressed, InputEvent, KeyState, ESCAPE_KEY};
use crate::opcode::{decode_word, CpuError, Opcode};
use vstd::prelude::*;

verus! {

/// Number of bytes of memory.
pub const MEMORY_SIZE: usize = 4096;

/// Address at which a program is loaded and at which it starts.
pub const PROGRAM_START: u16 = 0x200;

/// Largest program that fits between `PROGRAM_START` and the end of memory.
pub const MAX_ROM_SIZE: usize = 3584;

/// Number of general-purpose registers.
pub const REGISTER_COUNT: usize = 16;

/// Number of return addresses that the call stack holds.
pub const STACK_DEPTH: u16 = 16;

/// Number of the register that receives carry, borrow and collision flags.
pub const FLAG_REGISTER: usize = 0xF;

/// Number of bytes of one glyph of the built-in font.
pub const GLYPH_SIZE: u16 = 5;

/// Number of timer updates that make one decrement of the timers.
pub const TIMER_PERIOD: u8 = 10;

/// The built-in font: sixteen glyphs of five rows each, one glyph for each
/// hexadecimal digit, in the order of the digits.
pub const FONTSET: [u8; 80] = [
    0xF0, 0x90, 0x90, 0x90, 0xF0,
    0x20, 0x60, 0x20, 0x20, 0x70,
    0xF0, 0x10, 0xF0, 0x80, 0xF0,
    0xF0, 0x10, 0xF0, 0x10, 0xF0,
    0x90, 0x90, 0xF0, 0x10, 0x10,
    0xF0, 0x80, 0xF0, 0x10, 0xF0,
    0xF0, 0x80, 0xF0, 0x90, 0xF0,
    0xF0, 0x10, 0x20, 0x40, 0x40,
    0xF0, 0x90, 0xF0, 0x90, 0xF0,
    0xF0, 0x90, 0xF0, 0x10, 0xF0,
    0xF0, 0x90, 0xF0, 0x90, 0x90,
    0xE0, 0x90, 0xE0, 0x90, 0xE0,
    0xF0, 0x80, 0x80, 0x80, 0xF0,
    0xE0, 0x90, 0x90, 0x90, 0xE0,
    0xF0, 0x80, 0xF0, 0x80, 0xF0,
    0xF0, 0x80, 0xF0, 0x80, 0x80,
];

/// What a timer update asks of the tone generator.
#[derive(Clone, Copy, Debug, PartialEq, Eq, Structural)]
pub enum SoundSignal {
    /// Start the tone.
    Start,
    /// Stop the tone.
    Stop,
    /// Leave the tone as it is.
    Keep,
}

/// What one cycle of the machine asks of its driver.
#[derive(Clone, Copy, Debug, PartialEq, Eq, Structural)]
pub struct Frame {
    /// What to do with the tone.
    pub sound: SoundSignal,
    /// Whether the framebuffer changed and is to be shown.
    pub redraw: bool,
}

/// The state of the machine.
#[verifier::ext_equal]
pub struct MachineState {
    /// Address of the instruction that is executed next.
    pub pc: int,
    /// The index register `I`.
    pub index: int,
    /// The registers `V0` to `VF`.
    pub registers: Seq<u8>,
    /// The memory.
    pub memory: Seq<u8>,
    /// The return addresses of the calls in progress, the latest last.
    pub stack: Seq<u16>,
    /// The delay timer.
    pub delay_timer: int,
    /// The sound timer.
    pub sound_timer: int,
    /// Number of timer updates since the timers were last decremented.
    pub counter: int,
    /// The keypad.
    pub keys: Seq<KeyState>,
    /// The framebuffer, row by row.
    pub display: Seq<Pixel>,
    /// Whether the framebuffer changed since it was last shown.
    pub draw_screen: bool,
}

/// The low byte of an immediate operand: the part that its instruction
/// encodes.
pub open spec fn byte_operand(value: u16) -> u8 {
    (value % 0x100) as u8
}

/// The low twelve bits of an address operand: the part that its instruction
/// encodes.
pub open spec fn address_operand(addr: u16) -> int {
    (addr % 0x1000) as int
}

/// The low nibble of a sprite height: the part that the draw instruction
/// encodes.
pub open spec fn height_operand(height: u16) -> int {
    (height % 0x10) as int
}

/// The flag value for a condition.
pub open spec fn flag(condition: bool) -> u8 {
    if condition {
        1
    } else {
        0
    }
}

/// What a cycle has to have done, given what the model says of its step: on
/// `Ok` the machine ended the cycle from the state given and the driver was
/// told of it, on `Err` the cycle returned that error and left the machine as
/// it was.
pub open spec fn cycle_agrees(
    stepped: Result<MachineState, CpuError>,
    result: Result<Frame, CpuError>,
    before: MachineState,
    after: MachineState,
) -> bool {
    match stepped {
        Ok(state) => result == Ok::<Frame, CpuError>(state.frame()) && after == state.end_cycle(),
        Err(error) => result == Err::<Frame, CpuError>(error) && after == before,
    }
}

/// What an executable operation has to have done, given what the model says
/// of it: on `Ok` the machine is in the state given and the operation
/// succeeded, on `Err` it returned that error and left the machine as it was.
pub open spec fn agrees(
    expected: Result<MachineState, CpuError>,
    result: Result<(), CpuError>,
    before: MachineState,
    after: MachineState,
) -> bool {
    match expected {
        Ok(state) => result is Ok && after == state,
        Err(error) => result == Err::<(), CpuError>(error) && after == before,
    }
}

impl MachineState {
    /// The invariant of the machine: the sizes of its parts and the ranges of
    /// its counters.
    pub open spec fn well_formed(self) -> bool {
        &&& 0 <= self.pc <= u16::MAX
        &&& 0 <= self.index <= u16::MAX
        &&& self.registers.len() == REGISTER_COUNT
        &&& self.memory.len() == MEMORY_SIZE
        &&& self.stack.len() <= STACK_DEPTH
        &&& 0 <= self.delay_timer <= u8::MAX
        &&& 0 <= self.sound_timer <= u8::MAX
        &&& 0 <= self.counter < TIMER_PERIOD
        &&& self.keys.len() == 16
        &&& self.display.len() == 2048
    }

    /// The machine at power-on: everything zero, released or black, and the
    /// program counter at `PROGRAM_START`.
    pub open spec fn initial() -> MachineState {
        MachineState {
            pc: PROGRAM_START as int,
            index: 0,
            registers: Seq::new(REGISTER_COUNT as nat, |r: int| 0u8),
            memory: Seq::new(MEMORY_SIZE as nat, |a: int| 0u8),
            stack: Seq::empty(),
            delay_timer: 0,
            sound_timer: 0,
            counter: 0,
            keys: Seq::new(16, |k: int| KeyState::Released),
            display: Seq::new(2048, |c: int| Pixel::Black),
            draw_screen: false,
        }
    }

    /// The machine with the built-in font at the bottom of its memory.
    pub open spec fn with_font(self) -> MachineState {
        MachineState {
            memory: Seq::new(
                self.memory.len(),
                |a: int|
                    if 0 <= a < 80 {
                        FONTSET[a]
                    } else {
                        self.memory[a]
                    },
            ),
            ..self
        }
    }

    /// The machine with the program `rom` in its memory from `PROGRAM_START`
    /// on.
    pub open spec fn with_rom(self, rom: Seq<u8>) -> MachineState {
        MachineState {
            memory: Seq::new(
                self.memory.len(),
                |a: int|
                    if PROGRAM_START <= a < PROGRAM_START + rom.len() {
                        rom[a - PROGRAM_START]
                    } else {
                        self.memory[a]
                    },
            ),
            ..self
        }
    }

    /// What loading `rom` makes of the machine: a program of more than
    /// `MAX_ROM_SIZE` bytes is refused.
    pub open spec fn load_rom(self, rom: Seq<u8>) -> Result<MachineState, CpuError> {
        if rom.len() <= MAX_ROM_SIZE {
            Ok(self.with_rom(rom))
        } else {
            Err(CpuError::RomTooLarge(rom.len() as usize))
        }
    }

    /// Whether the program counter is the address of a whole instruction
    /// inside memory.
    pub open spec fn pc_in_memory(self) -> bool {
        0 <= self.pc && self.pc + 1 < self.memory.len()
    }

    /// The word at the program counter, high byte first.
    pub open spec fn fetch(self) -> Result<u16, CpuError> {
        if self.pc_in_memory() {
            Ok((self.memory[self.pc] * 0x100 + self.memory[self.pc + 1]) as u16)
        } else {
            Err(CpuError::MemoryOutOfBounds(self.pc as u16))
        }
    }

    /// The value of register `r`.
    pub open spec fn reg(self, r: u16) -> u8 {
        self.registers[r as int]
    }

    /// The machine with the program counter at the next instruction.
    pub open spec fn next(self) -> MachineState {
        MachineState { pc: self.pc + 2, ..self }
    }

    /// The machine with the program counter behind the next instruction if
    /// `taken`, and at it if not.
    pub open spec fn skip(self, taken: bool) -> MachineState {
        MachineState {
            pc: if taken {
                self.pc + 4
            } else {
                self.pc + 2
            },
            ..self
        }
    }

    /// The machine with `value` in register `r`.
    pub open spec fn with_register(self, r: u16, value: u8) -> MachineState {
        MachineState { registers: self.registers.update(r as int, value), ..self }
    }

    /// The machine with `value` in register `r` and then the flag in `VF`: where
    /// `r` is `VF` itself, the flag is what stays.
    pub open spec fn with_result_and_flag(self, r: u16, value: u8, condition: bool) -> MachineState {
        MachineState {
            registers: self.registers.update(r as int, value).update(
                FLAG_REGISTER as int,
                flag(condition),
            ),
            ..self
        }
    }

    /// The sprite of `rows` rows at the index register.
    pub open spec fn sprite(self, rows: int) -> Seq<u8> {
        self.memory.subrange(self.index, self.index + rows)
    }

    /// Whether the `count` bytes from the index register on lie in memory.
    pub open spec fn index_reaches(self, count: int) -> bool {
        self.index + count <= self.memory.len()
    }

    /// The machine after the sprite of `rows` rows at the index register was
    /// drawn with its corner at `(vx, vy)`: the covered cells are flipped, `VF`
    /// says whether a white cell went black, and the framebuffer is marked as
    /// changed.
    pub open spec fn draw(self, vx: u8, vy: u8, rows: int) -> MachineState {
        let sprite = self.sprite(rows);
        MachineState {
            display: blit(self.display, sprite, vx as int, vy as int),
            registers: self.registers.update(
                FLAG_REGISTER as int,
                flag(collides(self.display, sprite, vx as int, vy as int)),
            ),
            draw_screen: true,
            ..self
        }
    }

    /// The machine with the three decimal digits of `value` at the index
    /// register: hundreds, tens, ones.
    pub open spec fn store_decimal(self, value: u8) -> MachineState {
        MachineState {
            memory: self.memory.update(self.index, (value / 100) as u8).update(
                self.index + 1,
                ((value / 10) % 10) as u8,
            ).update(self.index + 2, (value % 10) as u8),
            ..self
        }
    }

    /// The machine with the registers `V0..=Vlast` copied to memory at the
    /// index register, which stays where it is.
    pub open spec fn dump_registers(self, last: u16) -> MachineState {
        MachineState {
            memory: Seq::new(
                self.memory.len(),
                |a: int|
                    if self.index <= a <= self.index + last {
                        self.registers[a - self.index]
                    } else {
                        self.memory[a]
                    },
            ),
            ..self
        }
    }

    /// The machine with the registers `V0..=Vlast` loaded from memory at the
    /// index register, which stays where it is.
    pub open spec fn load_registers(self, last: u16) -> MachineState {
        MachineState {
            registers: Seq::new(
                self.registers.len(),
                |r: int|
                    if 0 <= r <= last {
                        self.memory[self.index + r]
                    } else {
                        self.registers[r]
                    },
            ),
            ..self
        }
    }

    /// What the instruction makes of a machine whose program counter is in
    /// memory and whose instruction names registers only.
    pub open spec fn perform(self, op: Opcode, random: u8) -> Result<MachineState, CpuError> {
        match op {
            Opcode::CallRCAProgram(_) => Ok(self),
            Opcode::ClearDisplay => Ok(
                MachineState {
                    display: Seq::new(self.display.len(), |c: int| Pixel::Black),
                    draw_screen: true,
                    ..self.next()
                },
            ),
            Opcode::ReturnFromSubroutine => if self.stack.len() == 0 {
                Err(CpuError::StackUnderflow)
            } else {
                Ok(
                    MachineState {
                        pc: self.stack.last() as int,
                        stack: self.stack.drop_last(),
                        ..self
                    },
                )
            },
            Opcode::JumpToAddr(addr) => Ok(MachineState { pc: address_operand(addr), ..self }),
            Opcode::CallSubroutine(addr) => if self.stack.len() >= STACK_DEPTH {
                Err(CpuError::StackOverflow)
            } else {
                Ok(
                    MachineState {
                        pc: address_operand(addr),
                        stack: self.stack.push((self.pc + 2) as u16),
                        ..self
                    },
                )
            },
            Opcode::SkipIfRegisterSet { addr, value } => Ok(
                self.skip(self.reg(addr) == byte_operand(value)),
            ),
            Opcode::SkipIfRegisterNotSet { addr, value } => Ok(
                self.skip(self.reg(addr) != byte_operand(value)),
            ),
            Opcode::SkipIfRegistersEqual { first, second } => Ok(
                self.skip(self.reg(first) == self.reg(second)),
            ),
            Opcode::SetRegister { addr, value } => Ok(
                self.with_register(addr, byte_operand(value)).next(),
            ),
            Opcode::AddToRegister { addr, value } => Ok(
                self.with_register(
                    addr,
                    ((self.reg(addr) + byte_operand(value)) % 0x100) as u8,
                ).next(),
            ),
            Opcode::AssignRegister { first, second } => Ok(
                self.with_register(first, self.reg(second)).next(),
            ),
            Opcode::AssignRegisterBitwiseOr { first, second } => Ok(
                self.with_register(first, self.reg(first) | self.reg(second)).next(),
            ),
            Opcode::AssignRegisterBitwiseAnd { first, second } => Ok(
                self.with_register(first, self.reg(first) & self.reg(second)).next(),
            ),
            Opcode::AssignRegisterBitwiseXor { first, second } => Ok(
                self.with_register(first, self.reg(first) ^ self.reg(second)).next(),
            ),
            Opcode::AddRegisters { first, second } => {
                let sum = self.reg(first) + self.reg(second);
                Ok(self.with_result_and_flag(first, (sum % 0x100) as u8, sum > 0xFF).next())
            },
            Opcode::SubtractRegisters { first, second } => {
                let minuend = self.reg(first);
                let subtrahend = self.reg(second);
                Ok(
                    self.with_result_and_flag(
                        first,
                        ((minuend - subtrahend) % 0x100) as u8,
                        minuend >= subtrahend,
                    ).next(),
                )
            },
            Opcode::AssignRegisterBitshiftRight { first, second } => {
                let source = self.reg(second);
                Ok(self.with_result_and_flag(first, (source / 2) as u8, source % 2 == 1).next())
            },
            Opcode::SubtractFirstRegister { first, second } => {
                let minuend = self.reg(second);
                let subtrahend = self.reg(first);
                Ok(
                    self.with_result_and_flag(
                        first,
                        ((minuend - subtrahend) % 0x100) as u8,
                        minuend >= subtrahend,
                    ).next(),
                )
            },
            Opcode::AssignRegistersBitshiftLeft { first, second } => {
                let source = self.reg(second);
                Ok(
                    self.with_result_and_flag(
                        first,
                        ((source * 2) % 0x100) as u8,
                        source >= 0x80,
                    ).next(),
                )
            },
            Opcode::SkipIfRegistersNotEqual { first, second } => Ok(
                self.skip(self.reg(first) != self.reg(second)),
            ),
            Opcode::SetIndexRegister(addr) => Ok(
                MachineState { index: address_operand(addr), ..self.next() },
            ),
            Opcode::SetProgramCounter(addr) => Ok(
                MachineState { pc: address_operand(addr) + self.reg(0), ..self },
            ),
            Opcode::AssignRandomValue { addr, value } => Ok(
                self.with_register(addr, random & byte_operand(value)).next(),
            ),
            Opcode::Draw { x, y, height } => if self.index_reaches(height_operand(height)) {
                Ok(self.draw(self.reg(x), self.reg(y), height_operand(height)).next())
            } else {
                Err(CpuError::MemoryOutOfBounds(self.index as u16))
            },
            Opcode::SkipIfKeyPressed(x) => if self.reg(x) > 0xF {
                Err(CpuError::InvalidKeyIndex(self.reg(x)))
            } else {
                Ok(self.skip(self.keys[self.reg(x) as int] == KeyState::Pressed))
            },
            Opcode::SkipIfKeyNotPressed(x) => if self.reg(x) > 0xF {
                Err(CpuError::InvalidKeyIndex(self.reg(x)))
            } else {
                Ok(self.skip(self.keys[self.reg(x) as int] == KeyState::Released))
            },
            Opcode::AssignToDelayTime(x) => Ok(
                self.with_register(x, self.delay_timer as u8).next(),
            ),
            Opcode::AssignOnKeyPress(x) => match lowest_pressed(self.keys) {
                Some(key) => Ok(self.with_register(x, key).next()),
                None => Ok(self),
            },
            Opcode::SetDelayTimer(x) => Ok(
                MachineState { delay_timer: self.reg(x) as int, ..self.next() },
            ),
            Opcode::SetSoundTimer(x) => Ok(
                MachineState { sound_timer: self.reg(x) as int, ..self.next() },
            ),
            Opcode::AddToIndexRegister(x) => Ok(
                MachineState { index: (self.index + self.reg(x)) % 0x1_0000, ..self.next() },
            ),
            Opcode::SetIndexRegisterToSpriteAddr(x) => if self.reg(x) > 0xF {
                Err(CpuError::InvalidDigit(self.reg(x)))
            } else {
                Ok(MachineState { index: GLYPH_SIZE * self.reg(x), ..self.next() })
            },
            Opcode::SetBCD(x) => if self.index_reaches(3) {
                Ok(self.store_decimal(self.reg(x)).next())
            } else {
                Err(CpuError::MemoryOutOfBounds(self.index as u16))
            },
            Opcode::DumpRegister(x) => if self.index_reaches(x + 1) {
                Ok(self.dump_registers(x).next())
            } else {
                Err(CpuError::MemoryOutOfBounds(self.index as u16))
            },
            Opcode::LoadRegister(x) => if self.index_reaches(x + 1) {
                Ok(self.load_registers(x).next())
            } else {
                Err(CpuError::MemoryOutOfBounds(self.index as u16))
            },
        }
    }

    /// What executing `op` as the instruction at the program counter makes of
    /// the machine; `random` is the byte that a random instruction draws.
    ///
    /// The checks come before any effect and in this order: the program
    /// counter lies in memory, every register number is a register, and then
    /// what the instruction itself asks of the stack, of a key or digit value
    /// and of the index register. Immediate operands count as far as their
    /// instruction encodes them.
    pub open spec fn execute(self, op: Opcode, random: u8) -> Result<MachineState, CpuError> {
        if !self.pc_in_memory() {
            Err(CpuError::MemoryOutOfBounds(self.pc as u16))
        } else {
            match op.invalid_register() {
                Some(r) => Err(CpuError::InvalidRegisterIndex(r)),
                None => self.perform(op, random),
            }
        }
    }

    /// What one step makes of the machine: the word at the program counter is
    /// fetched, decoded and executed.
    pub open spec fn step(self, random: u8) -> Result<MachineState, CpuError> {
        match self.fetch() {
            Err(error) => Err(error),
            Ok(word) => match decode_word(word) {
                Err(error) => Err(error),
                Ok(op) => self.execute(op, random),
            },
        }
    }

    /// Whether the next step draws a random byte.
    pub open spec fn draws_random(self) -> bool {
        self.fetch() matches Ok(word) && decode_word(word) matches Ok(op) && op.draws_random()
    }

    /// Whether the next timer update decrements the timers.
    pub open spec fn timers_due(self) -> bool {
        self.counter + 1 >= TIMER_PERIOD
    }

    /// The machine after one timer update. Every `TIMER_PERIOD`-th update
    /// takes one from each timer that is not yet zero; the others only count.
    pub open spec fn tick(self) -> MachineState {
        if self.timers_due() {
            MachineState {
                counter: 0,
                delay_timer: if self.delay_timer > 0 {
                    self.delay_timer - 1
                } else {
                    0
                },
                sound_timer: if self.sound_timer > 0 {
                    self.sound_timer - 1
                } else {
                    0
                },
                ..self
            }
        } else {
            MachineState { counter: self.counter + 1, ..self }
        }
    }

    /// What the next timer update asks of the tone generator: to start when it
    /// takes the sound timer from one to zero, to stop when it finds the sound
    /// timer at zero, and nothing otherwise.
    pub open spec fn sound_signal(self) -> SoundSignal {
        if !self.timers_due() {
            SoundSignal::Keep
        } else if self.sound_timer == 1 {
            SoundSignal::Start
        } else if self.sound_timer == 0 {
            SoundSignal::Stop
        } else {
            SoundSignal::Keep
        }
    }

    /// The machine after `n` timer updates.
    pub open spec fn ticks(self, n: nat) -> MachineState
        decreases n,
    {
        if n == 0 {
            self
        } else {
            self.tick().ticks((n - 1) as nat)
        }
    }

    /// What the driver is told after a cycle that left the machine, before its
    /// timer update, in this state.
    pub open spec fn frame(self) -> Frame {
        Frame { sound: self.sound_signal(), redraw: self.draw_screen }
    }

    /// The machine at the end of a cycle that left it, before its timer
    /// update, in this state: the timers are updated and the framebuffer
    /// counts as shown.
    pub open spec fn end_cycle(self) -> MachineState {
        MachineState { draw_screen: false, ..self.tick() }
    }

    /// The machine with key `key` in the given state.
    pub open spec fn with_key(self, key: int, state: KeyState) -> MachineState {
        MachineState { keys: self.keys.update(key, state), ..self }
    }

    /// The machine after the keyboard key `keycode` went into the given state:
    /// the keypad key that it stands for follows, and a key that stands for
    /// none changes nothing.
    pub open spec fn key_event(self, keycode: i32, state: KeyState) -> MachineState {
        match key_named(keycode) {
            Some(key) => self.with_key(key as int, state),
            None => self,
        }
    }

    /// Whether the event ends the run: a request to quit, or the escape key
    /// going down.
    pub open spec fn ends_run(event: InputEvent) -> bool {
        event == InputEvent::Quit || event == InputEvent::KeyDown(ESCAPE_KEY)
    }

    /// The machine after an input event.
    pub open spec fn handle_event(self, event: InputEvent) -> MachineState {
        match event {
            InputEvent::KeyDown(keycode) => if keycode == ESCAPE_KEY {
                self
            } else {
                self.key_event(keycode, KeyState::Pressed)
            },
            InputEvent::KeyUp(keycode) => self.key_event(keycode, KeyState::Released),
            InputEvent::Quit | InputEvent::Other => self,
        }
    }
}

} // verus!
