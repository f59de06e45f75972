//! The mathematical model of the machine: its state as sequences, sets and
//! integers, and the effect of every instruction, key event and frame tick on
//! that state. The executable interpreter is proved against these definitions.

use vstd::prelude::*;

use crate::opcodes::Opcode;
use crate::quirks::{
    ClippingQuirk, DisplayWaitQuirk, JumpingQuirk, MemoryIncrementQuirk, QuirkConfig, ResetVfQuirk,
    ShiftingQuirk,
};

verus! {

/// Bytes of addressable memory.
pub const RAM_SIZE: usize = 4096;

/// Number of general registers.
pub const REGISTERS_SIZE: usize = 16;

/// Number of call stack slots.
pub const STACK_SIZE: usize = 16;

/// Framebuffer width in pixels.
pub const SCREEN_WIDTH: usize = 64;

/// Framebuffer height in pixels.
pub const SCREEN_HEIGHT: usize = 32;

/// Number of framebuffer pixels, row major.
pub const DRAWING_BUFFER_SIZE: usize = 2048;

/// Where a program is loaded, and where execution starts.
pub const PROGRAM_START_ADDRESS: u16 = 0x200;

/// How far the program counter moves past one instruction.
pub const PROGRAM_COUNTER_INCREMENT: u16 = 2;

/// The largest program that fits in memory.
pub const MAX_PROGRAM_SIZE: usize = 3584;

/// The flags register, VF.
pub const REGISTER_F: usize = 15;

/// Bytes of one hexadecimal digit glyph.
pub const HEXADECIMAL_DIGIT_SPRITE_LENGTH: u8 = 5;

/// Bytes of the whole glyph table.
pub const HEXADECIMAL_DIGIT_SPRITES_LENGTH: usize = 80;

/// The glyphs of the hexadecimal digits 0 to F, five rows each, preloaded at address 0.
pub const HEXADECIMAL_DIGIT_SPRITES: [u8; 80] = [
    0xF0, 0x90, 0x90, 0x90, 0xF0,
    0x20, 0x60, 0x20, 0x20, 0x70,
    0xF0, 0x10, 0xF0, 0x80, 0xF0,
    0xF0, 0x10, 0xF0, 0x10, 0xF0,
    0x90, 0x90, 0xF0, 0x10, 0x10,
    0xF0, 0x80, 0xF0, 0x10, 0xF0,
    0xF0, 0x80, 0xF0, 0x90, 0xF0,
    0xF0, 0x10, 0x20, 0x40, 0x40,
    0xF0, 0x90, 0xF0, 0x90, 0xF0,
    0xF0, 0x90, 0xF0, 0x10, 0xF0,
    0xF0, 0x90, 0xF0, 0x90, 0x90,
    0xE0, 0x90, 0xE0, 0x90, 0xE0,
    0xF0, 0x80, 0x80, 0x80, 0xF0,
    0xE0, 0x90, 0x90, 0x90, 0xE0,
    0xF0, 0x80, 0xF0, 0x80, 0xF0,
    0xF0, 0x80, 0xF0, 0x80, 0x80,
];

/// Whether the machine executes instructions or waits for an event.
#[derive(PartialEq, Eq, Debug, Clone, Copy)]
pub enum RunState {
    /// Cycles fetch, decode and execute.
    Running,
    /// Waits for a key: a press latches the key into `register`, and the
    /// release of the latched key resumes execution.
    WaitingForKey { register: usize, latched: Option<u8> },
    /// Waits for the next frame tick, which performs the pending draw.
    WaitingForDisplayRefresh { x_register: usize, y_register: usize, height: u8 },
}

impl RunState {
    /// The registers named by a suspension exist and a pending sprite height fits in a nibble.
    pub open spec fn wf(self) -> bool {
        match self {
            RunState::Running => true,
            RunState::WaitingForKey { register, .. } => register < 16,
            RunState::WaitingForDisplayRefresh { x_register, y_register, height } => x_register
                < 16 && y_register < 16 && height < 16,
        }
    }
}

/// Why a call or return could not be carried out.
#[derive(PartialEq, Eq, Debug, Clone, Copy)]
pub enum StackFault {
    /// A call with all 16 stack slots in use.
    Overflow,
    /// A return with an empty stack.
    Underflow,
}

/// The whole state of a machine.
#[verifier::ext_equal]
pub struct MachineView {
    pub is_running: bool,
    pub ram: Seq<u8>,
    pub registers: Seq<u8>,
    pub register_i: u16,
    pub delay_timer: u8,
    pub sound_timer: u8,
    pub program_counter: u16,
    pub stack_pointer: usize,
    pub stack: Seq<u16>,
    pub keyboard: Set<u8>,
    pub state: RunState,
    pub drawing_buffer: Seq<bool>,
    pub quirk_config: QuirkConfig,
}

/// The flag value of a condition: 1 when it holds, else 0.
pub open spec fn flag(b: bool) -> u8 {
    if b {
        1
    } else {
        0
    }
}

/// The memory cell that an address designates: addresses wrap around memory.
pub open spec fn ram_index(address: int) -> int {
    address % 4096
}

/// How far cell `a` lies past address `base`, around memory.
pub open spec fn ram_distance(base: int, a: int) -> int {
    (a - base) % 4096
}

/// The memory of a new machine: the glyph table, then zeros.
pub open spec fn fresh_ram() -> Seq<u8> {
    Seq::new(4096, |a: int| if a < 80 { HEXADECIMAL_DIGIT_SPRITES@[a] } else { 0 })
}

/// A timer after one frame: one less, but never below zero.
pub open spec fn tick_timer(t: u8) -> u8 {
    if t > 0 {
        (t - 1) as u8
    } else {
        0
    }
}

/// How far `p` lies past `base` along an axis of `dim` pixels, if that is
/// within a sprite's extent `len`; -1 if `p` is not reached. With `wrap`
/// the sprite continues at the start of the axis.
pub open spec fn sprite_offset(base: int, p: int, len: int, dim: int, wrap: bool) -> int {
    let d = if p >= base {
        p - base
    } else if wrap {
        p - base + dim
    } else {
        -1
    };
    if 0 <= d < len {
        d
    } else {
        -1
    }
}

/// Column `col` of a sprite row, the most significant bit being column 0.
pub open spec fn sprite_bit(byte: u8, col: int) -> bool {
    (byte >> ((7 - col) as u8)) & 1u8 == 1u8
}

/// The logical key of a physical key, named by the character on it.
pub open spec fn key_mapping(keycode: char) -> Option<u8> {
    if keycode == '1' {
        Some(0x1)
    } else if keycode == '2' {
        Some(0x2)
    } else if keycode == '3' {
        Some(0x3)
    } else if keycode == '4' {
        Some(0xC)
    } else if keycode == 'q' {
        Some(0x4)
    } else if keycode == 'w' {
        Some(0x5)
    } else if keycode == 'e' {
        Some(0x6)
    } else if keycode == 'r' {
        Some(0xD)
    } else if keycode == 'a' {
        Some(0x7)
    } else if keycode == 's' {
        Some(0x8)
    } else if keycode == 'd' {
        Some(0x9)
    } else if keycode == 'f' {
        Some(0xE)
    } else if keycode == 'z' {
        Some(0xA)
    } else if keycode == 'x' {
        Some(0x0)
    } else if keycode == 'c' {
        Some(0xB)
    } else if keycode == 'v' {
        Some(0xF)
    } else {
        None
    }
}

impl MachineView {
    /// Memory, registers, stack and framebuffer have their sizes, the stack
    /// pointer is within the stack and the run state is well formed.
    pub open spec fn wf(self) -> bool {
        &&& self.ram.len() == 4096
        &&& self.registers.len() == 16
        &&& self.stack.len() == 16
        &&& self.drawing_buffer.len() == 2048
        &&& self.stack_pointer <= 16
        &&& self.state.wf()
    }

    /// A new machine: glyphs in memory, every other field zero or empty.
    pub open spec fn fresh(quirk_config: QuirkConfig, is_running: bool) -> MachineView {
        MachineView {
            is_running,
            ram: fresh_ram(),
            registers: Seq::new(16, |i: int| 0u8),
            register_i: 0,
            delay_timer: 0,
            sound_timer: 0,
            program_counter: 0,
            stack_pointer: 0,
            stack: Seq::new(16, |i: int| 0u16),
            keyboard: Set::empty(),
            state: RunState::Running,
            drawing_buffer: Seq::new(2048, |i: int| false),
            quirk_config,
        }
    }

    /// The machine after loading `game`: the glyph area kept, the program at
    /// 0x200, the rest of memory and every other field reset, ready to run
    /// from 0x200.
    pub open spec fn loaded(self, game: Seq<u8>) -> MachineView {
        MachineView {
            is_running: true,
            ram: Seq::new(
                4096,
                |a: int|
                    if a < 80 {
                        self.ram[a]
                    } else if 0x200 <= a < 0x200 + game.len() {
                        game[a - 0x200]
                    } else {
                        0
                    },
            ),
            program_counter: 0x200,
            ..MachineView::fresh(self.quirk_config, true)
        }
    }

    /// Whether the machine waits for a key or a display refresh.
    pub open spec fn is_suspended(self) -> bool {
        !(self.state is Running)
    }

    pub open spec fn with_register(self, x: int, v: u8) -> MachineView {
        MachineView { registers: self.registers.update(x, v), ..self }
    }

    /// Sets the program counter, wrapping around 16 bits.
    pub open spec fn with_pc(self, pc: int) -> MachineView {
        MachineView { program_counter: (pc % 65536) as u16, ..self }
    }

    /// Skips the next instruction when `c` holds.
    pub open spec fn skip_if(self, c: bool) -> MachineView {
        if c {
            self.with_pc(self.program_counter + 2)
        } else {
            self
        }
    }

    /// The word at the program counter.
    pub open spec fn fetched(self) -> (u8, u8) {
        (self.ram[ram_index(self.program_counter as int)], self.ram[ram_index(
            self.program_counter + 1,
        )])
    }

    /// The stack fault that `op` would meet, if any.
    pub open spec fn stack_fault(self, op: Opcode) -> Option<StackFault> {
        match op {
            Opcode::SystemAddr(_) | Opcode::CallAddr(_) => if self.stack_pointer >= 16 {
                Some(StackFault::Overflow)
            } else {
                None
            },
            Opcode::Return => if self.stack_pointer == 0 {
                Some(StackFault::Underflow)
            } else {
                None
            },
            _ => None,
        }
    }

    /// `V[dst] = V[minuend] - V[subtrahend]`, wrapping, then VF = 1 when no borrow occurred.
    pub open spec fn subtract(self, minuend: int, subtrahend: int, dst: int) -> MachineView {
        let a = self.registers[minuend];
        let b = self.registers[subtrahend];
        self.with_register(dst, ((a - b) % 256) as u8).with_register(15, flag(a >= b))
    }

    /// Writes the result of a logical operation into `V[x]`, then clears VF
    /// under the reset quirk.
    pub open spec fn logic_result(self, x: int, v: u8) -> MachineView {
        let m = self.with_register(x, v);
        if self.quirk_config.reset_vf == ResetVfQuirk::Reset {
            m.with_register(15, 0)
        } else {
            m
        }
    }

    /// The register that the shift instructions read.
    pub open spec fn shift_source(self, x: int, y: int) -> int {
        if self.quirk_config.shifting == ShiftingQuirk::Vy {
            y
        } else {
            x
        }
    }

    /// The register that jump-with-offset adds to `address`.
    pub open spec fn jump_register(self, address: u16) -> int {
        if self.quirk_config.jumping == JumpingQuirk::V0 {
            0
        } else {
            ((address / 256) % 16) as int
        }
    }

    /// Register I after a block transfer of registers `0..=n`.
    pub open spec fn index_after_transfer(self, n: int) -> u16 {
        if self.quirk_config.memory == MemoryIncrementQuirk::Increment {
            ((self.register_i + n + 1) % 65536) as u16
        } else {
            self.register_i
        }
    }

    /// Whether the sprite of height `h` at (`bx`, `by`), read at register I,
    /// has a set bit on pixel `p`.
    pub open spec fn sprite_covers(self, bx: int, by: int, h: int, p: int) -> bool {
        let wrap = self.quirk_config.clipping == ClippingQuirk::Wrap;
        let row = sprite_offset(by, p / 64, h, 32, wrap);
        let col = sprite_offset(bx, p % 64, 8, 64, wrap);
        row >= 0 && col >= 0 && sprite_bit(self.ram[ram_index(self.register_i + row)], col)
    }

    /// Whether drawing turns off a pixel that was on.
    pub open spec fn draw_collides(self, bx: int, by: int, h: int) -> bool {
        exists|p: int|
            0 <= p < 2048 && #[trigger] self.drawing_buffer[p] && self.sprite_covers(bx, by, h, p)
    }

    /// Draws the sprite of height `h` read at register I, at
    /// (`V[x] mod 64`, `V[y] mod 32`): each covered pixel is flipped, and VF
    /// tells whether a pixel went from on to off.
    pub open spec fn draw(self, x: int, y: int, h: int) -> MachineView {
        let bx = self.registers[x] % 64;
        let by = self.registers[y] % 32;
        MachineView {
            drawing_buffer: Seq::new(
                2048,
                |p: int| self.drawing_buffer[p] != self.sprite_covers(bx as int, by as int, h, p),
            ),
            registers: self.registers.update(15, flag(self.draw_collides(bx as int, by as int, h))),
            ..self
        }
    }

    /// The effect of executing `op` on a machine whose program counter
    /// already points past it; `random_byte` is what the random instruction draws.
    /// Memory addresses wrap around memory, and the program counter and
    /// register I wrap at 16 bits. A draw issued while another one waits for
    /// the display refresh replaces it.
    pub open spec fn execute(self, op: Opcode, random_byte: u8) -> MachineView {
        let regs = self.registers;
        let i = self.register_i as int;
        match op {
            Opcode::ClearScreen => MachineView {
                drawing_buffer: Seq::new(2048, |p: int| false),
                ..self
            },
            Opcode::Return => MachineView {
                program_counter: self.stack[self.stack_pointer - 1],
                stack_pointer: (self.stack_pointer - 1) as usize,
                ..self
            },
            Opcode::JumpAddr(a) => MachineView { program_counter: a, ..self },
            Opcode::SystemAddr(a) | Opcode::CallAddr(a) => MachineView {
                stack: self.stack.update(self.stack_pointer as int, self.program_counter),
                stack_pointer: (self.stack_pointer + 1) as usize,
                program_counter: a,
                ..self
            },
            Opcode::SkipRegisterEqualsValue(x, kk) => self.skip_if(regs[x as int] == kk),
            Opcode::SkipRegisterNotEqualsValue(x, kk) => self.skip_if(regs[x as int] != kk),
            Opcode::SkipRegistersEqual(x, y) => self.skip_if(regs[x as int] == regs[y as int]),
            Opcode::SkipRegistersNotEqual(x, y) => self.skip_if(regs[x as int] != regs[y as int]),
            Opcode::LoadValue(x, kk) => self.with_register(x as int, kk),
            Opcode::AddValue(x, kk) => self.with_register(x as int, ((regs[x as int] + kk) % 256) as u8),
            Opcode::LoadRegisterValue(x, y) => self.with_register(x as int, regs[y as int]),
            Opcode::Or(x, y) => self.logic_result(x as int, regs[x as int] | regs[y as int]),
            Opcode::And(x, y) => self.logic_result(x as int, regs[x as int] & regs[y as int]),
            Opcode::Xor(x, y) => self.logic_result(x as int, regs[x as int] ^ regs[y as int]),
            Opcode::AddRegisters(x, y) => {
                let sum = regs[x as int] + regs[y as int];
                self.with_register(x as int, (sum % 256) as u8).with_register(15, flag(sum > 255))
            },
            Opcode::SubtractFromFirstRegister(x, y) => self.subtract(x as int, y as int, x as int),
            Opcode::SubtractFromSecondRegister(x, y) => self.subtract(y as int, x as int, x as int),
            Opcode::BitShiftRight(x, y) => {
                let v = regs[self.shift_source(x as int, y as int)];
                self.with_register(x as int, v / 2).with_register(15, v % 2)
            },
            Opcode::BitShiftLeft(x, y) => {
                let v = regs[self.shift_source(x as int, y as int)];
                self.with_register(x as int, ((v * 2) % 256) as u8).with_register(15, v / 128)
            },
            Opcode::LoadRegisterI(a) => MachineView { register_i: a, ..self },
            Opcode::JumpAddrV0(a) => self.with_pc(a + regs[self.jump_register(a)]),
            Opcode::Random(x, kk) => self.with_register(x as int, random_byte & kk),
            Opcode::Draw(x, y, n) => if self.quirk_config.display_wait == DisplayWaitQuirk::Wait {
                MachineView {
                    state: RunState::WaitingForDisplayRefresh {
                        x_register: x,
                        y_register: y,
                        height: n,
                    },
                    ..self
                }
            } else {
                self.draw(x as int, y as int, n as int)
            },
            Opcode::SkipKeyPressed(x) => self.skip_if(self.keyboard.contains(regs[x as int])),
            Opcode::SkipKeyNotPressed(x) => self.skip_if(!self.keyboard.contains(regs[x as int])),
            Opcode::LoadDelayTimer(x) => self.with_register(x as int, self.delay_timer),
            Opcode::LoadKeyPress(x) => MachineView {
                state: RunState::WaitingForKey { register: x, latched: None },
                ..self
            },
            Opcode::SetDelayTimer(x) => MachineView { delay_timer: regs[x as int], ..self },
            Opcode::SetSoundTimer(x) => MachineView { sound_timer: regs[x as int], ..self },
            Opcode::AddRegisterI(x) => MachineView {
                register_i: ((i + regs[x as int]) % 65536) as u16,
                ..self
            },
            Opcode::SetIHexSpriteLocation(x) => MachineView {
                register_i: (regs[x as int] * 5) as u16,
                ..self
            },
            Opcode::BinaryCodedDecimal(x) => {
                let v = regs[x as int];
                MachineView {
                    ram: self.ram.update(ram_index(i), v / 100).update(
                        ram_index(i + 1),
                        (v / 10) % 10,
                    ).update(ram_index(i + 2), v % 10),
                    ..self
                }
            },
            Opcode::StoreRegisters(n) => MachineView {
                ram: Seq::new(
                    4096,
                    |a: int|
                        if ram_distance(i, a) <= n {
                            regs[ram_distance(i, a)]
                        } else {
                            self.ram[a]
                        },
                ),
                register_i: self.index_after_transfer(n as int),
                ..self
            },
            Opcode::LoadRegisters(n) => MachineView {
                registers: Seq::new(
                    16,
                    |k: int|
                        if k <= n {
                            self.ram[ram_index(i + k)]
                        } else {
                            regs[k]
                        },
                ),
                register_i: self.index_after_transfer(n as int),
                ..self
            },
        }
    }

    /// The timers after one frame.
    pub open spec fn timers_ticked(self) -> MachineView {
        MachineView {
            delay_timer: tick_timer(self.delay_timer),
            sound_timer: tick_timer(self.sound_timer),
            ..self
        }
    }

    /// One frame tick of a running machine: the timers count down, and a
    /// pending draw is performed, which resumes execution.
    pub open spec fn frame(self) -> MachineView {
        if !self.is_running {
            self
        } else {
            let m = self.timers_ticked();
            match self.state {
                RunState::WaitingForDisplayRefresh { x_register, y_register, height } => {
                    let drawn = m.draw(x_register as int, y_register as int, height as int);
                    MachineView { state: RunState::Running, ..drawn }
                },
                _ => m,
            }
        }
    }

    /// A press of logical key `key`: the key is held, and a machine waiting
    /// for a key latches it into the destination register.
    pub open spec fn key_pressed(self, key: u8) -> MachineView {
        let m = MachineView { keyboard: self.keyboard.insert(key), ..self };
        match self.state {
            RunState::WaitingForKey { register, .. } => MachineView {
                registers: m.registers.update(register as int, key),
                state: RunState::WaitingForKey { register, latched: Some(key) },
                ..m
            },
            _ => m,
        }
    }

    /// A release of logical key `key`: the key is no longer held, and a
    /// machine waiting on that latched key resumes.
    pub open spec fn key_released(self, key: u8) -> MachineView {
        let m = MachineView { keyboard: self.keyboard.remove(key), ..self };
        match self.state {
            RunState::WaitingForKey { latched: Some(k), .. } => if k == key {
                MachineView { state: RunState::Running, ..m }
            } else {
                m
            },
            _ => m,
        }
    }
}

} // verus!
