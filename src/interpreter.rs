//! The execution engine: the machine's state and the effect of instructions,
//! key events and frame ticks on it, each proved against the model in
//! [`crate::machine`].

use std::collections::HashSet;

use vstd::prelude::*;

use crate::machine::{
    MachineView, RunState, StackFault, HEXADECIMAL_DIGIT_SPRITES, PROGRAM_COUNTER_INCREMENT, flag, fresh_ram, key_mapping,
    ram_distance, ram_index, sprite_offset,
};
use crate::opcodes::{Opcode, OpcodeBytes, decode};
use crate::quirks::{
    ClippingQuirk, DisplayWaitQuirk, JumpingQuirk, MemoryIncrementQuirk, QuirkConfig, ResetVfQuirk,
    ShiftingQuirk,
};

verus! {

broadcast use vstd::std_specs::hash::group_hash_axioms;

/// Why a cycle stopped without executing its instruction.
#[derive(PartialEq, Eq, Debug, Clone, Copy)]
pub enum CycleError {
    /// The word at `address` encodes no instruction.
    UnrecognizedOpcode { address: u16, first_byte: u8, second_byte: u8 },
    /// The call or return at `address` met a full or empty stack.
    StackFault { address: u16, fault: StackFault },
}

/// Relies on `rand::random::<u8>`: a byte from the thread-local generator.
/// Nothing is known of its value.
#[verifier::external_body]
fn random_byte() -> (r: u8) {
    rand::random::<u8>()
}

/// The cell that `base + offset` designates is the one whose distance past
/// `base`, around memory, is `offset`.
proof fn lemma_ram_offset(a: int, base: int, offset: int)
    requires
        0 <= a < 4096,
        0 <= base,
        0 <= offset < 4096,
    ensures
        (ram_distance(base, a) == offset) == (a == ram_index(base + offset)),
{
    assert(((a - base) % 4096 == offset) == (a == (base + offset) % 4096)) by (nonlinear_arith)
        requires
            0 <= a < 4096,
            0 <= base,
            0 <= offset < 4096,
    ;
}

/// Advancing register I, which wraps at 16 bits, designates the same cell
/// as adding to it.
proof fn lemma_index_wraps(i: int)
    requires
        0 <= i,
    ensures
        (i % 65536) % 4096 == i % 4096,
{
    vstd::arithmetic::div_mod::lemma_mod_mod(i, 4096, 16);
}

/// The emulated hardware of one machine.
pub struct Interpreter {
    /// Whether cycles and frame ticks have any effect.
    pub is_running: bool,
    pub ram: [u8; 4096],
    /// V0 to VF; VF doubles as the flags register.
    pub registers: [u8; 16],
    /// The index register I.
    pub register_i: u16,
    pub delay_timer: u8,
    pub sound_timer: u8,
    pub program_counter: u16,
    /// Number of stack slots in use.
    pub stack_pointer: usize,
    pub stack: [u16; 16],
    /// The logical keys currently held.
    pub keyboard: HashSet<u8>,
    pub state: RunState,
    /// 64 by 32 pixels, row major.
    pub drawing_buffer: [bool; 2048],
    pub quirk_config: QuirkConfig,
}

/// Whether pixel `p` is covered by the sprite and lies on a row before `r`,
/// or on row `r` before column `c`: the pixels that drawing has reached.
spec fn drawn_before(m: MachineView, bx: int, by: int, h: int, p: int, r: int, c: int) -> bool {
    let wrap = m.quirk_config.clipping == ClippingQuirk::Wrap;
    let row = sprite_offset(by, p / 64, h, 32, wrap);
    let col = sprite_offset(bx, p % 64, 8, 64, wrap);
    m.sprite_covers(bx, by, h, p) && (row < r || (row == r && col < c))
}

/// Whether drawing has turned off a pixel before row `r`, column `c`.
spec fn collides_before(m: MachineView, bx: int, by: int, h: int, r: int, c: int) -> bool {
    exists|p: int|
        0 <= p < 2048 && m.drawing_buffer[p] && #[trigger] drawn_before(m, bx, by, h, p, r, c)
}

/// Two stages of a draw that have reached the same pixels agree on collisions.
proof fn lemma_collides_same(
    m: MachineView,
    bx: int,
    by: int,
    h: int,
    r1: int,
    c1: int,
    r2: int,
    c2: int,
)
    requires
        forall|p: int|
            0 <= p < 2048 ==> #[trigger] drawn_before(m, bx, by, h, p, r1, c1) == drawn_before(
                m,
                bx,
                by,
                h,
                p,
                r2,
                c2,
            ),
    ensures
        collides_before(m, bx, by, h, r1, c1) == collides_before(m, bx, by, h, r2, c2),
{
    if collides_before(m, bx, by, h, r1, c1) {
        let p = choose|p: int|
            0 <= p < 2048 && m.drawing_buffer[p] && #[trigger] drawn_before(m, bx, by, h, p, r1, c1);
        assert(drawn_before(m, bx, by, h, p, r2, c2));
    }
    if collides_before(m, bx, by, h, r2, c2) {
        let p = choose|p: int|
            0 <= p < 2048 && m.drawing_buffer[p] && #[trigger] drawn_before(m, bx, by, h, p, r2, c2);
        assert(drawn_before(m, bx, by, h, p, r1, c1));
    }
}

/// Along one axis, the sprite's `k`-th row or column lands on `t`, and on no
/// other coordinate.
proof fn lemma_axis_target(base: int, k: int, len: int, dim: int, wrap: bool, t: int)
    requires
        0 <= base < dim,
        0 <= k < len <= dim,
        0 <= t < dim,
        t == base + k || (wrap && t == base + k - dim),
    ensures
        sprite_offset(base, t, len, dim, wrap) == k,
        forall|q: int| 0 <= q < dim && sprite_offset(base, q, len, dim, wrap) == k ==> q == t,
{
}

/// A clipped row or column past the edge lands on no coordinate.
proof fn lemma_axis_clipped(base: int, k: int, len: int, dim: int)
    requires
        0 <= base < dim,
        0 <= k,
        base + k >= dim,
    ensures
        forall|q: int| 0 <= q < dim ==> sprite_offset(base, q, len, dim, false) != k,
{
}

/// The coordinates of the pixel at row `y`, column `x`.
proof fn lemma_pixel_index(x: int, y: int)
    requires
        0 <= x < 64,
        0 <= y < 32,
    ensures
        0 <= y * 64 + x < 2048,
        (y * 64 + x) / 64 == y,
        (y * 64 + x) % 64 == x,
{
}

/// A pixel is determined by its coordinates.
proof fn lemma_pixel_coordinates(p: int)
    requires
        0 <= p < 2048,
    ensures
        0 <= p / 64 < 32,
        0 <= p % 64 < 64,
        p == (p / 64) * 64 + p % 64,
{
}

impl View for Interpreter {
    type V = MachineView;

    open spec fn view(&self) -> MachineView {
        MachineView {
            is_running: self.is_running,
            ram: self.ram@,
            registers: self.registers@,
            register_i: self.register_i,
            delay_timer: self.delay_timer,
            sound_timer: self.sound_timer,
            program_counter: self.program_counter,
            stack_pointer: self.stack_pointer,
            stack: self.stack@,
            keyboard: self.keyboard@,
            state: self.state,
            drawing_buffer: self.drawing_buffer@,
            quirk_config: self.quirk_config,
        }
    }
}

impl Interpreter {
    pub open spec fn wf(&self) -> bool {
        self@.wf()
    }

    /// Returns a stopped machine with the given quirks: glyphs in memory, every
    /// other field zero or empty. The display and tone devices are driven
    /// by the host from the machine's state.
    #[must_use]
    pub fn new_with_sdl(quirk_config: QuirkConfig) -> (r: Interpreter)
        ensures
            r@ == MachineView::fresh(quirk_config, false),
            r.wf(),
    {
        let mut ram = [0u8; 4096];
        let mut i: usize = 0;
        while i < 80
            invariant
                i <= 80,
                forall|a: int| 0 <= a < i ==> ram@[a] == HEXADECIMAL_DIGIT_SPRITES@[a],
                forall|a: int| i <= a < 4096 ==> ram@[a] == 0,
            decreases 80 - i,
        {
            ram[i] = HEXADECIMAL_DIGIT_SPRITES[i];
            i += 1;
        }
        let r = Interpreter {
            is_running: false,
            ram,
            registers: [0u8; 16],
            register_i: 0,
            delay_timer: 0,
            sound_timer: 0,
            program_counter: 0,
            stack_pointer: 0,
            stack: [0u16; 16],
            keyboard: HashSet::new(),
            state: RunState::Running,
            drawing_buffer: [false; 2048],
            quirk_config,
        };
        assert(r@.ram =~= fresh_ram());
        assert(r@.registers =~= MachineView::fresh(quirk_config, false).registers);
        assert(r@.stack =~= MachineView::fresh(quirk_config, false).stack);
        assert(r@.drawing_buffer =~= MachineView::fresh(quirk_config, false).drawing_buffer);
        r
    }

    /// Draws the sprite of `length` rows read at register I, at
    /// (`V[first_register] mod 64`, `V[second_register] mod 32`), flipping
    /// every pixel under a set sprite bit; VF becomes 1 when a pixel was
    /// turned off, else 0. Under the clipping quirk, pixels past an edge are
    /// dropped; under wrapping they continue on the opposite edge.
    #[verifier::rlimit(60)]
    pub fn complete_draw(&mut self, first_register: usize, second_register: usize, length: u8)
        requires
            old(self).wf(),
            first_register < 16,
            second_register < 16,
            length < 16,
        ensures
            final(self)@ == old(self)@.draw(first_register as int, second_register as int, length as int),
            final(self).wf(),
    {
        let ghost m = self@;
        let base_x: usize = (self.registers[first_register] % 64) as usize;
        let base_y: usize = (self.registers[second_register] % 32) as usize;
        let wrap = match self.quirk_config.clipping {
            ClippingQuirk::Clip => false,
            ClippingQuirk::Wrap => true,
        };
        let ghost bx = base_x as int;
        let ghost by = base_y as int;
        let ghost h = length as int;
        self.registers[15] = 0;
        let mut i: u8 = 0;
        while i < length
            invariant
                i <= length < 16,
                m == old(self)@,
                m.wf(),
                bx == base_x == m.registers[first_register as int] % 64,
                by == base_y == m.registers[second_register as int] % 32,
                h == length,
                wrap == (m.quirk_config.clipping == ClippingQuirk::Wrap),
                self@ == (MachineView {
                    drawing_buffer: self@.drawing_buffer,
                    registers: m.registers.update(15, flag(collides_before(m, bx, by, h, i as int, 0))),
                    ..m
                }),
                forall|p: int|
                    0 <= p < 2048 ==> #[trigger] self@.drawing_buffer[p] == (m.drawing_buffer[p]
                        != drawn_before(m, bx, by, h, p, i as int, 0)),
            decreases length - i,
        {
            let buffer_y = base_y + i as usize;
            if wrap || buffer_y < 32 {
                let buffer_y = if wrap {
                    buffer_y % 32
                } else {
                    buffer_y
                };
                proof {
                    lemma_axis_target(by, i as int, h, 32, wrap, buffer_y as int);
                }
                let sprite_byte = self.ram[(self.register_i as usize + i as usize) % 4096];
                let mut j: u8 = 0;
                while j < 8
                    invariant
                        i < length < 16,
                        j <= 8,
                        m == old(self)@,
                        m.wf(),
                        bx == base_x == m.registers[first_register as int] % 64,
                        by == base_y == m.registers[second_register as int] % 32,
                        h == length,
                        wrap == (m.quirk_config.clipping == ClippingQuirk::Wrap),
                        buffer_y < 32,
                        sprite_offset(by, buffer_y as int, h, 32, wrap) == i,
                        forall|q: int|
                            0 <= q < 32 && sprite_offset(by, q, h, 32, wrap) == i ==> q == buffer_y,
                        sprite_byte == m.ram[ram_index(m.register_i + i)],
                        self@ == (MachineView {
                            drawing_buffer: self@.drawing_buffer,
                            registers: m.registers.update(
                                15,
                                flag(collides_before(m, bx, by, h, i as int, j as int)),
                            ),
                            ..m
                        }),
                        forall|p: int|
                            0 <= p < 2048 ==> #[trigger] self@.drawing_buffer[p] == (
                            m.drawing_buffer[p] != drawn_before(m, bx, by, h, p, i as int, j as int)),
                    decreases 8 - j,
                {
                    let buffer_x = base_x + j as usize;
                    if wrap || buffer_x < 64 {
                        let buffer_x = if wrap {
                            buffer_x % 64
                        } else {
                            buffer_x
                        };
                        let target_bit = (sprite_byte >> (7 - j)) & 1;
                        let drawing_buffer_index = buffer_y * 64 + buffer_x;
                        let display_bit = self.drawing_buffer[drawing_buffer_index];
                        let ghost t = drawing_buffer_index as int;
                        proof {
                            lemma_axis_target(bx, j as int, 8, 64, wrap, buffer_x as int);
                            lemma_pixel_index(buffer_x as int, buffer_y as int);
                            assert(m.sprite_covers(bx, by, h, t) == (target_bit == 1));
                            assert forall|p: int| 0 <= p < 2048 implies #[trigger] drawn_before(
                                m,
                                bx,
                                by,
                                h,
                                p,
                                i as int,
                                j + 1,
                            ) == (drawn_before(m, bx, by, h, p, i as int, j as int) || (p == t
                                && target_bit == 1)) by {
                                lemma_pixel_coordinates(p);
                            }
                            assert(!drawn_before(m, bx, by, h, t, i as int, j as int));
                        }
                        if display_bit && target_bit == 1 {
                            self.registers[15] = 1;
                            assert(collides_before(m, bx, by, h, i as int, j + 1)) by {
                                assert(drawn_before(m, bx, by, h, t, i as int, j + 1));
                            }
                        } else {
                            assert(collides_before(m, bx, by, h, i as int, j + 1) == collides_before(
                                m,
                                bx,
                                by,
                                h,
                                i as int,
                                j as int,
                            )) by {
                                if collides_before(m, bx, by, h, i as int, j as int) {
                                    let p = choose|p: int|
                                        0 <= p < 2048 && m.drawing_buffer[p] && #[trigger] drawn_before(
                                            m,
                                            bx,
                                            by,
                                            h,
                                            p,
                                            i as int,
                                            j as int,
                                        );
                                    assert(drawn_before(m, bx, by, h, p, i as int, j + 1));
                                }
                            }
                        }
                        self.drawing_buffer[drawing_buffer_index] = display_bit != (target_bit == 1);
                    } else {
                        proof {
                            lemma_axis_clipped(bx, j as int, 8, 64);
                            assert forall|p: int| 0 <= p < 2048 implies #[trigger] drawn_before(
                                m,
                                bx,
                                by,
                                h,
                                p,
                                i as int,
                                j + 1,
                            ) == drawn_before(m, bx, by, h, p, i as int, j as int) by {
                                lemma_pixel_coordinates(p);
                            }
                            lemma_collides_same(m, bx, by, h, i as int, j + 1, i as int, j as int);
                        }
                    }
                    j += 1;
                }
                proof {
                    assert forall|p: int| 0 <= p < 2048 implies #[trigger] drawn_before(
                        m,
                        bx,
                        by,
                        h,
                        p,
                        i + 1,
                        0,
                    ) == drawn_before(m, bx, by, h, p, i as int, 8) by {
                        lemma_pixel_coordinates(p);
                    }
                    lemma_collides_same(m, bx, by, h, i + 1, 0, i as int, 8);
                }
            } else {
                proof {
                    lemma_axis_clipped(by, i as int, h, 32);
                    assert forall|p: int| 0 <= p < 2048 implies #[trigger] drawn_before(
                        m,
                        bx,
                        by,
                        h,
                        p,
                        i + 1,
                        0,
                    ) == drawn_before(m, bx, by, h, p, i as int, 0) by {
                        lemma_pixel_coordinates(p);
                    }
                    lemma_collides_same(m, bx, by, h, i + 1, 0, i as int, 0);
                }
            }
            i += 1;
        }
        proof {
            assert forall|p: int| 0 <= p < 2048 implies #[trigger] drawn_before(
                m,
                bx,
                by,
                h,
                p,
                h,
                0,
            ) == m.sprite_covers(bx, by, h, p) by {
                lemma_pixel_coordinates(p);
            }
            if collides_before(m, bx, by, h, h, 0) {
                let p = choose|p: int|
                    0 <= p < 2048 && m.drawing_buffer[p] && #[trigger] drawn_before(
                        m,
                        bx,
                        by,
                        h,
                        p,
                        h,
                        0,
                    );
                assert(m.drawing_buffer[p] && m.sprite_covers(bx, by, h, p));
            }
            if m.draw_collides(bx, by, h) {
                let p = choose|p: int|
                    0 <= p < 2048 && #[trigger] m.drawing_buffer[p] && m.sprite_covers(bx, by, h, p);
                assert(drawn_before(m, bx, by, h, p, h, 0));
            }
            assert(self@.drawing_buffer =~= m.draw(
                first_register as int,
                second_register as int,
                h,
            ).drawing_buffer);
        }
    }

    /// Returns a running machine with the default quirks.
    #[must_use]
    pub fn new() -> (r: Interpreter)
        ensures
            r@ == MachineView::fresh(QuirkConfig::spec_default(), true),
            r.wf(),
    {
        let mut interpreter = Self::new_with_sdl(QuirkConfig::new());
        interpreter.is_running = true;
        interpreter
    }
}

impl Interpreter {
    /// Clears VF when the reset quirk is set.
    fn handle_reset_quirk(&mut self)
        requires
            old(self).wf(),
        ensures
            final(self)@ == (if old(self).quirk_config.reset_vf == ResetVfQuirk::Reset {
                old(self)@.with_register(15, 0)
            } else {
                old(self)@
            }),
    {
        match self.quirk_config.reset_vf {
            ResetVfQuirk::Reset => {
                self.registers[15] = 0x0;
            },
            ResetVfQuirk::NoReset => {},
        }
    }

    /// Advances register I by one, wrapping at 16 bits, when the memory quirk is set.
    fn handle_memory_increment_quirk(&mut self)
        ensures
            final(self)@ == (MachineView {
                register_i: if old(self).quirk_config.memory == MemoryIncrementQuirk::Increment {
                    ((old(self).register_i + 1) % 65536) as u16
                } else {
                    old(self).register_i
                },
                ..old(self)@
            }),
    {
        match self.quirk_config.memory {
            MemoryIncrementQuirk::Increment => {
                self.register_i = self.register_i.wrapping_add(1);
            },
            MemoryIncrementQuirk::NoIncrement => {},
        }
    }

    /// Skips the next instruction when `condition` holds.
    fn skip_next_if(&mut self, condition: bool)
        ensures
            final(self)@ == old(self)@.skip_if(condition),
    {
        if condition {
            self.program_counter = self.program_counter.wrapping_add(PROGRAM_COUNTER_INCREMENT);
        }
    }

    /// Sets every pixel off.
    pub fn clear_screen(&mut self)
        ensures
            final(self)@ == (MachineView {
                drawing_buffer: Seq::new(2048, |p: int| false),
                ..old(self)@
            }),
    {
        self.drawing_buffer = [false; 2048];
        assert(self@.drawing_buffer =~= Seq::new(2048, |p: int| false));
    }

    /// Pops the return address off the stack and jumps to it.
    fn return_from_subroutine(&mut self)
        requires
            old(self).wf(),
            old(self).stack_pointer > 0,
        ensures
            final(self)@ == old(self)@.execute(Opcode::Return, 0),
    {
        self.program_counter = self.stack[self.stack_pointer - 1];
        self.stack_pointer -= 1;
    }

    /// Pushes the program counter and jumps to `address`.
    fn call_addr(&mut self, address: u16)
        requires
            old(self).wf(),
            old(self).stack_pointer < 16,
        ensures
            final(self)@ == old(self)@.execute(Opcode::CallAddr(address), 0),
    {
        self.stack[self.stack_pointer] = self.program_counter;
        self.stack_pointer += 1;
        self.program_counter = address;
        assert(self@.stack =~= old(self)@.stack.update(
            old(self).stack_pointer as int,
            old(self).program_counter,
        ));
    }

    /// `V[register] = random_byte & value`.
    fn random(&mut self, register: usize, value: u8, random_byte: u8)
        requires
            old(self).wf(),
            register < 16,
        ensures
            final(self)@ == old(self)@.with_register(register as int, random_byte & value),
    {
        self.registers[register] = random_byte & value;
    }

    /// Stores registers `0..=register` in memory from register I on.
    fn store_registers(&mut self, register: usize)
        requires
            old(self).wf(),
            register < 16,
        ensures
            final(self)@ == old(self)@.execute(Opcode::StoreRegisters(register), 0),
    {
        let ghost m = self@;
        let ghost start = m.register_i as int;
        let ghost increment = m.quirk_config.memory == MemoryIncrementQuirk::Increment;
        let mut i: usize = 0;
        while i <= register
            invariant
                i <= register + 1,
                register < 16,
                m.wf(),
                start == m.register_i,
                increment == (m.quirk_config.memory == MemoryIncrementQuirk::Increment),
                self@ == (MachineView { ram: self@.ram, register_i: self.register_i, ..m }),
                self.register_i == (if increment {
                    ((start + i) % 65536) as u16
                } else {
                    m.register_i
                }),
                forall|a: int|
                    0 <= a < 4096 ==> #[trigger] self@.ram[a] == (if ram_distance(start, a) < i {
                        m.registers[ram_distance(start, a)]
                    } else {
                        m.ram[a]
                    }),
            decreases register + 1 - i,
        {
            let index_adjustment = match self.quirk_config.memory {
                MemoryIncrementQuirk::Increment => 0,
                MemoryIncrementQuirk::NoIncrement => i,
            };
            let address = (self.register_i as usize + index_adjustment) % 4096;
            proof {
                lemma_index_wraps(start + i);
                assert(address == ram_index(start + i));
                assert forall|a: int| 0 <= a < 4096 implies (#[trigger] ram_distance(start, a) == i)
                    == (a == address) by {
                    lemma_ram_offset(a, start, i as int);
                }
            }
            self.ram[address] = self.registers[i];
            self.handle_memory_increment_quirk();
            i += 1;
        }
        assert(self@.ram =~= m.execute(Opcode::StoreRegisters(register), 0).ram);
    }

    /// Loads registers `0..=register` from memory from register I on.
    fn load_registers(&mut self, register: usize)
        requires
            old(self).wf(),
            register < 16,
        ensures
            final(self)@ == old(self)@.execute(Opcode::LoadRegisters(register), 0),
    {
        let ghost m = self@;
        let ghost start = m.register_i as int;
        let ghost increment = m.quirk_config.memory == MemoryIncrementQuirk::Increment;
        let mut i: usize = 0;
        while i <= register
            invariant
                i <= register + 1,
                register < 16,
                m.wf(),
                start == m.register_i,
                increment == (m.quirk_config.memory == MemoryIncrementQuirk::Increment),
                self@ == (MachineView {
                    registers: self@.registers,
                    register_i: self.register_i,
                    ..m
                }),
                self.register_i == (if increment {
                    ((start + i) % 65536) as u16
                } else {
                    m.register_i
                }),
                forall|k: int|
                    0 <= k < 16 ==> #[trigger] self@.registers[k] == (if k < i {
                        m.ram[ram_index(start + k)]
                    } else {
                        m.registers[k]
                    }),
            decreases register + 1 - i,
        {
            let index_adjustment = match self.quirk_config.memory {
                MemoryIncrementQuirk::Increment => 0,
                MemoryIncrementQuirk::NoIncrement => i,
            };
            let address = (self.register_i as usize + index_adjustment) % 4096;
            proof {
                lemma_index_wraps(start + i);
            }
            self.registers[i] = self.ram[address];
            self.handle_memory_increment_quirk();
            i += 1;
        }
        assert(self@.registers =~= m.execute(Opcode::LoadRegisters(register), 0).registers);
    }

    /// Jumps to `address` plus V0, or plus the register named by the
    /// address's second nibble under the jumping quirk.
    fn jump_address_v0(&mut self, address: u16)
        requires
            old(self).wf(),
        ensures
            final(self)@ == old(self)@.execute(Opcode::JumpAddrV0(address), 0),
    {
        let target_register: u16 = match self.quirk_config.jumping {
            JumpingQuirk::V0 => 0,
            JumpingQuirk::Vx => (address & 0xF00) >> 8,
        };
        assert((address & 0xF00) >> 8 == (address / 256) % 16) by (bit_vector);
        self.program_counter = address.wrapping_add(self.registers[target_register as usize] as u16);
    }

    /// `V[first_register] += V[second_register]`, wrapping; VF = 1 on carry, else 0.
    fn add_registers(&mut self, first_register: usize, second_register: usize)
        requires
            old(self).wf(),
            first_register < 16,
            second_register < 16,
        ensures
            final(self)@ == old(self)@.execute(Opcode::AddRegisters(first_register, second_register), 0),
    {
        let sum: u16 = self.registers[first_register] as u16 + self.registers[second_register] as u16;
        self.registers[first_register] = (sum % 256) as u8;
        self.registers[15] = if sum > 255 {
            1
        } else {
            0
        };
    }

    /// `V[result_register] = V[minuend_register] - V[subtrahend_register]`,
    /// wrapping; VF = 1 when no borrow occurred, else 0.
    fn bounded_subtraction(
        &mut self,
        minuend_register: usize,
        subtrahend_register: usize,
        result_register: usize,
    )
        requires
            old(self).wf(),
            minuend_register < 16,
            subtrahend_register < 16,
            result_register < 16,
        ensures
            final(self)@ == old(self)@.subtract(
                minuend_register as int,
                subtrahend_register as int,
                result_register as int,
            ),
    {
        let minuend = self.registers[minuend_register];
        let subtrahend = self.registers[subtrahend_register];
        let difference = minuend.wrapping_sub(subtrahend);
        self.registers[result_register] = difference;
        self.registers[15] = if minuend >= subtrahend {
            1
        } else {
            0
        };
    }

    /// Shifts the source register right by one into `V[first_register]`; VF = the bit shifted out.
    fn bit_shift_right(&mut self, first_register: usize, second_register: usize)
        requires
            old(self).wf(),
            first_register < 16,
            second_register < 16,
        ensures
            final(self)@ == old(self)@.execute(Opcode::BitShiftRight(first_register, second_register), 0),
    {
        let target_shift_register = match self.quirk_config.shifting {
            ShiftingQuirk::Vy => second_register,
            ShiftingQuirk::Vx => first_register,
        };
        let value = self.registers[target_shift_register];
        let will_bit_run_off = value & 0x1;
        assert(value & 0x1 == value % 2) by (bit_vector);
        assert(value >> 1 == value / 2) by (bit_vector);
        self.registers[first_register] = value >> 1;
        self.registers[15] = will_bit_run_off;
    }

    /// Shifts the source register left by one into `V[first_register]`; VF = the bit shifted out.
    fn bit_shift_left(&mut self, first_register: usize, second_register: usize)
        requires
            old(self).wf(),
            first_register < 16,
            second_register < 16,
        ensures
            final(self)@ == old(self)@.execute(Opcode::BitShiftLeft(first_register, second_register), 0),
    {
        let target_shift_register = match self.quirk_config.shifting {
            ShiftingQuirk::Vy => second_register,
            ShiftingQuirk::Vx => first_register,
        };
        let value = self.registers[target_shift_register];
        let will_bit_run_off = (value & 0x80) >> 7;
        assert((value & 0x80) >> 7 == value / 128) by (bit_vector);
        assert(value << 1 == ((value * 2) % 256) as u8) by (bit_vector);
        self.registers[first_register] = value << 1;
        self.registers[15] = will_bit_run_off;
    }

    /// Writes the three decimal digits of `V[register]` from register I on,
    /// hundreds first.
    fn binary_coded_decimal(&mut self, register: usize)
        requires
            old(self).wf(),
            register < 16,
        ensures
            final(self)@ == old(self)@.execute(Opcode::BinaryCodedDecimal(register), 0),
    {
        let mut value = self.registers[register];
        let start = self.register_i as usize;
        self.ram[(start + 2) % 4096] = value % 10;
        value = value / 10;
        self.ram[(start + 1) % 4096] = value % 10;
        value = value / 10;
        self.ram[start % 4096] = value % 10;
        let ghost v = old(self).registers[register as int];
        assert(((v / 10) / 10) % 10 == v / 100);
        assert(self@.ram =~= old(self)@.execute(Opcode::BinaryCodedDecimal(register), 0).ram);
    }

    /// Points register I at the glyph of the digit in `V[register]`.
    pub fn set_register_i_hex_sprite_location(&mut self, register: usize)
        requires
            old(self).wf(),
            register < 16,
        ensures
            final(self)@ == old(self)@.execute(Opcode::SetIHexSpriteLocation(register), 0),
    {
        self.register_i = self.registers[register] as u16 * 5;
    }

    /// Waits for the next display refresh, which draws the sprite.
    fn draw(&mut self, first_register: usize, second_register: usize, length: u8)
        ensures
            final(self)@ == (MachineView {
                state: RunState::WaitingForDisplayRefresh {
                    x_register: first_register,
                    y_register: second_register,
                    height: length,
                },
                ..old(self)@
            }),
    {
        self.state = RunState::WaitingForDisplayRefresh {
            x_register: first_register,
            y_register: second_register,
            height: length,
        };
    }

    /// Executes a control-flow or suspending instruction.
    fn apply_control_opcode(&mut self, opcode: &Opcode) -> (r: Result<(), StackFault>)
        requires
            old(self).wf(),
            opcode.wf(),
            opcode is ClearScreen || opcode is Return || opcode is JumpAddr || opcode is SystemAddr
                || opcode is CallAddr || opcode is JumpAddrV0 || opcode is Draw
                || opcode is LoadKeyPress,
        ensures
            final(self).wf(),
            match old(self)@.stack_fault(*opcode) {
                Some(fault) => r == Err::<(), StackFault>(fault) && final(self)@ == old(self)@,
                None => r is Ok && final(self)@ == old(self)@.execute(*opcode, 0),
            },
    {
        match *opcode {
            Opcode::ClearScreen => self.clear_screen(),
            Opcode::Return => {
                if self.stack_pointer == 0 {
                    return Err(StackFault::Underflow);
                }
                self.return_from_subroutine();
            },
            Opcode::JumpAddr(address) => self.program_counter = address,
            Opcode::SystemAddr(address) | Opcode::CallAddr(address) => {
                if self.stack_pointer >= 16 {
                    return Err(StackFault::Overflow);
                }
                self.call_addr(address);
            },
            Opcode::JumpAddrV0(address) => self.jump_address_v0(address),
            Opcode::Draw(first_register, second_register, length) => {
                match self.quirk_config.display_wait {
                    DisplayWaitQuirk::Wait => self.draw(first_register, second_register, length),
                    DisplayWaitQuirk::NoWait => self.complete_draw(
                        first_register,
                        second_register,
                        length,
                    ),
                }
            },
            Opcode::LoadKeyPress(register) => {
                self.state = RunState::WaitingForKey { register, latched: None };
            },
            _ => {},
        }
        Ok(())
    }

    /// Executes a conditional skip.
    fn apply_skip_opcode(&mut self, opcode: &Opcode)
        requires
            old(self).wf(),
            opcode.wf(),
            opcode is SkipRegisterEqualsValue || opcode is SkipRegisterNotEqualsValue
                || opcode is SkipRegistersEqual || opcode is SkipRegistersNotEqual
                || opcode is SkipKeyPressed || opcode is SkipKeyNotPressed,
        ensures
            final(self).wf(),
            final(self)@ == old(self)@.execute(*opcode, 0),
    {
        let condition = match *opcode {
            Opcode::SkipRegisterEqualsValue(register, value) => self.registers[register] == value,
            Opcode::SkipRegisterNotEqualsValue(register, value) => self.registers[register] != value,
            Opcode::SkipRegistersEqual(first_register, second_register) => {
                self.registers[first_register] == self.registers[second_register]
            },
            Opcode::SkipRegistersNotEqual(first_register, second_register) => {
                self.registers[first_register] != self.registers[second_register]
            },
            Opcode::SkipKeyPressed(register) => self.keyboard.contains(&self.registers[register]),
            Opcode::SkipKeyNotPressed(register) => !self.keyboard.contains(
                &self.registers[register],
            ),
            _ => false,
        };
        self.skip_next_if(condition);
    }

    /// Executes an instruction that computes into a register.
    fn apply_register_opcode(&mut self, opcode: &Opcode, random_byte: u8)
        requires
            old(self).wf(),
            opcode.wf(),
            opcode is LoadValue || opcode is AddValue || opcode is LoadRegisterValue || opcode is Or
                || opcode is And || opcode is Xor || opcode is AddRegisters
                || opcode is SubtractFromFirstRegister || opcode is BitShiftRight
                || opcode is SubtractFromSecondRegister || opcode is BitShiftLeft
                || opcode is Random,
        ensures
            final(self).wf(),
            final(self)@ == old(self)@.execute(*opcode, random_byte),
    {
        match *opcode {
            Opcode::LoadValue(register, value) => self.registers[register] = value,
            Opcode::AddValue(register, value) => {
                let sum: u16 = self.registers[register] as u16 + value as u16;
                self.registers[register] = (sum % 256) as u8;
            },
            Opcode::LoadRegisterValue(first_register, second_register) => {
                self.registers[first_register] = self.registers[second_register];
            },
            Opcode::Or(first_register, second_register) => {
                self.registers[first_register] = self.registers[first_register]
                    | self.registers[second_register];
                self.handle_reset_quirk();
            },
            Opcode::And(first_register, second_register) => {
                self.registers[first_register] = self.registers[first_register]
                    & self.registers[second_register];
                self.handle_reset_quirk();
            },
            Opcode::Xor(first_register, second_register) => {
                self.registers[first_register] = self.registers[first_register]
                    ^ self.registers[second_register];
                self.handle_reset_quirk();
            },
            Opcode::AddRegisters(first_register, second_register) => {
                self.add_registers(first_register, second_register);
            },
            Opcode::SubtractFromFirstRegister(first_register, second_register) => {
                self.bounded_subtraction(first_register, second_register, first_register);
            },
            Opcode::BitShiftRight(first_register, second_register) => {
                self.bit_shift_right(first_register, second_register);
            },
            Opcode::SubtractFromSecondRegister(first_register, second_register) => {
                self.bounded_subtraction(second_register, first_register, first_register);
            },
            Opcode::BitShiftLeft(first_register, second_register) => {
                self.bit_shift_left(first_register, second_register);
            },
            Opcode::Random(register, value) => self.random(register, value, random_byte),
            _ => {},
        }
    }

    /// Executes an instruction on register I, memory or the timers.
    fn apply_memory_opcode(&mut self, opcode: &Opcode)
        requires
            old(self).wf(),
            opcode.wf(),
            opcode is LoadRegisterI || opcode is LoadDelayTimer || opcode is SetDelayTimer
                || opcode is SetSoundTimer || opcode is AddRegisterI
                || opcode is SetIHexSpriteLocation || opcode is BinaryCodedDecimal
                || opcode is StoreRegisters || opcode is LoadRegisters,
        ensures
            final(self).wf(),
            final(self)@ == old(self)@.execute(*opcode, 0),
    {
        match *opcode {
            Opcode::LoadRegisterI(address) => self.register_i = address,
            Opcode::LoadDelayTimer(register) => self.registers[register] = self.delay_timer,
            Opcode::SetDelayTimer(register) => self.delay_timer = self.registers[register],
            Opcode::SetSoundTimer(register) => self.sound_timer = self.registers[register],
            Opcode::AddRegisterI(register) => {
                self.register_i = self.register_i.wrapping_add(self.registers[register] as u16);
            },
            Opcode::SetIHexSpriteLocation(register) => {
                self.set_register_i_hex_sprite_location(register);
            },
            Opcode::BinaryCodedDecimal(register) => self.binary_coded_decimal(register),
            Opcode::StoreRegisters(register) => self.store_registers(register),
            Opcode::LoadRegisters(register) => self.load_registers(register),
            _ => {},
        }
    }

    /// Executes `opcode`, whose address the program counter has already
    /// passed; `random_byte` is the byte that the random instruction masks.
    /// A call with a full stack or a return with an empty one changes nothing
    /// and reports the fault.
    pub fn apply_opcode(&mut self, opcode: &Opcode, random_byte: u8) -> (r: Result<(), StackFault>)
        requires
            old(self).wf(),
            opcode.wf(),
        ensures
            final(self).wf(),
            match old(self)@.stack_fault(*opcode) {
                Some(fault) => r == Err::<(), StackFault>(fault) && final(self)@ == old(self)@,
                None => r is Ok && final(self)@ == old(self)@.execute(*opcode, random_byte),
            },
    {
        match *opcode {
            Opcode::ClearScreen | Opcode::Return | Opcode::JumpAddr(_) | Opcode::SystemAddr(_)
            | Opcode::CallAddr(_) | Opcode::JumpAddrV0(_) | Opcode::Draw(_, _, _)
            | Opcode::LoadKeyPress(_) => {
                return self.apply_control_opcode(opcode);
            },
            Opcode::SkipRegisterEqualsValue(_, _) | Opcode::SkipRegisterNotEqualsValue(_, _)
            | Opcode::SkipRegistersEqual(_, _) | Opcode::SkipRegistersNotEqual(_, _)
            | Opcode::SkipKeyPressed(_) | Opcode::SkipKeyNotPressed(_) => {
                self.apply_skip_opcode(opcode);
            },
            Opcode::LoadRegisterI(_) | Opcode::LoadDelayTimer(_) | Opcode::SetDelayTimer(_)
            | Opcode::SetSoundTimer(_) | Opcode::AddRegisterI(_) | Opcode::SetIHexSpriteLocation(_)
            | Opcode::BinaryCodedDecimal(_) | Opcode::StoreRegisters(_) | Opcode::LoadRegisters(_) => {
                self.apply_memory_opcode(opcode);
            },
            _ => {
                self.apply_register_opcode(opcode, random_byte);
            },
        }
        Ok(())
    }

    /// Executes `opcode`, whose address the program counter has already
    /// passed, drawing a fresh random byte for the random instruction.
    pub fn handle_opcode(&mut self, opcode: &Opcode) -> (r: Result<(), StackFault>)
        requires
            old(self).wf(),
            opcode.wf(),
        ensures
            final(self).wf(),
            match old(self)@.stack_fault(*opcode) {
                Some(fault) => r == Err::<(), StackFault>(fault) && final(self)@ == old(self)@,
                None => r is Ok && exists|b: u8| final(self)@ == old(self)@.execute(*opcode, b),
            },
    {
        let random = match *opcode {
            Opcode::Random(_, _) => random_byte(),
            _ => 0,
        };
        self.apply_opcode(opcode, random)
    }
}

impl Interpreter {
    /// One fetch-decode-execute step. A stopped or suspended machine is left
    /// unchanged. Otherwise the word at the program counter is decoded, the
    /// program counter advances past it and the instruction executes; a word
    /// that encodes no instruction, or a call or return that meets a full or
    /// empty stack, leaves the machine unchanged and is reported with its address.
    #[verifier::rlimit(50)]
    pub fn handle_cycle(&mut self) -> (r: Result<(), CycleError>)
        requires
            old(self).wf(),
        ensures
            final(self).wf(),
            !old(self)@.is_running || old(self)@.is_suspended() ==> r is Ok && final(self)@
                == old(self)@,
            old(self)@.is_running && !old(self)@.is_suspended() ==> {
                let (first, second) = old(self)@.fetched();
                let pc = old(self).program_counter;
                match decode(first, second) {
                    None => r == Err::<(), CycleError>(
                        CycleError::UnrecognizedOpcode {
                            address: pc,
                            first_byte: first,
                            second_byte: second,
                        },
                    ) && final(self)@ == old(self)@,
                    Some(op) => match old(self)@.stack_fault(op) {
                        Some(fault) => r == Err::<(), CycleError>(
                            CycleError::StackFault { address: pc, fault },
                        ) && final(self)@ == old(self)@,
                        None => r is Ok && exists|b: u8|
                            final(self)@ == #[trigger] old(self)@.with_pc(pc + 2).execute(op, b),
                    },
                }
            },
    {
        if !self.is_running {
            return Ok(());
        }
        match self.state {
            RunState::Running => {},
            _ => {
                return Ok(());
            },
        }
        let address = self.program_counter;
        let first_byte = self.ram[address as usize % 4096];
        let second_byte = self.ram[(address as usize + 1) % 4096];
        let word = [first_byte, second_byte];
        let opcode = match OpcodeBytes::build(word.as_slice()).get_opcode() {
            Ok(opcode) => opcode,
            Err(_) => {
                return Err(CycleError::UnrecognizedOpcode { address, first_byte, second_byte });
            },
        };
        proof {
            crate::opcodes::lemma_decoded_opcode_wf(first_byte, second_byte);
        }
        self.program_counter = address.wrapping_add(PROGRAM_COUNTER_INCREMENT);
        match self.handle_opcode(&opcode) {
            Ok(()) => Ok(()),
            Err(fault) => {
                self.program_counter = address;
                Err(CycleError::StackFault { address, fault })
            },
        }
    }

    /// Counts both timers down by one, stopping at zero.
    pub fn handle_timers(&mut self)
        ensures
            final(self)@ == old(self)@.timers_ticked(),
    {
        self.sound_timer = self.sound_timer.saturating_sub(1);
        self.delay_timer = self.delay_timer.saturating_sub(1);
    }

    /// One frame tick of a running machine: the timers count down, and a draw
    /// waiting for the display refresh is performed, which resumes execution.
    /// The host presents the framebuffer before the tick.
    pub fn handle_frame(&mut self)
        requires
            old(self).wf(),
        ensures
            final(self).wf(),
            final(self)@ == old(self)@.frame(),
    {
        if !self.is_running {
            return;
        }
        self.handle_timers();
        match self.state {
            RunState::WaitingForDisplayRefresh { x_register, y_register, height } => {
                self.complete_draw(x_register, y_register, height);
                self.state = RunState::Running;
            },
            _ => {},
        }
    }

    /// Whether the tone sounds: while the sound timer is not zero.
    pub fn is_tone_on(&self) -> (r: bool)
        ensures
            r == (self.sound_timer > 0),
    {
        self.sound_timer > 0
    }

    /// Returns the logical key of a physical key, named by the character on
    /// it, or `None` for a key outside the keypad.
    pub fn get_key_mapping(keycode: char) -> (r: Option<u8>)
        ensures
            r == key_mapping(keycode),
    {
        match keycode {
            '1' => Some(0x1),
            '2' => Some(0x2),
            '3' => Some(0x3),
            '4' => Some(0xC),
            'q' => Some(0x4),
            'w' => Some(0x5),
            'e' => Some(0x6),
            'r' => Some(0xD),
            'a' => Some(0x7),
            's' => Some(0x8),
            'd' => Some(0x9),
            'f' => Some(0xE),
            'z' => Some(0xA),
            'x' => Some(0x0),
            'c' => Some(0xB),
            'v' => Some(0xF),
            _ => None,
        }
    }

    /// Records a press of the physical key `keycode`; a machine waiting for a
    /// key latches it into the destination register. Keys outside the keypad
    /// are ignored.
    pub fn handle_key_press(&mut self, keycode: char)
        requires
            old(self).wf(),
        ensures
            final(self).wf(),
            final(self)@ == (match key_mapping(keycode) {
                Some(key) => old(self)@.key_pressed(key),
                None => old(self)@,
            }),
    {
        if let Some(key) = Self::get_key_mapping(keycode) {
            match self.state {
                RunState::WaitingForKey { register, .. } => {
                    self.registers[register] = key;
                    self.state = RunState::WaitingForKey { register, latched: Some(key) };
                },
                _ => {},
            }
            self.keyboard.insert(key);
        }
    }

    /// Records a release of the physical key `keycode`; a machine waiting on
    /// that latched key resumes. Keys outside the keypad are ignored.
    pub fn handle_key_release(&mut self, keycode: char)
        requires
            old(self).wf(),
        ensures
            final(self).wf(),
            final(self)@ == (match key_mapping(keycode) {
                Some(key) => old(self)@.key_released(key),
                None => old(self)@,
            }),
    {
        if let Some(key) = Self::get_key_mapping(keycode) {
            self.keyboard.remove(&key);
            match self.state {
                RunState::WaitingForKey { latched: Some(latched), .. } => {
                    if latched == key {
                        self.state = RunState::Running;
                    }
                },
                _ => {},
            }
        }
    }

    /// Loads `game_data` at 0x200 and resets everything else but the glyph
    /// area, so that the machine runs the program from its start.
    pub fn load_game(&mut self, game_data: &[u8])
        requires
            old(self).wf(),
            game_data@.len() <= 3584,
        ensures
            final(self).wf(),
            final(self)@ == old(self)@.loaded(game_data@),
    {
        let ghost glyphs = self.ram@.subrange(0, 80);
        let mut a: usize = 80;
        while a < 4096
            invariant
                80 <= a <= 4096,
                self.quirk_config == old(self).quirk_config,
                self.ram@.subrange(0, 80) == glyphs,
                forall|k: int| 80 <= k < a ==> self.ram@[k] == 0,
            decreases 4096 - a,
        {
            self.ram[a] = 0;
            a += 1;
        }
        let mut i: usize = 0;
        while i < game_data.len()
            invariant
                i <= game_data@.len() <= 3584,
                self.quirk_config == old(self).quirk_config,
                self.ram@.subrange(0, 80) == glyphs,
                forall|k: int|
                    80 <= k < 4096 ==> #[trigger] self.ram@[k] == (if 0x200 <= k < 0x200 + i {
                        game_data@[k - 0x200]
                    } else {
                        0
                    }),
            decreases game_data@.len() - i,
        {
            self.ram[0x200 + i] = game_data[i];
            i += 1;
        }
        self.registers = [0u8; 16];
        self.register_i = 0;
        self.delay_timer = 0;
        self.sound_timer = 0;
        self.stack_pointer = 0;
        self.stack = [0u16; 16];
        self.keyboard.clear();
        self.state = RunState::Running;
        self.clear_screen();
        self.program_counter = 0x200;
        self.is_running = true;
        proof {
            let target = old(self)@.loaded(game_data@);
            assert forall|k: int| 0 <= k < 4096 implies self.ram@[k] == target.ram[k] by {
                if k < 80 {
                    assert(self.ram@[k] == self.ram@.subrange(0, 80)[k]);
                    assert(old(self).ram@[k] == glyphs[k]);
                }
            }
            assert(self.ram@ =~= target.ram);
            assert(self.registers@ =~= target.registers);
            assert(self.stack@ =~= target.stack);
            assert(self.drawing_buffer@ =~= target.drawing_buffer);
        }
    }
}

} // verus!
