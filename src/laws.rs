//! Properties that hold of every machine state, stated over the model of
//! [`crate::machine`] and proved once for all inputs.

use vstd::prelude::*;

use crate::machine::{MachineView, flag};
use crate::opcodes::Opcode;
use crate::quirks::MemoryIncrementQuirk;

verus! {

/// Adding two registers leaves `(a + b) mod 256` in the first and sets VF
/// exactly when `a + b > 255`; no other register changes. The sum is kept
/// unless the first register is VF itself, which the flag overwrites.
pub proof fn lemma_add_registers(m: MachineView, x: usize, y: usize, random_byte: u8)
    requires
        m.wf(),
        x < 16,
        y < 16,
    ensures
        ({
            let r = m.execute(Opcode::AddRegisters(x, y), random_byte);
            let a = m.registers[x as int];
            let b = m.registers[y as int];
            &&& x != 15 ==> r.registers[x as int] == (a + b) % 256
            &&& r.registers[15] == flag(a + b > 255)
            &&& forall|k: int| 0 <= k < 16 && k != x && k != 15 ==> r.registers[k] == m.registers[k]
        }),
{
}

/// Subtracting, in either direction, leaves the wrapping difference in the
/// first register and sets VF exactly when the minuend is at least the
/// subtrahend (no borrow); no other register changes. The difference is
/// kept unless the first register is VF itself, which the flag overwrites.
pub proof fn lemma_subtract_registers(m: MachineView, x: usize, y: usize, random_byte: u8)
    requires
        m.wf(),
        x < 16,
        y < 16,
    ensures
        ({
            let r = m.execute(Opcode::SubtractFromFirstRegister(x, y), random_byte);
            let a = m.registers[x as int];
            let b = m.registers[y as int];
            &&& x != 15 ==> r.registers[x as int] == (a - b) % 256
            &&& r.registers[15] == flag(a >= b)
            &&& forall|k: int| 0 <= k < 16 && k != x && k != 15 ==> r.registers[k] == m.registers[k]
        }),
        ({
            let r = m.execute(Opcode::SubtractFromSecondRegister(x, y), random_byte);
            let a = m.registers[y as int];
            let b = m.registers[x as int];
            &&& x != 15 ==> r.registers[x as int] == (a - b) % 256
            &&& r.registers[15] == flag(a >= b)
            &&& forall|k: int| 0 <= k < 16 && k != x && k != 15 ==> r.registers[k] == m.registers[k]
        }),
{
}

/// The state after `n` frame ticks.
pub open spec fn after_frames(m: MachineView, n: nat) -> MachineView
    decreases n,
{
    if n == 0 {
        m
    } else {
        after_frames(m, (n - 1) as nat).frame()
    }
}

/// On a running machine each frame tick takes one from each timer, and no
/// number of ticks takes a timer below zero.
pub proof fn lemma_timers_count_down(m: MachineView, n: nat)
    requires
        m.is_running,
    ensures
        after_frames(m, n).is_running,
        after_frames(m, n).delay_timer == (if m.delay_timer >= n {
            m.delay_timer - n
        } else {
            0
        }),
        after_frames(m, n).sound_timer == (if m.sound_timer >= n {
            m.sound_timer - n
        } else {
            0
        }),
    decreases n,
{
    if n > 0 {
        lemma_timers_count_down(m, (n - 1) as nat);
    }
}

/// After "load key press" the machine is suspended, which freezes the
/// program counter across cycles. Frame ticks and key presses keep it
/// suspended, a press latches its key into the destination register, the
/// release of any other key keeps it suspended, and only the release of the
/// latched key resumes it. None of these events moves the program counter.
pub proof fn lemma_key_wait(m: MachineView, x: usize, random_byte: u8, key: u8, other: u8)
    requires
        m.wf(),
        x < 16,
        other != key,
    ensures
        ({
            let waiting = m.execute(Opcode::LoadKeyPress(x), random_byte);
            let pressed = waiting.key_pressed(key);
            &&& waiting.is_suspended()
            &&& waiting.program_counter == m.program_counter
            &&& waiting.frame().is_suspended()
            &&& waiting.frame().program_counter == m.program_counter
            &&& pressed.is_suspended()
            &&& pressed.registers[x as int] == key
            &&& pressed.program_counter == m.program_counter
            &&& pressed.key_released(other).is_suspended()
            &&& pressed.key_released(other).program_counter == m.program_counter
            &&& pressed.key_pressed(other).key_released(key).is_suspended()
            &&& !pressed.key_released(key).is_suspended()
            &&& pressed.key_released(key).program_counter == m.program_counter
        }),
{
}

/// Storing registers writes the same memory under both settings of the
/// memory quirk; the settings differ only in register I.
pub proof fn lemma_store_policies_agree(m: MachineView, n: usize, random_byte: u8)
    requires
        m.wf(),
        n < 16,
    ensures
        ({
            let inc = MachineView {
                quirk_config: crate::quirks::QuirkConfig {
                    memory: MemoryIncrementQuirk::Increment,
                    ..m.quirk_config
                },
                ..m
            };
            let no_inc = MachineView {
                quirk_config: crate::quirks::QuirkConfig {
                    memory: MemoryIncrementQuirk::NoIncrement,
                    ..m.quirk_config
                },
                ..m
            };
            inc.execute(Opcode::StoreRegisters(n), random_byte).ram == no_inc.execute(
                Opcode::StoreRegisters(n),
                random_byte,
            ).ram
        }),
{
    let inc = MachineView {
        quirk_config: crate::quirks::QuirkConfig {
            memory: MemoryIncrementQuirk::Increment,
            ..m.quirk_config
        },
        ..m
    };
    let no_inc = MachineView {
        quirk_config: crate::quirks::QuirkConfig {
            memory: MemoryIncrementQuirk::NoIncrement,
            ..m.quirk_config
        },
        ..m
    };
    assert(inc.execute(Opcode::StoreRegisters(n), random_byte).ram =~= no_inc.execute(
        Opcode::StoreRegisters(n),
        random_byte,
    ).ram);
}

/// Drawing the same sprite twice at the same place restores the framebuffer,
/// where neither coordinate register is VF (which the first draw overwrites).
pub proof fn lemma_draw_twice_restores(m: MachineView, x: usize, y: usize, h: u8)
    requires
        m.wf(),
        x < 15,
        y < 15,
        h < 16,
    ensures
        m.draw(x as int, y as int, h as int).draw(x as int, y as int, h as int).drawing_buffer
            == m.drawing_buffer,
{
    let once = m.draw(x as int, y as int, h as int);
    let twice = once.draw(x as int, y as int, h as int);
    assert(twice.drawing_buffer =~= m.drawing_buffer);
}

} // verus!
