//! Quirk settings: the points where historical CHIP-8 implementations disagree
//! on what an instruction does.

use vstd::prelude::*;

verus! {

/// Whether the AND, OR and XOR instructions reset register F afterwards.
#[derive(Debug, Clone, Copy, PartialEq, Eq, Default)]
pub enum ResetVfQuirk {
    #[default]
    Reset,
    NoReset,
}

/// Whether the block store and load instructions advance register I as they go.
#[derive(Debug, Clone, Copy, PartialEq, Eq, Default)]
pub enum MemoryIncrementQuirk {
    #[default]
    Increment,
    NoIncrement,
}

/// Whether a draw waits for the next display refresh before touching the framebuffer.
#[derive(Debug, Clone, Copy, PartialEq, Eq, Default)]
pub enum DisplayWaitQuirk {
    #[default]
    Wait,
    NoWait,
}

/// Whether sprite pixels past the screen edge are dropped or wrap around.
#[derive(Debug, Clone, Copy, PartialEq, Eq, Default)]
pub enum ClippingQuirk {
    #[default]
    Clip,
    Wrap,
}

/// Which register the shift instructions read: the second operand (`Vy`) or the first (`Vx`).
#[derive(Debug, Clone, Copy, PartialEq, Eq, Default)]
pub enum ShiftingQuirk {
    #[default]
    Vy,
    Vx,
}

/// Which register the jump-with-offset instruction adds: V0, or the register
/// named by the second nibble of the address (`Vx`).
#[derive(Debug, Clone, Copy, PartialEq, Eq, Default)]
pub enum JumpingQuirk {
    #[default]
    V0,
    Vx,
}

/// All quirk settings of one emulation session.
#[derive(Debug, Clone, Copy, PartialEq, Eq)]
pub struct QuirkConfig {
    pub reset_vf: ResetVfQuirk,
    pub memory: MemoryIncrementQuirk,
    pub display_wait: DisplayWaitQuirk,
    pub clipping: ClippingQuirk,
    pub shifting: ShiftingQuirk,
    pub jumping: JumpingQuirk,
}

impl QuirkConfig {
    /// The default settings, which reproduce the behavior of the COSMAC VIP.
    pub open spec fn spec_default() -> QuirkConfig {
        QuirkConfig {
            reset_vf: ResetVfQuirk::Reset,
            memory: MemoryIncrementQuirk::Increment,
            display_wait: DisplayWaitQuirk::Wait,
            clipping: ClippingQuirk::Clip,
            shifting: ShiftingQuirk::Vy,
            jumping: JumpingQuirk::V0,
        }
    }

    /// Returns a configuration with the default value of every quirk.
    pub fn new() -> (r: QuirkConfig)
        ensures
            r == QuirkConfig::spec_default(),
    {
        QuirkConfig {
            reset_vf: ResetVfQuirk::Reset,
            memory: MemoryIncrementQuirk::Increment,
            display_wait: DisplayWaitQuirk::Wait,
            clipping: ClippingQuirk::Clip,
            shifting: ShiftingQuirk::Vy,
            jumping: JumpingQuirk::V0,
        }
    }
}

impl Default for QuirkConfig {
    fn default() -> (r: Self)
        ensures
            r == QuirkConfig::spec_default(),
    {
        QuirkConfig::new()
    }
}

} // verus!
