//! The mathematical model of the machine's state, and the errors that the machine reports.

use vstd::prelude::*;
use crate::display::{blank_screen, PIXEL_COUNT};
use crate::keypad::{all_keys_up, KEY_COUNT};

verus! {

/// Size of the address space in bytes.
pub const MEMORY_SIZE: usize = 4096;

/// Address at which a program is loaded and at which execution starts.
pub const START_ADDRESS: u16 = 0x200;

/// Largest program that fits between `START_ADDRESS` and the end of memory.
pub const MAX_PROGRAM_SIZE: usize = 3584;

/// Number of general-purpose registers.
pub const REGISTER_COUNT: usize = 16;

/// Index of the flag register, VF.
pub const FLAG_REGISTER: usize = 15;

/// Greatest number of nested subroutine calls.
pub const STACK_DEPTH: usize = 16;

/// Number of bytes in the built-in font: sixteen glyphs of five rows each.
pub const FONT_SIZE: usize = 80;

/// Why a program image cannot be loaded.
#[derive(Clone, Copy, Debug, PartialEq, Eq, Structural)]
pub enum LoadError {
    /// The image is longer than `MAX_PROGRAM_SIZE` bytes.
    ProgramTooLarge,
}

/// Why an instruction cannot be executed. The machine is left as it was.
#[derive(Clone, Copy, Debug, PartialEq, Eq, Structural)]
pub enum ExecError {
    /// A call was made with `STACK_DEPTH` return addresses already on the stack.
    StackOverflow,
    /// A return was made with no return address on the stack.
    StackUnderflow,
    /// The two bytes of the instruction do not both lie inside memory.
    ProgramCounterOutOfBounds,
    /// The instruction reads or writes memory beyond its end.
    AddressOutOfBounds,
    /// A key instruction names a key that the keypad does not have.
    KeyOutOfRange,
}

/// The complete state of the machine.
pub struct CpuState {
    /// The registers V0 to VF.
    pub v: Seq<u8>,
    /// The address space.
    pub memory: Seq<u8>,
    /// The address register, I.
    pub i: u16,
    /// Address of the next instruction.
    pub pc: u16,
    /// The return addresses of the calls in progress, the innermost last.
    pub stack: Seq<u16>,
    /// The delay timer.
    pub delay_timer: u8,
    /// The sound timer; a tone sounds while it is not zero.
    pub sound_timer: u8,
    /// For each key, whether it is down.
    pub keys: Seq<bool>,
    /// For each pixel in row-major order, whether it is on.
    pub pixels: Seq<bool>,
}

impl CpuState {
    /// Every component has the size that the machine gives it.
    pub open spec fn wf(self) -> bool {
        &&& self.v.len() == REGISTER_COUNT
        &&& self.memory.len() == MEMORY_SIZE
        &&& self.stack.len() <= STACK_DEPTH
        &&& self.keys.len() == KEY_COUNT
        &&& self.pixels.len() == PIXEL_COUNT
    }
}

/// The built-in font: for each hexadecimal digit, the five rows of its glyph.
pub const DEFAULT_FONTS: [u8; 80] = [
    0xF0, 0x90, 0x90, 0x90, 0xF0,
    0x20, 0x60, 0x20, 0x20, 0x70,
    0xF0, 0x10, 0xF0, 0x80, 0xF0,
    0xF0, 0x10, 0xF0, 0x10, 0xF0,
    0x90, 0x90, 0xF0, 0x10, 0x10,
    0xF0, 0x80, 0xF0, 0x10, 0xF0,
    0xF0, 0x80, 0xF0, 0x90, 0xF0,
    0xF0, 0x10, 0x20, 0x40, 0x40,
    0xF0, 0x90, 0xF0, 0x90, 0xF0,
    0xF0, 0x90, 0xF0, 0x10, 0xF0,
    0xF0, 0x90, 0xF0, 0x90, 0x90,
    0xE0, 0x90, 0xE0, 0x90, 0xE0,
    0xF0, 0x80, 0x80, 0x80, 0xF0,
    0xE0, 0x90, 0x90, 0x90, 0xE0,
    0xF0, 0x80, 0xF0, 0x80, 0xF0,
    0xF0, 0x80, 0xF0, 0x80, 0x80,
];

/// The built-in font as a sequence of bytes.
pub open spec fn font_table() -> Seq<u8> {
    DEFAULT_FONTS@
}

/// The state of a machine that has just been given `program`: the font at the bottom of
/// memory, the program at `START_ADDRESS`, and everything else zero.
pub open spec fn initial_state(program: Seq<u8>) -> CpuState {
    CpuState {
        v: Seq::new(REGISTER_COUNT as nat, |r: int| 0u8),
        memory: Seq::new(
            MEMORY_SIZE as nat,
            |a: int|
                if a < FONT_SIZE {
                    font_table()[a]
                } else if START_ADDRESS <= a < START_ADDRESS + program.len() {
                    program[a - START_ADDRESS]
                } else {
                    0u8
                },
        ),
        i: 0,
        pc: START_ADDRESS,
        stack: Seq::empty(),
        delay_timer: 0,
        sound_timer: 0,
        keys: all_keys_up(),
        pixels: blank_screen(),
    }
}

/// The state after one tick of the 60 Hz clock: each timer that is not yet zero is one less.
pub open spec fn tick(s: CpuState) -> CpuState {
    CpuState {
        delay_timer: if s.delay_timer > 0 { (s.delay_timer - 1) as u8 } else { 0 },
        sound_timer: if s.sound_timer > 0 { (s.sound_timer - 1) as u8 } else { 0 },
        ..s
    }
}

} // verus!
