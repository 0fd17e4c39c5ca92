//! A CHIP-8 virtual machine.
//!
//! [`cpu::Cpu`] is the machine: 4096 bytes of memory, sixteen registers, a call stack, two
//! timers, a [`display::Display`] of 64 by 32 pixels and a [`keypad::KeyPad`] of sixteen
//! keys. It is built from a program image, runs one instruction per call of
//! [`cpu::Cpu::next`], and counts its timers down once per call of
//! [`cpu::Cpu::decrease_timers`].
//!
//! What the machine does is defined by a mathematical model: [`state::CpuState`] is the
//! state, and [`instructions::execute`] gives the outcome of each opcode in each state. The
//! contracts of the executable code are stated over that model, and [`laws`] proves
//! properties of it.

pub mod cpu;
pub mod display;
pub mod instructions;
pub mod keypad;
pub mod laws;
pub mod stack;
pub mod state;
