//! The meaning of every instruction, as functions on the state of the machine.

use vstd::prelude::*;
use crate::display::{blank_screen, draw_sprite, sprite_collides};
use crate::keypad::{lowest_key_down, KEY_COUNT};
use crate::state::{CpuState, ExecError, FLAG_REGISTER, MEMORY_SIZE, STACK_DEPTH};

verus! {

/// The instruction family: the most significant nibble of an opcode.
pub open spec fn op_family(opcode: u16) -> int {
    opcode as int / 0x1000
}

/// The register operand `x`: the second nibble of an opcode.
pub open spec fn op_x(opcode: u16) -> int {
    (opcode as int / 0x100) % 0x10
}

/// The register operand `y`: the third nibble of an opcode.
pub open spec fn op_y(opcode: u16) -> int {
    (opcode as int / 0x10) % 0x10
}

/// The least significant nibble of an opcode.
pub open spec fn op_n(opcode: u16) -> int {
    opcode as int % 0x10
}

/// The 8-bit immediate: the low byte of an opcode.
pub open spec fn op_nn(opcode: u16) -> u8 {
    (opcode as int % 0x100) as u8
}

/// The 12-bit immediate: the low three nibbles of an opcode.
pub open spec fn op_nnn(opcode: u16) -> u16 {
    (opcode as int % 0x1000) as u16
}

/// The big-endian opcode at the program counter, if both of its bytes lie inside memory.
pub open spec fn fetch(s: CpuState) -> Option<u16> {
    if s.pc + 1 < MEMORY_SIZE {
        Some((s.memory[s.pc as int] * 0x100 + s.memory[s.pc + 1]) as u16)
    } else {
        None
    }
}

/// The error, if any, with which the machine in state `s` refuses `opcode`: the
/// instruction cannot have been fetched, it returns from no call or calls too deep, it
/// reaches beyond the end of memory, or it asks for a key that does not exist.
pub open spec fn fault(s: CpuState, opcode: u16) -> Option<ExecError> {
    let x = op_x(opcode);
    let family = op_family(opcode);
    let nn = op_nn(opcode);
    if s.pc + 1 >= MEMORY_SIZE {
        Some(ExecError::ProgramCounterOutOfBounds)
    } else if opcode == 0x00EE && s.stack.len() == 0 {
        Some(ExecError::StackUnderflow)
    } else if family == 0x2 && s.stack.len() >= STACK_DEPTH {
        Some(ExecError::StackOverflow)
    } else if family == 0xD && s.i + op_n(opcode) > MEMORY_SIZE {
        Some(ExecError::AddressOutOfBounds)
    } else if family == 0xE && (nn == 0x9E || nn == 0xA1) && s.v[x] >= KEY_COUNT {
        Some(ExecError::KeyOutOfRange)
    } else if family == 0xF && nn == 0x33 && s.i + 2 >= MEMORY_SIZE {
        Some(ExecError::AddressOutOfBounds)
    } else if family == 0xF && (nn == 0x55 || nn == 0x65) && s.i + x >= MEMORY_SIZE {
        Some(ExecError::AddressOutOfBounds)
    } else {
        None
    }
}

/// `s` with the program counter moved past one instruction.
pub open spec fn advance(s: CpuState) -> CpuState {
    CpuState { pc: (s.pc + 2) as u16, ..s }
}

/// `s` with the program counter moved past one more instruction if `condition` holds.
pub open spec fn skip_if(s: CpuState, condition: bool) -> CpuState {
    if condition {
        advance(s)
    } else {
        s
    }
}

/// `s` with `value` in register `x`.
pub open spec fn with_register(s: CpuState, x: int, value: u8) -> CpuState {
    CpuState { v: s.v.update(x, value), ..s }
}

/// `s` with `value` in register `x` and then `flag` in VF: where `x` is VF itself, the
/// flag is what remains.
pub open spec fn with_flagged_result(s: CpuState, x: int, value: u8, flag: bool) -> CpuState {
    CpuState {
        v: s.v.update(x, value).update(FLAG_REGISTER as int, if flag { 1u8 } else { 0u8 }),
        ..s
    }
}

/// The arithmetic and logic family, `8xyN`. Results wrap modulo 256, and each flag is
/// computed from the operands as they were before the instruction.
pub open spec fn alu(s: CpuState, x: int, y: int, n: int) -> CpuState {
    let vx = s.v[x];
    let vy = s.v[y];
    if n == 0x0 {
        // 8xy0: Vx = Vy
        with_register(s, x, vy)
    } else if n == 0x1 {
        // 8xy1: Vx = Vx OR Vy
        with_register(s, x, vx | vy)
    } else if n == 0x2 {
        // 8xy2: Vx = Vx AND Vy
        with_register(s, x, vx & vy)
    } else if n == 0x3 {
        // 8xy3: Vx = Vx XOR Vy
        with_register(s, x, vx ^ vy)
    } else if n == 0x4 {
        // 8xy4: Vx = Vx + Vy, VF = carry
        with_flagged_result(s, x, ((vx + vy) % 256) as u8, vx + vy > 255)
    } else if n == 0x5 {
        // 8xy5: Vx = Vx - Vy, VF = no borrow
        with_flagged_result(s, x, ((vx - vy) % 256) as u8, vx >= vy)
    } else if n == 0x6 {
        // 8xy6: Vx = Vy >> 1, VF = bit 0 of Vy
        with_flagged_result(s, x, vy / 2, vy % 2 == 1)
    } else if n == 0x7 {
        // 8xy7: Vx = Vy - Vx, VF = no borrow
        with_flagged_result(s, x, ((vy - vx) % 256) as u8, vy >= vx)
    } else if n == 0xE {
        // 8xyE: Vx = Vy << 1, VF = bit 7 of Vy
        with_flagged_result(s, x, ((vy * 2) % 256) as u8, vy >= 128)
    } else {
        s
    }
}

/// The sprite that `Dxyn` draws: the `n` bytes of memory from the address register on.
pub open spec fn sprite_at(s: CpuState, n: int) -> Seq<u8> {
    s.memory.subrange(s.i as int, s.i + n)
}

/// `Dxyn`: the sprite is XOR-drawn at `(Vx, Vy)` and VF tells whether it collided.
pub open spec fn draw(s: CpuState, x: int, y: int, n: int) -> CpuState {
    let sprite = sprite_at(s, n);
    CpuState {
        pixels: draw_sprite(s.pixels, s.v[x] as int, s.v[y] as int, sprite),
        v: s.v.update(
            FLAG_REGISTER as int,
            if sprite_collides(s.pixels, s.v[x] as int, s.v[y] as int, sprite) {
                1u8
            } else {
                0u8
            },
        ),
        ..s
    }
}

/// `Fx33`: the hundreds, tens and ones digits of Vx go to memory at I, I+1 and I+2.
pub open spec fn store_bcd(s: CpuState, x: int) -> CpuState {
    let vx = s.v[x];
    CpuState {
        memory: s.memory.update(s.i as int, vx / 100).update(s.i + 1, (vx / 10) % 10).update(
            s.i + 2,
            vx % 10,
        ),
        ..s
    }
}

/// `Fx55`: V0 to Vx go to memory from I on, and I moves past them.
pub open spec fn store_registers(s: CpuState, x: int) -> CpuState {
    CpuState {
        memory: Seq::new(
            s.memory.len(),
            |a: int|
                if s.i <= a <= s.i + x {
                    s.v[a - s.i]
                } else {
                    s.memory[a]
                },
        ),
        i: (s.i + x + 1) as u16,
        ..s
    }
}

/// `Fx65`: V0 to Vx are read from memory from I on, and I moves past them.
pub open spec fn load_registers(s: CpuState, x: int) -> CpuState {
    CpuState {
        v: Seq::new(
            s.v.len(),
            |r: int|
                if r <= x {
                    s.memory[s.i + r]
                } else {
                    s.v[r]
                },
        ),
        i: (s.i + x + 1) as u16,
        ..s
    }
}

/// The timer, key and memory family, `FxNN`, applied to the state `t` whose program
/// counter has already been advanced.
pub open spec fn misc(t: CpuState, x: int, nn: u8) -> CpuState {
    let vx = t.v[x];
    if nn == 0x07 {
        // Fx07: Vx = delay timer
        with_register(t, x, t.delay_timer)
    } else if nn == 0x0A {
        // Fx0A: wait for a key; until one is down the instruction is executed again
        match lowest_key_down(t.keys) {
            Some(key) => with_register(t, x, key),
            None => CpuState { pc: (t.pc - 2) as u16, ..t },
        }
    } else if nn == 0x15 {
        // Fx15: delay timer = Vx
        CpuState { delay_timer: vx, ..t }
    } else if nn == 0x18 {
        // Fx18: sound timer = Vx
        CpuState { sound_timer: vx, ..t }
    } else if nn == 0x1E {
        // Fx1E: I = I + Vx, wrapping
        CpuState { i: ((t.i + vx) % 0x10000) as u16, ..t }
    } else if nn == 0x29 {
        // Fx29: I = address of the glyph of the digit Vx
        CpuState { i: (vx * 5) as u16, ..t }
    } else if nn == 0x33 {
        // Fx33
        store_bcd(t, x)
    } else if nn == 0x55 {
        // Fx55
        store_registers(t, x)
    } else if nn == 0x65 {
        // Fx65
        load_registers(t, x)
    } else {
        t
    }
}

/// The state after `opcode` is executed in state `s`, which does not refuse it. `random`
/// is the byte that `Cxnn` is given to mask. The program counter is advanced first; an
/// opcode that matches no instruction does nothing more.
pub open spec fn apply(s: CpuState, opcode: u16, random: u8) -> CpuState {
    let t = advance(s);
    let family = op_family(opcode);
    let x = op_x(opcode);
    let y = op_y(opcode);
    let n = op_n(opcode);
    let nn = op_nn(opcode);
    let nnn = op_nnn(opcode);
    let vx = t.v[x];
    let vy = t.v[y];
    if opcode == 0x00E0 {
        // 00E0: clear the screen
        CpuState { pixels: blank_screen(), ..t }
    } else if opcode == 0x00EE {
        // 00EE: return
        CpuState { pc: t.stack.last(), stack: t.stack.drop_last(), ..t }
    } else if family == 0x1 {
        // 1nnn: jump
        CpuState { pc: nnn, ..t }
    } else if family == 0x2 {
        // 2nnn: call; the return address is that of the next instruction
        CpuState { pc: nnn, stack: t.stack.push(t.pc), ..t }
    } else if family == 0x3 {
        // 3xnn: skip if Vx == nn
        skip_if(t, vx == nn)
    } else if family == 0x4 {
        // 4xnn: skip if Vx != nn
        skip_if(t, vx != nn)
    } else if family == 0x5 && n == 0 {
        // 5xy0: skip if Vx == Vy
        skip_if(t, vx == vy)
    } else if family == 0x6 {
        // 6xnn: Vx = nn
        with_register(t, x, nn)
    } else if family == 0x7 {
        // 7xnn: Vx = Vx + nn, wrapping; VF is left alone
        with_register(t, x, ((vx + nn) % 256) as u8)
    } else if family == 0x8 {
        // 8xyN
        alu(t, x, y, n)
    } else if family == 0x9 && n == 0 {
        // 9xy0: skip if Vx != Vy
        skip_if(t, vx != vy)
    } else if family == 0xA {
        // Annn: I = nnn
        CpuState { i: nnn, ..t }
    } else if family == 0xB {
        // Bnnn: jump to nnn + V0
        CpuState { pc: (nnn + t.v[0]) as u16, ..t }
    } else if family == 0xC {
        // Cxnn: Vx = random byte AND nn
        with_register(t, x, random & nn)
    } else if family == 0xD {
        // Dxyn
        draw(t, x, y, n)
    } else if family == 0xE && nn == 0x9E {
        // Ex9E: skip if the key Vx is down
        skip_if(t, t.keys[vx as int])
    } else if family == 0xE && nn == 0xA1 {
        // ExA1: skip if the key Vx is up
        skip_if(t, !t.keys[vx as int])
    } else if family == 0xF {
        // FxNN
        misc(t, x, nn)
    } else {
        t
    }
}

/// The outcome of executing `opcode` in state `s`.
pub open spec fn execute(s: CpuState, opcode: u16, random: u8) -> Result<CpuState, ExecError> {
    match fault(s, opcode) {
        Some(e) => Err(e),
        None => Ok(apply(s, opcode, random)),
    }
}

/// The outcome of fetching the instruction at the program counter and executing it.
pub open spec fn step(s: CpuState, random: u8) -> Result<CpuState, ExecError> {
    match fetch(s) {
        Some(opcode) => execute(s, opcode, random),
        None => Err(ExecError::ProgramCounterOutOfBounds),
    }
}

/// Whether the instruction at the program counter is `Cxnn`, the only one whose effect
/// depends on the random byte.
pub open spec fn draws_random(s: CpuState) -> bool {
    fetch(s) matches Some(opcode) && op_family(opcode) == 0xC
}

/// What an operation that answers `r` and leaves the machine in state `after` has done, as
/// an outcome of `execute` or `step`.
pub open spec fn outcome(r: Result<(), ExecError>, after: CpuState) -> Result<CpuState, ExecError> {
    match r {
        Ok(()) => Ok(after),
        Err(e) => Err(e),
    }
}

} // verus!
