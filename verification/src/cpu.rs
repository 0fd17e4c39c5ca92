//! The processor core: memory, registers, call stack and timers, with the display and the
//! keypad that its instructions act on.

use rand::Rng;
use vstd::prelude::*;
use vstd::wrapping::u8_specs;
use crate::display::{pixel_index, Display, Pixel, PIXEL_COUNT};
use crate::keypad::{KeyPad, KEY_COUNT};
use crate::stack::{padded, CallStack};
use crate::instructions::{
    alu, draw, draws_random, execute, fault, fetch, load_registers, misc, op_family, op_n, op_nn,
    op_nnn, op_x, op_y, outcome, skip_if, step, store_bcd, store_registers, with_flagged_result,
    with_register,
};
use crate::state::{
    font_table, initial_state, tick, CpuState, ExecError, LoadError, DEFAULT_FONTS, FLAG_REGISTER,
    FONT_SIZE, MAX_PROGRAM_SIZE, MEMORY_SIZE, REGISTER_COUNT, STACK_DEPTH, START_ADDRESS,
};

verus! {

/// A CHIP-8 machine with a program loaded.
pub struct Cpu {
    v: [u8; 16],
    memory: [u8; 4096],
    i: u16,
    stack: CallStack,
    program_counter: u16,
    delay_timer: u8,
    sound_timer: u8,
    keypad: KeyPad,
    display: Display,
}

impl View for Cpu {
    type V = CpuState;

    closed spec fn view(&self) -> CpuState {
        CpuState {
            v: self.v@,
            memory: self.memory@,
            i: self.i,
            pc: self.program_counter,
            stack: self.stack@,
            delay_timer: self.delay_timer,
            sound_timer: self.sound_timer,
            keys: self.keypad@,
            pixels: self.display@,
        }
    }
}

impl Cpu {
    /// The state of a machine is always well formed.
    pub proof fn lemma_view_wf(&self)
        ensures
            self@.wf(),
    {
        self.stack.lemma_bounded();
        self.keypad.lemma_key_count();
        self.display.lemma_pixel_count();
    }

    /// A machine with `program` loaded at `START_ADDRESS`, ready to execute its first
    /// instruction. A program that does not fit in memory is refused.
    pub fn new(program: &[u8]) -> (r: Result<Box<Cpu>, LoadError>)
        ensures
            program@.len() > MAX_PROGRAM_SIZE ==> r == Err::<Box<Cpu>, LoadError>(
                LoadError::ProgramTooLarge,
            ),
            program@.len() <= MAX_PROGRAM_SIZE ==> r is Ok && r->Ok_0@ == initial_state(program@),
            r matches Ok(cpu) ==> cpu@.pc == START_ADDRESS && cpu@.memory.subrange(
                0,
                FONT_SIZE as int,
            ) == font_table(),
    {
        if program.len() > MAX_PROGRAM_SIZE {
            return Err(LoadError::ProgramTooLarge);
        }
        let mut memory: [u8; 4096] = [0; 4096];
        let mut k: usize = 0;
        while k < FONT_SIZE
            invariant
                k <= FONT_SIZE,
                forall|a: int| 0 <= a < k ==> memory[a] == font_table()[a],
                forall|a: int| k <= a < MEMORY_SIZE ==> memory[a] == 0,
            decreases FONT_SIZE - k,
        {
            memory[k] = DEFAULT_FONTS[k];
            k += 1;
        }
        let mut k: usize = 0;
        while k < program.len()
            invariant
                k <= program.len() <= MAX_PROGRAM_SIZE,
                forall|a: int| 0 <= a < FONT_SIZE ==> memory[a] == font_table()[a],
                forall|a: int| FONT_SIZE <= a < START_ADDRESS ==> memory[a] == 0,
                forall|a: int|
                    START_ADDRESS <= a < START_ADDRESS + k ==> memory[a] == program[a
                        - START_ADDRESS],
                forall|a: int| START_ADDRESS + k <= a < MEMORY_SIZE ==> memory[a] == 0,
            decreases program.len() - k,
        {
            memory[START_ADDRESS as usize + k] = program[k];
            k += 1;
        }
        let cpu = Cpu {
            v: [0; 16],
            memory,
            i: 0,
            stack: CallStack::new(),
            program_counter: START_ADDRESS,
            delay_timer: 0,
            sound_timer: 0,
            keypad: KeyPad::new(),
            display: Display::new(),
        };
        proof {
            assert(cpu@.v =~= initial_state(program@).v);
            assert(cpu@.memory =~= initial_state(program@).memory);
            assert(cpu@.memory.subrange(0, FONT_SIZE as int) =~= font_table());
        }
        Ok(Box::new(cpu))
    }

    /// The opcode at the program counter, or `None` if it does not lie inside memory.
    pub fn get_next_instruction(&self) -> (r: Option<u16>)
        ensures
            r == fetch(self@),
    {
        let pc = self.program_counter as usize;
        if pc + 1 < MEMORY_SIZE {
            let high = self.memory[pc];
            let low = self.memory[pc + 1];
            assert((high as u16) << 8 | (low as u16) == high * 0x100 + low) by (bit_vector);
            Some((high as u16) << 8 | (low as u16))
        } else {
            None
        }
    }

    /// The error, if any, with which the machine refuses `opcode`.
    fn check_opcode(&self, opcode: u16) -> (r: Option<ExecError>)
        ensures
            r == fault(self@, opcode),
    {
        let Operands { family, x, y: _, n, nn, nnn: _ } = decode(opcode);
        if self.program_counter as usize + 1 >= MEMORY_SIZE {
            Some(ExecError::ProgramCounterOutOfBounds)
        } else if opcode == 0x00EE && self.stack.depth() == 0 {
            Some(ExecError::StackUnderflow)
        } else if family == 0x2 && self.stack.depth() as usize >= STACK_DEPTH {
            Some(ExecError::StackOverflow)
        } else if family == 0xD && self.i as usize + n as usize > MEMORY_SIZE {
            Some(ExecError::AddressOutOfBounds)
        } else if family == 0xE && (nn == 0x9E || nn == 0xA1) && self.v[x] as usize >= KEY_COUNT {
            Some(ExecError::KeyOutOfRange)
        } else if family == 0xF && nn == 0x33 && self.i as usize + 2 >= MEMORY_SIZE {
            Some(ExecError::AddressOutOfBounds)
        } else if family == 0xF && (nn == 0x55 || nn == 0x65) && self.i as usize + x
            >= MEMORY_SIZE {
            Some(ExecError::AddressOutOfBounds)
        } else {
            None
        }
    }

    /// Writes `value` to register `x`.
    pub fn set_register(&mut self, x: usize, value: u8)
        requires
            x < REGISTER_COUNT,
        ensures
            final(self)@ == with_register(old(self)@, x as int, value),
    {
        self.v[x] = value;
    }

    /// Writes `value` to register `x`, then the flag to VF.
    fn set_flagged_result(&mut self, x: usize, value: u8, flag: bool)
        requires
            x < REGISTER_COUNT,
        ensures
            final(self)@ == with_flagged_result(old(self)@, x as int, value, flag),
    {
        self.v[x] = value;
        self.v[FLAG_REGISTER] = if flag { 1 } else { 0 };
    }

    /// Moves the program counter past one more instruction if `condition` holds.
    fn skip_next_if(&mut self, condition: bool)
        requires
            old(self)@.pc + 2 <= u16::MAX,
        ensures
            final(self)@ == skip_if(old(self)@, condition),
    {
        if condition {
            self.program_counter += 2;
        }
    }

    /// Executes `8xyN`.
    fn execute_alu(&mut self, x: usize, y: usize, n: u8)
        requires
            x < REGISTER_COUNT,
            y < REGISTER_COUNT,
        ensures
            final(self)@ == alu(old(self)@, x as int, y as int, n as int),
    {
        let vx = self.v[x];
        let vy = self.v[y];
        match n {
            0x0 => self.set_register(x, vy),
            0x1 => self.set_register(x, vx | vy),
            0x2 => self.set_register(x, vx & vy),
            0x3 => self.set_register(x, vx ^ vy),
            0x4 => {
                assert(u8_specs::wrapping_add(vx, vy) == ((vx + vy) % 256) as u8);
                self.set_flagged_result(x, vx.wrapping_add(vy), vx as u16 + vy as u16 > 255)
            },
            0x5 => {
                assert(u8_specs::wrapping_sub(vx, vy) == ((vx - vy) % 256) as u8);
                self.set_flagged_result(x, vx.wrapping_sub(vy), vx >= vy)
            },
            0x6 => {
                assert(vy >> 1 == vy / 2 && (vy & 1 == 1) == (vy % 2 == 1)) by (bit_vector);
                self.set_flagged_result(x, vy >> 1, vy & 1 == 1)
            },
            0x7 => {
                assert(u8_specs::wrapping_sub(vy, vx) == ((vy - vx) % 256) as u8);
                self.set_flagged_result(x, vy.wrapping_sub(vx), vy >= vx)
            },
            0xE => {
                assert(vy << 1 == (vy * 2) % 256 && (vy & 0x80 != 0) == (vy >= 128))
                    by (bit_vector);
                self.set_flagged_result(x, vy << 1, vy & 0x80 != 0)
            },
            _ => {},
        }
    }

    /// Executes `Dxyn`.
    fn execute_draw(&mut self, x: usize, y: usize, n: u8)
        requires
            x < REGISTER_COUNT,
            y < REGISTER_COUNT,
            old(self)@.i + n <= MEMORY_SIZE,
        ensures
            final(self)@ == draw(old(self)@, x as int, y as int, n as int),
    {
        let start = self.i as usize;
        let collided = self.display.draw(
            self.v[x] as usize,
            self.v[y] as usize,
            &self.memory[start..start + n as usize],
        );
        self.v[FLAG_REGISTER] = if collided { 1 } else { 0 };
    }

    /// Executes `Fx33`.
    fn execute_store_bcd(&mut self, x: usize)
        requires
            x < REGISTER_COUNT,
            old(self)@.i + 2 < MEMORY_SIZE,
        ensures
            final(self)@ == store_bcd(old(self)@, x as int),
    {
        let vx = self.v[x];
        let start = self.i as usize;
        self.memory[start] = vx / 100;
        self.memory[start + 1] = (vx / 10) % 10;
        self.memory[start + 2] = vx % 10;
    }

    /// Executes `Fx55`.
    fn execute_store_registers(&mut self, x: usize)
        requires
            x < REGISTER_COUNT,
            old(self)@.i + x < MEMORY_SIZE,
        ensures
            final(self)@ == store_registers(old(self)@, x as int),
    {
        let start = self.i as usize;
        let mut r: usize = 0;
        while r <= x
            invariant
                r <= x + 1,
                x < REGISTER_COUNT,
                start == old(self)@.i,
                start + x < MEMORY_SIZE,
                forall|a: int|
                    0 <= a < MEMORY_SIZE ==> self.memory[a] == if start <= a < start + r {
                        old(self).v[a - start]
                    } else {
                        old(self).memory[a]
                    },
                self@ == (CpuState { memory: self.memory@, ..old(self)@ }),
            decreases x + 1 - r,
        {
            self.memory[start + r] = self.v[r];
            r += 1;
        }
        self.i = (start + x + 1) as u16;
        proof {
            assert(self@.memory =~= store_registers(old(self)@, x as int).memory);
        }
    }

    /// Executes `Fx65`.
    fn execute_load_registers(&mut self, x: usize)
        requires
            x < REGISTER_COUNT,
            old(self)@.i + x < MEMORY_SIZE,
        ensures
            final(self)@ == load_registers(old(self)@, x as int),
    {
        let start = self.i as usize;
        let mut r: usize = 0;
        while r <= x
            invariant
                r <= x + 1,
                x < REGISTER_COUNT,
                start == old(self)@.i,
                start + x < MEMORY_SIZE,
                forall|k: int|
                    0 <= k < REGISTER_COUNT ==> self.v[k] == if k < r {
                        old(self).memory[start + k]
                    } else {
                        old(self).v[k]
                    },
                self@ == (CpuState { v: self.v@, ..old(self)@ }),
            decreases x + 1 - r,
        {
            self.v[r] = self.memory[start + r];
            r += 1;
        }
        self.i = (start + x + 1) as u16;
        proof {
            assert(self@.v =~= load_registers(old(self)@, x as int).v);
        }
    }

    /// Executes `FxNN`, the program counter having been advanced already.
    fn execute_misc(&mut self, x: usize, nn: u8)
        requires
            x < REGISTER_COUNT,
            2 <= old(self)@.pc,
            nn == 0x33 ==> old(self)@.i + 2 < MEMORY_SIZE,
            nn == 0x55 || nn == 0x65 ==> old(self)@.i + x < MEMORY_SIZE,
        ensures
            final(self)@ == misc(old(self)@, x as int, nn),
    {
        let vx = self.v[x];
        match nn {
            0x07 => self.set_register(x, self.delay_timer),
            0x0A => {
                match self.keypad.any_key_pressed() {
                    Some(pressed) => self.set_register(x, pressed),
                    None => self.program_counter -= 2,
                }
            },
            0x15 => self.delay_timer = vx,
            0x18 => self.sound_timer = vx,
            0x1E => self.i = self.i.wrapping_add(vx as u16),
            0x29 => self.i = vx as u16 * 5,
            0x33 => self.execute_store_bcd(x),
            0x55 => self.execute_store_registers(x),
            0x65 => self.execute_load_registers(x),
            _ => {},
        }
    }

    /// Executes `opcode` as the instruction at the program counter. `random` is the byte
    /// that `Cxnn` masks; no other instruction looks at it. On an error nothing changes.
    pub fn execute_opcode(&mut self, opcode: u16, random: u8) -> (r: Result<(), ExecError>)
        ensures
            outcome(r, final(self)@) == execute(old(self)@, opcode, random),
            r is Err ==> final(self)@ == old(self)@,
    {
        if let Some(e) = self.check_opcode(opcode) {
            return Err(e);
        }
        let Operands { family, x, y, n, nn, nnn } = decode(opcode);
        self.program_counter += 2;
        let vx = self.v[x];
        let vy = self.v[y];
        if opcode == 0x00E0 {
            self.display.clear_screen();
        } else if opcode == 0x00EE {
            if let Some(address) = self.stack.pop() {
                self.program_counter = address;
            }
        } else if family == 0x1 {
            self.program_counter = nnn;
        } else if family == 0x2 {
            self.stack.push(self.program_counter);
            self.program_counter = nnn;
        } else if family == 0x3 {
            self.skip_next_if(vx == nn);
        } else if family == 0x4 {
            self.skip_next_if(vx != nn);
        } else if family == 0x5 && n == 0 {
            self.skip_next_if(vx == vy);
        } else if family == 0x6 {
            self.set_register(x, nn);
        } else if family == 0x7 {
            self.set_register(x, vx.wrapping_add(nn));
        } else if family == 0x8 {
            self.execute_alu(x, y, n);
        } else if family == 0x9 && n == 0 {
            self.skip_next_if(vx != vy);
        } else if family == 0xA {
            self.i = nnn;
        } else if family == 0xB {
            self.program_counter = nnn + self.v[0] as u16;
        } else if family == 0xC {
            self.set_register(x, random & nn);
        } else if family == 0xD {
            self.execute_draw(x, y, n);
        } else if family == 0xE && nn == 0x9E {
            let down = self.keypad.is_key_down(vx as usize);
            self.skip_next_if(down);
        } else if family == 0xE && nn == 0xA1 {
            let down = self.keypad.is_key_down(vx as usize);
            self.skip_next_if(!down);
        } else if family == 0xF {
            self.execute_misc(x, nn);
        }
        Ok(())
    }

    /// Fetches the instruction at the program counter and executes it, with `random` as
    /// the byte that `Cxnn` masks. On an error nothing changes.
    pub fn next_with(&mut self, random: u8) -> (r: Result<(), ExecError>)
        ensures
            outcome(r, final(self)@) == step(old(self)@, random),
            r is Err ==> final(self)@ == old(self)@,
    {
        match self.get_next_instruction() {
            Some(opcode) => self.execute_opcode(opcode, random),
            None => Err(ExecError::ProgramCounterOutOfBounds),
        }
    }

    /// Fetches the instruction at the program counter and executes it. Where the
    /// instruction is `Cxnn` the byte that it masks is drawn at random; every other
    /// instruction has one outcome. On an error nothing changes.
    pub fn next(&mut self) -> (r: Result<(), ExecError>)
        ensures
            exists|random: u8| outcome(r, final(self)@) == #[trigger] step(old(self)@, random),
            !draws_random(old(self)@) ==> outcome(r, final(self)@) == step(old(self)@, 0),
            r is Ok <==> step(old(self)@, 0) is Ok,
            r is Err ==> final(self)@ == old(self)@,
    {
        match self.get_next_instruction() {
            Some(opcode) => {
                assert(opcode >> 12 == opcode / 0x1000) by (bit_vector);
                let random = if opcode >> 12 == 0xC {
                    random_byte()
                } else {
                    0
                };
                let r = self.execute_opcode(opcode, random);
                assert(outcome(r, self@) == step(old(self)@, random));
                r
            },
            None => {
                assert(step(old(self)@, 0) is Err);
                Err(ExecError::ProgramCounterOutOfBounds)
            },
        }
    }

    /// Presses (`status == true`) or releases the key `key_index`.
    pub fn set_key(&mut self, key_index: u8, status: bool)
        requires
            key_index < KEY_COUNT,
        ensures
            final(self)@ == (CpuState {
                keys: old(self)@.keys.update(key_index as int, status),
                ..old(self)@
            }),
    {
        self.keypad.on_key(key_index, status);
    }

    /// Counts each timer that is not yet zero down by one.
    pub fn decrease_timers(&mut self)
        ensures
            final(self)@ == tick(old(self)@),
    {
        if self.delay_timer > 0 {
            self.delay_timer -= 1;
        }
        if self.sound_timer > 0 {
            self.sound_timer -= 1;
        }
    }

    /// Whether a tone should be sounding: the sound timer has not run out.
    pub fn should_play_sound(&self) -> (r: bool)
        ensures
            r == (self@.sound_timer > 0),
    {
        self.sound_timer > 0
    }

    /// The display, for presentation.
    pub fn get_display(&self) -> (r: &Display)
        ensures
            r@ == self@.pixels,
    {
        &self.display
    }

    /// The registers V0 to VF.
    pub fn registers(&self) -> (r: &[u8; 16])
        ensures
            r@ == self@.v,
    {
        &self.v
    }

    /// The whole address space.
    pub fn memory(&self) -> (r: &[u8; 4096])
        ensures
            r@ == self@.memory,
    {
        &self.memory
    }

    /// Writes `value` to memory at `address`.
    pub fn write_memory(&mut self, address: usize, value: u8)
        requires
            address < MEMORY_SIZE,
        ensures
            final(self)@ == (CpuState {
                memory: old(self)@.memory.update(address as int, value),
                ..old(self)@
            }),
    {
        self.memory[address] = value;
    }

    /// The address register, I.
    pub fn address_register(&self) -> (r: u16)
        ensures
            r == self@.i,
    {
        self.i
    }

    /// Address of the next instruction.
    pub fn program_counter(&self) -> (r: u16)
        ensures
            r == self@.pc,
    {
        self.program_counter
    }

    /// Number of return addresses on the stack.
    pub fn stack_pointer(&self) -> (r: u8)
        ensures
            r == self@.stack.len(),
            r <= STACK_DEPTH,
    {
        self.stack.depth()
    }

    /// The stack's storage: the return addresses of the calls in progress, the innermost
    /// last, then zeros.
    pub fn stack(&self) -> (r: &[u16; 24])
        ensures
            r@ == padded(self@.stack),
    {
        self.stack.slots()
    }

    /// The delay timer.
    pub fn delay_timer(&self) -> (r: u8)
        ensures
            r == self@.delay_timer,
    {
        self.delay_timer
    }

    /// The sound timer.
    pub fn sound_timer(&self) -> (r: u8)
        ensures
            r == self@.sound_timer,
    {
        self.sound_timer
    }

    /// Sets the pixel in column `x` of row `y` of the display. The coordinates are not
    /// wrapped.
    pub fn set_pixel(&mut self, x: usize, y: usize, new_pixel: Pixel)
        requires
            pixel_index(x as int, y as int) < PIXEL_COUNT,
        ensures
            final(self)@ == (CpuState {
                pixels: old(self)@.pixels.update(
                    pixel_index(x as int, y as int),
                    new_pixel is On,
                ),
                ..old(self)@
            }),
    {
        self.display.set_pixel(x, y, new_pixel);
    }
}

/// A byte drawn from the thread-local generator of the `rand` crate, through
/// `rand::thread_rng` and `Rng::gen_range` over the whole range of a byte. Nothing is
/// claimed of the value: every byte is possible and two calls need not agree. The
/// generator seeds itself from the operating system when a thread first uses it, and
/// panics if the system gives it no entropy.
#[verifier::external_body]
fn random_byte() -> u8 {
    rand::thread_rng().gen_range(0x00..=0xFF)
}

/// The fields of an opcode.
struct Operands {
    /// The instruction family: the most significant nibble.
    family: u8,
    /// The register operand `x`: the second nibble.
    x: usize,
    /// The register operand `y`: the third nibble.
    y: usize,
    /// The least significant nibble.
    n: u8,
    /// The 8-bit immediate.
    nn: u8,
    /// The 12-bit immediate.
    nnn: u16,
}

/// Splits an opcode into its fields.
fn decode(opcode: u16) -> (r: Operands)
    ensures
        r.family == op_family(opcode),
        r.x == op_x(opcode),
        r.y == op_y(opcode),
        r.n == op_n(opcode),
        r.nn == op_nn(opcode),
        r.nnn == op_nnn(opcode),
{
    assert((opcode & 0xF000) >> 12 == opcode / 0x1000) by (bit_vector);
    assert((opcode & 0x0F00) >> 8 == (opcode / 0x100) % 0x10) by (bit_vector);
    assert((opcode & 0x00F0) >> 4 == (opcode / 0x10) % 0x10) by (bit_vector);
    assert(opcode & 0x000F == opcode % 0x10) by (bit_vector);
    assert(opcode & 0x00FF == opcode % 0x100) by (bit_vector);
    assert(opcode & 0x0FFF == opcode % 0x1000) by (bit_vector);
    Operands {
        family: ((opcode & 0xF000) >> 12) as u8,
        x: ((opcode & 0x0F00) >> 8) as usize,
        y: ((opcode & 0x00F0) >> 4) as usize,
        n: (opcode & 0x000F) as u8,
        nn: (opcode & 0x00FF) as u8,
        nnn: opcode & 0x0FFF,
    }
}

} // verus!
