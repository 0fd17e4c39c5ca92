//! Properties of the instruction set that follow from its model in `instructions`.

use vstd::prelude::*;
use crate::display::lemma_draw_sprite_pixels;
use crate::keypad::{is_lowest_key_down, lemma_lowest_key_down, KEY_COUNT};
use crate::instructions::{
    advance, execute, fault, fetch, op_family, op_n, op_nn, op_nnn, op_x, op_y, sprite_at, step,
};
use crate::state::{
    initial_state, tick, CpuState, ExecError, FLAG_REGISTER, MAX_PROGRAM_SIZE, MEMORY_SIZE,
    REGISTER_COUNT, STACK_DEPTH,
};

verus! {

/// A freshly loaded machine is well formed.
pub proof fn lemma_initial_state_wf(program: Seq<u8>)
    ensures
        initial_state(program).wf(),
{
}

/// A freshly loaded machine fetches the first two bytes of its program, the first of them
/// as the high byte of the opcode.
pub proof fn lemma_first_fetch(program: Seq<u8>)
    requires
        2 <= program.len() <= MAX_PROGRAM_SIZE,
    ensures
        fetch(initial_state(program)) == Some((program[0] * 0x100 + program[1]) as u16),
{
}

/// Executing an instruction keeps the machine well formed: sixteen registers, 4096 bytes
/// of memory, at most sixteen return addresses, and a screen and a keypad of fixed size.
pub proof fn lemma_execute_preserves_wf(s: CpuState, opcode: u16, random: u8)
    requires
        s.wf(),
    ensures
        execute(s, opcode, random) matches Ok(t) ==> t.wf(),
{
    if fault(s, opcode) is None {
        let t = advance(s);
        if op_family(opcode) == 0xD {
            lemma_draw_sprite_pixels(
                t.pixels,
                t.v[op_x(opcode)] as int,
                t.v[op_y(opcode)] as int,
                sprite_at(t, op_n(opcode)),
            );
        }
    }
}

/// Fetching and executing an instruction keeps the machine well formed.
pub proof fn lemma_step_preserves_wf(s: CpuState, random: u8)
    requires
        s.wf(),
    ensures
        step(s, random) matches Ok(t) ==> t.wf(),
{
    if let Some(opcode) = fetch(s) {
        lemma_execute_preserves_wf(s, opcode, random);
    }
}

/// A tick of the clock keeps the machine well formed and never takes a timer below zero:
/// a timer at zero stays there.
pub proof fn lemma_tick_floors_at_zero(s: CpuState)
    requires
        s.wf(),
    ensures
        tick(s).wf(),
        s.delay_timer == 0 ==> tick(s).delay_timer == 0,
        s.sound_timer == 0 ==> tick(s).sound_timer == 0,
        s.delay_timer > 0 ==> tick(s).delay_timer == s.delay_timer - 1,
        s.sound_timer > 0 ==> tick(s).sound_timer == s.sound_timer - 1,
{
}

/// Only `Cxnn` looks at the random byte: every other opcode has the same outcome whatever
/// the byte is.
pub proof fn lemma_random_matters_only_to_cxnn(s: CpuState, opcode: u16, r1: u8, r2: u8)
    requires
        op_family(opcode) != 0xC,
    ensures
        execute(s, opcode, r1) == execute(s, opcode, r2),
{
}

/// Whether an instruction is refused never depends on the random byte.
pub proof fn lemma_fault_ignores_random(s: CpuState, r1: u8, r2: u8)
    ensures
        step(s, r1) is Ok <==> step(s, r2) is Ok,
        step(s, r1) matches Err(e) ==> step(s, r2) == Err::<CpuState, ExecError>(e),
{
}

/// Whether `opcode` has the pattern of one of the machine's instructions.
pub open spec fn is_instruction(opcode: u16) -> bool {
    let family = op_family(opcode);
    let n = op_n(opcode);
    let nn = op_nn(opcode);
    ||| opcode == 0x00E0 || opcode == 0x00EE
    ||| 0x1 <= family <= 0x4
    ||| (family == 0x5 || family == 0x9) && n == 0
    ||| family == 0x6 || family == 0x7
    ||| family == 0x8 && (n <= 0x7 || n == 0xE)
    ||| 0xA <= family <= 0xD
    ||| family == 0xE && (nn == 0x9E || nn == 0xA1)
    ||| family == 0xF && (nn == 0x07 || nn == 0x0A || nn == 0x15 || nn == 0x18 || nn == 0x1E || nn
        == 0x29 || nn == 0x33 || nn == 0x55 || nn == 0x65)
}

/// An opcode that matches no instruction is tolerated: it moves the program counter past
/// itself and does nothing else.
pub proof fn lemma_unknown_opcode_only_advances(s: CpuState, opcode: u16, random: u8)
    requires
        s.wf(),
        !is_instruction(opcode),
    ensures
        execute(s, opcode, random) == if s.pc + 1 < MEMORY_SIZE {
            Ok::<CpuState, ExecError>(advance(s))
        } else {
            Err::<CpuState, ExecError>(ExecError::ProgramCounterOutOfBounds)
        },
{
}

/// The flags of addition and subtraction. `8xy4` leaves 1 in VF exactly when Vx + Vy
/// exceeds 255. `8xy5` leaves 1 in VF when Vx >= Vy, where nothing is borrowed, and 0 when
/// Vx < Vy; `8xy7` does the same for Vy - Vx. This holds for every `x` and `y`, VF
/// included.
pub proof fn lemma_arithmetic_flags(s: CpuState, opcode: u16, random: u8)
    requires
        s.wf(),
        op_family(opcode) == 0x8,
    ensures
        execute(s, opcode, random) is Ok <==> s.pc + 1 < MEMORY_SIZE,
        execute(s, opcode, random) matches Ok(t) ==> {
            let vx = s.v[op_x(opcode)];
            let vy = s.v[op_y(opcode)];
            let flag = t.v[FLAG_REGISTER as int];
            &&& op_n(opcode) == 0x4 ==> flag == (if vx + vy > 255 { 1u8 } else { 0u8 })
            &&& op_n(opcode) == 0x5 ==> flag == (if vx >= vy { 1u8 } else { 0u8 })
            &&& op_n(opcode) == 0x7 ==> flag == (if vy >= vx { 1u8 } else { 0u8 })
        },
{
}

/// Whether `opcode` is one of the six skip instructions.
pub open spec fn is_skip(opcode: u16) -> bool {
    let family = op_family(opcode);
    ||| family == 0x3
    ||| family == 0x4
    ||| family == 0x5 && op_n(opcode) == 0
    ||| family == 0x9 && op_n(opcode) == 0
    ||| family == 0xE && (op_nn(opcode) == 0x9E || op_nn(opcode) == 0xA1)
}

/// The condition on which the skip instruction `opcode` skips, in state `s`.
pub open spec fn skip_taken(s: CpuState, opcode: u16) -> bool {
    let family = op_family(opcode);
    let vx = s.v[op_x(opcode)];
    let vy = s.v[op_y(opcode)];
    if family == 0x3 {
        vx == op_nn(opcode)
    } else if family == 0x4 {
        vx != op_nn(opcode)
    } else if family == 0x5 {
        vx == vy
    } else if family == 0x9 {
        vx != vy
    } else if op_nn(opcode) == 0x9E {
        s.keys[vx as int]
    } else {
        !s.keys[vx as int]
    }
}

/// A skip instruction moves the program counter by exactly 4 when its condition holds and
/// by exactly 2 when it does not, and changes nothing else.
pub proof fn lemma_skip_distance(s: CpuState, opcode: u16, random: u8)
    requires
        s.wf(),
        is_skip(opcode),
    ensures
        execute(s, opcode, random) matches Ok(t) ==> t == (CpuState {
            pc: (s.pc + if skip_taken(s, opcode) { 4int } else { 2int }) as u16,
            ..s
        }) && t.pc == s.pc + if skip_taken(s, opcode) { 4int } else { 2int },
{
}

/// The program counter and every return address on the stack are even.
pub open spec fn aligned(s: CpuState) -> bool {
    &&& s.pc % 2 == 0
    &&& forall|k: int| 0 <= k < s.stack.len() ==> s.stack[k] % 2 == 0
}

/// Whether `opcode` is a jump or a call whose target, in state `s`, is an odd address.
pub open spec fn jumps_to_odd_address(s: CpuState, opcode: u16) -> bool {
    let family = op_family(opcode);
    ||| (family == 0x1 || family == 0x2) && op_nnn(opcode) % 2 == 1
    ||| family == 0xB && (op_nnn(opcode) + s.v[0]) % 2 == 1
}

/// The program counter stays on instruction boundaries: as long as no jump or call aims
/// at an odd address, it and the return addresses on the stack stay even.
pub proof fn lemma_alignment_is_kept(s: CpuState, opcode: u16, random: u8)
    requires
        s.wf(),
        aligned(s),
        !jumps_to_odd_address(s, opcode),
    ensures
        execute(s, opcode, random) matches Ok(t) ==> aligned(t),
{
}

/// A call followed at once by a return comes back to the instruction after the call, with
/// the stack as it was before.
pub proof fn lemma_call_then_return(s: CpuState, call: u16, random: u8)
    requires
        s.wf(),
        op_family(call) == 0x2,
    ensures
        execute(s, call, random) is Ok <==> s.pc + 1 < MEMORY_SIZE && s.stack.len() < STACK_DEPTH,
        execute(s, call, random) matches Ok(called) ==> {
            &&& called == (CpuState {
                pc: op_nnn(call),
                stack: s.stack.push((s.pc + 2) as u16),
                ..s
            })
            &&& called.pc + 1 < MEMORY_SIZE ==> execute(called, 0x00EE, random) == Ok::<
                CpuState,
                ExecError,
            >(CpuState { pc: (s.pc + 2) as u16, ..s })
        },
{
    if let Ok(called) = execute(s, call, random) {
        assert(called.stack.drop_last() =~= s.stack);
    }
}

/// While no key is down `Fx0A` leaves the machine exactly as it was, so that the same
/// instruction is fetched again; once a key is down, the lowest such key goes to Vx and
/// execution moves on.
pub proof fn lemma_wait_for_key(s: CpuState, opcode: u16, random: u8)
    requires
        s.wf(),
        op_family(opcode) == 0xF,
        op_nn(opcode) == 0x0A,
        s.pc + 1 < MEMORY_SIZE,
    ensures
        (forall|k: int| 0 <= k < KEY_COUNT ==> !s.keys[k]) ==> execute(s, opcode, random) == Ok::<
            CpuState,
            ExecError,
        >(s),
        forall|k: int|
            is_lowest_key_down(s.keys, k) ==> execute(s, opcode, random) == Ok::<
                CpuState,
                ExecError,
            >(CpuState { v: s.v.update(op_x(opcode), k as u8), pc: (s.pc + 2) as u16, ..s }),
{
    lemma_lowest_key_down(s.keys);
}

/// Storing V0..Vk with `Fx55` and loading the same range back with `Fx65` gives the
/// registers the values they had, whatever they held in between, and each of the two
/// instructions leaves the address register at its initial value plus `k + 1`.
pub proof fn lemma_store_load_round_trip(
    s: CpuState,
    store: u16,
    load: u16,
    scratch: Seq<u8>,
    random: u8,
)
    requires
        s.wf(),
        scratch.len() == REGISTER_COUNT,
        op_family(store) == 0xF && op_nn(store) == 0x55,
        op_family(load) == 0xF && op_nn(load) == 0x65,
        op_x(store) == op_x(load),
    ensures
        execute(s, store, random) is Ok <==> s.pc + 1 < MEMORY_SIZE && s.i + op_x(store)
            < MEMORY_SIZE,
        execute(s, store, random) matches Ok(stored) ==> {
            let k = op_x(store);
            let rewound = CpuState { v: scratch, i: s.i, ..stored };
            &&& stored.i == s.i + k + 1
            &&& (execute(rewound, load, random) is Ok <==> stored.pc + 1 < MEMORY_SIZE)
            &&& execute(rewound, load, random) matches Ok(loaded) ==> {
                &&& loaded.i == s.i + k + 1
                &&& forall|r: int| 0 <= r <= k ==> loaded.v[r] == s.v[r]
            }
        },
{
}

} // verus!
