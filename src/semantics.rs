use vstd::prelude::*;

use crate::error::Chip8Error;
use crate::framebuffer::{blank, collides, drawn, is_grid};
use crate::instruction::{decode_spec, Instruction};
use crate::keypad::lowest_down;
use crate::memory::{first_bad_address, MEMORY_SIZE};

verus! {

/// Number of general registers, and of call stack entries.
pub const REGISTER_COUNT: usize = 16;

/// Depth of the call stack.
pub const STACK_DEPTH: u16 = 16;

/// Index of the flag register `VF`.
pub const FLAG: usize = 15;

/// Points on which historical machines differ, each chosen explicitly.
#[derive(Debug, Clone, Copy, PartialEq, Eq, Structural)]
pub struct Quirks {
    /// Shifts read `Vy` (true) or `Vx` (false).
    pub shift_reads_vy: bool,
    /// Bulk store and load leave `I` just past the last byte (true) or keep it.
    pub bulk_moves_index: bool,
    /// Jump with offset adds `Vx` (true) or `V0` (false).
    pub jump_offset_uses_vx: bool,
    /// Add-to-index sets `VF` when `I` ends above `0x0F00` (true) or leaves it.
    pub index_overflow_flag: bool,
}

/// What a step did: ran an instruction, or found no key down for a get-key
/// instruction and left the machine as it was.
#[derive(Debug, Clone, Copy, PartialEq, Eq, Structural)]
pub enum StepOutcome {
    Executed,
    AwaitingKey,
}

/// The abstract state of the processor.
pub struct CpuState {
    pub pc: u16,
    pub i: u16,
    pub sp: u16,
    pub stack: Seq<u16>,
    pub v: Seq<u8>,
    pub delay_timer: u8,
    pub sound_timer: u8,
    pub display: Seq<Seq<bool>>,
    pub render_pending: bool,
    pub quirks: Quirks,
}

/// The state after a step: processor, memory and outcome, or the fatal error.
pub type StepResult = Result<(CpuState, Seq<u8>, StepOutcome), Chip8Error>;

/// Register file and stack of the right sizes, the stack pointer within the
/// stack, and a full display grid.
pub open spec fn state_wf(s: CpuState) -> bool {
    &&& s.v.len() == REGISTER_COUNT
    &&& s.stack.len() == STACK_DEPTH
    &&& s.sp <= STACK_DEPTH
    &&& is_grid(s.display)
}

/// `pc + k`, wrapping at 16 bits.
pub open spec fn pc_plus(pc: u16, k: int) -> u16 {
    ((pc + k) % 0x10000) as u16
}

/// The state with the program counter moved on by `k` bytes.
pub open spec fn advanced(s: CpuState, k: int) -> CpuState {
    CpuState { pc: pc_plus(s.pc, k), ..s }
}

/// The state with register `x` set to `val`.
pub open spec fn with_register(s: CpuState, x: int, val: u8) -> CpuState {
    CpuState { v: s.v.update(x, val), ..s }
}

/// The state with register `x` set to `val`, then `VF` set to `flag`.
pub open spec fn with_result_and_flag(s: CpuState, x: int, val: u8, flag: bool) -> CpuState {
    CpuState { v: s.v.update(x, val).update(FLAG as int, if flag { 1u8 } else { 0u8 }), ..s }
}

/// An instruction that completed, then moved on to the next one.
pub open spec fn next(s: CpuState, mem: Seq<u8>) -> StepResult {
    Ok((advanced(s, 2), mem, StepOutcome::Executed))
}

/// The next instruction, or the one after it when `skip` holds.
pub open spec fn skip_if(s: CpuState, mem: Seq<u8>, skip: bool) -> StepResult {
    Ok((advanced(s, if skip { 4 } else { 2 }), mem, StepOutcome::Executed))
}

/// An access of `len` bytes at `start` stays within memory.
pub open spec fn fits(start: int, len: int) -> bool {
    start + len <= MEMORY_SIZE
}

/// The error for an access at `start` that leaves memory.
pub open spec fn out_of_bounds(start: int) -> StepResult {
    Err(Chip8Error::OutOfBounds { index: first_bad_address(start) })
}

/// Whether the key named by a register value is down; values above 15 name
/// no key.
pub open spec fn key_down(keys: Seq<bool>, key: u8) -> bool {
    key < 16 && keys[key as int]
}

/// The register a shift reads.
pub open spec fn shift_source(s: CpuState, x: int, y: int) -> u8 {
    if s.quirks.shift_reads_vy { s.v[y] } else { s.v[x] }
}

/// Memory after storing `V0..=Vx` at `I`.
pub open spec fn stored_registers(s: CpuState, mem: Seq<u8>, x: int) -> Seq<u8> {
    mem.subrange(0, s.i as int) + s.v.subrange(0, x + 1) + mem.subrange(s.i + x + 1, MEMORY_SIZE as int)
}

/// Registers after loading `V0..=Vx` from `I`.
pub open spec fn loaded_registers(s: CpuState, mem: Seq<u8>, x: int) -> Seq<u8> {
    mem.subrange(s.i as int, s.i + x + 1) + s.v.subrange(x + 1, REGISTER_COUNT as int)
}

/// `I` after a bulk store or load of `x + 1` registers.
pub open spec fn index_after_bulk(s: CpuState, x: int) -> u16 {
    if s.quirks.bulk_moves_index { (s.i + x + 1) as u16 } else { s.i }
}

/// Memory after storing the hundreds, tens and units of `val` at `I`.
pub open spec fn stored_bcd(s: CpuState, mem: Seq<u8>, val: u8) -> Seq<u8> {
    mem.update(s.i as int, val / 100).update(s.i + 1, (val % 100) / 10).update(s.i + 2, val % 10)
}

/// The effect of one instruction on the processor and memory, given the keys
/// that are down and the byte that a random instruction draws.
pub open spec fn execute_spec(
    s: CpuState,
    mem: Seq<u8>,
    keys: Seq<bool>,
    rnd: u8,
    ins: Instruction,
) -> StepResult {
    match ins {
        Instruction::ClearScreen => next(CpuState { display: blank(), render_pending: true, ..s }, mem),
        Instruction::Return => if s.sp == 0 {
            Err(Chip8Error::StackUnderflow)
        } else {
            Ok((
                CpuState { sp: (s.sp - 1) as u16, pc: pc_plus(s.stack[s.sp - 1], 2), ..s },
                mem,
                StepOutcome::Executed,
            ))
        },
        Instruction::Jump { nnn } => Ok((CpuState { pc: nnn, ..s }, mem, StepOutcome::Executed)),
        Instruction::Call { nnn } => if s.sp == STACK_DEPTH {
            Err(Chip8Error::StackOverflow)
        } else {
            Ok((
                CpuState { stack: s.stack.update(s.sp as int, s.pc), sp: (s.sp + 1) as u16, pc: nnn, ..s },
                mem,
                StepOutcome::Executed,
            ))
        },
        Instruction::SkipIfEqual { x, nn } => skip_if(s, mem, s.v[x as int] == nn),
        Instruction::SkipIfNotEqual { x, nn } => skip_if(s, mem, s.v[x as int] != nn),
        Instruction::SkipIfRegistersEqual { x, y } => skip_if(s, mem, s.v[x as int] == s.v[y as int]),
        Instruction::SkipIfRegistersNotEqual { x, y } => skip_if(
            s,
            mem,
            s.v[x as int] != s.v[y as int],
        ),
        Instruction::SetRegister { x, nn } => next(with_register(s, x as int, nn), mem),
        Instruction::AddToRegister { x, nn } => next(
            with_register(s, x as int, ((s.v[x as int] + nn) % 256) as u8),
            mem,
        ),
        Instruction::CopyRegister { x, y } => next(with_register(s, x as int, s.v[y as int]), mem),
        Instruction::Or { x, y } => next(with_register(s, x as int, s.v[x as int] | s.v[y as int]), mem),
        Instruction::And { x, y } => next(with_register(s, x as int, s.v[x as int] & s.v[y as int]), mem),
        Instruction::Xor { x, y } => next(with_register(s, x as int, s.v[x as int] ^ s.v[y as int]), mem),
        Instruction::Add { x, y } => {
            let sum = s.v[x as int] + s.v[y as int];
            next(with_result_and_flag(s, x as int, (sum % 256) as u8, sum > 255), mem)
        },
        Instruction::Subtract { x, y } => next(
            with_result_and_flag(
                s,
                x as int,
                ((s.v[x as int] - s.v[y as int]) % 256) as u8,
                s.v[x as int] >= s.v[y as int],
            ),
            mem,
        ),
        Instruction::SubtractReverse { x, y } => next(
            with_result_and_flag(
                s,
                x as int,
                ((s.v[y as int] - s.v[x as int]) % 256) as u8,
                s.v[y as int] >= s.v[x as int],
            ),
            mem,
        ),
        Instruction::ShiftRight { x, y } => {
            let src = shift_source(s, x as int, y as int);
            next(with_result_and_flag(s, x as int, src / 2, src % 2 == 1), mem)
        },
        Instruction::ShiftLeft { x, y } => {
            let src = shift_source(s, x as int, y as int);
            next(with_result_and_flag(s, x as int, ((src * 2) % 256) as u8, src >= 128), mem)
        },
        Instruction::SetIndex { nnn } => next(CpuState { i: nnn, ..s }, mem),
        Instruction::JumpWithOffset { x, nnn } => {
            let offset = if s.quirks.jump_offset_uses_vx { s.v[x as int] } else { s.v[0] };
            Ok((CpuState { pc: (nnn + offset) as u16, ..s }, mem, StepOutcome::Executed))
        },
        Instruction::Random { x, nn } => next(with_register(s, x as int, rnd & nn), mem),
        Instruction::Draw { x, y, n } => if !fits(s.i as int, n as int) {
            out_of_bounds(s.i as int)
        } else {
            let sprite = mem.subrange(s.i as int, s.i + n);
            let vx = s.v[x as int] as int;
            let vy = s.v[y as int] as int;
            next(
                CpuState {
                    display: drawn(s.display, sprite, vx, vy),
                    v: s.v.update(FLAG as int, if collides(s.display, sprite, vx, vy) { 1u8 } else { 0u8 }),
                    render_pending: true,
                    ..s
                },
                mem,
            )
        },
        Instruction::SkipIfKeyDown { x } => skip_if(s, mem, key_down(keys, s.v[x as int])),
        Instruction::SkipIfKeyUp { x } => skip_if(s, mem, !key_down(keys, s.v[x as int])),
        Instruction::GetDelayTimer { x } => next(with_register(s, x as int, s.delay_timer), mem),
        Instruction::GetKey { x } => match lowest_down(keys) {
            Some(k) => next(with_register(s, x as int, k), mem),
            None => Ok((s, mem, StepOutcome::AwaitingKey)),
        },
        Instruction::SetDelayTimer { x } => next(CpuState { delay_timer: s.v[x as int], ..s }, mem),
        Instruction::SetSoundTimer { x } => next(CpuState { sound_timer: s.v[x as int], ..s }, mem),
        Instruction::AddToIndex { x } => {
            let i = ((s.i + s.v[x as int]) % 0x10000) as u16;
            let v = if s.quirks.index_overflow_flag {
                s.v.update(FLAG as int, if i > 0x0F00 { 1u8 } else { 0u8 })
            } else {
                s.v
            };
            next(CpuState { i, v, ..s }, mem)
        },
        Instruction::FontCharacter { x } => next(CpuState { i: (s.v[x as int] * 5) as u16, ..s }, mem),
        Instruction::StoreBcd { x } => if !fits(s.i as int, 3) {
            out_of_bounds(s.i as int)
        } else {
            next(s, stored_bcd(s, mem, s.v[x as int]))
        },
        Instruction::StoreRegisters { x } => if !fits(s.i as int, x + 1) {
            out_of_bounds(s.i as int)
        } else {
            next(CpuState { i: index_after_bulk(s, x as int), ..s }, stored_registers(s, mem, x as int))
        },
        Instruction::LoadRegisters { x } => if !fits(s.i as int, x + 1) {
            out_of_bounds(s.i as int)
        } else {
            next(
                CpuState { v: loaded_registers(s, mem, x as int), i: index_after_bulk(s, x as int), ..s },
                mem,
            )
        },
    }
}

/// The opcode at `pc`: the byte there, high, and the byte after it, low.
pub open spec fn opcode_at(mem: Seq<u8>, pc: int) -> u16 {
    ((mem[pc] as u16) << 8u16) | (mem[pc + 1] as u16)
}

/// One fetch-decode-execute step.
pub open spec fn step_spec(s: CpuState, mem: Seq<u8>, keys: Seq<bool>, rnd: u8) -> StepResult {
    if !fits(s.pc as int, 2) {
        out_of_bounds(s.pc as int)
    } else {
        let op = opcode_at(mem, s.pc as int);
        match decode_spec(op) {
            Some(ins) => execute_spec(s, mem, keys, rnd, ins),
            None => Err(Chip8Error::DecodeError { opcode: op, address: s.pc }),
        }
    }
}

/// `r`, with the processor and memory states after a call, agrees with the
/// step result `spec`; on an error nothing changed.
pub open spec fn agrees(
    spec: StepResult,
    r: Result<StepOutcome, Chip8Error>,
    before: CpuState,
    after: CpuState,
    mem_before: Seq<u8>,
    mem_after: Seq<u8>,
) -> bool {
    match spec {
        Ok((s, m, o)) => r == Ok::<StepOutcome, Chip8Error>(o) && after == s && mem_after == m,
        Err(e) => r == Err::<StepOutcome, Chip8Error>(e) && after == before && mem_after == mem_before,
    }
}

/// Setting a register to a constant and then reading that register gives the
/// constant.
pub proof fn lemma_set_then_read(s: CpuState, mem: Seq<u8>, keys: Seq<bool>, rnd: u8, x: u8, nn: u8)
    requires
        state_wf(s),
        x < REGISTER_COUNT,
    ensures
        match execute_spec(s, mem, keys, rnd, Instruction::SetRegister { x, nn }) {
            Ok((t, m, o)) => t.v[x as int] == nn,
            Err(_) => false,
        },
{
}

/// Adding registers holding 200 and 100 leaves 44 (300 modulo 256) with the
/// carry flag set, for any target register but the flag register itself.
pub proof fn lemma_add_carries(s: CpuState, mem: Seq<u8>, keys: Seq<bool>, rnd: u8, x: u8, y: u8)
    requires
        state_wf(s),
        x < REGISTER_COUNT,
        y < REGISTER_COUNT,
        x != FLAG,
        s.v[x as int] == 200,
        s.v[y as int] == 100,
    ensures
        match execute_spec(s, mem, keys, rnd, Instruction::Add { x, y }) {
            Ok((t, m, o)) => t.v[x as int] == 44 && t.v[FLAG as int] == 1,
            Err(_) => false,
        },
{
}

/// Subtracting a register holding 10 from one holding 5 leaves 251 (-5
/// modulo 256) with the flag cleared for the borrow, for any target register
/// but the flag register itself.
pub proof fn lemma_subtract_borrows(s: CpuState, mem: Seq<u8>, keys: Seq<bool>, rnd: u8, x: u8, y: u8)
    requires
        state_wf(s),
        x < REGISTER_COUNT,
        y < REGISTER_COUNT,
        x != FLAG,
        s.v[x as int] == 5,
        s.v[y as int] == 10,
    ensures
        match execute_spec(s, mem, keys, rnd, Instruction::Subtract { x, y }) {
            Ok((t, m, o)) => t.v[x as int] == 251 && t.v[FLAG as int] == 0,
            Err(_) => false,
        },
{
}

/// A call followed at once by a return resumes after the call, with the stack
/// pointer as it was, whenever the stack has room for the call.
pub proof fn lemma_call_then_return(s: CpuState, mem: Seq<u8>, keys: Seq<bool>, rnd: u8, nnn: u16)
    requires
        state_wf(s),
        s.sp < STACK_DEPTH,
    ensures
        match execute_spec(s, mem, keys, rnd, Instruction::Call { nnn }) {
            Ok((t, m, o)) => match execute_spec(t, m, keys, rnd, Instruction::Return) {
                Ok((u, m2, o2)) => {
                    &&& u.pc == pc_plus(s.pc, 2)
                    &&& s.pc + 2 < 0x10000 ==> u.pc == s.pc + 2
                    &&& u.sp == s.sp
                    &&& m2 == mem
                },
                Err(_) => false,
            },
            Err(_) => false,
        },
{
}

/// With a get-key instruction at the program counter, a step with no key down
/// leaves processor and memory exactly as they were, so every further step
/// does too; once a key is down, a step puts the lowest such key in `Vx` and
/// moves on by one instruction.
pub proof fn lemma_get_key_waits(s: CpuState, mem: Seq<u8>, keys: Seq<bool>, rnd: u8, x: u8)
    requires
        state_wf(s),
        x < REGISTER_COUNT,
        fits(s.pc as int, 2),
        decode_spec(opcode_at(mem, s.pc as int)) == Some(Instruction::GetKey { x }),
    ensures
        (forall|k: int| 0 <= k < keys.len() ==> !keys[k]) ==> step_spec(s, mem, keys, rnd) == Ok::<
            (CpuState, Seq<u8>, StepOutcome),
            Chip8Error,
        >((s, mem, StepOutcome::AwaitingKey)),
        lowest_down(keys) matches Some(k) ==> match step_spec(s, mem, keys, rnd) {
            Ok((t, m, o)) => t.pc == pc_plus(s.pc, 2) && t.v[x as int] == k && m == mem && o
                == StepOutcome::Executed,
            Err(_) => false,
        },
{
}

} // verus!
