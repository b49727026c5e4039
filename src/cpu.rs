use vstd::pervasive::unreached;
use vstd::prelude::*;

use rand::Rng;

use crate::error::Chip8Error;
use crate::framebuffer::{blank, FrameBuffer};
use crate::instruction::{
    decode_opcode, decode_spec, fields_in_range, lemma_decoded_fields_in_range, Instruction,
};
use crate::keypad::Keypad;
use crate::memory::{first_bad_address, Memory, MEMORY_SIZE, PROGRAM_START};
use crate::semantics::{
    advanced, agrees, execute_spec, fits, loaded_registers, opcode_at, state_wf, step_spec,
    stored_bcd, stored_registers, with_result_and_flag, CpuState, Quirks, StepOutcome, FLAG,
    REGISTER_COUNT, STACK_DEPTH,
};

verus! {

/// Relies on `rand::thread_rng().gen::<u8>()`: it returns some byte, and
/// nothing more is known of which.
#[verifier::external_body]
fn random_byte() -> (r: u8) {
    rand::thread_rng().gen::<u8>()
}

/// The quirk settings of `CPU::new`: shifts read `Vy`, bulk transfers move `I`,
/// jump with offset adds `Vx`, and add-to-index sets the overflow flag.
pub open spec fn default_quirks() -> Quirks {
    Quirks {
        shift_reads_vy: true,
        bulk_moves_index: true,
        jump_offset_uses_vx: true,
        index_overflow_flag: true,
    }
}

/// The state of a freshly made processor.
pub open spec fn initial_state(quirks: Quirks) -> CpuState {
    CpuState {
        pc: PROGRAM_START as u16,
        i: 0,
        sp: 0,
        stack: Seq::new(STACK_DEPTH as nat, |k: int| 0u16),
        v: Seq::new(REGISTER_COUNT as nat, |k: int| 0u8),
        delay_timer: 0,
        sound_timer: 0,
        display: blank(),
        render_pending: false,
        quirks,
    }
}

/// The processor: registers, call stack, timers and display.
pub struct CPU {
    display: FrameBuffer,
    pc: u16,
    i: u16,
    sp: u16,
    stack: [u16; 16],
    v: [u8; 16],
    delay_timer: u8,
    sound_timer: u8,
    render_pending: bool,
    quirks: Quirks,
}

impl View for CPU {
    type V = CpuState;

    closed spec fn view(&self) -> CpuState {
        CpuState {
            pc: self.pc,
            i: self.i,
            sp: self.sp,
            stack: self.stack@,
            v: self.v@,
            delay_timer: self.delay_timer,
            sound_timer: self.sound_timer,
            display: self.display@,
            render_pending: self.render_pending,
            quirks: self.quirks,
        }
    }
}

impl CPU {
    /// The processor's invariant.
    pub open spec fn inv(&self) -> bool {
        state_wf(self@)
    }

    /// A processor at the program start with everything else zero, using
    /// `default_quirks`.
    pub fn new() -> (r: CPU)
        ensures
            r.inv(),
            r@ == initial_state(default_quirks()),
    {
        let quirks = Quirks {
            shift_reads_vy: true,
            bulk_moves_index: true,
            jump_offset_uses_vx: true,
            index_overflow_flag: true,
        };
        CPU::with_quirks(quirks)
    }

    /// A processor at the program start with everything else zero, using the
    /// given quirk settings.
    pub fn with_quirks(quirks: Quirks) -> (r: CPU)
        ensures
            r.inv(),
            r@ == initial_state(quirks),
    {
        let r = CPU {
            display: FrameBuffer::new(),
            pc: PROGRAM_START as u16,
            i: 0,
            sp: 0,
            stack: [0; 16],
            v: [0; 16],
            delay_timer: 0,
            sound_timer: 0,
            render_pending: false,
            quirks,
        };
        proof {
            r.display.lemma_grid();
        }
        assert(r.stack@ =~= Seq::new(STACK_DEPTH as nat, |k: int| 0u16));
        assert(r.v@ =~= Seq::new(REGISTER_COUNT as nat, |k: int| 0u8));
        r
    }

    /// The program counter.
    pub fn pc(&self) -> (r: u16)
        ensures
            r == self@.pc,
    {
        self.pc
    }

    /// The index register `I`.
    pub fn index(&self) -> (r: u16)
        ensures
            r == self@.i,
    {
        self.i
    }

    /// The stack pointer: the number of return addresses on the stack.
    pub fn sp(&self) -> (r: u16)
        ensures
            r == self@.sp,
    {
        self.sp
    }

    /// General register `Vx`.
    pub fn register(&self, x: usize) -> (r: u8)
        requires
            x < REGISTER_COUNT,
        ensures
            r == self@.v[x as int],
    {
        self.v[x]
    }

    /// The quirk settings in use.
    pub fn quirks(&self) -> (r: Quirks)
        ensures
            r == self@.quirks,
    {
        self.quirks
    }

    /// The display.
    pub fn display(&self) -> (r: &FrameBuffer)
        ensures
            r@ == self@.display,
    {
        &self.display
    }

    /// Whether the display changed since the host last presented it.
    pub fn render_pending(&self) -> (r: bool)
        ensures
            r == self@.render_pending,
    {
        self.render_pending
    }

    /// Records that the host has presented the display.
    pub fn clear_render_pending(&mut self)
        requires
            old(self).inv(),
        ensures
            final(self).inv(),
            final(self)@ == (CpuState { render_pending: false, ..old(self)@ }),
    {
        self.render_pending = false;
    }

    /// The delay timer.
    pub fn get_delay_timer(&self) -> (r: u8)
        ensures
            r == self@.delay_timer,
    {
        self.delay_timer
    }

    /// The sound timer.
    pub fn get_sound_timer(&self) -> (r: u8)
        ensures
            r == self@.sound_timer,
    {
        self.sound_timer
    }

    /// One tick of the delay timer: down by one, stopping at zero.
    pub fn dec_delay_timer(&mut self)
        requires
            old(self).inv(),
        ensures
            final(self).inv(),
            final(self)@ == (CpuState {
                delay_timer: if old(self)@.delay_timer > 0 {
                    (old(self)@.delay_timer - 1) as u8
                } else {
                    0
                },
                ..old(self)@
            }),
    {
        if self.delay_timer > 0 {
            self.delay_timer = self.delay_timer - 1;
        }
    }

    /// One tick of the sound timer: down by one, stopping at zero.
    pub fn dec_sound_timer(&mut self)
        requires
            old(self).inv(),
        ensures
            final(self).inv(),
            final(self)@ == (CpuState {
                sound_timer: if old(self)@.sound_timer > 0 {
                    (old(self)@.sound_timer - 1) as u8
                } else {
                    0
                },
                ..old(self)@
            }),
    {
        if self.sound_timer > 0 {
            self.sound_timer = self.sound_timer - 1;
        }
    }

    /// Runs one decoded instruction against memory and the keypad; `rnd` is the
    /// byte that a random instruction draws. On an error nothing changes.
    pub fn execute_instruction(
        &mut self,
        ins: Instruction,
        memory: &mut Memory,
        keypad: &Keypad,
        rnd: u8,
    ) -> (r: Result<StepOutcome, Chip8Error>)
        requires
            old(self).inv(),
            fields_in_range(ins),
        ensures
            final(self).inv(),
            agrees(
                execute_spec(old(self)@, old(memory)@, keypad@, rnd, ins),
                r,
                old(self)@,
                final(self)@,
                old(memory)@,
                final(memory)@,
            ),
    {
        match ins {
            Instruction::ClearScreen
            | Instruction::Return
            | Instruction::Jump { .. }
            | Instruction::Call { .. }
            | Instruction::SkipIfEqual { .. }
            | Instruction::SkipIfNotEqual { .. }
            | Instruction::SkipIfRegistersEqual { .. }
            | Instruction::SkipIfRegistersNotEqual { .. }
            | Instruction::JumpWithOffset { .. } => self.execute_control(ins, memory, keypad, rnd),
            Instruction::Add { .. }
            | Instruction::Subtract { .. }
            | Instruction::SubtractReverse { .. }
            | Instruction::ShiftRight { .. }
            | Instruction::ShiftLeft { .. } => self.execute_flagged(ins, memory, keypad, rnd),
            Instruction::SetRegister { .. }
            | Instruction::AddToRegister { .. }
            | Instruction::CopyRegister { .. }
            | Instruction::Or { .. }
            | Instruction::And { .. }
            | Instruction::Xor { .. }
            | Instruction::Random { .. }
            | Instruction::GetDelayTimer { .. } => self.execute_transfer(ins, memory, keypad, rnd),
            Instruction::SetIndex { .. }
            | Instruction::SetDelayTimer { .. }
            | Instruction::SetSoundTimer { .. }
            | Instruction::AddToIndex { .. }
            | Instruction::FontCharacter { .. } => self.execute_special(ins, memory, keypad, rnd),
            Instruction::SkipIfKeyDown { .. }
            | Instruction::SkipIfKeyUp { .. }
            | Instruction::GetKey { .. } => self.execute_keys(ins, memory, keypad, rnd),
            Instruction::Draw { .. } => self.execute_draw(ins, memory, keypad, rnd),
            Instruction::StoreBcd { .. } => self.execute_bcd(ins, memory, keypad, rnd),
            Instruction::StoreRegisters { .. } => self.execute_store(ins, memory, keypad, rnd),
            Instruction::LoadRegisters { .. } => self.execute_load(ins, memory, keypad, rnd),
        }
    }

    /// Clearing the screen, jumps, calls, returns and skips on register values.
    #[verifier::rlimit(80)]
    fn execute_control(
        &mut self,
        ins: Instruction,
        memory: &Memory,
        keypad: &Keypad,
        rnd: u8,
    ) -> (r: Result<StepOutcome, Chip8Error>)
        requires
            old(self).inv(),
            fields_in_range(ins),
            ins is ClearScreen
                || ins is Return
                || ins is Jump
                || ins is Call
                || ins is SkipIfEqual
                || ins is SkipIfNotEqual
                || ins is SkipIfRegistersEqual
                || ins is SkipIfRegistersNotEqual
                || ins is JumpWithOffset,
        ensures
            final(self).inv(),
            agrees(
                execute_spec(old(self)@, memory@, keypad@, rnd, ins),
                r,
                old(self)@,
                final(self)@,
                memory@,
                memory@,
            ),
    {
        proof {
            memory.lemma_len();
            keypad.lemma_len();
            self.display.lemma_grid();
        }
        match ins {
            Instruction::ClearScreen => {
                self.display.clear();
                self.render_pending = true;
                self.pc = self.pc.wrapping_add(2);
                Ok(StepOutcome::Executed)
            },
            Instruction::Return => {
                if self.sp == 0 {
                    return Err(Chip8Error::StackUnderflow);
                }
                self.sp = self.sp - 1;
                self.pc = self.stack[self.sp as usize].wrapping_add(2);
                Ok(StepOutcome::Executed)
            },
            Instruction::Jump { nnn } => {
                self.pc = nnn;
                Ok(StepOutcome::Executed)
            },
            Instruction::Call { nnn } => {
                if self.sp == STACK_DEPTH {
                    return Err(Chip8Error::StackOverflow);
                }
                self.stack[self.sp as usize] = self.pc;
                self.sp = self.sp + 1;
                self.pc = nnn;
                Ok(StepOutcome::Executed)
            },
            Instruction::SkipIfEqual { x, nn } => {
                let skip = self.v[x as usize] == nn;
                self.skip_if(skip);
                Ok(StepOutcome::Executed)
            },
            Instruction::SkipIfNotEqual { x, nn } => {
                let skip = self.v[x as usize] != nn;
                self.skip_if(skip);
                Ok(StepOutcome::Executed)
            },
            Instruction::SkipIfRegistersEqual { x, y } => {
                let skip = self.v[x as usize] == self.v[y as usize];
                self.skip_if(skip);
                Ok(StepOutcome::Executed)
            },
            Instruction::SkipIfRegistersNotEqual { x, y } => {
                let skip = self.v[x as usize] != self.v[y as usize];
                self.skip_if(skip);
                Ok(StepOutcome::Executed)
            },
            Instruction::JumpWithOffset { x, nnn } => {
                let offset = if self.quirks.jump_offset_uses_vx { self.v[x as usize] } else { self.v[0] };
                self.pc = nnn + offset as u16;
                Ok(StepOutcome::Executed)
            },
            _ => unreached(),
        }
    }

    /// Register arithmetic that sets the flag register.
    #[verifier::rlimit(80)]
    fn execute_flagged(&mut self, ins: Instruction, memory: &Memory, keypad: &Keypad, rnd: u8) -> (r: Result<
        StepOutcome,
        Chip8Error,
    >)
        requires
            old(self).inv(),
            fields_in_range(ins),
            ins is Add
                || ins is Subtract
                || ins is SubtractReverse
                || ins is ShiftRight
                || ins is ShiftLeft,
        ensures
            final(self).inv(),
            agrees(
                execute_spec(old(self)@, memory@, keypad@, rnd, ins),
                r,
                old(self)@,
                final(self)@,
                memory@,
                memory@,
            ),
    {
        proof {
            memory.lemma_len();
            keypad.lemma_len();
            self.display.lemma_grid();
        }
        match ins {
            Instruction::Add { x, y } => {
                let sum: u16 = self.v[x as usize] as u16 + self.v[y as usize] as u16;
                self.set_with_flag(x, (sum % 256) as u8, sum > 255);
                Ok(StepOutcome::Executed)
            },
            Instruction::Subtract { x, y } => {
                let a = self.v[x as usize];
                let b = self.v[y as usize];
                self.set_with_flag(x, a.wrapping_sub(b), a >= b);
                Ok(StepOutcome::Executed)
            },
            Instruction::SubtractReverse { x, y } => {
                let a = self.v[x as usize];
                let b = self.v[y as usize];
                self.set_with_flag(x, b.wrapping_sub(a), b >= a);
                Ok(StepOutcome::Executed)
            },
            Instruction::ShiftRight { x, y } => {
                let src = if self.quirks.shift_reads_vy { self.v[y as usize] } else { self.v[x as usize] };
                self.set_with_flag(x, src / 2, src % 2 == 1);
                Ok(StepOutcome::Executed)
            },
            Instruction::ShiftLeft { x, y } => {
                let src = if self.quirks.shift_reads_vy { self.v[y as usize] } else { self.v[x as usize] };
                self.set_with_flag(x, ((src as u16 * 2) % 256) as u8, src >= 128);
                Ok(StepOutcome::Executed)
            },
            _ => unreached(),
        }
    }

    /// Instructions that set one register from a constant, a register, a timer or a random byte.
    #[verifier::rlimit(80)]
    fn execute_transfer(&mut self, ins: Instruction, memory: &Memory, keypad: &Keypad, rnd: u8) -> (r: Result<
        StepOutcome,
        Chip8Error,
    >)
        requires
            old(self).inv(),
            fields_in_range(ins),
            ins is SetRegister
                || ins is AddToRegister
                || ins is CopyRegister
                || ins is Or
                || ins is And
                || ins is Xor
                || ins is Random
                || ins is GetDelayTimer,
        ensures
            final(self).inv(),
            agrees(
                execute_spec(old(self)@, memory@, keypad@, rnd, ins),
                r,
                old(self)@,
                final(self)@,
                memory@,
                memory@,
            ),
    {
        proof {
            memory.lemma_len();
            keypad.lemma_len();
            self.display.lemma_grid();
        }
        match ins {
            Instruction::SetRegister { x, nn } => {
                self.v[x as usize] = nn;
                self.pc = self.pc.wrapping_add(2);
                Ok(StepOutcome::Executed)
            },
            Instruction::AddToRegister { x, nn } => {
                self.v[x as usize] = self.v[x as usize].wrapping_add(nn);
                self.pc = self.pc.wrapping_add(2);
                Ok(StepOutcome::Executed)
            },
            Instruction::CopyRegister { x, y } => {
                self.v[x as usize] = self.v[y as usize];
                self.pc = self.pc.wrapping_add(2);
                Ok(StepOutcome::Executed)
            },
            Instruction::Or { x, y } => {
                self.v[x as usize] = self.v[x as usize] | self.v[y as usize];
                self.pc = self.pc.wrapping_add(2);
                Ok(StepOutcome::Executed)
            },
            Instruction::And { x, y } => {
                self.v[x as usize] = self.v[x as usize] & self.v[y as usize];
                self.pc = self.pc.wrapping_add(2);
                Ok(StepOutcome::Executed)
            },
            Instruction::Xor { x, y } => {
                self.v[x as usize] = self.v[x as usize] ^ self.v[y as usize];
                self.pc = self.pc.wrapping_add(2);
                Ok(StepOutcome::Executed)
            },
            Instruction::Random { x, nn } => {
                self.v[x as usize] = rnd & nn;
                self.pc = self.pc.wrapping_add(2);
                Ok(StepOutcome::Executed)
            },
            Instruction::GetDelayTimer { x } => {
                self.v[x as usize] = self.delay_timer;
                self.pc = self.pc.wrapping_add(2);
                Ok(StepOutcome::Executed)
            },
            _ => unreached(),
        }
    }

    /// Instructions that set the index register or a timer.
    #[verifier::rlimit(80)]
    fn execute_special(&mut self, ins: Instruction, memory: &Memory, keypad: &Keypad, rnd: u8) -> (r: Result<
        StepOutcome,
        Chip8Error,
    >)
        requires
            old(self).inv(),
            fields_in_range(ins),
            ins is SetIndex
                || ins is SetDelayTimer
                || ins is SetSoundTimer
                || ins is AddToIndex
                || ins is FontCharacter,
        ensures
            final(self).inv(),
            agrees(
                execute_spec(old(self)@, memory@, keypad@, rnd, ins),
                r,
                old(self)@,
                final(self)@,
                memory@,
                memory@,
            ),
    {
        proof {
            memory.lemma_len();
            keypad.lemma_len();
            self.display.lemma_grid();
        }
        match ins {
            Instruction::SetIndex { nnn } => {
                self.i = nnn;
                self.pc = self.pc.wrapping_add(2);
                Ok(StepOutcome::Executed)
            },
            Instruction::SetDelayTimer { x } => {
                self.delay_timer = self.v[x as usize];
                self.pc = self.pc.wrapping_add(2);
                Ok(StepOutcome::Executed)
            },
            Instruction::SetSoundTimer { x } => {
                self.sound_timer = self.v[x as usize];
                self.pc = self.pc.wrapping_add(2);
                Ok(StepOutcome::Executed)
            },
            Instruction::AddToIndex { x } => {
                let sum: u32 = self.i as u32 + self.v[x as usize] as u32;
                let i = (sum % 0x10000) as u16;
                self.i = i;
                if self.quirks.index_overflow_flag {
                    self.v[FLAG] = if i > 0x0F00 { 1 } else { 0 };
                }
                self.pc = self.pc.wrapping_add(2);
                Ok(StepOutcome::Executed)
            },
            Instruction::FontCharacter { x } => {
                self.i = self.v[x as usize] as u16 * 5;
                self.pc = self.pc.wrapping_add(2);
                Ok(StepOutcome::Executed)
            },
            _ => unreached(),
        }
    }

    /// Instructions that read the keypad.
    #[verifier::rlimit(80)]
    fn execute_keys(
        &mut self,
        ins: Instruction,
        memory: &Memory,
        keypad: &Keypad,
        rnd: u8,
    ) -> (r: Result<StepOutcome, Chip8Error>)
        requires
            old(self).inv(),
            fields_in_range(ins),
            ins is SkipIfKeyDown
                || ins is SkipIfKeyUp
                || ins is GetKey,
        ensures
            final(self).inv(),
            agrees(
                execute_spec(old(self)@, memory@, keypad@, rnd, ins),
                r,
                old(self)@,
                final(self)@,
                memory@,
                memory@,
            ),
    {
        proof {
            memory.lemma_len();
            keypad.lemma_len();
            self.display.lemma_grid();
        }
        match ins {
            Instruction::SkipIfKeyDown { x } => {
                let skip = keypad.is_key_down_emulator(self.v[x as usize]);
                self.skip_if(skip);
                Ok(StepOutcome::Executed)
            },
            Instruction::SkipIfKeyUp { x } => {
                let skip = !keypad.is_key_down_emulator(self.v[x as usize]);
                self.skip_if(skip);
                Ok(StepOutcome::Executed)
            },
            Instruction::GetKey { x } => {
                let (key, pressed) = keypad.is_any_key_down_emulator();
                if pressed {
                    self.v[x as usize] = key;
                    self.pc = self.pc.wrapping_add(2);
                    Ok(StepOutcome::Executed)
                } else {
                    Ok(StepOutcome::AwaitingKey)
                }
            },
            _ => unreached(),
        }
    }

    /// Drawing a sprite.
    #[verifier::rlimit(80)]
    fn execute_draw(
        &mut self,
        ins: Instruction,
        memory: &Memory,
        keypad: &Keypad,
        rnd: u8,
    ) -> (r: Result<StepOutcome, Chip8Error>)
        requires
            old(self).inv(),
            fields_in_range(ins),
            ins is Draw,
        ensures
            final(self).inv(),
            agrees(
                execute_spec(old(self)@, memory@, keypad@, rnd, ins),
                r,
                old(self)@,
                final(self)@,
                memory@,
                memory@,
            ),
    {
        proof {
            memory.lemma_len();
            keypad.lemma_len();
            self.display.lemma_grid();
        }
        match ins {
            Instruction::Draw { x, y, n } => {
                let start = self.i as usize;
                if start + n as usize > MEMORY_SIZE {
                    return Err(Chip8Error::OutOfBounds { index: first_outside(start) });
                }
                let sprite = memory.read_range(start, n as usize);
                let vx = self.v[x as usize];
                let vy = self.v[y as usize];
                let collided = self.display.draw_sprite(sprite.as_slice(), vx, vy);
                self.v[FLAG] = if collided { 1 } else { 0 };
                self.render_pending = true;
                self.pc = self.pc.wrapping_add(2);
                proof {
                    self.display.lemma_grid();
                }
                Ok(StepOutcome::Executed)
            },
            _ => unreached(),
        }
    }

    /// Storing the decimal digits of a register.
    #[verifier::rlimit(80)]
    fn execute_bcd(
        &mut self,
        ins: Instruction,
        memory: &mut Memory,
        keypad: &Keypad,
        rnd: u8,
    ) -> (r: Result<StepOutcome, Chip8Error>)
        requires
            old(self).inv(),
            fields_in_range(ins),
            ins is StoreBcd,
        ensures
            final(self).inv(),
            agrees(
                execute_spec(old(self)@, old(memory)@, keypad@, rnd, ins),
                r,
                old(self)@,
                final(self)@,
                old(memory)@,
                final(memory)@,
            ),
    {
        proof {
            memory.lemma_len();
            keypad.lemma_len();
            self.display.lemma_grid();
        }
        match ins {
            Instruction::StoreBcd { x } => {
                let start = self.i as usize;
                if start + 3 > MEMORY_SIZE {
                    return Err(Chip8Error::OutOfBounds { index: first_outside(start) });
                }
                let val = self.v[x as usize];
                let digits: [u8; 3] = [val / 100, (val % 100) / 10, val % 10];
                memory.write_range(start, digits.as_slice());
                assert(memory@ =~= stored_bcd(old(self)@, old(memory)@, val));
                self.pc = self.pc.wrapping_add(2);
                Ok(StepOutcome::Executed)
            },
            _ => unreached(),
        }
    }

    /// Storing registers to memory.
    #[verifier::rlimit(80)]
    fn execute_store(
        &mut self,
        ins: Instruction,
        memory: &mut Memory,
        keypad: &Keypad,
        rnd: u8,
    ) -> (r: Result<StepOutcome, Chip8Error>)
        requires
            old(self).inv(),
            fields_in_range(ins),
            ins is StoreRegisters,
        ensures
            final(self).inv(),
            agrees(
                execute_spec(old(self)@, old(memory)@, keypad@, rnd, ins),
                r,
                old(self)@,
                final(self)@,
                old(memory)@,
                final(memory)@,
            ),
    {
        proof {
            memory.lemma_len();
            keypad.lemma_len();
            self.display.lemma_grid();
        }
        match ins {
            Instruction::StoreRegisters { x } => {
                let start = self.i as usize;
                let count = x as usize + 1;
                if start + count > MEMORY_SIZE {
                    return Err(Chip8Error::OutOfBounds { index: first_outside(start) });
                }
                let regs = self.v.as_slice();
                let mut data: Vec<u8> = Vec::new();
                let mut k: usize = 0;
                while k < count
                    invariant
                        count <= REGISTER_COUNT,
                        regs@ == self.v@,
                        k <= count,
                        data@ == self.v@.subrange(0, k as int),
                    decreases count - k,
                {
                    data.push(regs[k]);
                    k = k + 1;
                    assert(data@ =~= self.v@.subrange(0, k as int));
                }
                memory.write_range(start, data.as_slice());
                if self.quirks.bulk_moves_index {
                    self.i = (start + count) as u16;
                }
                self.pc = self.pc.wrapping_add(2);
                assert(memory@ =~= stored_registers(old(self)@, old(memory)@, x as int));
                Ok(StepOutcome::Executed)
            },
            _ => unreached(),
        }
    }

    /// Loading registers from memory.
    #[verifier::rlimit(80)]
    fn execute_load(
        &mut self,
        ins: Instruction,
        memory: &Memory,
        keypad: &Keypad,
        rnd: u8,
    ) -> (r: Result<StepOutcome, Chip8Error>)
        requires
            old(self).inv(),
            fields_in_range(ins),
            ins is LoadRegisters,
        ensures
            final(self).inv(),
            agrees(
                execute_spec(old(self)@, memory@, keypad@, rnd, ins),
                r,
                old(self)@,
                final(self)@,
                memory@,
                memory@,
            ),
    {
        proof {
            memory.lemma_len();
            keypad.lemma_len();
            self.display.lemma_grid();
        }
        match ins {
            Instruction::LoadRegisters { x } => {
                let start = self.i as usize;
                let count = x as usize + 1;
                if start + count > MEMORY_SIZE {
                    return Err(Chip8Error::OutOfBounds { index: first_outside(start) });
                }
                let data = memory.read_range(start, count);
                let mut k: usize = 0;
                while k < count
                    invariant
                        count <= REGISTER_COUNT,
                        start + count <= MEMORY_SIZE,
                        memory@.len() == MEMORY_SIZE,
                        data@ == memory@.subrange(start as int, start + count),
                        k <= count,
                        self.pc == old(self).pc,
                        self.i == old(self).i,
                        self.sp == old(self).sp,
                        self.stack == old(self).stack,
                        self.display == old(self).display,
                        self.delay_timer == old(self).delay_timer,
                        self.sound_timer == old(self).sound_timer,
                        self.render_pending == old(self).render_pending,
                        self.quirks == old(self).quirks,
                        forall|j: int| 0 <= j < k ==> self.v@[j] == data@[j],
                        forall|j: int| k <= j < REGISTER_COUNT ==> self.v@[j] == old(self).v@[j],
                    decreases count - k,
                {
                    self.v[k] = data[k];
                    k = k + 1;
                }
                if self.quirks.bulk_moves_index {
                    self.i = (start + count) as u16;
                }
                self.pc = self.pc.wrapping_add(2);
                assert(self.v@ =~= loaded_registers(old(self)@, memory@, x as int));
                Ok(StepOutcome::Executed)
            },
            _ => unreached(),
        }
    }

    /// The opcode at the program counter: the byte there, high, and the byte
    /// after it, low.
    pub fn fetch(&self, memory: &Memory) -> (r: Result<u16, Chip8Error>)
        ensures
            fits(self@.pc as int, 2) ==> r == Ok::<u16, Chip8Error>(
                opcode_at(memory@, self@.pc as int),
            ),
            !fits(self@.pc as int, 2) ==> r == Err::<u16, Chip8Error>(
                Chip8Error::OutOfBounds { index: first_bad_address(self@.pc as int) },
            ),
    {
        let pc = self.pc as usize;
        if pc + 2 > MEMORY_SIZE {
            return Err(Chip8Error::OutOfBounds { index: first_outside(pc) });
        }
        proof {
            memory.lemma_len();
        }
        let bytes = memory.read_range(pc, 2);
        Ok(((bytes[0] as u16) << 8) | (bytes[1] as u16))
    }

    /// The instruction an opcode encodes, or `DecodeError` with the opcode and
    /// the program counter when it encodes none.
    pub fn decode(&self, opcode: u16) -> (r: Result<Instruction, Chip8Error>)
        ensures
            r == match decode_spec(opcode) {
                Some(ins) => Ok::<Instruction, Chip8Error>(ins),
                None => Err(Chip8Error::DecodeError { opcode, address: self@.pc }),
            },
    {
        match decode_opcode(opcode) {
            Some(ins) => Ok(ins),
            None => Err(Chip8Error::DecodeError { opcode, address: self.pc }),
        }
    }

    /// One fetch-decode-execute step; `rnd` is the byte that a random
    /// instruction draws. On an error nothing changes.
    pub fn execute_with_random(&mut self, memory: &mut Memory, keypad: &Keypad, rnd: u8) -> (r: Result<
        StepOutcome,
        Chip8Error,
    >)
        requires
            old(self).inv(),
        ensures
            final(self).inv(),
            agrees(
                step_spec(old(self)@, old(memory)@, keypad@, rnd),
                r,
                old(self)@,
                final(self)@,
                old(memory)@,
                final(memory)@,
            ),
    {
        proof {
            memory.lemma_len();
        }
        let opcode = match self.fetch(memory) {
            Ok(op) => op,
            Err(e) => return Err(e),
        };
        let ins = match self.decode(opcode) {
            Ok(ins) => ins,
            Err(e) => return Err(e),
        };
        proof {
            lemma_decoded_fields_in_range(opcode);
        }
        self.execute_instruction(ins, memory, keypad, rnd)
    }

    /// One fetch-decode-execute step, with a random byte drawn for a random
    /// instruction. The result is that of `execute_with_random` for some byte.
    pub fn execute(&mut self, memory: &mut Memory, keypad: &Keypad) -> (r: Result<StepOutcome, Chip8Error>)
        requires
            old(self).inv(),
        ensures
            final(self).inv(),
            exists|rnd: u8|
                agrees(
                    #[trigger] step_spec(old(self)@, old(memory)@, keypad@, rnd),
                    r,
                    old(self)@,
                    final(self)@,
                    old(memory)@,
                    final(memory)@,
                ),
    {
        let rnd = random_byte();
        self.execute_with_random(memory, keypad, rnd)
    }

    /// Moves on to the next instruction, or past it when `skip` holds.
    fn skip_if(&mut self, skip: bool)
        requires
            old(self).inv(),
        ensures
            final(self).inv(),
            final(self)@ == advanced(old(self)@, if skip { 4 } else { 2 }),
    {
        self.pc = self.pc.wrapping_add(if skip { 4 } else { 2 });
    }

    /// Sets `Vx` to `val`, then `VF` to `flag`, and moves on.
    fn set_with_flag(&mut self, x: u8, val: u8, flag: bool)
        requires
            old(self).inv(),
            x < REGISTER_COUNT,
        ensures
            final(self).inv(),
            final(self)@ == advanced(
                with_result_and_flag(old(self)@, x as int, val, flag),
                2,
            ),
    {
        self.v[x as usize] = val;
        self.v[FLAG] = if flag { 1 } else { 0 };
        self.pc = self.pc.wrapping_add(2);
    }
}

/// The first address outside memory touched by an access at `start` that runs
/// past the end of memory.
fn first_outside(start: usize) -> (r: usize)
    ensures
        r == first_bad_address(start as int),
{
    if start >= MEMORY_SIZE {
        start
    } else {
        MEMORY_SIZE
    }
}

} // verus!
