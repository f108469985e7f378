use vstd::prelude::*;

use crate::config::ChipConfig;
use crate::error::ChipError;
use crate::instruction::{decode_spec, Instruction};
use crate::io::{ChipIO, IoCall, Screen};
use crate::state::{extends, batch, call_result, keyed_step, one_more_call, steps, ticks, ChipState};
use crate::{
    FONT_DATA, INSTRUCTION_SIZE, KEYBOARD_SIZE, MEM_SIZE, PROGRAM_START, REGISTER_COUNT,
    SCREEN_HEIGHT, SCREEN_WIDTH,
};

mod opcodes;

verus! {

/// The machine: memory, registers, stack, timers, keypad and framebuffer,
/// with the IO boundary it renders and polls through and its settings.
pub struct ChipOxide<I: ChipIO> {
    memory: [u8; MEM_SIZE],
    screen: Screen,
    stack: Vec<u16>,
    register: [u8; REGISTER_COUNT],
    delay: u8,
    sound: u8,
    keyboard: [bool; KEYBOARD_SIZE],
    counter: u16,
    index: u16,
    io: I,
    config: ChipConfig,
    log: Ghost<Seq<IoCall>>,
}

impl<I: ChipIO> View for ChipOxide<I> {
    type V = ChipState;

    closed spec fn view(&self) -> ChipState {
        ChipState {
            memory: self.memory@,
            screen: self.screen@.map_values(|c: [bool; SCREEN_HEIGHT]| c@),
            stack: self.stack@,
            registers: self.register@,
            delay: self.delay,
            sound: self.sound,
            keys: self.keyboard@,
            pc: self.counter,
            index: self.index,
        }
    }
}

impl<I: ChipIO> ChipOxide<I> {
    /// The settings the machine runs with.
    pub closed spec fn spec_config(&self) -> ChipConfig {
        self.config
    }

    /// The IO boundary the machine renders and polls through.
    pub closed spec fn spec_io(&self) -> I {
        self.io
    }

    /// Every call the machine has made across the IO boundary, oldest
    /// first, with what each returned.
    pub closed spec fn io_log(&self) -> Seq<IoCall> {
        self.log@
    }

    /// The abstract state always has the sizes of the machine.
    pub proof fn lemma_view_wf(&self)
        ensures
            self@.wf(),
    {
        assert forall|i: int| 0 <= i < SCREEN_WIDTH implies (#[trigger] self@.screen[i]).len()
            == SCREEN_HEIGHT by {
            assert(self@.screen[i] == self.screen@[i]@);
        }
    }

    /// Whether the historical shift and offset-jump behaviour is selected.
    pub open spec fn legacy(&self) -> bool {
        self.spec_config().legacy
    }

    /// A machine with everything zeroed.
    fn empty(io: I, config: ChipConfig) -> (m: Self)
        ensures
            m@.wf(),
            forall|a: int| 0 <= a < MEM_SIZE ==> m@.memory[a] == 0,
            forall|i: int, j: int|
                0 <= i < SCREEN_WIDTH && 0 <= j < SCREEN_HEIGHT ==> !m@.screen[i][j],
            m@.stack.len() == 0,
            forall|r: int| 0 <= r < REGISTER_COUNT ==> m@.registers[r] == 0,
            forall|k: int| 0 <= k < KEYBOARD_SIZE ==> !m@.keys[k],
            m@.delay == 0,
            m@.sound == 0,
            m@.pc == 0,
            m@.index == 0,
            m.io == io,
            m.spec_config() == config,
            m.io_log() == Seq::<IoCall>::empty(),
    {
        ChipOxide {
            memory: [0u8; MEM_SIZE],
            screen: [[false; SCREEN_HEIGHT]; SCREEN_WIDTH],
            stack: Vec::new(),
            register: [0u8; REGISTER_COUNT],
            delay: 0,
            sound: 0,
            keyboard: [false; KEYBOARD_SIZE],
            counter: 0,
            index: 0,
            io,
            config,
            log: Ghost(Seq::empty()),
        }
    }

    /// Builds a machine with the font at address 0 and `program` at the load
    /// address, ready to run from there, with no boundary call made yet.
    /// Settings that cannot drive a run are refused, then a program that does
    /// not fit in memory above the load address.
    pub fn new(program: &[u8], io: I, config: ChipConfig) -> (r: Result<Self, ChipError>)
        ensures
            !config.is_valid() ==> r matches Err(ChipError::InvalidConfig),
            config.is_valid() && program@.len() > MEM_SIZE - PROGRAM_START ==> (r matches Err(
                ChipError::ProgramTooLarge(len),
            ) && len == program@.len()),
            config.is_valid() && program@.len() <= MEM_SIZE - PROGRAM_START ==> (r matches Ok(m)
                && m@ == ChipState::initial(program@) && m.spec_io() == io && m.spec_config()
                == config && m.io_log() == Seq::<IoCall>::empty()),
    {
        if config.opcodes_per_cycle < 1 || config.timer_hz < 1 {
            return Err(ChipError::InvalidConfig);
        }
        if program.len() > MEM_SIZE - PROGRAM_START {
            return Err(ChipError::ProgramTooLarge(program.len()));
        }
        let mut chip = Self::empty(io, config);
        chip.counter = PROGRAM_START as u16;
        proof {
            let init = ChipState::initial(program@);
            assert forall|i: int| 0 <= i < SCREEN_WIDTH implies #[trigger] chip@.screen[i]
                =~= init.screen[i] by {
                assert(chip@.screen[i] == chip.screen@[i]@);
            }
            assert(chip@.screen =~= init.screen);
            assert(chip@.registers =~= init.registers);
            assert(chip@.keys =~= init.keys);
            assert(chip@.stack =~= init.stack);
        }
        let font = FONT_DATA;
        for a in 0..font.len()
            invariant
                font@ == FONT_DATA@,
                font@.len() == 80,
                chip.io == io,
                chip.config == config,
                chip.log@ == Seq::<IoCall>::empty(),
                chip@ == (ChipState { memory: chip@.memory, ..ChipState::initial(program@) }),
                chip@.memory.len() == MEM_SIZE,
                forall|b: int| 0 <= b < a ==> chip@.memory[b] == FONT_DATA@[b],
                forall|b: int| a <= b < MEM_SIZE ==> chip@.memory[b] == 0,
        {
            chip.memory[a] = font[a];
        }
        for i in 0..program.len()
            invariant
                PROGRAM_START + program@.len() <= MEM_SIZE,
                chip.io == io,
                chip.config == config,
                chip.log@ == Seq::<IoCall>::empty(),
                chip@ == (ChipState { memory: chip@.memory, ..ChipState::initial(program@) }),
                chip@.memory.len() == MEM_SIZE,
                forall|b: int| 0 <= b < 80 ==> chip@.memory[b] == FONT_DATA@[b],
                forall|b: int|
                    PROGRAM_START <= b < PROGRAM_START + i ==> chip@.memory[b] == program@[b
                        - PROGRAM_START],
                forall|b: int| 80 <= b < PROGRAM_START ==> chip@.memory[b] == 0,
                forall|b: int| PROGRAM_START + i <= b < MEM_SIZE ==> chip@.memory[b] == 0,
        {
            chip.memory[PROGRAM_START + i] = program[i];
        }
        proof {
            assert(chip@.memory =~= ChipState::initial(program@).memory);
        }
        Ok(chip)
    }

    /// Reads the instruction word at the program counter, moves the counter
    /// past it, and decodes it. A counter too close to the end of memory to
    /// hold a word is a fault that changes nothing.
    pub fn fetch_instruction(&mut self) -> (r: Result<Instruction, ChipError>)
        ensures
            !old(self)@.can_fetch() ==> r == Err::<Instruction, ChipError>(
                ChipError::AddressOutOfRange,
            ) && final(self)@ == old(self)@,
            old(self)@.can_fetch() ==> final(self)@ == old(self)@.fetched() && match decode_spec(
                old(self)@.word_at_pc(),
            ) {
                Some(i) => r == Ok::<Instruction, ChipError>(i),
                None => r == Err::<Instruction, ChipError>(
                    ChipError::Decode(old(self)@.word_at_pc()),
                ),
            },
            r matches Ok(i) ==> i.in_table(),
            final(self).spec_io() == old(self).spec_io(),
            final(self).io_log() == old(self).io_log(),
            final(self).spec_config() == old(self).spec_config(),
    {
        let at = self.counter as usize;
        if at + 1 >= MEM_SIZE {
            return Err(ChipError::AddressOutOfRange);
        }
        self.counter = self.counter + INSTRUCTION_SIZE;
        let word = self.memory[at] as u16 * 256 + self.memory[at + 1] as u16;
        Instruction::decode(word)
    }

    /// One fetch-decode-execute cycle.
    pub fn step(&mut self) -> (r: Result<(), ChipError>)
        ensures
            steps(old(self)@, final(self)@, old(self).io_log(), final(self).io_log(), old(self).legacy(), r),
            extends(old(self).io_log(), final(self).io_log()),
            final(self).spec_config() == old(self).spec_config(),
    {
        let inst = match self.fetch_instruction() {
            Ok(inst) => inst,
            Err(e) => {
                proof {
                    assert(self.log@.subrange(0, self.log@.len() as int) =~= self.log@);
                }
                return Err(e);
            },
        };
        self.execute_instruction(inst)
    }

    /// Merges one polled key change into the keypad, then runs one step. A
    /// key number outside the keypad is refused before anything changes.
    pub fn step_with_key(&mut self, event: Option<(usize, bool)>) -> (r: Result<(), ChipError>)
        ensures
            keyed_step(
                old(self)@,
                final(self)@,
                old(self).io_log(),
                final(self).io_log(),
                old(self).legacy(),
                event,
                r,
            ),
            extends(old(self).io_log(), final(self).io_log()),
            final(self).spec_config() == old(self).spec_config(),
    {
        if let Some((key, pressed)) = event {
            if let Err(e) = self.set_key(key, pressed) {
                proof {
                    assert(self.log@.subrange(0, self.log@.len() as int) =~= self.log@);
                }
                return Err(e);
            }
        }
        self.step()
    }

    /// Records a key change. A key number outside the keypad is refused.
    pub fn set_key(&mut self, key: usize, pressed: bool) -> (r: Result<(), ChipError>)
        ensures
            key >= KEYBOARD_SIZE ==> r == Err::<(), ChipError>(ChipError::KeyOutOfRange(key))
                && final(self)@ == old(self)@,
            key < KEYBOARD_SIZE ==> r is Ok && final(self)@ == (ChipState {
                keys: old(self)@.keys.update(key as int, pressed),
                ..old(self)@
            }),
            final(self).spec_io() == old(self).spec_io(),
            final(self).io_log() == old(self).io_log(),
            final(self).spec_config() == old(self).spec_config(),
    {
        if key >= KEYBOARD_SIZE {
            return Err(ChipError::KeyOutOfRange(key));
        }
        self.keyboard[key] = pressed;
        Ok(())
    }

    /// One timer tick: each nonzero timer counts down by one, and the tick
    /// that brings the sound timer to zero ends the tone: it calls `end_beep`
    /// once and returns what that call returned.
    pub fn update_timer(&mut self) -> (r: Result<(), ChipError>)
        ensures
            ticks(old(self)@, final(self)@, old(self).io_log(), final(self).io_log(), r),
            !old(self)@.tick_ends_beep() ==> final(self).spec_io() == old(self).spec_io(),
            final(self).spec_config() == old(self).spec_config(),
    {
        if self.delay != 0 {
            self.delay = self.delay - 1;
        }
        if self.sound != 0 {
            self.sound = self.sound - 1;
            if self.sound == 0 {
                let res = self.io.end_beep();
                self.log = Ghost(self.log@.push(IoCall::EndBeep(res)));
                if let Err(e) = res {
                    return Err(ChipError::Io(e));
                }
            }
        }
        Ok(())
    }

    /// `k` rounds of a key poll and `step_with_key` on what it returned. The
    /// first error ends the batch.
    fn run_batch(&mut self, k: usize) -> (r: Result<(), ChipError>)
        ensures
            batch(
                old(self)@,
                final(self)@,
                old(self).legacy(),
                k as nat,
                old(self).io_log(),
                final(self).io_log(),
                r,
            ),
            extends(old(self).io_log(), final(self).io_log()),
            final(self).spec_config() == old(self).spec_config(),
        decreases k,
    {
        if k == 0 {
            proof {
                assert(self.log@.subrange(0, self.log@.len() as int) =~= self.log@);
            }
            return Ok(());
        }
        let polled = self.io.get_key();
        self.log = Ghost(self.log@.push(IoCall::GetKey(polled)));
        let ghost log0 = old(self).log@;
        let ghost plog = self.log@;
        assert(plog[log0.len() as int] == IoCall::GetKey(polled));
        let event = match polled {
            Ok(event) => event,
            Err(e) => {
                proof {
                    assert(plog.subrange(0, log0.len() as int) =~= log0);
                }
                return Err(ChipError::Io(e));
            },
        };
        let ghost before = self@;
        let step = self.step_with_key(event);
        let ghost mid = self@;
        let ghost mlog = self.log@;
        if step.is_err() {
            assert(keyed_step(before, mid, plog, mlog, self.legacy(), event, step));
            assert(mlog.subrange(0, plog.len() as int) =~= plog);
            assert(mlog.subrange(0, log0.len() as int) =~= log0);
            return step;
        }
        let r = self.run_batch(k - 1);
        proof {
            assert(keyed_step(before, mid, plog, mlog, self.legacy(), event, step));
            let log1 = self.log@;
            assert(mlog.subrange(0, plog.len() as int) =~= plog);
            assert(log1.subrange(0, mlog.len() as int) =~= mlog);
            assert(log1[log0.len() as int] == mlog[log0.len() as int]);
            assert(log1.subrange(0, log0.len() as int) =~= log0);
        }
        r
    }

    /// The batch of work between two ticks: one timer tick, then
    /// `opcodes_per_cycle` times a key poll and `step_with_key` on what it
    /// returned. The first error ends the batch.
    pub fn cycle(&mut self) -> (r: Result<(), ChipError>)
        ensures
            final(self).spec_config() == old(self).spec_config(),
            exists|tick_log: Seq<IoCall>, rt: Result<(), ChipError>|
                #[trigger] ticks(old(self)@, old(self)@.ticked(), old(self).io_log(), tick_log, rt)
                    && if rt is Ok {
                    batch(
                        old(self)@.ticked(),
                        final(self)@,
                        old(self).legacy(),
                        old(self).spec_config().opcodes_per_cycle as nat,
                        tick_log,
                        final(self).io_log(),
                        r,
                    )
                } else {
                    final(self)@ == old(self)@.ticked() && final(self).io_log() == tick_log && r
                        == rt
                },
    {
        let tick = self.update_timer();
        let ghost tick_log = self.log@;
        if tick.is_err() {
            assert(ticks(old(self)@, old(self)@.ticked(), old(self).log@, tick_log, tick));
            return tick;
        }
        let count = self.config.opcodes_per_cycle;
        let r = self.run_batch(count);
        assert(ticks(old(self)@, old(self)@.ticked(), old(self).log@, tick_log, tick));
        r
    }

    /// Register `Vi`.
    pub fn register(&self, i: usize) -> (v: u8)
        requires
            i < REGISTER_COUNT,
        ensures
            v == self@.registers[i as int],
    {
        self.register[i]
    }

    /// The byte at `addr`.
    pub fn memory_at(&self, addr: usize) -> (v: u8)
        requires
            addr < MEM_SIZE,
        ensures
            v == self@.memory[addr as int],
    {
        self.memory[addr]
    }

    /// The program counter.
    pub fn program_counter(&self) -> (v: u16)
        ensures
            v == self@.pc,
    {
        self.counter
    }

    /// The index register.
    pub fn index(&self) -> (v: u16)
        ensures
            v == self@.index,
    {
        self.index
    }

    /// The delay timer.
    pub fn delay_timer(&self) -> (v: u8)
        ensures
            v == self@.delay,
    {
        self.delay
    }

    /// The sound timer.
    pub fn sound_timer(&self) -> (v: u8)
        ensures
            v == self@.sound,
    {
        self.sound
    }

    /// Whether key `k` is down.
    pub fn key_down(&self, k: usize) -> (v: bool)
        requires
            k < KEYBOARD_SIZE,
        ensures
            v == self@.keys[k as int],
    {
        self.keyboard[k]
    }

    /// The pixel in column `x`, row `y`.
    pub fn pixel(&self, x: usize, y: usize) -> (v: bool)
        requires
            x < SCREEN_WIDTH,
            y < SCREEN_HEIGHT,
        ensures
            v == self@.screen[x as int][y as int],
    {
        self.screen[x][y]
    }

    /// The framebuffer.
    pub fn screen(&self) -> (v: &Screen)
        ensures
            v@.map_values(|c: [bool; SCREEN_HEIGHT]| c@) == self@.screen,
    {
        &self.screen
    }

    /// How many return addresses are saved.
    pub fn stack_depth(&self) -> (v: usize)
        ensures
            v == self@.stack.len(),
    {
        self.stack.len()
    }

    /// The IO boundary.
    pub fn io(&self) -> (v: &I)
        ensures
            *v == self.spec_io(),
    {
        &self.io
    }

    /// The settings.
    pub fn config(&self) -> (v: &ChipConfig)
        ensures
            *v == self.spec_config(),
    {
        &self.config
    }
}

} // verus!
