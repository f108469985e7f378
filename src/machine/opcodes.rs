use vstd::prelude::*;

use crate::error::ChipError;
use crate::instruction::Instruction;
use crate::io::ChipIO;
use crate::machine::ChipOxide;
use crate::io::IoCall;
use crate::state::{extends, calls_io, executes, follows, follows_io, sprite_bit, transition, ChipState};
use crate::{
    FONT_STRIDE, INSTRUCTION_SIZE, KEYBOARD_SIZE, MEM_SIZE, REGISTER_COUNT, SCREEN_HEIGHT, SCREEN_WIDTH,
    VF,
};

verus! {

/// Relies on rand::random::<u8>: a byte from the thread-local generator.
/// Nothing is known of which byte.
#[verifier::external_body]
fn random_byte() -> u8 {
    rand::random::<u8>()
}

impl<I: ChipIO> ChipOxide<I> {
    /// Executes one decoded instruction. A random instruction draws its byte
    /// from the thread-local generator; everything else is as
    /// `execute_with_random` states.
    pub fn execute_instruction(&mut self, inst: Instruction) -> (r: Result<(), ChipError>)
        requires
            inst.wf(),
        ensures
            executes(
                old(self)@,
                final(self)@,
                old(self).io_log(),
                final(self).io_log(),
                old(self).legacy(),
                inst,
                r,
            ),
            !calls_io(old(self)@, inst) ==> final(self).spec_io() == old(self).spec_io(),
            extends(old(self).io_log(), final(self).io_log()),
            final(self).spec_config() == old(self).spec_config(),
    {
        let byte = match inst {
            Instruction::Random(_, _) => random_byte(),
            _ => 0,
        };
        self.execute_with_random(inst, byte)
    }

    /// Executes one decoded instruction, with `random` as the byte that a
    /// random instruction draws.
    pub fn execute_with_random(&mut self, inst: Instruction, random: u8) -> (r: Result<
        (),
        ChipError,
    >)
        requires
            inst.wf(),
        ensures
            follows_io(
                old(self)@,
                final(self)@,
                old(self).io_log(),
                final(self).io_log(),
                inst,
                transition(old(self)@, old(self).legacy(), inst, random),
                r,
            ),
            !calls_io(old(self)@, inst) ==> final(self).spec_io() == old(self).spec_io(),
            extends(old(self).io_log(), final(self).io_log()),
            final(self).spec_config() == old(self).spec_config(),
    {
        let r = match inst {
            Instruction::Clear => {
                self.clear_screen();
                Ok(())
            },
            Instruction::Return => self.return_subroutine(),
            Instruction::Jump(addr) => {
                self.jump(addr);
                Ok(())
            },
            Instruction::SubRoutine(addr) => {
                self.subroutine(addr);
                Ok(())
            },
            Instruction::SkipED(r, data) => {
                self.skip_ed(r, data);
                Ok(())
            },
            Instruction::SkipNED(r, data) => {
                self.skip_ned(r, data);
                Ok(())
            },
            Instruction::SkipER(r0, r1) => {
                self.skip_er(r0, r1);
                Ok(())
            },
            Instruction::SetRegisterD(r, val) => {
                self.set_register_data(r, val);
                Ok(())
            },
            Instruction::AddRegisterD(r, val) => {
                self.add_register_data(r, val);
                Ok(())
            },
            Instruction::SetRegisterR(r0, r1) => {
                self.set_register_register(r0, r1);
                Ok(())
            },
            Instruction::BinaryOR(r0, r1) => {
                self.binary_or(r0, r1);
                Ok(())
            },
            Instruction::BinaryAND(r0, r1) => {
                self.binary_and(r0, r1);
                Ok(())
            },
            Instruction::LogicalXOR(r0, r1) => {
                self.logical_xor(r0, r1);
                Ok(())
            },
            Instruction::AddRegisterR(r0, r1) => {
                self.add_register_register(r0, r1);
                Ok(())
            },
            Instruction::SubtractXY(r0, r1) => {
                self.subtract_x_y(r0, r1);
                Ok(())
            },
            Instruction::ShiftRight(r0, r1) => {
                self.shift_right(r0, r1);
                Ok(())
            },
            Instruction::SubtractYX(r0, r1) => {
                self.subtract_y_x(r0, r1);
                Ok(())
            },
            Instruction::ShiftLeft(r0, r1) => {
                self.shift_left(r0, r1);
                Ok(())
            },
            Instruction::SkipNER(r0, r1) => {
                self.skip_ner(r0, r1);
                Ok(())
            },
            Instruction::SetIndex(val) => {
                self.set_index(val);
                Ok(())
            },
            Instruction::OffsetJump(r, addr) => {
                self.offset_jump(r, addr);
                Ok(())
            },
            Instruction::Random(r, modifier) => {
                self.random(r, modifier, random);
                Ok(())
            },
            Instruction::Draw(xa, ya, n) => self.draw(xa, ya, n),
            Instruction::KeyPressed(r) => self.key_pressed(r),
            Instruction::KeyReleased(r) => self.key_released(r),
            Instruction::GetDelay(r) => {
                self.get_delay(r);
                Ok(())
            },
            Instruction::KeyWait(r) => {
                self.key_wait(r);
                Ok(())
            },
            Instruction::SetDelay(r) => {
                self.set_delay(r);
                Ok(())
            },
            Instruction::SetSound(r) => self.set_sound(r),
            Instruction::AddIndex(r) => {
                self.add_index(r);
                Ok(())
            },
            Instruction::GetFont(r) => {
                self.get_font(r);
                Ok(())
            },
            Instruction::AsDecimal(r) => self.as_decimal(r),
            Instruction::Save(r) => self.save(r),
            Instruction::Load(r) => self.load(r),
        };
        proof {
            assert(self.log@.subrange(0, old(self).log@.len() as int) =~= old(self).log@);
        }
        r
    }

    /// What `inst` does from this state, for an instruction that draws no
    /// random byte.
    spec fn effect(&self, inst: Instruction) -> Result<ChipState, ChipError> {
        transition(self@, self.legacy(), inst, 0)
    }

    /// The state that `inst` leads to from this one, when it does not fail
    /// and draws no random byte.
    spec fn next(&self, inst: Instruction) -> ChipState {
        self.effect(inst)->Ok_0
    }

    /// Nothing but the machine state changed.
    spec fn same_setup(&self, other: &Self) -> bool {
        self.config == other.config && self.io == other.io && self.log == other.log
    }

    fn clear_screen(&mut self)
        ensures
            final(self)@ == old(self).next(Instruction::Clear),
            final(self).same_setup(old(self)),
    {
        let column = [false; SCREEN_HEIGHT];
        self.screen = [column; SCREEN_WIDTH];
        proof {
            let blank = Seq::new(
                SCREEN_WIDTH as nat,
                |i: int| Seq::new(SCREEN_HEIGHT as nat, |j: int| false),
            );
            assert forall|i: int| 0 <= i < SCREEN_WIDTH implies #[trigger] self@.screen[i]
                == blank[i] by {
                assert(self.screen@[i] == column);
                assert(column@ =~= blank[i]);
            }
            assert(self@.screen =~= blank);
        }
    }

    fn return_subroutine(&mut self) -> (r: Result<(), ChipError>)
        ensures
            old(self)@.stack.len() == 0 ==> r == Err::<(), ChipError>(ChipError::StackUnderflow)
                && final(self)@ == old(self)@,
            old(self)@.stack.len() > 0 ==> r is Ok && final(self)@ == old(self).next(
                Instruction::Return,
            ),
            final(self).same_setup(old(self)),
    {
        match self.stack.pop() {
            Some(addr) => {
                self.counter = addr;
                Ok(())
            },
            None => Err(ChipError::StackUnderflow),
        }
    }

    fn jump(&mut self, location: u16)
        ensures
            final(self)@ == old(self).next(Instruction::Jump(location)),
            final(self).same_setup(old(self)),
    {
        self.counter = location;
    }

    fn subroutine(&mut self, location: u16)
        ensures
            final(self)@ == old(self).next(Instruction::SubRoutine(location)),
            final(self).same_setup(old(self)),
    {
        self.stack.push(self.counter);
        self.counter = location;
    }

    /// Moves the program counter past the next instruction when `cond`
    /// holds.
    fn skip_if(&mut self, cond: bool)
        ensures
            final(self)@ == old(self)@.skip_if(cond),
            final(self).same_setup(old(self)),
    {
        if cond {
            self.counter = self.counter.wrapping_add(INSTRUCTION_SIZE);
        }
    }

    fn skip_ed(&mut self, register: u8, data: u8)
        requires
            register < 16,
        ensures
            final(self)@ == old(self).next(Instruction::SkipED(register, data)),
            final(self).same_setup(old(self)),
    {
        let c = self.register[register as usize] == data;
        self.skip_if(c);
    }

    fn skip_ned(&mut self, register: u8, data: u8)
        requires
            register < 16,
        ensures
            final(self)@ == old(self).next(Instruction::SkipNED(register, data)),
            final(self).same_setup(old(self)),
    {
        let c = self.register[register as usize] != data;
        self.skip_if(c);
    }

    fn skip_er(&mut self, register0: u8, register1: u8)
        requires
            register0 < 16,
            register1 < 16,
        ensures
            final(self)@ == old(self).next(Instruction::SkipER(register0, register1)),
            final(self).same_setup(old(self)),
    {
        let c = self.register[register0 as usize] == self.register[register1 as usize];
        self.skip_if(c);
    }

    fn set_register_data(&mut self, register: u8, val: u8)
        requires
            register < 16,
        ensures
            final(self)@ == old(self).next(Instruction::SetRegisterD(register, val)),
            final(self).same_setup(old(self)),
    {
        self.register[register as usize] = val;
    }

    fn add_register_data(&mut self, register: u8, val: u8)
        requires
            register < 16,
        ensures
            final(self)@ == old(self).next(Instruction::AddRegisterD(register, val)),
            final(self).same_setup(old(self)),
    {
        let v = self.register[register as usize].wrapping_add(val);
        self.register[register as usize] = v;
    }

    fn set_register_register(&mut self, register0: u8, register1: u8)
        requires
            register0 < 16,
            register1 < 16,
        ensures
            final(self)@ == old(self).next(Instruction::SetRegisterR(register0, register1)),
            final(self).same_setup(old(self)),
    {
        self.register[register0 as usize] = self.register[register1 as usize];
    }

    fn binary_or(&mut self, register0: u8, register1: u8)
        requires
            register0 < 16,
            register1 < 16,
        ensures
            final(self)@ == old(self).next(Instruction::BinaryOR(register0, register1)),
            final(self).same_setup(old(self)),
    {
        let v = self.register[register0 as usize] | self.register[register1 as usize];
        self.register[register0 as usize] = v;
    }

    fn binary_and(&mut self, register0: u8, register1: u8)
        requires
            register0 < 16,
            register1 < 16,
        ensures
            final(self)@ == old(self).next(Instruction::BinaryAND(register0, register1)),
            final(self).same_setup(old(self)),
    {
        let v = self.register[register0 as usize] & self.register[register1 as usize];
        self.register[register0 as usize] = v;
    }

    fn logical_xor(&mut self, register0: u8, register1: u8)
        requires
            register0 < 16,
            register1 < 16,
        ensures
            final(self)@ == old(self).next(Instruction::LogicalXOR(register0, register1)),
            final(self).same_setup(old(self)),
    {
        let v = self.register[register0 as usize] ^ self.register[register1 as usize];
        self.register[register0 as usize] = v;
    }

    fn add_register_register(&mut self, register0: u8, register1: u8)
        requires
            register0 < 16,
            register1 < 16,
        ensures
            final(self)@ == old(self).next(Instruction::AddRegisterR(register0, register1)),
            final(self).same_setup(old(self)),
    {
        let sum = self.register[register0 as usize] as u16 + self.register[register1 as usize] as u16;
        self.register[VF] = if sum > 255 { 1 } else { 0 };
        self.register[register0 as usize] = (sum % 256) as u8;
    }

    fn subtract_x_y(&mut self, register0: u8, register1: u8)
        requires
            register0 < 16,
            register1 < 16,
        ensures
            final(self)@ == old(self).next(Instruction::SubtractXY(register0, register1)),
            final(self).same_setup(old(self)),
    {
        let vx = self.register[register0 as usize];
        let vy = self.register[register1 as usize];
        self.register[VF] = if vx > vy { 1 } else { 0 };
        self.register[register0 as usize] = vx.wrapping_sub(vy);
    }

    fn shift_right(&mut self, register0: u8, register1: u8)
        requires
            register0 < 16,
            register1 < 16,
        ensures
            final(self)@ == old(self).next(Instruction::ShiftRight(register0, register1)),
            final(self).same_setup(old(self)),
    {
        if self.config.legacy {
            let vy = self.register[register1 as usize];
            assert(vy & 1 == vy % 2 && vy >> 1 == vy / 2) by (bit_vector);
            self.register[VF] = vy & 1;
            self.register[register0 as usize] = vy >> 1;
        } else {
            self.register[VF] = self.register[register0 as usize] % 2;
            self.register[register0 as usize] = self.register[register0 as usize] / 2;
        }
    }

    fn subtract_y_x(&mut self, register0: u8, register1: u8)
        requires
            register0 < 16,
            register1 < 16,
        ensures
            final(self)@ == old(self).next(Instruction::SubtractYX(register0, register1)),
            final(self).same_setup(old(self)),
    {
        let vx = self.register[register0 as usize];
        let vy = self.register[register1 as usize];
        self.register[VF] = if vy > vx { 1 } else { 0 };
        self.register[register0 as usize] = vy.wrapping_sub(vx);
    }

    fn shift_left(&mut self, register0: u8, register1: u8)
        requires
            register0 < 16,
            register1 < 16,
        ensures
            final(self)@ == old(self).next(Instruction::ShiftLeft(register0, register1)),
            final(self).same_setup(old(self)),
    {
        if self.config.legacy {
            let vy = self.register[register1 as usize];
            assert(vy >> 7 == vy / 128 && (vy << 1) as int == (vy * 2) % 256) by (bit_vector);
            self.register[VF] = vy >> 7;
            self.register[register0 as usize] = vy << 1;
        } else {
            self.register[VF] = self.register[register0 as usize] % 2;
            self.register[register0 as usize] = self.register[register0 as usize].wrapping_mul(2);
        }
    }

    fn skip_ner(&mut self, register0: u8, register1: u8)
        requires
            register0 < 16,
            register1 < 16,
        ensures
            final(self)@ == old(self).next(Instruction::SkipNER(register0, register1)),
            final(self).same_setup(old(self)),
    {
        let c = self.register[register0 as usize] != self.register[register1 as usize];
        self.skip_if(c);
    }

    fn set_index(&mut self, val: u16)
        ensures
            final(self)@ == old(self).next(Instruction::SetIndex(val)),
            final(self).same_setup(old(self)),
    {
        self.index = val;
    }

    fn offset_jump(&mut self, register: u8, location: u16)
        requires
            register < 16,
            location < 0x1000,
        ensures
            final(self)@ == old(self).next(Instruction::OffsetJump(register, location)),
            final(self).same_setup(old(self)),
    {
        let r: usize = if self.config.legacy { register as usize } else { 0 };
        self.counter = location + self.register[r] as u16;
    }

    /// Stores `byte & modifier` in the register: `byte` is the random byte
    /// that the instruction drew.
    fn random(&mut self, register: u8, modifier: u8, byte: u8)
        requires
            register < 16,
        ensures
            Ok::<ChipState, ChipError>(final(self)@) == transition(
                old(self)@,
                old(self).legacy(),
                Instruction::Random(register, modifier),
                byte,
            ),
            final(self).same_setup(old(self)),
    {
        self.register[register as usize] = byte & modifier;
    }

    fn get_delay(&mut self, register: u8)
        requires
            register < 16,
        ensures
            final(self)@ == old(self).next(Instruction::GetDelay(register)),
            final(self).same_setup(old(self)),
    {
        self.register[register as usize] = self.delay;
    }

    fn set_delay(&mut self, register: u8)
        requires
            register < 16,
        ensures
            final(self)@ == old(self).next(Instruction::SetDelay(register)),
            final(self).same_setup(old(self)),
    {
        self.delay = self.register[register as usize];
    }

    fn add_index(&mut self, register: u8)
        requires
            register < 16,
        ensures
            final(self)@ == old(self).next(Instruction::AddIndex(register)),
            final(self).same_setup(old(self)),
    {
        self.index = self.index.wrapping_add(self.register[register as usize] as u16);
    }

    fn get_font(&mut self, register: u8)
        requires
            register < 16,
        ensures
            final(self)@ == old(self).next(Instruction::GetFont(register)),
            final(self).same_setup(old(self)),
    {
        self.index = self.register[register as usize] as u16 * FONT_STRIDE;
    }

    fn key_pressed(&mut self, register: u8) -> (r: Result<(), ChipError>)
        requires
            register < 16,
        ensures
            follows(old(self)@, final(self)@, old(self).effect(Instruction::KeyPressed(register)), r),
            final(self).same_setup(old(self)),
    {
        let key = self.register[register as usize] as usize;
        if key >= KEYBOARD_SIZE {
            return Err(ChipError::KeyOutOfRange(key));
        }
        if self.keyboard[key] {
            self.keyboard[key] = false;
            self.skip_if(true);
        }
        Ok(())
    }

    fn key_released(&mut self, register: u8) -> (r: Result<(), ChipError>)
        requires
            register < 16,
        ensures
            follows(old(self)@, final(self)@, old(self).effect(Instruction::KeyReleased(register)), r),
            final(self).same_setup(old(self)),
    {
        let key = self.register[register as usize] as usize;
        if key >= KEYBOARD_SIZE {
            return Err(ChipError::KeyOutOfRange(key));
        }
        let up = !self.keyboard[key];
        self.keyboard[key] = false;
        self.skip_if(up);
        Ok(())
    }

    fn key_wait(&mut self, register: u8)
        requires
            register < 16,
        ensures
            final(self)@ == old(self).next(Instruction::KeyWait(register)),
            final(self).same_setup(old(self)),
    {
        let mut key: usize = 0;
        while key < KEYBOARD_SIZE && !self.keyboard[key]
            invariant
                key <= KEYBOARD_SIZE,
                forall|j: int| 0 <= j < key ==> !self.keyboard@[j],
            decreases KEYBOARD_SIZE - key,
        {
            key += 1;
        }
        if key < KEYBOARD_SIZE {
            proof {
                let s = self@;
                assert(s.keys[key as int]);
                assert(s.any_key());
                let k = s.lowest_key();
                assert(k == key as int) by {
                    if k < key as int {
                        assert(!s.keys[k]);
                    } else if k > key as int {
                        assert(!s.keys[key as int]);
                    }
                }
            }
            self.keyboard[key] = false;
            self.register[register as usize] = key as u8;
        } else {
            self.counter = self.counter.wrapping_sub(INSTRUCTION_SIZE);
        }
    }

    /// Sets the sound timer; setting it from zero to a nonzero value starts
    /// the tone.
    fn set_sound(&mut self, register: u8) -> (r: Result<(), ChipError>)
        requires
            register < 16,
        ensures
            follows_io(
                old(self)@,
                final(self)@,
                old(self).io_log(),
                final(self).io_log(),
                Instruction::SetSound(register),
                old(self).effect(Instruction::SetSound(register)),
                r,
            ),
            final(self).spec_config() == old(self).spec_config(),
            !(old(self)@.sound == 0 && old(self)@.registers[register as int] > 0) ==> r is Ok
                && final(self).same_setup(old(self)),
    {
        let was = self.sound;
        let val = self.register[register as usize];
        self.sound = val;
        if was == 0 && val > 0 {
            let res = self.io.start_beep();
            self.log = Ghost(self.log@.push(IoCall::StartBeep(res)));
            match res {
                Ok(()) => Ok(()),
                Err(e) => Err(ChipError::Io(e)),
            }
        } else {
            Ok(())
        }
    }

    fn as_decimal(&mut self, register: u8) -> (r: Result<(), ChipError>)
        requires
            register < 16,
        ensures
            follows(old(self)@, final(self)@, old(self).effect(Instruction::AsDecimal(register)), r),
            final(self).same_setup(old(self)),
    {
        let at = self.index as usize;
        if at + 2 >= MEM_SIZE {
            return Err(ChipError::AddressOutOfRange);
        }
        let val = self.register[register as usize];
        self.memory[at] = val % 10;
        self.memory[at + 1] = (val / 10) % 10;
        self.memory[at + 2] = val / 100;
        Ok(())
    }

    fn save(&mut self, register: u8) -> (r: Result<(), ChipError>)
        requires
            register < 16,
        ensures
            follows(old(self)@, final(self)@, old(self).effect(Instruction::Save(register)), r),
            final(self).same_setup(old(self)),
    {
        let at = self.index as usize;
        let last = register as usize;
        if at + last >= MEM_SIZE {
            return Err(ChipError::AddressOutOfRange);
        }
        proof {
            assert(self@.memory =~= Seq::new(
                MEM_SIZE as nat,
                |a: int|
                    if at <= a < at + 0 {
                        old(self)@.registers[a - at]
                    } else {
                        old(self)@.memory[a]
                    },
            ));
        }
        for i in 0..last + 1
            invariant
                at + last < MEM_SIZE,
                last < 16,
                self.same_setup(old(self)),
                self@ == (ChipState {
                    memory: Seq::new(
                        MEM_SIZE as nat,
                        |a: int|
                            if at <= a < at + i {
                                old(self)@.registers[a - at]
                            } else {
                                old(self)@.memory[a]
                            },
                    ),
                    ..old(self)@
                }),
        {
            self.memory[at + i] = self.register[i];
            proof {
                let s = self@;
                assert(s.memory =~= Seq::new(
                    MEM_SIZE as nat,
                    |a: int|
                        if at <= a < at + i + 1 {
                            old(self)@.registers[a - at]
                        } else {
                            old(self)@.memory[a]
                        },
                ));
            }
        }
        proof {
            let t = old(self).next(Instruction::Save(register));
            assert(self@.memory =~= t.memory);
        }
        Ok(())
    }

    fn load(&mut self, register: u8) -> (r: Result<(), ChipError>)
        requires
            register < 16,
        ensures
            follows(old(self)@, final(self)@, old(self).effect(Instruction::Load(register)), r),
            final(self).same_setup(old(self)),
    {
        let at = self.index as usize;
        let last = register as usize;
        if at + last >= MEM_SIZE {
            return Err(ChipError::AddressOutOfRange);
        }
        proof {
            assert(self@.registers =~= Seq::new(
                REGISTER_COUNT as nat,
                |r: int|
                    if r < 0 {
                        old(self)@.memory[at + r]
                    } else {
                        old(self)@.registers[r]
                    },
            ));
        }
        for i in 0..last + 1
            invariant
                at + last < MEM_SIZE,
                last < 16,
                self.same_setup(old(self)),
                self@ == (ChipState {
                    registers: Seq::new(
                        REGISTER_COUNT as nat,
                        |r: int|
                            if r < i {
                                old(self)@.memory[at + r]
                            } else {
                                old(self)@.registers[r]
                            },
                    ),
                    ..old(self)@
                }),
        {
            self.register[i] = self.memory[at + i];
            proof {
                let s = self@;
                assert(s.registers =~= Seq::new(
                    REGISTER_COUNT as nat,
                    |r: int|
                        if r < i + 1 {
                            old(self)@.memory[at + r]
                        } else {
                            old(self)@.registers[r]
                        },
                ));
            }
        }
        proof {
            let t = old(self).next(Instruction::Load(register));
            assert(self@.registers =~= t.registers);
        }
        Ok(())
    }

    /// XORs the sprite of `n` rows at the index register onto the screen at
    /// `(Vx mod width, Vy mod height)`, clipping what extends past the last
    /// column or row; the flag tells whether a set pixel was cleared. The
    /// whole framebuffer is then handed to the display.
    fn draw(&mut self, xa: u8, ya: u8, n: u8) -> (r: Result<(), ChipError>)
        requires
            xa < 16,
            ya < 16,
            n < 16,
        ensures
            follows_io(
                old(self)@,
                final(self)@,
                old(self).io_log(),
                final(self).io_log(),
                Instruction::Draw(xa, ya, n),
                old(self).effect(Instruction::Draw(xa, ya, n)),
                r,
            ),
            final(self).spec_config() == old(self).spec_config(),
    {
        let x: usize = (self.register[xa as usize] % 64) as usize;
        let y: usize = (self.register[ya as usize] % 32) as usize;
        let rows: usize = if (n as usize) <= SCREEN_HEIGHT - y {
            n as usize
        } else {
            SCREEN_HEIGHT - y
        };
        let at = self.index as usize;
        if rows > 0 && at + rows > MEM_SIZE {
            return Err(ChipError::AddressOutOfRange);
        }
        let ghost s0 = self@;
        let ghost px = x as int;
        let ghost py = y as int;
        let cols: usize = if SCREEN_WIDTH - x < 8 {
            SCREEN_WIDTH - x
        } else {
            8
        };
        let mut collision = false;
        let mut r: usize = 0;
        while r < rows
            invariant
                x < SCREEN_WIDTH,
                y < SCREEN_HEIGHT,
                px == x,
                py == y,
                rows <= SCREEN_HEIGHT - y,
                rows > 0 ==> at + rows <= MEM_SIZE,
                at == s0.index,
                cols == if SCREEN_WIDTH - x < 8 { SCREEN_WIDTH - x } else { 8 },
                r <= rows,
                s0.wf(),
                self.config == old(self).config,
                self.log == old(self).log,
                self@ == (ChipState { screen: self@.screen, ..s0 }),
                forall|i: int, j: int|
                    0 <= i < SCREEN_WIDTH && 0 <= j < SCREEN_HEIGHT ==> #[trigger] self.screen@[i]@[j]
                        == (s0.screen[i][j] != drawn_upto(s0, px, py, rows as int, r as int, 0, i, j)),
                collision == exists|i: int, j: int|
                    0 <= i < SCREEN_WIDTH && 0 <= j < SCREEN_HEIGHT
                        && #[trigger] drawn_upto(s0, px, py, rows as int, r as int, 0, i, j)
                        && s0.screen[i][j],
            decreases rows - r,
        {
            let b = self.memory[at + r];
            let mut p: usize = 0;
            while p < cols
                invariant
                    x < SCREEN_WIDTH,
                    y < SCREEN_HEIGHT,
                    px == x,
                    py == y,
                    rows <= SCREEN_HEIGHT - y,
                    at + rows <= MEM_SIZE,
                    at == s0.index,
                    cols == if SCREEN_WIDTH - x < 8 { SCREEN_WIDTH - x } else { 8 },
                    r < rows,
                    p <= cols,
                    b == s0.memory[at + r],
                    s0.wf(),
                    self.config == old(self).config,
                    self.log == old(self).log,
                    self@ == (ChipState { screen: self@.screen, ..s0 }),
                    forall|i: int, j: int|
                        0 <= i < SCREEN_WIDTH && 0 <= j < SCREEN_HEIGHT ==> #[trigger] self.screen@[i]@[j]
                            == (s0.screen[i][j] != drawn_upto(s0, px, py, rows as int, r as int, p as int, i, j)),
                    collision == exists|i: int, j: int|
                        0 <= i < SCREEN_WIDTH && 0 <= j < SCREEN_HEIGHT
                            && #[trigger] drawn_upto(s0, px, py, rows as int, r as int, p as int, i, j)
                            && s0.screen[i][j],
                decreases cols - p,
            {
                let ghost ci = (x + p) as int;
                let ghost cj = (y + r) as int;
                let ghost before = collision;
                let bit = (b >> (7 - p as u8)) & 1 == 1;
                assert(bit == sprite_bit(b, p as int));
                assert(bit == s0.sprite_covers(px, py, rows as int, ci, cj));
                if bit {
                    if self.screen[x + p][y + r] {
                        self.screen[x + p][y + r] = false;
                        collision = true;
                    } else {
                        self.screen[x + p][y + r] = true;
                    }
                }
                proof {
                    assert forall|i: int, j: int|
                        #![trigger drawn_upto(s0, px, py, rows as int, r as int, p + 1, i, j)]
                        0 <= i < SCREEN_WIDTH && 0 <= j < SCREEN_HEIGHT implies
                        drawn_upto(s0, px, py, rows as int, r as int, p + 1, i, j) == (drawn_upto(
                            s0,
                            px,
                            py,
                            rows as int,
                            r as int,
                            p as int,
                            i,
                            j,
                        ) || (i == ci && j == cj && bit))
                    by {}
                    if before {
                        let (wi, wj) = choose|i: int, j: int|
                            0 <= i < SCREEN_WIDTH && 0 <= j < SCREEN_HEIGHT
                                && #[trigger] drawn_upto(s0, px, py, rows as int, r as int, p as int, i, j)
                                && s0.screen[i][j];
                        assert(drawn_upto(s0, px, py, rows as int, r as int, p + 1, wi, wj));
                    } else if collision {
                        assert(drawn_upto(s0, px, py, rows as int, r as int, p + 1, ci, cj));
                    }
                }
                p += 1;
            }
            proof {
                assert forall|i: int, j: int|
                    #![trigger drawn_upto(s0, px, py, rows as int, r + 1, 0, i, j)]
                    0 <= i < SCREEN_WIDTH && 0 <= j < SCREEN_HEIGHT implies
                    drawn_upto(s0, px, py, rows as int, r + 1, 0, i, j) == drawn_upto(
                        s0,
                        px,
                        py,
                        rows as int,
                        r as int,
                        cols as int,
                        i,
                        j,
                    )
                by {}
                if collision {
                    let (wi, wj) = choose|i: int, j: int|
                        0 <= i < SCREEN_WIDTH && 0 <= j < SCREEN_HEIGHT
                            && #[trigger] drawn_upto(s0, px, py, rows as int, r as int, cols as int, i, j)
                            && s0.screen[i][j];
                    assert(drawn_upto(s0, px, py, rows as int, r + 1, 0, wi, wj));
                }
            }
            r += 1;
        }
        self.register[VF] = if collision { 1 } else { 0 };
        proof {
            let t = old(self).next(Instruction::Draw(xa, ya, n));
            assert forall|i: int, j: int|
                0 <= i < SCREEN_WIDTH && 0 <= j < SCREEN_HEIGHT implies
                #[trigger] drawn_upto(s0, px, py, rows as int, rows as int, 0, i, j)
                    == s0.sprite_covers(px, py, rows as int, i, j)
            by {}
            assert forall|i: int| 0 <= i < SCREEN_WIDTH implies #[trigger] self@.screen[i]
                =~= s0.drawn_screen(px, py, rows as int)[i] by {}
            assert(self@.screen =~= s0.drawn_screen(px, py, rows as int));
            if collision {
                let (wi, wj) = choose|i: int, j: int|
                    0 <= i < SCREEN_WIDTH && 0 <= j < SCREEN_HEIGHT
                        && #[trigger] drawn_upto(s0, px, py, rows as int, rows as int, 0, i, j)
                        && s0.screen[i][j];
                assert(s0.sprite_covers(px, py, rows as int, wi, wj));
            } else {
                assert forall|i: int, j: int|
                    0 <= i < SCREEN_WIDTH && 0 <= j < SCREEN_HEIGHT && #[trigger] s0.sprite_covers(
                        px,
                        py,
                        rows as int,
                        i,
                        j,
                    ) implies !s0.screen[i][j] by {
                    assert(drawn_upto(s0, px, py, rows as int, rows as int, 0, i, j));
                }
            }
            assert(collision == s0.collides(px, py, rows as int));
            assert(self@ == t);
        }
        let res = self.io.update_screen(&self.screen);
        self.log = Ghost(self.log@.push(IoCall::UpdateScreen(self@.screen, res)));
        match res {
            Ok(()) => Ok(()),
            Err(e) => Err(ChipError::Io(e)),
        }
    }
}

/// Whether the draw loop has already XOR-ed pixel `(i, j)`: it is covered by
/// the sprite and lies in a row before `r`, or in row `r` left of column `p`.
spec fn drawn_upto(s0: ChipState, px: int, py: int, rows: int, r: int, p: int, i: int, j: int) -> bool {
    &&& s0.sprite_covers(px, py, rows, i, j)
    &&& (j < py + r || (j == py + r && i < px + p))
}

} // verus!
