use vstd::prelude::*;

use crate::error::ChipError;
use crate::instruction::{decode_spec, Instruction};
use crate::io::IoCall;
use crate::{
    FONT_DATA, KEYBOARD_SIZE, MEM_SIZE, PROGRAM_START, REGISTER_COUNT, SCREEN_HEIGHT, SCREEN_WIDTH, VF,
};

verus! {

/// The abstract state of the machine: what an instruction reads and writes.
pub struct ChipState {
    /// The 4096 bytes of memory.
    pub memory: Seq<u8>,
    /// The framebuffer, `screen[x][y]`.
    pub screen: Seq<Seq<bool>>,
    /// Saved return addresses, the most recent last.
    pub stack: Seq<u16>,
    /// `V0` to `VF`.
    pub registers: Seq<u8>,
    /// The delay timer.
    pub delay: u8,
    /// The sound timer.
    pub sound: u8,
    /// Which of the 16 keys are down.
    pub keys: Seq<bool>,
    /// The program counter. It is 16 bits wide: a skip or a key-wait
    /// rollback that would leave that range wraps, and a fetch outside
    /// memory faults.
    pub pc: u16,
    /// The index register `I`.
    pub index: u16,
}

/// Whether bit `p` of a sprite row is set, counting from the most
/// significant bit.
pub open spec fn sprite_bit(b: u8, p: int) -> bool {
    (b >> ((7 - p) as u8)) & 1u8 == 1u8
}

/// How many sprite rows of `n` fit below row `py` of the screen.
pub open spec fn draw_rows(py: int, n: int) -> int {
    if n <= SCREEN_HEIGHT - py {
        n
    } else {
        SCREEN_HEIGHT - py
    }
}

impl ChipState {
    /// The collections have the sizes of the machine.
    pub open spec fn wf(self) -> bool {
        &&& self.memory.len() == MEM_SIZE
        &&& self.screen.len() == SCREEN_WIDTH
        &&& forall|i: int| 0 <= i < SCREEN_WIDTH ==> (#[trigger] self.screen[i]).len() == SCREEN_HEIGHT
        &&& self.registers.len() == REGISTER_COUNT
        &&& self.keys.len() == KEYBOARD_SIZE
    }

    /// Register `i`.
    pub open spec fn reg(self, i: int) -> u8 {
        self.registers[i]
    }

    /// The state with register `i` set to `v`.
    pub open spec fn with_reg(self, i: int, v: u8) -> ChipState {
        ChipState { registers: self.registers.update(i, v), ..self }
    }

    /// The state with the flag register set to 1 when `c` holds, else 0.
    pub open spec fn with_flag(self, c: bool) -> ChipState {
        self.with_reg(VF as int, if c { 1 } else { 0 })
    }

    /// The state with the program counter moved past one instruction when
    /// `c` holds.
    pub open spec fn skip_if(self, c: bool) -> ChipState {
        if c {
            ChipState { pc: self.pc.wrapping_add(2), ..self }
        } else {
            self
        }
    }

    /// Whether the sprite of a draw at `(px, py)` with `rows` rows, read
    /// from memory at the index register, covers pixel `(i, j)`.
    pub open spec fn sprite_covers(self, px: int, py: int, rows: int, i: int, j: int) -> bool {
        &&& px <= i < px + 8
        &&& i < SCREEN_WIDTH
        &&& py <= j < py + rows
        &&& sprite_bit(self.memory[self.index + (j - py)], i - px)
    }

    /// The screen after XOR-ing such a sprite onto it.
    pub open spec fn drawn_screen(self, px: int, py: int, rows: int) -> Seq<Seq<bool>> {
        Seq::new(
            SCREEN_WIDTH as nat,
            |i: int|
                Seq::new(
                    SCREEN_HEIGHT as nat,
                    |j: int| self.screen[i][j] != self.sprite_covers(px, py, rows, i, j),
                ),
        )
    }

    /// Whether such a sprite covers a pixel that is set.
    pub open spec fn collides(self, px: int, py: int, rows: int) -> bool {
        exists|i: int, j: int|
            0 <= i < SCREEN_WIDTH && 0 <= j < SCREEN_HEIGHT && #[trigger] self.sprite_covers(
                px,
                py,
                rows,
                i,
                j,
            ) && self.screen[i][j]
    }

    /// Whether some key is down.
    pub open spec fn any_key(self) -> bool {
        exists|k: int| 0 <= k < KEYBOARD_SIZE && #[trigger] self.keys[k]
    }

    /// The lowest key that is down (meaningful when `any_key` holds).
    pub open spec fn lowest_key(self) -> int {
        choose|k: int|
            0 <= k < KEYBOARD_SIZE && #[trigger] self.keys[k] && forall|j: int|
                0 <= j < k ==> !#[trigger] self.keys[j]
    }
}

/// What executing `inst` does to a state whose program counter has already
/// moved past it. `random` is the byte that a random instruction draws;
/// `legacy` selects the historical shift and offset-jump behaviour.
pub open spec fn transition(s: ChipState, legacy: bool, inst: Instruction, random: u8) -> Result<
    ChipState,
    ChipError,
> {
    match inst {
        Instruction::Clear => Ok(
            ChipState {
                screen: Seq::new(
                    SCREEN_WIDTH as nat,
                    |i: int| Seq::new(SCREEN_HEIGHT as nat, |j: int| false),
                ),
                ..s
            },
        ),
        Instruction::Return => if s.stack.len() == 0 {
            Err(ChipError::StackUnderflow)
        } else {
            Ok(ChipState { pc: s.stack.last(), stack: s.stack.drop_last(), ..s })
        },
        Instruction::Jump(a) => Ok(ChipState { pc: a, ..s }),
        Instruction::SubRoutine(a) => Ok(ChipState { pc: a, stack: s.stack.push(s.pc), ..s }),
        Instruction::SkipED(x, nn) => Ok(s.skip_if(s.reg(x as int) == nn)),
        Instruction::SkipNED(x, nn) => Ok(s.skip_if(s.reg(x as int) != nn)),
        Instruction::SkipER(x, y) => Ok(s.skip_if(s.reg(x as int) == s.reg(y as int))),
        Instruction::SetRegisterD(x, nn) => Ok(s.with_reg(x as int, nn)),
        Instruction::AddRegisterD(x, nn) => Ok(
            s.with_reg(x as int, ((s.reg(x as int) + nn) % 256) as u8),
        ),
        Instruction::SetRegisterR(x, y) => Ok(s.with_reg(x as int, s.reg(y as int))),
        Instruction::BinaryOR(x, y) => Ok(s.with_reg(x as int, s.reg(x as int) | s.reg(y as int))),
        Instruction::BinaryAND(x, y) => Ok(s.with_reg(x as int, s.reg(x as int) & s.reg(y as int))),
        Instruction::LogicalXOR(x, y) => Ok(s.with_reg(x as int, s.reg(x as int) ^ s.reg(y as int))),
        Instruction::AddRegisterR(x, y) => {
            let sum = s.reg(x as int) + s.reg(y as int);
            Ok(s.with_flag(sum > 255).with_reg(x as int, (sum % 256) as u8))
        },
        Instruction::SubtractXY(x, y) => {
            let (vx, vy) = (s.reg(x as int), s.reg(y as int));
            Ok(s.with_flag(vx > vy).with_reg(x as int, ((vx - vy) % 256) as u8))
        },
        Instruction::SubtractYX(x, y) => {
            let (vx, vy) = (s.reg(x as int), s.reg(y as int));
            Ok(s.with_flag(vy > vx).with_reg(x as int, ((vy - vx) % 256) as u8))
        },
        Instruction::ShiftRight(x, y) => if legacy {
            let src = s.reg(y as int);
            Ok(s.with_reg(VF as int, src % 2).with_reg(x as int, src / 2))
        } else {
            let s1 = s.with_reg(VF as int, s.reg(x as int) % 2);
            Ok(s1.with_reg(x as int, s1.reg(x as int) / 2))
        },
        Instruction::ShiftLeft(x, y) => if legacy {
            let src = s.reg(y as int);
            Ok(s.with_reg(VF as int, src / 128).with_reg(x as int, ((src * 2) % 256) as u8))
        } else {
            let s1 = s.with_reg(VF as int, s.reg(x as int) % 2);
            Ok(s1.with_reg(x as int, ((s1.reg(x as int) * 2) % 256) as u8))
        },
        Instruction::SkipNER(x, y) => Ok(s.skip_if(s.reg(x as int) != s.reg(y as int))),
        Instruction::SetIndex(a) => Ok(ChipState { index: a, ..s }),
        Instruction::OffsetJump(x, a) => {
            let r = if legacy {
                x as int
            } else {
                0
            };
            Ok(ChipState { pc: (a + s.reg(r)) as u16, ..s })
        },
        Instruction::Random(x, nn) => Ok(s.with_reg(x as int, random & nn)),
        Instruction::Draw(x, y, n) => {
            let px = s.reg(x as int) as int % (SCREEN_WIDTH as int);
            let py = s.reg(y as int) as int % (SCREEN_HEIGHT as int);
            let rows = draw_rows(py, n as int);
            if rows > 0 && s.index + rows > MEM_SIZE {
                Err(ChipError::AddressOutOfRange)
            } else {
                Ok(
                    ChipState { screen: s.drawn_screen(px, py, rows), ..s }.with_flag(
                        s.collides(px, py, rows),
                    ),
                )
            }
        },
        Instruction::KeyPressed(x) => {
            let k = s.reg(x as int);
            if k >= KEYBOARD_SIZE {
                Err(ChipError::KeyOutOfRange(k as usize))
            } else if s.keys[k as int] {
                Ok(ChipState { keys: s.keys.update(k as int, false), ..s }.skip_if(true))
            } else {
                Ok(s)
            }
        },
        Instruction::KeyReleased(x) => {
            let k = s.reg(x as int);
            if k >= KEYBOARD_SIZE {
                Err(ChipError::KeyOutOfRange(k as usize))
            } else {
                Ok(ChipState { keys: s.keys.update(k as int, false), ..s }.skip_if(!s.keys[k as int]))
            }
        },
        Instruction::GetDelay(x) => Ok(s.with_reg(x as int, s.delay)),
        Instruction::KeyWait(x) => if s.any_key() {
            let k = s.lowest_key();
            Ok(ChipState { keys: s.keys.update(k, false), ..s }.with_reg(x as int, k as u8))
        } else {
            Ok(ChipState { pc: s.pc.wrapping_sub(2), ..s })
        },
        Instruction::SetDelay(x) => Ok(ChipState { delay: s.reg(x as int), ..s }),
        Instruction::SetSound(x) => Ok(ChipState { sound: s.reg(x as int), ..s }),
        Instruction::AddIndex(x) => Ok(ChipState { index: s.index.wrapping_add(s.reg(x as int) as u16), ..s }),
        Instruction::GetFont(x) => Ok(ChipState { index: (s.reg(x as int) * 5) as u16, ..s }),
        Instruction::AsDecimal(x) => {
            let v = s.reg(x as int);
            let i = s.index as int;
            if i + 2 >= MEM_SIZE {
                Err(ChipError::AddressOutOfRange)
            } else {
                Ok(
                    ChipState {
                        memory: s.memory.update(i, v % 10).update(i + 1, (v / 10) % 10).update(
                            i + 2,
                            v / 100,
                        ),
                        ..s
                    },
                )
            }
        },
        Instruction::Save(x) => {
            let i = s.index as int;
            if i + x >= MEM_SIZE {
                Err(ChipError::AddressOutOfRange)
            } else {
                Ok(
                    ChipState {
                        memory: Seq::new(
                            MEM_SIZE as nat,
                            |a: int|
                                if i <= a <= i + x {
                                    s.registers[a - i]
                                } else {
                                    s.memory[a]
                                },
                        ),
                        ..s
                    },
                )
            }
        },
        Instruction::Load(x) => {
            let i = s.index as int;
            if i + x >= MEM_SIZE {
                Err(ChipError::AddressOutOfRange)
            } else {
                Ok(
                    ChipState {
                        registers: Seq::new(
                            REGISTER_COUNT as nat,
                            |r: int|
                                if r <= x {
                                    s.memory[i + r]
                                } else {
                                    s.registers[r]
                                },
                        ),
                        ..s
                    },
                )
            }
        },
    }
}

/// `after` and `r` are what `t` prescribes for a step from `before`: the
/// new state and `Ok` where `t` succeeds, the fault and no change where it
/// fails.
pub open spec fn follows(
    before: ChipState,
    after: ChipState,
    t: Result<ChipState, ChipError>,
    r: Result<(), ChipError>,
) -> bool {
    match t {
        Ok(s) => after == s && r is Ok,
        Err(e) => after == before && r == Err::<(), ChipError>(e),
    }
}

/// How the machine reports what a boundary call returned: an error of the
/// boundary becomes `ChipError::Io`.
pub open spec fn call_result(c: IoCall) -> Result<(), ChipError> {
    match c {
        IoCall::UpdateScreen(_, res) => unit_result(res),
        IoCall::StartBeep(res) => unit_result(res),
        IoCall::EndBeep(res) => unit_result(res),
        IoCall::GetKey(res) => match res {
            Ok(_) => Ok(()),
            Err(e) => Err(ChipError::Io(e)),
        },
    }
}

/// `Ok` stays `Ok`; an error of the boundary becomes `ChipError::Io`.
pub open spec fn unit_result(res: Result<(), std::io::Error>) -> Result<(), ChipError> {
    match res {
        Ok(_) => Ok(()),
        Err(e) => Err(ChipError::Io(e)),
    }
}

/// `log1` begins with the calls of `log0`: calls are only ever added.
pub open spec fn extends(log0: Seq<IoCall>, log1: Seq<IoCall>) -> bool {
    log1.len() >= log0.len() && log1.subrange(0, log0.len() as int) == log0
}

/// `log1` is `log0` with exactly one more boundary call at its end.
pub open spec fn one_more_call(log0: Seq<IoCall>, log1: Seq<IoCall>) -> bool {
    log1.len() == log0.len() + 1 && log1 == log0.push(log1.last())
}

/// `after`, the boundary calls `log1` and `r` are what `t` prescribes for
/// executing `inst` from `before` with calls `log0` made so far. A fault
/// changes nothing and makes no call. Otherwise the state becomes the
/// transition's; an instruction that calls the boundary makes exactly one
/// call (a draw hands the display the new framebuffer, a sound write that
/// starts the tone calls `start_beep`) and returns what that call returned;
/// any other makes none and returns `Ok`.
pub open spec fn follows_io(
    before: ChipState,
    after: ChipState,
    log0: Seq<IoCall>,
    log1: Seq<IoCall>,
    inst: Instruction,
    t: Result<ChipState, ChipError>,
    r: Result<(), ChipError>,
) -> bool {
    match t {
        Err(e) => after == before && log1 == log0 && r == Err::<(), ChipError>(e),
        Ok(s) => after == s && if calls_io(before, inst) {
            &&& one_more_call(log0, log1)
            &&& inst is Draw ==> log1.last() is UpdateScreen && log1.last()->UpdateScreen_0
                == s.screen
            &&& inst is SetSound ==> log1.last() is StartBeep
            &&& r == call_result(log1.last())
        } else {
            log1 == log0 && r is Ok
        },
    }
}

/// Whether executing `inst` from `before` calls the IO boundary: a draw
/// always does, a sound-timer write does when it starts the tone.
pub open spec fn calls_io(before: ChipState, inst: Instruction) -> bool {
    ||| inst is Draw
    ||| inst matches Instruction::SetSound(x) && before.sound == 0 && before.reg(x as int) > 0
}

/// `after`, the boundary calls `log1` and `r` are a possible outcome of
/// executing `inst` from `before` with calls `log0` made so far: exactly as
/// `follows_io` says for an instruction that draws no random byte; for one
/// that does, the transition for some byte, with no call and `Ok`.
pub open spec fn executes(
    before: ChipState,
    after: ChipState,
    log0: Seq<IoCall>,
    log1: Seq<IoCall>,
    legacy: bool,
    inst: Instruction,
    r: Result<(), ChipError>,
) -> bool {
    &&& inst !is Random ==> follows_io(
        before,
        after,
        log0,
        log1,
        inst,
        transition(before, legacy, inst, 0),
        r,
    )
    &&& inst is Random ==> r is Ok && log1 == log0 && exists|b: u8|
        transition(before, legacy, inst, b) == Ok::<ChipState, ChipError>(after)
}

impl ChipState {
    /// The state right after loading `program`: the font at address 0, the
    /// program at the load address, everything else zero, the keys up and
    /// the program counter at the load address.
    pub open spec fn initial(program: Seq<u8>) -> ChipState {
        ChipState {
            memory: Seq::new(
                MEM_SIZE as nat,
                |a: int|
                    if a < FONT_DATA@.len() {
                        FONT_DATA@[a]
                    } else if PROGRAM_START <= a < PROGRAM_START + program.len() {
                        program[a - PROGRAM_START]
                    } else {
                        0
                    },
            ),
            screen: Seq::new(
                SCREEN_WIDTH as nat,
                |i: int| Seq::new(SCREEN_HEIGHT as nat, |j: int| false),
            ),
            stack: Seq::empty(),
            registers: Seq::new(REGISTER_COUNT as nat, |r: int| 0u8),
            delay: 0,
            sound: 0,
            keys: Seq::new(KEYBOARD_SIZE as nat, |k: int| false),
            pc: PROGRAM_START as u16,
            index: 0,
        }
    }

    /// Whether an instruction word can be fetched at the program counter.
    pub open spec fn can_fetch(self) -> bool {
        self.pc + 1 < MEM_SIZE
    }

    /// The instruction word at the program counter, high byte first.
    pub open spec fn word_at_pc(self) -> u16 {
        (self.memory[self.pc as int] * 256 + self.memory[self.pc + 1]) as u16
    }

    /// The state with the program counter moved past the fetched word.
    pub open spec fn fetched(self) -> ChipState {
        ChipState { pc: (self.pc + 2) as u16, ..self }
    }

    /// The state after one timer tick: each nonzero timer counts down by one.
    pub open spec fn ticked(self) -> ChipState {
        ChipState {
            delay: if self.delay > 0 {
                (self.delay - 1) as u8
            } else {
                0
            },
            sound: if self.sound > 0 {
                (self.sound - 1) as u8
            } else {
                0
            },
            ..self
        }
    }

    /// Whether a tick brings the sound timer to zero, which ends the tone.
    pub open spec fn tick_ends_beep(self) -> bool {
        self.sound == 1
    }
}

/// `after`, the calls `log1` and `r` are a possible outcome of one timer
/// tick from `before` with calls `log0` made so far: both timers count
/// down; the tick that brings the sound timer to zero calls `end_beep` once
/// and returns what it returned; any other tick makes no call and returns
/// `Ok`.
pub open spec fn ticks(
    before: ChipState,
    after: ChipState,
    log0: Seq<IoCall>,
    log1: Seq<IoCall>,
    r: Result<(), ChipError>,
) -> bool {
    &&& after == before.ticked()
    &&& if before.tick_ends_beep() {
        &&& one_more_call(log0, log1)
        &&& log1.last() is EndBeep
        &&& r == call_result(log1.last())
    } else {
        log1 == log0 && r is Ok
    }
}

/// `after`, the calls `log1` and `r` are a possible outcome of one
/// fetch-decode-execute cycle from `before`: a fetch past the end of memory
/// faults with no change; a word outside the opcode table faults after the
/// counter has moved past it; any other word executes. Faults make no call.
pub open spec fn steps(
    before: ChipState,
    after: ChipState,
    log0: Seq<IoCall>,
    log1: Seq<IoCall>,
    legacy: bool,
    r: Result<(), ChipError>,
) -> bool {
    if !before.can_fetch() {
        r == Err::<(), ChipError>(ChipError::AddressOutOfRange) && after == before && log1 == log0
    } else {
        match decode_spec(before.word_at_pc()) {
            None => r == Err::<(), ChipError>(ChipError::Decode(before.word_at_pc())) && after
                == before.fetched() && log1 == log0,
            Some(i) => executes(before.fetched(), after, log0, log1, legacy, i, r),
        }
    }
}

/// A possible outcome of merging the polled key change `event` into the
/// keypad and then running one step: a key number outside the keypad is
/// refused with no change and no call.
pub open spec fn keyed_step(
    before: ChipState,
    after: ChipState,
    log0: Seq<IoCall>,
    log1: Seq<IoCall>,
    legacy: bool,
    event: Option<(usize, bool)>,
    r: Result<(), ChipError>,
) -> bool {
    match event {
        None => steps(before, after, log0, log1, legacy, r),
        Some((k, pressed)) => if k >= KEYBOARD_SIZE {
            r == Err::<(), ChipError>(ChipError::KeyOutOfRange(k)) && after == before && log1
                == log0
        } else {
            steps(
                ChipState { keys: before.keys.update(k as int, pressed), ..before },
                after,
                log0,
                log1,
                legacy,
                r,
            )
        },
    }
}

/// A possible outcome of `k` rounds of a key poll followed by a keyed step
/// on what the poll returned, from `s` with calls `log0` made so far. Each
/// round begins with exactly one `get_key` call; a failed poll ends the
/// batch with that error and nothing run; a failed step ends it where the
/// step left the state; otherwise the remaining rounds run from the new
/// state.
pub open spec fn batch(
    s: ChipState,
    t: ChipState,
    legacy: bool,
    k: nat,
    log0: Seq<IoCall>,
    log1: Seq<IoCall>,
    r: Result<(), ChipError>,
) -> bool
    decreases k,
{
    if k == 0 {
        t == s && log1 == log0 && r is Ok
    } else {
        let poll = log1[log0.len() as int];
        let polled = log0.push(poll);
        &&& log1.len() > log0.len()
        &&& poll is GetKey
        &&& match poll->GetKey_0 {
            Err(e) => t == s && log1 == polled && r == Err::<(), ChipError>(ChipError::Io(e)),
            Ok(event) => exists|mid: ChipState, mlog: Seq<IoCall>, r1: Result<(), ChipError>|
                #[trigger] keyed_step(s, mid, polled, mlog, legacy, event, r1) && if r1 is Ok {
                    batch(mid, t, legacy, (k - 1) as nat, mlog, log1, r)
                } else {
                    t == mid && log1 == mlog && r == r1
                },
        }
    }
}

} // verus!
