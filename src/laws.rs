use vstd::prelude::*;

use crate::instruction::Instruction;
use crate::state::{draw_rows, transition, ChipState};
use crate::{MEM_SIZE, REGISTER_COUNT, SCREEN_HEIGHT, SCREEN_WIDTH, VF};

verus! {

/// Whether the sprite that `Dxyn` draws from `s` covers pixel `(i, j)`.
pub open spec fn draw_covers(s: ChipState, x: u8, y: u8, n: u8, i: int, j: int) -> bool {
    let px = s.reg(x as int) as int % (SCREEN_WIDTH as int);
    let py = s.reg(y as int) as int % (SCREEN_HEIGHT as int);
    s.sprite_covers(px, py, draw_rows(py, n as int), i, j)
}

/// Drawing the same sprite twice at the same place restores the screen. The
/// first draw reports a collision exactly when the sprite covers a set
/// pixel, the second exactly when it covers a pixel that was clear before
/// the first; so on a clear patch of screen the first draw reports none and
/// the second one does, for any sprite that lights a pixel. The coordinates
/// stay the same only when they are not read from the flag register.
pub proof fn lemma_draw_twice(s: ChipState, legacy: bool, x: u8, y: u8, n: u8, b1: u8, b2: u8)
    requires
        s.wf(),
        x < VF,
        y < VF,
        n < 16,
        transition(s, legacy, Instruction::Draw(x, y, n), b1) is Ok,
    ensures
        ({
            let s1 = transition(s, legacy, Instruction::Draw(x, y, n), b1)->Ok_0;
            let t2 = transition(s1, legacy, Instruction::Draw(x, y, n), b2);
            &&& t2 is Ok
            &&& t2->Ok_0.screen == s.screen
            &&& (s1.reg(VF as int) == 1) == (exists|i: int, j: int|
                0 <= i < SCREEN_WIDTH && 0 <= j < SCREEN_HEIGHT && #[trigger] draw_covers(
                    s,
                    x,
                    y,
                    n,
                    i,
                    j,
                ) && s.screen[i][j])
            &&& (t2->Ok_0.reg(VF as int) == 1) == (exists|i: int, j: int|
                0 <= i < SCREEN_WIDTH && 0 <= j < SCREEN_HEIGHT && #[trigger] draw_covers(
                    s,
                    x,
                    y,
                    n,
                    i,
                    j,
                ) && !s.screen[i][j])
            &&& (forall|i: int, j: int|
                0 <= i < SCREEN_WIDTH && 0 <= j < SCREEN_HEIGHT && #[trigger] draw_covers(
                    s,
                    x,
                    y,
                    n,
                    i,
                    j,
                ) ==> !s.screen[i][j]) ==> s1.reg(VF as int) == 0 && ((exists|i: int, j: int|
                0 <= i < SCREEN_WIDTH && 0 <= j < SCREEN_HEIGHT && #[trigger] draw_covers(
                    s,
                    x,
                    y,
                    n,
                    i,
                    j,
                )) ==> t2->Ok_0.reg(VF as int) == 1)
        }),
{
    let px = s.reg(x as int) as int % (SCREEN_WIDTH as int);
    let py = s.reg(y as int) as int % (SCREEN_HEIGHT as int);
    let rows = draw_rows(py, n as int);
    let s1 = transition(s, legacy, Instruction::Draw(x, y, n), b1)->Ok_0;
    assert(s1.reg(x as int) == s.reg(x as int));
    assert(s1.reg(y as int) == s.reg(y as int));
    assert forall|i: int, j: int| #[trigger] s1.sprite_covers(px, py, rows, i, j) == s.sprite_covers(px, py, rows, i, j) by {}
    let t2 = transition(s1, legacy, Instruction::Draw(x, y, n), b2);
    let s2 = t2->Ok_0;
    assert forall|i: int| 0 <= i < SCREEN_WIDTH implies #[trigger] s2.screen[i] =~= s.screen[i] by {}
    assert(s2.screen =~= s.screen);
    assert forall|i: int, j: int| #[trigger] draw_covers(s, x, y, n, i, j) == s.sprite_covers(px, py, rows, i, j) by {}
    if s1.collides(px, py, rows) {
        let (wi, wj) = choose|i: int, j: int|
            0 <= i < SCREEN_WIDTH && 0 <= j < SCREEN_HEIGHT && #[trigger] s1.sprite_covers(px, py, rows, i, j)
                && s1.screen[i][j];
        assert(draw_covers(s, x, y, n, wi, wj) && !s.screen[wi][wj]);
    }
    if s.collides(px, py, rows) {
        let (wi, wj) = choose|i: int, j: int|
            0 <= i < SCREEN_WIDTH && 0 <= j < SCREEN_HEIGHT && #[trigger] s.sprite_covers(px, py, rows, i, j)
                && s.screen[i][j];
        assert(draw_covers(s, x, y, n, wi, wj));
    }
    assert((exists|i: int, j: int|
        0 <= i < SCREEN_WIDTH && 0 <= j < SCREEN_HEIGHT && #[trigger] draw_covers(s, x, y, n, i, j)
            && !s.screen[i][j]) ==> s1.collides(px, py, rows)) by {
        if exists|i: int, j: int|
            0 <= i < SCREEN_WIDTH && 0 <= j < SCREEN_HEIGHT && #[trigger] draw_covers(s, x, y, n, i, j)
                && !s.screen[i][j] {
            let (wi, wj) = choose|i: int, j: int|
                0 <= i < SCREEN_WIDTH && 0 <= j < SCREEN_HEIGHT && #[trigger] draw_covers(s, x, y, n, i, j)
                    && !s.screen[i][j];
            assert(s1.sprite_covers(px, py, rows, wi, wj) && s1.screen[wi][wj]);
        }
    }
    assert((exists|i: int, j: int|
        0 <= i < SCREEN_WIDTH && 0 <= j < SCREEN_HEIGHT && #[trigger] draw_covers(s, x, y, n, i, j)
            && s.screen[i][j]) ==> s.collides(px, py, rows)) by {
        if exists|i: int, j: int|
            0 <= i < SCREEN_WIDTH && 0 <= j < SCREEN_HEIGHT && #[trigger] draw_covers(s, x, y, n, i, j)
                && s.screen[i][j] {
            let (wi, wj) = choose|i: int, j: int|
                0 <= i < SCREEN_WIDTH && 0 <= j < SCREEN_HEIGHT && #[trigger] draw_covers(s, x, y, n, i, j)
                    && s.screen[i][j];
            assert(s.sprite_covers(px, py, rows, wi, wj));
        }
    }
}

/// Storing `V0..=Vx` and loading them back from the same place restores
/// them, whatever the registers were changed to in between.
pub proof fn lemma_save_load_round_trip(
    s: ChipState,
    legacy: bool,
    x: u8,
    changed: Seq<u8>,
    b1: u8,
    b2: u8,
)
    requires
        s.wf(),
        x < 16,
        s.index + x < MEM_SIZE,
        changed.len() == REGISTER_COUNT,
    ensures
        ({
            let t1 = transition(s, legacy, Instruction::Save(x), b1);
            let t2 = transition(
                ChipState { registers: changed, ..t1->Ok_0 },
                legacy,
                Instruction::Load(x),
                b2,
            );
            &&& t1 is Ok
            &&& t2 is Ok
            &&& forall|r: int| 0 <= r <= x ==> #[trigger] t2->Ok_0.registers[r] == s.registers[r]
        }),
{
}

/// A key wait with no key down leaves the program counter where it was
/// before the fetch, so the same instruction runs again.
pub proof fn lemma_wait_key_holds_pc(s: ChipState, legacy: bool, x: u8, b: u8)
    requires
        s.wf(),
        x < 16,
        s.can_fetch(),
        !s.any_key(),
    ensures
        transition(s.fetched(), legacy, Instruction::KeyWait(x), b) matches Ok(t) && t.pc == s.pc,
{
}

} // verus!
