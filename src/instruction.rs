use vstd::prelude::*;

use crate::error::ChipError;

verus! {

/// One decoded instruction. `x` and `y` name registers, `n` is a 4-bit
/// immediate, `nn` an 8-bit immediate and addresses are 12 bits wide.
#[derive(Debug, Clone, Copy, PartialEq, Eq, Structural)]
pub enum Instruction {
    /// `00E0`: clear the screen.
    Clear,
    /// `00EE`: return from a subroutine.
    Return,
    /// `1nnn`: jump to `nnn`.
    Jump(u16),
    /// `2nnn`: call the subroutine at `nnn`.
    SubRoutine(u16),
    /// `3xnn`: skip the next instruction if `Vx == nn`.
    SkipED(u8, u8),
    /// `4xnn`: skip the next instruction if `Vx != nn`.
    SkipNED(u8, u8),
    /// `5xy0`: skip the next instruction if `Vx == Vy`.
    SkipER(u8, u8),
    /// `6xnn`: `Vx = nn`.
    SetRegisterD(u8, u8),
    /// `7xnn`: `Vx += nn`, wrapping, flag untouched.
    AddRegisterD(u8, u8),
    /// `8xy0`: `Vx = Vy`.
    SetRegisterR(u8, u8),
    /// `8xy1`: `Vx |= Vy`.
    BinaryOR(u8, u8),
    /// `8xy2`: `Vx &= Vy`.
    BinaryAND(u8, u8),
    /// `8xy3`: `Vx ^= Vy`.
    LogicalXOR(u8, u8),
    /// `8xy4`: `Vx += Vy` with carry into the flag.
    AddRegisterR(u8, u8),
    /// `8xy5`: `Vx -= Vy`, flag set when `Vx > Vy`.
    SubtractXY(u8, u8),
    /// `8xy6`: shift right.
    ShiftRight(u8, u8),
    /// `8xy7`: `Vx = Vy - Vx`, flag set when `Vy > Vx`.
    SubtractYX(u8, u8),
    /// `8xyE`: shift left.
    ShiftLeft(u8, u8),
    /// `9xy0`: skip the next instruction if `Vx != Vy`.
    SkipNER(u8, u8),
    /// `Annn`: `I = nnn`.
    SetIndex(u16),
    /// `Bxnn`: jump to `nnn` plus a register.
    OffsetJump(u8, u16),
    /// `Cxnn`: `Vx = random & nn`.
    Random(u8, u8),
    /// `Dxyn`: draw an `n`-row sprite at `(Vx, Vy)`.
    Draw(u8, u8, u8),
    /// `Ex9E`: skip the next instruction if key `Vx` is down.
    KeyPressed(u8),
    /// `ExA1`: skip the next instruction if key `Vx` is up.
    KeyReleased(u8),
    /// `Fx07`: `Vx = delay timer`.
    GetDelay(u8),
    /// `Fx0A`: wait for a key and store it in `Vx`.
    KeyWait(u8),
    /// `Fx15`: `delay timer = Vx`.
    SetDelay(u8),
    /// `Fx18`: `sound timer = Vx`.
    SetSound(u8),
    /// `Fx1E`: `I += Vx`, wrapping at 16 bits.
    AddIndex(u8),
    /// `Fx29`: `I` = address of the glyph for `Vx`.
    GetFont(u8),
    /// `Fx33`: store the decimal digits of `Vx` at `I`.
    AsDecimal(u8),
    /// `Fx55`: store `V0..=Vx` at `I`.
    Save(u8),
    /// `Fx65`: load `V0..=Vx` from `I`.
    Load(u8),
}

/// The top nibble of a word.
pub open spec fn op_of(w: u16) -> int {
    w as int / 0x1000
}

/// The second nibble of a word.
pub open spec fn x_of(w: u16) -> int {
    (w as int / 0x100) % 0x10
}

/// The third nibble of a word.
pub open spec fn y_of(w: u16) -> int {
    (w as int / 0x10) % 0x10
}

/// The bottom nibble of a word.
pub open spec fn n_of(w: u16) -> int {
    w as int % 0x10
}

/// The bottom byte of a word.
pub open spec fn nn_of(w: u16) -> int {
    w as int % 0x100
}

/// The bottom twelve bits of a word.
pub open spec fn nnn_of(w: u16) -> int {
    w as int % 0x1000
}

/// The word made of four nibbles, most significant first.
pub open spec fn word(a: int, b: int, c: int, d: int) -> int {
    a * 0x1000 + b * 0x100 + c * 0x10 + d
}

/// The word with top nibble `a`, register nibble `x` and bottom byte `nn`.
pub open spec fn word_xnn(a: int, x: int, nn: int) -> int {
    word(a, x, nn / 0x10, nn % 0x10)
}

/// The word with top nibble `a` and address `nnn`.
pub open spec fn word_nnn(a: int, nnn: int) -> int {
    word(a, nnn / 0x100, (nnn / 0x10) % 0x10, nnn % 0x10)
}

/// What a word decodes to: the opcode table, matched on the top nibble and,
/// where the table needs them, on the other nibbles. `None` for a word that
/// is in no row of the table.
pub open spec fn decode_spec(w: u16) -> Option<Instruction> {
    let op = op_of(w);
    let x = x_of(w);
    let y = y_of(w);
    let n = n_of(w);
    let xr = x as u8;
    let yr = y as u8;
    let nn = nn_of(w) as u8;
    let nnn = nnn_of(w) as u16;
    if op == 0 && x == 0 && y == 0xE && n == 0 {
        Some(Instruction::Clear)
    } else if op == 0 && x == 0 && y == 0xE && n == 0xE {
        Some(Instruction::Return)
    } else if op == 1 {
        Some(Instruction::Jump(nnn))
    } else if op == 2 {
        Some(Instruction::SubRoutine(nnn))
    } else if op == 3 {
        Some(Instruction::SkipED(xr, nn))
    } else if op == 4 {
        Some(Instruction::SkipNED(xr, nn))
    } else if op == 5 && n == 0 {
        Some(Instruction::SkipER(xr, yr))
    } else if op == 6 {
        Some(Instruction::SetRegisterD(xr, nn))
    } else if op == 7 {
        Some(Instruction::AddRegisterD(xr, nn))
    } else if op == 8 && n == 0 {
        Some(Instruction::SetRegisterR(xr, yr))
    } else if op == 8 && n == 1 {
        Some(Instruction::BinaryOR(xr, yr))
    } else if op == 8 && n == 2 {
        Some(Instruction::BinaryAND(xr, yr))
    } else if op == 8 && n == 3 {
        Some(Instruction::LogicalXOR(xr, yr))
    } else if op == 8 && n == 4 {
        Some(Instruction::AddRegisterR(xr, yr))
    } else if op == 8 && n == 5 {
        Some(Instruction::SubtractXY(xr, yr))
    } else if op == 8 && n == 6 {
        Some(Instruction::ShiftRight(xr, yr))
    } else if op == 8 && n == 7 {
        Some(Instruction::SubtractYX(xr, yr))
    } else if op == 8 && n == 0xE {
        Some(Instruction::ShiftLeft(xr, yr))
    } else if op == 9 && n == 0 {
        Some(Instruction::SkipNER(xr, yr))
    } else if op == 0xA {
        Some(Instruction::SetIndex(nnn))
    } else if op == 0xB {
        Some(Instruction::OffsetJump(xr, nnn))
    } else if op == 0xC {
        Some(Instruction::Random(xr, nn))
    } else if op == 0xD {
        Some(Instruction::Draw(xr, yr, n as u8))
    } else if op == 0xE && y == 9 && n == 0xE {
        Some(Instruction::KeyPressed(xr))
    } else if op == 0xE && y == 0xA && n == 1 {
        Some(Instruction::KeyReleased(xr))
    } else if op == 0xF && y == 0 && n == 7 {
        Some(Instruction::GetDelay(xr))
    } else if op == 0xF && y == 0 && n == 0xA {
        Some(Instruction::KeyWait(xr))
    } else if op == 0xF && y == 1 && n == 5 {
        Some(Instruction::SetDelay(xr))
    } else if op == 0xF && y == 1 && n == 8 {
        Some(Instruction::SetSound(xr))
    } else if op == 0xF && y == 1 && n == 0xE {
        Some(Instruction::AddIndex(xr))
    } else if op == 0xF && y == 2 && n == 9 {
        Some(Instruction::GetFont(xr))
    } else if op == 0xF && y == 3 && n == 3 {
        Some(Instruction::AsDecimal(xr))
    } else if op == 0xF && y == 5 && n == 5 {
        Some(Instruction::Save(xr))
    } else if op == 0xF && y == 6 && n == 5 {
        Some(Instruction::Load(xr))
    } else {
        None
    }
}

impl Instruction {
    /// Every field fits the nibble or the 12-bit address it was decoded
    /// from.
    pub open spec fn wf(self) -> bool {
        match self {
            Instruction::Clear | Instruction::Return => true,
            Instruction::Jump(a) | Instruction::SubRoutine(a) | Instruction::SetIndex(a) => a
                < 0x1000,
            Instruction::SkipED(x, _)
            | Instruction::SkipNED(x, _)
            | Instruction::SetRegisterD(x, _)
            | Instruction::AddRegisterD(x, _)
            | Instruction::Random(x, _) => x < 16,
            Instruction::SkipER(x, y)
            | Instruction::SetRegisterR(x, y)
            | Instruction::BinaryOR(x, y)
            | Instruction::BinaryAND(x, y)
            | Instruction::LogicalXOR(x, y)
            | Instruction::AddRegisterR(x, y)
            | Instruction::SubtractXY(x, y)
            | Instruction::ShiftRight(x, y)
            | Instruction::SubtractYX(x, y)
            | Instruction::ShiftLeft(x, y)
            | Instruction::SkipNER(x, y) => x < 16 && y < 16,
            Instruction::OffsetJump(x, a) => x < 16 && a < 0x1000,
            Instruction::Draw(x, y, n) => x < 16 && y < 16 && n < 16,
            Instruction::KeyPressed(x)
            | Instruction::KeyReleased(x)
            | Instruction::GetDelay(x)
            | Instruction::KeyWait(x)
            | Instruction::SetDelay(x)
            | Instruction::SetSound(x)
            | Instruction::AddIndex(x)
            | Instruction::GetFont(x)
            | Instruction::AsDecimal(x)
            | Instruction::Save(x)
            | Instruction::Load(x) => x < 16,
        }
    }

    /// A well-formed instruction that some word decodes to: beyond `wf`, the
    /// register of an offset jump is the top nibble of its address, as both
    /// come from the same bits of `Bnnn`.
    pub open spec fn in_table(self) -> bool {
        &&& self.wf()
        &&& self matches Instruction::OffsetJump(x, a) ==> x as int == a as int / 0x100
    }

    /// The row of the opcode table that this instruction stands for: the
    /// word it is written as.
    pub open spec fn encode(self) -> int {
        match self {
            Instruction::Clear => 0x00E0,
            Instruction::Return => 0x00EE,
            Instruction::Jump(a) => word_nnn(1, a as int),
            Instruction::SubRoutine(a) => word_nnn(2, a as int),
            Instruction::SkipED(x, nn) => word_xnn(3, x as int, nn as int),
            Instruction::SkipNED(x, nn) => word_xnn(4, x as int, nn as int),
            Instruction::SkipER(x, y) => word(5, x as int, y as int, 0),
            Instruction::SetRegisterD(x, nn) => word_xnn(6, x as int, nn as int),
            Instruction::AddRegisterD(x, nn) => word_xnn(7, x as int, nn as int),
            Instruction::SetRegisterR(x, y) => word(8, x as int, y as int, 0),
            Instruction::BinaryOR(x, y) => word(8, x as int, y as int, 1),
            Instruction::BinaryAND(x, y) => word(8, x as int, y as int, 2),
            Instruction::LogicalXOR(x, y) => word(8, x as int, y as int, 3),
            Instruction::AddRegisterR(x, y) => word(8, x as int, y as int, 4),
            Instruction::SubtractXY(x, y) => word(8, x as int, y as int, 5),
            Instruction::ShiftRight(x, y) => word(8, x as int, y as int, 6),
            Instruction::SubtractYX(x, y) => word(8, x as int, y as int, 7),
            Instruction::ShiftLeft(x, y) => word(8, x as int, y as int, 0xE),
            Instruction::SkipNER(x, y) => word(9, x as int, y as int, 0),
            Instruction::SetIndex(a) => word_nnn(0xA, a as int),
            Instruction::OffsetJump(_, a) => word_nnn(0xB, a as int),
            Instruction::Random(x, nn) => word_xnn(0xC, x as int, nn as int),
            Instruction::Draw(x, y, n) => word(0xD, x as int, y as int, n as int),
            Instruction::KeyPressed(x) => word(0xE, x as int, 9, 0xE),
            Instruction::KeyReleased(x) => word(0xE, x as int, 0xA, 1),
            Instruction::GetDelay(x) => word(0xF, x as int, 0, 7),
            Instruction::KeyWait(x) => word(0xF, x as int, 0, 0xA),
            Instruction::SetDelay(x) => word(0xF, x as int, 1, 5),
            Instruction::SetSound(x) => word(0xF, x as int, 1, 8),
            Instruction::AddIndex(x) => word(0xF, x as int, 1, 0xE),
            Instruction::GetFont(x) => word(0xF, x as int, 2, 9),
            Instruction::AsDecimal(x) => word(0xF, x as int, 3, 3),
            Instruction::Save(x) => word(0xF, x as int, 5, 5),
            Instruction::Load(x) => word(0xF, x as int, 6, 5),
        }
    }
}

/// The nibble fields that the decoder extracts with masks and shifts are
/// the arithmetic fields of the word.
proof fn lemma_fields(w: u16)
    ensures
        ((w & 0xF000) >> 12) as int == op_of(w),
        ((w & 0x0F00) >> 8) as int == x_of(w),
        ((w & 0x00F0) >> 4) as int == y_of(w),
        (w & 0x000F) as int == n_of(w),
        (w & 0x00FF) as int == nn_of(w),
        (w & 0x0FFF) as int == nnn_of(w),
{
    assert(((w & 0xF000) >> 12) == w / 0x1000) by (bit_vector);
    assert(((w & 0x0F00) >> 8) == (w / 0x100) % 0x10) by (bit_vector);
    assert(((w & 0x00F0) >> 4) == (w / 0x10) % 0x10) by (bit_vector);
    assert((w & 0x000F) == w % 0x10) by (bit_vector);
    assert((w & 0x00FF) == w % 0x100) by (bit_vector);
    assert((w & 0x0FFF) == w % 0x1000) by (bit_vector);
}

/// A word built from four nibbles gives those nibbles back as its fields.
proof fn lemma_word_fields(a: int, b: int, c: int, d: int)
    requires
        0 <= a < 16,
        0 <= b < 16,
        0 <= c < 16,
        0 <= d < 16,
    ensures
        0 <= word(a, b, c, d) < 0x10000,
        op_of(word(a, b, c, d) as u16) == a,
        x_of(word(a, b, c, d) as u16) == b,
        y_of(word(a, b, c, d) as u16) == c,
        n_of(word(a, b, c, d) as u16) == d,
        nn_of(word(a, b, c, d) as u16) == c * 0x10 + d,
        nnn_of(word(a, b, c, d) as u16) == b * 0x100 + c * 0x10 + d,
{
    let w = word(a, b, c, d);
    assert(w / 0x1000 == a) by (nonlinear_arith)
        requires w == a * 0x1000 + b * 0x100 + c * 0x10 + d, 0 <= b < 16, 0 <= c < 16, 0 <= d < 16;
    assert(w / 0x100 == a * 0x10 + b) by (nonlinear_arith)
        requires w == a * 0x1000 + b * 0x100 + c * 0x10 + d, 0 <= c < 16, 0 <= d < 16;
    assert((a * 0x10 + b) % 0x10 == b) by (nonlinear_arith)
        requires 0 <= a, 0 <= b < 16;
    assert(w / 0x10 == (a * 0x100 + b * 0x10 + c)) by (nonlinear_arith)
        requires w == a * 0x1000 + b * 0x100 + c * 0x10 + d, 0 <= d < 16;
    assert((a * 0x100 + b * 0x10 + c) % 0x10 == c) by (nonlinear_arith)
        requires 0 <= a, 0 <= b, 0 <= c < 16;
    assert(w % 0x10 == d) by (nonlinear_arith)
        requires w == a * 0x1000 + b * 0x100 + c * 0x10 + d, 0 <= a, 0 <= b, 0 <= c, 0 <= d < 16;
    assert(w % 0x100 == c * 0x10 + d) by (nonlinear_arith)
        requires w == a * 0x1000 + b * 0x100 + c * 0x10 + d, 0 <= a, 0 <= b, 0 <= c < 16, 0 <= d < 16;
    assert(w % 0x1000 == b * 0x100 + c * 0x10 + d) by (nonlinear_arith)
        requires w == a * 0x1000 + b * 0x100 + c * 0x10 + d, 0 <= a, 0 <= b < 16, 0 <= c < 16, 0 <= d < 16;
}

/// Any word is the word of its four nibbles.
proof fn lemma_word_split(w: u16)
    ensures
        0 <= op_of(w) < 16,
        0 <= x_of(w) < 16,
        0 <= y_of(w) < 16,
        0 <= n_of(w) < 16,
        w as int == word(op_of(w), x_of(w), y_of(w), n_of(w)),
        nn_of(w) == y_of(w) * 0x10 + n_of(w),
        nnn_of(w) == x_of(w) * 0x100 + y_of(w) * 0x10 + n_of(w),
{
    let v = w as int;
    assert(v == (v / 0x1000) * 0x1000 + ((v / 0x100) % 0x10) * 0x100 + ((v / 0x10) % 0x10) * 0x10 + v % 0x10)
        by (nonlinear_arith) requires 0 <= v < 0x10000;
    assert(v % 0x100 == ((v / 0x10) % 0x10) * 0x10 + v % 0x10) by (nonlinear_arith) requires 0 <= v;
    assert(v % 0x1000 == ((v / 0x100) % 0x10) * 0x100 + ((v / 0x10) % 0x10) * 0x10 + v % 0x10)
        by (nonlinear_arith) requires 0 <= v;
    assert(v / 0x1000 < 16) by (nonlinear_arith) requires 0 <= v < 0x10000;
}

/// Every row of the opcode table decodes to its own instruction: the word
/// of an instruction of the table is a 16-bit value that decodes back to it.
pub proof fn lemma_decode_encode(i: Instruction)
    requires
        i.in_table(),
    ensures
        0 <= i.encode() < 0x10000,
        decode_spec(i.encode() as u16) == Some(i),
{
    match i {
        Instruction::Jump(a) | Instruction::SubRoutine(a) | Instruction::SetIndex(a)
        | Instruction::OffsetJump(_, a) => {
            let v = a as int;
            assert(v / 0x100 < 16 && (v / 0x10) % 0x10 < 16) by (nonlinear_arith)
                requires 0 <= v < 0x1000;
            assert(v == (v / 0x100) * 0x100 + ((v / 0x10) % 0x10) * 0x10 + v % 0x10)
                by (nonlinear_arith) requires 0 <= v;
            let b = v / 0x100;
            let c = (v / 0x10) % 0x10;
            let d = v % 0x10;
            lemma_word_fields(1, b, c, d);
            lemma_word_fields(2, b, c, d);
            lemma_word_fields(0xA, b, c, d);
            lemma_word_fields(0xB, b, c, d);
        },
        Instruction::SkipED(x, nn) | Instruction::SkipNED(x, nn) | Instruction::SetRegisterD(x, nn)
        | Instruction::AddRegisterD(x, nn) | Instruction::Random(x, nn) => {
            let v = nn as int;
            assert(v / 0x10 < 16 && v == (v / 0x10) * 0x10 + v % 0x10) by (nonlinear_arith)
                requires 0 <= v < 0x100;
            lemma_word_fields(3, x as int, v / 0x10, v % 0x10);
            lemma_word_fields(4, x as int, v / 0x10, v % 0x10);
            lemma_word_fields(6, x as int, v / 0x10, v % 0x10);
            lemma_word_fields(7, x as int, v / 0x10, v % 0x10);
            lemma_word_fields(0xC, x as int, v / 0x10, v % 0x10);
        },
        Instruction::Clear => {
            lemma_word_fields(0, 0, 0xE, 0);
        },
        Instruction::Return => {
            lemma_word_fields(0, 0, 0xE, 0xE);
        },
        Instruction::SkipER(x, y) => {
            lemma_word_fields(5, x as int, y as int, 0);
        },
        Instruction::SkipNER(x, y) => {
            lemma_word_fields(9, x as int, y as int, 0);
        },
        Instruction::SetRegisterR(x, y) => {
            lemma_word_fields(8, x as int, y as int, 0);
        },
        Instruction::BinaryOR(x, y) => {
            lemma_word_fields(8, x as int, y as int, 1);
        },
        Instruction::BinaryAND(x, y) => {
            lemma_word_fields(8, x as int, y as int, 2);
        },
        Instruction::LogicalXOR(x, y) => {
            lemma_word_fields(8, x as int, y as int, 3);
        },
        Instruction::AddRegisterR(x, y) => {
            lemma_word_fields(8, x as int, y as int, 4);
        },
        Instruction::SubtractXY(x, y) => {
            lemma_word_fields(8, x as int, y as int, 5);
        },
        Instruction::ShiftRight(x, y) => {
            lemma_word_fields(8, x as int, y as int, 6);
        },
        Instruction::SubtractYX(x, y) => {
            lemma_word_fields(8, x as int, y as int, 7);
        },
        Instruction::ShiftLeft(x, y) => {
            lemma_word_fields(8, x as int, y as int, 0xE);
        },
        Instruction::Draw(x, y, n) => {
            lemma_word_fields(0xD, x as int, y as int, n as int);
        },
        Instruction::KeyPressed(x) => {
            lemma_word_fields(0xE, x as int, 9, 0xE);
        },
        Instruction::KeyReleased(x) => {
            lemma_word_fields(0xE, x as int, 0xA, 1);
        },
        Instruction::GetDelay(x) => {
            lemma_word_fields(0xF, x as int, 0, 7);
        },
        Instruction::KeyWait(x) => {
            lemma_word_fields(0xF, x as int, 0, 0xA);
        },
        Instruction::SetDelay(x) => {
            lemma_word_fields(0xF, x as int, 1, 5);
        },
        Instruction::SetSound(x) => {
            lemma_word_fields(0xF, x as int, 1, 8);
        },
        Instruction::AddIndex(x) => {
            lemma_word_fields(0xF, x as int, 1, 0xE);
        },
        Instruction::GetFont(x) => {
            lemma_word_fields(0xF, x as int, 2, 9);
        },
        Instruction::AsDecimal(x) => {
            lemma_word_fields(0xF, x as int, 3, 3);
        },
        Instruction::Save(x) => {
            lemma_word_fields(0xF, x as int, 5, 5);
        },
        Instruction::Load(x) => {
            lemma_word_fields(0xF, x as int, 6, 5);
        },
    }
}

/// Only the rows of the opcode table decode: a word that decodes at all
/// decodes to an instruction of the table whose word it is. With
/// `lemma_decode_encode`, the decoder accepts exactly the table.
pub proof fn lemma_decode_only_table(w: u16)
    ensures
        decode_spec(w) matches Some(i) ==> i.in_table() && i.encode() == w as int,
{
    lemma_word_split(w);
    let v = w as int;
    assert(nnn_of(w) / 0x100 == x_of(w) && (nnn_of(w) / 0x10) % 0x10 == y_of(w) && nnn_of(w) % 0x10
        == n_of(w)) by {
        lemma_word_fields(0, x_of(w), y_of(w), n_of(w));
    }
    assert(nn_of(w) / 0x10 == y_of(w) && nn_of(w) % 0x10 == n_of(w)) by {
        lemma_word_fields(0, 0, y_of(w), n_of(w));
    }
}

impl Instruction {
    /// Decodes one instruction word. A word that is in no row of the opcode
    /// table is a decode error carrying the word.
    pub fn decode(value: u16) -> (r: Result<Instruction, ChipError>)
        ensures
            match decode_spec(value) {
                Some(i) => r == Ok::<Instruction, ChipError>(i),
                None => r == Err::<Instruction, ChipError>(ChipError::Decode(value)),
            },
            r matches Ok(i) ==> i.in_table(),
    {
        proof {
            lemma_fields(value);
        }
        let inst = ((value & 0xF000) >> 12) as u8;
        let r0 = ((value & 0x0F00) >> 8) as u8;
        let r1 = ((value & 0x00F0) >> 4) as u8;
        let n = (value & 0x000F) as u8;
        let nn = (value & 0x00FF) as u8;
        let nnn = value & 0x0FFF;
        match (inst, r0, r1, n) {
            (0, 0, 0xE, 0) => Ok(Instruction::Clear),
            (0, 0, 0xE, 0xE) => Ok(Instruction::Return),
            (1, _, _, _) => Ok(Instruction::Jump(nnn)),
            (2, _, _, _) => Ok(Instruction::SubRoutine(nnn)),
            (3, _, _, _) => Ok(Instruction::SkipED(r0, nn)),
            (4, _, _, _) => Ok(Instruction::SkipNED(r0, nn)),
            (5, _, _, 0) => Ok(Instruction::SkipER(r0, r1)),
            (6, _, _, _) => Ok(Instruction::SetRegisterD(r0, nn)),
            (7, _, _, _) => Ok(Instruction::AddRegisterD(r0, nn)),
            (8, _, _, 0) => Ok(Instruction::SetRegisterR(r0, r1)),
            (8, _, _, 1) => Ok(Instruction::BinaryOR(r0, r1)),
            (8, _, _, 2) => Ok(Instruction::BinaryAND(r0, r1)),
            (8, _, _, 3) => Ok(Instruction::LogicalXOR(r0, r1)),
            (8, _, _, 4) => Ok(Instruction::AddRegisterR(r0, r1)),
            (8, _, _, 5) => Ok(Instruction::SubtractXY(r0, r1)),
            (8, _, _, 6) => Ok(Instruction::ShiftRight(r0, r1)),
            (8, _, _, 7) => Ok(Instruction::SubtractYX(r0, r1)),
            (8, _, _, 0xE) => Ok(Instruction::ShiftLeft(r0, r1)),
            (9, _, _, 0) => Ok(Instruction::SkipNER(r0, r1)),
            (0xA, _, _, _) => Ok(Instruction::SetIndex(nnn)),
            (0xB, _, _, _) => Ok(Instruction::OffsetJump(r0, nnn)),
            (0xC, _, _, _) => Ok(Instruction::Random(r0, nn)),
            (0xD, _, _, _) => Ok(Instruction::Draw(r0, r1, n)),
            (0xE, _, 9, 0xE) => Ok(Instruction::KeyPressed(r0)),
            (0xE, _, 0xA, 1) => Ok(Instruction::KeyReleased(r0)),
            (0xF, _, 0, 7) => Ok(Instruction::GetDelay(r0)),
            (0xF, _, 0, 0xA) => Ok(Instruction::KeyWait(r0)),
            (0xF, _, 1, 5) => Ok(Instruction::SetDelay(r0)),
            (0xF, _, 1, 8) => Ok(Instruction::SetSound(r0)),
            (0xF, _, 1, 0xE) => Ok(Instruction::AddIndex(r0)),
            (0xF, _, 2, 9) => Ok(Instruction::GetFont(r0)),
            (0xF, _, 3, 3) => Ok(Instruction::AsDecimal(r0)),
            (0xF, _, 5, 5) => Ok(Instruction::Save(r0)),
            (0xF, _, 6, 5) => Ok(Instruction::Load(r0)),
            _ => Err(ChipError::Decode(value)),
        }
    }
}

impl TryFrom<u16> for Instruction {
    type Error = ChipError;

    /// Same as `Instruction::decode`.
    fn try_from(value: u16) -> Result<Instruction, ChipError> {
        Instruction::decode(value)
    }
}

impl vstd::std_specs::convert::TryFromSpecImpl<u16> for Instruction {
    open spec fn obeys_try_from_spec() -> bool {
        true
    }

    open spec fn try_from_spec(value: u16) -> Result<Instruction, ChipError> {
        match decode_spec(value) {
            Some(i) => Ok(i),
            None => Err(ChipError::Decode(value)),
        }
    }
}

} // verus!
