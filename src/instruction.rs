//! Splitting 16-bit opcodes into nibbles and classifying them.

use vstd::prelude::*;

verus! {

/// An opcode split into its four nibbles, most significant first.
#[derive(Debug, Clone, Copy, PartialEq, Eq, Structural)]
pub struct Instruction(pub u8, pub u8, pub u8, pub u8);

/// The big-endian opcode stored at `pc` and `pc + 1`.
pub open spec fn fetch(memory: Seq<u8>, pc: int) -> u16 {
    (memory[pc] as int * 256 + memory[pc + 1] as int) as u16
}

/// The four nibbles of `opcode`, most significant first.
pub open spec fn decode(opcode: u16) -> Instruction {
    Instruction(
        (opcode / 4096) as u8,
        (opcode / 256 % 16) as u8,
        (opcode / 16 % 16) as u8,
        (opcode % 16) as u8,
    )
}

/// One opcode class with its operands; `x` and `y` name registers, `kk` is a
/// byte, `nnn` an address and `n` a sprite height.
#[derive(Debug, Clone, Copy, PartialEq, Eq, Structural)]
pub enum Operation {
    /// `00E0`: clear the display.
    ClearScreen,
    /// `00EE`: return from a subroutine.
    Return,
    /// `0nnn`: machine-code call, ignored.
    System(u16),
    /// `1nnn`: jump.
    Jump(u16),
    /// `2nnn`: call a subroutine.
    Call(u16),
    /// `3xkk`: skip if `Vx == kk`.
    SkipIfByte(u8, u8),
    /// `4xkk`: skip if `Vx != kk`.
    SkipUnlessByte(u8, u8),
    /// `5xy0`: skip if `Vx == Vy`.
    SkipIfEqual(u8, u8),
    /// `6xkk`: `Vx = kk`.
    LoadByte(u8, u8),
    /// `7xkk`: `Vx += kk`, wrapping, flag untouched.
    AddByte(u8, u8),
    /// `8xy0`: `Vx = Vy`.
    Load(u8, u8),
    /// `8xy1`: `Vx |= Vy`.
    Or(u8, u8),
    /// `8xy2`: `Vx &= Vy`.
    And(u8, u8),
    /// `8xy3`: `Vx ^= Vy`.
    Xor(u8, u8),
    /// `8xy4`: `Vx += Vy` with carry into VF.
    Add(u8, u8),
    /// `8xy5`: `Vx -= Vy`, VF set when no borrow.
    Sub(u8, u8),
    /// `8xy6`: `Vx >>= 1`, the bit shifted out into VF.
    ShiftRight(u8),
    /// `8xy7`: `Vx = Vy - Vx`, VF set when no borrow.
    SubFrom(u8, u8),
    /// `8xyE`: `Vx <<= 1`, the bit shifted out into VF.
    ShiftLeft(u8),
    /// `9xy0`: skip if `Vx != Vy`.
    SkipUnlessEqual(u8, u8),
    /// `Annn`: `I = nnn`.
    LoadIndex(u16),
    /// `Bnnn`: jump to `nnn + V0`.
    JumpOffset(u16),
    /// `Cxkk`: `Vx = random & kk`.
    Random(u8, u8),
    /// `Dxyn`: draw the `n`-byte sprite at `I` at (`Vx`, `Vy`).
    Draw(u8, u8, u8),
    /// `Ex9E`: skip if key `Vx` is down.
    SkipIfKey(u8),
    /// `ExA1`: skip if key `Vx` is up.
    SkipUnlessKey(u8),
    /// `Fx07`: `Vx = delay timer`.
    LoadDelay(u8),
    /// `Fx0A`: wait for a key and store it in `Vx`.
    WaitKey(u8),
    /// `Fx15`: `delay timer = Vx`.
    SetDelay(u8),
    /// `Fx18`: `sound timer = Vx`.
    SetSound(u8),
    /// `Fx1E`: `I += Vx`, wrapping.
    AddIndex(u8),
    /// `Fx29`: `I` = address of the font glyph for digit `Vx`.
    LoadGlyph(u8),
    /// `Fx33`: store the decimal digits of `Vx` at `I`, `I + 1`, `I + 2`.
    StoreDecimal(u8),
    /// `Fx55`: store `V0..=Vx` at `I`.
    StoreRegisters(u8),
    /// `Fx65`: load `V0..=Vx` from `I`.
    LoadRegisters(u8),
    /// Any other pattern: does nothing.
    Unknown,
}

impl Instruction {
    /// Every field is a nibble.
    pub open spec fn wf(&self) -> bool {
        self.0 < 16 && self.1 < 16 && self.2 < 16 && self.3 < 16
    }

    /// The 12-bit address `n1 n2 n3`.
    pub open spec fn addr(&self) -> u16 {
        (self.1 as int * 256 + self.2 as int * 16 + self.3 as int) as u16
    }

    /// The low byte `n2 n3`.
    pub open spec fn byte(&self) -> u8 {
        (self.2 as int * 16 + self.3 as int) as u8
    }

    /// The opcode class and operands that this instruction denotes.
    pub open spec fn operation_of(&self) -> Operation {
        let (a, x, y, n) = (self.0, self.1, self.2, self.3);
        let nnn = self.addr();
        let kk = self.byte();
        if a == 0x0 {
            if x == 0x0 && y == 0xE && n == 0x0 {
                Operation::ClearScreen
            } else if x == 0x0 && y == 0xE && n == 0xE {
                Operation::Return
            } else {
                Operation::System(nnn)
            }
        } else if a == 0x1 {
            Operation::Jump(nnn)
        } else if a == 0x2 {
            Operation::Call(nnn)
        } else if a == 0x3 {
            Operation::SkipIfByte(x, kk)
        } else if a == 0x4 {
            Operation::SkipUnlessByte(x, kk)
        } else if a == 0x5 && n == 0x0 {
            Operation::SkipIfEqual(x, y)
        } else if a == 0x6 {
            Operation::LoadByte(x, kk)
        } else if a == 0x7 {
            Operation::AddByte(x, kk)
        } else if a == 0x8 && n == 0x0 {
            Operation::Load(x, y)
        } else if a == 0x8 && n == 0x1 {
            Operation::Or(x, y)
        } else if a == 0x8 && n == 0x2 {
            Operation::And(x, y)
        } else if a == 0x8 && n == 0x3 {
            Operation::Xor(x, y)
        } else if a == 0x8 && n == 0x4 {
            Operation::Add(x, y)
        } else if a == 0x8 && n == 0x5 {
            Operation::Sub(x, y)
        } else if a == 0x8 && n == 0x6 {
            Operation::ShiftRight(x)
        } else if a == 0x8 && n == 0x7 {
            Operation::SubFrom(x, y)
        } else if a == 0x8 && n == 0xE {
            Operation::ShiftLeft(x)
        } else if a == 0x9 && n == 0x0 {
            Operation::SkipUnlessEqual(x, y)
        } else if a == 0xA {
            Operation::LoadIndex(nnn)
        } else if a == 0xB {
            Operation::JumpOffset(nnn)
        } else if a == 0xC {
            Operation::Random(x, kk)
        } else if a == 0xD {
            Operation::Draw(x, y, n)
        } else if a == 0xE && y == 0x9 && n == 0xE {
            Operation::SkipIfKey(x)
        } else if a == 0xE && y == 0xA && n == 0x1 {
            Operation::SkipUnlessKey(x)
        } else if a == 0xF && y == 0x0 && n == 0x7 {
            Operation::LoadDelay(x)
        } else if a == 0xF && y == 0x0 && n == 0xA {
            Operation::WaitKey(x)
        } else if a == 0xF && y == 0x1 && n == 0x5 {
            Operation::SetDelay(x)
        } else if a == 0xF && y == 0x1 && n == 0x8 {
            Operation::SetSound(x)
        } else if a == 0xF && y == 0x1 && n == 0xE {
            Operation::AddIndex(x)
        } else if a == 0xF && y == 0x2 && n == 0x9 {
            Operation::LoadGlyph(x)
        } else if a == 0xF && y == 0x3 && n == 0x3 {
            Operation::StoreDecimal(x)
        } else if a == 0xF && y == 0x5 && n == 0x5 {
            Operation::StoreRegisters(x)
        } else if a == 0xF && y == 0x6 && n == 0x5 {
            Operation::LoadRegisters(x)
        } else {
            Operation::Unknown
        }
    }

    /// Classifies this instruction by its opcode pattern.
    pub fn operation(&self) -> (r: Operation)
        requires
            self.wf(),
        ensures
            r == self.operation_of(),
    {
        let (a, x, y, n) = (self.0, self.1, self.2, self.3);
        let nnn = self.nnn();
        let kk = self.kk();
        if a == 0x0 {
            if x == 0x0 && y == 0xE && n == 0x0 {
                Operation::ClearScreen
            } else if x == 0x0 && y == 0xE && n == 0xE {
                Operation::Return
            } else {
                Operation::System(nnn)
            }
        } else if a == 0x1 {
            Operation::Jump(nnn)
        } else if a == 0x2 {
            Operation::Call(nnn)
        } else if a == 0x3 {
            Operation::SkipIfByte(x, kk)
        } else if a == 0x4 {
            Operation::SkipUnlessByte(x, kk)
        } else if a == 0x5 && n == 0x0 {
            Operation::SkipIfEqual(x, y)
        } else if a == 0x6 {
            Operation::LoadByte(x, kk)
        } else if a == 0x7 {
            Operation::AddByte(x, kk)
        } else if a == 0x8 && n == 0x0 {
            Operation::Load(x, y)
        } else if a == 0x8 && n == 0x1 {
            Operation::Or(x, y)
        } else if a == 0x8 && n == 0x2 {
            Operation::And(x, y)
        } else if a == 0x8 && n == 0x3 {
            Operation::Xor(x, y)
        } else if a == 0x8 && n == 0x4 {
            Operation::Add(x, y)
        } else if a == 0x8 && n == 0x5 {
            Operation::Sub(x, y)
        } else if a == 0x8 && n == 0x6 {
            Operation::ShiftRight(x)
        } else if a == 0x8 && n == 0x7 {
            Operation::SubFrom(x, y)
        } else if a == 0x8 && n == 0xE {
            Operation::ShiftLeft(x)
        } else if a == 0x9 && n == 0x0 {
            Operation::SkipUnlessEqual(x, y)
        } else if a == 0xA {
            Operation::LoadIndex(nnn)
        } else if a == 0xB {
            Operation::JumpOffset(nnn)
        } else if a == 0xC {
            Operation::Random(x, kk)
        } else if a == 0xD {
            Operation::Draw(x, y, n)
        } else if a == 0xE && y == 0x9 && n == 0xE {
            Operation::SkipIfKey(x)
        } else if a == 0xE && y == 0xA && n == 0x1 {
            Operation::SkipUnlessKey(x)
        } else if a == 0xF && y == 0x0 && n == 0x7 {
            Operation::LoadDelay(x)
        } else if a == 0xF && y == 0x0 && n == 0xA {
            Operation::WaitKey(x)
        } else if a == 0xF && y == 0x1 && n == 0x5 {
            Operation::SetDelay(x)
        } else if a == 0xF && y == 0x1 && n == 0x8 {
            Operation::SetSound(x)
        } else if a == 0xF && y == 0x1 && n == 0xE {
            Operation::AddIndex(x)
        } else if a == 0xF && y == 0x2 && n == 0x9 {
            Operation::LoadGlyph(x)
        } else if a == 0xF && y == 0x3 && n == 0x3 {
            Operation::StoreDecimal(x)
        } else if a == 0xF && y == 0x5 && n == 0x5 {
            Operation::StoreRegisters(x)
        } else if a == 0xF && y == 0x6 && n == 0x5 {
            Operation::LoadRegisters(x)
        } else {
            Operation::Unknown
        }
    }

    pub fn from_opcode(opcode: u16) -> (r: Self)
        ensures
            r == decode(opcode),
            r.wf(),
    {
        let a = ((opcode & 0xF000) >> 12) as u8;
        let b = ((opcode & 0x0F00) >> 8) as u8;
        let c = ((opcode & 0x00F0) >> 4) as u8;
        let d = (opcode & 0x000F) as u8;
        assert(((opcode & 0xF000) >> 12) == opcode / 4096) by (bit_vector);
        assert(((opcode & 0x0F00) >> 8) == opcode / 256 % 16) by (bit_vector);
        assert(((opcode & 0x00F0) >> 4) == opcode / 16 % 16) by (bit_vector);
        assert((opcode & 0x000F) == opcode % 16) by (bit_vector);
        Instruction(a, b, c, d)
    }

    /// Decodes the opcode at `location`; both of its bytes must lie in memory.
    pub fn read(memory: &[u8; 4096], location: u16) -> (r: Self)
        requires
            location < 4095,
        ensures
            r == decode(fetch(memory@, location as int)),
            r.wf(),
    {
        let first_byte = memory[location as usize];
        let second_byte = memory[location as usize + 1];
        let a = (first_byte & 0xF0) >> 4;
        let b = first_byte & 0x0F;
        let c = (second_byte & 0xF0) >> 4;
        let d = second_byte & 0x0F;
        assert((first_byte & 0xF0) >> 4 == first_byte / 16) by (bit_vector);
        assert(first_byte & 0x0F == first_byte % 16) by (bit_vector);
        assert((second_byte & 0xF0) >> 4 == second_byte / 16) by (bit_vector);
        assert(second_byte & 0x0F == second_byte % 16) by (bit_vector);
        let ghost op = fetch(memory@, location as int);
        assert(op as int == first_byte as int * 256 + second_byte as int);
        assert(op / 4096 == first_byte / 16);
        assert(op / 256 % 16 == first_byte % 16);
        assert(op / 16 % 16 == second_byte / 16);
        assert(op % 16 == second_byte % 16);
        Instruction(a, b, c, d)
    }

    pub fn nnn(&self) -> (r: u16)
        requires
            self.1 < 16,
            self.2 < 16,
            self.3 < 16,
        ensures
            r == self.addr(),
    {
        let (b, c, d) = (self.1 as u16, self.2 as u16, self.3 as u16);
        assert(b < 16 && c < 16 && d < 16 ==> (b << 8 | c << 4 | d) == b * 256 + c * 16 + d)
            by (bit_vector);
        (self.1 as u16) << 8 | (self.2 as u16) << 4 | (self.3 as u16)
    }

    pub fn n(&self) -> (r: u8)
        ensures
            r == self.3,
    {
        self.3
    }

    pub fn x(&self) -> (r: u8)
        ensures
            r == self.1,
    {
        self.1
    }

    pub fn y(&self) -> (r: u8)
        ensures
            r == self.2,
    {
        self.2
    }

    pub fn kk(&self) -> (r: u8)
        requires
            self.2 < 16,
            self.3 < 16,
        ensures
            r == self.byte(),
    {
        let (c, d) = (self.2, self.3);
        assert(c < 16 && d < 16 ==> (c << 4 | d) == c * 16 + d) by (bit_vector);
        self.2 << 4 | self.3
    }
}

} // verus!
