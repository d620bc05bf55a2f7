use vstd::prelude::*;

verus! {

/// One decoded instruction. The operand names follow the conventional
/// assembly notation: `x` and `y` are register numbers taken from the middle
/// nibbles of the opcode, `kk` is the low byte, `nnn` the low twelve bits and
/// `n` the low nibble.
#[derive(Clone, Copy, Debug, PartialEq, Eq, Structural)]
pub enum Instr {
    /// 00E0: clear the display.
    Cls,
    /// 00EE: return from a subroutine.
    Ret,
    /// 1nnn: jump to nnn.
    Jp(u16),
    /// 2nnn: call the subroutine at nnn.
    Call(u16),
    /// 3xkk: skip the next instruction if Vx == kk.
    SeByte(u8, u8),
    /// 4xkk: skip the next instruction if Vx != kk.
    SneByte(u8, u8),
    /// 5xy0: skip the next instruction if Vx == Vy.
    SeReg(u8, u8),
    /// 6xkk: Vx = kk.
    LdByte(u8, u8),
    /// 7xkk: Vx = Vx + kk, wrapping, no flag.
    AddByte(u8, u8),
    /// 8xy0: Vx = Vy.
    LdReg(u8, u8),
    /// 8xy1: Vx = Vx | Vy.
    OrReg(u8, u8),
    /// 8xy2: Vx = Vx & Vy.
    AndReg(u8, u8),
    /// 8xy3: Vx = Vx ^ Vy.
    XorReg(u8, u8),
    /// 8xy4: Vx = Vx + Vy with VF as the carry flag.
    AddReg(u8, u8),
    /// 8xy5: Vx = Vx - Vy with VF as the no-borrow flag.
    SubReg(u8, u8),
    /// 8xy6: shift the source register right one bit into Vx; VF takes the
    /// bit shifted out. Which register is the source is a quirk.
    ShrReg(u8, u8),
    /// 8xy7: Vx = Vy - Vx with VF as the no-borrow flag.
    SubnReg(u8, u8),
    /// 8xyE: shift the source register left one bit into Vx; VF takes the
    /// masked top bit. Which register is the source is a quirk.
    ShlReg(u8, u8),
    /// 9xy0: skip the next instruction if Vx != Vy.
    SneReg(u8, u8),
    /// Annn: I = nnn.
    LdI(u16),
    /// Bnnn: jump to nnn + V0.
    JpV0(u16),
    /// Cxkk: Vx = kk masked onto a fresh random byte.
    Rnd(u8, u8),
    /// Dxyn: draw the n-byte sprite at memory[I..] at position (Vx, Vy).
    Drw(u8, u8, u8),
    /// Ex9E: skip the next instruction if key Vx is pressed.
    Skp(u8),
    /// ExA1: skip the next instruction if key Vx is not pressed.
    Sknp(u8),
    /// Fx07: Vx = delay timer.
    LdFromDt(u8),
    /// Fx0A: park until a key is pressed; Vx = the lowest pressed key.
    WaitKey(u8),
    /// Fx15: delay timer = Vx.
    LdToDt(u8),
    /// Fx18: sound timer = Vx.
    LdToSt(u8),
    /// Fx1E: I = I + Vx, wrapping at sixteen bits.
    AddI(u8),
    /// Fx29: I = the address of the built-in glyph for digit Vx.
    LdFont(u8),
    /// Fx33: store the three decimal digits of Vx at memory[I..I+3).
    Bcd(u8),
    /// Fx55: copy V0..=Vx to memory[I..]; a quirk decides whether I advances.
    StoreRegs(u8),
    /// Fx65: fill V0..=Vx from memory[I..]; a quirk decides whether I advances.
    LoadRegs(u8),
}

/// Decoded operands lie within the machine's index ranges: register numbers
/// and nibbles below sixteen, addresses below the memory size.
pub open spec fn instr_wf(ins: Instr) -> bool {
    match ins {
        Instr::Cls => true,
        Instr::Ret => true,
        Instr::Jp(nnn) => nnn < 4096,
        Instr::Call(nnn) => nnn < 4096,
        Instr::SeByte(x, kk) => x < 16,
        Instr::SneByte(x, kk) => x < 16,
        Instr::SeReg(x, y) => x < 16 && y < 16,
        Instr::LdByte(x, kk) => x < 16,
        Instr::AddByte(x, kk) => x < 16,
        Instr::LdReg(x, y) => x < 16 && y < 16,
        Instr::OrReg(x, y) => x < 16 && y < 16,
        Instr::AndReg(x, y) => x < 16 && y < 16,
        Instr::XorReg(x, y) => x < 16 && y < 16,
        Instr::AddReg(x, y) => x < 16 && y < 16,
        Instr::SubReg(x, y) => x < 16 && y < 16,
        Instr::ShrReg(x, y) => x < 16 && y < 16,
        Instr::SubnReg(x, y) => x < 16 && y < 16,
        Instr::ShlReg(x, y) => x < 16 && y < 16,
        Instr::SneReg(x, y) => x < 16 && y < 16,
        Instr::LdI(nnn) => nnn < 4096,
        Instr::JpV0(nnn) => nnn < 4096,
        Instr::Rnd(x, kk) => x < 16,
        Instr::Drw(x, y, n) => x < 16 && y < 16 && n < 16,
        Instr::Skp(x) => x < 16,
        Instr::Sknp(x) => x < 16,
        Instr::LdFromDt(x) => x < 16,
        Instr::WaitKey(x) => x < 16,
        Instr::LdToDt(x) => x < 16,
        Instr::LdToSt(x) => x < 16,
        Instr::AddI(x) => x < 16,
        Instr::LdFont(x) => x < 16,
        Instr::Bcd(x) => x < 16,
        Instr::StoreRegs(x) => x < 16,
        Instr::LoadRegs(x) => x < 16,
    }
}

/// The instruction encoded by the opcode word `op`, or `None` where no row
/// of the instruction table matches. The top nibble selects a family; the
/// families 0x0, 0x5, 0x8, 0x9, 0xE and 0xF are further selected by their
/// fixed low nibble or low byte, and every unmatched combination is invalid.
pub open spec fn spec_decode(op: u16) -> Option<Instr> {
    let x = ((op >> 8u16) & 0xF) as u8;
    let y = ((op >> 4u16) & 0xF) as u8;
    let n = (op & 0xF) as u8;
    let kk = (op & 0xFF) as u8;
    let nnn = op & 0xFFF;
    if op == 0x00E0 {
        Some(Instr::Cls)
    } else if op == 0x00EE {
        Some(Instr::Ret)
    } else {
        let fam = op >> 12u16;
        if fam == 0x1 {
            Some(Instr::Jp(nnn))
        } else if fam == 0x2 {
            Some(Instr::Call(nnn))
        } else if fam == 0x3 {
            Some(Instr::SeByte(x, kk))
        } else if fam == 0x4 {
            Some(Instr::SneByte(x, kk))
        } else if fam == 0x5 {
            if n == 0x0 {
                Some(Instr::SeReg(x, y))
            } else {
                None
            }
        } else if fam == 0x6 {
            Some(Instr::LdByte(x, kk))
        } else if fam == 0x7 {
            Some(Instr::AddByte(x, kk))
        } else if fam == 0x8 {
            if n == 0x0 {
                Some(Instr::LdReg(x, y))
            } else if n == 0x1 {
                Some(Instr::OrReg(x, y))
            } else if n == 0x2 {
                Some(Instr::AndReg(x, y))
            } else if n == 0x3 {
                Some(Instr::XorReg(x, y))
            } else if n == 0x4 {
                Some(Instr::AddReg(x, y))
            } else if n == 0x5 {
                Some(Instr::SubReg(x, y))
            } else if n == 0x6 {
                Some(Instr::ShrReg(x, y))
            } else if n == 0x7 {
                Some(Instr::SubnReg(x, y))
            } else if n == 0xE {
                Some(Instr::ShlReg(x, y))
            } else {
                None
            }
        } else if fam == 0x9 {
            if n == 0x0 {
                Some(Instr::SneReg(x, y))
            } else {
                None
            }
        } else if fam == 0xA {
            Some(Instr::LdI(nnn))
        } else if fam == 0xB {
            Some(Instr::JpV0(nnn))
        } else if fam == 0xC {
            Some(Instr::Rnd(x, kk))
        } else if fam == 0xD {
            Some(Instr::Drw(x, y, n))
        } else if fam == 0xE {
            if kk == 0x9E {
                Some(Instr::Skp(x))
            } else if kk == 0xA1 {
                Some(Instr::Sknp(x))
            } else {
                None
            }
        } else if fam == 0xF {
            if kk == 0x07 {
                Some(Instr::LdFromDt(x))
            } else if kk == 0x0A {
                Some(Instr::WaitKey(x))
            } else if kk == 0x15 {
                Some(Instr::LdToDt(x))
            } else if kk == 0x18 {
                Some(Instr::LdToSt(x))
            } else if kk == 0x1E {
                Some(Instr::AddI(x))
            } else if kk == 0x29 {
                Some(Instr::LdFont(x))
            } else if kk == 0x33 {
                Some(Instr::Bcd(x))
            } else if kk == 0x55 {
                Some(Instr::StoreRegs(x))
            } else if kk == 0x65 {
                Some(Instr::LoadRegs(x))
            } else {
                None
            }
        } else {
            None
        }
    }
}

/// The opcode fields used by the decoder stay inside their nibble ranges,
/// and narrowing each masked field to a byte loses nothing.
proof fn lemma_op_fields(op: u16)
    by (bit_vector)
    ensures
        ((op >> 8u16) & 0xF) < 16,
        ((op >> 4u16) & 0xF) < 16,
        (op & 0xF) < 16,
        (op & 0xFFF) < 4096,
        (((op >> 8u16) & 0xF) as u8) == ((op >> 8u16) & 0xF),
        (((op >> 4u16) & 0xF) as u8) == ((op >> 4u16) & 0xF),
        ((op & 0xF) as u8) == (op & 0xF),
        ((op & 0xFF) as u8) == (op & 0xFF),
{
}

/// Decode one opcode word, exactly as `spec_decode` describes.
pub fn decode(op: u16) -> (r: Option<Instr>)
    ensures
        r == spec_decode(op),
        r matches Some(ins) ==> instr_wf(ins),
{
    proof {
        lemma_op_fields(op);
    }
    let x: u8 = ((op >> 8u16) & 0xF) as u8;
    let y: u8 = ((op >> 4u16) & 0xF) as u8;
    let n: u8 = (op & 0xF) as u8;
    let kk: u8 = (op & 0xFF) as u8;
    let nnn: u16 = op & 0xFFF;
    if op == 0x00E0 {
        Some(Instr::Cls)
    } else if op == 0x00EE {
        Some(Instr::Ret)
    } else {
        let fam: u16 = op >> 12u16;
        if fam == 0x1 {
            Some(Instr::Jp(nnn))
        } else if fam == 0x2 {
            Some(Instr::Call(nnn))
        } else if fam == 0x3 {
            Some(Instr::SeByte(x, kk))
        } else if fam == 0x4 {
            Some(Instr::SneByte(x, kk))
        } else if fam == 0x5 {
            if n == 0x0 {
                Some(Instr::SeReg(x, y))
            } else {
                None
            }
        } else if fam == 0x6 {
            Some(Instr::LdByte(x, kk))
        } else if fam == 0x7 {
            Some(Instr::AddByte(x, kk))
        } else if fam == 0x8 {
            if n == 0x0 {
                Some(Instr::LdReg(x, y))
            } else if n == 0x1 {
                Some(Instr::OrReg(x, y))
            } else if n == 0x2 {
                Some(Instr::AndReg(x, y))
            } else if n == 0x3 {
                Some(Instr::XorReg(x, y))
            } else if n == 0x4 {
                Some(Instr::AddReg(x, y))
            } else if n == 0x5 {
                Some(Instr::SubReg(x, y))
            } else if n == 0x6 {
                Some(Instr::ShrReg(x, y))
            } else if n == 0x7 {
                Some(Instr::SubnReg(x, y))
            } else if n == 0xE {
                Some(Instr::ShlReg(x, y))
            } else {
                None
            }
        } else if fam == 0x9 {
            if n == 0x0 {
                Some(Instr::SneReg(x, y))
            } else {
                None
            }
        } else if fam == 0xA {
            Some(Instr::LdI(nnn))
        } else if fam == 0xB {
            Some(Instr::JpV0(nnn))
        } else if fam == 0xC {
            Some(Instr::Rnd(x, kk))
        } else if fam == 0xD {
            Some(Instr::Drw(x, y, n))
        } else if fam == 0xE {
            if kk == 0x9E {
                Some(Instr::Skp(x))
            } else if kk == 0xA1 {
                Some(Instr::Sknp(x))
            } else {
                None
            }
        } else if fam == 0xF {
            if kk == 0x07 {
                Some(Instr::LdFromDt(x))
            } else if kk == 0x0A {
                Some(Instr::WaitKey(x))
            } else if kk == 0x15 {
                Some(Instr::LdToDt(x))
            } else if kk == 0x18 {
                Some(Instr::LdToSt(x))
            } else if kk == 0x1E {
                Some(Instr::AddI(x))
            } else if kk == 0x29 {
                Some(Instr::LdFont(x))
            } else if kk == 0x33 {
                Some(Instr::Bcd(x))
            } else if kk == 0x55 {
                Some(Instr::StoreRegs(x))
            } else if kk == 0x65 {
                Some(Instr::LoadRegs(x))
            } else {
                None
            }
        } else {
            None
        }
    }
}

} // verus!
