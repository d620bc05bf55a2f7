use vstd::prelude::*;

use crate::decode::{spec_decode, Instr};
use crate::errors::{Chip8Error, Quirks};

verus! {

/// Size of the addressable memory in bytes.
pub const MEM_SIZE: usize = 4096;

/// Number of general-purpose eight-bit registers.
pub const NUM_REGS: usize = 16;

/// Capacity of the call stack, in return addresses.
pub const STACK_SIZE: usize = 16;

/// Number of display cells: 64 columns by 32 rows, row-major, one byte per
/// single-bit pixel.
pub const DISPLAY_SIZE: usize = 2048;

/// Number of keys on the keypad.
pub const NUM_KEYS: usize = 16;

/// Address at which program execution begins and program images are loaded.
pub const PROGRAM_START: usize = 0x200;

/// Address of the built-in glyph table.
pub const FONT_BASE: usize = 0x50;

/// Size of the built-in glyph table: sixteen glyphs of five bytes each.
pub const FONT_SIZE: usize = 80;

/// The mathematical state of the machine: each field of the executable
/// machine as a plain mathematical value.
#[verifier::ext_equal]
pub ghost struct VmView {
    /// Program counter.
    pub pc: u16,
    /// The 4096 bytes of memory.
    pub mem: Seq<u8>,
    /// The sixteen general registers V0..VF.
    pub v: Seq<u8>,
    /// The sixteen-bit index register I.
    pub i: u16,
    /// The sixteen call-stack slots.
    pub stack: Seq<u16>,
    /// The stack pointer: number of slots in use.
    pub sp: u16,
    /// The 2048 display cells, each 0 or 1.
    pub gfx: Seq<u8>,
    /// The sixteen key states, nonzero meaning pressed.
    pub keys: Seq<u8>,
    /// Delay timer.
    pub dt: u8,
    /// Sound timer.
    pub st: u8,
    /// The configured compatibility quirks.
    pub quirks: Quirks,
}

/// The machine's structural invariant: every array has its fixed size and
/// the stack pointer stays within the stack.
pub open spec fn view_wf(s: VmView) -> bool {
    &&& s.mem.len() == MEM_SIZE
    &&& s.v.len() == NUM_REGS
    &&& s.stack.len() == STACK_SIZE
    &&& s.gfx.len() == DISPLAY_SIZE
    &&& s.keys.len() == NUM_KEYS
    &&& s.sp <= STACK_SIZE
}

/// The effect of one instruction, before the timer tick.
#[verifier::ext_equal]
pub ghost struct Executed {
    /// The machine state after the instruction.
    pub post: VmView,
    /// Whether the instruction retired; `false` only for a wait-for-key
    /// instruction parked on an idle keypad.
    pub retired: bool,
}

/// The effect of one whole step: instruction plus timer tick.
#[verifier::ext_equal]
pub ghost struct Stepped {
    /// The machine state after the step.
    pub post: VmView,
    /// Whether the fetched instruction retired.
    pub retired: bool,
    /// Whether the sound timer was running when the timers ticked.
    pub beep: bool,
}

/// Eight-bit register addition: wraps modulo 256.
pub open spec fn wrap_add8(a: u8, b: u8) -> u8 {
    if a + b < 256 {
        (a + b) as u8
    } else {
        (a + b - 256) as u8
    }
}

/// Eight-bit register subtraction: wraps modulo 256 (two's complement).
pub open spec fn wrap_sub8(a: u8, b: u8) -> u8 {
    if a >= b {
        (a - b) as u8
    } else {
        (a + 256 - b) as u8
    }
}

/// Sixteen-bit addition for the index register and the program counter:
/// wraps modulo 2^16.
pub open spec fn wrap_add16(a: u16, b: u16) -> u16 {
    if a + b < 0x10000 {
        (a + b) as u16
    } else {
        (a + b - 0x10000) as u16
    }
}

/// The state with the program counter advanced by `k` bytes.
pub open spec fn adv(s: VmView, k: u16) -> VmView {
    VmView { pc: wrap_add16(s.pc, k), ..s }
}

/// The state with register `x` set to `val` and the program counter
/// advanced past the instruction.
pub open spec fn set_v(s: VmView, x: u8, val: u8) -> VmView {
    VmView { v: s.v.update(x as int, val), pc: wrap_add16(s.pc, 2), ..s }
}

/// One timer tick: each timer counts down once while nonzero.
pub open spec fn spec_tick(s: VmView) -> VmView {
    VmView {
        dt: if s.dt > 0 {
            (s.dt - 1) as u8
        } else {
            0
        },
        st: if s.st > 0 {
            (s.st - 1) as u8
        } else {
            0
        },
        ..s
    }
}

/// The built-in glyph table: the hex digits 0..F as 4x5-pixel sprites, five
/// bytes per glyph, installed at `FONT_BASE`.
pub open spec fn spec_fontset() -> Seq<u8> {
    seq![
        0xF0u8, 0x90, 0x90, 0x90, 0xF0, // 0
        0x20, 0x60, 0x20, 0x20, 0x70, // 1
        0xF0, 0x10, 0xF0, 0x80, 0xF0, // 2
        0xF0, 0x10, 0xF0, 0x10, 0xF0, // 3
        0x90, 0x90, 0xF0, 0x10, 0x10, // 4
        0xF0, 0x80, 0xF0, 0x10, 0xF0, // 5
        0xF0, 0x80, 0xF0, 0x90, 0xF0, // 6
        0xF0, 0x10, 0x20, 0x40, 0x40, // 7
        0xF0, 0x90, 0xF0, 0x90, 0xF0, // 8
        0xF0, 0x90, 0xF0, 0x10, 0xF0, // 9
        0xF0, 0x90, 0xF0, 0x90, 0x90, // A
        0xE0, 0x90, 0xE0, 0x90, 0xE0, // B
        0xF0, 0x80, 0x80, 0x80, 0xF0, // C
        0xE0, 0x90, 0x90, 0x90, 0xE0, // D
        0xF0, 0x80, 0xF0, 0x80, 0xF0, // E
        0xF0, 0x80, 0xF0, 0x80, 0x80, // F
    ]
}

/// Memory with the glyph table written over [FONT_BASE, FONT_BASE + 80).
pub open spec fn spec_load_fontset(mem: Seq<u8>) -> Seq<u8> {
    Seq::new(
        mem.len(),
        |j: int|
            if FONT_BASE <= j < FONT_BASE + FONT_SIZE {
                spec_fontset()[j - FONT_BASE]
            } else {
                mem[j]
            },
    )
}

/// Memory with the program image written over [PROGRAM_START,
/// PROGRAM_START + rom.len()).
pub open spec fn spec_load_rom(mem: Seq<u8>, rom: Seq<u8>) -> Seq<u8> {
    Seq::new(
        mem.len(),
        |j: int|
            if PROGRAM_START <= j < PROGRAM_START + rom.len() {
                rom[j - PROGRAM_START]
            } else {
                mem[j]
            },
    )
}

/// The freshly constructed machine: everything zero, the program counter at
/// the program origin, and the quirks of the historical machine.
pub open spec fn initial_view() -> VmView {
    VmView {
        pc: 0x200,
        mem: Seq::new(MEM_SIZE as nat, |j: int| 0u8),
        v: Seq::new(NUM_REGS as nat, |j: int| 0u8),
        i: 0,
        stack: Seq::new(STACK_SIZE as nat, |j: int| 0u16),
        sp: 0,
        gfx: Seq::new(DISPLAY_SIZE as nat, |j: int| 0u8),
        keys: Seq::new(NUM_KEYS as nat, |j: int| 0u8),
        dt: 0,
        st: 0,
        quirks: Quirks { shift_reads_vy: true, index_advances: true },
    }
}

/// The lowest-numbered pressed key at or above index `k`, if any.
pub open spec fn first_key_from(keys: Seq<u8>, k: int) -> Option<u8>
    decreases 16 - k,
{
    if k < 0 || k >= 16 {
        None
    } else if keys[k] == 1 {
        Some(k as u8)
    } else {
        first_key_from(keys, k + 1)
    }
}

/// The display cell hit by sprite row `row`, column `col` of a sprite
/// anchored at (xp, yp). Positions wrap modulo the whole 64x32 plane taken
/// as one row-major array.
pub open spec fn pix_pos(xp: u8, yp: u8, row: int, col: int) -> int {
    ((xp + col) + (yp + row) * 64) % 2048
}

/// Whether sprite byte `pixel` has the bit for column `col` set
/// (column 0 is the leftmost pixel, the top bit of the byte).
pub open spec fn col_bit(pixel: u8, col: int) -> bool {
    pixel & (0x80u8 >> (col as u8)) != 0
}

/// Display and collision flag after the first `ncols` columns of one sprite
/// row have been composited, in column order: each set sprite bit toggles
/// its cell, and the flag latches 1 when a lit cell is toggled off.
pub open spec fn draw_cols(
    gfx: Seq<u8>,
    vf: u8,
    pixel: u8,
    xp: u8,
    yp: u8,
    row: int,
    ncols: int,
) -> (Seq<u8>, u8)
    decreases ncols,
{
    if ncols <= 0 {
        (gfx, vf)
    } else {
        let prev = draw_cols(gfx, vf, pixel, xp, yp, row, ncols - 1);
        let col = ncols - 1;
        if col_bit(pixel, col) {
            let pos = pix_pos(xp, yp, row, col);
            let hit: u8 = if prev.0[pos] == 1 {
                1u8
            } else {
                prev.1
            };
            (prev.0.update(pos, prev.0[pos] ^ 1), hit)
        } else {
            prev
        }
    }
}

/// Display and collision flag after the first `nrows` rows of the sprite at
/// memory[i..] have been composited, in row order.
pub open spec fn draw_rows(
    gfx: Seq<u8>,
    vf: u8,
    mem: Seq<u8>,
    i: u16,
    xp: u8,
    yp: u8,
    nrows: int,
) -> (Seq<u8>, u8)
    decreases nrows,
{
    if nrows <= 0 {
        (gfx, vf)
    } else {
        let prev = draw_rows(gfx, vf, mem, i, xp, yp, nrows - 1);
        let row = nrows - 1;
        draw_cols(prev.0, prev.1, mem[i + row], xp, yp, row, 8)
    }
}

/// Memory after the first `cnt` registers have been copied to memory[i..],
/// in register order.
pub open spec fn store_regs_upto(mem: Seq<u8>, i: u16, v: Seq<u8>, cnt: int) -> Seq<u8>
    decreases cnt,
{
    if cnt <= 0 {
        mem
    } else {
        store_regs_upto(mem, i, v, cnt - 1).update(i + cnt - 1, v[cnt - 1])
    }
}

/// Registers after the first `cnt` of them have been filled from
/// memory[i..], in register order.
pub open spec fn load_regs_upto(v: Seq<u8>, mem: Seq<u8>, i: u16, cnt: int) -> Seq<u8>
    decreases cnt,
{
    if cnt <= 0 {
        v
    } else {
        load_regs_upto(v, mem, i, cnt - 1).update(cnt - 1, mem[i + cnt - 1])
    }
}

/// A successful, retired instruction leading to `post`.
pub open spec fn step_ok(post: VmView) -> Result<Executed, Chip8Error> {
    Ok(Executed { post, retired: true })
}

/// The effect of one decoded instruction on the machine, before the timer
/// tick. This is the instruction table of the design: one arm per row.
/// `rnd` is the random byte consumed by the Cxkk instruction and ignored by
/// every other.
pub open spec fn spec_exec(pre: VmView, ins: Instr, rnd: u8) -> Result<Executed, Chip8Error> {
    match ins {
        Instr::Cls => step_ok(
            VmView {
                gfx: Seq::new(DISPLAY_SIZE as nat, |j: int| 0u8),
                pc: wrap_add16(pre.pc, 2),
                ..pre
            },
        ),
        Instr::Ret => if pre.sp == 0 {
            Err(Chip8Error::StackUnderflow)
        } else {
            step_ok(VmView { pc: pre.stack[pre.sp - 1], sp: (pre.sp - 1) as u16, ..pre })
        },
        Instr::Jp(nnn) => step_ok(VmView { pc: nnn, ..pre }),
        Instr::Call(nnn) => if pre.sp >= STACK_SIZE {
            Err(Chip8Error::StackOverflow)
        } else {
            step_ok(
                VmView {
                    stack: pre.stack.update(pre.sp as int, wrap_add16(pre.pc, 2)),
                    sp: (pre.sp + 1) as u16,
                    pc: nnn,
                    ..pre
                },
            )
        },
        Instr::SeByte(x, kk) => step_ok(
            adv(
                pre,
                if pre.v[x as int] == kk {
                    4
                } else {
                    2
                },
            ),
        ),
        Instr::SneByte(x, kk) => step_ok(
            adv(
                pre,
                if pre.v[x as int] != kk {
                    4
                } else {
                    2
                },
            ),
        ),
        Instr::SeReg(x, y) => step_ok(
            adv(
                pre,
                if pre.v[x as int] == pre.v[y as int] {
                    4
                } else {
                    2
                },
            ),
        ),
        Instr::LdByte(x, kk) => step_ok(set_v(pre, x, kk)),
        Instr::AddByte(x, kk) => step_ok(set_v(pre, x, wrap_add8(pre.v[x as int], kk))),
        Instr::LdReg(x, y) => step_ok(set_v(pre, x, pre.v[y as int])),
        Instr::OrReg(x, y) => step_ok(set_v(pre, x, pre.v[x as int] | pre.v[y as int])),
        Instr::AndReg(x, y) => step_ok(set_v(pre, x, pre.v[x as int] & pre.v[y as int])),
        Instr::XorReg(x, y) => step_ok(set_v(pre, x, pre.v[x as int] ^ pre.v[y as int])),
        Instr::AddReg(x, y) => {
            let sum = pre.v[x as int] + pre.v[y as int];
            let carry: u8 = if sum > 255 {
                1u8
            } else {
                0u8
            };
            let v1 = pre.v.update(15, carry);
            step_ok(
                VmView {
                    v: v1.update(x as int, wrap_add8(pre.v[x as int], pre.v[y as int])),
                    pc: wrap_add16(pre.pc, 2),
                    ..pre
                },
            )
        },
        Instr::SubReg(x, y) => {
            let noborrow: u8 = if pre.v[x as int] > pre.v[y as int] {
                1u8
            } else {
                0u8
            };
            let v1 = pre.v.update(15, noborrow);
            step_ok(
                VmView {
                    v: v1.update(x as int, wrap_sub8(v1[x as int], v1[y as int])),
                    pc: wrap_add16(pre.pc, 2),
                    ..pre
                },
            )
        },
        Instr::ShrReg(x, y) => {
            let src: u8 = if pre.quirks.shift_reads_vy {
                y
            } else {
                x
            };
            let v1 = pre.v.update(15, pre.v[src as int] & 0x01);
            step_ok(
                VmView { v: v1.update(x as int, v1[src as int] >> 1u8), pc: wrap_add16(pre.pc, 2), ..pre },
            )
        },
        Instr::SubnReg(x, y) => {
            let noborrow: u8 = if pre.v[y as int] > pre.v[x as int] {
                1u8
            } else {
                0u8
            };
            let v1 = pre.v.update(15, noborrow);
            step_ok(
                VmView {
                    v: v1.update(x as int, wrap_sub8(v1[y as int], v1[x as int])),
                    pc: wrap_add16(pre.pc, 2),
                    ..pre
                },
            )
        },
        Instr::ShlReg(x, y) => {
            let src: u8 = if pre.quirks.shift_reads_vy {
                y
            } else {
                x
            };
            let v1 = pre.v.update(15, pre.v[src as int] & 0x80);
            step_ok(
                VmView { v: v1.update(x as int, v1[src as int] << 1u8), pc: wrap_add16(pre.pc, 2), ..pre },
            )
        },
        Instr::SneReg(x, y) => step_ok(
            adv(
                pre,
                if pre.v[x as int] != pre.v[y as int] {
                    4
                } else {
                    2
                },
            ),
        ),
        Instr::LdI(nnn) => step_ok(VmView { i: nnn, pc: wrap_add16(pre.pc, 2), ..pre }),
        Instr::JpV0(nnn) => step_ok(VmView { pc: wrap_add16(nnn, pre.v[0] as u16), ..pre }),
        Instr::Rnd(x, kk) => step_ok(set_v(pre, x, kk & rnd)),
        Instr::Drw(x, y, n) => if n > 0 && pre.i + n > MEM_SIZE {
            Err(Chip8Error::AddressOutOfRange)
        } else {
            let drawn = draw_rows(pre.gfx, 0u8, pre.mem, pre.i, pre.v[x as int], pre.v[y as int], n as int);
            step_ok(
                VmView {
                    gfx: drawn.0,
                    v: pre.v.update(15, drawn.1),
                    pc: wrap_add16(pre.pc, 2),
                    ..pre
                },
            )
        },
        Instr::Skp(x) => if pre.v[x as int] >= NUM_KEYS {
            Err(Chip8Error::AddressOutOfRange)
        } else {
            step_ok(
                adv(
                    pre,
                    if pre.keys[pre.v[x as int] as int] != 0 {
                        4
                    } else {
                        2
                    },
                ),
            )
        },
        Instr::Sknp(x) => if pre.v[x as int] >= NUM_KEYS {
            Err(Chip8Error::AddressOutOfRange)
        } else {
            step_ok(
                adv(
                    pre,
                    if pre.keys[pre.v[x as int] as int] == 0 {
                        4
                    } else {
                        2
                    },
                ),
            )
        },
        Instr::LdFromDt(x) => step_ok(set_v(pre, x, pre.dt)),
        Instr::WaitKey(x) => match first_key_from(pre.keys, 0) {
            Some(k) => Ok(Executed { post: set_v(pre, x, k), retired: true }),
            None => Ok(Executed { post: pre, retired: false }),
        },
        Instr::LdToDt(x) => step_ok(VmView { dt: pre.v[x as int], pc: wrap_add16(pre.pc, 2), ..pre }),
        Instr::LdToSt(x) => step_ok(VmView { st: pre.v[x as int], pc: wrap_add16(pre.pc, 2), ..pre }),
        Instr::AddI(x) => step_ok(
            VmView { i: wrap_add16(pre.i, pre.v[x as int] as u16), pc: wrap_add16(pre.pc, 2), ..pre },
        ),
        Instr::LdFont(x) => step_ok(
            VmView { i: (FONT_BASE + 5 * pre.v[x as int]) as u16, pc: wrap_add16(pre.pc, 2), ..pre },
        ),
        Instr::Bcd(x) => if pre.i + 2 >= MEM_SIZE {
            Err(Chip8Error::AddressOutOfRange)
        } else {
            let val = pre.v[x as int];
            let mem1 = pre.mem.update(pre.i as int, (val / 100) as u8).update(
                pre.i + 1,
                ((val / 10) % 10) as u8,
            ).update(pre.i + 2, (val % 10) as u8);
            step_ok(VmView { mem: mem1, pc: wrap_add16(pre.pc, 2), ..pre })
        },
        Instr::StoreRegs(x) => if pre.i + x >= MEM_SIZE {
            Err(Chip8Error::AddressOutOfRange)
        } else {
            let i1: u16 = if pre.quirks.index_advances {
                (pre.i + x + 1) as u16
            } else {
                pre.i
            };
            step_ok(
                VmView {
                    mem: store_regs_upto(pre.mem, pre.i, pre.v, x + 1),
                    i: i1,
                    pc: wrap_add16(pre.pc, 2),
                    ..pre
                },
            )
        },
        Instr::LoadRegs(x) => if pre.i + x >= MEM_SIZE {
            Err(Chip8Error::AddressOutOfRange)
        } else {
            let i1: u16 = if pre.quirks.index_advances {
                (pre.i + x + 1) as u16
            } else {
                pre.i
            };
            step_ok(
                VmView {
                    v: load_regs_upto(pre.v, pre.mem, pre.i, x + 1),
                    i: i1,
                    pc: wrap_add16(pre.pc, 2),
                    ..pre
                },
            )
        },
    }
}

/// The big-endian instruction word at the program counter.
pub open spec fn spec_opcode(pre: VmView) -> u16 {
    ((pre.mem[pre.pc as int] as u16) << 8u16) | (pre.mem[pre.pc as int + 1] as u16)
}

/// One whole engine step: fetch the opcode at the program counter, decode
/// it, execute it, then tick both timers. The beep signal reports whether
/// the sound timer was running at tick time. A failed step leaves the
/// machine exactly as it was.
pub open spec fn spec_step(pre: VmView, rnd: u8) -> Result<Stepped, Chip8Error> {
    if pre.pc + 1 >= MEM_SIZE {
        Err(Chip8Error::AddressOutOfRange)
    } else {
        let op = spec_opcode(pre);
        match spec_decode(op) {
            None => Err(Chip8Error::InvalidOpcode(op)),
            Some(ins) => match spec_exec(pre, ins, rnd) {
                Err(e) => Err(e),
                Ok(ex) => Ok(
                    Stepped { post: spec_tick(ex.post), retired: ex.retired, beep: ex.post.st > 0 },
                ),
            },
        }
    }
}

/// A failing step is decided by the machine state alone: the random byte is
/// consumed only by the one instruction that cannot fail, so whenever a step
/// fails for one drawn byte it fails the same way for every other.
pub proof fn lemma_step_err_any_rnd(pre: VmView, r1: u8, r2: u8)
    ensures
        spec_step(pre, r1) is Err ==> spec_step(pre, r2) == spec_step(pre, r1),
{
    if spec_step(pre, r1) is Err && pre.pc + 1 < MEM_SIZE {
        match spec_decode(spec_opcode(pre)) {
            None => {},
            Some(ins) => {
                assert(spec_exec(pre, ins, r2) == spec_exec(pre, ins, r1)) by {
                    match ins {
                        Instr::Rnd(_, _) => {
                            assert(spec_exec(pre, ins, r1) is Ok);
                        },
                        _ => {},
                    }
                }
            },
        }
    }
}

} // verus!
