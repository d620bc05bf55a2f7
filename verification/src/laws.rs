use vstd::prelude::*;

use crate::decode::Instr;
use crate::model::{
    col_bit, draw_cols, draw_rows, pix_pos, spec_exec, view_wf, VmView, MEM_SIZE,
};

verus! {

/// `x % 256` over one wrap-around window, written without the modulo.
proof fn lemma_mod256_window(x: int)
    requires
        0 <= x < 512,
    ensures
        x % 256 == if x < 256 {
            x
        } else {
            x - 256
        },
{
    if x < 256 {
        vstd::arithmetic::div_mod::lemma_small_mod(x as nat, 256);
    } else {
        vstd::arithmetic::div_mod::lemma_mod_multiples_vanish(1, x - 256, 256);
        vstd::arithmetic::div_mod::lemma_small_mod((x - 256) as nat, 256);
    }
}

/// Law: the add-immediate instruction leaves `(Vx + kk) mod 256` in Vx and
/// has no flag side effect, and register addition leaves the same sum in Vx
/// with VF set exactly when the true sum exceeds 255. The flag clauses are
/// stated away from x = VF, where the sum itself lands in the flag register.
pub proof fn lemma_add_semantics(pre: VmView, x: u8, y: u8, kk: u8, rnd: u8)
    requires
        view_wf(pre),
        x < 16,
        y < 16,
    ensures
        spec_exec(pre, Instr::AddByte(x, kk), rnd) matches Ok(ex)
            && ex.post.v[x as int] == (pre.v[x as int] + kk) % 256
            && (x != 15 ==> ex.post.v[15] == pre.v[15]),
        spec_exec(pre, Instr::AddReg(x, y), rnd) matches Ok(ex)
            && ex.post.v[x as int] == (pre.v[x as int] + pre.v[y as int]) % 256
            && (x != 15 ==> ex.post.v[15] == (if pre.v[x as int] + pre.v[y as int] > 255 {
            1u8
        } else {
            0u8
        })),
{
    lemma_mod256_window(pre.v[x as int] + kk);
    lemma_mod256_window(pre.v[x as int] + pre.v[y as int]);
}

/// Law: register subtraction in both directions wraps as two's-complement
/// arithmetic modulo 256, and VF reports "no borrow": for `Vx - Vy` it is 1
/// exactly when Vx > Vy, for the reversed form 1 exactly when Vy > Vx. The
/// operand registers are taken away from VF itself, which the instruction
/// overwrites before the difference is formed.
pub proof fn lemma_sub_semantics(pre: VmView, x: u8, y: u8, rnd: u8)
    requires
        view_wf(pre),
        x < 16,
        y < 16,
        x != 15,
        y != 15,
    ensures
        spec_exec(pre, Instr::SubReg(x, y), rnd) matches Ok(ex)
            && ex.post.v[x as int] == (pre.v[x as int] - pre.v[y as int] + 256) % 256
            && ex.post.v[15] == (if pre.v[x as int] > pre.v[y as int] {
            1u8
        } else {
            0u8
        }),
        spec_exec(pre, Instr::SubnReg(x, y), rnd) matches Ok(ex)
            && ex.post.v[x as int] == (pre.v[y as int] - pre.v[x as int] + 256) % 256
            && ex.post.v[15] == (if pre.v[y as int] > pre.v[x as int] {
            1u8
        } else {
            0u8
        }),
{
    lemma_mod256_window(pre.v[x as int] - pre.v[y as int] + 256);
    lemma_mod256_window(pre.v[y as int] - pre.v[x as int] + 256);
}

/// The parity of toggles that the first `ncols` columns of one sprite row
/// apply to display cell `p`: 1 when an odd number of set sprite bits land
/// on `p`, else 0.
spec fn col_toggles(pixel: u8, xp: u8, yp: u8, row: int, ncols: int, p: int) -> u8
    decreases ncols,
{
    if ncols <= 0 {
        0u8
    } else {
        let prev = col_toggles(pixel, xp, yp, row, ncols - 1, p);
        if col_bit(pixel, ncols - 1) && pix_pos(xp, yp, row, ncols - 1) == p {
            prev ^ 1
        } else {
            prev
        }
    }
}

/// The parity of toggles that the first `nrows` sprite rows apply to
/// display cell `p`.
spec fn rows_toggles(mem: Seq<u8>, i: u16, xp: u8, yp: u8, nrows: int, p: int) -> u8
    decreases nrows,
{
    if nrows <= 0 {
        0u8
    } else {
        rows_toggles(mem, i, xp, yp, nrows - 1, p) ^ col_toggles(
            mem[i + (nrows - 1)],
            xp,
            yp,
            nrows - 1,
            8,
            p,
        )
    }
}

/// Compositing one sprite row changes each display cell by exactly the
/// parity of the sprite bits that land on it.
proof fn lemma_draw_cols_pointwise(
    gfx: Seq<u8>,
    vf: u8,
    pixel: u8,
    xp: u8,
    yp: u8,
    row: int,
    n: int,
    p: int,
)
    requires
        gfx.len() == 2048,
        0 <= p < 2048,
        0 <= n <= 8,
        row >= 0,
    ensures
        draw_cols(gfx, vf, pixel, xp, yp, row, n).0.len() == 2048,
        draw_cols(gfx, vf, pixel, xp, yp, row, n).0[p] == gfx[p] ^ col_toggles(
            pixel,
            xp,
            yp,
            row,
            n,
            p,
        ),
    decreases n,
{
    let gp = gfx[p];
    if n <= 0 {
        assert(gp ^ 0u8 == gp) by (bit_vector);
    } else {
        lemma_draw_cols_pointwise(gfx, vf, pixel, xp, yp, row, n - 1, p);
        let m = col_toggles(pixel, xp, yp, row, n - 1, p);
        assert((gp ^ m) ^ 1u8 == gp ^ (m ^ 1u8)) by (bit_vector);
    }
}

/// Compositing a whole sprite changes each display cell by exactly the
/// parity of the sprite bits that land on it.
proof fn lemma_draw_rows_pointwise(
    gfx: Seq<u8>,
    vf: u8,
    mem: Seq<u8>,
    i: u16,
    xp: u8,
    yp: u8,
    n: int,
    p: int,
)
    requires
        gfx.len() == 2048,
        0 <= p < 2048,
        0 <= n,
    ensures
        draw_rows(gfx, vf, mem, i, xp, yp, n).0.len() == 2048,
        draw_rows(gfx, vf, mem, i, xp, yp, n).0[p] == gfx[p] ^ rows_toggles(mem, i, xp, yp, n, p),
    decreases n,
{
    let gp = gfx[p];
    if n <= 0 {
        assert(gp ^ 0u8 == gp) by (bit_vector);
    } else {
        lemma_draw_rows_pointwise(gfx, vf, mem, i, xp, yp, n - 1, p);
        let prev = draw_rows(gfx, vf, mem, i, xp, yp, n - 1);
        lemma_draw_cols_pointwise(prev.0, prev.1, mem[i + (n - 1)], xp, yp, n - 1, 8, p);
        let m = rows_toggles(mem, i, xp, yp, n - 1, p);
        let c = col_toggles(mem[i + (n - 1)], xp, yp, n - 1, 8, p);
        assert((gp ^ m) ^ c == gp ^ (m ^ c)) by (bit_vector);
    }
}

/// Law: sprite drawing is an involution on the display. Drawing the same
/// sprite at the same position twice in succession restores every pixel,
/// because each pass toggles exactly the same cells. The coordinate
/// registers are taken away from VF, which the first draw overwrites with
/// the collision flag and so would move the second sprite.
pub proof fn lemma_draw_twice_restores(pre: VmView, x: u8, y: u8, n: u8, rnd1: u8, rnd2: u8)
    requires
        view_wf(pre),
        x < 16,
        y < 16,
        x != 15,
        y != 15,
        n < 16,
        n > 0 ==> pre.i + n <= MEM_SIZE,
    ensures
        spec_exec(pre, Instr::Drw(x, y, n), rnd1) matches Ok(e1)
            && spec_exec(e1.post, Instr::Drw(x, y, n), rnd2) matches Ok(e2)
            && e2.post.gfx == pre.gfx,
{
    let xp = pre.v[x as int];
    let yp = pre.v[y as int];
    let first = draw_rows(pre.gfx, 0u8, pre.mem, pre.i, xp, yp, n as int);
    let second = draw_rows(first.0, 0u8, pre.mem, pre.i, xp, yp, n as int);
    assert forall|p: int| 0 <= p < 2048 implies second.0[p] == pre.gfx[p] by {
        lemma_draw_rows_pointwise(pre.gfx, 0u8, pre.mem, pre.i, xp, yp, n as int, p);
        lemma_draw_rows_pointwise(first.0, 0u8, pre.mem, pre.i, xp, yp, n as int, p);
        let gp = pre.gfx[p];
        let t = rows_toggles(pre.mem, pre.i, xp, yp, n as int, p);
        assert((gp ^ t) ^ t == gp) by (bit_vector);
    }
    lemma_draw_rows_pointwise(pre.gfx, 0u8, pre.mem, pre.i, xp, yp, n as int, 0);
    lemma_draw_rows_pointwise(first.0, 0u8, pre.mem, pre.i, xp, yp, n as int, 0);
    assert(second.0 =~= pre.gfx);
}

/// Law: the call stack admits exactly sixteen nested calls. A call with a
/// free slot pushes the return address of the following instruction and
/// descends; a call with all sixteen slots in use fails as a stack
/// overflow; a return with a nonempty stack pops back to the pushed
/// address; a return with an empty stack fails as a stack underflow.
pub proof fn lemma_stack_discipline(pre: VmView, nnn: u16, rnd: u8)
    requires
        view_wf(pre),
        pre.pc < 4095,
    ensures
        pre.sp < 16 ==> (spec_exec(pre, Instr::Call(nnn), rnd) matches Ok(ex)
            && ex.post.sp == pre.sp + 1
            && ex.post.stack[pre.sp as int] == pre.pc + 2
            && ex.post.pc == nnn),
        pre.sp == 16 ==> spec_exec(pre, Instr::Call(nnn), rnd) == Err::<
            crate::model::Executed,
            crate::errors::Chip8Error,
        >(crate::errors::Chip8Error::StackOverflow),
        pre.sp > 0 ==> (spec_exec(pre, Instr::Ret, rnd) matches Ok(ex)
            && ex.post.sp == pre.sp - 1
            && ex.post.pc == pre.stack[pre.sp - 1]),
        pre.sp == 0 ==> spec_exec(pre, Instr::Ret, rnd) == Err::<
            crate::model::Executed,
            crate::errors::Chip8Error,
        >(crate::errors::Chip8Error::StackUnderflow),
{
}

/// Law: every conditional skip advances the program counter by exactly 4
/// when its condition holds and by exactly 2 otherwise — equality and
/// inequality against an immediate, between two registers, and on the key
/// state addressed by Vx.
pub proof fn lemma_skip_advance(pre: VmView, x: u8, y: u8, kk: u8, rnd: u8)
    requires
        view_wf(pre),
        x < 16,
        y < 16,
        pre.pc < 4095,
    ensures
        spec_exec(pre, Instr::SeByte(x, kk), rnd) matches Ok(ex) && ex.post.pc == pre.pc + (
        if pre.v[x as int] == kk {
            4int
        } else {
            2int
        }),
        spec_exec(pre, Instr::SneByte(x, kk), rnd) matches Ok(ex) && ex.post.pc == pre.pc + (
        if pre.v[x as int] != kk {
            4int
        } else {
            2int
        }),
        spec_exec(pre, Instr::SeReg(x, y), rnd) matches Ok(ex) && ex.post.pc == pre.pc + (
        if pre.v[x as int] == pre.v[y as int] {
            4int
        } else {
            2int
        }),
        spec_exec(pre, Instr::SneReg(x, y), rnd) matches Ok(ex) && ex.post.pc == pre.pc + (
        if pre.v[x as int] != pre.v[y as int] {
            4int
        } else {
            2int
        }),
        pre.v[x as int] < 16 ==> (spec_exec(pre, Instr::Skp(x), rnd) matches Ok(ex) && ex.post.pc
            == pre.pc + (if pre.keys[pre.v[x as int] as int] != 0 {
            4int
        } else {
            2int
        })),
        pre.v[x as int] < 16 ==> (spec_exec(pre, Instr::Sknp(x), rnd) matches Ok(ex) && ex.post.pc
            == pre.pc + (if pre.keys[pre.v[x as int] as int] == 0 {
            4int
        } else {
            2int
        })),
{
}

} // verus!
