use vstd::prelude::*;

use crate::decode::{decode, Instr};
use crate::errors::{Chip8Error, Quirks, StepOutcome};
use crate::model::{
    draw_cols, draw_rows, first_key_from, initial_view, load_regs_upto, spec_exec, spec_fontset,
    spec_load_fontset, spec_load_rom, spec_opcode, spec_step, spec_tick, store_regs_upto, view_wf,
    Executed, Stepped, VmView, DISPLAY_SIZE, FONT_BASE, FONT_SIZE, MEM_SIZE, NUM_KEYS, NUM_REGS,
    PROGRAM_START, STACK_SIZE,
};
use rand::Rng;

verus! {

/// The virtual machine: registers, memory, stack, timers, display and
/// keypad. All state lives here; the execution engine mutates it in place,
/// one instruction per step. The display, keypad and sound timer are the
/// interface to the outside: a presenter reads `gfx` and the step's beep
/// signal between steps, and an input collaborator writes `keypad`.
#[derive(Debug)]
pub struct Chip8 {
    /// Program counter.
    pub pc: u16,
    /// The 4096 bytes of memory; the fixed length is part of `wf`.
    pub memory: Vec<u8>,
    /// The sixteen general registers V0..VF.
    pub v_reg: Vec<u8>,
    /// The sixteen-bit index register I.
    pub i_reg: u16,
    /// The sixteen call-stack slots.
    pub stack: Vec<u16>,
    /// The stack pointer: number of stack slots in use.
    pub sp: u16,
    /// The 64x32 display cells, row-major, each 0 or 1.
    pub gfx: Vec<u8>,
    /// The sixteen key states, written by the input collaborator.
    pub keypad: Vec<u8>,
    /// Sound timer; the machine beeps while it is nonzero.
    pub sound_timer: u8,
    /// Delay timer.
    pub delay_timer: u8,
    /// The configured compatibility quirks.
    pub quirks: Quirks,
}

impl View for Chip8 {
    type V = VmView;

    open spec fn view(&self) -> VmView {
        VmView {
            pc: self.pc,
            mem: self.memory@,
            v: self.v_reg@,
            i: self.i_reg,
            stack: self.stack@,
            sp: self.sp,
            gfx: self.gfx@,
            keys: self.keypad@,
            dt: self.delay_timer,
            st: self.sound_timer,
            quirks: self.quirks,
        }
    }
}

/// A vector of `n` zero bytes.
fn zero_bytes(n: usize) -> (v: Vec<u8>)
    ensures
        v@ == Seq::new(n as nat, |j: int| 0u8),
{
    let mut v: Vec<u8> = Vec::new();
    let mut k: usize = 0;
    while k < n
        invariant
            k <= n,
            v@.len() == k,
            forall|j: int| 0 <= j < k ==> v@[j] == 0u8,
        decreases n - k,
    {
        v.push(0);
        k = k + 1;
    }
    proof {
        assert(v@ =~= Seq::new(n as nat, |j: int| 0u8));
    }
    v
}

/// A vector of `n` zero words.
fn zero_words(n: usize) -> (v: Vec<u16>)
    ensures
        v@ == Seq::new(n as nat, |j: int| 0u16),
{
    let mut v: Vec<u16> = Vec::new();
    let mut k: usize = 0;
    while k < n
        invariant
            k <= n,
            v@.len() == k,
            forall|j: int| 0 <= j < k ==> v@[j] == 0u16,
        decreases n - k,
    {
        v.push(0);
        k = k + 1;
    }
    proof {
        assert(v@ =~= Seq::new(n as nat, |j: int| 0u16));
    }
    v
}

/// The glyph table as bytes, equal to the mathematical `spec_fontset`.
fn font_table() -> (t: Vec<u8>)
    ensures
        t@ == spec_fontset(),
{
    let mut t: Vec<u8> = Vec::new();
    t.push(0xF0); t.push(0x90); t.push(0x90); t.push(0x90); t.push(0xF0); // 0
    t.push(0x20); t.push(0x60); t.push(0x20); t.push(0x20); t.push(0x70); // 1
    t.push(0xF0); t.push(0x10); t.push(0xF0); t.push(0x80); t.push(0xF0); // 2
    t.push(0xF0); t.push(0x10); t.push(0xF0); t.push(0x10); t.push(0xF0); // 3
    t.push(0x90); t.push(0x90); t.push(0xF0); t.push(0x10); t.push(0x10); // 4
    t.push(0xF0); t.push(0x80); t.push(0xF0); t.push(0x10); t.push(0xF0); // 5
    t.push(0xF0); t.push(0x80); t.push(0xF0); t.push(0x90); t.push(0xF0); // 6
    t.push(0xF0); t.push(0x10); t.push(0x20); t.push(0x40); t.push(0x40); // 7
    t.push(0xF0); t.push(0x90); t.push(0xF0); t.push(0x90); t.push(0xF0); // 8
    t.push(0xF0); t.push(0x90); t.push(0xF0); t.push(0x10); t.push(0xF0); // 9
    t.push(0xF0); t.push(0x90); t.push(0xF0); t.push(0x90); t.push(0x90); // A
    t.push(0xE0); t.push(0x90); t.push(0xE0); t.push(0x90); t.push(0xE0); // B
    t.push(0xF0); t.push(0x80); t.push(0x80); t.push(0x80); t.push(0xF0); // C
    t.push(0xE0); t.push(0x90); t.push(0x90); t.push(0x90); t.push(0xE0); // D
    t.push(0xF0); t.push(0x80); t.push(0xF0); t.push(0x80); t.push(0xF0); // E
    t.push(0xF0); t.push(0x80); t.push(0xF0); t.push(0x80); t.push(0x80); // F
    proof {
        assert(t@ =~= spec_fontset());
    }
    t
}

impl Chip8 {
    /// The machine's structural invariant, stated over its view.
    pub open spec fn wf(&self) -> bool {
        view_wf(self@)
    }

    /// A fresh machine: all state zero-initialized, the program counter at
    /// the program origin, and the historical quirk choices.
    pub fn new() -> (vm: Chip8)
        ensures
            vm.wf(),
            vm@ == initial_view(),
    {
        let vm = Chip8 {
            pc: 0x200,
            memory: zero_bytes(MEM_SIZE),
            v_reg: zero_bytes(NUM_REGS),
            i_reg: 0,
            stack: zero_words(STACK_SIZE),
            sp: 0,
            gfx: zero_bytes(DISPLAY_SIZE),
            keypad: zero_bytes(NUM_KEYS),
            sound_timer: 0,
            delay_timer: 0,
            quirks: Quirks { shift_reads_vy: true, index_advances: true },
        };
        proof {
            assert(vm@ =~= initial_view());
        }
        vm
    }

    /// Choose the compatibility quirks; everything else is untouched.
    pub fn set_quirks(&mut self, q: Quirks)
        ensures
            final(self)@ == (VmView { quirks: q, ..old(self)@ }),
    {
        self.quirks = q;
        proof {
            assert(self@ =~= (VmView { quirks: q, ..old(self)@ }));
        }
    }

    /// Install the built-in glyph table at `FONT_BASE`; no other state
    /// changes.
    pub fn load_fontset(&mut self)
        requires
            old(self).wf(),
        ensures
            final(self).wf(),
            final(self)@ == (VmView { mem: spec_load_fontset(old(self)@.mem), ..old(self)@ }),
    {
        let font = font_table();
        let mut k: usize = 0;
        while k < FONT_SIZE
            invariant
                k <= FONT_SIZE,
                font@ == spec_fontset(),
                self.memory@.len() == MEM_SIZE,
                self@ == (VmView { mem: self.memory@, ..old(self)@ }),
                forall|j: int| 0 <= j < k ==> self.memory@[FONT_BASE + j] == spec_fontset()[j],
                forall|j: int|
                    0 <= j < MEM_SIZE && !(FONT_BASE <= j < FONT_BASE + k) ==> self.memory@[j]
                        == old(self).memory@[j],
            decreases FONT_SIZE - k,
        {
            self.memory.set(FONT_BASE + k, font[k]);
            k = k + 1;
        }
        proof {
            assert(self@.mem =~= spec_load_fontset(old(self)@.mem));
            assert(self@ =~= (VmView { mem: spec_load_fontset(old(self)@.mem), ..old(self)@ }));
        }
    }

    /// Copy a program image into memory at the program origin. An image
    /// longer than the room between the origin and the end of memory is
    /// rejected whole as `RomTooLarge`; no other state changes.
    pub fn load_rom(&mut self, rom: &[u8]) -> (r: Result<(), Chip8Error>)
        requires
            old(self).wf(),
        ensures
            final(self).wf(),
            match r {
                Ok(_) => rom@.len() <= MEM_SIZE - PROGRAM_START && final(self)@ == (VmView {
                    mem: spec_load_rom(old(self)@.mem, rom@),
                    ..old(self)@
                }),
                Err(e) => {
                    &&& e == Chip8Error::RomTooLarge
                    &&& rom@.len() > MEM_SIZE - PROGRAM_START
                    &&& final(self)@ == old(self)@
                },
            },
    {
        if rom.len() > MEM_SIZE - PROGRAM_START {
            return Err(Chip8Error::RomTooLarge);
        }
        let mut k: usize = 0;
        while k < rom.len()
            invariant
                k <= rom@.len(),
                rom@.len() <= MEM_SIZE - PROGRAM_START,
                self.memory@.len() == MEM_SIZE,
                self@ == (VmView { mem: self.memory@, ..old(self)@ }),
                forall|j: int| 0 <= j < k ==> self.memory@[PROGRAM_START + j] == rom@[j],
                forall|j: int|
                    0 <= j < MEM_SIZE && !(PROGRAM_START <= j < PROGRAM_START + k)
                        ==> self.memory@[j] == old(self).memory@[j],
            decreases rom@.len() - k,
        {
            self.memory.set(PROGRAM_START + k, rom[k]);
            k = k + 1;
        }
        proof {
            assert(self@.mem =~= spec_load_rom(old(self)@.mem, rom@));
            assert(self@ =~= (VmView { mem: spec_load_rom(old(self)@.mem, rom@), ..old(self)@ }));
        }
        Ok(())
    }

    /// Clear the display and advance past the instruction.
    fn exec_cls(&mut self, rnd: u8) -> (r: Result<(), Chip8Error>)
        requires
            old(self).wf(),
            old(self).pc < 4095,
        ensures
            r is Ok,
            final(self).wf(),
            spec_exec(old(self)@, Instr::Cls, rnd) matches Ok(ex) && ex.post == final(self)@
                && ex.retired,
    {
        let mut k: usize = 0;
        while k < DISPLAY_SIZE
            invariant
                k <= DISPLAY_SIZE,
                self@ == (VmView { gfx: self.gfx@, ..old(self)@ }),
                self.gfx@.len() == DISPLAY_SIZE,
                forall|j: int| 0 <= j < k ==> self.gfx@[j] == 0u8,
            decreases DISPLAY_SIZE - k,
        {
            self.gfx.set(k, 0);
            k = k + 1;
        }
        self.pc = self.pc + 2;
        proof {
            assert(self@.gfx =~= Seq::new(DISPLAY_SIZE as nat, |j: int| 0u8));
            assert(spec_exec(old(self)@, Instr::Cls, rnd) matches Ok(ex) && ex.post =~= self@);
        }
        Ok(())
    }

    /// Composite the `n`-byte sprite at memory[I..] onto the display at
    /// (Vx, Vy), exactly as `draw_rows` describes, latching the collision
    /// flag into VF.
    fn exec_draw(&mut self, x: u8, y: u8, n: u8, rnd: u8) -> (r: Result<(), Chip8Error>)
        requires
            old(self).wf(),
            x < 16,
            y < 16,
            n < 16,
            old(self).pc < 4095,
        ensures
            final(self).wf(),
            match r {
                Ok(_) => spec_exec(old(self)@, Instr::Drw(x, y, n), rnd) matches Ok(ex)
                    && ex.post == final(self)@ && ex.retired,
                Err(e) => final(self)@ == old(self)@ && spec_exec(old(self)@, Instr::Drw(x, y, n), rnd)
                    == Err::<Executed, Chip8Error>(e),
            },
    {
        if n > 0 && self.i_reg as usize + n as usize > MEM_SIZE {
            return Err(Chip8Error::AddressOutOfRange);
        }
        let xp = self.v_reg[x as usize];
        let yp = self.v_reg[y as usize];
        let mut vf: u8 = 0;
        let mut row: u8 = 0;
        while row < n
            invariant
                row <= n,
                n < 16,
                self@ == (VmView { gfx: self.gfx@, ..old(self)@ }),
                self.gfx@.len() == DISPLAY_SIZE,
                old(self).wf(),
                n > 0 ==> old(self)@.i + n <= MEM_SIZE,
                xp == old(self)@.v[x as int],
                yp == old(self)@.v[y as int],
                (self.gfx@, vf) == draw_rows(
                    old(self)@.gfx,
                    0u8,
                    old(self)@.mem,
                    old(self)@.i,
                    xp,
                    yp,
                    row as int,
                ),
            decreases n - row,
        {
            let pixel = self.memory[self.i_reg as usize + row as usize];
            let ghost gfx_row = self.gfx@;
            let ghost vf_row = vf;
            let mut col: u8 = 0;
            while col < 8
                invariant
                    col <= 8,
                    row < n,
                    n < 16,
                    self@ == (VmView { gfx: self.gfx@, ..old(self)@ }),
                    self.gfx@.len() == DISPLAY_SIZE,
                    old(self).wf(),
                    old(self)@.i + n <= MEM_SIZE,
                    pixel == old(self)@.mem[old(self)@.i + row],
                    xp == old(self)@.v[x as int],
                    yp == old(self)@.v[y as int],
                    (gfx_row, vf_row) == draw_rows(
                        old(self)@.gfx,
                        0u8,
                        old(self)@.mem,
                        old(self)@.i,
                        xp,
                        yp,
                        row as int,
                    ),
                    (self.gfx@, vf) == draw_cols(gfx_row, vf_row, pixel, xp, yp, row as int, col as int),
                decreases 8 - col,
            {
                if pixel & (0x80u8 >> col) != 0 {
                    let pos = ((xp as usize + col as usize) + (yp as usize + row as usize) * 64)
                        % 2048;
                    if self.gfx[pos] == 1 {
                        vf = 1;
                    }
                    let cur = self.gfx[pos];
                    self.gfx.set(pos, cur ^ 1);
                }
                col = col + 1;
            }
            row = row + 1;
        }
        self.v_reg.set(15, vf);
        self.pc = self.pc + 2;
        proof {
            assert(spec_exec(old(self)@, Instr::Drw(x, y, n), rnd) matches Ok(ex) && ex.post
                =~= self@);
        }
        Ok(())
    }

    /// Copy V0..=Vx into memory at I, exactly as `store_regs_upto`
    /// describes, then apply the index-advance quirk.
    fn exec_store_regs(&mut self, x: u8, rnd: u8) -> (r: Result<(), Chip8Error>)
        requires
            old(self).wf(),
            x < 16,
            old(self).pc < 4095,
        ensures
            final(self).wf(),
            match r {
                Ok(_) => spec_exec(old(self)@, Instr::StoreRegs(x), rnd) matches Ok(ex)
                    && ex.post == final(self)@ && ex.retired,
                Err(e) => final(self)@ == old(self)@ && spec_exec(
                    old(self)@,
                    Instr::StoreRegs(x),
                    rnd,
                ) == Err::<Executed, Chip8Error>(e),
            },
    {
        if self.i_reg as usize + x as usize >= MEM_SIZE {
            return Err(Chip8Error::AddressOutOfRange);
        }
        let mut k: usize = 0;
        while k < x as usize + 1
            invariant
                k <= x + 1,
                x < 16,
                self@ == (VmView { mem: self.memory@, ..old(self)@ }),
                self.memory@.len() == MEM_SIZE,
                old(self).wf(),
                old(self)@.i + x < MEM_SIZE,
                self.memory@ == store_regs_upto(old(self)@.mem, old(self)@.i, old(self)@.v, k as int),
            decreases x as usize + 1 - k,
        {
            self.memory.set(self.i_reg as usize + k, self.v_reg[k]);
            k = k + 1;
        }
        if self.quirks.index_advances {
            self.i_reg = self.i_reg + x as u16 + 1;
        }
        self.pc = self.pc + 2;
        proof {
            assert(spec_exec(old(self)@, Instr::StoreRegs(x), rnd) matches Ok(ex) && ex.post
                =~= self@);
        }
        Ok(())
    }

    /// Fill V0..=Vx from memory at I, exactly as `load_regs_upto`
    /// describes, then apply the index-advance quirk.
    fn exec_load_regs(&mut self, x: u8, rnd: u8) -> (r: Result<(), Chip8Error>)
        requires
            old(self).wf(),
            x < 16,
            old(self).pc < 4095,
        ensures
            final(self).wf(),
            match r {
                Ok(_) => spec_exec(old(self)@, Instr::LoadRegs(x), rnd) matches Ok(ex)
                    && ex.post == final(self)@ && ex.retired,
                Err(e) => final(self)@ == old(self)@ && spec_exec(
                    old(self)@,
                    Instr::LoadRegs(x),
                    rnd,
                ) == Err::<Executed, Chip8Error>(e),
            },
    {
        if self.i_reg as usize + x as usize >= MEM_SIZE {
            return Err(Chip8Error::AddressOutOfRange);
        }
        let mut k: usize = 0;
        while k < x as usize + 1
            invariant
                k <= x + 1,
                x < 16,
                self@ == (VmView { v: self.v_reg@, ..old(self)@ }),
                self.v_reg@.len() == NUM_REGS,
                old(self).wf(),
                old(self)@.i + x < MEM_SIZE,
                self.v_reg@ == load_regs_upto(old(self)@.v, old(self)@.mem, old(self)@.i, k as int),
            decreases x as usize + 1 - k,
        {
            self.v_reg.set(k, self.memory[self.i_reg as usize + k]);
            k = k + 1;
        }
        if self.quirks.index_advances {
            self.i_reg = self.i_reg + x as u16 + 1;
        }
        self.pc = self.pc + 2;
        proof {
            assert(spec_exec(old(self)@, Instr::LoadRegs(x), rnd) matches Ok(ex) && ex.post
                =~= self@);
        }
        Ok(())
    }

    /// The lowest-numbered key currently pressed, if any.
    fn first_pressed(&self) -> (r: Option<u8>)
        requires
            self.wf(),
        ensures
            r == first_key_from(self@.keys, 0),
    {
        let mut k: usize = 0;
        while k < NUM_KEYS
            invariant
                k <= NUM_KEYS,
                self.wf(),
                first_key_from(self@.keys, 0) == first_key_from(self@.keys, k as int),
            decreases NUM_KEYS - k,
        {
            if self.keypad[k] == 1 {
                return Some(k as u8);
            }
            k = k + 1;
        }
        None
    }

    /// One timer tick: each timer counts down once while nonzero.
    fn tick(&mut self)
        ensures
            final(self)@ == spec_tick(old(self)@),
    {
        if self.delay_timer > 0 {
            self.delay_timer = self.delay_timer - 1;
        }
        if self.sound_timer > 0 {
            self.sound_timer = self.sound_timer - 1;
        }
        proof {
            assert(self@ =~= spec_tick(old(self)@));
        }
    }

    /// Execute one decoded instruction, exactly as `spec_exec` describes.
    /// Returns whether the instruction retired; on failure the machine is
    /// untouched. `rnd` is the random byte consumed by the Cxkk instruction.
    fn exec_instr(&mut self, ins: Instr, rnd: u8) -> (r: Result<bool, Chip8Error>)
        requires
            old(self).wf(),
            crate::decode::instr_wf(ins),
            old(self).pc < 4095,
        ensures
            final(self).wf(),
            match r {
                Ok(retired) => spec_exec(old(self)@, ins, rnd) matches Ok(ex) && ex.post
                    == final(self)@ && ex.retired == retired,
                Err(e) => final(self)@ == old(self)@ && spec_exec(old(self)@, ins, rnd)
                    == Err::<Executed, Chip8Error>(e),
            },
    {
        match ins {
            Instr::Cls => {
                let r = self.exec_cls(rnd);
                match r {
                    Ok(_) => Ok(true),
                    Err(e) => Err(e),
                }
            },
            Instr::Ret => {
                if self.sp == 0 {
                    return Err(Chip8Error::StackUnderflow);
                }
                self.sp = self.sp - 1;
                self.pc = self.stack[self.sp as usize];
                proof {
                    assert(spec_exec(old(self)@, ins, rnd) matches Ok(ex) && ex.post =~= self@);
                }
                Ok(true)
            },
            Instr::Jp(nnn) => {
                self.pc = nnn;
                proof {
                    assert(spec_exec(old(self)@, ins, rnd) matches Ok(ex) && ex.post =~= self@);
                }
                Ok(true)
            },
            Instr::Call(nnn) => {
                if self.sp as usize >= STACK_SIZE {
                    return Err(Chip8Error::StackOverflow);
                }
                self.stack.set(self.sp as usize, self.pc + 2);
                self.sp = self.sp + 1;
                self.pc = nnn;
                proof {
                    assert(spec_exec(old(self)@, ins, rnd) matches Ok(ex) && ex.post =~= self@);
                }
                Ok(true)
            },
            Instr::SeByte(x, kk) => {
                if self.v_reg[x as usize] == kk {
                    self.pc = self.pc + 4;
                } else {
                    self.pc = self.pc + 2;
                }
                proof {
                    assert(spec_exec(old(self)@, ins, rnd) matches Ok(ex) && ex.post =~= self@);
                }
                Ok(true)
            },
            Instr::SneByte(x, kk) => {
                if self.v_reg[x as usize] != kk {
                    self.pc = self.pc + 4;
                } else {
                    self.pc = self.pc + 2;
                }
                proof {
                    assert(spec_exec(old(self)@, ins, rnd) matches Ok(ex) && ex.post =~= self@);
                }
                Ok(true)
            },
            Instr::SeReg(x, y) => {
                if self.v_reg[x as usize] == self.v_reg[y as usize] {
                    self.pc = self.pc + 4;
                } else {
                    self.pc = self.pc + 2;
                }
                proof {
                    assert(spec_exec(old(self)@, ins, rnd) matches Ok(ex) && ex.post =~= self@);
                }
                Ok(true)
            },
            Instr::LdByte(x, kk) => {
                self.v_reg.set(x as usize, kk);
                self.pc = self.pc + 2;
                proof {
                    assert(spec_exec(old(self)@, ins, rnd) matches Ok(ex) && ex.post =~= self@);
                }
                Ok(true)
            },
            Instr::AddByte(x, kk) => {
                let a = self.v_reg[x as usize];
                let s: u16 = a as u16 + kk as u16;
                let val: u8 = if s < 256 {
                    s as u8
                } else {
                    (s - 256) as u8
                };
                self.v_reg.set(x as usize, val);
                self.pc = self.pc + 2;
                proof {
                    assert(spec_exec(old(self)@, ins, rnd) matches Ok(ex) && ex.post =~= self@);
                }
                Ok(true)
            },
            Instr::LdReg(x, y) => {
                let b = self.v_reg[y as usize];
                self.v_reg.set(x as usize, b);
                self.pc = self.pc + 2;
                proof {
                    assert(spec_exec(old(self)@, ins, rnd) matches Ok(ex) && ex.post =~= self@);
                }
                Ok(true)
            },
            Instr::OrReg(x, y) => {
                let val = self.v_reg[x as usize] | self.v_reg[y as usize];
                self.v_reg.set(x as usize, val);
                self.pc = self.pc + 2;
                proof {
                    assert(spec_exec(old(self)@, ins, rnd) matches Ok(ex) && ex.post =~= self@);
                }
                Ok(true)
            },
            Instr::AndReg(x, y) => {
                let val = self.v_reg[x as usize] & self.v_reg[y as usize];
                self.v_reg.set(x as usize, val);
                self.pc = self.pc + 2;
                proof {
                    assert(spec_exec(old(self)@, ins, rnd) matches Ok(ex) && ex.post =~= self@);
                }
                Ok(true)
            },
            Instr::XorReg(x, y) => {
                let val = self.v_reg[x as usize] ^ self.v_reg[y as usize];
                self.v_reg.set(x as usize, val);
                self.pc = self.pc + 2;
                proof {
                    assert(spec_exec(old(self)@, ins, rnd) matches Ok(ex) && ex.post =~= self@);
                }
                Ok(true)
            },
            Instr::AddReg(x, y) => {
                let a = self.v_reg[x as usize];
                let b = self.v_reg[y as usize];
                let s: u16 = a as u16 + b as u16;
                let carry: u8 = if s > 255 {
                    1
                } else {
                    0
                };
                self.v_reg.set(15, carry);
                let val: u8 = if s < 256 {
                    s as u8
                } else {
                    (s - 256) as u8
                };
                self.v_reg.set(x as usize, val);
                self.pc = self.pc + 2;
                proof {
                    assert(spec_exec(old(self)@, ins, rnd) matches Ok(ex) && ex.post =~= self@);
                }
                Ok(true)
            },
            Instr::SubReg(x, y) => {
                let noborrow: u8 = if self.v_reg[x as usize] > self.v_reg[y as usize] {
                    1
                } else {
                    0
                };
                self.v_reg.set(15, noborrow);
                let a = self.v_reg[x as usize];
                let b = self.v_reg[y as usize];
                let val: u8 = if a >= b {
                    a - b
                } else {
                    ((a as u16 + 256) - b as u16) as u8
                };
                self.v_reg.set(x as usize, val);
                self.pc = self.pc + 2;
                proof {
                    assert(spec_exec(old(self)@, ins, rnd) matches Ok(ex) && ex.post =~= self@);
                }
                Ok(true)
            },
            Instr::ShrReg(x, y) => {
                let src: u8 = if self.quirks.shift_reads_vy {
                    y
                } else {
                    x
                };
                let f: u8 = self.v_reg[src as usize] & 0x01;
                self.v_reg.set(15, f);
                let s = self.v_reg[src as usize];
                self.v_reg.set(x as usize, s >> 1u8);
                self.pc = self.pc + 2;
                proof {
                    assert(spec_exec(old(self)@, ins, rnd) matches Ok(ex) && ex.post =~= self@);
                }
                Ok(true)
            },
            Instr::SubnReg(x, y) => {
                let noborrow: u8 = if self.v_reg[y as usize] > self.v_reg[x as usize] {
                    1
                } else {
                    0
                };
                self.v_reg.set(15, noborrow);
                let a = self.v_reg[x as usize];
                let b = self.v_reg[y as usize];
                let val: u8 = if b >= a {
                    b - a
                } else {
                    ((b as u16 + 256) - a as u16) as u8
                };
                self.v_reg.set(x as usize, val);
                self.pc = self.pc + 2;
                proof {
                    assert(spec_exec(old(self)@, ins, rnd) matches Ok(ex) && ex.post =~= self@);
                }
                Ok(true)
            },
            Instr::ShlReg(x, y) => {
                let src: u8 = if self.quirks.shift_reads_vy {
                    y
                } else {
                    x
                };
                let f: u8 = self.v_reg[src as usize] & 0x80;
                self.v_reg.set(15, f);
                let s = self.v_reg[src as usize];
                self.v_reg.set(x as usize, s << 1u8);
                self.pc = self.pc + 2;
                proof {
                    assert(spec_exec(old(self)@, ins, rnd) matches Ok(ex) && ex.post =~= self@);
                }
                Ok(true)
            },
            Instr::SneReg(x, y) => {
                if self.v_reg[x as usize] != self.v_reg[y as usize] {
                    self.pc = self.pc + 4;
                } else {
                    self.pc = self.pc + 2;
                }
                proof {
                    assert(spec_exec(old(self)@, ins, rnd) matches Ok(ex) && ex.post =~= self@);
                }
                Ok(true)
            },
            Instr::LdI(nnn) => {
                self.i_reg = nnn;
                self.pc = self.pc + 2;
                proof {
                    assert(spec_exec(old(self)@, ins, rnd) matches Ok(ex) && ex.post =~= self@);
                }
                Ok(true)
            },
            Instr::JpV0(nnn) => {
                self.pc = nnn + self.v_reg[0] as u16;
                proof {
                    assert(spec_exec(old(self)@, ins, rnd) matches Ok(ex) && ex.post =~= self@);
                }
                Ok(true)
            },
            Instr::Rnd(x, kk) => {
                self.v_reg.set(x as usize, kk & rnd);
                self.pc = self.pc + 2;
                proof {
                    assert(spec_exec(old(self)@, ins, rnd) matches Ok(ex) && ex.post =~= self@);
                }
                Ok(true)
            },
            Instr::Drw(x, y, n) => {
                let r = self.exec_draw(x, y, n, rnd);
                match r {
                    Ok(_) => Ok(true),
                    Err(e) => Err(e),
                }
            },
            Instr::Skp(x) => {
                let vx = self.v_reg[x as usize];
                if vx as usize >= NUM_KEYS {
                    return Err(Chip8Error::AddressOutOfRange);
                }
                if self.keypad[vx as usize] != 0 {
                    self.pc = self.pc + 4;
                } else {
                    self.pc = self.pc + 2;
                }
                proof {
                    assert(spec_exec(old(self)@, ins, rnd) matches Ok(ex) && ex.post =~= self@);
                }
                Ok(true)
            },
            Instr::Sknp(x) => {
                let vx = self.v_reg[x as usize];
                if vx as usize >= NUM_KEYS {
                    return Err(Chip8Error::AddressOutOfRange);
                }
                if self.keypad[vx as usize] == 0 {
                    self.pc = self.pc + 4;
                } else {
                    self.pc = self.pc + 2;
                }
                proof {
                    assert(spec_exec(old(self)@, ins, rnd) matches Ok(ex) && ex.post =~= self@);
                }
                Ok(true)
            },
            Instr::LdFromDt(x) => {
                let dt = self.delay_timer;
                self.v_reg.set(x as usize, dt);
                self.pc = self.pc + 2;
                proof {
                    assert(spec_exec(old(self)@, ins, rnd) matches Ok(ex) && ex.post =~= self@);
                }
                Ok(true)
            },
            Instr::WaitKey(x) => {
                match self.first_pressed() {
                    Some(k) => {
                        self.v_reg.set(x as usize, k);
                        self.pc = self.pc + 2;
                        proof {
                            assert(spec_exec(old(self)@, ins, rnd) matches Ok(ex) && ex.post
                                =~= self@);
                        }
                        Ok(true)
                    },
                    None => {
                        proof {
                            assert(spec_exec(old(self)@, ins, rnd) matches Ok(ex) && ex.post
                                =~= self@);
                        }
                        Ok(false)
                    },
                }
            },
            Instr::LdToDt(x) => {
                self.delay_timer = self.v_reg[x as usize];
                self.pc = self.pc + 2;
                proof {
                    assert(spec_exec(old(self)@, ins, rnd) matches Ok(ex) && ex.post =~= self@);
                }
                Ok(true)
            },
            Instr::LdToSt(x) => {
                self.sound_timer = self.v_reg[x as usize];
                self.pc = self.pc + 2;
                proof {
                    assert(spec_exec(old(self)@, ins, rnd) matches Ok(ex) && ex.post =~= self@);
                }
                Ok(true)
            },
            Instr::AddI(x) => {
                let vx16 = self.v_reg[x as usize] as u16;
                if (self.i_reg as u32) + (vx16 as u32) < 0x10000 {
                    self.i_reg = self.i_reg + vx16;
                } else {
                    self.i_reg = (((self.i_reg as u32) + (vx16 as u32)) - 0x10000) as u16;
                }
                self.pc = self.pc + 2;
                proof {
                    assert(spec_exec(old(self)@, ins, rnd) matches Ok(ex) && ex.post =~= self@);
                }
                Ok(true)
            },
            Instr::LdFont(x) => {
                self.i_reg = FONT_BASE as u16 + 5 * (self.v_reg[x as usize] as u16);
                self.pc = self.pc + 2;
                proof {
                    assert(spec_exec(old(self)@, ins, rnd) matches Ok(ex) && ex.post =~= self@);
                }
                Ok(true)
            },
            Instr::Bcd(x) => {
                if self.i_reg as usize + 2 >= MEM_SIZE {
                    return Err(Chip8Error::AddressOutOfRange);
                }
                let vx = self.v_reg[x as usize];
                self.memory.set(self.i_reg as usize, vx / 100);
                self.memory.set(self.i_reg as usize + 1, (vx / 10) % 10);
                self.memory.set(self.i_reg as usize + 2, vx % 10);
                self.pc = self.pc + 2;
                proof {
                    assert(spec_exec(old(self)@, ins, rnd) matches Ok(ex) && ex.post =~= self@);
                }
                Ok(true)
            },
            Instr::StoreRegs(x) => {
                let r = self.exec_store_regs(x, rnd);
                match r {
                    Ok(_) => Ok(true),
                    Err(e) => Err(e),
                }
            },
            Instr::LoadRegs(x) => {
                let r = self.exec_load_regs(x, rnd);
                match r {
                    Ok(_) => Ok(true),
                    Err(e) => Err(e),
                }
            },
        }
    }

    /// One engine step with the random byte supplied by the caller: fetch
    /// the word at the program counter, decode it, execute it, then tick
    /// both timers, exactly as `spec_step` describes. On failure the
    /// machine is untouched. This is the deterministic core of
    /// `interpret`, usable directly by embedders that bring their own
    /// entropy.
    pub fn step_with(&mut self, rnd: u8) -> (r: Result<StepOutcome, Chip8Error>)
        requires
            old(self).wf(),
        ensures
            final(self).wf(),
            match r {
                Ok(out) => spec_step(old(self)@, rnd) matches Ok(st) && st.post == final(self)@
                    && st.retired == out.retired && st.beep == out.beep,
                Err(e) => final(self)@ == old(self)@ && spec_step(old(self)@, rnd)
                    == Err::<Stepped, Chip8Error>(e),
            },
    {
        if self.pc as usize + 1 >= MEM_SIZE {
            return Err(Chip8Error::AddressOutOfRange);
        }
        let hi = self.memory[self.pc as usize];
        let lo = self.memory[self.pc as usize + 1];
        let op: u16 = ((hi as u16) << 8u16) | (lo as u16);
        proof {
            assert(op == spec_opcode(old(self)@));
        }
        let ins = match decode(op) {
            Some(ins) => ins,
            None => {
                return Err(Chip8Error::InvalidOpcode(op));
            },
        };
        let retired = match self.exec_instr(ins, rnd) {
            Ok(b) => b,
            Err(e) => {
                return Err(e);
            },
        };
        let beep = self.sound_timer > 0;
        self.tick();
        Ok(StepOutcome { retired, beep })
    }

    /// One engine step, drawing the random byte itself: the behaviour is
    /// `spec_step` for some byte. A failing step fails the same way for
    /// every byte and leaves the machine untouched.
    pub fn interpret(&mut self) -> (r: Result<StepOutcome, Chip8Error>)
        requires
            old(self).wf(),
        ensures
            final(self).wf(),
            match r {
                Ok(out) => exists|rb: u8|
                    (#[trigger] spec_step(old(self)@, rb)) matches Ok(st) && st.post == final(self)@
                        && st.retired == out.retired && st.beep == out.beep,
                Err(e) => final(self)@ == old(self)@ && forall|rb: u8|
                    spec_step(old(self)@, rb) == Err::<Stepped, Chip8Error>(e),
            },
    {
        let rnd = random_byte();
        let r = self.step_with(rnd);
        proof {
            match r {
                Ok(out) => {
                    assert(spec_step(old(self)@, rnd) matches Ok(st) && st.post == self@
                        && st.retired == out.retired && st.beep == out.beep);
                },
                Err(e) => {
                    assert forall|rb: u8| spec_step(old(self)@, rb) == Err::<Stepped, Chip8Error>(
                        e,
                    ) by {
                        crate::model::lemma_step_err_any_rnd(old(self)@, rnd, rb);
                    }
                },
            }
        }
        r
    }
}

/// Relies on rand::Rng::gen_range over the full byte range on
/// rand::thread_rng: returns one uniformly drawn byte. Nothing is assumed
/// of the value; the range is never empty, so the call cannot panic.
#[verifier::external_body]
fn random_byte() -> u8 {
    rand::thread_rng().gen_range(0..=255)
}

} // verus!
