//! The executable machine and its interface to a frontend.

use vstd::prelude::*;
use crate::machine::{
    bit_set, blank_screen, cell_of, collides_before, drawn_before, lemma_cell_of, draw_collides,
    draw_flag, draw_plane, draws_random, exec_alu, exec_misc, exec_op, fault, fetched,
    first_pressed, initial_machine, is_first_pressed, low8, nib1, nib2, no_key_pressed, op_fault,
    skip_if, sprite_bit, sprite_rows, step, timers_ticked, with_font, with_image, with_loaded,
    with_reg, with_stored, word_at, Fault, Machine, FONTSET, FONTSET_SIZE, NUM_KEYS, NUM_REGS,
    PROGRAM_CAPACITY, RAM_SIZE, SCREEN_HEIGHT, SCREEN_SIZE, SCREEN_WIDTH, STACK_SIZE, START_ADDR,
};

verus! {

/// The machine: registers, memory, stack, timers, keypad and display plane.
pub struct Emu {
    pc: u16,
    ram: [u8; RAM_SIZE],
    screen: [bool; SCREEN_SIZE],
    v_reg: [u8; NUM_REGS],
    i_reg: u16,
    sp: u16,
    stack: [u16; STACK_SIZE],
    keys: [bool; NUM_KEYS],
    dt: u8,
    st: u8,
}

impl View for Emu {
    type V = Machine;

    closed spec fn view(&self) -> Machine {
        Machine {
            pc: self.pc,
            ram: self.ram@,
            screen: self.screen@,
            v: self.v_reg@,
            i: self.i_reg,
            sp: self.sp,
            stack: self.stack@,
            keys: self.keys@,
            dt: self.dt,
            st: self.st,
        }
    }
}

impl Emu {
    /// The invariant of the machine, stated on its model.
    pub open spec fn wf(&self) -> bool {
        self@.wf()
    }

    /// A fresh machine: everything zero, the glyph table installed, the
    /// program counter at the entry address.
    pub fn new() -> (emu: Self)
        ensures
            emu.wf(),
            emu@ == initial_machine(),
    {
        let mut emu = Emu {
            pc: START_ADDR,
            ram: [0; RAM_SIZE],
            screen: [false; SCREEN_SIZE],
            v_reg: [0; NUM_REGS],
            i_reg: 0,
            sp: 0,
            stack: [0; STACK_SIZE],
            keys: [false; NUM_KEYS],
            dt: 0,
            st: 0,
        };
        emu.install_font();
        assert(emu@.ram =~= initial_machine().ram);
        assert(emu@.screen =~= initial_machine().screen);
        assert(emu@.v =~= initial_machine().v);
        assert(emu@.stack =~= initial_machine().stack);
        assert(emu@.keys =~= initial_machine().keys);
        emu
    }

    /// Returns the machine to the state of a fresh one, whatever it held.
    pub fn reset(&mut self)
        ensures
            final(self).wf(),
            final(self)@ == initial_machine(),
    {
        self.pc = START_ADDR;
        self.ram = [0; RAM_SIZE];
        self.screen = [false; SCREEN_SIZE];
        self.v_reg = [0; NUM_REGS];
        self.i_reg = 0;
        self.sp = 0;
        self.stack = [0; STACK_SIZE];
        self.keys = [false; NUM_KEYS];
        self.dt = 0;
        self.st = 0;
        self.install_font();
        assert(self@.ram =~= initial_machine().ram);
        assert(self@.screen =~= initial_machine().screen);
        assert(self@.v =~= initial_machine().v);
        assert(self@.stack =~= initial_machine().stack);
        assert(self@.keys =~= initial_machine().keys);
    }

    /// Copies the glyph table to the start of memory.
    fn install_font(&mut self)
        ensures
            final(self)@ == (Machine { ram: with_font(old(self)@.ram), ..old(self)@ }),
    {
        let mut a: usize = 0;
        while a < FONTSET_SIZE
            invariant
                a <= FONTSET_SIZE,
                forall|b: int| 0 <= b < a ==> self.ram@[b] == FONTSET@[b],
                forall|b: int| a <= b < RAM_SIZE ==> self.ram@[b] == old(self).ram@[b],
                self@ == (Machine { ram: self.ram@, ..old(self)@ }),
            decreases FONTSET_SIZE - a,
        {
            self.ram[a] = FONTSET[a];
            a += 1;
        }
        assert(self.ram@ =~= with_font(old(self)@.ram));
    }

    /// Writes `val` to the top of the stack.
    fn push(&mut self, val: u16)
        requires
            old(self)@.sp < STACK_SIZE,
        ensures
            final(self)@ == (Machine {
                stack: old(self)@.stack.update(old(self)@.sp as int, val),
                sp: (old(self)@.sp + 1) as u16,
                ..old(self)@
            }),
    {
        self.stack[self.sp as usize] = val;
        self.sp = self.sp + 1;
    }

    /// Takes the top of the stack.
    fn pop(&mut self) -> (val: u16)
        requires
            0 < old(self)@.sp <= STACK_SIZE,
        ensures
            val == old(self)@.stack[old(self)@.sp - 1],
            final(self)@ == (Machine { sp: (old(self)@.sp - 1) as u16, ..old(self)@ }),
    {
        self.sp = self.sp - 1;
        self.stack[self.sp as usize]
    }

    /// Reads the instruction word at the program counter and moves past it.
    fn fetch(&mut self) -> (op: u16)
        requires
            old(self)@.pc + 1 < RAM_SIZE,
        ensures
            op == word_at(old(self)@.ram, old(self)@.pc),
            final(self)@ == fetched(old(self)@),
    {
        let higher_byte: u16 = self.ram[self.pc as usize] as u16;
        let lower_byte: u16 = self.ram[(self.pc + 1) as usize] as u16;
        let op: u16 = higher_byte * 256 + lower_byte;
        self.pc = self.pc + 2;
        op
    }

    /// One fetch-decode-execute cycle, with `rnd` as the byte that the random
    /// instruction would draw. On a fault the machine is left as it was.
    pub fn tick_with(&mut self, rnd: u8) -> (res: Result<(), Fault>)
        requires
            old(self).wf(),
        ensures
            final(self).wf(),
            match res {
                Ok(()) => fault(old(self)@) is None && final(self)@ == step(old(self)@, rnd),
                Err(f) => fault(old(self)@) == Some(f) && final(self)@ == old(self)@,
            },
    {
        let pc0: u16 = self.pc;
        if pc0 as usize + 1 >= RAM_SIZE {
            return Err(Fault::ProgramCounter { pc: pc0 });
        }
        let op: u16 = self.fetch();
        let res = self.execute_with(op, rnd, pc0);
        if res.is_err() {
            self.pc = pc0;
        }
        res
    }

    /// One fetch-decode-execute cycle. On a fault the machine is left as it
    /// was. The random instruction draws its byte from the thread's generator.
    pub fn tick(&mut self) -> (res: Result<(), Fault>)
        requires
            old(self).wf(),
        ensures
            final(self).wf(),
            match res {
                Ok(()) => fault(old(self)@) is None && exists|rnd: u8|
                    final(self)@ == #[trigger] step(old(self)@, rnd),
                Err(f) => fault(old(self)@) == Some(f) && final(self)@ == old(self)@,
            },
            res is Ok && !draws_random(old(self)@) ==> final(self)@ == step(old(self)@, 0),
    {
        let pc0: u16 = self.pc;
        if pc0 as usize + 1 >= RAM_SIZE {
            return Err(Fault::ProgramCounter { pc: pc0 });
        }
        let hi: u8 = self.ram[pc0 as usize];
        let rnd: u8 = if hi / 16 == 0xC { random_byte() } else { 0 };
        self.tick_with(rnd)
    }

    /// One timer tick: each timer above zero goes down by one. Returns whether
    /// the sound timer has just run out, which is when a beep is due.
    pub fn tick_timers(&mut self) -> (beep: bool)
        ensures
            final(self)@ == timers_ticked(old(self)@),
            beep == (old(self)@.st == 1),
            old(self).wf() ==> final(self).wf(),
    {
        if self.dt > 0 {
            self.dt = self.dt - 1;
        }
        let mut beep = false;
        if self.st > 0 {
            if self.st == 1 {
                beep = true;
            }
            self.st = self.st - 1;
        }
        beep
    }

    /// Runs the instruction `op`, fetched at `pc0`, on a machine whose program
    /// counter is already past it.
    fn execute_with(&mut self, op: u16, rnd: u8, pc0: u16) -> (res: Result<(), Fault>)
        requires
            old(self).wf(),
            2 <= old(self)@.pc <= RAM_SIZE,
        ensures
            final(self).wf(),
            match res {
                Ok(()) => op_fault(old(self)@, op, pc0) is None && final(self)@ == exec_op(
                    old(self)@,
                    op,
                    rnd,
                ),
                Err(f) => op_fault(old(self)@, op, pc0) == Some(f) && final(self)@ == old(self)@,
            },
    {
        let d1: u16 = op / 4096;
        let x: usize = ((op / 256) % 16) as usize;
        let y: usize = ((op / 16) % 16) as usize;
        let n: u16 = op % 16;
        let nnn: u16 = op % 4096;
        let nn: u8 = (op % 256) as u8;
        let vx: u8 = self.v_reg[x];
        let vy: u8 = self.v_reg[y];
        if d1 == 0x0 {
            if op == 0x0000 {
                Ok(())
            } else if op == 0x00E0 {
                self.screen = [false; SCREEN_SIZE];
                assert(self.screen@ =~= blank_screen());
                Ok(())
            } else if op == 0x00EE {
                if self.sp == 0 {
                    Err(Fault::Stack { op, pc: pc0 })
                } else {
                    let ret_addr: u16 = self.pop();
                    self.pc = ret_addr;
                    Ok(())
                }
            } else {
                Err(Fault::UnknownInstruction { op, pc: pc0 })
            }
        } else if d1 == 0x1 {
            self.pc = nnn;
            Ok(())
        } else if d1 == 0x2 {
            if self.sp as usize >= STACK_SIZE {
                Err(Fault::Stack { op, pc: pc0 })
            } else {
                let pc: u16 = self.pc;
                self.push(pc);
                self.pc = nnn;
                Ok(())
            }
        } else if d1 == 0x3 {
            self.skip_when(vx == nn);
            Ok(())
        } else if d1 == 0x4 {
            self.skip_when(vx != nn);
            Ok(())
        } else if d1 == 0x5 {
            if n != 0 {
                Err(Fault::UnknownInstruction { op, pc: pc0 })
            } else {
                self.skip_when(vx == vy);
                Ok(())
            }
        } else if d1 == 0x6 {
            self.v_reg[x] = nn;
            Ok(())
        } else if d1 == 0x7 {
            self.v_reg[x] = ((vx as u16 + nn as u16) % 256) as u8;
            Ok(())
        } else if d1 == 0x8 {
            if n <= 7 || n == 0xE {
                self.alu(x, y, n);
                Ok(())
            } else {
                Err(Fault::UnknownInstruction { op, pc: pc0 })
            }
        } else if d1 == 0x9 {
            if n != 0 {
                Err(Fault::UnknownInstruction { op, pc: pc0 })
            } else {
                self.skip_when(vx != vy);
                Ok(())
            }
        } else if d1 == 0xA {
            self.i_reg = nnn;
            Ok(())
        } else if d1 == 0xB {
            self.pc = (self.v_reg[0] as u16) + nnn;
            Ok(())
        } else if d1 == 0xC {
            self.v_reg[x] = rnd & nn;
            Ok(())
        } else if d1 == 0xD {
            if n > 0 && self.i_reg as usize + n as usize > RAM_SIZE {
                Err(Fault::Memory { op, pc: pc0 })
            } else {
                self.draw(vx, vy, n as u8);
                Ok(())
            }
        } else if d1 == 0xE {
            if nn != 0x9E && nn != 0xA1 {
                Err(Fault::UnknownInstruction { op, pc: pc0 })
            } else if vx as usize >= NUM_KEYS {
                Err(Fault::Keypad { op, pc: pc0 })
            } else {
                let key: bool = self.keys[vx as usize];
                self.skip_when(key == (nn == 0x9E));
                Ok(())
            }
        } else {
            self.misc(op, x, nn, pc0)
        }
    }

    /// Draws the `n` rows of the sprite at the index register with its origin
    /// at `(x0, y0)`, and sets the flag register to whether a lit cell went out.
    fn draw(&mut self, x0: u8, y0: u8, n: u8)
        requires
            n <= 15,
            n > 0 ==> old(self)@.i + n <= RAM_SIZE,
        ensures
            final(self)@ == (Machine {
                screen: draw_plane(
                    old(self)@.screen,
                    sprite_rows(old(self)@.ram, old(self)@.i, n as int),
                    x0,
                    y0,
                ),
                v: old(self)@.v.update(
                    15,
                    draw_flag(
                        old(self)@.screen,
                        sprite_rows(old(self)@.ram, old(self)@.i, n as int),
                        x0,
                        y0,
                    ),
                ),
                ..old(self)@
            }),
    {
        let ghost sprite = sprite_rows(self@.ram, self@.i, n as int);
        let ghost before = self@.screen;
        let mut flipped = false;
        let mut r: u8 = 0;
        while r < n
            invariant
                r <= n <= 15,
                n > 0 ==> self.i_reg + n <= RAM_SIZE,
                self@ == (Machine { screen: self.screen@, ..old(self)@ }),
                sprite == sprite_rows(old(self)@.ram, old(self)@.i, n as int),
                before == old(self)@.screen,
                forall|k: int|
                    0 <= k < SCREEN_SIZE ==> self.screen@[k] == (before[k] != drawn_before(
                        sprite,
                        x0,
                        y0,
                        k,
                        r as int,
                        0,
                    )),
                flipped <==> collides_before(before, sprite, x0, y0, r as int, 0),
            decreases n - r,
        {
            let addr: usize = self.i_reg as usize + r as usize;
            let pixels: u8 = self.ram[addr];
            let mut c: u8 = 0;
            while c < 8
                invariant
                    c <= 8,
                    r < n <= 15,
                    pixels == sprite[r as int],
                    self@ == (Machine { screen: self.screen@, ..old(self)@ }),
                    sprite == sprite_rows(old(self)@.ram, old(self)@.i, n as int),
                    before == old(self)@.screen,
                    forall|k: int|
                        0 <= k < SCREEN_SIZE ==> self.screen@[k] == (before[k] != drawn_before(
                            sprite,
                            x0,
                            y0,
                            k,
                            r as int,
                            c as int,
                        )),
                    flipped <==> collides_before(before, sprite, x0, y0, r as int, c as int),
                decreases 8 - c,
            {
                let x: usize = (x0 as usize + c as usize) % SCREEN_WIDTH;
                let y: usize = (y0 as usize + r as usize) % SCREEN_HEIGHT;
                let idx: usize = x + y * SCREEN_WIDTH;
                let bit: bool = pixels & (0x80u8 >> c) != 0;
                proof {
                    assert(idx == cell_of(x0, y0, r as int, c as int));
                    assert(bit == bit_set(sprite[r as int], c as int));
                    assert forall|k: int| 0 <= k < SCREEN_SIZE implies drawn_before(
                        sprite,
                        x0,
                        y0,
                        k,
                        r as int,
                        c + 1,
                    ) == (drawn_before(sprite, x0, y0, k, r as int, c as int) || (bit && k
                        == idx)) && !drawn_before(sprite, x0, y0, idx as int, r as int, c as int) by {
                        lemma_cell_of(x0, y0, r as int, c as int, k);
                        lemma_cell_of(x0, y0, r as int, c as int, idx as int);
                    }
                }
                if bit {
                    flipped = flipped || self.screen[idx];
                    self.screen[idx] = !self.screen[idx];
                }
                proof {
                    if collides_before(before, sprite, x0, y0, r as int, c as int) {
                        let k = choose|k: int|
                            0 <= k < before.len() && #[trigger] before[k] && drawn_before(
                                sprite,
                                x0,
                                y0,
                                k,
                                r as int,
                                c as int,
                            );
                        assert(before[k] && drawn_before(sprite, x0, y0, k, r as int, c + 1));
                    }
                    if bit && before[idx as int] {
                        assert(before[idx as int] && drawn_before(
                            sprite,
                            x0,
                            y0,
                            idx as int,
                            r as int,
                            c + 1,
                        ));
                    }
                    if collides_before(before, sprite, x0, y0, r as int, c + 1) {
                        let k = choose|k: int|
                            0 <= k < before.len() && #[trigger] before[k] && drawn_before(
                                sprite,
                                x0,
                                y0,
                                k,
                                r as int,
                                c + 1,
                            );
                        if drawn_before(sprite, x0, y0, k, r as int, c as int) {
                            assert(collides_before(before, sprite, x0, y0, r as int, c as int));
                        }
                    }
                }
                c += 1;
            }
            proof {
                assert forall|k: int| 0 <= k < SCREEN_SIZE implies drawn_before(
                    sprite,
                    x0,
                    y0,
                    k,
                    r as int,
                    8,
                ) == drawn_before(sprite, x0, y0, k, r + 1, 0) by {}
                if collides_before(before, sprite, x0, y0, r as int, 8) {
                    let k = choose|k: int|
                        0 <= k < before.len() && #[trigger] before[k] && drawn_before(
                            sprite,
                            x0,
                            y0,
                            k,
                            r as int,
                            8,
                        );
                    assert(before[k] && drawn_before(sprite, x0, y0, k, r + 1, 0));
                }
                if collides_before(before, sprite, x0, y0, r + 1, 0) {
                    let k = choose|k: int|
                        0 <= k < before.len() && #[trigger] before[k] && drawn_before(
                            sprite,
                            x0,
                            y0,
                            k,
                            r + 1,
                            0,
                        );
                    assert(before[k] && drawn_before(sprite, x0, y0, k, r as int, 8));
                }
            }
            r += 1;
        }
        proof {
            assert forall|k: int| 0 <= k < SCREEN_SIZE implies drawn_before(
                sprite,
                x0,
                y0,
                k,
                n as int,
                0,
            ) == sprite_bit(sprite, x0, y0, k) by {}
            assert(self.screen@ =~= draw_plane(before, sprite, x0, y0));
            if collides_before(before, sprite, x0, y0, n as int, 0) {
                let k = choose|k: int|
                    0 <= k < before.len() && #[trigger] before[k] && drawn_before(
                        sprite,
                        x0,
                        y0,
                        k,
                        n as int,
                        0,
                    );
                assert(before[k] && sprite_bit(sprite, x0, y0, k));
            }
            if draw_collides(before, sprite, x0, y0) {
                let k = choose|k: int|
                    0 <= k < before.len() && #[trigger] before[k] && sprite_bit(sprite, x0, y0, k);
                assert(before[k] && drawn_before(sprite, x0, y0, k, n as int, 0));
            }
        }
        self.v_reg[0xF] = if flipped { 1 } else { 0 };
    }

    /// Skips the next instruction where `cond` holds.
    fn skip_when(&mut self, cond: bool)
        requires
            old(self)@.pc <= RAM_SIZE,
        ensures
            final(self)@ == skip_if(old(self)@, cond),
    {
        if cond {
            self.pc = self.pc + 2;
        }
    }

    /// The arithmetic group: `n` selects the operation on registers `x` and `y`.
    fn alu(&mut self, x: usize, y: usize, n: u16)
        requires
            x < NUM_REGS,
            y < NUM_REGS,
            n <= 7 || n == 0xE,
        ensures
            final(self)@ == exec_alu(old(self)@, x as int, y as int, n as int),
    {
        let vx: u8 = self.v_reg[x];
        let vy: u8 = self.v_reg[y];
        if n == 0 {
            self.v_reg[x] = vy;
        } else if n == 1 {
            self.v_reg[x] = vx | vy;
        } else if n == 2 {
            self.v_reg[x] = vx & vy;
        } else if n == 3 {
            self.v_reg[x] = vx ^ vy;
        } else if n == 4 {
            let sum: u16 = vx as u16 + vy as u16;
            self.v_reg[x] = (sum % 256) as u8;
            self.v_reg[0xF] = if sum >= 256 { 1 } else { 0 };
        } else if n == 5 {
            self.v_reg[x] = ((256 + vx as u16 - vy as u16) % 256) as u8;
            self.v_reg[0xF] = if vx < vy { 0 } else { 1 };
        } else if n == 6 {
            self.v_reg[x] = vx >> 1u8;
            self.v_reg[0xF] = vx & 1u8;
        } else if n == 7 {
            self.v_reg[x] = ((256 + vy as u16 - vx as u16) % 256) as u8;
            self.v_reg[0xF] = if vy < vx { 0 } else { 1 };
        } else {
            self.v_reg[x] = vx << 1u8;
            self.v_reg[0xF] = (vx >> 7u8) & 1u8;
        }
    }

    /// The group of timer, key, index and memory instructions.
    fn misc(&mut self, op: u16, x: usize, nn: u8, pc0: u16) -> (res: Result<(), Fault>)
        requires
            old(self).wf(),
            2 <= old(self)@.pc <= RAM_SIZE,
            nib1(op) == 0xF,
            x == nib2(op),
            nn == low8(op),
        ensures
            final(self).wf(),
            match res {
                Ok(()) => op_fault(old(self)@, op, pc0) is None && final(self)@ == exec_misc(
                    old(self)@,
                    x as int,
                    nn,
                ),
                Err(f) => op_fault(old(self)@, op, pc0) == Some(f) && final(self)@ == old(self)@,
            },
    {
        let vx: u8 = self.v_reg[x];
        let i: usize = self.i_reg as usize;
        if nn == 0x07 {
            self.v_reg[x] = self.dt;
            Ok(())
        } else if nn == 0x0A {
            self.wait_key(x);
            Ok(())
        } else if nn == 0x15 {
            self.dt = vx;
            Ok(())
        } else if nn == 0x18 {
            self.st = vx;
            Ok(())
        } else if nn == 0x1E {
            self.i_reg = ((self.i_reg as u32 + vx as u32) % 65536) as u16;
            Ok(())
        } else if nn == 0x29 {
            self.i_reg = (vx as u16) * 5;
            Ok(())
        } else if nn == 0x33 {
            if i + 2 >= RAM_SIZE {
                Err(Fault::Memory { op, pc: pc0 })
            } else {
                self.ram[i] = vx / 100;
                self.ram[i + 1] = (vx / 10) % 10;
                self.ram[i + 2] = vx % 10;
                Ok(())
            }
        } else if nn == 0x55 {
            if i + x >= RAM_SIZE {
                Err(Fault::Memory { op, pc: pc0 })
            } else {
                self.store_regs(x);
                Ok(())
            }
        } else if nn == 0x65 {
            if i + x >= RAM_SIZE {
                Err(Fault::Memory { op, pc: pc0 })
            } else {
                self.load_regs(x);
                Ok(())
            }
        } else {
            Err(Fault::UnknownInstruction { op, pc: pc0 })
        }
    }

    /// The key wait: stores the lowest pressed key in register `x`, or moves
    /// the program counter back onto the instruction where no key is pressed.
    fn wait_key(&mut self, x: usize)
        requires
            x < NUM_REGS,
            old(self)@.pc >= 2,
        ensures
            final(self)@ == (if no_key_pressed(old(self)@.keys) {
                Machine { pc: (old(self)@.pc - 2) as u16, ..old(self)@ }
            } else {
                with_reg(old(self)@, x as int, first_pressed(old(self)@.keys) as u8)
            }),
    {
        let mut pressed = false;
        let mut i: usize = 0;
        while i < NUM_KEYS
            invariant_except_break
                !pressed,
                *self == *old(self),
                forall|j: int| 0 <= j < i ==> !#[trigger] self.keys@[j],
            invariant
                i <= NUM_KEYS,
                x < NUM_REGS,
            ensures
                pressed ==> !no_key_pressed(old(self)@.keys) && self@ == with_reg(
                    old(self)@,
                    x as int,
                    first_pressed(old(self)@.keys) as u8,
                ),
                !pressed ==> no_key_pressed(old(self)@.keys) && *self == *old(self),
            decreases NUM_KEYS - i,
        {
            if self.keys[i] {
                assert(is_first_pressed(self.keys@, i as int));
                assert(is_first_pressed(self.keys@, first_pressed(self.keys@)));
                assert(first_pressed(self.keys@) == i);
                self.v_reg[x] = i as u8;
                pressed = true;
                break;
            }
            i += 1;
        }
        if !pressed {
            self.pc = self.pc - 2;
        }
    }

    /// Stores registers 0 to `x` in memory from the index register on.
    fn store_regs(&mut self, x: usize)
        requires
            x < NUM_REGS,
            old(self)@.i + x < RAM_SIZE,
        ensures
            final(self)@ == (Machine {
                ram: with_stored(old(self)@.ram, old(self)@.v, old(self)@.i as int, x as int),
                ..old(self)@
            }),
    {
        let i: usize = self.i_reg as usize;
        let mut idx: usize = 0;
        while idx <= x
            invariant
                idx <= x + 1,
                x < NUM_REGS,
                i + x < RAM_SIZE,
                i == old(self)@.i,
                forall|a: int| i <= a < i + idx ==> self.ram@[a] == old(self)@.v[a - i],
                forall|a: int|
                    0 <= a < RAM_SIZE && !(i <= a < i + idx) ==> self.ram@[a] == old(self)@.ram[a],
                self@ == (Machine { ram: self.ram@, ..old(self)@ }),
            decreases x + 1 - idx,
        {
            self.ram[i + idx] = self.v_reg[idx];
            idx += 1;
        }
        assert(self.ram@ =~= with_stored(old(self)@.ram, old(self)@.v, i as int, x as int));
    }

    /// Loads registers 0 to `x` from memory from the index register on.
    fn load_regs(&mut self, x: usize)
        requires
            x < NUM_REGS,
            old(self)@.i + x < RAM_SIZE,
        ensures
            final(self)@ == (Machine {
                v: with_loaded(old(self)@.v, old(self)@.ram, old(self)@.i as int, x as int),
                ..old(self)@
            }),
    {
        let i: usize = self.i_reg as usize;
        let mut idx: usize = 0;
        while idx <= x
            invariant
                idx <= x + 1,
                x < NUM_REGS,
                i + x < RAM_SIZE,
                i == old(self)@.i,
                forall|r: int| 0 <= r < idx ==> self.v_reg@[r] == old(self)@.ram[i + r],
                forall|r: int| idx <= r < NUM_REGS ==> self.v_reg@[r] == old(self)@.v[r],
                self@ == (Machine { v: self.v_reg@, ..old(self)@ }),
            decreases x + 1 - idx,
        {
            self.v_reg[idx] = self.ram[i + idx];
            idx += 1;
        }
        assert(self.v_reg@ =~= with_loaded(old(self)@.v, old(self)@.ram, i as int, x as int));
    }

    /// The program counter: the address of the next instruction.
    pub fn pc(&self) -> (pc: u16)
        ensures
            pc == self@.pc,
    {
        self.pc
    }

    /// The value of general register `x`.
    pub fn register(&self, x: usize) -> (val: u8)
        requires
            x < NUM_REGS,
        ensures
            val == self@.v[x as int],
    {
        self.v_reg[x]
    }

    /// The index register.
    pub fn index(&self) -> (i: u16)
        ensures
            i == self@.i,
    {
        self.i_reg
    }

    /// The number of return addresses on the stack.
    pub fn stack_depth(&self) -> (sp: u16)
        ensures
            sp == self@.sp,
    {
        self.sp
    }

    /// The delay timer.
    pub fn delay_timer(&self) -> (dt: u8)
        ensures
            dt == self@.dt,
    {
        self.dt
    }

    /// The sound timer.
    pub fn sound_timer(&self) -> (st: u8)
        ensures
            st == self@.st,
    {
        self.st
    }

    /// The byte of memory at `addr`.
    pub fn memory(&self, addr: usize) -> (byte: u8)
        requires
            addr < RAM_SIZE,
        ensures
            byte == self@.ram[addr as int],
    {
        self.ram[addr]
    }

    /// Whether key `idx` is latched as pressed.
    pub fn is_pressed(&self, idx: usize) -> (pressed: bool)
        requires
            idx < NUM_KEYS,
        ensures
            pressed == self@.keys[idx as int],
    {
        self.keys[idx]
    }

    /// The display plane, row-major, `true` for a lit cell.
    pub fn get_display(&self) -> (plane: &[bool])
        ensures
            plane@ == self@.screen,
            plane@.len() == SCREEN_SIZE,
    {
        self.screen.as_slice()
    }

    /// Sets or clears the latch of key `idx`.
    pub fn keypress(&mut self, idx: usize, pressed: bool)
        requires
            idx < NUM_KEYS,
        ensures
            final(self)@ == (Machine {
                keys: old(self)@.keys.update(idx as int, pressed),
                ..old(self)@
            }),
            old(self).wf() ==> final(self).wf(),
    {
        self.keys[idx] = pressed;
    }

    /// Installs a program image at the entry address. An image that does not
    /// fit is refused and memory is left as it was.
    pub fn load(&mut self, data: &[u8]) -> (res: Result<(), Fault>)
        ensures
            old(self).wf() ==> final(self).wf(),
            match res {
                Ok(()) => data@.len() <= PROGRAM_CAPACITY && final(self)@ == (Machine {
                    ram: with_image(old(self)@.ram, data@),
                    ..old(self)@
                }),
                Err(f) => data@.len() > PROGRAM_CAPACITY && f == (Fault::ImageTooLarge {
                    len: data.len(),
                }) && final(self)@ == old(self)@,
            },
    {
        let len: usize = data.len();
        if len > PROGRAM_CAPACITY {
            return Err(Fault::ImageTooLarge { len });
        }
        let start: usize = START_ADDR as usize;
        let mut k: usize = 0;
        while k < len
            invariant
                k <= len,
                len == data@.len(),
                len <= PROGRAM_CAPACITY,
                start == START_ADDR,
                forall|a: int| start <= a < start + k ==> self.ram@[a] == data@[a - start],
                forall|a: int|
                    0 <= a < RAM_SIZE && !(start <= a < start + k) ==> self.ram@[a] == old(
                        self,
                    )@.ram[a],
                self@ == (Machine { ram: self.ram@, ..old(self)@ }),
            decreases len - k,
        {
            self.ram[start + k] = data[k];
            k += 1;
        }
        assert(self.ram@ =~= with_image(old(self)@.ram, data@));
        Ok(())
    }
}

/// Draws one byte with `rand::random`, which samples the thread-local
/// generator. Nothing is claimed of the byte: every value may come back.
#[verifier::external_body]
fn random_byte() -> (r: u8)
{
    rand::random::<u8>()
}

} // verus!
