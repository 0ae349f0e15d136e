//! The mathematical model of the machine: its state as sequences and
//! integers, and one instruction step as a function on that state.

use vstd::prelude::*;

verus! {

/// Columns of the display plane.
pub const SCREEN_WIDTH: usize = 64;

/// Rows of the display plane.
pub const SCREEN_HEIGHT: usize = 32;

/// Cells of the display plane, row-major.
pub const SCREEN_SIZE: usize = 2048;

/// Instruction ticks that a frontend is advised to run per timer tick.
pub const TICKS_PER_FRAME: usize = 10;

/// Bytes of memory.
pub const RAM_SIZE: usize = 4096;

/// General registers; the last one is the flag register.
pub const NUM_REGS: usize = 16;

/// Return addresses that the stack can hold.
pub const STACK_SIZE: usize = 16;

/// Keys of the keypad.
pub const NUM_KEYS: usize = 16;

/// Address at which a program image is installed and execution starts.
pub const START_ADDR: u16 = 0x200;

/// Bytes of the built-in glyph table.
pub const FONTSET_SIZE: usize = 80;

/// Largest program image that fits between the entry address and the end of memory.
pub const PROGRAM_CAPACITY: usize = 3584;

/// The built-in glyphs for the hexadecimal digits, five rows of one byte each.
pub const FONTSET: [u8; 80] = [
    0xF0, 0x90, 0x90, 0x90, 0xF0,
    0x20, 0x60, 0x20, 0x20, 0x70,
    0xF0, 0x10, 0xF0, 0x80, 0xF0,
    0xF0, 0x10, 0xF0, 0x10, 0xF0,
    0x90, 0x90, 0xF0, 0x10, 0x10,
    0xF0, 0x80, 0xF0, 0x10, 0xF0,
    0xF0, 0x80, 0xF0, 0x90, 0xF0,
    0xF0, 0x10, 0x20, 0x40, 0x40,
    0xF0, 0x90, 0xF0, 0x90, 0xF0,
    0xF0, 0x90, 0xF0, 0x10, 0xF0,
    0xF0, 0x90, 0xF0, 0x90, 0x90,
    0xE0, 0x90, 0xE0, 0x90, 0xE0,
    0xF0, 0x80, 0x80, 0x80, 0xF0,
    0xE0, 0x90, 0x90, 0x90, 0xE0,
    0xF0, 0x80, 0xF0, 0x80, 0xF0,
    0xF0, 0x80, 0xF0, 0x80, 0x80,
];

/// The state of the machine as plain mathematical values.
pub struct Machine {
    /// Address of the next instruction to fetch.
    pub pc: u16,
    /// Memory, `RAM_SIZE` bytes.
    pub ram: Seq<u8>,
    /// Display plane, `SCREEN_SIZE` cells, row-major; `true` is lit.
    pub screen: Seq<bool>,
    /// General registers.
    pub v: Seq<u8>,
    /// Index register.
    pub i: u16,
    /// Number of return addresses on the stack.
    pub sp: u16,
    /// Stack slots.
    pub stack: Seq<u16>,
    /// Keypad latch; `true` is pressed.
    pub keys: Seq<bool>,
    /// Delay timer.
    pub dt: u8,
    /// Sound timer.
    pub st: u8,
}

/// Why a program run ended.
#[derive(Clone, Copy, Debug, PartialEq, Eq, Structural)]
pub enum Fault {
    /// The instruction at `pc` does not lie inside memory.
    ProgramCounter { pc: u16 },
    /// The word `op` fetched at `pc` is no instruction.
    UnknownInstruction { op: u16, pc: u16 },
    /// The instruction `op` at `pc` reaches beyond the end of memory.
    Memory { op: u16, pc: u16 },
    /// The instruction `op` at `pc` calls with a full stack or returns with an empty one.
    Stack { op: u16, pc: u16 },
    /// The instruction `op` at `pc` asks for a key that the keypad does not have.
    Keypad { op: u16, pc: u16 },
    /// A program image of `len` bytes does not fit into memory.
    ImageTooLarge { len: usize },
}

/// A display plane with every cell unlit.
pub open spec fn blank_screen() -> Seq<bool> {
    Seq::new(SCREEN_SIZE as nat, |k: int| false)
}

/// Memory that holds the glyph table and is zero elsewhere.
pub open spec fn initial_ram() -> Seq<u8> {
    Seq::new(RAM_SIZE as nat, |a: int| if a < FONTSET_SIZE { FONTSET@[a] } else { 0u8 })
}

/// Memory with the glyph table written over its first bytes.
pub open spec fn with_font(ram: Seq<u8>) -> Seq<u8> {
    Seq::new(ram.len(), |a: int| if a < FONTSET_SIZE { FONTSET@[a] } else { ram[a] })
}

/// The state of a machine that was just built or reset.
pub open spec fn initial_machine() -> Machine {
    Machine {
        pc: START_ADDR,
        ram: initial_ram(),
        screen: blank_screen(),
        v: Seq::new(NUM_REGS as nat, |r: int| 0u8),
        i: 0,
        sp: 0,
        stack: Seq::new(STACK_SIZE as nat, |r: int| 0u16),
        keys: Seq::new(NUM_KEYS as nat, |r: int| false),
        dt: 0,
        st: 0,
    }
}

impl Machine {
    /// Every array has its fixed size and the stack pointer is within the stack.
    pub open spec fn wf(self) -> bool {
        &&& self.ram.len() == RAM_SIZE
        &&& self.screen.len() == SCREEN_SIZE
        &&& self.v.len() == NUM_REGS
        &&& self.stack.len() == STACK_SIZE
        &&& self.keys.len() == NUM_KEYS
        &&& self.sp <= STACK_SIZE
    }
}


/// The instruction word's first field, bits 15 to 12.
pub open spec fn nib1(op: u16) -> int {
    op as int / 4096
}

/// The instruction word's second field, bits 11 to 8: the register index `x`.
pub open spec fn nib2(op: u16) -> int {
    (op as int / 256) % 16
}

/// The instruction word's third field, bits 7 to 4: the register index `y`.
pub open spec fn nib3(op: u16) -> int {
    (op as int / 16) % 16
}

/// The instruction word's last field, bits 3 to 0.
pub open spec fn nib4(op: u16) -> int {
    op as int % 16
}

/// The low twelve bits of the instruction word: an address.
pub open spec fn low12(op: u16) -> u16 {
    (op % 4096) as u16
}

/// The low eight bits of the instruction word: an immediate value.
pub open spec fn low8(op: u16) -> u8 {
    (op % 256) as u8
}

/// Whether the word is one of the recognised instruction patterns.
pub open spec fn is_instruction(op: u16) -> bool {
    let d1 = nib1(op);
    let n = nib4(op);
    let nn = low8(op);
    if d1 == 0x0 {
        op == 0x0000 || op == 0x00E0 || op == 0x00EE
    } else if d1 == 0x5 || d1 == 0x9 {
        n == 0
    } else if d1 == 0x8 {
        n <= 7 || n == 0xE
    } else if d1 == 0xE {
        nn == 0x9E || nn == 0xA1
    } else if d1 == 0xF {
        nn == 0x07 || nn == 0x0A || nn == 0x15 || nn == 0x18 || nn == 0x1E || nn == 0x29
            || nn == 0x33 || nn == 0x55 || nn == 0x65
    } else {
        true
    }
}

/// Sum of two register values, modulo 256.
pub open spec fn add_result(a: u8, b: u8) -> u8 {
    ((a + b) % 256) as u8
}

/// Flag of an addition: 1 where the sum does not fit in eight bits.
pub open spec fn add_flag(a: u8, b: u8) -> u8 {
    if a + b >= 256 { 1 } else { 0 }
}

/// Difference of two register values, modulo 256.
pub open spec fn sub_result(a: u8, b: u8) -> u8 {
    ((a - b) % 256) as u8
}

/// Flag of a subtraction: 0 where it borrowed, 1 where it did not.
pub open spec fn sub_flag(a: u8, b: u8) -> u8 {
    if a < b { 0 } else { 1 }
}

/// Logical shift right by one.
pub open spec fn shr_result(a: u8) -> u8 {
    a >> 1u8
}

/// Flag of a shift right: the least significant bit.
pub open spec fn shr_flag(a: u8) -> u8 {
    a & 1u8
}

/// Logical shift left by one, within eight bits.
pub open spec fn shl_result(a: u8) -> u8 {
    a << 1u8
}

/// Flag of a shift left: the most significant bit.
pub open spec fn shl_flag(a: u8) -> u8 {
    (a >> 7u8) & 1u8
}

/// The state with register `x` set to `val`.
pub open spec fn with_reg(s: Machine, x: int, val: u8) -> Machine {
    Machine { v: s.v.update(x, val), ..s }
}

/// The state with register `x` set to `val` and then the flag register to `flag`.
pub open spec fn with_reg_flag(s: Machine, x: int, val: u8, flag: u8) -> Machine {
    Machine { v: s.v.update(x, val).update(15, flag), ..s }
}

/// The state with the next instruction skipped where `cond` holds.
pub open spec fn skip_if(s: Machine, cond: bool) -> Machine {
    if cond {
        Machine { pc: (s.pc + 2) as u16, ..s }
    } else {
        s
    }
}

/// The `n` bytes of memory that start at `i`: the rows of a sprite.
pub open spec fn sprite_rows(ram: Seq<u8>, i: u16, n: int) -> Seq<u8> {
    Seq::new(n as nat, |r: int| ram[i + r])
}

/// Whether column `col` of a sprite row is set; column 0 is the most significant bit.
pub open spec fn bit_set(byte: u8, col: int) -> bool {
    byte & (0x80u8 >> (col as u8)) != 0
}

/// The sprite column that falls on cell `k` when the sprite's origin is in column `x0`.
pub open spec fn sprite_col(x0: u8, k: int) -> int {
    (k % 64 - x0) % 64
}

/// The sprite row that falls on cell `k` when the sprite's origin is in row `y0`.
pub open spec fn sprite_row(y0: u8, k: int) -> int {
    (k / 64 - y0) % 32
}

/// Whether the sprite, drawn with its origin at `(x0, y0)` and wrapped round
/// both edges, has a set bit on cell `k`.
pub open spec fn sprite_bit(sprite: Seq<u8>, x0: u8, y0: u8, k: int) -> bool {
    let col = sprite_col(x0, k);
    let row = sprite_row(y0, k);
    col < 8 && row < sprite.len() && bit_set(sprite[row], col)
}

/// The display plane after the sprite was drawn: each cell under a set bit is flipped.
pub open spec fn draw_plane(screen: Seq<bool>, sprite: Seq<u8>, x0: u8, y0: u8) -> Seq<bool> {
    Seq::new(screen.len(), |k: int| screen[k] != sprite_bit(sprite, x0, y0, k))
}

/// Whether drawing the sprite turns a lit cell unlit.
pub open spec fn draw_collides(screen: Seq<bool>, sprite: Seq<u8>, x0: u8, y0: u8) -> bool {
    exists|k: int| 0 <= k < screen.len() && #[trigger] screen[k] && sprite_bit(sprite, x0, y0, k)
}

/// Flag of a draw: 1 on a collision.
pub open spec fn draw_flag(screen: Seq<bool>, sprite: Seq<u8>, x0: u8, y0: u8) -> u8 {
    if draw_collides(screen, sprite, x0, y0) { 1 } else { 0 }
}

/// The cell on which row `r`, column `c` of a sprite falls when its origin is at `(x0, y0)`.
pub open spec fn cell_of(x0: u8, y0: u8, r: int, c: int) -> int {
    (x0 + c) % 64 + ((y0 + r) % 32) * 64
}

/// Whether the sprite has a set bit on cell `k` that lies in a row before
/// `r`, or in row `r` in a column before `c`: the part of the sprite that a
/// row-by-row drawing has reached when it stands at `(r, c)`.
pub open spec fn drawn_before(sprite: Seq<u8>, x0: u8, y0: u8, k: int, r: int, c: int) -> bool {
    sprite_bit(sprite, x0, y0, k) && (sprite_row(y0, k) < r || (sprite_row(y0, k) == r
        && sprite_col(x0, k) < c))
}

/// Whether the part of the sprite before `(r, c)` has a set bit on a lit cell.
pub open spec fn collides_before(
    screen: Seq<bool>,
    sprite: Seq<u8>,
    x0: u8,
    y0: u8,
    r: int,
    c: int,
) -> bool {
    exists|k: int|
        0 <= k < screen.len() && #[trigger] screen[k] && drawn_before(sprite, x0, y0, k, r, c)
}

/// A cell is the image of exactly one sprite position: the one that
/// `sprite_row` and `sprite_col` give.
pub proof fn lemma_cell_of(x0: u8, y0: u8, r: int, c: int, k: int)
    requires
        0 <= r < 32,
        0 <= c < 64,
        0 <= k < 2048,
    ensures
        0 <= cell_of(x0, y0, r, c) < 2048,
        (sprite_row(y0, k) == r && sprite_col(x0, k) == c) <==> k == cell_of(x0, y0, r, c),
{
}

/// No key of the keypad is pressed.
pub open spec fn no_key_pressed(keys: Seq<bool>) -> bool {
    forall|k: int| 0 <= k < keys.len() ==> !#[trigger] keys[k]
}

/// Key `k` is pressed and no key with a smaller index is.
pub open spec fn is_first_pressed(keys: Seq<bool>, k: int) -> bool {
    &&& 0 <= k < keys.len()
    &&& keys[k]
    &&& forall|j: int| 0 <= j < k ==> !#[trigger] keys[j]
}

/// The lowest index of a pressed key, where one is pressed.
pub open spec fn first_pressed(keys: Seq<bool>) -> int {
    choose|k: int| is_first_pressed(keys, k)
}

/// Memory with the decimal digits of `val` at `i`, `i + 1` and `i + 2`.
pub open spec fn with_digits(ram: Seq<u8>, i: int, val: u8) -> Seq<u8> {
    ram.update(i, val / 100).update(i + 1, (val / 10) % 10).update(i + 2, val % 10)
}

/// Memory with registers 0 to `x` stored from address `i` on.
pub open spec fn with_stored(ram: Seq<u8>, v: Seq<u8>, i: int, x: int) -> Seq<u8> {
    Seq::new(ram.len(), |a: int| if i <= a <= i + x { v[a - i] } else { ram[a] })
}

/// Registers with 0 to `x` loaded from address `i` on.
pub open spec fn with_loaded(v: Seq<u8>, ram: Seq<u8>, i: int, x: int) -> Seq<u8> {
    Seq::new(v.len(), |r: int| if r <= x { ram[i + r] } else { v[r] })
}

/// The arithmetic group `8xyN`.
pub open spec fn exec_alu(s: Machine, x: int, y: int, n: int) -> Machine {
    let vx = s.v[x];
    let vy = s.v[y];
    if n == 0 {
        with_reg(s, x, vy)
    } else if n == 1 {
        with_reg(s, x, vx | vy)
    } else if n == 2 {
        with_reg(s, x, vx & vy)
    } else if n == 3 {
        with_reg(s, x, vx ^ vy)
    } else if n == 4 {
        with_reg_flag(s, x, add_result(vx, vy), add_flag(vx, vy))
    } else if n == 5 {
        with_reg_flag(s, x, sub_result(vx, vy), sub_flag(vx, vy))
    } else if n == 6 {
        with_reg_flag(s, x, shr_result(vx), shr_flag(vx))
    } else if n == 7 {
        with_reg_flag(s, x, sub_result(vy, vx), sub_flag(vy, vx))
    } else {
        with_reg_flag(s, x, shl_result(vx), shl_flag(vx))
    }
}

/// The group `FxNN`: timers, key wait, index register and memory transfers.
/// `s.pc` is the address after the instruction.
pub open spec fn exec_misc(s: Machine, x: int, nn: u8) -> Machine {
    let vx = s.v[x];
    if nn == 0x07 {
        with_reg(s, x, s.dt)
    } else if nn == 0x0A {
        if no_key_pressed(s.keys) {
            Machine { pc: (s.pc - 2) as u16, ..s }
        } else {
            with_reg(s, x, first_pressed(s.keys) as u8)
        }
    } else if nn == 0x15 {
        Machine { dt: vx, ..s }
    } else if nn == 0x18 {
        Machine { st: vx, ..s }
    } else if nn == 0x1E {
        Machine { i: ((s.i + vx) % 65536) as u16, ..s }
    } else if nn == 0x29 {
        Machine { i: (vx * 5) as u16, ..s }
    } else if nn == 0x33 {
        Machine { ram: with_digits(s.ram, s.i as int, vx), ..s }
    } else if nn == 0x55 {
        Machine { ram: with_stored(s.ram, s.v, s.i as int, x), ..s }
    } else {
        Machine { v: with_loaded(s.v, s.ram, s.i as int, x), ..s }
    }
}

/// The state after the instruction `op` ran on `s`, where `s.pc` is the
/// address after the instruction and `rnd` is the byte that the random
/// instruction draws. It is meaningful where `op_fault` is `None`.
pub open spec fn exec_op(s: Machine, op: u16, rnd: u8) -> Machine {
    let d1 = nib1(op);
    let x = nib2(op);
    let y = nib3(op);
    let n = nib4(op);
    let nnn = low12(op);
    let nn = low8(op);
    let vx = s.v[x];
    let vy = s.v[y];
    if op == 0x0000 {
        s
    } else if op == 0x00E0 {
        Machine { screen: blank_screen(), ..s }
    } else if op == 0x00EE {
        Machine { pc: s.stack[s.sp - 1], sp: (s.sp - 1) as u16, ..s }
    } else if d1 == 0x1 {
        Machine { pc: nnn, ..s }
    } else if d1 == 0x2 {
        Machine { pc: nnn, sp: (s.sp + 1) as u16, stack: s.stack.update(s.sp as int, s.pc), ..s }
    } else if d1 == 0x3 {
        skip_if(s, vx == nn)
    } else if d1 == 0x4 {
        skip_if(s, vx != nn)
    } else if d1 == 0x5 {
        skip_if(s, vx == vy)
    } else if d1 == 0x6 {
        with_reg(s, x, nn)
    } else if d1 == 0x7 {
        with_reg(s, x, add_result(vx, nn))
    } else if d1 == 0x8 {
        exec_alu(s, x, y, n)
    } else if d1 == 0x9 {
        skip_if(s, vx != vy)
    } else if d1 == 0xA {
        Machine { i: nnn, ..s }
    } else if d1 == 0xB {
        Machine { pc: (s.v[0] + nnn) as u16, ..s }
    } else if d1 == 0xC {
        with_reg(s, x, rnd & nn)
    } else if d1 == 0xD {
        let sprite = sprite_rows(s.ram, s.i, n);
        Machine {
            screen: draw_plane(s.screen, sprite, vx, vy),
            v: s.v.update(15, draw_flag(s.screen, sprite, vx, vy)),
            ..s
        }
    } else if d1 == 0xE {
        skip_if(s, s.keys[vx as int] == (nn == 0x9E))
    } else {
        exec_misc(s, x, nn)
    }
}

/// The fault that the instruction `op`, fetched at `pc`, meets on `s`, if any.
pub open spec fn op_fault(s: Machine, op: u16, pc: u16) -> Option<Fault> {
    let d1 = nib1(op);
    let x = nib2(op);
    let n = nib4(op);
    let nn = low8(op);
    if !is_instruction(op) {
        Some(Fault::UnknownInstruction { op, pc })
    } else if op == 0x00EE && s.sp == 0 {
        Some(Fault::Stack { op, pc })
    } else if d1 == 0x2 && s.sp >= STACK_SIZE {
        Some(Fault::Stack { op, pc })
    } else if d1 == 0xD && n > 0 && s.i + n > RAM_SIZE {
        Some(Fault::Memory { op, pc })
    } else if d1 == 0xE && s.v[x] >= NUM_KEYS {
        Some(Fault::Keypad { op, pc })
    } else if d1 == 0xF && nn == 0x33 && s.i + 2 >= RAM_SIZE {
        Some(Fault::Memory { op, pc })
    } else if d1 == 0xF && (nn == 0x55 || nn == 0x65) && s.i + x >= RAM_SIZE {
        Some(Fault::Memory { op, pc })
    } else {
        None
    }
}

/// The instruction word at `pc`: two bytes, the first one the high byte.
pub open spec fn word_at(ram: Seq<u8>, pc: u16) -> u16 {
    (ram[pc as int] * 256 + ram[pc + 1]) as u16
}

/// The state with the program counter moved past the instruction it points at.
pub open spec fn fetched(s: Machine) -> Machine {
    Machine { pc: (s.pc + 2) as u16, ..s }
}

/// The fault that one tick meets on `s`, if any.
pub open spec fn fault(s: Machine) -> Option<Fault> {
    if s.pc + 1 >= RAM_SIZE {
        Some(Fault::ProgramCounter { pc: s.pc })
    } else {
        op_fault(s, word_at(s.ram, s.pc), s.pc)
    }
}

/// The state after one tick on `s`: fetch, decode, execute. It is
/// meaningful where `fault(s)` is `None`.
pub open spec fn step(s: Machine, rnd: u8) -> Machine {
    exec_op(fetched(s), word_at(s.ram, s.pc), rnd)
}

/// Whether the tick on `s` runs the instruction that draws a random byte.
pub open spec fn draws_random(s: Machine) -> bool {
    nib1(word_at(s.ram, s.pc)) == 0xC
}

/// The state after one timer tick: each timer above zero goes down by one.
pub open spec fn timers_ticked(s: Machine) -> Machine {
    Machine {
        dt: if s.dt > 0 { (s.dt - 1) as u8 } else { 0 },
        st: if s.st > 0 { (s.st - 1) as u8 } else { 0 },
        ..s
    }
}

/// Memory with the program image installed at the entry address.
pub open spec fn with_image(ram: Seq<u8>, data: Seq<u8>) -> Seq<u8> {
    Seq::new(
        ram.len(),
        |a: int| if START_ADDR <= a < START_ADDR + data.len() { data[a - START_ADDR] } else { ram[a] },
    )
}

} // verus!
