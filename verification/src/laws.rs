//! Laws of the instruction set, proved from the model in `machine`.

use vstd::prelude::*;
use crate::machine::{
    draws_random, add_flag, add_result, draw_collides, draw_plane, exec_alu, exec_op, fault, first_pressed,
    is_first_pressed, low12, low8, nib1, nib2, nib3, nib4, no_key_pressed, op_fault, shl_flag,
    shl_result, shr_flag, shr_result, sprite_bit, sprite_rows, step, sub_flag, sub_result,
    timers_ticked, word_at, Machine, RAM_SIZE, STACK_SIZE,
};

verus! {

/// Addition with carry is commutative in both the result and the flag; the
/// flag is 1 exactly when the sum does not fit in eight bits, and result and
/// flag together give the sum.
pub proof fn law_add_carry(a: u8, b: u8)
    ensures
        add_result(a, b) == add_result(b, a),
        add_flag(a, b) == add_flag(b, a),
        add_flag(a, b) == 1 <==> a + b >= 256,
        add_flag(a, b) == 0 <==> a + b < 256,
        add_result(a, b) + 256 * add_flag(a, b) == a + b,
{
}

/// The add instruction leaves the sum in register `x` and the carry in the
/// flag register, whichever of the two operand orders is taken.
pub proof fn law_add_instruction(s: Machine, x: int, y: int)
    requires
        s.wf(),
        0 <= x < 15,
        0 <= y < 16,
    ensures
        exec_alu(s, x, y, 4).v[x] == add_result(s.v[x], s.v[y]),
        exec_alu(s, x, y, 4).v[15] == add_flag(s.v[x], s.v[y]),
        y < 15 ==> exec_alu(s, y, x, 4).v[y] == exec_alu(s, x, y, 4).v[x],
        exec_alu(s, y, x, 4).v[15] == exec_alu(s, x, y, 4).v[15],
{
}

/// Subtraction sets the flag to 0 exactly when it borrows, that is when
/// `a < b`, and to 1 otherwise; the result is the difference modulo 256.
pub proof fn law_sub_borrow(a: u8, b: u8)
    ensures
        sub_flag(a, b) == 0 <==> a < b,
        sub_flag(a, b) == 1 <==> a >= b,
        sub_result(a, b) == (a - b) % 256,
        sub_result(a, b) == a - b + 256 * (1 - sub_flag(a, b)),
{
}

/// Both subtract instructions leave the difference in register `x` and the
/// inverted borrow in the flag register.
pub proof fn law_sub_instruction(s: Machine, x: int, y: int)
    requires
        s.wf(),
        0 <= x < 15,
        0 <= y < 16,
    ensures
        exec_alu(s, x, y, 5).v[x] == sub_result(s.v[x], s.v[y]),
        exec_alu(s, x, y, 5).v[15] == sub_flag(s.v[x], s.v[y]),
        exec_alu(s, x, y, 7).v[x] == sub_result(s.v[y], s.v[x]),
        exec_alu(s, x, y, 7).v[15] == sub_flag(s.v[y], s.v[x]),
{
}

/// A shift's flag is the bit that is shifted out, and its result is the
/// value halved, or doubled within eight bits.
pub proof fn law_shift(a: u8)
    ensures
        shr_flag(a) == a % 2,
        shr_result(a) == a / 2,
        2 * shr_result(a) + shr_flag(a) == a,
        shl_flag(a) == a / 128,
        shl_result(a) == (a * 2) % 256,
        shl_result(a) + 256 * shl_flag(a) == 2 * a,
{
    assert(a & 1u8 == a % 2) by (bit_vector);
    assert(a >> 1u8 == a / 2) by (bit_vector);
    assert((a >> 7u8) & 1u8 == a / 128) by (bit_vector);
    assert(a << 1u8 == (a * 2) % 256) by (bit_vector);
}

/// The shift instructions leave the shifted value in register `x` and the
/// bit that was shifted out in the flag register.
pub proof fn law_shift_instruction(s: Machine, x: int, y: int)
    requires
        s.wf(),
        0 <= x < 15,
    ensures
        exec_alu(s, x, y, 6).v[x] == shr_result(s.v[x]),
        exec_alu(s, x, y, 6).v[15] == shr_flag(s.v[x]),
        exec_alu(s, x, y, 0xE).v[x] == shl_result(s.v[x]),
        exec_alu(s, x, y, 0xE).v[15] == shl_flag(s.v[x]),
{
}

/// Whether drawing the sprite turns an unlit cell lit.
pub open spec fn draw_lights(screen: Seq<bool>, sprite: Seq<u8>, x0: u8, y0: u8) -> bool {
    exists|k: int|
        0 <= k < screen.len() && !#[trigger] screen[k] && sprite_bit(sprite, x0, y0, k)
}

/// Drawing is its own inverse: the same sprite drawn twice at the same
/// origin gives the display plane back, and the second drawing reports a
/// collision exactly when the first one lit a cell.
pub proof fn law_draw_twice(screen: Seq<bool>, sprite: Seq<u8>, x0: u8, y0: u8)
    ensures
        draw_plane(draw_plane(screen, sprite, x0, y0), sprite, x0, y0) == screen,
        draw_collides(draw_plane(screen, sprite, x0, y0), sprite, x0, y0) <==> draw_lights(
            screen,
            sprite,
            x0,
            y0,
        ),
{
    let once = draw_plane(screen, sprite, x0, y0);
    assert(draw_plane(once, sprite, x0, y0) =~= screen);
    if draw_lights(screen, sprite, x0, y0) {
        let k = choose|k: int|
            0 <= k < screen.len() && !#[trigger] screen[k] && sprite_bit(sprite, x0, y0, k);
        assert(once[k] && sprite_bit(sprite, x0, y0, k));
    }
    if draw_collides(once, sprite, x0, y0) {
        let k = choose|k: int|
            0 <= k < once.len() && #[trigger] once[k] && sprite_bit(sprite, x0, y0, k);
        assert(!screen[k] && sprite_bit(sprite, x0, y0, k));
    }
}

/// The draw instruction run twice, with operand registers other than the
/// flag register, gives the display plane back and sets the flag exactly
/// when the first run lit a cell.
pub proof fn law_draw_instruction_twice(s: Machine, op: u16, rnd: u8)
    requires
        s.wf(),
        nib1(op) == 0xD,
        nib2(op) != 15,
        nib3(op) != 15,
    ensures
        exec_op(exec_op(s, op, rnd), op, rnd).screen == s.screen,
        exec_op(exec_op(s, op, rnd), op, rnd).v[15] == 1 <==> draw_lights(
            s.screen,
            sprite_rows(s.ram, s.i, nib4(op)),
            s.v[nib2(op)],
            s.v[nib3(op)],
        ),
{
    let sprite = sprite_rows(s.ram, s.i, nib4(op));
    law_draw_twice(s.screen, sprite, s.v[nib2(op)], s.v[nib3(op)]);
}

/// A call followed by a return resumes at the address after the call and
/// leaves the stack pointer where it was; neither faults while the stack has
/// room.
pub proof fn law_call_return(s: Machine, call: u16, rnd: u8)
    requires
        s.wf(),
        s.sp < STACK_SIZE,
        nib1(call) == 0x2,
    ensures
        op_fault(s, call, s.pc) is None,
        exec_op(s, call, rnd).pc == low12(call),
        op_fault(exec_op(s, call, rnd), 0x00EE, low12(call)) is None,
        exec_op(exec_op(s, call, rnd), 0x00EE, rnd).pc == s.pc,
        exec_op(exec_op(s, call, rnd), 0x00EE, rnd).sp == s.sp,
{
}

/// Two ticks, the first on a call and the second on a return at the call's
/// target, resume at the address after the call: the call saves the program
/// counter that has already moved past it.
pub proof fn law_call_return_ticks(s: Machine, r1: u8, r2: u8)
    requires
        s.wf(),
        s.pc + 1 < RAM_SIZE,
        s.sp < STACK_SIZE,
        nib1(word_at(s.ram, s.pc)) == 0x2,
        low12(word_at(s.ram, s.pc)) + 1 < RAM_SIZE,
        word_at(s.ram, low12(word_at(s.ram, s.pc))) == 0x00EE,
    ensures
        fault(s) is None,
        step(s, r1).pc == low12(word_at(s.ram, s.pc)),
        step(s, r1).stack[s.sp as int] == s.pc + 2,
        fault(step(s, r1)) is None,
        step(step(s, r1), r2).pc == s.pc + 2,
        step(step(s, r1), r2).sp == s.sp,
{
}

/// Only the random instruction reads the byte that a tick is given.
pub proof fn law_byte_matters_to_random_only(s: Machine, r1: u8, r2: u8)
    requires
        !draws_random(s),
    ensures
        step(s, r1) == step(s, r2),
{
}

/// The state after `n` timer ticks.
pub open spec fn timers_ticked_times(s: Machine, n: nat) -> Machine
    decreases n,
{
    if n == 0 {
        s
    } else {
        timers_ticked_times(timers_ticked(s), (n - 1) as nat)
    }
}

/// After `n` timer ticks each timer has gone down by `n`, but not below
/// zero, and nothing else has changed.
pub proof fn law_timers_count_down(s: Machine, n: nat)
    ensures
        timers_ticked_times(s, n).dt == (if s.dt >= n { s.dt - n } else { 0 }),
        timers_ticked_times(s, n).st == (if s.st >= n { s.st - n } else { 0 }),
        timers_ticked_times(s, n) == (Machine {
            dt: timers_ticked_times(s, n).dt,
            st: timers_ticked_times(s, n).st,
            ..s
        }),
    decreases n,
{
    if n > 0 {
        law_timers_count_down(timers_ticked(s), (n - 1) as nat);
    }
}

/// The state after one tick for each byte of `rnds`, in order, each byte
/// being the one that the random instruction would draw in that tick.
pub open spec fn run(s: Machine, rnds: Seq<u8>) -> Machine
    decreases rnds.len(),
{
    if rnds.len() == 0 {
        s
    } else {
        run(step(s, rnds[0]), rnds.drop_first())
    }
}

/// Whether the next tick on `s` runs the key wait.
pub open spec fn awaits_key(s: Machine) -> bool {
    &&& s.pc + 1 < RAM_SIZE
    &&& nib1(word_at(s.ram, s.pc)) == 0xF
    &&& low8(word_at(s.ram, s.pc)) == 0x0A
}

/// While no key is pressed, any number of ticks on the key wait leaves the
/// machine, and with it the program counter, exactly as it was.
pub proof fn law_key_wait_holds(s: Machine, rnds: Seq<u8>)
    requires
        s.wf(),
        awaits_key(s),
        no_key_pressed(s.keys),
    ensures
        fault(s) is None,
        run(s, rnds) == s,
    decreases rnds.len(),
{
    if rnds.len() > 0 {
        assert(step(s, rnds[0]) == s);
        law_key_wait_holds(s, rnds.drop_first());
    }
}

/// Once a key is pressed, one tick on the key wait moves past the
/// instruction and stores the lowest pressed key in its register.
pub proof fn law_key_wait_releases(s: Machine, rnd: u8)
    requires
        s.wf(),
        awaits_key(s),
        !no_key_pressed(s.keys),
    ensures
        fault(s) is None,
        step(s, rnd).pc == s.pc + 2,
        is_first_pressed(s.keys, first_pressed(s.keys)),
        step(s, rnd).v[nib2(word_at(s.ram, s.pc))] == first_pressed(s.keys),
        step(s, rnd) == (Machine { pc: step(s, rnd).pc, v: step(s, rnd).v, ..s }),
{
    lemma_first_pressed(s.keys);
}

/// Where a key is pressed, `first_pressed` is the lowest pressed key.
pub proof fn lemma_first_pressed(keys: Seq<bool>)
    requires
        !no_key_pressed(keys),
    ensures
        is_first_pressed(keys, first_pressed(keys)),
{
    let k = choose|k: int| 0 <= k < keys.len() && #[trigger] keys[k];
    lemma_first_pressed_upto(keys, k);
}

/// A pressed key at `k` has a lowest pressed key at or below it.
proof fn lemma_first_pressed_upto(keys: Seq<bool>, k: int)
    requires
        0 <= k < keys.len(),
        keys[k],
    ensures
        exists|j: int| is_first_pressed(keys, j),
    decreases k,
{
    if exists|j: int| 0 <= j < k && #[trigger] keys[j] {
        let j = choose|j: int| 0 <= j < k && #[trigger] keys[j];
        lemma_first_pressed_upto(keys, j);
    } else {
        assert(is_first_pressed(keys, k));
    }
}

/// A tick that does not fault keeps the machine's invariant.
pub proof fn law_step_keeps_invariant(s: Machine, rnd: u8)
    requires
        s.wf(),
        fault(s) is None,
    ensures
        step(s, rnd).wf(),
{
}

} // verus!
