use vstd::prelude::*;

use crate::machine::{
    cycle_defined, execute_extended, execute_misc, font_glyphs, initial_state, key_pressed,
    key_released, lemma_operand_bounds, op_nn, op_nnn, op_x, op_y, opcode_at, reset_state,
    rom_loaded, sprite_drawn, step, timers_ticked, CpuState,
};
use crate::screen::drawn_display;

verus! {

/// What holds of every machine state that the library's operations produce:
/// memory, registers, stack, screen and keypad have their sizes, the stack
/// pointer stays within the stack, and the machine waits for a key exactly
/// when it has a register to store the key in.
pub open spec fn well_formed(s: CpuState) -> bool {
    &&& s.memory.len() == 4096
    &&& s.v.len() == 16
    &&& s.stack.len() == 16
    &&& s.display.len() == 2048
    &&& s.keys.len() == 16
    &&& s.sp <= 16
    &&& s.blocked <==> s.key_register is Some
    &&& s.key_register matches Some(r) ==> r < 16
}

/// A freshly powered-on machine is well formed.
pub proof fn lemma_initial_well_formed()
    ensures
        well_formed(initial_state()),
{
}

/// Every machine cycle keeps a well-formed machine well formed, whatever the
/// random byte.
pub proof fn lemma_step_keeps_well_formed(s: CpuState, rnd: u8)
    requires
        well_formed(s),
        cycle_defined(s),
    ensures
        well_formed(step(s, rnd)),
{
    reveal(execute_extended);
    reveal(execute_misc);
    reveal(sprite_drawn);
    if !s.blocked && !s.paused {
        lemma_operand_bounds(opcode_at(s.memory, s.pc));
    }
}

/// Pressing, releasing, ticking the timers, loading a program and resetting
/// keep a well-formed machine well formed.
pub proof fn lemma_operations_keep_well_formed(s: CpuState, index: int, rom: Seq<u8>)
    requires
        well_formed(s),
        0 <= index < 16,
        rom.len() <= 4096 - 0x200,
    ensures
        well_formed(key_pressed(s, index)),
        well_formed(key_released(s, index)),
        well_formed(timers_ticked(s)),
        well_formed(rom_loaded(s, rom)),
        well_formed(reset_state(s)),
{
}

/// A machine that is paused, or that waits for a key, is left unchanged by a
/// cycle.
pub proof fn lemma_waiting_machine_idles(s: CpuState, rnd: u8)
    requires
        s.blocked || s.paused,
    ensures
        step(s, rnd) == s,
{
}

/// A cycle on an 8XY_ instruction is the arithmetic step of `execute_extended`.
proof fn lemma_step_arith(s: CpuState, rnd: u8)
    requires
        !s.blocked,
        !s.paused,
        opcode_at(s.memory, s.pc) & 0xF000 == 0x8000,
    ensures
        step(s, rnd) == execute_extended(s, opcode_at(s.memory, s.pc)),
{
}

/// A cycle on an EX__ or FX__ instruction is the step of `execute_misc`.
proof fn lemma_step_misc(s: CpuState, rnd: u8)
    requires
        !s.blocked,
        !s.paused,
        opcode_at(s.memory, s.pc) & 0xF000 == 0xE000 || opcode_at(s.memory, s.pc) & 0xF000 == 0xF000,
    ensures
        step(s, rnd) == execute_misc(s, opcode_at(s.memory, s.pc)),
{
    let op = opcode_at(s.memory, s.pc);
    assert((op & 0xF000 == 0xE000 || op & 0xF000 == 0xF000) ==> (op >= 0xE000 && op & 0xF00F >= 0xE000)) by (bit_vector);
    reveal(execute_extended);
}

/// The F-family patterns name their family.
proof fn lemma_misc_family(op: u16)
    ensures
        (op & 0xF0FF == 0xF033 || op & 0xF0FF == 0xF055 || op & 0xF0FF == 0xF065 || op & 0xF0FF == 0xF00A)
            ==> op & 0xF000 == 0xF000,
{
    assert((op & 0xF0FF == 0xF033 || op & 0xF0FF == 0xF055 || op & 0xF0FF == 0xF065 || op & 0xF0FF == 0xF00A)
        ==> op & 0xF000 == 0xF000) by (bit_vector);
}

/// 2NNN followed by 00EE returns to the instruction after the call: the
/// program counter is two past the call and the stack pointer is back where
/// it was; only the stack slot holding the return address differs.
pub proof fn lemma_call_then_return(s: CpuState, r1: u8, r2: u8)
    requires
        s.stack.len() == 16,
        s.sp < 16,
        !s.blocked,
        !s.paused,
        opcode_at(s.memory, s.pc) & 0xF000 == 0x2000,
        opcode_at(step(s, r1).memory, step(s, r1).pc) == 0x00EE,
    ensures
        step(step(s, r1), r2) == (CpuState {
            pc: (s.pc + 2) as u16,
            stack: s.stack.update(s.sp as int, (s.pc + 2) as u16),
            ..s
        }),
{
    let op = opcode_at(s.memory, s.pc);
    lemma_operand_bounds(op);
    let t = step(s, r1);
    assert(t == CpuState {
        stack: s.stack.update(s.sp as int, (s.pc + 2) as u16),
        sp: (s.sp + 1) as usize,
        pc: op_nnn(op),
        ..s
    });
    assert(0x00EEu16 & 0xF000u16 == 0) by (bit_vector);
    assert(step(t, r2) == execute_extended(t, 0x00EE));
    reveal(execute_extended);
    assert(step(t, r2).stack =~= s.stack.update(s.sp as int, (s.pc + 2) as u16));
}

/// Drawing the same sprite at the same place twice leaves the screen as it
/// was: drawing flips pixels, so a second draw flips them back.
pub proof fn lemma_draw_twice_restores(display: Seq<bool>, mem: Seq<u8>, addr: u16, x_pos: int, y_pos: int, height: u8)
    requires
        display.len() == 2048,
    ensures
        drawn_display(drawn_display(display, mem, addr, x_pos, y_pos, height), mem, addr, x_pos, y_pos, height) == display,
{
    assert(drawn_display(drawn_display(display, mem, addr, x_pos, y_pos, height), mem, addr, x_pos, y_pos, height) =~= display);
}

/// DXYN executed twice in a row with the same operands, where neither
/// coordinate register is VF, leaves the screen as it was.
pub proof fn lemma_sprite_drawn_twice(s: CpuState, x: int, y: int, n: u8)
    requires
        s.display.len() == 2048,
        s.v.len() == 16,
        0 <= x < 15,
        0 <= y < 15,
    ensures
        sprite_drawn(sprite_drawn(s, x, y, n), x, y, n).display == s.display,
{
    reveal(sprite_drawn);
    lemma_draw_twice_restores(s.display, s.memory, s.i, s.v[x] as int, s.v[y] as int, n);
}

/// FX33 stores the decimal digits of VX at I, I+1 and I+2, most significant
/// first: each is a digit, and together they spell VX.
pub proof fn lemma_bcd_digits(s: CpuState, rnd: u8)
    requires
        well_formed(s),
        cycle_defined(s),
        !s.blocked,
        !s.paused,
        opcode_at(s.memory, s.pc) & 0xF0FF == 0xF033,
    ensures
        ({
            let t = step(s, rnd);
            let a = s.i as int;
            let vx = s.v[op_x(opcode_at(s.memory, s.pc))];
            &&& t.memory[a] <= 2
            &&& t.memory[a + 1] < 10
            &&& t.memory[a + 2] < 10
            &&& t.memory[a] * 100 + t.memory[a + 1] * 10 + t.memory[a + 2] == vx
        }),
{
    let op = opcode_at(s.memory, s.pc);
    lemma_operand_bounds(op);
    lemma_misc_family(op);
    lemma_step_misc(s, rnd);
    reveal(execute_misc);
    let vx = s.v[op_x(op)];
    assert(vx / 100 <= 2 && (vx / 10) % 10 < 10 && vx % 10 < 10
        && (vx / 100) * 100 + ((vx / 10) % 10) * 10 + vx % 10 == vx) by (nonlinear_arith)
        requires 0 <= vx < 256;
}

/// FX55 followed by FX65 with the same X (and I unchanged in between) gives
/// back the registers V0..VX that were stored: all registers are as before.
pub proof fn lemma_store_then_load(s: CpuState, r1: u8, r2: u8)
    requires
        well_formed(s),
        cycle_defined(s),
        !s.blocked,
        !s.paused,
        opcode_at(s.memory, s.pc) & 0xF0FF == 0xF055,
        opcode_at(step(s, r1).memory, step(s, r1).pc) & 0xF0FF == 0xF065,
        op_x(opcode_at(step(s, r1).memory, step(s, r1).pc)) == op_x(opcode_at(s.memory, s.pc)),
    ensures
        step(step(s, r1), r2).v == s.v,
        step(step(s, r1), r2).pc == s.pc + 4,
{
    let op = opcode_at(s.memory, s.pc);
    lemma_operand_bounds(op);
    lemma_misc_family(op);
    lemma_step_misc(s, r1);
    let t = step(s, r1);
    let op2 = opcode_at(t.memory, t.pc);
    lemma_operand_bounds(op2);
    lemma_misc_family(op2);
    reveal(execute_misc);
    assert(!t.blocked && !t.paused && t.pc == s.pc + 2);
    lemma_step_misc(t, r2);
    assert(step(t, r2).v =~= s.v);
}

/// FX0A makes the machine wait; the next key pressed lands in VX, and the
/// machine resumes after the instruction as if it had not waited.
pub proof fn lemma_wait_then_press(s: CpuState, rnd: u8, key: int)
    requires
        well_formed(s),
        cycle_defined(s),
        !s.blocked,
        !s.paused,
        opcode_at(s.memory, s.pc) & 0xF0FF == 0xF00A,
        0 <= key < 16,
    ensures
        step(s, rnd).blocked,
        key_pressed(step(s, rnd), key) == (CpuState {
            v: s.v.update(op_x(opcode_at(s.memory, s.pc)), key as u8),
            keys: s.keys.update(key, true),
            pc: (s.pc + 2) as u16,
            ..s
        }),
{
    let op = opcode_at(s.memory, s.pc);
    lemma_operand_bounds(op);
    lemma_misc_family(op);
    lemma_step_misc(s, rnd);
    reveal(execute_misc);
}

/// 8XY4 adds with carry: the new VX plus 256 times the carry in VF is the
/// sum of the old VX and VY (X other than F).
pub proof fn lemma_add_with_carry(s: CpuState, rnd: u8)
    requires
        well_formed(s),
        cycle_defined(s),
        !s.blocked,
        !s.paused,
        opcode_at(s.memory, s.pc) & 0xF00F == 0x8004,
        op_x(opcode_at(s.memory, s.pc)) != 15,
    ensures
        ({
            let op = opcode_at(s.memory, s.pc);
            let t = step(s, rnd);
            &&& t.v[15] <= 1
            &&& t.v[op_x(op)] + 256 * t.v[15] == s.v[op_x(op)] + s.v[op_y(op)]
        }),
{
    let op = opcode_at(s.memory, s.pc);
    lemma_operand_bounds(op);
    assert(op & 0xF00F == 0x8004 ==> (op & 0xF000 == 0x8000 && op >= 0x8000)) by (bit_vector);
    lemma_step_arith(s, rnd);
    reveal(execute_extended);
}

/// 8XY5 subtracts with borrow: the new VX plus VY is the old VX, plus 256
/// when VF reports a borrow (VF = 0) (X other than F).
pub proof fn lemma_sub_with_borrow(s: CpuState, rnd: u8)
    requires
        well_formed(s),
        cycle_defined(s),
        !s.blocked,
        !s.paused,
        opcode_at(s.memory, s.pc) & 0xF00F == 0x8005,
        op_x(opcode_at(s.memory, s.pc)) != 15,
    ensures
        ({
            let op = opcode_at(s.memory, s.pc);
            let t = step(s, rnd);
            &&& t.v[15] <= 1
            &&& t.v[op_x(op)] + s.v[op_y(op)] == s.v[op_x(op)] + 256 * (1 - t.v[15])
        }),
{
    let op = opcode_at(s.memory, s.pc);
    lemma_operand_bounds(op);
    assert(op & 0xF00F == 0x8005 ==> (op & 0xF000 == 0x8000 && op >= 0x8000)) by (bit_vector);
    lemma_step_arith(s, rnd);
    reveal(execute_extended);
}

/// CXNN leaves in VX the random byte masked by NN: no bit outside NN is set.
pub proof fn lemma_random_masked(s: CpuState, rnd: u8)
    requires
        well_formed(s),
        !s.blocked,
        !s.paused,
        opcode_at(s.memory, s.pc) & 0xF000 == 0xC000,
    ensures
        ({
            let op = opcode_at(s.memory, s.pc);
            let vx = step(s, rnd).v[op_x(op)];
            &&& vx == rnd & op_nn(op)
            &&& vx & !op_nn(op) == 0
        }),
{
    let op = opcode_at(s.memory, s.pc);
    lemma_operand_bounds(op);
    let nn = op_nn(op);
    assert((rnd & nn) & !nn == 0) by (bit_vector);
}

/// A reset is a power-on with a redraw requested, whenever the memory
/// between the font and 0x200 holds zeros (as it does after power-on).
pub proof fn lemma_reset_is_power_on(s: CpuState)
    requires
        forall|a: int| 80 <= a < 0x200 ==> s.memory[a] == 0,
    ensures
        reset_state(s) == (CpuState { screen_update: true, ..initial_state() }),
{
    assert(reset_state(s).memory =~= initial_state().memory);
}

/// Resetting twice is the same as resetting once.
pub proof fn lemma_reset_idempotent(s: CpuState)
    ensures
        reset_state(reset_state(s)) == reset_state(s),
{
    assert(reset_state(reset_state(s)).memory =~= reset_state(s).memory);
}

/// The machine after `n` timer ticks.
pub open spec fn ticked_times(s: CpuState, n: nat) -> CpuState
    decreases n,
{
    if n == 0 {
        s
    } else {
        timers_ticked(ticked_times(s, (n - 1) as nat))
    }
}

/// Each timer counts down by one per tick until it reaches zero, and then
/// stays there; nothing else changes.
pub proof fn lemma_timers_count_down(s: CpuState, n: nat)
    ensures
        ticked_times(s, n).delay_timer == if s.delay_timer >= n { s.delay_timer - n } else { 0 },
        ticked_times(s, n).sound_timer == if s.sound_timer >= n { s.sound_timer - n } else { 0 },
        ticked_times(s, n) == (CpuState {
            delay_timer: ticked_times(s, n).delay_timer,
            sound_timer: ticked_times(s, n).sound_timer,
            ..s
        }),
    decreases n,
{
    if n > 0 {
        lemma_timers_count_down(s, (n - 1) as nat);
    }
}

/// On a machine that is not waiting for a key, releasing a key that was up
/// and has just been pressed leaves the machine as it was.
pub proof fn lemma_press_then_release(s: CpuState, key: int)
    requires
        well_formed(s),
        !s.blocked,
        0 <= key < 16,
        !s.keys[key],
    ensures
        key_released(key_pressed(s, key), key) == s,
{
    assert(key_released(key_pressed(s, key), key).keys =~= s.keys);
}

/// FX29 points I at the five-byte glyph of the hexadecimal digit in VX; on a
/// machine whose font is intact, those bytes are the digit's font glyph.
pub proof fn lemma_font_glyph_address(s: CpuState, rnd: u8)
    requires
        well_formed(s),
        !s.blocked,
        !s.paused,
        opcode_at(s.memory, s.pc) & 0xF0FF == 0xF029,
        s.v[op_x(opcode_at(s.memory, s.pc))] < 16,
        s.memory.subrange(0, 80) == font_glyphs(),
    ensures
        ({
            let d = s.v[op_x(opcode_at(s.memory, s.pc))] as int;
            let t = step(s, rnd);
            &&& t.i == 5 * d
            &&& t.memory.subrange(t.i as int, t.i + 5) == font_glyphs().subrange(5 * d, 5 * d + 5)
        }),
{
    let op = opcode_at(s.memory, s.pc);
    lemma_operand_bounds(op);
    assert(op & 0xF0FF == 0xF029 ==> op & 0xF000 == 0xF000) by (bit_vector);
    lemma_step_misc(s, rnd);
    reveal(execute_misc);
    let d = s.v[op_x(op)] as int;
    let t = step(s, rnd);
    assert(t.memory.subrange(t.i as int, t.i + 5) =~= s.memory.subrange(0, 80).subrange(5 * d, 5 * d + 5));
}

}
