use vstd::prelude::*;

use crate::screen::{drawn_display, sprite_collides};

verus! {

/// The mathematical state of the machine: every component of `Cpu`, with the
/// fixed-size arrays seen as sequences.
#[verifier::ext_equal]
pub struct CpuState {
    pub memory: Seq<u8>,
    pub v: Seq<u8>,
    pub i: u16,
    pub pc: u16,
    pub stack: Seq<u16>,
    pub sp: usize,
    pub delay_timer: u8,
    pub sound_timer: u8,
    pub display: Seq<bool>,
    pub keys: Seq<bool>,
    pub screen_update: bool,
    pub paused: bool,
    pub blocked: bool,
    pub key_register: Option<usize>,
}

/// The built-in hexadecimal font: five bytes for each of the digits 0 to F,
/// stored from address 0.
pub open spec fn font_glyphs() -> Seq<u8> {
    seq![
        0xF0u8, 0x90, 0x90, 0x90, 0xF0, 0x20, 0x60, 0x20, 0x20, 0x70,
        0xF0, 0x10, 0xF0, 0x80, 0xF0, 0xF0, 0x10, 0xF0, 0x10, 0xF0,
        0x90, 0x90, 0xF0, 0x10, 0x10, 0xF0, 0x80, 0xF0, 0x10, 0xF0,
        0xF0, 0x80, 0xF0, 0x90, 0xF0, 0xF0, 0x10, 0x20, 0x40, 0x40,
        0xF0, 0x90, 0xF0, 0x90, 0xF0, 0xF0, 0x90, 0xF0, 0x10, 0xF0,
        0xF0, 0x90, 0xF0, 0x90, 0x90, 0xE0, 0x90, 0xE0, 0x90, 0xE0,
        0xF0, 0x80, 0x80, 0x80, 0xF0, 0xE0, 0x90, 0x90, 0x90, 0xE0,
        0xF0, 0x80, 0xF0, 0x80, 0xF0, 0xF0, 0x80, 0xF0, 0x80, 0x80,
    ]
}

/// Memory with the font written over its first 80 bytes.
pub open spec fn with_font(memory: Seq<u8>) -> Seq<u8> {
    Seq::new(memory.len(), |a: int| if a < 80 { font_glyphs()[a] } else { memory[a] })
}

/// The machine as it is powered on: the font in low memory, everything else
/// zero, execution starting at 0x200.
pub open spec fn initial_state() -> CpuState {
    CpuState {
        memory: with_font(Seq::new(4096, |a: int| 0u8)),
        v: Seq::new(16, |k: int| 0u8),
        i: 0,
        pc: 0x200,
        stack: Seq::new(16, |k: int| 0u16),
        sp: 0,
        delay_timer: 0,
        sound_timer: 0,
        display: Seq::new(2048, |p: int| false),
        keys: Seq::new(16, |k: int| false),
        screen_update: false,
        paused: false,
        blocked: false,
        key_register: None,
    }
}

/// The state after a reset: program memory (from 0x200), registers, stack,
/// keys and screen cleared, the font reloaded, execution back at 0x200 and a
/// redraw requested. Memory between the font and 0x200 is left as it was.
pub open spec fn reset_state(s: CpuState) -> CpuState {
    CpuState {
        memory: with_font(Seq::new(4096, |a: int| if a < 0x200 { s.memory[a] } else { 0u8 })),
        screen_update: true,
        ..initial_state()
    }
}

/// The state after a program image is copied to memory from address 0x200.
pub open spec fn rom_loaded(s: CpuState, rom: Seq<u8>) -> CpuState {
    CpuState {
        memory: Seq::new(4096, |a: int| if 0x200 <= a < 0x200 + rom.len() { rom[a - 0x200] } else { s.memory[a] }),
        ..s
    }
}

/// Both timers count down by one, stopping at zero.
pub open spec fn timers_ticked(s: CpuState) -> CpuState {
    CpuState {
        delay_timer: if s.delay_timer > 0 { (s.delay_timer - 1) as u8 } else { 0 },
        sound_timer: if s.sound_timer > 0 { (s.sound_timer - 1) as u8 } else { 0 },
        ..s
    }
}

/// Key `index` goes down. A machine waiting for a key stores the key's number
/// in the register it waits on, stops waiting and moves past the instruction.
pub open spec fn key_pressed(s: CpuState, index: int) -> CpuState {
    let s1 = CpuState { keys: s.keys.update(index, true), ..s };
    if s.blocked {
        CpuState {
            v: match s.key_register {
                Some(r) => s1.v.update(r as int, index as u8),
                None => s1.v,
            },
            key_register: None,
            blocked: false,
            pc: (s.pc + 2) as u16,
            ..s1
        }
    } else {
        s1
    }
}

/// Key `index` goes up.
pub open spec fn key_released(s: CpuState, index: int) -> CpuState {
    CpuState { keys: s.keys.update(index, false), ..s }
}

/// The two bytes at `pc`, most significant first.
pub open spec fn opcode_at(memory: Seq<u8>, pc: u16) -> u16 {
    ((memory[pc as int] as u16) << 8u16) | (memory[pc + 1] as u16)
}

/// The X operand: bits 8 to 11 of an instruction.
pub open spec fn op_x(op: u16) -> int {
    ((op & 0x0F00) >> 8u16) as int
}

/// The Y operand: bits 4 to 7 of an instruction.
pub open spec fn op_y(op: u16) -> int {
    ((op & 0x00F0) >> 4u16) as int
}

/// The N operand: the low four bits of an instruction.
pub open spec fn op_n(op: u16) -> u8 {
    (op & 0x000F) as u8
}

/// The NN operand: the low byte of an instruction.
pub open spec fn op_nn(op: u16) -> u8 {
    (op & 0x00FF) as u8
}

/// The NNN operand: the low twelve bits of an instruction (an address).
pub open spec fn op_nnn(op: u16) -> u16 {
    op & 0x0FFF
}

/// Register operands name one of the sixteen registers, and addresses fit
/// the 4 KiB memory.
pub proof fn lemma_operand_bounds(op: u16)
    ensures
        0 <= op_x(op) < 16,
        0 <= op_y(op) < 16,
        op_n(op) < 16,
        op_nnn(op) < 4096,
{
    assert(((op & 0x0F00) >> 8u16) < 16) by (bit_vector);
    assert(((op & 0x00F0) >> 4u16) < 16) by (bit_vector);
    assert((op & 0x000F) < 16) by (bit_vector);
    assert((op & 0x0FFF) < 4096) by (bit_vector);
}

/// Go `by` bytes forward.
pub open spec fn advanced(s: CpuState, by: int) -> CpuState {
    CpuState { pc: (s.pc + by) as u16, ..s }
}

/// Skip the next instruction when `cond` holds, else go to the next one.
pub open spec fn skip_if(s: CpuState, cond: bool) -> CpuState {
    advanced(s, if cond { 4 } else { 2 })
}

/// Register `k` holds `b`.
pub open spec fn with_v(s: CpuState, k: int, b: u8) -> CpuState {
    CpuState { v: s.v.update(k, b), ..s }
}

/// DXYN: draw the N-row sprite at I at (VX, VY); VF tells whether a lit pixel
/// was turned off.
#[verifier::opaque]
pub open spec fn sprite_drawn(s: CpuState, x: int, y: int, n: u8) -> CpuState {
    let xp = s.v[x] as int;
    let yp = s.v[y] as int;
    CpuState {
        display: drawn_display(s.display, s.memory, s.i, xp, yp, n),
        v: s.v.update(15, if sprite_collides(s.display, s.memory, s.i, xp, yp, n) { 1u8 } else { 0u8 }),
        screen_update: true,
        ..s
    }
}

/// What one instruction does to a running machine. `rnd` is the random byte
/// that CXNN masks.
pub open spec fn execute(s: CpuState, op: u16, rnd: u8) -> CpuState {
    let x = op_x(op);
    let y = op_y(op);
    let nn = op_nn(op);
    let nnn = op_nnn(op);
    let family = op & 0xF000;
    if family == 0x1000 {
        CpuState { pc: nnn, ..s }
    } else if family == 0x2000 {
        CpuState { stack: s.stack.update(s.sp as int, (s.pc + 2) as u16), sp: (s.sp + 1) as usize, pc: nnn, ..s }
    } else if family == 0x3000 {
        skip_if(s, s.v[x] == nn)
    } else if family == 0x4000 {
        skip_if(s, s.v[x] != nn)
    } else if family == 0x6000 {
        advanced(with_v(s, x, nn), 2)
    } else if family == 0x7000 {
        advanced(with_v(s, x, ((s.v[x] + nn) % 256) as u8), 2)
    } else if family == 0xA000 {
        advanced(CpuState { i: nnn, ..s }, 2)
    } else if family == 0xB000 {
        CpuState { pc: (nnn + s.v[0]) as u16, ..s }
    } else if family == 0xC000 {
        advanced(with_v(s, x, rnd & nn), 2)
    } else if family == 0xD000 {
        advanced(sprite_drawn(s, x, y, op_n(op)), 2)
    } else {
        execute_extended(s, op)
    }
}

/// 00E0, 00EE and the register-to-register instructions 5XY0, 8XY_, 9XY0.
#[verifier::opaque]
pub open spec fn execute_extended(s: CpuState, op: u16) -> CpuState {
    let x = op_x(op);
    let y = op_y(op);
    let vx = s.v[x];
    let vy = s.v[y];
    let kind = op & 0xF00F;
    if op == 0x00E0 {
        advanced(CpuState { display: Seq::new(2048, |p: int| false), screen_update: true, ..s }, 2)
    } else if op == 0x00EE {
        CpuState { sp: (s.sp - 1) as usize, pc: s.stack[s.sp - 1], ..s }
    } else if kind == 0x5000 {
        skip_if(s, vx == vy)
    } else if kind == 0x8000 {
        advanced(with_v(s, x, vy), 2)
    } else if kind == 0x8001 {
        advanced(with_v(s, x, vx | vy), 2)
    } else if kind == 0x8002 {
        advanced(with_v(s, x, vx & vy), 2)
    } else if kind == 0x8003 {
        advanced(with_v(s, x, vx ^ vy), 2)
    } else if kind == 0x8004 {
        advanced(with_v(with_v(s, x, ((vx + vy) % 256) as u8), 15, if vx + vy > 255 { 1 } else { 0 }), 2)
    } else if kind == 0x8005 {
        advanced(with_v(with_v(s, x, ((vx - vy + 256) % 256) as u8), 15, if vx < vy { 0 } else { 1 }), 2)
    } else if kind == 0x8006 {
        let s1 = with_v(s, 15, vx & 1);
        advanced(with_v(s1, x, s1.v[x] >> 1u8), 2)
    } else if kind == 0x8007 {
        advanced(with_v(with_v(s, x, ((vy - vx + 256) % 256) as u8), 15, if vy < vx { 0 } else { 1 }), 2)
    } else if kind == 0x800E {
        let s1 = with_v(s, 15, (vx & 0x80) >> 7u8);
        advanced(with_v(s1, x, s1.v[x] << 1u8), 2)
    } else if kind == 0x9000 {
        skip_if(s, vx != vy)
    } else {
        execute_misc(s, op)
    }
}

/// The key, timer and memory instructions EX9E, EXA1 and FX__; any other
/// opcode is skipped.
#[verifier::opaque]
pub open spec fn execute_misc(s: CpuState, op: u16) -> CpuState {
    let x = op_x(op);
    let vx = s.v[x];
    let kind = op & 0xF0FF;
    if kind == 0xE09E {
        skip_if(s, s.keys[vx as int])
    } else if kind == 0xE0A1 {
        skip_if(s, !s.keys[vx as int])
    } else if kind == 0xF007 {
        advanced(with_v(s, x, s.delay_timer), 2)
    } else if kind == 0xF00A {
        CpuState { blocked: true, key_register: Some(x as usize), ..s }
    } else if kind == 0xF015 {
        advanced(CpuState { delay_timer: vx, ..s }, 2)
    } else if kind == 0xF018 {
        advanced(CpuState { sound_timer: vx, ..s }, 2)
    } else if kind == 0xF01E {
        advanced(CpuState { i: ((s.i + vx) % 65536) as u16, ..s }, 2)
    } else if kind == 0xF029 {
        advanced(CpuState { i: (vx * 5) as u16, ..s }, 2)
    } else if kind == 0xF033 {
        let a = s.i as int;
        let m = s.memory.update(a, vx / 100).update(a + 1, (vx / 10) % 10).update(a + 2, vx % 10);
        advanced(CpuState { memory: m, ..s }, 2)
    } else if kind == 0xF055 {
        let a = s.i as int;
        let m = Seq::new(4096, |b: int| if a <= b <= a + x { s.v[b - a] } else { s.memory[b] });
        advanced(CpuState { memory: m, ..s }, 2)
    } else if kind == 0xF065 {
        let a = s.i as int;
        let regs = Seq::new(16, |k: int| if k <= x { s.memory[a + k] } else { s.v[k] });
        advanced(CpuState { v: regs, ..s }, 2)
    } else {
        advanced(s, 2)
    }
}

/// One machine cycle: a machine that is paused or waiting for a key does
/// nothing; otherwise the instruction at `pc` is executed.
pub open spec fn step(s: CpuState, rnd: u8) -> CpuState {
    if s.blocked || s.paused {
        s
    } else {
        execute(s, opcode_at(s.memory, s.pc), rnd)
    }
}

/// The instruction `op` can run on `s` without leaving the machine's memory,
/// stack or keypad.
pub open spec fn executable(s: CpuState, op: u16) -> bool {
    let x = op_x(op);
    let family = op & 0xF000;
    let misc = op & 0xF0FF;
    &&& family == 0x2000 ==> s.sp < 16
    &&& op == 0x00EE ==> 1 <= s.sp <= 16
    &&& (family == 0xD000 && op_n(op) > 0) ==> s.i + op_n(op) <= 4096
    &&& (misc == 0xE09E || misc == 0xE0A1) ==> s.v[x] < 16
    &&& misc == 0xF033 ==> s.i + 2 < 4096
    &&& (misc == 0xF055 || misc == 0xF065) ==> s.i + x < 4096
}

/// A cycle can run on `s`: it is paused or waiting for a key, or `pc` holds a
/// whole instruction that is executable.
pub open spec fn cycle_defined(s: CpuState) -> bool {
    s.blocked || s.paused || (s.pc + 1 < 4096 && executable(s, opcode_at(s.memory, s.pc)))
}

/// The next cycle executes CXNN, the only instruction that uses a random byte.
pub open spec fn draws_random(s: CpuState) -> bool {
    !s.blocked && !s.paused && opcode_at(s.memory, s.pc) & 0xF000 == 0xC000
}

/// A cycle that does not execute CXNN has the same outcome whatever random
/// byte is supplied.
pub proof fn lemma_step_ignores_random(s: CpuState, r1: u8, r2: u8)
    requires
        !draws_random(s),
    ensures
        step(s, r1) == step(s, r2),
{
}

/// The opcodes the machine implements. Every other opcode is skipped: the
/// program counter moves past it and nothing else changes.
pub open spec fn known_opcode(op: u16) -> bool {
    let family = op & 0xF000;
    let kind = op & 0xF00F;
    let misc = op & 0xF0FF;
    ||| family == 0x1000 || family == 0x2000 || family == 0x3000 || family == 0x4000
    ||| family == 0x6000 || family == 0x7000 || family == 0xA000 || family == 0xB000
    ||| family == 0xC000 || family == 0xD000
    ||| op == 0x00E0 || op == 0x00EE
    ||| kind == 0x5000 || kind == 0x9000
    ||| kind == 0x8000 || kind == 0x8001 || kind == 0x8002 || kind == 0x8003
    ||| kind == 0x8004 || kind == 0x8005 || kind == 0x8006 || kind == 0x8007 || kind == 0x800E
    ||| misc == 0xE09E || misc == 0xE0A1
    ||| misc == 0xF007 || misc == 0xF00A || misc == 0xF015 || misc == 0xF018 || misc == 0xF01E
    ||| misc == 0xF029 || misc == 0xF033 || misc == 0xF055 || misc == 0xF065
}

/// An opcode the machine does not implement only moves the program counter
/// past it.
pub proof fn lemma_unknown_opcode_skipped(s: CpuState, op: u16, rnd: u8)
    requires
        !known_opcode(op),
    ensures
        execute(s, op, rnd) == advanced(s, 2),
{
    reveal(execute_extended);
    reveal(execute_misc);
}

}
