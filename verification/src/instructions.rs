use vstd::prelude::*;

use crate::laws::well_formed;
use crate::machine::{
    advanced, execute_extended, execute_misc, op_n, op_nn, op_nnn, op_x, op_y, sprite_drawn, step,
    CpuState,
};
use crate::screen::{
    col_of, lemma_pixel_determined, lemma_pixel_index, row_of, sprite_collides, sprite_covers,
};

verus! {

/// The next cycle runs the instruction whose two bytes are `hi` and `lo` on a
/// well-formed machine that is neither paused nor waiting for a key.
pub open spec fn runs(s: CpuState, hi: int, lo: int) -> bool {
    &&& well_formed(s)
    &&& !s.blocked
    &&& !s.paused
    &&& s.pc + 1 < 4096
    &&& s.memory[s.pc as int] == hi
    &&& s.memory[s.pc + 1] == lo
}

/// How the operands of an instruction come from its two bytes: the high
/// nibble of the first byte names the instruction, its low nibble is X, the
/// second byte is NN, its high nibble Y and its low nibble N, and NNN is the
/// low twelve bits.
proof fn lemma_decode(hi: u8, lo: u8)
    ensures
        ({
            let op = ((hi as u16) << 8u16) | (lo as u16);
            &&& op_x(op) == hi % 16
            &&& op_y(op) == lo / 16
            &&& op_n(op) == lo % 16
            &&& op_nn(op) == lo
            &&& op_nnn(op) == (hi % 16) * 256 + lo
            &&& op & 0xF000 == (hi / 16) * 4096
            &&& op & 0xF00F == (hi / 16) * 4096 + lo % 16
            &&& op & 0xF0FF == (hi / 16) * 4096 + lo
            &&& op == hi * 256 + lo
        }),
{
    let op = ((hi as u16) << 8u16) | (lo as u16);
    assert(((op & 0x0F00) >> 8u16) == (hi % 16) as u16
        && ((op & 0x00F0) >> 4u16) == (lo / 16) as u16
        && (op & 0x000F) == (lo % 16) as u16
        && (op & 0x00FF) == lo as u16
        && (op & 0x0FFF) == (hi % 16) as u16 * 256 + lo as u16
        && (op & 0xF000) == (hi / 16) as u16 * 4096
        && (op & 0xF00F) == (hi / 16) as u16 * 4096 + (lo % 16) as u16
        && (op & 0xF0FF) == (hi / 16) as u16 * 4096 + lo as u16
        && op == hi as u16 * 256 + lo as u16) by (bit_vector)
        requires op == ((hi as u16) << 8u16) | (lo as u16);
}

/// 3XNN skips the next instruction exactly when VX equals the byte NN.
pub proof fn law_skip_if_equal_immediate(s: CpuState, rnd: u8, x: u8, nn: u8)
    requires
        x < 16,
        runs(s, 0x30 + x, nn as int),
    ensures
        step(s, rnd) == (CpuState { pc: (s.pc + if s.v[x as int] == nn { 4int } else { 2 }) as u16, ..s }),
{
    lemma_decode(s.memory[s.pc as int], s.memory[s.pc + 1]);
}

/// 4XNN skips the next instruction exactly when VX differs from the byte NN.
pub proof fn law_skip_if_not_equal_immediate(s: CpuState, rnd: u8, x: u8, nn: u8)
    requires
        x < 16,
        runs(s, 0x40 + x, nn as int),
    ensures
        step(s, rnd) == (CpuState { pc: (s.pc + if s.v[x as int] != nn { 4int } else { 2 }) as u16, ..s }),
{
    lemma_decode(s.memory[s.pc as int], s.memory[s.pc + 1]);
}

/// 8XYE doubles VX modulo 256 and puts the bit shifted out (VX's top bit) in
/// VF; for X = F only that bit, doubled, remains.
pub proof fn law_shift_left(s: CpuState, rnd: u8, x: u8, y: u8)
    requires
        x < 16,
        y < 16,
        runs(s, 0x80 + x, y * 16 + 0xE),
    ensures
        ({
            let vx = s.v[x as int];
            let t = step(s, rnd);
            &&& x != 15 ==> t == (CpuState { v: s.v.update(x as int, ((2 * vx) % 256) as u8).update(15, vx / 128), pc: (s.pc + 2) as u16, ..s })
            &&& x == 15 ==> t == (CpuState { v: s.v.update(15, (2 * (vx / 128)) as u8), pc: (s.pc + 2) as u16, ..s })
        }),
{
    lemma_decode(s.memory[s.pc as int], s.memory[s.pc + 1]);
    reveal(execute_extended);
    let vx = s.v[x as int];
    assert((vx & 0x80) >> 7u8 == vx / 128 && ((vx << 1u8) as u8) == ((2 * vx) % 256) as u8) by (bit_vector);
    let b = vx / 128;
    assert(((b << 1u8) as u8) == 2 * b) by (bit_vector) requires b <= 1;
}

/// EXA1 skips the next instruction exactly when the key numbered by the value
/// of VX is up.
pub proof fn law_skip_if_key_up(s: CpuState, rnd: u8, x: u8)
    requires
        x < 16,
        runs(s, 0xE0 + x, 0xA1),
        s.v[x as int] < 16,
    ensures
        step(s, rnd) == (CpuState { pc: (s.pc + if !s.keys[s.v[x as int] as int] { 4int } else { 2 }) as u16, ..s }),
{
    lemma_decode(s.memory[s.pc as int], s.memory[s.pc + 1]);
    reveal(execute_extended);
    reveal(execute_misc);
}

/// FX07 copies the delay timer into VX.
pub proof fn law_read_delay_timer(s: CpuState, rnd: u8, x: u8)
    requires
        x < 16,
        runs(s, 0xF0 + x, 0x07),
    ensures
        step(s, rnd) == (CpuState { v: s.v.update(x as int, s.delay_timer), pc: (s.pc + 2) as u16, ..s }),
{
    lemma_decode(s.memory[s.pc as int], s.memory[s.pc + 1]);
    reveal(execute_extended);
    reveal(execute_misc);
}

/// Bit `b` of a sprite row, counted from the left (most significant) end.
pub open spec fn row_bit(row: u8, b: int) -> bool {
    (row >> ((7 - b) as usize)) & 1u8 == 1u8
}

/// The screen pixel that cell (`r`, `b`) of a sprite drawn at column `vx`
/// and row `vy` lands on: rows wrap at 32 and columns at 64.
pub open spec fn cell_pixel(vx: int, vy: int, r: int, b: int) -> int {
    ((vy + r) % 32) * 64 + (vx + b) % 64
}

proof fn lemma_row_bit(m: u8, b: usize)
    by (bit_vector)
    requires
        b < 8,
    ensures
        ((m & (0x80u8 >> b)) != 0) == (((m >> ((7 - b) as usize)) & 1u8) == 1u8),
{
}

/// DXYN draws the N rows of the sprite at I with their top-left corner at
/// (VX, VY): the pixel of each set sprite bit is flipped, every other pixel is
/// kept, and VF is 1 exactly when some set sprite bit, in any row, lands on a
/// pixel that was lit, else 0.
pub proof fn law_draw_sprite(s: CpuState, rnd: u8, x: u8, y: u8, n: u8)
    requires
        x < 16,
        y < 16,
        n < 16,
        runs(s, 0xD0 + x, y * 16 + n),
        n > 0 ==> s.i + n <= 4096,
    ensures
        ({
            let t = step(s, rnd);
            let vx = s.v[x as int] as int;
            let vy = s.v[y as int] as int;
            &&& t.v[15] == if (exists|r: int, b: int| 0 <= r < n && 0 <= b < 8
                && row_bit(s.memory[s.i + r], b) && #[trigger] s.display[cell_pixel(vx, vy, r, b)]) { 1u8 } else { 0u8 }
            &&& forall|r: int, b: int| 0 <= r < n && 0 <= b < 8 ==>
                t.display[#[trigger] cell_pixel(vx, vy, r, b)] == (s.display[cell_pixel(vx, vy, r, b)] != row_bit(s.memory[s.i + r], b))
            &&& forall|p: int| 0 <= p < 2048 && (forall|r: int, b: int| 0 <= r < n && 0 <= b < 8 ==> p != #[trigger] cell_pixel(vx, vy, r, b))
                ==> #[trigger] t.display[p] == s.display[p]
            &&& t.display.len() == 2048
            &&& t == (CpuState { display: t.display, v: s.v.update(15, t.v[15]), screen_update: true, pc: (s.pc + 2) as u16, ..s })
        }),
{
    lemma_decode(s.memory[s.pc as int], s.memory[s.pc + 1]);
    reveal(sprite_drawn);
    let t = step(s, rnd);
    let xp = s.v[x as int] as int;
    let yp = s.v[y as int] as int;
    let mem = s.memory;
    let addr = s.i;
    assert(t == advanced(sprite_drawn(s, x as int, y as int, n), 2));

    assert forall|r: int, b: int| 0 <= r < n && 0 <= b < 8 implies
        #[trigger] sprite_covers(mem, addr, xp, yp, n, cell_pixel(xp, yp, r, b)) == row_bit(mem[addr + r], b)
        && 0 <= cell_pixel(xp, yp, r, b) < 2048 by {
        lemma_pixel_index(xp, yp, r, b);
        lemma_row_bit(mem[addr + r], b as usize);
    }
    assert forall|p: int| 0 <= p < 2048 && #[trigger] sprite_covers(mem, addr, xp, yp, n, p) implies
        p == cell_pixel(xp, yp, row_of(yp, p), col_of(xp, p))
        && 0 <= row_of(yp, p) < n && 0 <= col_of(xp, p) < 8
        && row_bit(mem[addr + row_of(yp, p)], col_of(xp, p)) by {
        lemma_pixel_determined(xp, yp, p);
        lemma_row_bit(mem[addr + row_of(yp, p)], col_of(xp, p) as usize);
    }

    let hit = exists|r: int, b: int| 0 <= r < n && 0 <= b < 8
        && row_bit(mem[addr + r], b) && #[trigger] s.display[cell_pixel(xp, yp, r, b)];
    if sprite_collides(s.display, mem, addr, xp, yp, n) {
        let p = choose|p: int| 0 <= p < 2048 && #[trigger] sprite_covers(mem, addr, xp, yp, n, p) && s.display[p];
        let r = row_of(yp, p);
        let b = col_of(xp, p);
        assert(s.display[cell_pixel(xp, yp, r, b)]);
        assert(hit);
    }
    if hit {
        let (r, b) = choose|r: int, b: int| 0 <= r < n && 0 <= b < 8
            && row_bit(mem[addr + r], b) && #[trigger] s.display[cell_pixel(xp, yp, r, b)];
        let p = cell_pixel(xp, yp, r, b);
        assert(sprite_covers(mem, addr, xp, yp, n, p));
        assert(sprite_collides(s.display, mem, addr, xp, yp, n));
    }
}

/// 00E0 turns every pixel off and asks for a redraw.
pub proof fn law_clear_screen(s: CpuState, rnd: u8)
    requires
        runs(s, 0x00, 0xE0),
    ensures
        step(s, rnd).display.len() == 2048,
        forall|p: int| 0 <= p < 2048 ==> !#[trigger] step(s, rnd).display[p],
        step(s, rnd) == (CpuState { display: step(s, rnd).display, screen_update: true, pc: (s.pc + 2) as u16, ..s }),
{
    lemma_decode(s.memory[s.pc as int], s.memory[s.pc + 1]);
    reveal(execute_extended);
}

/// 00EE pops the return address off the stack and jumps to it.
pub proof fn law_return(s: CpuState, rnd: u8)
    requires
        runs(s, 0x00, 0xEE),
        1 <= s.sp <= 16,
    ensures
        step(s, rnd) == (CpuState { sp: (s.sp - 1) as usize, pc: s.stack[s.sp - 1], ..s }),
{
    lemma_decode(s.memory[s.pc as int], s.memory[s.pc + 1]);
    reveal(execute_extended);
}

/// 1NNN jumps to address NNN.
pub proof fn law_jump(s: CpuState, rnd: u8, a: u8, lo: u8)
    requires
        a < 16,
        runs(s, 0x10 + a, lo as int),
    ensures
        step(s, rnd) == (CpuState { pc: (a * 256 + lo) as u16, ..s }),
{
    lemma_decode(s.memory[s.pc as int], s.memory[s.pc + 1]);
}

/// 2NNN pushes the address of the next instruction and jumps to NNN.
pub proof fn law_call(s: CpuState, rnd: u8, a: u8, lo: u8)
    requires
        a < 16,
        runs(s, 0x20 + a, lo as int),
        s.sp < 16,
    ensures
        step(s, rnd) == (CpuState { stack: s.stack.update(s.sp as int, (s.pc + 2) as u16), sp: (s.sp + 1) as usize, pc: (a * 256 + lo) as u16, ..s }),
{
    lemma_decode(s.memory[s.pc as int], s.memory[s.pc + 1]);
}

/// 5XY0 skips the next instruction exactly when VX equals VY.
pub proof fn law_skip_if_registers_equal(s: CpuState, rnd: u8, x: u8, y: u8)
    requires
        x < 16,
        y < 16,
        runs(s, 0x50 + x, y * 16),
    ensures
        step(s, rnd) == (CpuState { pc: (s.pc + if s.v[x as int] == s.v[y as int] { 4int } else { 2 }) as u16, ..s }),
{
    lemma_decode(s.memory[s.pc as int], s.memory[s.pc + 1]);
    reveal(execute_extended);
}

/// 9XY0 skips the next instruction exactly when VX differs from VY.
pub proof fn law_skip_if_registers_differ(s: CpuState, rnd: u8, x: u8, y: u8)
    requires
        x < 16,
        y < 16,
        runs(s, 0x90 + x, y * 16),
    ensures
        step(s, rnd) == (CpuState { pc: (s.pc + if s.v[x as int] != s.v[y as int] { 4int } else { 2 }) as u16, ..s }),
{
    lemma_decode(s.memory[s.pc as int], s.memory[s.pc + 1]);
    reveal(execute_extended);
}

/// 6XNN puts the byte NN in VX.
pub proof fn law_load_immediate(s: CpuState, rnd: u8, x: u8, nn: u8)
    requires
        x < 16,
        runs(s, 0x60 + x, nn as int),
    ensures
        step(s, rnd) == (CpuState { v: s.v.update(x as int, nn), pc: (s.pc + 2) as u16, ..s }),
{
    lemma_decode(s.memory[s.pc as int], s.memory[s.pc + 1]);
}

/// 7XNN adds the byte NN to VX modulo 256 and leaves VF alone.
pub proof fn law_add_immediate(s: CpuState, rnd: u8, x: u8, nn: u8)
    requires
        x < 16,
        runs(s, 0x70 + x, nn as int),
    ensures
        step(s, rnd) == (CpuState { v: s.v.update(x as int, ((s.v[x as int] + nn) % 256) as u8), pc: (s.pc + 2) as u16, ..s }),
{
    lemma_decode(s.memory[s.pc as int], s.memory[s.pc + 1]);
}

/// 8XY0 copies VY into VX.
pub proof fn law_copy_register(s: CpuState, rnd: u8, x: u8, y: u8)
    requires
        x < 16,
        y < 16,
        runs(s, 0x80 + x, y * 16 + 0),
    ensures
        step(s, rnd) == (CpuState { v: s.v.update(x as int, s.v[y as int]), pc: (s.pc + 2) as u16, ..s }),
{
    lemma_decode(s.memory[s.pc as int], s.memory[s.pc + 1]);
    reveal(execute_extended);
}

/// 8XY1 puts the bitwise or of VX and VY in VX.
pub proof fn law_or_registers(s: CpuState, rnd: u8, x: u8, y: u8)
    requires
        x < 16,
        y < 16,
        runs(s, 0x80 + x, y * 16 + 1),
    ensures
        step(s, rnd) == (CpuState { v: s.v.update(x as int, s.v[x as int] | s.v[y as int]), pc: (s.pc + 2) as u16, ..s }),
{
    lemma_decode(s.memory[s.pc as int], s.memory[s.pc + 1]);
    reveal(execute_extended);
}

/// 8XY2 puts the bitwise and of VX and VY in VX.
pub proof fn law_and_registers(s: CpuState, rnd: u8, x: u8, y: u8)
    requires
        x < 16,
        y < 16,
        runs(s, 0x80 + x, y * 16 + 2),
    ensures
        step(s, rnd) == (CpuState { v: s.v.update(x as int, s.v[x as int] & s.v[y as int]), pc: (s.pc + 2) as u16, ..s }),
{
    lemma_decode(s.memory[s.pc as int], s.memory[s.pc + 1]);
    reveal(execute_extended);
}

/// 8XY3 puts the bitwise exclusive or of VX and VY in VX.
pub proof fn law_xor_registers(s: CpuState, rnd: u8, x: u8, y: u8)
    requires
        x < 16,
        y < 16,
        runs(s, 0x80 + x, y * 16 + 3),
    ensures
        step(s, rnd) == (CpuState { v: s.v.update(x as int, s.v[x as int] ^ s.v[y as int]), pc: (s.pc + 2) as u16, ..s }),
{
    lemma_decode(s.memory[s.pc as int], s.memory[s.pc + 1]);
    reveal(execute_extended);
}

/// 8XY4 adds VY to VX: VX gets the sum modulo 256 and then VF the carry, the
/// sum divided by 256.
pub proof fn law_add_registers(s: CpuState, rnd: u8, x: u8, y: u8)
    requires
        x < 16,
        y < 16,
        runs(s, 0x80 + x, y * 16 + 4),
    ensures
        step(s, rnd) == (CpuState { v: s.v.update(x as int, ((s.v[x as int] + s.v[y as int]) % 256) as u8).update(15, ((s.v[x as int] + s.v[y as int]) / 256) as u8), pc: (s.pc + 2) as u16, ..s }),
{
    lemma_decode(s.memory[s.pc as int], s.memory[s.pc + 1]);
    reveal(execute_extended);
}

/// 8XY5 subtracts VY from VX: VX gets the difference modulo 256 and then VF
/// is 1 when there was no borrow (VX >= VY), else 0.
pub proof fn law_subtract_registers(s: CpuState, rnd: u8, x: u8, y: u8)
    requires
        x < 16,
        y < 16,
        runs(s, 0x80 + x, y * 16 + 5),
    ensures
        step(s, rnd) == (CpuState { v: s.v.update(x as int, ((s.v[x as int] + 256 - s.v[y as int]) % 256) as u8).update(15, if s.v[x as int] >= s.v[y as int] { 1u8 } else { 0u8 }), pc: (s.pc + 2) as u16, ..s }),
{
    lemma_decode(s.memory[s.pc as int], s.memory[s.pc + 1]);
    reveal(execute_extended);
}

/// 8XY7 puts VY minus VX in VX modulo 256, and then in VF 1 when there was no
/// borrow (VY >= VX), else 0.
pub proof fn law_subtract_reversed(s: CpuState, rnd: u8, x: u8, y: u8)
    requires
        x < 16,
        y < 16,
        runs(s, 0x80 + x, y * 16 + 7),
    ensures
        step(s, rnd) == (CpuState { v: s.v.update(x as int, ((s.v[y as int] + 256 - s.v[x as int]) % 256) as u8).update(15, if s.v[y as int] >= s.v[x as int] { 1u8 } else { 0u8 }), pc: (s.pc + 2) as u16, ..s }),
{
    lemma_decode(s.memory[s.pc as int], s.memory[s.pc + 1]);
    reveal(execute_extended);
}

/// 8XY6 halves VX (rounding down) and puts the bit shifted out (VX's low bit)
/// in VF; for X = F only the halved bit, 0, remains.
pub proof fn law_shift_right(s: CpuState, rnd: u8, x: u8, y: u8)
    requires
        x < 16,
        y < 16,
        runs(s, 0x80 + x, y * 16 + 6),
    ensures
        x != 15 ==> step(s, rnd) == (CpuState { v: s.v.update(x as int, s.v[x as int] / 2).update(15, s.v[x as int] % 2), pc: (s.pc + 2) as u16, ..s }),
        x == 15 ==> step(s, rnd) == (CpuState { v: s.v.update(15, 0), pc: (s.pc + 2) as u16, ..s }),
{
    lemma_decode(s.memory[s.pc as int], s.memory[s.pc + 1]);
    reveal(execute_extended);
    let vx = s.v[x as int];
    assert(vx & 1u8 == vx % 2 && vx >> 1u8 == vx / 2 && (vx & 1u8) >> 1u8 == 0) by (bit_vector);
}

/// ANNN puts the address NNN in I.
pub proof fn law_set_index(s: CpuState, rnd: u8, a: u8, lo: u8)
    requires
        a < 16,
        runs(s, 0xA0 + a, lo as int),
    ensures
        step(s, rnd) == (CpuState { i: (a * 256 + lo) as u16, pc: (s.pc + 2) as u16, ..s }),
{
    lemma_decode(s.memory[s.pc as int], s.memory[s.pc + 1]);
}

/// BNNN jumps to NNN plus V0.
pub proof fn law_jump_with_offset(s: CpuState, rnd: u8, a: u8, lo: u8)
    requires
        a < 16,
        runs(s, 0xB0 + a, lo as int),
    ensures
        step(s, rnd) == (CpuState { pc: (a * 256 + lo + s.v[0]) as u16, ..s }),
{
    lemma_decode(s.memory[s.pc as int], s.memory[s.pc + 1]);
}

/// CXNN puts in VX the random byte with only the bits of NN kept.
pub proof fn law_random_masked(s: CpuState, rnd: u8, x: u8, nn: u8)
    requires
        x < 16,
        runs(s, 0xC0 + x, nn as int),
    ensures
        step(s, rnd) == (CpuState { v: s.v.update(x as int, rnd & nn), pc: (s.pc + 2) as u16, ..s }),
{
    lemma_decode(s.memory[s.pc as int], s.memory[s.pc + 1]);
}

/// EX9E skips the next instruction exactly when the key numbered by the value
/// of VX is down.
pub proof fn law_skip_if_key_down(s: CpuState, rnd: u8, x: u8)
    requires
        x < 16,
        runs(s, 0xE0 + x, 0x9E),
        s.v[x as int] < 16,
    ensures
        step(s, rnd) == (CpuState { pc: (s.pc + if s.keys[s.v[x as int] as int] { 4int } else { 2 }) as u16, ..s }),
{
    lemma_decode(s.memory[s.pc as int], s.memory[s.pc + 1]);
    reveal(execute_extended);
    reveal(execute_misc);
}

/// FX0A makes the machine wait for a key to store in VX; the program counter
/// stays on the instruction until the key comes.
pub proof fn law_wait_for_key(s: CpuState, rnd: u8, x: u8)
    requires
        x < 16,
        runs(s, 0xF0 + x, 0x0A),
    ensures
        step(s, rnd) == (CpuState { blocked: true, key_register: Some(x as usize), ..s }),
{
    lemma_decode(s.memory[s.pc as int], s.memory[s.pc + 1]);
    reveal(execute_extended);
    reveal(execute_misc);
}

/// FX15 sets the delay timer to VX.
pub proof fn law_set_delay_timer(s: CpuState, rnd: u8, x: u8)
    requires
        x < 16,
        runs(s, 0xF0 + x, 0x15),
    ensures
        step(s, rnd) == (CpuState { delay_timer: s.v[x as int], pc: (s.pc + 2) as u16, ..s }),
{
    lemma_decode(s.memory[s.pc as int], s.memory[s.pc + 1]);
    reveal(execute_extended);
    reveal(execute_misc);
}

/// FX18 sets the sound timer to VX.
pub proof fn law_set_sound_timer(s: CpuState, rnd: u8, x: u8)
    requires
        x < 16,
        runs(s, 0xF0 + x, 0x18),
    ensures
        step(s, rnd) == (CpuState { sound_timer: s.v[x as int], pc: (s.pc + 2) as u16, ..s }),
{
    lemma_decode(s.memory[s.pc as int], s.memory[s.pc + 1]);
    reveal(execute_extended);
    reveal(execute_misc);
}

/// FX1E adds VX to I modulo 65536 and leaves VF alone.
pub proof fn law_add_to_index(s: CpuState, rnd: u8, x: u8)
    requires
        x < 16,
        runs(s, 0xF0 + x, 0x1E),
    ensures
        step(s, rnd) == (CpuState { i: ((s.i + s.v[x as int]) % 65536) as u16, pc: (s.pc + 2) as u16, ..s }),
{
    lemma_decode(s.memory[s.pc as int], s.memory[s.pc + 1]);
    reveal(execute_extended);
    reveal(execute_misc);
}

/// FX29 points I at the font glyph of digit VX: five bytes per digit from
/// address 0.
pub proof fn law_font_character(s: CpuState, rnd: u8, x: u8)
    requires
        x < 16,
        runs(s, 0xF0 + x, 0x29),
    ensures
        step(s, rnd) == (CpuState { i: (5 * s.v[x as int]) as u16, pc: (s.pc + 2) as u16, ..s }),
{
    lemma_decode(s.memory[s.pc as int], s.memory[s.pc + 1]);
    reveal(execute_extended);
    reveal(execute_misc);
}

/// FX33 writes the decimal digits of VX at I, I+1 and I+2, most significant
/// first, and changes no other memory.
pub proof fn law_decimal_digits(s: CpuState, rnd: u8, x: u8)
    requires
        x < 16,
        runs(s, 0xF0 + x, 0x33),
        s.i + 2 < 4096,
    ensures
        step(s, rnd).memory[s.i as int] * 100 + step(s, rnd).memory[s.i + 1] * 10 + step(s, rnd).memory[s.i + 2] == s.v[x as int],
        step(s, rnd).memory[s.i + 1] < 10 && step(s, rnd).memory[s.i + 2] < 10,
        step(s, rnd).memory.len() == 4096,
        forall|a: int| 0 <= a < 4096 && !(s.i <= a <= s.i + 2) ==> #[trigger] step(s, rnd).memory[a] == s.memory[a],
        step(s, rnd) == (CpuState { memory: step(s, rnd).memory, pc: (s.pc + 2) as u16, ..s }),
{
    lemma_decode(s.memory[s.pc as int], s.memory[s.pc + 1]);
    reveal(execute_extended);
    reveal(execute_misc);
    let vx = s.v[x as int];
    assert((vx / 100) * 100 + ((vx / 10) % 10) * 10 + vx % 10 == vx) by (nonlinear_arith)
        requires 0 <= vx < 256;
}

/// FX55 stores V0..VX in memory from I on and changes no other memory.
pub proof fn law_store_registers(s: CpuState, rnd: u8, x: u8)
    requires
        x < 16,
        runs(s, 0xF0 + x, 0x55),
        s.i + x < 4096,
    ensures
        step(s, rnd).memory.len() == 4096,
        forall|a: int| 0 <= a < 4096 ==> #[trigger] step(s, rnd).memory[a] == if s.i <= a <= s.i + x { s.v[a - s.i] } else { s.memory[a] },
        step(s, rnd) == (CpuState { memory: step(s, rnd).memory, pc: (s.pc + 2) as u16, ..s }),
{
    lemma_decode(s.memory[s.pc as int], s.memory[s.pc + 1]);
    reveal(execute_extended);
    reveal(execute_misc);
}

/// FX65 loads V0..VX from memory from I on and keeps the other registers.
pub proof fn law_load_registers(s: CpuState, rnd: u8, x: u8)
    requires
        x < 16,
        runs(s, 0xF0 + x, 0x65),
        s.i + x < 4096,
    ensures
        step(s, rnd).v.len() == 16,
        forall|k: int| 0 <= k < 16 ==> #[trigger] step(s, rnd).v[k] == if k <= x { s.memory[s.i + k] } else { s.v[k] },
        step(s, rnd) == (CpuState { v: step(s, rnd).v, pc: (s.pc + 2) as u16, ..s }),
{
    lemma_decode(s.memory[s.pc as int], s.memory[s.pc + 1]);
    reveal(execute_extended);
    reveal(execute_misc);
}

}
