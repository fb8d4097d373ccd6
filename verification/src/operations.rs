use vstd::prelude::*;

use crate::machine::{
    font_glyphs, initial_state, key_pressed, key_released, reset_state, rom_loaded, CpuState,
};
use crate::screen::{lemma_row_major, lit_pixels_before};

verus! {

/// On power-on the font occupies addresses 0..80, the rest of memory, the
/// registers, I, the stack, the timers, the screen and the keys are all
/// zero, execution starts at 0x200, and the machine neither waits nor is
/// paused.
pub proof fn law_power_on()
    ensures
        ({
            let s = initial_state();
            &&& s.memory.len() == 4096
            &&& forall|a: int| 0 <= a < 80 ==> #[trigger] s.memory[a] == font_glyphs()[a]
            &&& forall|a: int| 80 <= a < 4096 ==> #[trigger] s.memory[a] == 0
            &&& s.v.len() == 16 && forall|k: int| 0 <= k < 16 ==> #[trigger] s.v[k] == 0
            &&& s.stack.len() == 16 && forall|k: int| 0 <= k < 16 ==> #[trigger] s.stack[k] == 0
            &&& s.display.len() == 2048 && forall|p: int| 0 <= p < 2048 ==> !#[trigger] s.display[p]
            &&& s.keys.len() == 16 && forall|k: int| 0 <= k < 16 ==> !#[trigger] s.keys[k]
            &&& s.i == 0 && s.pc == 0x200 && s.sp == 0
            &&& s.delay_timer == 0 && s.sound_timer == 0
            &&& !s.screen_update && !s.paused && !s.blocked && s.key_register is None
        }),
{
}

/// A reset clears program memory from 0x200 on, rewrites the font, keeps
/// the bytes between the font and 0x200, clears registers, I, stack, timers,
/// screen and keys, restarts at 0x200, stops waiting and pausing, and asks
/// for a redraw.
pub proof fn law_reset(s: CpuState)
    requires
        s.memory.len() == 4096,
    ensures
        ({
            let t = reset_state(s);
            &&& t.memory.len() == 4096
            &&& forall|a: int| 0 <= a < 80 ==> #[trigger] t.memory[a] == font_glyphs()[a]
            &&& forall|a: int| 80 <= a < 0x200 ==> #[trigger] t.memory[a] == s.memory[a]
            &&& forall|a: int| 0x200 <= a < 4096 ==> #[trigger] t.memory[a] == 0
            &&& t.v.len() == 16 && forall|k: int| 0 <= k < 16 ==> #[trigger] t.v[k] == 0
            &&& t.stack.len() == 16 && forall|k: int| 0 <= k < 16 ==> #[trigger] t.stack[k] == 0
            &&& t.display.len() == 2048 && forall|p: int| 0 <= p < 2048 ==> !#[trigger] t.display[p]
            &&& t.keys.len() == 16 && forall|k: int| 0 <= k < 16 ==> !#[trigger] t.keys[k]
            &&& t.i == 0 && t.pc == 0x200 && t.sp == 0
            &&& t.delay_timer == 0 && t.sound_timer == 0
            &&& t.screen_update && !t.paused && !t.blocked && t.key_register is None
        }),
{
}

/// Loading a program puts its bytes at 0x200 onward, in order, and changes
/// nothing else.
pub proof fn law_load_rom(s: CpuState, rom: Seq<u8>)
    requires
        s.memory.len() == 4096,
        rom.len() <= 4096 - 0x200,
    ensures
        ({
            let t = rom_loaded(s, rom);
            &&& t.memory.len() == 4096
            &&& forall|j: int| 0 <= j < rom.len() ==> #[trigger] t.memory[0x200 + j] == rom[j]
            &&& forall|a: int| 0 <= a < 4096 && !(0x200 <= a < 0x200 + rom.len()) ==> #[trigger] t.memory[a] == s.memory[a]
            &&& t == (CpuState { memory: t.memory, ..s })
        }),
{
}

/// Pressing key `k` marks it down and leaves the other keys as they were. A
/// machine that is not waiting for a key is otherwise unchanged; a waiting
/// one stores `k` in the register it waits on, stops waiting and moves two
/// bytes on.
pub proof fn law_press_key(s: CpuState, k: int, r: usize)
    requires
        s.keys.len() == 16,
        0 <= k < 16,
    ensures
        ({
            let t = key_pressed(s, k);
            &&& t.keys[k]
            &&& forall|j: int| 0 <= j < 16 && j != k ==> #[trigger] t.keys[j] == s.keys[j]
            &&& !s.blocked ==> t == (CpuState { keys: t.keys, ..s })
            &&& (s.blocked && s.key_register == Some(r)) ==> t == (CpuState {
                keys: t.keys,
                v: s.v.update(r as int, k as u8),
                blocked: false,
                key_register: None,
                pc: (s.pc + 2) as u16,
                ..s
            })
        }),
{
}

/// Releasing key `k` marks it up and changes nothing else.
pub proof fn law_release_key(s: CpuState, k: int)
    requires
        s.keys.len() == 16,
        0 <= k < 16,
    ensures
        ({
            let t = key_released(s, k);
            &&& !t.keys[k]
            &&& forall|j: int| 0 <= j < 16 && j != k ==> #[trigger] t.keys[j] == s.keys[j]
            &&& t == (CpuState { keys: t.keys, ..s })
        }),
{
}

/// The list of lit pixels among the first `k`: every entry is a lit pixel of
/// the screen given as (column, row), entries come in increasing row-major
/// order, and every lit pixel among the first `k` is listed.
pub proof fn law_lit_pixels(display: Seq<bool>, k: int)
    requires
        display.len() == 2048,
        0 <= k <= 2048,
    ensures
        ({
            let ps = lit_pixels_before(display, k);
            &&& forall|j: int| 0 <= j < ps.len() ==> {
                &&& (#[trigger] ps[j]).0 < 64
                &&& ps[j].1 < 32
                &&& ps[j].1 * 64 + ps[j].0 < k
                &&& display[ps[j].1 * 64 + ps[j].0]
            }
            &&& forall|i: int, j: int| 0 <= i < j < ps.len() ==>
                (#[trigger] ps[i]).1 * 64 + ps[i].0 < (#[trigger] ps[j]).1 * 64 + ps[j].0
            &&& forall|p: int| 0 <= p < k && #[trigger] display[p] ==>
                exists|j: int| 0 <= j < ps.len() && (#[trigger] ps[j]).1 * 64 + ps[j].0 == p
        }),
    decreases k,
{
    if k > 0 {
        law_lit_pixels(display, k - 1);
        let prev = lit_pixels_before(display, k - 1);
        let ps = lit_pixels_before(display, k);
        let q = k - 1;
        let x = q % 64;
        let y = q / 64;
        lemma_row_major(x, y);
        assert(y * 64 + x == q) by (nonlinear_arith)
            requires 0 <= q < 2048, x == q % 64, y == q / 64;
        if display[q] {
            assert(ps == prev.push((x as usize, y as usize)));
            assert(ps[prev.len() as int].1 * 64 + ps[prev.len() as int].0 == q);
            assert forall|p: int| 0 <= p < k && #[trigger] display[p] implies
                exists|j: int| 0 <= j < ps.len() && (#[trigger] ps[j]).1 * 64 + ps[j].0 == p by {
                if p < q {
                    let j = choose|j: int| 0 <= j < prev.len() && (#[trigger] prev[j]).1 * 64 + prev[j].0 == p;
                    assert(ps[j] == prev[j]);
                } else {
                    assert(ps[prev.len() as int].1 * 64 + ps[prev.len() as int].0 == p);
                }
            }
        } else {
            assert(ps == prev);
        }
    }
}

}
