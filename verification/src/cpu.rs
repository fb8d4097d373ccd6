use vstd::prelude::*;

use crate::machine::{
    cycle_defined, draws_random, executable, execute_extended, execute_misc, font_glyphs,
    initial_state, key_pressed, key_released, known_opcode, lemma_operand_bounds,
    lemma_step_ignores_random, op_nn, op_x, op_y, opcode_at, reset_state, rom_loaded,
    sprite_drawn, step, timers_ticked, with_font, CpuState,
};
use crate::random::random_byte;
use crate::screen::{
    col_of, drawn_display, lemma_pixel_determined, lemma_pixel_index, lemma_row_major,
    lit_pixels_before, pixel_index, row_of, sprite_covers,
};
use crate::{DISPLAY_HEIGHT, DISPLAY_SIZE, DISPLAY_WIDTH, MEMORY_SIZE, PROGRAM_START};

verus! {

/// A CHIP-8 machine: 4 KiB of memory, sixteen 8-bit registers V0..VF, the
/// index register I, the program counter, a sixteen-entry call stack, two
/// timers, a 64x32 monochrome screen and a sixteen-key keypad.
pub struct Cpu {
    pub memory: [u8; MEMORY_SIZE],
    pub v: [u8; 16],
    pub i: u16,
    pub pc: u16,
    pub stack: [u16; 16],
    pub sp: usize,
    pub delay_timer: u8,
    pub sound_timer: u8,
    pub display: [bool; DISPLAY_SIZE],
    pub keys: [bool; 16],
    pub screen_update: bool,
    pub paused: bool,
    pub blocked: bool,
    pub key_register: Option<usize>,
}

impl View for Cpu {
    type V = CpuState;

    open spec fn view(&self) -> CpuState {
        CpuState {
            memory: self.memory@,
            v: self.v@,
            i: self.i,
            pc: self.pc,
            stack: self.stack@,
            sp: self.sp,
            delay_timer: self.delay_timer,
            sound_timer: self.sound_timer,
            display: self.display@,
            keys: self.keys@,
            screen_update: self.screen_update,
            paused: self.paused,
            blocked: self.blocked,
            key_register: self.key_register,
        }
    }
}

impl Cpu {
    /// A powered-on machine: font loaded, everything else cleared, execution
    /// starting at 0x200.
    pub fn new() -> (cpu: Self)
        ensures
            cpu@ == initial_state(),
    {
        let mut cpu = Cpu {
            memory: [0u8; MEMORY_SIZE],
            v: [0u8; 16],
            i: 0,
            pc: PROGRAM_START,
            stack: [0u16; 16],
            sp: 0,
            delay_timer: 0,
            sound_timer: 0,
            display: [false; DISPLAY_SIZE],
            keys: [false; 16],
            screen_update: false,
            paused: false,
            blocked: false,
            key_register: None,
        };
        cpu.load_fontset();
        proof {
            assert(cpu.memory@ =~= initial_state().memory);
        }
        cpu
    }

    /// Writes the font to the first 80 bytes of memory.
    fn load_fontset(&mut self)
        ensures
            final(self)@ == (CpuState { memory: with_font(old(self)@.memory), ..old(self)@ }),
    {
        let fontset: [u8; 80] = [
            0xF0, 0x90, 0x90, 0x90, 0xF0, // 0
            0x20, 0x60, 0x20, 0x20, 0x70, // 1
            0xF0, 0x10, 0xF0, 0x80, 0xF0, // 2
            0xF0, 0x10, 0xF0, 0x10, 0xF0, // 3
            0x90, 0x90, 0xF0, 0x10, 0x10, // 4
            0xF0, 0x80, 0xF0, 0x10, 0xF0, // 5
            0xF0, 0x80, 0xF0, 0x90, 0xF0, // 6
            0xF0, 0x10, 0x20, 0x40, 0x40, // 7
            0xF0, 0x90, 0xF0, 0x90, 0xF0, // 8
            0xF0, 0x90, 0xF0, 0x10, 0xF0, // 9
            0xF0, 0x90, 0xF0, 0x90, 0x90, // A
            0xE0, 0x90, 0xE0, 0x90, 0xE0, // B
            0xF0, 0x80, 0x80, 0x80, 0xF0, // C
            0xE0, 0x90, 0x90, 0x90, 0xE0, // D
            0xF0, 0x80, 0xF0, 0x80, 0xF0, // E
            0xF0, 0x80, 0xF0, 0x80, 0x80, // F
        ];
        assert(fontset@ =~= font_glyphs());
        let ghost s0 = self@;
        let mut k: usize = 0;
        while k < 80
            invariant
                0 <= k <= 80,
                fontset@ == font_glyphs(),
                self@ == (CpuState { memory: self@.memory, ..s0 }),
                self@.memory.len() == 4096,
                forall|a: int| 0 <= a < k ==> self@.memory[a] == font_glyphs()[a],
                forall|a: int| k <= a < 4096 ==> self@.memory[a] == s0.memory[a],
            decreases 80 - k,
        {
            self.memory[k] = fontset[k];
            k += 1;
        }
        assert(self@.memory =~= with_font(s0.memory));
    }

    /// DXYN: XORs the `height`-row sprite at I onto the screen at (V`x_reg`,
    /// V`y_reg`), wrapping at the edges; VF becomes 1 when a lit pixel was
    /// turned off, else 0.
    fn draw_sprite(&mut self, x_reg: usize, y_reg: usize, height: u8)
        requires
            x_reg < 16,
            y_reg < 16,
            height < 16,
            height > 0 ==> old(self).i + height <= 4096,
        ensures
            final(self)@ == sprite_drawn(old(self)@, x_reg as int, y_reg as int, height),
            final(self).pc == old(self).pc,
    {
        let ghost s0 = self@;
        reveal(sprite_drawn);
        self.screen_update = true;

        let x_pos = self.v[x_reg] as usize;
        let y_pos = self.v[y_reg] as usize;

        self.v[0xF] = 0;

        let ghost xp = x_pos as int;
        let ghost yp = y_pos as int;
        let ghost mem = s0.memory;
        let ghost addr = s0.i;
        let ghost d0 = s0.display;

        for row in 0..height as usize
            invariant
                x_reg < 16,
                y_reg < 16,
                s0.v.len() == 16,
                mem.len() == 4096,
                d0.len() == 2048,
                x_pos == s0.v[x_reg as int],
                y_pos == s0.v[y_reg as int],
                xp == x_pos as int,
                yp == y_pos as int,
                height < 16,
                self.memory@ == mem,
                self.i == addr,
                height > 0 ==> s0.i + height <= 4096,
                self@ == (CpuState { display: self@.display, v: self@.v, screen_update: true, ..s0 }),
                self@.display.len() == 2048,
                forall|p: int| 0 <= p < 2048 ==> #[trigger] self@.display[p] == (d0[p] != (
                    sprite_covers(mem, addr, xp, yp, height, p) && row_of(yp, p) < row)),
                self@.v == s0.v.update(15, if (exists|p: int| 0 <= p < 2048 && #[trigger] sprite_covers(mem, addr, xp, yp, height, p)
                    && row_of(yp, p) < row && d0[p]) { 1u8 } else { 0u8 }),
        {
            let sprite_byte = self.memory[self.i as usize + row];
            assert(sprite_byte == mem[addr + row]);

            for bit in 0..8usize
                invariant
                    x_reg < 16,
                    y_reg < 16,
                    s0.v.len() == 16,
                    mem.len() == 4096,
                    d0.len() == 2048,
                    x_pos == s0.v[x_reg as int],
                    y_pos == s0.v[y_reg as int],
                    xp == x_pos as int,
                    yp == y_pos as int,
                    row < height,
                    height < 16,
                    sprite_byte == mem[addr + row],
                    self@ == (CpuState { display: self@.display, v: self@.v, screen_update: true, ..s0 }),
                    self@.display.len() == 2048,
                    forall|p: int| 0 <= p < 2048 ==> #[trigger] self@.display[p] == (d0[p] != (
                        sprite_covers(mem, addr, xp, yp, height, p) && (row_of(yp, p) < row
                            || (row_of(yp, p) == row && col_of(xp, p) < bit)))),
                    self@.v == s0.v.update(15, if (exists|p: int| 0 <= p < 2048 && #[trigger] sprite_covers(mem, addr, xp, yp, height, p)
                        && (row_of(yp, p) < row || (row_of(yp, p) == row && col_of(xp, p) < bit)) && d0[p]) { 1u8 } else { 0u8 }),
            {
                let pixel_on = (sprite_byte & (0x80 >> bit)) != 0;
                let ghost target = pixel_index(xp, yp, row as int, bit as int);
                proof {
                    lemma_pixel_index(xp, yp, row as int, bit as int);
                    assert forall|p: int| 0 <= p < 2048 && p != target implies
                        !(row_of(yp, p) == row && col_of(xp, p) == bit) by {
                        lemma_pixel_determined(xp, yp, p);
                    }
                    assert(sprite_covers(mem, addr, xp, yp, height, target) == pixel_on);
                }

                if pixel_on {
                    let x = (x_pos + bit) % DISPLAY_WIDTH;
                    let y = (y_pos + row) % DISPLAY_HEIGHT;
                    let index = y * DISPLAY_WIDTH + x;
                    assert(index == target);

                    if self.display[index] {
                        self.v[0xF] = 1;
                    }

                    self.display[index] = !self.display[index];
                }
            }
        }
        proof {
            assert(self@.display =~= drawn_display(d0, mem, addr, xp, yp, height));
        }
    }


    /// The two bytes at the program counter, most significant first.
    fn fetch_opcode(&self) -> (opcode: u16)
        requires
            self.pc + 1 < 4096,
        ensures
            opcode == opcode_at(self@.memory, self.pc),
    {
        let high = self.memory[self.pc as usize] as u16;
        let low = self.memory[(self.pc + 1) as usize] as u16;

        (high << 8) | low
    }

    /// One machine cycle with `random_byte` as the value that CXNN masks: a
    /// machine that is paused or waiting for a key does nothing; otherwise the
    /// instruction at the program counter is executed.
    pub fn emu_cycle_with(&mut self, random_byte: u8)
        requires
            cycle_defined(old(self)@),
        ensures
            final(self)@ == step(old(self)@, random_byte),
    {
        if self.blocked || self.paused {
            return;
        }

        let opcode = self.fetch_opcode();
        proof {
            lemma_operand_bounds(opcode);
        }

        let x = ((opcode & 0x0F00) >> 8) as usize;
        let y = ((opcode & 0x00F0) >> 4) as usize;
        let n = (opcode & 0x000F) as u8;
        let nn = (opcode & 0x00FF) as u8;
        let nnn = opcode & 0x0FFF;

        let family = opcode & 0xF000;
        if family == 0x1000 {
            self.pc = nnn;
        } else if family == 0x2000 {
            self.stack[self.sp] = self.pc + 2;
            self.sp += 1;
            self.pc = nnn;
        } else if family == 0x3000 {
            self.pc += if self.v[x] == nn { 4 } else { 2 };
        } else if family == 0x4000 {
            self.pc += if self.v[x] != nn { 4 } else { 2 };
        } else if family == 0x6000 {
            self.v[x] = nn;
            self.pc += 2;
        } else if family == 0x7000 {
            self.v[x] = self.v[x].wrapping_add(nn);
            self.pc += 2;
        } else if family == 0xA000 {
            self.i = nnn;
            self.pc += 2;
        } else if family == 0xB000 {
            self.pc = nnn + self.v[0] as u16;
        } else if family == 0xC000 {
            self.v[x] = random_byte & nn;
            self.pc += 2;
        } else if family == 0xD000 {
            self.draw_sprite(x, y, n);
            self.pc += 2;
        } else {
            self.decode_extended(opcode, x, y, nn);
        }
    }

    /// 00E0, 00EE and the register-to-register instructions.
    fn decode_extended(&mut self, opcode: u16, x: usize, y: usize, nn: u8)
        requires
            old(self).pc + 1 < 4096,
            x as int == op_x(opcode),
            y as int == op_y(opcode),
            nn == op_nn(opcode),
            x < 16,
            y < 16,
            executable(old(self)@, opcode),
        ensures
            final(self)@ == execute_extended(old(self)@, opcode),
    {
        reveal(execute_extended);
        if opcode == 0x00E0 {
            self.display = [false; DISPLAY_SIZE];
            self.screen_update = true;
            self.pc += 2;
            proof {
                assert(self@.display =~= Seq::new(2048, |p: int| false));
            }
        } else if opcode == 0x00EE {
            self.sp -= 1;
            self.pc = self.stack[self.sp];
        } else {
            let kind = opcode & 0xF00F;
            if kind == 0x5000 {
                self.pc += if self.v[x] == self.v[y] { 4 } else { 2 };
            } else if kind == 0x8000 {
                self.v[x] = self.v[y];
                self.pc += 2;
            } else if kind == 0x8001 {
                self.v[x] |= self.v[y];
                self.pc += 2;
            } else if kind == 0x8002 {
                self.v[x] &= self.v[y];
                self.pc += 2;
            } else if kind == 0x8003 {
                self.v[x] ^= self.v[y];
                self.pc += 2;
            } else if kind == 0x8004 {
                let carry = self.v[x] as u16 + self.v[y] as u16 > 255;
                let result = self.v[x].wrapping_add(self.v[y]);
                assert(result == ((self.v[x as int] + self.v[y as int]) % 256) as u8);
                self.v[x] = result;
                self.v[0xF] = if carry { 1 } else { 0 };
                self.pc += 2;
            } else if kind == 0x8005 {
                let borrow = self.v[x] < self.v[y];
                let result = self.v[x].wrapping_sub(self.v[y]);
                assert(result == ((self.v[x as int] - self.v[y as int] + 256) % 256) as u8);
                self.v[x] = result;
                self.v[0xF] = if borrow { 0 } else { 1 };
                self.pc += 2;
            } else if kind == 0x8006 {
                self.v[0xF] = self.v[x] & 0x01;
                self.v[x] >>= 1;
                self.pc += 2;
            } else if kind == 0x8007 {
                let borrow = self.v[y] < self.v[x];
                let result = self.v[y].wrapping_sub(self.v[x]);
                assert(result == ((self.v[y as int] - self.v[x as int] + 256) % 256) as u8);
                self.v[x] = result;
                self.v[0xF] = if borrow { 0 } else { 1 };
                self.pc += 2;
            } else if kind == 0x800E {
                self.v[0xF] = (self.v[x] & 0x80) >> 7;
                self.v[x] <<= 1;
                self.pc += 2;
            } else if kind == 0x9000 {
                self.pc += if self.v[x] != self.v[y] { 4 } else { 2 };
            } else {
                self.decode_f_family(opcode, x, nn);
            }
        }
    }

    /// The key, timer and memory instructions; other opcodes are skipped.
    fn decode_f_family(&mut self, opcode: u16, x: usize, _nn: u8)
        requires
            old(self).pc + 1 < 4096,
            x as int == op_x(opcode),
            x < 16,
            executable(old(self)@, opcode),
        ensures
            final(self)@ == execute_misc(old(self)@, opcode),
    {
        reveal(execute_misc);
        let kind = opcode & 0xF0FF;
        if kind == 0xE09E {
            let key = self.v[x] as usize;
            self.pc += if self.keys[key] { 4 } else { 2 };
        } else if kind == 0xE0A1 {
            let key = self.v[x] as usize;
            self.pc += if !self.keys[key] { 4 } else { 2 };
        } else if kind == 0xF007 {
            self.v[x] = self.delay_timer;
            self.pc += 2;
        } else if kind == 0xF00A {
            self.blocked = true;
            self.key_register = Some(x);
        } else if kind == 0xF015 {
            self.delay_timer = self.v[x];
            self.pc += 2;
        } else if kind == 0xF018 {
            self.sound_timer = self.v[x];
            self.pc += 2;
        } else if kind == 0xF01E {
            self.i = self.i.wrapping_add(self.v[x] as u16);
            self.pc += 2;
        } else if kind == 0xF029 {
            self.i = self.v[x] as u16 * 5;
            self.pc += 2;
        } else if kind == 0xF033 {
            let value = self.v[x];
            let i = self.i as usize;

            self.memory[i] = value / 100;
            self.memory[i + 1] = (value / 10) % 10;
            self.memory[i + 2] = value % 10;

            self.pc += 2;
        } else if kind == 0xF055 {
            let i = self.i as usize;
            let ghost s0 = self@;

            for offset in 0..x + 1
                invariant
                    x < 16,
                    i == s0.i,
                    i + x < 4096,
                    s0.memory.len() == 4096,
                    s0.v.len() == 16,
                    self@ == (CpuState { memory: self@.memory, ..s0 }),
                    self@.memory.len() == 4096,
                    forall|b: int| 0 <= b < 4096 ==> #[trigger] self@.memory[b] == (
                        if i <= b < i + offset { s0.v[b - i] } else { s0.memory[b] }),
            {
                self.memory[i + offset] = self.v[offset];
            }
            proof {
                assert(self@.memory =~= Seq::new(4096, |b: int| if i <= b <= i + x { s0.v[b - i] } else { s0.memory[b] }));
            }

            self.pc += 2;
        } else if kind == 0xF065 {
            let i = self.i as usize;
            let ghost s0 = self@;

            for offset in 0..x + 1
                invariant
                    x < 16,
                    i == s0.i,
                    i + x < 4096,
                    s0.memory.len() == 4096,
                    s0.v.len() == 16,
                    self@ == (CpuState { v: self@.v, ..s0 }),
                    self@.v.len() == 16,
                    forall|k: int| 0 <= k < 16 ==> #[trigger] self@.v[k] == (
                        if k < offset { s0.memory[i + k] } else { s0.v[k] }),
            {
                self.v[offset] = self.memory[i + offset];
            }
            proof {
                assert(self@.v =~= Seq::new(16, |k: int| if k <= x { s0.memory[i + k] } else { s0.v[k] }));
            }

            self.pc += 2;
        } else {
            self.pc += 2;
        }
    }

    /// Copies a program image into memory from address 0x200 on. Memory
    /// outside the image is left as it was.
    pub fn load_rom(&mut self, rom: &[u8])
        requires
            rom@.len() <= MEMORY_SIZE - PROGRAM_START as usize,
        ensures
            final(self)@ == rom_loaded(old(self)@, rom@),
    {
        let ghost s0 = self@;
        for offset in 0..rom.len()
            invariant
                rom@.len() <= 4096 - 0x200,
                s0.memory.len() == 4096,
                self@ == (CpuState { memory: self@.memory, ..s0 }),
                self@.memory.len() == 4096,
                forall|a: int| 0 <= a < 4096 ==> #[trigger] self@.memory[a] == (
                    if 0x200 <= a < 0x200 + offset { rom@[a - 0x200] } else { s0.memory[a] }),
        {
            self.memory[PROGRAM_START as usize + offset] = rom[offset];
        }
        proof {
            assert(self@.memory =~= rom_loaded(s0, rom@).memory);
        }
    }

    /// One machine cycle. A paused machine, or one waiting for a key, does
    /// nothing. When the instruction is CXNN, the byte it masks is
    /// drawn from the `rand` crate's thread-local generator; every other
    /// instruction runs as `emu_cycle_with` describes, whatever that byte.
    pub fn emu_cycle(&mut self)
        requires
            cycle_defined(old(self)@),
        ensures
            exists|byte: u8| final(self)@ == step(old(self)@, byte),
            !draws_random(old(self)@) ==> final(self)@ == step(old(self)@, 0),
    {
        if self.blocked || self.paused {
            return;
        }

        let opcode = self.fetch_opcode();
        let byte = if opcode & 0xF000 == 0xC000 { random_byte() } else { 0 };
        self.emu_cycle_with(byte);
        proof {
            if !draws_random(old(self)@) {
                lemma_step_ignores_random(old(self)@, byte, 0);
            }
        }
    }

    /// Counts both timers down by one, stopping at zero.
    pub fn update_timers(&mut self)
        ensures
            final(self)@ == timers_ticked(old(self)@),
    {
        if self.delay_timer > 0 {
            self.delay_timer -= 1;
        }

        if self.sound_timer > 0 {
            self.sound_timer -= 1;
        }
    }

    /// Key `index` goes down. A machine waiting for a key (FX0A) gets the
    /// key's number in the register it waits on and resumes after the
    /// instruction.
    pub fn press_key(&mut self, index: usize)
        requires
            index < 16,
            old(self).blocked ==> old(self).pc + 2 <= u16::MAX,
            old(self).blocked && old(self).key_register is Some ==> old(self).key_register->0 < 16,
        ensures
            final(self)@ == key_pressed(old(self)@, index as int),
    {
        self.keys[index] = true;

        if self.blocked {
            if let Some(register) = self.key_register {
                self.v[register] = index as u8;
            }

            self.key_register = None;
            self.blocked = false;
            self.pc += 2;
        }
    }

    /// Key `index` goes up.
    pub fn release_key(&mut self, index: usize)
        requires
            index < 16,
        ensures
            final(self)@ == key_released(old(self)@, index as int),
    {
        self.keys[index] = false;
    }

    /// Returns the machine to its power-on state, with a redraw requested.
    /// Memory between the font and 0x200 keeps its contents.
    pub fn reset(&mut self)
        ensures
            final(self)@ == reset_state(old(self)@),
    {
        let ghost s0 = self@;
        let mut a: usize = PROGRAM_START as usize;
        while a < MEMORY_SIZE
            invariant
                0x200 <= a <= 4096,
                s0.memory.len() == 4096,
                self@ == (CpuState { memory: self@.memory, ..s0 }),
                self@.memory.len() == 4096,
                forall|b: int| 0 <= b < 4096 ==> #[trigger] self@.memory[b] == (
                    if 0x200 <= b < a { 0u8 } else { s0.memory[b] }),
            decreases MEMORY_SIZE - a,
        {
            self.memory[a] = 0;
            a += 1;
        }
        self.v = [0u8; 16];
        self.stack = [0u16; 16];
        self.keys = [false; 16];
        self.display = [false; DISPLAY_SIZE];

        self.i = 0;
        self.pc = PROGRAM_START;
        self.sp = 0;

        self.delay_timer = 0;
        self.sound_timer = 0;

        self.screen_update = true;
        self.paused = false;
        self.blocked = false;
        self.key_register = None;

        self.load_fontset();
        proof {
            let r = reset_state(s0);
            assert(self@.memory =~= r.memory);
            assert(self@.v =~= r.v);
            assert(self@.stack =~= r.stack);
            assert(self@.keys =~= r.keys);
            assert(self@.display =~= r.display);
        }
    }

    /// The lit pixels of the screen, row by row from the top and left to
    /// right within a row, each as its (column, row).
    pub fn lit_pixels(&self) -> (pixels: Vec<(usize, usize)>)
        ensures
            pixels@ == lit_pixels_before(self@.display, 2048),
    {
        let mut pixels: Vec<(usize, usize)> = Vec::new();
        for y in 0..DISPLAY_HEIGHT
            invariant
                self@.display.len() == 2048,
                pixels@ == lit_pixels_before(self@.display, y * 64),
        {
            for x in 0..DISPLAY_WIDTH
                invariant
                    y < 32,
                    self@.display.len() == 2048,
                    pixels@ == lit_pixels_before(self@.display, y * 64 + x),
            {
                proof {
                    lemma_row_major(x as int, y as int);
                }
                if self.display[y * DISPLAY_WIDTH + x] {
                    pixels.push((x, y));
                }
            }
        }
        pixels
    }

    /// Whether `emu_cycle` can run: the machine is paused or waits for a key, or the
    /// program counter holds a whole instruction that stays within memory,
    /// the stack and the keypad.
    pub fn can_cycle(&self) -> (ok: bool)
        ensures
            ok == cycle_defined(self@),
    {
        if self.blocked || self.paused {
            return true;
        }
        if self.pc as usize + 1 >= MEMORY_SIZE {
            return false;
        }
        let opcode = self.fetch_opcode();
        proof {
            lemma_operand_bounds(opcode);
        }
        let x = ((opcode & 0x0F00) >> 8) as usize;
        let n = (opcode & 0x000F) as u8;
        let family = opcode & 0xF000;
        let misc = opcode & 0xF0FF;
        let i = self.i as usize;
        if family == 0x2000 && self.sp >= 16 {
            false
        } else if opcode == 0x00EE && (self.sp < 1 || self.sp > 16) {
            false
        } else if family == 0xD000 && n > 0 && i + n as usize > MEMORY_SIZE {
            false
        } else if (misc == 0xE09E || misc == 0xE0A1) && self.v[x] >= 16 {
            false
        } else if misc == 0xF033 && i + 2 >= MEMORY_SIZE {
            false
        } else if (misc == 0xF055 || misc == 0xF065) && i + x >= MEMORY_SIZE {
            false
        } else {
            true
        }
    }

    /// Whether the machine implements `opcode`; any other opcode is skipped.
    pub fn is_known_opcode(opcode: u16) -> (known: bool)
        ensures
            known == known_opcode(opcode),
    {
        let family = opcode & 0xF000;
        let kind = opcode & 0xF00F;
        let misc = opcode & 0xF0FF;
        (family == 0x1000 || family == 0x2000 || family == 0x3000 || family == 0x4000)
            || (family == 0x6000 || family == 0x7000 || family == 0xA000 || family == 0xB000)
            || (family == 0xC000 || family == 0xD000)
            || (opcode == 0x00E0 || opcode == 0x00EE)
            || (kind == 0x5000 || kind == 0x9000)
            || (kind == 0x8000 || kind == 0x8001 || kind == 0x8002 || kind == 0x8003)
            || (kind == 0x8004 || kind == 0x8005 || kind == 0x8006 || kind == 0x8007 || kind == 0x800E)
            || (misc == 0xE09E || misc == 0xE0A1)
            || (misc == 0xF007 || misc == 0xF00A || misc == 0xF015 || misc == 0xF018 || misc == 0xF01E)
            || (misc == 0xF029 || misc == 0xF033 || misc == 0xF055 || misc == 0xF065)
    }

    /// The opcode that the next cycle will skip because the machine does not
    /// implement it, if there is one: the machine is neither paused nor
    /// waiting for a key, and the program counter holds a whole opcode that is
    /// not known.
    pub fn next_unknown_opcode(&self) -> (unknown: Option<u16>)
        ensures
            unknown == (if !self.blocked && !self.paused && self.pc + 1 < 4096
                && !known_opcode(opcode_at(self@.memory, self.pc)) {
                Some(opcode_at(self@.memory, self.pc))
            } else {
                None
            }),
    {
        if self.blocked || self.paused || self.pc as usize + 1 >= MEMORY_SIZE {
            return None;
        }
        let opcode = self.fetch_opcode();
        if Self::is_known_opcode(opcode) {
            None
        } else {
            Some(opcode)
        }
    }
}

}
