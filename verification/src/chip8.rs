use vstd::prelude::*;
use rand::Rng;
use crate::model::{
    CpuState, add_spec, bcd_spec, call_spec, clear_screen_spec, get_key_spec, random_spec,
    ret_spec, shl_spec, shr_spec, sub_spec, subn_spec, fetch_spec, draw_spec, draw_fits,
    draw_rows, sprite_bit, load_spec, step, can_execute, advance, alu_spec, alu_known,
    misc_spec, misc_fits, skip_if, op_kind, op_x, op_y, op_n, op_nn,
    op_nnn, initial_state, initial_mem, font_byte, blank_screen,
};

verus! {

/// The sprites of the hexadecimal digits `0` to `F`, five rows each.
pub const FONTS: [[u8; 5]; 16] = [
    [0xf0, 0x90, 0x90, 0x90, 0xf0],
    [0x20, 0x60, 0x20, 0x20, 0x70],
    [0xF0, 0x10, 0xF0, 0x80, 0xF0],
    [0xF0, 0x10, 0xF0, 0x10, 0xF0],
    [0x90, 0x90, 0xF0, 0x10, 0x10],
    [0xF0, 0x80, 0xF0, 0x10, 0xF0],
    [0xF0, 0x80, 0xF0, 0x90, 0xF0],
    [0xF0, 0x10, 0x20, 0x40, 0x40],
    [0xF0, 0x90, 0xF0, 0x90, 0xF0],
    [0xF0, 0x90, 0xF0, 0x10, 0xF0],
    [0xF0, 0x90, 0xF0, 0x90, 0x90],
    [0xE0, 0x90, 0xE0, 0x90, 0xE0],
    [0xF0, 0x80, 0x80, 0x80, 0xF0],
    [0xE0, 0x90, 0x90, 0x90, 0xE0],
    [0xF0, 0x80, 0xF0, 0x80, 0xF0],
    [0xF0, 0x80, 0xF0, 0x80, 0x80],
];

/// The value of `key_pressed` when no key is down (keys are `0` to `15`).
pub const NO_KEY: u8 = 16;

/// The interpreter: memory, registers, screen, timers, call stack and keys.
#[allow(non_snake_case)]
pub struct CPU {
    pub mem: [u8; 0x1000],
    /// Registers `v0` to `vF`.
    pub v: [u8; 16],
    /// The index register `I`.
    pub _I: usize,
    pub screen: [[u8; 64]; 32],
    /// Sound timer.
    pub st: u8,
    /// Delay timer.
    pub dt: u8,
    /// Program counter.
    pub pc: usize,
    pub stack: [usize; 16],
    /// Stack pointer: one above the topmost occupied slot.
    pub sp: usize,
    /// Whether each key is down.
    pub keys: [bool; 16],
    /// The key pressed, or `NO_KEY`.
    pub key_pressed: u8,
}

impl View for CPU {
    type V = CpuState;

    open spec fn view(&self) -> CpuState {
        CpuState {
            mem: self.mem@,
            v: self.v@,
            i: self._I,
            screen: Seq::new(32, |r: int| self.screen@[r]@),
            st: self.st,
            dt: self.dt,
            pc: self.pc,
            stack: self.stack@,
            sp: self.sp,
            keys: self.keys@,
            key_pressed: self.key_pressed,
        }
    }
}

/// One byte from `rand::thread_rng()` drawn with `Rng::gen::<u8>()`.
/// Nothing is claimed of the byte: it depends on the state of the thread's
/// generator. The outside call panics where the operating system cannot seed
/// the generator, which no precondition can rule out.
#[verifier::external_body]
fn random_byte() -> u8 {
    rand::thread_rng().gen::<u8>()
}

impl CPU {
    /// `00E0`: switches every pixel off.
    pub fn clear_screen(&mut self)
        ensures
            final(self)@ =~~= clear_screen_spec(old(self)@),
            forall|r: int, c: int| 0 <= r < 32 && 0 <= c < 64 ==> #[trigger] final(self).screen[r][c] == 0,
    {
        for y in 0..32
            invariant
                self.mem == old(self).mem,
                self.v == old(self).v,
                self._I == old(self)._I,
                self.st == old(self).st,
                self.dt == old(self).dt,
                self.pc == old(self).pc,
                self.stack == old(self).stack,
                self.sp == old(self).sp,
                self.keys == old(self).keys,
                self.key_pressed == old(self).key_pressed,
                forall|r: int, c: int| 0 <= r < y && 0 <= c < 64 ==> self.screen@[r]@[c] == 0,
        {
            for x in 0..64
                invariant
                    0 <= y < 32,
                    self.mem == old(self).mem,
                    self.v == old(self).v,
                    self._I == old(self)._I,
                    self.st == old(self).st,
                    self.dt == old(self).dt,
                    self.pc == old(self).pc,
                    self.stack == old(self).stack,
                    self.sp == old(self).sp,
                    self.keys == old(self).keys,
                    self.key_pressed == old(self).key_pressed,
                    forall|r: int, c: int| 0 <= r < y && 0 <= c < 64 ==> self.screen@[r]@[c] == 0,
                    forall|c: int| 0 <= c < x ==> self.screen@[y as int]@[c] == 0,
            {
                self.screen[y][x] = 0;
            }
        }
    }

    /// `00EE`: returns from a subroutine, popping the program counter.
    pub fn ret_subroutine(&mut self)
        requires
            1 <= old(self).sp <= 16,
        ensures
            final(self)@ =~~= ret_spec(old(self)@),
    {
        self.sp -= 1;
        self.pc = self.stack[self.sp];
    }

    /// `2NNN`: calls the subroutine at `nnn`, pushing the program counter.
    pub fn ret_from_sub_at_addr(&mut self, nnn: usize)
        requires
            old(self).sp < 16,
        ensures
            final(self)@ =~~= call_spec(old(self)@, nnn),
    {
        self.stack[self.sp] = self.pc;
        self.sp += 1;
        self.pc = nnn;
    }

    /// `8XY4`: adds `vY` to `vX` modulo 256 and sets `vF` to 1 on a carry.
    pub fn add_x_y(&mut self, x: usize, y: usize)
        requires
            x < 16,
            y < 16,
        ensures
            final(self)@ =~~= add_spec(old(self)@, x as int, y as int),
            old(self).v[x as int] + old(self).v[y as int] > 255 ==> final(self).v[15] == 1,
            old(self).v[x as int] + old(self).v[y as int] <= 255 && x != 15 ==> final(self).v[15]
                == old(self).v[15],
            x != 15 ==> final(self).v[x as int] == (old(self).v[x as int] + old(self).v[y as int])
                % 256,
            forall|k: int|
                0 <= k < 16 && k != x && k != 15 ==> #[trigger] final(self).v[k] == old(self).v[k],
    {
        let before = self.v[x];
        self.v[x] = self.v[x].wrapping_add(self.v[y]);
        if self.v[x] < before {
            self.v[0xF] = 1;
        }
    }

    /// `8XY5`: sets `vF` to 1 when `vX >= vY`, else 0, then subtracts `vY`
    /// from `vX` modulo 256.
    pub fn sub_x_with_y(&mut self, x: usize, y: usize)
        requires
            x < 16,
            y < 16,
        ensures
            final(self)@ =~~= sub_spec(old(self)@, x as int, y as int),
            x != 15 && y != 15 ==> ((final(self).v[15] == 1) <==> old(self).v[x as int] >= old(self).v[y as int]),
            x != 15 && y != 15 ==> final(self).v[15] <= 1,
            x != 15 && y != 15 ==> (final(self).v[x as int] + old(self).v[y as int]) % 256 == old(self).v[x as int],
    {
        if self.v[x] >= self.v[y] {
            self.v[0xF] = 1;
        } else {
            self.v[0xF] = 0;
        }
        self.v[x] = self.v[x].wrapping_sub(self.v[y]);
    }

    /// `8XY7`: sets `vF` to 1 when `vY >= vX`, else 0, then sets `vX` to
    /// `vY - vX` modulo 256.
    pub fn sub_x_with_y_x(&mut self, x: usize, y: usize)
        requires
            x < 16,
            y < 16,
        ensures
            final(self)@ =~~= subn_spec(old(self)@, x as int, y as int),
            x != 15 && y != 15 ==> ((final(self).v[15] == 1) <==> old(self).v[y as int] >= old(self).v[x as int]),
            x != 15 && y != 15 ==> final(self).v[15] <= 1,
            x != 15 && y != 15 ==> (final(self).v[x as int] + old(self).v[x as int]) % 256 == old(self).v[y as int],
    {
        if self.v[y] >= self.v[x] {
            self.v[0xF] = 1;
        } else {
            self.v[0xF] = 0;
        }
        self.v[x] = self.v[y].wrapping_sub(self.v[x]);
    }

    /// `8XY6`: copies `vY` into `vX`, moves its lowest bit into `vF` and
    /// shifts `vX` right by one.
    pub fn shift_right(&mut self, x: usize, y: usize)
        requires
            x < 16,
            y < 16,
        ensures
            final(self)@ =~~= shr_spec(old(self)@, x as int, y as int),
            x != 15 ==> 2 * final(self).v[x as int] + final(self).v[15] == old(self).v[y as int],
            x != 15 ==> final(self).v[15] <= 1,
    {
        self.v[x] = self.v[y];
        let a = self.v[x];
        if a & 0b00000001 == 0 {
            self.v[0xf] = 0;
        } else {
            self.v[0xf] = 1;
        }
        proof {
            assert((a & 1 == 0) <==> a % 2 == 0) by (bit_vector);
        }
        let b = self.v[x];
        proof {
            assert(b >> 1 == b / 2) by (bit_vector);
        }
        self.v[x] = b >> 1;
    }

    /// `8XYE`: copies `vY` into `vX`, moves its highest bit into `vF` and
    /// shifts `vX` left by one.
    pub fn shift_left(&mut self, x: usize, y: usize)
        requires
            x < 16,
            y < 16,
        ensures
            final(self)@ =~~= shl_spec(old(self)@, x as int, y as int),
            x != 15 ==> 256 * final(self).v[15] + final(self).v[x as int] == 2 * old(self).v[y as int],
            x != 15 ==> final(self).v[15] <= 1,
    {
        self.v[x] = self.v[y];
        let a = self.v[x];
        if a & 0b10000000 == 0 {
            self.v[0xf] = 0;
        } else {
            self.v[0xf] = 1;
        }
        proof {
            assert((a & 0x80 == 0) <==> a / 128 == 0) by (bit_vector);
            assert(a / 128 <= 1) by (bit_vector);
        }
        let b = self.v[x];
        proof {
            assert(b << 1 == (b * 2) % 256) by (bit_vector);
        }
        self.v[x] = b << 1;
    }

    /// `CXNN` with the random byte given: sets `vX` to `rnd & nn`.
    pub fn store_random(&mut self, x: usize, nn: u8, rnd: u8)
        requires
            x < 16,
        ensures
            final(self)@ =~~= random_spec(old(self)@, x as int, nn, rnd),
    {
        self.v[x] = rnd & nn;
    }

    /// `CXNN`: sets `vX` to a random byte masked with `nn`.
    pub fn random(&mut self, x: usize, nn: u8)
        requires
            x < 16,
        ensures
            exists|r: u8| #[trigger] random_spec(old(self)@, x as int, nn, r) =~~= final(self)@,
    {
        let r = random_byte();
        self.store_random(x, nn, r);
    }

    /// `FX0A`: stores the pressed key in `vX`; with no key pressed, steps the
    /// program counter back so that this instruction runs again.
    pub fn get_key(&mut self, x: usize)
        requires
            old(self).key_pressed < NO_KEY ==> x < 16,
            old(self).key_pressed >= NO_KEY ==> old(self).pc >= 2,
        ensures
            final(self)@ =~~= get_key_spec(old(self)@, x as int),
    {
        if self.key_pressed < NO_KEY {
            self.v[x] = self.key_pressed;
            return;
        }
        self.pc -= 2;
    }

    /// `FX33`: stores the hundreds, tens and units of `vX` at `I`, `I+1` and
    /// `I+2`.
    pub fn dec_conv(&mut self, x: usize)
        requires
            x < 16,
            old(self)._I + 2 < 0x1000,
        ensures
            final(self)@ =~~= bcd_spec(old(self)@, x as int),
            final(self).mem[old(self)._I as int] < 10,
            final(self).mem[old(self)._I + 1] < 10,
            final(self).mem[old(self)._I + 2] < 10,
            100 * final(self).mem[old(self)._I as int] + 10 * final(self).mem[old(self)._I + 1]
                + final(self).mem[old(self)._I + 2] == old(self).v[x as int],
    {
        let d = self.v[x];
        let i = self._I;
        self.mem[i] = d / 100;
        self.mem[i + 1] = (d / 10) % 10;
        self.mem[i + 2] = d % 10;
    }

    /// `DXYN`: writes the `n`-row sprite at `I` to the screen at (`vX`, `vY`),
    /// each pixel taking the value of its bit; what falls off the right or the
    /// bottom edge is dropped.
    pub fn draw(&mut self, x_reg: usize, y_reg: usize, n: usize)
        requires
            x_reg < 16,
            y_reg < 16,
            old(self).v[y_reg as int] + n <= usize::MAX,
            draw_fits(old(self)@, x_reg as int, y_reg as int, n as int),
        ensures
            final(self)@ =~~= draw_spec(old(self)@, x_reg as int, y_reg as int, n as int),
            forall|row: int, col: int|
                0 <= row < 32 && 0 <= col < 64 && old(self).v[y_reg as int] <= row < old(self).v[y_reg as int]
                    + n && old(self).v[x_reg as int] <= col < old(self).v[x_reg as int] + 8
                    ==> #[trigger] final(self).screen[row][col] == (old(self).mem[old(self)._I + (row
                    - old(self).v[y_reg as int])] >> ((7 - (col - old(self).v[x_reg as int])) as u8))
                    & 1u8,
            forall|row: int, col: int|
                0 <= row < 32 && 0 <= col < 64 && !(old(self).v[y_reg as int] <= row < old(self).v[y_reg as int] + n && old(self).v[x_reg as int] <= col < old(self).v[x_reg as int]
                    + 8) ==> #[trigger] final(self).screen[row][col] == old(self).screen[row][col],
    {
        let y_coord: usize = self.v[y_reg] as usize;
        let x_coord: usize = self.v[x_reg] as usize;
        let ghost s0 = self@;
        let ghost rows = draw_rows(s0, x_reg as int, y_reg as int, n as int);
        let mut y: usize = y_coord;
        while y < y_coord + n
            invariant
                y_coord == s0.v[y_reg as int],
                x_coord == s0.v[x_reg as int],
                y_coord <= y <= y_coord + n,
                y_coord + n <= usize::MAX,
                rows == draw_rows(s0, x_reg as int, y_reg as int, n as int),
                rows == 0 || s0.i + rows <= 0x1000,
                self.mem@ == s0.mem,
                self.v@ == s0.v,
                self._I == s0.i,
                self.st == s0.st,
                self.dt == s0.dt,
                self.pc == s0.pc,
                self.stack@ == s0.stack,
                self.sp == s0.sp,
                self.keys@ == s0.keys,
                self.key_pressed == s0.key_pressed,
                s0.screen.len() == 32,
                forall|r: int| 0 <= r < 32 ==> #[trigger] s0.screen[r] == self.screen@[r]@ || r < y,
                forall|r: int, c: int|
                    0 <= r < 32 && 0 <= c < 64 && r < y ==> #[trigger] self.screen@[r]@[c] == (
                    if y_coord <= r && x_coord <= c < x_coord + 8 {
                        sprite_bit(s0.mem[s0.i + (r - y_coord)], c - x_coord)
                    } else {
                        s0.screen[r][c]
                    }),
            decreases y_coord + n - y,
        {
            let mut x: usize = x_coord;
            let mut i: usize = 0;
            while x < x_coord + 8 && x < 64 && y < 32
                invariant
                    y_coord == s0.v[y_reg as int],
                    x_coord == s0.v[x_reg as int],
                    y_coord <= y < y_coord + n,
                    x_coord <= x <= x_coord + 8,
                    i == x - x_coord,
                    rows == draw_rows(s0, x_reg as int, y_reg as int, n as int),
                    rows == 0 || s0.i + rows <= 0x1000,
                    self.mem@ == s0.mem,
                    self.v@ == s0.v,
                    self._I == s0.i,
                    self.st == s0.st,
                    self.dt == s0.dt,
                    self.pc == s0.pc,
                    self.stack@ == s0.stack,
                    self.sp == s0.sp,
                    self.keys@ == s0.keys,
                    self.key_pressed == s0.key_pressed,
                    s0.screen.len() == 32,
                    forall|r: int| 0 <= r < 32 ==> #[trigger] s0.screen[r] == self.screen@[r]@ || r < y || r == y,
                    forall|r: int, c: int|
                        0 <= r < 32 && 0 <= c < 64 && r < y ==> #[trigger] self.screen@[r]@[c] == (
                        if y_coord <= r && x_coord <= c < x_coord + 8 {
                            sprite_bit(s0.mem[s0.i + (r - y_coord)], c - x_coord)
                        } else {
                            s0.screen[r][c]
                        }),
                    y < 32 ==> forall|c: int|
                        0 <= c < 64 ==> #[trigger] self.screen@[y as int]@[c] == (
                        if x_coord <= c < x {
                            sprite_bit(s0.mem[s0.i + (y - y_coord)], c - x_coord)
                        } else {
                            s0.screen[y as int][c]
                        }),
                decreases x_coord + 8 - x,
            {
                let byte = self.mem[self._I + (y - y_coord)];
                self.screen[y][x] = (byte >> ((7 - i) as u8)) & 0x1;
                i += 1;
                x += 1;
            }
            y += 1;
        }
        proof {
            assert forall|row: int, col: int|
                0 <= row < 32 && 0 <= col < 64 && !(s0.v[y_reg as int] <= row < s0.v[y_reg as int]
                    + n && s0.v[x_reg as int] <= col < s0.v[x_reg as int] + 8) implies #[trigger] self.screen[row][col]
                == s0.screen[row][col] by {
                assert(self.screen@[row]@[col] == self@.screen[row][col]);
            }
        }
    }

    /// A fresh machine: memory zero but for the font sprites at `0x050`,
    /// registers, timers, stack and screen zero, the program counter at
    /// `0x200` and no key pressed.
    pub fn init() -> (cpu: CPU)
        ensures
            cpu@ =~~= initial_state(),
            forall|r: int, c: int| 0 <= r < 32 && 0 <= c < 64 ==> #[trigger] cpu.screen[r][c] == 0,
            forall|k: int| 0 <= k < 16 ==> #[trigger] cpu.v[k] == 0,
            forall|d: int, r: int|
                0 <= d < 16 && 0 <= r < 5 ==> #[trigger] cpu.mem[0x50 + 5 * d + r] == FONTS[d][r],
            cpu.pc == 0x200,
            cpu.sp == 0,
            cpu._I == 0,
            cpu.key_pressed == NO_KEY,
    {
        let mut ini = CPU {
            mem: [0; 0x1000],
            v: [0; 16],
            _I: 0,
            screen: [[0; 64]; 32],
            st: 0,
            dt: 0,
            pc: 0x200,
            stack: [0; 16],
            sp: 0,
            keys: [false; 16],
            key_pressed: NO_KEY,
        };
        let ghost scr = ini.screen;
        proof {
            assert forall|r: int| 0 <= r < 32 implies #[trigger] scr@[r]@ =~= blank_screen()[r] by {
                assert(scr@[r]@.len() == 64);
            }
        }
        for y in 0usize..16
            invariant
                forall|a: int|
                    0 <= a < 0x1000 ==> #[trigger] ini.mem@[a] == (if 0x50 <= a < 0x50 + 5 * y {
                        font_byte(a - 0x50)
                    } else {
                        0u8
                    }),
                ini.v@ == Seq::new(16, |r: int| 0u8),
                ini._I == 0,
                ini.screen == scr,
                ini.st == 0,
                ini.dt == 0,
                ini.pc == 0x200,
                ini.stack@ == Seq::new(16, |r: int| 0usize),
                ini.sp == 0,
                ini.keys@ == Seq::new(16, |r: int| false),
                ini.key_pressed == NO_KEY,
        {
            for x in 0usize..5
                invariant
                    0 <= y < 16,
                    forall|a: int|
                        0 <= a < 0x1000 ==> #[trigger] ini.mem@[a] == (if 0x50 <= a < 0x50 + 5 * y + x {
                            font_byte(a - 0x50)
                        } else {
                            0u8
                        }),
                    ini.v@ == Seq::new(16, |r: int| 0u8),
                    ini._I == 0,
                    ini.screen == scr,
                    ini.st == 0,
                    ini.dt == 0,
                    ini.pc == 0x200,
                    ini.stack@ == Seq::new(16, |r: int| 0usize),
                    ini.sp == 0,
                    ini.keys@ == Seq::new(16, |r: int| false),
                    ini.key_pressed == NO_KEY,
            {
                assert((y * 5 + x) / 5 == y && (y * 5 + x) % 5 == x) by (nonlinear_arith)
                    requires 0 <= x < 5, 0 <= y < 16;
                ini.mem[y * 5 + x + 0x050] = FONTS[y][x];
            }
        }
        proof {
            assert(ini@.mem =~= initial_mem());
            assert(ini@.screen =~~= blank_screen());
        }
        ini
    }

    /// Copies `rom` into memory from `0x200` on.
    pub fn load_bytes(&mut self, rom: &[u8])
        requires
            rom@.len() <= 0x1000 - 0x200,
        ensures
            final(self)@ =~~= load_spec(old(self)@, rom@),
            forall|k: int| 0 <= k < rom@.len() ==> final(self).mem[0x200 + k] == #[trigger] rom@[k],
            forall|a: int|
                0 <= a < 0x1000 && !(0x200 <= a < 0x200 + rom@.len()) ==> #[trigger] final(self).mem[a] == old(self).mem[a],
    {
        let mut i: usize = 0;
        while i < rom.len()
            invariant
                i <= rom@.len() <= 0x1000 - 0x200,
                forall|a: int|
                    0 <= a < 0x1000 ==> #[trigger] self.mem@[a] == (if 0x200 <= a < 0x200 + i {
                        rom@[a - 0x200]
                    } else {
                        old(self).mem@[a]
                    }),
                self.v == old(self).v,
                self._I == old(self)._I,
                self.screen == old(self).screen,
                self.st == old(self).st,
                self.dt == old(self).dt,
                self.pc == old(self).pc,
                self.stack == old(self).stack,
                self.sp == old(self).sp,
                self.keys == old(self).keys,
                self.key_pressed == old(self).key_pressed,
            decreases rom@.len() - i,
        {
            self.mem[i + 0x200] = rom[i];
            i += 1;
        }
    }

    /// Executes one instruction of group `8` (register arithmetic).
    fn execute_alu(&mut self, x: usize, y: usize, k: u16)
        requires
            x < 16,
            y < 16,
            alu_known(k as int),
        ensures
            final(self)@ =~~= alu_spec(old(self)@, x as int, y as int, k as int),
    {
        if k == 0x0 {
            self.v[x] = self.v[y];
        } else if k == 0x1 {
            self.v[x] = self.v[x] | self.v[y];
        } else if k == 0x2 {
            self.v[x] = self.v[x] & self.v[y];
        } else if k == 0x3 {
            self.v[x] = self.v[x] ^ self.v[y];
        } else if k == 0x4 {
            self.add_x_y(x, y);
        } else if k == 0x5 {
            self.sub_x_with_y(x, y);
        } else if k == 0x6 {
            self.shift_right(x, y);
        } else if k == 0x7 {
            self.sub_x_with_y_x(x, y);
        } else {
            self.shift_left(x, y);
        }
    }

    /// Executes one instruction of group `F` (timers, index, memory).
    fn execute_misc(&mut self, x: usize, nn: u8)
        requires
            x < 16,
            misc_fits(old(self)@, x as int, nn),
            old(self).pc >= 2,
        ensures
            final(self)@ =~~= misc_spec(old(self)@, x as int, nn),
    {
        if nn == 0x07 {
            self.v[x] = self.dt;
        } else if nn == 0x15 {
            self.dt = self.v[x];
        } else if nn == 0x18 {
            self.st = self.v[x];
        } else if nn == 0x1E {
            self._I += self.v[x] as usize;
        } else if nn == 0x0A {
            self.get_key(x);
        } else if nn == 0x29 {
            let a = self.v[x];
            proof {
                assert(a & 0x0F == a % 16) by (bit_vector);
                assert(a % 16 < 16);
            }
            self._I = ((a & 0x0F) * 5 + 0x50) as usize;
        } else {
            self.dec_conv(x);
        }
    }

    /// Adds 2 to the program counter when `cond` holds.
    fn skip_when(&mut self, cond: bool)
        requires
            cond ==> old(self).pc + 2 <= usize::MAX,
        ensures
            final(self)@ =~~= skip_if(old(self)@, cond),
    {
        if cond {
            self.pc += 2;
        }
    }

    /// Executes the instruction `opcode`: the program counter moves past it,
    /// then the instruction takes effect. `CXNN` draws a random byte; every
    /// other instruction is determined by the state and the opcode alone.
    pub fn execute(&mut self, opcode: u16)
        requires
            can_execute(old(self)@, opcode),
        ensures
            exists|r: u8| #[trigger] step(old(self)@, opcode, r) =~~= final(self)@,
            op_kind(opcode) != 0xC ==> final(self)@ =~~= step(old(self)@, opcode, 0),
    {
        self.pc += 2;
        let ghost t = self@;
        assert(t =~~= advance(old(self)@));
        let nnn: usize = (opcode & 0x0FFF) as usize;
        let nn: u8 = (opcode & 0x00FF) as u8;
        let n: usize = (opcode & 0x000F) as usize;
        let x: usize = ((opcode & 0x0F00) >> 8) as usize;
        let y: usize = ((opcode & 0x00F0) >> 4) as usize;
        let kind: u16 = opcode >> 12;
        proof {
            assert(opcode & 0x0FFF == opcode % 0x1000) by (bit_vector);
            assert(opcode & 0x00FF == opcode % 0x100) by (bit_vector);
            assert(opcode & 0x000F == opcode % 0x10) by (bit_vector);
            assert((opcode & 0x0F00) >> 8 == (opcode / 0x100) % 0x10) by (bit_vector);
            assert((opcode & 0x00F0) >> 4 == (opcode / 0x10) % 0x10) by (bit_vector);
            assert(opcode >> 12 == opcode / 0x1000) by (bit_vector);
            assert(opcode % 0x10 < 16) by (bit_vector);
            assert((opcode / 0x100) % 0x10 < 16) by (bit_vector);
            assert((opcode / 0x10) % 0x10 < 16) by (bit_vector);
            assert(opcode / 0x1000 < 16) by (bit_vector);
        }
        assert(nnn == op_nnn(opcode));
        assert(nn == op_nn(opcode));
        assert(n == op_n(opcode));
        assert(x == op_x(opcode));
        assert(y == op_y(opcode));
        assert(kind == op_kind(opcode));
        if kind == 0x0 {
            if opcode == 0x00E0 {
                self.clear_screen();
            } else {
                self.ret_subroutine();
            }
        } else if kind == 0x1 {
            self.pc = nnn;
        } else if kind == 0x2 {
            self.ret_from_sub_at_addr(nnn);
        } else if kind == 0x3 {
            let c = self.v[x] == nn;
            self.skip_when(c);
        } else if kind == 0x4 {
            let c = self.v[x] != nn;
            self.skip_when(c);
        } else if kind == 0x5 {
            let c = self.v[x] == self.v[y];
            self.skip_when(c);
        } else if kind == 0x6 {
            self.v[x] = nn;
        } else if kind == 0x7 {
            self.v[x] = self.v[x].wrapping_add(nn);
        } else if kind == 0x8 {
            self.execute_alu(x, y, opcode & 0x000F);
        } else if kind == 0x9 {
            let c = self.v[x] != self.v[y];
            self.skip_when(c);
        } else if kind == 0xA {
            self._I = nnn;
        } else if kind == 0xB {
            self.pc = nnn + self.v[0] as usize;
        } else if kind == 0xC {
            self.random(x, nn);
        } else if kind == 0xD {
            self.draw(x, y, n);
        } else if kind == 0xE {
            if nn == 0x9E {
                let c = self.v[x] == self.key_pressed;
                self.skip_when(c);
            } else {
                let c = self.v[x] != self.key_pressed;
                self.skip_when(c);
            }
        } else {
            self.execute_misc(x, nn);
        }
        proof {
            if kind == 0xC {
                let r = choose|r: u8| #[trigger] random_spec(t, x as int, nn, r) =~~= self@;
                assert(step(old(self)@, opcode, r) =~~= self@);
            } else {
                assert(step(old(self)@, opcode, 0) =~~= self@);
            }
        }
    }

    /// Fetches the opcode at the program counter and executes it. The key
    /// argument is not read.
    #[allow(unused_variables)]
    pub fn tick(&mut self, key: u8)
        requires
            old(self).pc + 1 < 0x1000,
            can_execute(old(self)@, fetch_spec(old(self)@)),
        ensures
            exists|r: u8| #[trigger] step(old(self)@, fetch_spec(old(self)@), r) =~~= final(self)@,
    {
        let opcode = self.fetch();
        self.execute(opcode);
    }

    /// The opcode at the program counter, high byte first.
    pub fn fetch(&self) -> (op: u16)
        requires
            self.pc + 1 < 0x1000,
        ensures
            op == fetch_spec(self@),
            op / 256 == self.mem[self.pc as int],
            op % 256 == self.mem[self.pc + 1],
    {
        let hi = self.mem[self.pc];
        let lo = self.mem[self.pc + 1];
        proof {
            assert(((hi as u16) << 8) | (lo as u16) == (hi * 256 + lo) as u16) by (bit_vector);
        }
        ((hi as u16) << 8) | (lo as u16)
    }
}

} // verus!
