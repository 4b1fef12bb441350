use vstd::prelude::*;
use crate::chip8::FONTS;

verus! {

/// The machine as mathematics: every array of the interpreter seen as a
/// sequence, the screen as 32 rows of 64 pixels.
#[verifier::ext_equal]
pub struct CpuState {
    pub mem: Seq<u8>,
    pub v: Seq<u8>,
    pub i: usize,
    pub screen: Seq<Seq<u8>>,
    pub st: u8,
    pub dt: u8,
    pub pc: usize,
    pub stack: Seq<usize>,
    pub sp: usize,
    pub keys: Seq<bool>,
    pub key_pressed: u8,
}

// ---------------------------------------------------------------------------
// Opcode fields

/// The instruction group: the highest nibble.
pub open spec fn op_kind(op: u16) -> int {
    (op / 0x1000) as int
}

/// `X`: the second nibble.
pub open spec fn op_x(op: u16) -> int {
    ((op / 0x100) % 0x10) as int
}

/// `Y`: the third nibble.
pub open spec fn op_y(op: u16) -> int {
    ((op / 0x10) % 0x10) as int
}

/// `N`: the lowest nibble.
pub open spec fn op_n(op: u16) -> int {
    (op % 0x10) as int
}

/// `NN`: the lowest byte.
pub open spec fn op_nn(op: u16) -> u8 {
    (op % 0x100) as u8
}

/// `NNN`: the lowest twelve bits, an address.
pub open spec fn op_nnn(op: u16) -> usize {
    (op % 0x1000) as usize
}

// ---------------------------------------------------------------------------
// Small building blocks

/// The byte `a - b` taken modulo 256.
pub open spec fn wrapping_sub_u8(a: u8, b: u8) -> u8 {
    ((a as int - b as int + 256) % 256) as u8
}

/// The byte `a + b` taken modulo 256.
pub open spec fn wrapping_add_u8(a: u8, b: u8) -> u8 {
    ((a as int + b as int) % 256) as u8
}

/// `s` with register `x` set to `val`.
pub open spec fn set_reg(s: CpuState, x: int, val: u8) -> CpuState {
    CpuState { v: s.v.update(x, val), ..s }
}

/// `s` with the next instruction skipped when `cond` holds.
pub open spec fn skip_if(s: CpuState, cond: bool) -> CpuState {
    if cond {
        CpuState { pc: (s.pc + 2) as usize, ..s }
    } else {
        s
    }
}

/// Whether skipping in `s` on `cond` stays within the address range.
pub open spec fn skip_fits(s: CpuState, cond: bool) -> bool {
    cond ==> s.pc + 2 <= usize::MAX
}

/// A screen with every pixel off.
pub open spec fn blank_screen() -> Seq<Seq<u8>> {
    Seq::new(32, |r: int| Seq::new(64, |c: int| 0u8))
}

// ---------------------------------------------------------------------------
// One specification per instruction

/// `00E0`: every pixel is switched off.
pub open spec fn clear_screen_spec(s: CpuState) -> CpuState {
    CpuState { screen: blank_screen(), ..s }
}

/// `00EE`: pop the return address off the stack into the program counter.
pub open spec fn ret_spec(s: CpuState) -> CpuState {
    CpuState { sp: (s.sp - 1) as usize, pc: s.stack[s.sp - 1], ..s }
}

/// `2NNN`: push the program counter and jump to `nnn`.
pub open spec fn call_spec(s: CpuState, nnn: usize) -> CpuState {
    CpuState { stack: s.stack.update(s.sp as int, s.pc), sp: (s.sp + 1) as usize, pc: nnn, ..s }
}

/// `8XY4`: `vX += vY` modulo 256; `vF` becomes 1 when the sum carries and is
/// left alone otherwise.
pub open spec fn add_spec(s: CpuState, x: int, y: int) -> CpuState {
    let v1 = s.v.update(x, wrapping_add_u8(s.v[x], s.v[y]));
    CpuState { v: if s.v[x] + s.v[y] > 255 { v1.update(0xF, 1u8) } else { v1 }, ..s }
}

/// `8XY5`: `vF` becomes 1 when `vX >= vY` (no borrow) and 0 otherwise; then
/// `vX -= vY` modulo 256, read after the flag was written.
pub open spec fn sub_spec(s: CpuState, x: int, y: int) -> CpuState {
    let v1 = s.v.update(0xF, if s.v[x] >= s.v[y] { 1u8 } else { 0u8 });
    CpuState { v: v1.update(x, wrapping_sub_u8(v1[x], v1[y])), ..s }
}

/// `8XY7`: `vF` becomes 1 when `vY >= vX` and 0 otherwise; then
/// `vX = vY - vX` modulo 256, read after the flag was written.
pub open spec fn subn_spec(s: CpuState, x: int, y: int) -> CpuState {
    let v1 = s.v.update(0xF, if s.v[y] >= s.v[x] { 1u8 } else { 0u8 });
    CpuState { v: v1.update(x, wrapping_sub_u8(v1[y], v1[x])), ..s }
}

/// `8XY6`: `vX = vY`; `vF` takes the bit shifted out; `vX` is halved.
pub open spec fn shr_spec(s: CpuState, x: int, y: int) -> CpuState {
    let v1 = s.v.update(x, s.v[y]);
    let v2 = v1.update(0xF, (v1[x] % 2) as u8);
    CpuState { v: v2.update(x, (v2[x] / 2) as u8), ..s }
}

/// `8XYE`: `vX = vY`; `vF` takes the bit shifted out; `vX` is doubled
/// modulo 256.
pub open spec fn shl_spec(s: CpuState, x: int, y: int) -> CpuState {
    let v1 = s.v.update(x, s.v[y]);
    let v2 = v1.update(0xF, (v1[x] / 128) as u8);
    CpuState { v: v2.update(x, ((v2[x] * 2) % 256) as u8), ..s }
}

/// `CXNN` once the random byte `rnd` is drawn: `vX = rnd & nn`.
pub open spec fn random_spec(s: CpuState, x: int, nn: u8, rnd: u8) -> CpuState {
    set_reg(s, x, rnd & nn)
}

/// `FX0A`: a pressed key is stored in `vX`; with none pressed the program
/// counter steps back onto this instruction, so that it runs again.
pub open spec fn get_key_spec(s: CpuState, x: int) -> CpuState {
    if s.key_pressed < 16 {
        set_reg(s, x, s.key_pressed)
    } else {
        CpuState { pc: (s.pc - 2) as usize, ..s }
    }
}

/// `FX33`: the hundreds, tens and units of `vX` go to `mem[I]`, `mem[I+1]`
/// and `mem[I+2]`.
pub open spec fn bcd_spec(s: CpuState, x: int) -> CpuState {
    let d = s.v[x];
    CpuState {
        mem: s.mem.update(s.i as int, d / 100).update(s.i + 1, (d / 10) % 10).update(
            s.i + 2,
            d % 10,
        ),
        ..s
    }
}

/// Bit `k` of a sprite byte, counted from the most significant bit.
pub open spec fn sprite_bit(b: u8, k: int) -> u8 {
    (b >> ((7 - k) as u8)) & 1u8
}

/// `DXYN`: the sprite of `n` bytes at `I` is written at (`vX`, `vY`); each
/// pixel of the sprite that falls on the screen takes the value of its bit,
/// pixels off the right or bottom edge are dropped.
pub open spec fn draw_spec(s: CpuState, xr: int, yr: int, n: int) -> CpuState {
    let xc = s.v[xr] as int;
    let yc = s.v[yr] as int;
    CpuState {
        screen: Seq::new(
            32,
            |r: int|
                Seq::new(
                    64,
                    |c: int|
                        if yc <= r < yc + n && xc <= c < xc + 8 {
                            sprite_bit(s.mem[s.i + (r - yc)], c - xc)
                        } else {
                            s.screen[r][c]
                        },
                ),
        ),
        ..s
    }
}

/// How many sprite rows `DXYN` reads from memory: none when the sprite
/// starts right of the screen, else those rows that fall on the screen.
pub open spec fn draw_rows(s: CpuState, xr: int, yr: int, n: int) -> int {
    let xc = s.v[xr] as int;
    let yc = s.v[yr] as int;
    if xc >= 64 || yc >= 32 || n <= 0 {
        0
    } else if yc + n <= 32 {
        n
    } else {
        32 - yc
    }
}

/// The sprite rows that `DXYN` reads lie in memory.
pub open spec fn draw_fits(s: CpuState, xr: int, yr: int, n: int) -> bool {
    draw_rows(s, xr, yr, n) == 0 || s.i + draw_rows(s, xr, yr, n) <= 0x1000
}

// ---------------------------------------------------------------------------
// The instruction groups

/// Group `8`: register arithmetic selected by the lowest nibble.
pub open spec fn alu_spec(s: CpuState, x: int, y: int, k: int) -> CpuState {
    if k == 0 {
        set_reg(s, x, s.v[y])
    } else if k == 1 {
        set_reg(s, x, s.v[x] | s.v[y])
    } else if k == 2 {
        set_reg(s, x, s.v[x] & s.v[y])
    } else if k == 3 {
        set_reg(s, x, s.v[x] ^ s.v[y])
    } else if k == 4 {
        add_spec(s, x, y)
    } else if k == 5 {
        sub_spec(s, x, y)
    } else if k == 6 {
        shr_spec(s, x, y)
    } else if k == 7 {
        subn_spec(s, x, y)
    } else {
        shl_spec(s, x, y)
    }
}

/// The lowest nibbles that group `8` knows.
pub open spec fn alu_known(k: int) -> bool {
    0 <= k <= 7 || k == 0xE
}

/// Group `F`: timers, index register and memory, selected by the lowest byte.
/// `FX29` points `I` at the font sprite of the digit in the low nibble of
/// `vX`: the sprites lie five bytes apart from `0x050` on.
pub open spec fn misc_spec(s: CpuState, x: int, nn: u8) -> CpuState {
    if nn == 0x07 {
        set_reg(s, x, s.dt)
    } else if nn == 0x15 {
        CpuState { dt: s.v[x], ..s }
    } else if nn == 0x18 {
        CpuState { st: s.v[x], ..s }
    } else if nn == 0x1E {
        CpuState { i: (s.i + s.v[x]) as usize, ..s }
    } else if nn == 0x0A {
        get_key_spec(s, x)
    } else if nn == 0x29 {
        CpuState { i: (0x50 + 5 * (s.v[x] % 16)) as usize, ..s }
    } else {
        bcd_spec(s, x)
    }
}

/// The lowest bytes that group `F` knows, each with what it needs to run.
pub open spec fn misc_fits(s: CpuState, x: int, nn: u8) -> bool {
    ||| nn == 0x07
    ||| nn == 0x15
    ||| nn == 0x18
    ||| nn == 0x1E && s.i + s.v[x] <= usize::MAX
    ||| nn == 0x0A
    ||| nn == 0x29
    ||| nn == 0x33 && s.i + 2 < 0x1000
}

/// `s` after the program counter has moved past the instruction.
pub open spec fn advance(s: CpuState) -> CpuState {
    CpuState { pc: (s.pc + 2) as usize, ..s }
}

/// The effect of executing `op` in `s`; `rnd` is the byte that `CXNN` draws
/// (no other instruction reads it).
pub open spec fn step(s: CpuState, op: u16, rnd: u8) -> CpuState {
    let t = advance(s);
    let x = op_x(op);
    let y = op_y(op);
    let nn = op_nn(op);
    let nnn = op_nnn(op);
    let k = op_kind(op);
    if k == 0 {
        if op == 0x00E0 {
            clear_screen_spec(t)
        } else {
            ret_spec(t)
        }
    } else if k == 1 {
        CpuState { pc: nnn, ..t }
    } else if k == 2 {
        call_spec(t, nnn)
    } else if k == 3 {
        skip_if(t, t.v[x] == nn)
    } else if k == 4 {
        skip_if(t, t.v[x] != nn)
    } else if k == 5 {
        skip_if(t, t.v[x] == t.v[y])
    } else if k == 6 {
        set_reg(t, x, nn)
    } else if k == 7 {
        set_reg(t, x, wrapping_add_u8(t.v[x], nn))
    } else if k == 8 {
        alu_spec(t, x, y, op_n(op))
    } else if k == 9 {
        skip_if(t, t.v[x] != t.v[y])
    } else if k == 0xA {
        CpuState { i: nnn, ..t }
    } else if k == 0xB {
        CpuState { pc: (nnn + t.v[0]) as usize, ..t }
    } else if k == 0xC {
        random_spec(t, x, nn, rnd)
    } else if k == 0xD {
        draw_spec(t, x, y, op_n(op))
    } else if k == 0xE {
        if nn == 0x9E {
            skip_if(t, t.v[x] == t.key_pressed)
        } else {
            skip_if(t, t.v[x] != t.key_pressed)
        }
    } else {
        misc_spec(t, x, nn)
    }
}

/// The inputs on which executing `op` in `s` is defined: the opcode is one
/// that the interpreter knows, and no stack slot, memory address or counter
/// that it touches runs out of range.
pub open spec fn can_execute(s: CpuState, op: u16) -> bool {
    let t = advance(s);
    let x = op_x(op);
    let y = op_y(op);
    let nn = op_nn(op);
    let k = op_kind(op);
    &&& s.pc + 2 <= usize::MAX
    &&& k == 0 ==> (op == 0x00E0 || (op == 0x00EE && 1 <= t.sp <= 16))
    &&& k == 2 ==> t.sp < 16
    &&& k == 3 ==> skip_fits(t, t.v[x] == nn)
    &&& k == 4 ==> skip_fits(t, t.v[x] != nn)
    &&& k == 5 ==> skip_fits(t, t.v[x] == t.v[y])
    &&& k == 8 ==> alu_known(op_n(op))
    &&& k == 9 ==> skip_fits(t, t.v[x] != t.v[y])
    &&& k == 0xD ==> draw_fits(t, x, y, op_n(op))
    &&& k == 0xE ==> (nn == 0x9E && skip_fits(t, t.v[x] == t.key_pressed)) || (nn == 0xA1
        && skip_fits(t, t.v[x] != t.key_pressed))
    &&& k == 0xF ==> misc_fits(t, x, nn)
}

/// The opcode fetched at the program counter: big-endian, high byte first.
pub open spec fn fetch_spec(s: CpuState) -> u16 {
    (s.mem[s.pc as int] * 256 + s.mem[s.pc + 1]) as u16
}

/// `s` with `rom` copied into memory from `0x200` on.
pub open spec fn load_spec(s: CpuState, rom: Seq<u8>) -> CpuState {
    CpuState {
        mem: Seq::new(
            0x1000,
            |a: int|
                if 0x200 <= a < 0x200 + rom.len() {
                    rom[a - 0x200]
                } else {
                    s.mem[a]
                },
        ),
        ..s
    }
}

/// The font sprite byte at offset `k` from the font base: row `k % 5` of
/// digit `k / 5`.
pub open spec fn font_byte(k: int) -> u8 {
    FONTS@[k / 5]@[k % 5]
}

/// The memory of a fresh machine: the fonts at `0x050`, zero elsewhere.
pub open spec fn initial_mem() -> Seq<u8> {
    Seq::new(
        0x1000,
        |a: int|
            if 0x50 <= a < 0xA0 {
                font_byte(a - 0x50)
            } else {
                0u8
            },
    )
}

/// A fresh machine: all zero but the fonts, the program counter at `0x200`
/// and no key pressed.
pub open spec fn initial_state() -> CpuState {
    CpuState {
        mem: initial_mem(),
        v: Seq::new(16, |r: int| 0u8),
        i: 0,
        screen: blank_screen(),
        st: 0,
        dt: 0,
        pc: 0x200,
        stack: Seq::new(16, |r: int| 0usize),
        sp: 0,
        keys: Seq::new(16, |r: int| false),
        key_pressed: 16,
    }
}

/// The shape every machine state has: memory of `0x1000` bytes, sixteen
/// registers, stack slots and keys, 32 rows of 64 pixels, and a stack pointer
/// no higher than the stack.
pub open spec fn well_formed(s: CpuState) -> bool {
    &&& s.mem.len() == 0x1000
    &&& s.v.len() == 16
    &&& s.stack.len() == 16
    &&& s.keys.len() == 16
    &&& s.screen.len() == 32
    &&& forall|r: int| 0 <= r < 32 ==> #[trigger] s.screen[r].len() == 64
    &&& s.sp <= 16
}

/// Every pixel is 0 or 1.
pub open spec fn pixels_binary(s: CpuState) -> bool {
    forall|r: int, c: int| 0 <= r < 32 && 0 <= c < 64 ==> #[trigger] s.screen[r][c] <= 1
}

} // verus!
