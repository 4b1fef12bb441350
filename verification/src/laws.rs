use vstd::prelude::*;
use crate::chip8::{CPU, FONTS};
use crate::model::{
    CpuState, can_execute, step, well_formed, pixels_binary, sprite_bit, op_kind, op_nnn, op_nn,
    op_x, op_y, op_n, initial_state, fetch_spec, clear_screen_spec, bcd_spec, shr_spec, shl_spec,
    draw_spec, load_spec, add_spec, sub_spec, subn_spec,
};

verus! {

/// The view of every machine has the shape of a machine state once its stack
/// pointer is within the stack.
pub proof fn lemma_view_well_formed(cpu: CPU)
    requires
        cpu.sp <= 16,
    ensures
        well_formed(cpu@),
{
}

/// A fresh machine is well formed and its screen is blank, hence binary.
pub proof fn lemma_initial_state()
    ensures
        well_formed(initial_state()),
        pixels_binary(initial_state()),
{
    let s = initial_state();
    assert forall|r: int| 0 <= r < 32 implies #[trigger] s.screen[r].len() == 64 by {}
}

/// A call (`2NNN`) followed by a return (`00EE`) resumes right after the
/// call: the program counter is the call's address plus 2, the stack pointer
/// is back where it was, and nothing else changes but the stack slot that
/// held the return address.
pub proof fn lemma_call_then_return(s: CpuState, call: u16, r1: u8, r2: u8)
    requires
        well_formed(s),
        op_kind(call) == 2,
        s.sp < 16,
        s.pc + 2 <= usize::MAX,
    ensures
        can_execute(s, call),
        step(s, call, r1).pc == op_nnn(call),
        can_execute(step(s, call, r1), 0x00EE),
        step(step(s, call, r1), 0x00EE, r2) =~~= (CpuState {
            pc: (s.pc + 2) as usize,
            stack: s.stack.update(s.sp as int, (s.pc + 2) as usize),
            ..s
        }),
{
    assert(op_nnn(call) < 0x1000);
}


/// Every instruction keeps the machine state well formed; in particular the
/// stack pointer never climbs past the sixteen stack slots.
pub proof fn lemma_step_well_formed(s: CpuState, op: u16, rnd: u8)
    requires
        well_formed(s),
        can_execute(s, op),
    ensures
        well_formed(step(s, op, rnd)),
{
    let t = step(s, op, rnd);
    assert forall|r: int| 0 <= r < 32 implies #[trigger] t.screen[r].len() == 64 by {}
}

/// Every instruction keeps each pixel at 0 or 1.
pub proof fn lemma_step_pixels_binary(s: CpuState, op: u16, rnd: u8)
    requires
        well_formed(s),
        pixels_binary(s),
        can_execute(s, op),
    ensures
        pixels_binary(step(s, op, rnd)),
{
    let t = step(s, op, rnd);
    assert forall|r: int, c: int| 0 <= r < 32 && 0 <= c < 64 implies #[trigger] t.screen[r][c] <= 1 by {
        if op_kind(op) == 0xD {
            let b = s.mem[s.i + (r - s.v[op_y(op)])];
            let k = c - s.v[op_x(op)];
            if 0 <= k < 8 {
                let sh = (7 - k) as u8;
                assert((b >> sh) & 1u8 <= 1) by (bit_vector);
                assert(sprite_bit(b, k) <= 1);
            }
        }
    }
}

/// `FX33` stores the decimal digits of `vX`: each is below ten, and the three
/// of them, hundreds first, make up `vX` again.
pub proof fn lemma_bcd_digits(s: CpuState, op: u16, rnd: u8)
    requires
        well_formed(s),
        op_kind(op) == 0xF,
        op_nn(op) == 0x33,
        can_execute(s, op),
    ensures
        ({
            let m = step(s, op, rnd).mem;
            let i = s.i as int;
            &&& m[i] < 10
            &&& m[i + 1] < 10
            &&& m[i + 2] < 10
            &&& 100 * m[i] + 10 * m[i + 1] + m[i + 2] == s.v[op_x(op)]
        }),
{
}

/// `FX0A` with no key pressed leaves the whole machine as it was, so that the
/// same instruction is fetched again: execution waits for a key.
pub proof fn lemma_wait_for_key(s: CpuState, op: u16, rnd: u8)
    requires
        op_kind(op) == 0xF,
        op_nn(op) == 0x0A,
        s.key_pressed >= 16,
        can_execute(s, op),
    ensures
        step(s, op, rnd) =~~= s,
{
}

/// `FX0A` with a key pressed stores that key in `vX` and moves on.
pub proof fn lemma_key_stored(s: CpuState, op: u16, rnd: u8)
    requires
        op_kind(op) == 0xF,
        op_nn(op) == 0x0A,
        s.key_pressed < 16,
        can_execute(s, op),
    ensures
        step(s, op, rnd) =~~= (CpuState {
            v: s.v.update(op_x(op), s.key_pressed),
            pc: (s.pc + 2) as usize,
            ..s
        }),
{
}

/// `8XY4` with `vF` clear beforehand computes the full sum: the carry in `vF`
/// and the low byte in `vX` together make `vX + vY`.
pub proof fn lemma_add_carry(s: CpuState, op: u16, rnd: u8)
    requires
        well_formed(s),
        op_kind(op) == 8,
        op_n(op) == 4,
        op_x(op) != 0xF,
        op_y(op) != 0xF,
        s.v[0xF] == 0,
        can_execute(s, op),
    ensures
        step(s, op, rnd).v[0xF] * 256 + step(s, op, rnd).v[op_x(op)] == s.v[op_x(op)]
            + s.v[op_y(op)],
{
}

/// `8XY5` sets `vF` exactly when no borrow occurs, and `vX + vY` gives the old
/// `vX` back modulo 256.
pub proof fn lemma_sub_borrow(s: CpuState, op: u16, rnd: u8)
    requires
        well_formed(s),
        op_kind(op) == 8,
        op_n(op) == 5,
        op_x(op) != 0xF,
        op_y(op) != 0xF,
        can_execute(s, op),
    ensures
        step(s, op, rnd).v[0xF] == (if s.v[op_x(op)] >= s.v[op_y(op)] { 1u8 } else { 0u8 }),
        (step(s, op, rnd).v[op_x(op)] + s.v[op_y(op)]) % 256 == s.v[op_x(op)],
{
}

/// `8XY4` followed by `8XY5` on the same registers gives `vX` back and leaves
/// every register but `vF` as it was.
pub proof fn lemma_add_then_sub(s: CpuState, add: u16, sub: u16, r1: u8, r2: u8)
    requires
        well_formed(s),
        op_kind(add) == 8,
        op_n(add) == 4,
        op_kind(sub) == 8,
        op_n(sub) == 5,
        op_x(add) == op_x(sub),
        op_y(add) == op_y(sub),
        op_x(add) != op_y(add),
        op_x(add) != 0xF,
        op_y(add) != 0xF,
        s.pc + 4 <= usize::MAX,
    ensures
        can_execute(s, add),
        can_execute(step(s, add, r1), sub),
        forall|k: int|
            0 <= k < 16 && k != 0xF ==> #[trigger] step(step(s, add, r1), sub, r2).v[k] == s.v[k],
{
}

/// `8XY6` halves `vY` into `vX` and keeps the bit shifted out in `vF`;
/// `8XYE` doubles `vY` into `vX` and keeps the bit shifted out in `vF`.
pub proof fn lemma_shifts(s: CpuState, op: u16, rnd: u8)
    requires
        well_formed(s),
        op_kind(op) == 8,
        op_n(op) == 6 || op_n(op) == 0xE,
        op_x(op) != 0xF,
        can_execute(s, op),
    ensures
        op_n(op) == 6 ==> 2 * step(s, op, rnd).v[op_x(op)] + step(s, op, rnd).v[0xF] == s.v[op_y(
            op,
        )],
        op_n(op) == 0xE ==> step(s, op, rnd).v[0xF] * 256 + step(s, op, rnd).v[op_x(op)] == 2
            * s.v[op_y(op)],
{
}

/// The conditional skips (`3XNN`, `4XNN`, `5XY0`, `9XY0`, `EX9E`, `EXA1`)
/// change nothing but the program counter, which moves on by 4 when their
/// condition holds and by 2 otherwise.
pub proof fn lemma_skip_distance(s: CpuState, op: u16, rnd: u8)
    requires
        op_kind(op) == 3 || op_kind(op) == 4 || op_kind(op) == 5 || op_kind(op) == 9 || op_kind(op)
            == 0xE,
        can_execute(s, op),
    ensures
        (CpuState { pc: s.pc, ..step(s, op, rnd) }) =~~= s,
        step(s, op, rnd).pc == s.pc + 2 || step(s, op, rnd).pc == s.pc + 4,
        op_kind(op) == 3 ==> (step(s, op, rnd).pc == s.pc + 4 <==> s.v[op_x(op)] == op_nn(op)),
        op_kind(op) == 4 ==> (step(s, op, rnd).pc == s.pc + 4 <==> s.v[op_x(op)] != op_nn(op)),
        op_kind(op) == 5 ==> (step(s, op, rnd).pc == s.pc + 4 <==> s.v[op_x(op)] == s.v[op_y(
            op,
        )]),
        op_kind(op) == 9 ==> (step(s, op, rnd).pc == s.pc + 4 <==> s.v[op_x(op)] != s.v[op_y(
            op,
        )]),
        op_kind(op) == 0xE ==> (step(s, op, rnd).pc == s.pc + 4 <==> ((op_nn(op) == 0x9E) == (
        s.v[op_x(op)] == s.key_pressed))),
{
}

/// `FX29` points `I` at the font sprite of the digit in the low nibble of
/// `vX`: the five bytes from there are that digit's row of `FONTS`, as a
/// fresh machine holds them.
pub proof fn lemma_font_index(s: CpuState, op: u16, rnd: u8)
    requires
        op_kind(op) == 0xF,
        op_nn(op) == 0x29,
        can_execute(s, op),
    ensures
        step(s, op, rnd).i == 0x50 + 5 * (s.v[op_x(op)] % 16),
        0x50 <= step(s, op, rnd).i <= 0x9B,
        forall|r: int|
            0 <= r < 5 ==> #[trigger] initial_state().mem[step(s, op, rnd).i + r] == FONTS@[(s.v[
                op_x(op)
            ] % 16) as int]@[r],
{
    let d = s.v[op_x(op)] % 16;
    assert forall|r: int| 0 <= r < 5 implies #[trigger] initial_state().mem[step(s, op, rnd).i + r]
        == FONTS@[d as int]@[r] by {
        let k = 5 * d + r;
        assert(k / 5 == d && k % 5 == r) by (nonlinear_arith)
            requires k == 5 * d + r, 0 <= r < 5, 0 <= d;
    }
}


/// `DXYN` draws each sprite row `r < n` at screen row `vY + r`, eight pixels
/// wide: column `vX + k` (for `k` from 0 to 7, bit 0 at `vX + 7`) takes bit
/// `7 - k` of `mem[I + r]`, as long as it lies on the screen; every pixel
/// outside those eight columns and `n` rows keeps its value.
pub proof fn lemma_draw_pixels(s: CpuState, xr: int, yr: int, n: int)
    requires
        0 <= xr < 16,
        0 <= yr < 16,
    ensures
        forall|row: int, col: int|
            0 <= row < 32 && 0 <= col < 64 && s.v[yr] <= row < s.v[yr] + n && s.v[xr] <= col
                < s.v[xr] + 8 ==> #[trigger] draw_spec(s, xr, yr, n).screen[row][col] == (s.mem[s.i
                + (row - s.v[yr])] >> ((7 - (col - s.v[xr])) as u8)) & 1u8,
        forall|row: int, col: int|
            0 <= row < 32 && 0 <= col < 64 && !(s.v[yr] <= row < s.v[yr] + n && s.v[xr] <= col
                < s.v[xr] + 8) ==> #[trigger] draw_spec(s, xr, yr, n).screen[row][col]
                == s.screen[row][col],
        forall|r: int|
            0 <= r < n && s.v[xr] + 7 < 64 && s.v[yr] + r < 32 ==> #[trigger] draw_spec(
                s,
                xr,
                yr,
                n,
            ).screen[s.v[yr] + r][s.v[xr] + 7] == s.mem[s.i + r] & 1u8,
        well_formed(s) ==> well_formed(draw_spec(s, xr, yr, n)),
{
    let t = draw_spec(s, xr, yr, n);
    assert forall|r: int|
        0 <= r < n && s.v[xr] + 7 < 64 && s.v[yr] + r < 32 implies #[trigger] t.screen[s.v[yr]
        + r][s.v[xr] + 7] == s.mem[s.i + r] & 1u8 by {
        let b = s.mem[s.i + r];
        assert((b >> 0u8) & 1u8 == b & 1u8) by (bit_vector);
    }
    assert forall|r: int| 0 <= r < 32 implies #[trigger] t.screen[r].len() == 64 by {}
}

/// Loading a program puts every one of its bytes, the last included, at
/// `0x200` onwards, and leaves the rest of memory and the whole machine as
/// it was.
pub proof fn lemma_load_bytes(s: CpuState, rom: Seq<u8>)
    requires
        rom.len() <= 0x1000 - 0x200,
    ensures
        forall|k: int| 0 <= k < rom.len() ==> load_spec(s, rom).mem[0x200 + k] == #[trigger] rom[k],
        forall|a: int|
            0 <= a < 0x1000 && !(0x200 <= a < 0x200 + rom.len()) ==> #[trigger] load_spec(
                s,
                rom,
            ).mem[a] == s.mem[a],
        load_spec(s, rom).mem.len() == 0x1000,
        (CpuState { mem: s.mem, ..load_spec(s, rom) }) =~~= s,
{
    assert forall|k: int| 0 <= k < rom.len() implies load_spec(s, rom).mem[0x200 + k]
        == #[trigger] rom[k] by {}
}

/// `8XY4`: whenever `vX + vY` exceeds 255, `vF` ends up 1, whatever it held;
/// otherwise a `vF` that is not `vX` keeps its value. `vX` (when it is not
/// `vF`) gets the sum modulo 256, and every other register keeps its value.
pub proof fn lemma_add_registers(s: CpuState, x: int, y: int)
    requires
        s.v.len() == 16,
        0 <= x < 16,
        0 <= y < 16,
    ensures
        s.v[x] + s.v[y] > 255 ==> add_spec(s, x, y).v[15] == 1,
        s.v[x] + s.v[y] <= 255 && x != 15 ==> add_spec(s, x, y).v[15] == s.v[15],
        x != 15 ==> add_spec(s, x, y).v[x] + (if s.v[x] + s.v[y] > 255 { 256int } else { 0 })
            == s.v[x] + s.v[y],
        forall|k: int| 0 <= k < 16 && k != x && k != 15 ==> #[trigger] add_spec(s, x, y).v[k] == s.v[k],
        (CpuState { v: s.v, ..add_spec(s, x, y) }) =~~= s,
{
}

/// `8XY5`: with neither register `vF`, `vF` is 1 exactly when the old `vX` is
/// at least the old `vY` (no borrow), and the new `vX` plus `vY` gives the old
/// `vX` back modulo 256.
pub proof fn lemma_sub_registers(s: CpuState, x: int, y: int)
    requires
        s.v.len() == 16,
        0 <= x < 15,
        0 <= y < 15,
    ensures
        (sub_spec(s, x, y).v[15] == 1) <==> s.v[x] >= s.v[y],
        sub_spec(s, x, y).v[15] <= 1,
        (sub_spec(s, x, y).v[x] + s.v[y]) % 256 == s.v[x],
        forall|k: int| 0 <= k < 15 && k != x ==> #[trigger] sub_spec(s, x, y).v[k] == s.v[k],
        (CpuState { v: s.v, ..sub_spec(s, x, y) }) =~~= s,
{
}

/// `8XY7`: with neither register `vF`, `vF` is 1 exactly when the old `vY` is
/// at least the old `vX` (no borrow; equal operands included), and the new
/// `vX` plus the old `vX` gives `vY` modulo 256.
pub proof fn lemma_subn_registers(s: CpuState, x: int, y: int)
    requires
        s.v.len() == 16,
        0 <= x < 15,
        0 <= y < 15,
    ensures
        (subn_spec(s, x, y).v[15] == 1) <==> s.v[y] >= s.v[x],
        subn_spec(s, x, y).v[15] <= 1,
        (subn_spec(s, x, y).v[x] + s.v[x]) % 256 == s.v[y],
        forall|k: int| 0 <= k < 15 && k != x ==> #[trigger] subn_spec(s, x, y).v[k] == s.v[k],
        (CpuState { v: s.v, ..subn_spec(s, x, y) }) =~~= s,
{
}

/// A fresh machine: every pixel off, every register, timer and stack slot
/// zero, `I` zero, no key down, no key pressed, the program counter at
/// `0x200`, the font sprites at `0x050` (digit `d`, row `r` at
/// `0x050 + 5 d + r`) and every other byte of memory zero.
pub proof fn lemma_fresh_machine()
    ensures
        forall|r: int, c: int| 0 <= r < 32 && 0 <= c < 64 ==> #[trigger] initial_state().screen[r][c] == 0,
        forall|k: int| 0 <= k < 16 ==> #[trigger] initial_state().v[k] == 0,
        forall|k: int| 0 <= k < 16 ==> #[trigger] initial_state().stack[k] == 0,
        forall|k: int| 0 <= k < 16 ==> !#[trigger] initial_state().keys[k],
        forall|d: int, r: int|
            0 <= d < 16 && 0 <= r < 5 ==> #[trigger] initial_state().mem[0x50 + 5 * d + r] == FONTS@[d]@[r],
        forall|a: int|
            0 <= a < 0x1000 && !(0x50 <= a < 0xA0) ==> #[trigger] initial_state().mem[a] == 0,
        initial_state().i == 0,
        initial_state().pc == 0x200,
        initial_state().sp == 0,
        initial_state().st == 0,
        initial_state().dt == 0,
        initial_state().key_pressed == 16,
        well_formed(initial_state()),
{
    lemma_initial_state();
    assert forall|d: int, r: int| 0 <= d < 16 && 0 <= r < 5 implies #[trigger] initial_state().mem[0x50
        + 5 * d + r] == FONTS@[d]@[r] by {
        let k = 5 * d + r;
        assert(k / 5 == d && k % 5 == r) by (nonlinear_arith)
            requires
                k == 5 * d + r,
                0 <= r < 5,
                0 <= d,
        ;
    }
}


/// `00E0` switches every pixel off and changes nothing else.
pub proof fn lemma_clear_screen(s: CpuState)
    ensures
        forall|r: int, c: int|
            0 <= r < 32 && 0 <= c < 64 ==> #[trigger] clear_screen_spec(s).screen[r][c] == 0,
        clear_screen_spec(s).screen.len() == 32,
        forall|r: int| 0 <= r < 32 ==> #[trigger] clear_screen_spec(s).screen[r].len() == 64,
        (CpuState { screen: s.screen, ..clear_screen_spec(s) }) =~~= s,
{
}

/// An opcode is fetched high byte first: its high byte is `mem[pc]` and its
/// low byte `mem[pc + 1]`.
pub proof fn lemma_fetch_big_endian(s: CpuState)
    ensures
        fetch_spec(s) / 256 == s.mem[s.pc as int],
        fetch_spec(s) % 256 == s.mem[s.pc + 1],
{
}

/// `FX33` writes the hundreds digit of `vX` at `I`, its tens digit at `I+1`
/// and its units digit at `I+2`: each is below ten and together they make up
/// `vX`; no other byte changes.
pub proof fn lemma_decimal_digits(s: CpuState, x: int)
    requires
        s.mem.len() == 0x1000,
        s.i + 2 < 0x1000,
    ensures
        ({
            let m = bcd_spec(s, x).mem;
            let i = s.i as int;
            &&& m[i] < 10
            &&& m[i + 1] < 10
            &&& m[i + 2] < 10
            &&& 100 * m[i] + 10 * m[i + 1] + m[i + 2] == s.v[x]
        }),
        forall|a: int|
            0 <= a < 0x1000 && !(s.i <= a < s.i + 3) ==> #[trigger] bcd_spec(s, x).mem[a] == s.mem[a],
        bcd_spec(s, x).mem.len() == 0x1000,
        (CpuState { mem: s.mem, ..bcd_spec(s, x) }) =~~= s,
{
}

/// `8XY6` with `vX` not `vF`: `vX` becomes half of `vY` and `vF` the bit
/// shifted out (`2 vX + vF == vY`); `8XYE`: `vX` becomes twice `vY` modulo
/// 256 and `vF` the bit shifted out (`256 vF + vX == 2 vY`). No other
/// register changes.
pub proof fn lemma_shift_registers(s: CpuState, x: int, y: int)
    requires
        s.v.len() == 16,
        0 <= x < 15,
        0 <= y < 16,
    ensures
        2 * shr_spec(s, x, y).v[x] + shr_spec(s, x, y).v[15] == s.v[y],
        shr_spec(s, x, y).v[15] <= 1,
        256 * shl_spec(s, x, y).v[15] + shl_spec(s, x, y).v[x] == 2 * s.v[y],
        shl_spec(s, x, y).v[15] <= 1,
        forall|k: int| 0 <= k < 15 && k != x ==> #[trigger] shr_spec(s, x, y).v[k] == s.v[k],
        forall|k: int| 0 <= k < 15 && k != x ==> #[trigger] shl_spec(s, x, y).v[k] == s.v[k],
{
}

/// The register and address instructions: `1NNN` jumps to `NNN`, `6XNN`
/// loads `NN`, `7XNN` adds `NN` modulo 256 without touching `vF`, `8XY0` to
/// `8XY3` copy, or, and and xor `vY` into `vX`, `ANNN` loads `I`, `BNNN`
/// jumps to `NNN + v0`, `FX07`/`FX15`/`FX18` move between `vX` and the
/// timers, and `FX1E` adds `vX` to `I`. All but the jumps move the program
/// counter on by 2.
pub proof fn lemma_register_instructions(s: CpuState, op: u16, rnd: u8)
    requires
        well_formed(s),
        can_execute(s, op),
    ensures
        ({
            let t = step(s, op, rnd);
            let x = op_x(op);
            let y = op_y(op);
            &&& op_kind(op) == 1 ==> t.pc == op % 0x1000
            &&& op_kind(op) == 6 ==> t.v[x] == op % 256 && t.pc == s.pc + 2
            &&& op_kind(op) == 7 ==> t.v[x] == (s.v[x] + op % 256) % 256 && t.pc == s.pc + 2
            &&& op_kind(op) == 7 && x != 15 ==> t.v[15] == s.v[15]
            &&& op_kind(op) == 8 && op_n(op) == 0 ==> t.v[x] == s.v[y]
            &&& op_kind(op) == 8 && op_n(op) == 1 ==> t.v[x] == s.v[x] | s.v[y]
            &&& op_kind(op) == 8 && op_n(op) == 2 ==> t.v[x] == s.v[x] & s.v[y]
            &&& op_kind(op) == 8 && op_n(op) == 3 ==> t.v[x] == s.v[x] ^ s.v[y]
            &&& op_kind(op) == 0xA ==> t.i == op % 0x1000 && t.pc == s.pc + 2
            &&& op_kind(op) == 0xB ==> t.pc == op % 0x1000 + s.v[0]
            &&& op_kind(op) == 0xF && op_nn(op) == 0x07 ==> t.v[x] == s.dt
            &&& op_kind(op) == 0xF && op_nn(op) == 0x15 ==> t.dt == s.v[x]
            &&& op_kind(op) == 0xF && op_nn(op) == 0x18 ==> t.st == s.v[x]
            &&& op_kind(op) == 0xF && op_nn(op) == 0x1E ==> t.i == s.i + s.v[x]
        }),
{
}

} // verus!
