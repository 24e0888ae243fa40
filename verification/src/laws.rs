//! The laws of the instruction set, stated once and proved against the step
//! function: arithmetic flag behaviour, shift flags, call/return pairing,
//! the wait-for-key pseudo-block, and the shape of the power-on state.

use vstd::prelude::*;
use crate::view::{EmuView, wf_view, font_seq, power_on};
use crate::machine::EmuError;
use crate::step::{spec_execute, spec_tick, first_key};
use crate::draw::{draw_sprite, sprite_touches, lemma_draw_sprite_cells};

verus! {

/// Law: construction and reset agree because both yield exactly `power_on()`,
/// whose shape this states: font in the lowest 80 bytes, program region
/// zeroed, program counter at 0x200, empty stack, everything else cleared.
pub proof fn lemma_power_on_shape()
    ensures
        wf_view(power_on()),
        power_on().pc == 0x200,
        power_on().sp == 0,
        power_on().i_reg == 0,
        power_on().dt == 0,
        power_on().st == 0,
        forall|j: int| 0 <= j < 80 ==> power_on().ram[j] == font_seq()[j],
        forall|j: int| 80 <= j < 4096 ==> power_on().ram[j] == 0u8,
        forall|j: int| 0 <= j < 2048 ==> !power_on().screen[j],
        forall|j: int| 0 <= j < 16 ==> power_on().v_regs[j] == 0u8,
        forall|j: int| 0 <= j < 16 ==> !power_on().keys[j],
{
}

/// Law: add-with-carry. For every state and every 0x8XY4 instruction word,
/// register X receives (VX + VY) mod 256 and the flag register receives 1
/// exactly when the true sum reaches 256.
pub proof fn lemma_add_with_carry(s: EmuView, op: u16, rnd: u8)
    requires
        wf_view(s),
        (op >> 12) & 0xF == 0x8,
        op & 0xF == 0x4,
    ensures
        ({
            let x = (((op >> 8) & 0xF)) as int;
            let y = (((op >> 4) & 0xF)) as int;
            let a = s.v_regs[x];
            let b = s.v_regs[y];
            let r = spec_execute(s, op, rnd);
            r.1 == Ok::<(), EmuError>(())
                && r.0.v_regs == s.v_regs
                    .update(x, ((a + b) % 256) as u8)
                    .update(15, if a + b >= 256 { 1u8 } else { 0u8 })
                && r.0.v_regs[15] == (if a + b >= 256 { 1u8 } else { 0u8 })
                && (x != 15 ==> r.0.v_regs[x] == ((a + b) % 256) as u8)
        }),
{
    assert((op >> 8) & 0xF < 16 && (op >> 4) & 0xF < 16) by (bit_vector);
}

/// Law: subtract-with-borrow. For every state and every 0x8XY5 instruction
/// word, register X receives (VX - VY) mod 256 and the flag register receives
/// 1 exactly when no borrow occurs, that is when VX >= VY.
pub proof fn lemma_sub_with_borrow(s: EmuView, op: u16, rnd: u8)
    requires
        wf_view(s),
        (op >> 12) & 0xF == 0x8,
        op & 0xF == 0x5,
    ensures
        ({
            let x = (((op >> 8) & 0xF)) as int;
            let y = (((op >> 4) & 0xF)) as int;
            let a = s.v_regs[x];
            let b = s.v_regs[y];
            let r = spec_execute(s, op, rnd);
            r.1 == Ok::<(), EmuError>(())
                && r.0.v_regs == s.v_regs
                    .update(x, ((a - b + 256) % 256) as u8)
                    .update(15, if a >= b { 1u8 } else { 0u8 })
                && r.0.v_regs[15] == (if a >= b { 1u8 } else { 0u8 })
                && (x != 15 ==> r.0.v_regs[x] == ((a - b + 256) % 256) as u8)
        }),
{
    assert((op >> 8) & 0xF < 16 && (op >> 4) & 0xF < 16) by (bit_vector);
}

/// Law: shift-right stores the bit shifted out (original bit 0) in the flag
/// register and halves register X. Nothing here depends on the Y nibble of
/// the instruction word: the second register operand is never consulted.
pub proof fn lemma_shift_right_flag(s: EmuView, op: u16, rnd: u8)
    requires
        wf_view(s),
        (op >> 12) & 0xF == 0x8,
        op & 0xF == 0x6,
    ensures
        ({
            let x = (((op >> 8) & 0xF)) as int;
            let a = s.v_regs[x];
            let r = spec_execute(s, op, rnd);
            r.1 == Ok::<(), EmuError>(())
                && r.0.v_regs == s.v_regs.update(x, a / 2).update(15, (a % 2) as u8)
                && r.0.v_regs[15] == a % 2
                && (x != 15 ==> r.0.v_regs[x] == a / 2)
        }),
{
    assert((op >> 8) & 0xF < 16 && (op >> 4) & 0xF < 16) by (bit_vector);
    let x = (((op >> 8) & 0xF)) as int;
    let a = s.v_regs[x];
    assert(a >> 1 == a / 2) by (bit_vector);
    assert(a & 1 == a % 2) by (bit_vector);
}

/// Law: shift-left stores the bit shifted out (original bit 7) in the flag
/// register and doubles register X modulo 256. Nothing here depends on the Y
/// nibble of the instruction word: the second register operand is never
/// consulted.
pub proof fn lemma_shift_left_flag(s: EmuView, op: u16, rnd: u8)
    requires
        wf_view(s),
        (op >> 12) & 0xF == 0x8,
        op & 0xF == 0xE,
    ensures
        ({
            let x = (((op >> 8) & 0xF)) as int;
            let a = s.v_regs[x];
            let r = spec_execute(s, op, rnd);
            r.1 == Ok::<(), EmuError>(())
                && r.0.v_regs == s.v_regs
                    .update(x, ((a * 2) % 256) as u8)
                    .update(15, (a / 128) as u8)
                && r.0.v_regs[15] == a / 128
                && (x != 15 ==> r.0.v_regs[x] == ((a * 2) % 256) as u8)
        }),
{
    assert((op >> 8) & 0xF < 16 && (op >> 4) & 0xF < 16) by (bit_vector);
    let x = (((op >> 8) & 0xF)) as int;
    let a = s.v_regs[x];
    assert(a << 1 == ((a * 2) % 256) as u8) by (bit_vector);
    assert((a >> 7) & 1 == a / 128) by (bit_vector);
}

/// Only the 0xCXNN instruction consults the random byte: for every other
/// instruction word the step is deterministic, so what `spec_execute` yields
/// for one byte it yields for all.
pub proof fn lemma_execute_ignores_rnd(s: EmuView, op: u16, rnd1: u8, rnd2: u8)
    requires
        (op >> 12) & 0xF != 0xC,
    ensures
        spec_execute(s, op, rnd1) == spec_execute(s, op, rnd2),
{
}

/// Law: a call followed by a return restores the program counter to the
/// instruction immediately after the call (the fetch that preceded the call
/// has already advanced the counter past it) and leaves the stack depth as it
/// was.
pub proof fn lemma_call_then_return(s: EmuView, op: u16, rnd1: u8, rnd2: u8)
    requires
        wf_view(s),
        (op >> 12) & 0xF == 0x2,
        s.sp < 16,
    ensures
        ({
            let called = spec_execute(s, op, rnd1);
            let returned = spec_execute(called.0, 0x00EE, rnd2);
            called.1 == Ok::<(), EmuError>(())
                && called.0.pc == (op & 0xFFF)
                && returned.1 == Ok::<(), EmuError>(())
                && returned.0.pc == s.pc
                && returned.0.sp == s.sp
                && returned.0.ram == s.ram
                && returned.0.v_regs == s.v_regs
        }),
{
    assert((0x00EEu16 >> 12) & 0xF == 0 && (0x00EEu16 >> 8) & 0xF == 0
        && (0x00EEu16 >> 4) & 0xF == 0xE && 0x00EEu16 & 0xF == 0xE) by (bit_vector);
}

/// Law: drawing the same sprite at the same position twice returns every
/// pixel to its original state, since each touched pixel is toggled exactly
/// twice. The second draw's collision flag is set exactly when the sprite
/// touches a pixel the first draw had turned on; in particular, after a
/// first draw that reported no collision, the second reports one exactly
/// when the sprite touches any pixel at all.
pub proof fn lemma_draw_twice_restores(
    screen: Seq<bool>, ram: Seq<u8>, i: int, x0: int, y0: int, rows: int,
)
    requires
        screen.len() == 2048,
        0 <= x0,
        0 <= y0,
        0 <= rows <= 32,
    ensures
        ({
            let first = draw_sprite(screen, ram, i, x0, y0, rows);
            let second = draw_sprite(first.0, ram, i, x0, y0, rows);
            second.0 == screen
                && second.1 == (exists|idx: int| 0 <= idx < 2048
                    && #[trigger] sprite_touches(ram, i, x0, y0, rows, idx) && !screen[idx])
                && (!first.1 ==> second.1 == (exists|idx: int| 0 <= idx < 2048
                    && #[trigger] sprite_touches(ram, i, x0, y0, rows, idx)))
        }),
{
    let first = draw_sprite(screen, ram, i, x0, y0, rows);
    let second = draw_sprite(first.0, ram, i, x0, y0, rows);
    lemma_draw_sprite_cells(screen, ram, i, x0, y0, rows);
    lemma_draw_sprite_cells(first.0, ram, i, x0, y0, rows);
    assert(second.0 =~= screen);
    if second.1 {
        let w = choose|idx: int| 0 <= idx < 2048
            && #[trigger] sprite_touches(ram, i, x0, y0, rows, idx) && first.0[idx];
        assert(first.0[w] == !screen[w]);
        assert(exists|idx: int| 0 <= idx < 2048
            && #[trigger] sprite_touches(ram, i, x0, y0, rows, idx) && !screen[idx]);
    }
    if exists|idx: int| 0 <= idx < 2048
        && #[trigger] sprite_touches(ram, i, x0, y0, rows, idx) && !screen[idx] {
        let w = choose|idx: int| 0 <= idx < 2048
            && #[trigger] sprite_touches(ram, i, x0, y0, rows, idx) && !screen[idx];
        assert(first.0[w]);
        assert(exists|idx: int| 0 <= idx < 2048
            && #[trigger] sprite_touches(ram, i, x0, y0, rows, idx) && first.0[idx]);
    }
    if !first.1 {
        if exists|idx: int| 0 <= idx < 2048
            && #[trigger] sprite_touches(ram, i, x0, y0, rows, idx) {
            let w = choose|idx: int| 0 <= idx < 2048
                && #[trigger] sprite_touches(ram, i, x0, y0, rows, idx);
            assert(!screen[w]);
            assert(exists|idx: int| 0 <= idx < 2048
                && #[trigger] sprite_touches(ram, i, x0, y0, rows, idx) && !screen[idx]);
        }
    }
}

/// The lowest pressed key, characterized: scanning from `k` yields the least
/// pressed index at or above `k`, and yields nothing exactly when no key at
/// or above `k` is pressed.
pub proof fn lemma_first_key(keys: Seq<bool>, k: int)
    requires
        keys.len() == 16,
        0 <= k <= 16,
    ensures
        (first_key(keys, k) matches Some(i) ==> k <= i < 16 && keys[i as int]
            && (forall|j: int| k <= j < i ==> !keys[j])),
        (first_key(keys, k) is None ==> forall|j: int| k <= j < 16 ==> !keys[j]),
    decreases 16 - k,
{
    if k < 16 && !keys[k] {
        lemma_first_key(keys, k + 1);
    }
}

/// Law: the wait-for-key instruction with no key pressed leaves the whole
/// machine state unchanged, so repeated steps re-fetch the same instruction.
pub proof fn lemma_wait_for_key_blocks(s: EmuView, rnd: u8)
    requires
        wf_view(s),
        s.pc <= 4094,
        s.ram[s.pc as int] >> 4 == 0xF,
        s.ram[s.pc as int + 1] == 0x0A,
        forall|k: int| 0 <= k < 16 ==> !s.keys[k],
    ensures
        spec_tick(s, rnd).1 == Ok::<(), EmuError>(()),
        spec_tick(s, rnd).0 == s,
{
    let h = s.ram[s.pc as int];
    let l = s.ram[s.pc as int + 1];
    assert(((h as u16 * 256 + l as u16) as u16 >> 12) & 0xF == 0xF
        && ((h as u16 * 256 + l as u16) as u16 >> 4) & 0xF == 0x0
        && (h as u16 * 256 + l as u16) as u16 & 0xF == 0xA) by (bit_vector)
        requires
            h >> 4 == 0xF,
            l == 0x0A,
    ;
    lemma_first_key(s.keys, 0);
    assert(spec_tick(s, rnd).0 =~= s);
}

/// Law: once a key is pressed, the wait-for-key instruction lets the program
/// counter advance past it and stores the lowest-indexed pressed key in the
/// target register.
pub proof fn lemma_wait_for_key_proceeds(s: EmuView, rnd: u8)
    requires
        wf_view(s),
        s.pc <= 4094,
        s.ram[s.pc as int] >> 4 == 0xF,
        s.ram[s.pc as int + 1] == 0x0A,
        exists|k: int| 0 <= k < 16 && s.keys[k],
    ensures
        spec_tick(s, rnd).1 == Ok::<(), EmuError>(()),
        spec_tick(s, rnd).0.pc == s.pc + 2,
        ({
            let x = ((s.ram[s.pc as int]) & 0xF) as int;
            first_key(s.keys, 0) matches Some(k)
                && s.keys[k as int]
                && (forall|j: int| 0 <= j < k ==> !s.keys[j])
                && spec_tick(s, rnd).0.v_regs == s.v_regs.update(x, first_key(s.keys, 0)->Some_0)
        }),
{
    let h = s.ram[s.pc as int];
    let l = s.ram[s.pc as int + 1];
    assert(((h as u16 * 256 + l as u16) as u16 >> 12) & 0xF == 0xF
        && ((h as u16 * 256 + l as u16) as u16 >> 4) & 0xF == 0x0
        && (h as u16 * 256 + l as u16) as u16 & 0xF == 0xA
        && ((h as u16 * 256 + l as u16) as u16 >> 8) & 0xF == (h & 0xF) as u16) by (bit_vector)
        requires
            h >> 4 == 0xF,
            l == 0x0A,
    ;
    lemma_first_key(s.keys, 0);
    if first_key(s.keys, 0) is None {
        let k = choose|k: int| 0 <= k < 16 && s.keys[k];
        assert(!s.keys[k]);
    }
}

} // verus!
