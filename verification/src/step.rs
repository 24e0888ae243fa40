//! The execution engine: instruction fetch, the decode table over the four
//! nibbles of the instruction word, and the per-instruction semantics, given
//! once as a specification-level step function and once as verified code.

use vstd::prelude::*;
use crate::view::{EmuView, blank_screen};
use crate::machine::{Emu, EmuError, falses};
use crate::draw::draw_sprite;

verus! {

/// The lowest-indexed pressed key at or above index `k`, if any.
pub open spec fn first_key(keys: Seq<bool>, k: int) -> Option<u8>
    decreases 16 - k,
{
    if k < 0 || k >= 16 {
        None
    } else if keys[k] {
        Some(k as u8)
    } else {
        first_key(keys, k + 1)
    }
}

/// Memory after registers 0 through `x` have been stored at address `i`.
pub open spec fn stored_regs(ram: Seq<u8>, regs: Seq<u8>, i: int, x: int) -> Seq<u8> {
    Seq::new(ram.len(), |j: int| if i <= j <= i + x { regs[j - i] } else { ram[j] })
}

/// Registers after registers 0 through `x` have been loaded from address `i`.
pub open spec fn loaded_regs(ram: Seq<u8>, regs: Seq<u8>, i: int, x: int) -> Seq<u8> {
    Seq::new(regs.len(), |j: int| if 0 <= j <= x { ram[i + j] } else { regs[j] })
}

/// The machine state and outcome after executing one already-fetched
/// instruction word from state `s`. The program counter of `s` has already
/// been advanced past the instruction. `rnd` is the byte the random source
/// produced, used only by the 0xCXNN instruction. On an error outcome the
/// state is returned unchanged.
pub open spec fn spec_execute(s: EmuView, op: u16, rnd: u8) -> (EmuView, Result<(), EmuError>) {
    let d1 = (op >> 12) & 0xF;
    let d2 = (op >> 8) & 0xF;
    let d3 = (op >> 4) & 0xF;
    let d4 = op & 0xF;
    let nnn = op & 0xFFF;
    let nn = (op & 0xFF) as u8;
    let x = d2 as int;
    let y = d3 as int;
    if d1 == 0x0 {
        if d2 == 0 && d3 == 0 && d4 == 0 {
            // 0x0000: documented no-op
            (s, Ok(()))
        } else if d2 == 0 && d3 == 0xE && d4 == 0 {
            // 0x00E0: clear the display
            (EmuView { screen: blank_screen(), ..s }, Ok(()))
        } else if d2 == 0 && d3 == 0xE && d4 == 0xE {
            // 0x00EE: return from subroutine
            if s.sp == 0 {
                (s, Err(EmuError::StackUnderflow))
            } else {
                (EmuView { pc: s.stack[s.sp - 1], sp: (s.sp - 1) as u16, ..s }, Ok(()))
            }
        } else {
            (s, Err(EmuError::UnrecognizedOpcode(op)))
        }
    } else if d1 == 0x1 {
        // 0x1NNN: jump
        (EmuView { pc: nnn, ..s }, Ok(()))
    } else if d1 == 0x2 {
        // 0x2NNN: call
        if s.sp >= 16 {
            (s, Err(EmuError::StackOverflow))
        } else {
            (EmuView {
                stack: s.stack.update(s.sp as int, s.pc),
                sp: (s.sp + 1) as u16,
                pc: nnn,
                ..s
            }, Ok(()))
        }
    } else if d1 == 0x3 {
        // 0x3XNN: skip if VX == NN
        (if s.v_regs[x] == nn { EmuView { pc: (s.pc + 2) as u16, ..s } } else { s }, Ok(()))
    } else if d1 == 0x4 {
        // 0x4XNN: skip if VX != NN
        (if s.v_regs[x] != nn { EmuView { pc: (s.pc + 2) as u16, ..s } } else { s }, Ok(()))
    } else if d1 == 0x5 && d4 == 0x0 {
        // 0x5XY0: skip if VX == VY
        (if s.v_regs[x] == s.v_regs[y] { EmuView { pc: (s.pc + 2) as u16, ..s } } else { s },
            Ok(()))
    } else if d1 == 0x6 {
        // 0x6XNN: VX = NN
        (EmuView { v_regs: s.v_regs.update(x, nn), ..s }, Ok(()))
    } else if d1 == 0x7 {
        // 0x7XNN: VX += NN, wrapping, no flag
        (EmuView { v_regs: s.v_regs.update(x, ((s.v_regs[x] + nn) % 256) as u8), ..s }, Ok(()))
    } else if d1 == 0x8 && d4 == 0x0 {
        // 0x8XY0: VX = VY
        (EmuView { v_regs: s.v_regs.update(x, s.v_regs[y]), ..s }, Ok(()))
    } else if d1 == 0x8 && d4 == 0x1 {
        // 0x8XY1: VX |= VY
        (EmuView { v_regs: s.v_regs.update(x, s.v_regs[x] | s.v_regs[y]), ..s }, Ok(()))
    } else if d1 == 0x8 && d4 == 0x2 {
        // 0x8XY2: VX &= VY
        (EmuView { v_regs: s.v_regs.update(x, s.v_regs[x] & s.v_regs[y]), ..s }, Ok(()))
    } else if d1 == 0x8 && d4 == 0x3 {
        // 0x8XY3: VX ^= VY
        (EmuView { v_regs: s.v_regs.update(x, s.v_regs[x] ^ s.v_regs[y]), ..s }, Ok(()))
    } else if d1 == 0x8 && d4 == 0x4 {
        // 0x8XY4: VX += VY; VF = 1 exactly when the true sum reaches 256
        (EmuView {
            v_regs: s.v_regs
                .update(x, ((s.v_regs[x] + s.v_regs[y]) % 256) as u8)
                .update(15, if s.v_regs[x] + s.v_regs[y] >= 256 { 1u8 } else { 0u8 }),
            ..s
        }, Ok(()))
    } else if d1 == 0x8 && d4 == 0x5 {
        // 0x8XY5: VX -= VY; VF = 1 exactly when no borrow (VX >= VY)
        (EmuView {
            v_regs: s.v_regs
                .update(x, ((s.v_regs[x] - s.v_regs[y] + 256) % 256) as u8)
                .update(15, if s.v_regs[x] >= s.v_regs[y] { 1u8 } else { 0u8 }),
            ..s
        }, Ok(()))
    } else if d1 == 0x8 && d4 == 0x6 {
        // 0x8XY6: VX >>= 1; VF = the bit shifted out; VY is not consulted
        (EmuView {
            v_regs: s.v_regs.update(x, s.v_regs[x] >> 1).update(15, s.v_regs[x] & 1),
            ..s
        }, Ok(()))
    } else if d1 == 0x8 && d4 == 0x7 {
        // 0x8XY7: VX = VY - VX; VF = 1 exactly when no borrow (VY >= VX)
        (EmuView {
            v_regs: s.v_regs
                .update(x, ((s.v_regs[y] - s.v_regs[x] + 256) % 256) as u8)
                .update(15, if s.v_regs[y] >= s.v_regs[x] { 1u8 } else { 0u8 }),
            ..s
        }, Ok(()))
    } else if d1 == 0x8 && d4 == 0xE {
        // 0x8XYE: VX <<= 1; VF = the bit shifted out; VY is not consulted
        (EmuView {
            v_regs: s.v_regs.update(x, s.v_regs[x] << 1).update(15, (s.v_regs[x] >> 7) & 1),
            ..s
        }, Ok(()))
    } else if d1 == 0x9 && d4 == 0x0 {
        // 0x9XY0: skip if VX != VY
        (if s.v_regs[x] != s.v_regs[y] { EmuView { pc: (s.pc + 2) as u16, ..s } } else { s },
            Ok(()))
    } else if d1 == 0xA {
        // 0xANNN: I = NNN
        (EmuView { i_reg: nnn, ..s }, Ok(()))
    } else if d1 == 0xB {
        // 0xBNNN: jump to V0 + NNN
        (EmuView { pc: (s.v_regs[0] + nnn) as u16, ..s }, Ok(()))
    } else if d1 == 0xC {
        // 0xCXNN: VX = random byte masked with NN
        (EmuView { v_regs: s.v_regs.update(x, rnd & nn), ..s }, Ok(()))
    } else if d1 == 0xD {
        // 0xDXYN: draw N-row sprite from memory at I at (VX, VY), wrapping;
        // VF = 1 exactly when a set pixel was toggled off
        if s.i_reg + d4 > 4096 {
            (s, Err(EmuError::MemoryOutOfRange))
        } else {
            let dr = draw_sprite(
                s.screen, s.ram, s.i_reg as int, s.v_regs[x] as int, s.v_regs[y] as int,
                d4 as int,
            );
            (EmuView {
                screen: dr.0,
                v_regs: s.v_regs.update(15, if dr.1 { 1u8 } else { 0u8 }),
                ..s
            }, Ok(()))
        }
    } else if d1 == 0xE && d3 == 0x9 && d4 == 0xE {
        // 0xEX9E: skip if the key numbered VX is pressed
        if s.v_regs[x] >= 16 {
            (s, Err(EmuError::KeyOutOfRange))
        } else {
            (if s.keys[s.v_regs[x] as int] { EmuView { pc: (s.pc + 2) as u16, ..s } } else { s },
                Ok(()))
        }
    } else if d1 == 0xE && d3 == 0xA && d4 == 0x1 {
        // 0xEXA1: skip if the key numbered VX is not pressed
        if s.v_regs[x] >= 16 {
            (s, Err(EmuError::KeyOutOfRange))
        } else {
            (if !s.keys[s.v_regs[x] as int] { EmuView { pc: (s.pc + 2) as u16, ..s } } else { s },
                Ok(()))
        }
    } else if d1 == 0xF && d3 == 0x0 && d4 == 0x7 {
        // 0xFX07: VX = delay timer
        (EmuView { v_regs: s.v_regs.update(x, s.dt), ..s }, Ok(()))
    } else if d1 == 0xF && d3 == 0x0 && d4 == 0xA {
        // 0xFX0A: wait for a key; with none pressed, rewind the program
        // counter so the same instruction re-executes next step
        (match first_key(s.keys, 0) {
            Some(k) => EmuView { v_regs: s.v_regs.update(x, k), ..s },
            None => EmuView { pc: (s.pc - 2) as u16, ..s },
        }, Ok(()))
    } else if d1 == 0xF && d3 == 0x1 && d4 == 0x5 {
        // 0xFX15: delay timer = VX
        (EmuView { dt: s.v_regs[x], ..s }, Ok(()))
    } else if d1 == 0xF && d3 == 0x1 && d4 == 0x8 {
        // 0xFX18: sound timer = VX
        (EmuView { st: s.v_regs[x], ..s }, Ok(()))
    } else if d1 == 0xF && d3 == 0x1 && d4 == 0xE {
        // 0xFX1E: I += VX, wrapping at 16 bits
        (EmuView { i_reg: ((s.i_reg + s.v_regs[x]) % 0x10000) as u16, ..s }, Ok(()))
    } else if d1 == 0xF && d3 == 0x2 && d4 == 0x9 {
        // 0xFX29: I = font glyph offset of the low nibble of VX (5 bytes each)
        (EmuView { i_reg: ((s.v_regs[x] & 0xF) * 5) as u16, ..s }, Ok(()))
    } else if d1 == 0xF && d3 == 0x3 && d4 == 0x3 {
        // 0xFX33: decimal digits of VX stored at I, I+1, I+2
        if s.i_reg + 2 > 4095 {
            (s, Err(EmuError::MemoryOutOfRange))
        } else {
            (EmuView {
                ram: s.ram
                    .update(s.i_reg as int, s.v_regs[x] / 100)
                    .update(s.i_reg as int + 1, (s.v_regs[x] / 10) % 10)
                    .update(s.i_reg as int + 2, s.v_regs[x] % 10),
                ..s
            }, Ok(()))
        }
    } else if d1 == 0xF && d3 == 0x5 && d4 == 0x5 {
        // 0xFX55: store V0..=VX at I
        if s.i_reg + d2 > 4095 {
            (s, Err(EmuError::MemoryOutOfRange))
        } else {
            (EmuView { ram: stored_regs(s.ram, s.v_regs, s.i_reg as int, x), ..s }, Ok(()))
        }
    } else if d1 == 0xF && d3 == 0x6 && d4 == 0x5 {
        // 0xFX65: load V0..=VX from I
        if s.i_reg + d2 > 4095 {
            (s, Err(EmuError::MemoryOutOfRange))
        } else {
            (EmuView { v_regs: loaded_regs(s.ram, s.v_regs, s.i_reg as int, x), ..s }, Ok(()))
        }
    } else {
        (s, Err(EmuError::UnrecognizedOpcode(op)))
    }
}

/// The machine state and outcome of one full step from state `s`: fetch the
/// instruction word at the program counter (big-endian), advance the counter
/// by 2, and execute. A program counter that does not address two bytes of
/// memory is a fault that leaves the state unchanged.
pub open spec fn spec_tick(s: EmuView, rnd: u8) -> (EmuView, Result<(), EmuError>) {
    if s.pc > 4094 {
        (s, Err(EmuError::ProgramCounterOutOfRange))
    } else {
        let op = (s.ram[s.pc as int] * 256 + s.ram[s.pc as int + 1]) as u16;
        spec_execute(EmuView { pc: (s.pc + 2) as u16, ..s }, op, rnd)
    }
}

/// Relies on rand::random: draws one byte from the thread-local generator.
/// Nothing is promised of the value; callers state what holds of every byte.
#[verifier::external_body]
fn random_byte() -> u8 {
    rand::random::<u8>()
}

impl Emu {
    /// Reads the two bytes at the program counter big-endian and advances the
    /// counter past them.
    fn fetch(&mut self) -> (op: u16)
        requires
            old(self).wf(),
            old(self)@.pc <= 4094,
        ensures
            final(self).wf(),
            final(self)@ == (EmuView { pc: (old(self)@.pc + 2) as u16, ..old(self)@ }),
            op == (old(self)@.ram[old(self)@.pc as int] * 256
                + old(self)@.ram[old(self)@.pc as int + 1]) as u16,
    {
        let hi = self.ram[self.pc as usize];
        let lo = self.ram[self.pc as usize + 1];
        let op = ((hi as u16) << 8) | (lo as u16);
        proof {
            assert(((hi as u16) << 8) | (lo as u16) == hi as u16 * 256 + lo as u16)
                by (bit_vector);
        }
        self.pc = self.pc + 2;
        op
    }

    /// Executes one already-fetched instruction word, exactly as
    /// `spec_execute` describes; on an error outcome nothing is changed.
    fn execute(&mut self, op: u16, rnd: u8) -> (r: Result<(), EmuError>)
        requires
            old(self).wf(),
            2 <= old(self)@.pc <= 4096,
        ensures
            final(self).wf(),
            final(self)@ == spec_execute(old(self)@, op, rnd).0,
            r == spec_execute(old(self)@, op, rnd).1,
    {
        let d1 = (op >> 12) & 0xF;
        let d2 = (op >> 8) & 0xF;
        let d3 = (op >> 4) & 0xF;
        let d4 = op & 0xF;
        proof {
            assert((op >> 12) & 0xF < 16 && (op >> 8) & 0xF < 16 && (op >> 4) & 0xF < 16
                && (op & 0xF) < 16 && (op & 0xFFF) < 4096 && (op & 0xFF) < 256) by (bit_vector);
        }
        match (d1, d2, d3, d4) {
            (0, 0, 0, 0) => Ok(()),
            (0, 0, 0xE, 0) => {
                self.screen = falses(2048);
                proof {
                    assert(self@.screen =~= blank_screen());
                }
                Ok(())
            },
            (0, 0, 0xE, 0xE) => {
                if self.sp == 0 {
                    return Err(EmuError::StackUnderflow);
                }
                let ret_addr = self.pop();
                self.pc = ret_addr;
                Ok(())
            },
            (0x1, _, _, _) => {
                self.pc = op & 0xFFF;
                Ok(())
            },
            (0x2, _, _, _) => {
                if self.sp >= 16 {
                    return Err(EmuError::StackOverflow);
                }
                let here = self.pc;
                self.push(here);
                self.pc = op & 0xFFF;
                Ok(())
            },
            (0x3, _, _, _) => {
                let nn = (op & 0xFF) as u8;
                if self.v_regs[d2 as usize] == nn {
                    self.pc = self.pc + 2;
                }
                Ok(())
            },
            (0x4, _, _, _) => {
                let nn = (op & 0xFF) as u8;
                if self.v_regs[d2 as usize] != nn {
                    self.pc = self.pc + 2;
                }
                Ok(())
            },
            (0x5, _, _, 0x0) => {
                if self.v_regs[d2 as usize] == self.v_regs[d3 as usize] {
                    self.pc = self.pc + 2;
                }
                Ok(())
            },
            (0x6, _, _, _) => {
                self.v_regs.set(d2 as usize, (op & 0xFF) as u8);
                Ok(())
            },
            (0x7, _, _, _) => {
                let sum: u16 = self.v_regs[d2 as usize] as u16 + (op & 0xFF);
                self.v_regs.set(d2 as usize, (sum % 256) as u8);
                Ok(())
            },
            (0x8, _, _, 0x0) => {
                let vy = self.v_regs[d3 as usize];
                self.v_regs.set(d2 as usize, vy);
                Ok(())
            },
            (0x8, _, _, 0x1) => {
                let vx = self.v_regs[d2 as usize];
                let vy = self.v_regs[d3 as usize];
                self.v_regs.set(d2 as usize, vx | vy);
                Ok(())
            },
            (0x8, _, _, 0x2) => {
                let vx = self.v_regs[d2 as usize];
                let vy = self.v_regs[d3 as usize];
                self.v_regs.set(d2 as usize, vx & vy);
                Ok(())
            },
            (0x8, _, _, 0x3) => {
                let vx = self.v_regs[d2 as usize];
                let vy = self.v_regs[d3 as usize];
                self.v_regs.set(d2 as usize, vx ^ vy);
                Ok(())
            },
            (0x8, _, _, 0x4) => {
                let vx = self.v_regs[d2 as usize];
                let vy = self.v_regs[d3 as usize];
                let sum: u16 = vx as u16 + vy as u16;
                self.v_regs.set(d2 as usize, (sum % 256) as u8);
                self.v_regs.set(15, if sum >= 256 { 1 } else { 0 });
                Ok(())
            },
            (0x8, _, _, 0x5) => {
                let vx = self.v_regs[d2 as usize];
                let vy = self.v_regs[d3 as usize];
                let diff: u16 = vx as u16 + 256 - vy as u16;
                self.v_regs.set(d2 as usize, (diff % 256) as u8);
                self.v_regs.set(15, if vx >= vy { 1 } else { 0 });
                Ok(())
            },
            (0x8, _, _, 0x6) => {
                let vx = self.v_regs[d2 as usize];
                self.v_regs.set(d2 as usize, vx >> 1);
                self.v_regs.set(15, vx & 1);
                Ok(())
            },
            (0x8, _, _, 0x7) => {
                let vx = self.v_regs[d2 as usize];
                let vy = self.v_regs[d3 as usize];
                let diff: u16 = vy as u16 + 256 - vx as u16;
                self.v_regs.set(d2 as usize, (diff % 256) as u8);
                self.v_regs.set(15, if vy >= vx { 1 } else { 0 });
                Ok(())
            },
            (0x8, _, _, 0xE) => {
                let vx = self.v_regs[d2 as usize];
                self.v_regs.set(d2 as usize, vx << 1);
                self.v_regs.set(15, (vx >> 7) & 1);
                Ok(())
            },
            (0x9, _, _, 0x0) => {
                if self.v_regs[d2 as usize] != self.v_regs[d3 as usize] {
                    self.pc = self.pc + 2;
                }
                Ok(())
            },
            (0xA, _, _, _) => {
                self.i_reg = op & 0xFFF;
                Ok(())
            },
            (0xB, _, _, _) => {
                self.pc = self.v_regs[0] as u16 + (op & 0xFFF);
                Ok(())
            },
            (0xC, _, _, _) => {
                let nn = (op & 0xFF) as u8;
                self.v_regs.set(d2 as usize, rnd & nn);
                Ok(())
            },
            (0xD, _, _, _) => {
                let n = d4 as usize;
                if self.i_reg as usize + n > 4096 {
                    return Err(EmuError::MemoryOutOfRange);
                }
                let x0 = self.v_regs[d2 as usize] as usize;
                let y0 = self.v_regs[d3 as usize] as usize;
                let flipped = self.op_draw(x0, y0, n);
                self.v_regs.set(15, if flipped { 1 } else { 0 });
                proof {
                    assert(self@ =~= spec_execute(old(self)@, op, rnd).0);
                }
                Ok(())
            },
            (0xE, _, 0x9, 0xE) => {
                let vx = self.v_regs[d2 as usize];
                if vx >= 16 {
                    return Err(EmuError::KeyOutOfRange);
                }
                if self.keys[vx as usize] {
                    self.pc = self.pc + 2;
                }
                Ok(())
            },
            (0xE, _, 0xA, 0x1) => {
                let vx = self.v_regs[d2 as usize];
                if vx >= 16 {
                    return Err(EmuError::KeyOutOfRange);
                }
                if !self.keys[vx as usize] {
                    self.pc = self.pc + 2;
                }
                Ok(())
            },
            (0xF, _, 0x0, 0x7) => {
                let dt = self.dt;
                self.v_regs.set(d2 as usize, dt);
                Ok(())
            },
            (0xF, _, 0x0, 0xA) => {
                let mut i: usize = 16;
                let mut found: usize = 16;
                while i > 0
                    invariant
                        old(self).wf(),
                        self.wf(),
                        self@ == old(self)@,
                        i <= 16,
                        found <= 16,
                        first_key(self@.keys, i as int) == (
                            if found < 16 { Some(found as u8) } else { None::<u8> }
                        ),
                    decreases i,
                {
                    i = i - 1;
                    if self.keys[i] {
                        found = i;
                    }
                }
                if found < 16 {
                    self.v_regs.set(d2 as usize, found as u8);
                } else {
                    self.pc = self.pc - 2;
                }
                Ok(())
            },
            (0xF, _, 0x1, 0x5) => {
                self.dt = self.v_regs[d2 as usize];
                Ok(())
            },
            (0xF, _, 0x1, 0x8) => {
                self.st = self.v_regs[d2 as usize];
                Ok(())
            },
            (0xF, _, 0x1, 0xE) => {
                let sum: u32 = self.i_reg as u32 + self.v_regs[d2 as usize] as u32;
                self.i_reg = (sum % 0x10000) as u16;
                Ok(())
            },
            (0xF, _, 0x2, 0x9) => {
                let glyph = self.v_regs[d2 as usize] & 0xF;
                self.i_reg = glyph as u16 * 5;
                Ok(())
            },
            (0xF, _, 0x3, 0x3) => {
                let i = self.i_reg as usize;
                if i + 2 > 4095 {
                    return Err(EmuError::MemoryOutOfRange);
                }
                let vx = self.v_regs[d2 as usize];
                self.ram.set(i, vx / 100);
                self.ram.set(i + 1, (vx / 10) % 10);
                self.ram.set(i + 2, vx % 10);
                Ok(())
            },
            (0xF, _, 0x5, 0x5) => {
                let x = d2 as usize;
                let i = self.i_reg as usize;
                if i + x > 4095 {
                    return Err(EmuError::MemoryOutOfRange);
                }
                let mut idx: usize = 0;
                while idx <= x
                    invariant
                        old(self).wf(),
                        self.wf(),
                        idx <= x + 1,
                        x < 16,
                        i + x <= 4095,
                        self@.pc == old(self)@.pc,
                        self@.screen == old(self)@.screen,
                        self@.v_regs == old(self)@.v_regs,
                        self@.i_reg == old(self)@.i_reg,
                        self@.sp == old(self)@.sp,
                        self@.stack == old(self)@.stack,
                        self@.keys == old(self)@.keys,
                        self@.dt == old(self)@.dt,
                        self@.st == old(self)@.st,
                        forall|j: int| 0 <= j < 4096 ==> self@.ram[j] == (
                            if i <= j < i + idx { old(self)@.v_regs[j - i] }
                            else { old(self)@.ram[j] }
                        ),
                    decreases x + 1 - idx,
                {
                    let v = self.v_regs[idx];
                    self.ram.set(i + idx, v);
                    idx = idx + 1;
                }
                proof {
                    assert(self@.ram =~= stored_regs(
                        old(self)@.ram, old(self)@.v_regs, i as int, x as int,
                    ));
                    assert(self@ =~= spec_execute(old(self)@, op, rnd).0);
                }
                Ok(())
            },
            (0xF, _, 0x6, 0x5) => {
                let x = d2 as usize;
                let i = self.i_reg as usize;
                if i + x > 4095 {
                    return Err(EmuError::MemoryOutOfRange);
                }
                let mut idx: usize = 0;
                while idx <= x
                    invariant
                        old(self).wf(),
                        self.wf(),
                        idx <= x + 1,
                        x < 16,
                        i + x <= 4095,
                        self@.pc == old(self)@.pc,
                        self@.screen == old(self)@.screen,
                        self@.ram == old(self)@.ram,
                        self@.i_reg == old(self)@.i_reg,
                        self@.sp == old(self)@.sp,
                        self@.stack == old(self)@.stack,
                        self@.keys == old(self)@.keys,
                        self@.dt == old(self)@.dt,
                        self@.st == old(self)@.st,
                        forall|j: int| 0 <= j < 16 ==> self@.v_regs[j] == (
                            if 0 <= j < idx { old(self)@.ram[i + j] }
                            else { old(self)@.v_regs[j] }
                        ),
                    decreases x + 1 - idx,
                {
                    let v = self.ram[i + idx];
                    self.v_regs.set(idx, v);
                    idx = idx + 1;
                }
                proof {
                    assert(self@.v_regs =~= loaded_regs(
                        old(self)@.ram, old(self)@.v_regs, i as int, x as int,
                    ));
                    assert(self@ =~= spec_execute(old(self)@, op, rnd).0);
                }
                Ok(())
            },
            (_, _, _, _) => Err(EmuError::UnrecognizedOpcode(op)),
        }
    }

    /// One full fetch/decode/execute step, exactly as `spec_tick` describes
    /// for the byte the random source produced.
    pub fn tick(&mut self) -> (r: Result<(), EmuError>)
        requires
            old(self).wf(),
        ensures
            final(self).wf(),
            exists|rnd: u8| #[trigger] spec_tick(old(self)@, rnd) == (final(self)@, r),
    {
        if self.pc > 4094 {
            proof {
                assert(spec_tick(self@, 0u8)
                    == (self@, Err::<(), EmuError>(EmuError::ProgramCounterOutOfRange)));
            }
            return Err(EmuError::ProgramCounterOutOfRange);
        }
        let op = self.fetch();
        let rnd = random_byte();
        let r = self.execute(op, rnd);
        proof {
            assert(spec_tick(old(self)@, rnd) == (self@, r));
        }
        r
    }
}

} // verus!
