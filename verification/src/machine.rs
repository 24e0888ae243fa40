//! The machine itself: owned state, construction and reset to the power-on
//! configuration, the host-facing boundary (program load, key latch, display
//! view, timers), and the call-stack primitives.

use vstd::prelude::*;
use crate::view::{EmuView, wf_view, font_seq, power_on, power_on_ram};

verus! {

/// Everything that can go wrong: the two fatal execution faults (an
/// instruction word no pattern recognizes, an unbalanced call stack), the
/// bounds faults a malformed program can steer the engine into, and the two
/// host-boundary rejections.
#[derive(Clone, Copy, Debug, PartialEq, Eq, Structural)]
pub enum EmuError {
    /// The fetched instruction word matches no opcode pattern.
    UnrecognizedOpcode(u16),
    /// A call was executed with all sixteen stack slots in use.
    StackOverflow,
    /// A return was executed with an empty call stack.
    StackUnderflow,
    /// The program counter does not address two bytes of memory.
    ProgramCounterOutOfRange,
    /// An instruction addressed memory beyond the 4096 bytes.
    MemoryOutOfRange,
    /// A program longer than the 3584-byte program region was offered.
    ProgramTooLarge,
    /// A key index outside 0..16 was offered.
    KeyOutOfRange,
}

/// The virtual machine: one owned aggregate holding all mutable state.
pub struct Emu {
    pub(crate) pc: u16,
    pub(crate) ram: Vec<u8>,
    pub(crate) screen: Vec<bool>,
    pub(crate) v_regs: Vec<u8>,
    pub(crate) i_reg: u16,
    pub(crate) sp: u16,
    pub(crate) stack: Vec<u16>,
    pub(crate) keys: Vec<bool>,
    pub(crate) dt: u8,
    pub(crate) st: u8,
}

impl View for Emu {
    type V = EmuView;

    open(crate) spec fn view(&self) -> EmuView {
        EmuView {
            pc: self.pc,
            ram: self.ram@,
            screen: self.screen@,
            v_regs: self.v_regs@,
            i_reg: self.i_reg,
            sp: self.sp,
            stack: self.stack@,
            keys: self.keys@,
            dt: self.dt,
            st: self.st,
        }
    }
}

/// A vector of `n` zero bytes.
fn zero_bytes(n: usize) -> (v: Vec<u8>)
    ensures
        v@ == Seq::new(n as nat, |i: int| 0u8),
{
    let mut v: Vec<u8> = Vec::new();
    while v.len() < n
        invariant
            v@.len() <= n,
            forall|j: int| 0 <= j < v@.len() ==> v@[j] == 0u8,
        decreases n - v@.len(),
    {
        v.push(0);
    }
    proof {
        assert(v@ =~= Seq::new(n as nat, |i: int| 0u8));
    }
    v
}

/// A vector of `n` zero words.
fn zero_words(n: usize) -> (v: Vec<u16>)
    ensures
        v@ == Seq::new(n as nat, |i: int| 0u16),
{
    let mut v: Vec<u16> = Vec::new();
    while v.len() < n
        invariant
            v@.len() <= n,
            forall|j: int| 0 <= j < v@.len() ==> v@[j] == 0u16,
        decreases n - v@.len(),
    {
        v.push(0);
    }
    proof {
        assert(v@ =~= Seq::new(n as nat, |i: int| 0u16));
    }
    v
}

/// A vector of `n` cleared flags.
pub(crate) fn falses(n: usize) -> (v: Vec<bool>)
    ensures
        v@ == Seq::new(n as nat, |i: int| false),
{
    let mut v: Vec<bool> = Vec::new();
    while v.len() < n
        invariant
            v@.len() <= n,
            forall|j: int| 0 <= j < v@.len() ==> v@[j] == false,
        decreases n - v@.len(),
    {
        v.push(false);
    }
    proof {
        assert(v@ =~= Seq::new(n as nat, |i: int| false));
    }
    v
}

/// Appends one five-byte font glyph.
fn push_glyph(v: &mut Vec<u8>, b0: u8, b1: u8, b2: u8, b3: u8, b4: u8)
    ensures
        final(v)@ == old(v)@ + seq![b0, b1, b2, b3, b4],
{
    v.push(b0);
    v.push(b1);
    v.push(b2);
    v.push(b3);
    v.push(b4);
    proof {
        assert(v@ =~= old(v)@ + seq![b0, b1, b2, b3, b4]);
    }
}

/// Builds the 4096-byte power-on memory: the sixteen font glyphs followed by
/// zeroes.
fn power_on_memory() -> (v: Vec<u8>)
    ensures
        v@ == power_on_ram(),
{
    let mut v: Vec<u8> = Vec::new();
    push_glyph(&mut v, 0xF0, 0x90, 0x90, 0x90, 0xF0); // 0
    push_glyph(&mut v, 0x20, 0x60, 0x20, 0x20, 0x70); // 1
    push_glyph(&mut v, 0xF0, 0x10, 0xF0, 0x80, 0xF0); // 2
    push_glyph(&mut v, 0xF0, 0x10, 0xF0, 0x10, 0xF0); // 3
    push_glyph(&mut v, 0x90, 0x90, 0xF0, 0x10, 0x10); // 4
    push_glyph(&mut v, 0xF0, 0x80, 0xF0, 0x10, 0xF0); // 5
    push_glyph(&mut v, 0xF0, 0x80, 0xF0, 0x90, 0xF0); // 6
    push_glyph(&mut v, 0xF0, 0x10, 0x20, 0x40, 0x40); // 7
    push_glyph(&mut v, 0xF0, 0x90, 0xF0, 0x90, 0xF0); // 8
    push_glyph(&mut v, 0xF0, 0x90, 0xF0, 0x10, 0xF0); // 9
    push_glyph(&mut v, 0xF0, 0x90, 0xF0, 0x90, 0x90); // A
    push_glyph(&mut v, 0xE0, 0x90, 0xE0, 0x90, 0xE0); // B
    push_glyph(&mut v, 0xF0, 0x80, 0x80, 0x80, 0xF0); // C
    push_glyph(&mut v, 0xE0, 0x90, 0x90, 0x90, 0xE0); // D
    push_glyph(&mut v, 0xF0, 0x80, 0xF0, 0x80, 0xF0); // E
    push_glyph(&mut v, 0xF0, 0x80, 0xF0, 0x80, 0x80); // F
    proof {
        assert(v@ =~= font_seq());
    }
    while v.len() < 4096
        invariant
            80 <= v@.len() <= 4096,
            forall|j: int| 0 <= j < 80 ==> v@[j] == font_seq()[j],
            forall|j: int| 80 <= j < v@.len() ==> v@[j] == 0u8,
        decreases 4096 - v@.len(),
    {
        v.push(0);
    }
    proof {
        assert(v@ =~= power_on_ram());
    }
    v
}

/// Memory after a program of `data` has been copied in at 0x200.
pub open spec fn loaded_ram(ram: Seq<u8>, data: Seq<u8>) -> Seq<u8> {
    Seq::new(ram.len(), |j: int| if 0x200 <= j < 0x200 + data.len() {
        data[j - 0x200]
    } else {
        ram[j]
    })
}

impl Emu {
    /// The machine's standing invariant: fixed sizes, stack pointer in range.
    pub open spec fn wf(&self) -> bool {
        wf_view(self@)
    }

    /// Builds a machine in the power-on configuration.
    pub fn new() -> (e: Emu)
        ensures
            e.wf(),
            e@ == power_on(),
    {
        let e = Emu {
            pc: 0x200,
            ram: power_on_memory(),
            screen: falses(2048),
            v_regs: zero_bytes(16),
            i_reg: 0,
            sp: 0,
            stack: zero_words(16),
            keys: falses(16),
            dt: 0,
            st: 0,
        };
        proof {
            assert(e@ =~= power_on());
        }
        e
    }

    /// Restores the power-on configuration, with exactly the effect of
    /// constructing a fresh machine.
    pub fn reset(&mut self)
        ensures
            final(self).wf(),
            final(self)@ == power_on(),
    {
        self.pc = 0x200;
        self.ram = power_on_memory();
        self.screen = falses(2048);
        self.v_regs = zero_bytes(16);
        self.i_reg = 0;
        self.sp = 0;
        self.stack = zero_words(16);
        self.keys = falses(16);
        self.dt = 0;
        self.st = 0;
        proof {
            assert(self@ =~= power_on());
        }
    }

    /// Copies a program into memory starting at 0x200. A program longer than
    /// the 3584-byte program region is rejected and nothing changes.
    pub fn load(&mut self, data: &[u8]) -> (r: Result<(), EmuError>)
        requires
            old(self).wf(),
        ensures
            final(self).wf(),
            data@.len() <= 3584 ==> r == Ok::<(), EmuError>(()) && final(self)@ == (EmuView {
                ram: loaded_ram(old(self)@.ram, data@),
                ..old(self)@
            }),
            data@.len() > 3584 ==> r == Err::<(), EmuError>(EmuError::ProgramTooLarge)
                && final(self)@ == old(self)@,
    {
        if data.len() > 3584 {
            return Err(EmuError::ProgramTooLarge);
        }
        let mut k: usize = 0;
        while k < data.len()
            invariant
                old(self).wf(),
                self.wf(),
                k <= data@.len() <= 3584,
                self@ == (EmuView { ram: self@.ram, ..old(self)@ }),
                forall|j: int| 0 <= j < 4096 ==> self@.ram[j] == (
                    if 0x200 <= j < 0x200 + k { data@[j - 0x200] } else { old(self)@.ram[j] }
                ),
            decreases data@.len() - k,
        {
            self.ram.set(0x200 + k, data[k]);
            k = k + 1;
        }
        proof {
            assert(self@.ram =~= loaded_ram(old(self)@.ram, data@));
            assert(self@ =~= (EmuView { ram: loaded_ram(old(self)@.ram, data@), ..old(self)@ }));
        }
        Ok(())
    }

    /// Sets one key of the input latch. An index outside 0..16 is rejected
    /// and nothing changes.
    pub fn keypress(&mut self, idx: usize, pressed: bool) -> (r: Result<(), EmuError>)
        requires
            old(self).wf(),
        ensures
            final(self).wf(),
            idx < 16 ==> r == Ok::<(), EmuError>(()) && final(self)@ == (EmuView {
                keys: old(self)@.keys.update(idx as int, pressed),
                ..old(self)@
            }),
            idx >= 16 ==> r == Err::<(), EmuError>(EmuError::KeyOutOfRange)
                && final(self)@ == old(self)@,
    {
        if idx >= 16 {
            return Err(EmuError::KeyOutOfRange);
        }
        self.keys.set(idx, pressed);
        Ok(())
    }

    /// Read-only view of the 64x32 frame buffer, row-major.
    pub fn get_display(&self) -> (r: &Vec<bool>)
        ensures
            r@ == self@.screen,
    {
        &self.screen
    }

    /// Current value of one general register.
    pub fn get_register(&self, idx: usize) -> (r: u8)
        requires
            self.wf(),
            idx < 16,
        ensures
            r == self@.v_regs[idx as int],
    {
        self.v_regs[idx]
    }

    /// Current program counter.
    pub fn get_pc(&self) -> (r: u16)
        ensures
            r == self@.pc,
    {
        self.pc
    }

    /// One byte of memory.
    pub fn read_ram(&self, addr: usize) -> (r: u8)
        requires
            self.wf(),
            addr < 4096,
        ensures
            r == self@.ram[addr as int],
    {
        self.ram[addr]
    }

    /// Current index register.
    pub fn get_i_reg(&self) -> (r: u16)
        ensures
            r == self@.i_reg,
    {
        self.i_reg
    }

    /// Current delay timer.
    pub fn get_delay_timer(&self) -> (r: u8)
        ensures
            r == self@.dt,
    {
        self.dt
    }

    /// Current sound timer.
    pub fn get_sound_timer(&self) -> (r: u8)
        ensures
            r == self@.st,
    {
        self.st
    }

    /// Decrements both timers by one, each floored at zero. Driven by the
    /// host at a fixed rate, independently of instruction execution.
    pub fn tick_timers(&mut self)
        requires
            old(self).wf(),
        ensures
            final(self).wf(),
            final(self)@ == (EmuView {
                dt: if old(self)@.dt > 0 { (old(self)@.dt - 1) as u8 } else { 0u8 },
                st: if old(self)@.st > 0 { (old(self)@.st - 1) as u8 } else { 0u8 },
                ..old(self)@
            }),
    {
        if self.dt > 0 {
            self.dt = self.dt - 1;
        }
        if self.st > 0 {
            self.st = self.st - 1;
        }
    }

    /// Pushes a return address; the caller guarantees a free slot.
    pub(crate) fn push(&mut self, val: u16)
        requires
            old(self).wf(),
            old(self)@.sp < 16,
        ensures
            final(self).wf(),
            final(self)@ == (EmuView {
                stack: old(self)@.stack.update(old(self)@.sp as int, val),
                sp: (old(self)@.sp + 1) as u16,
                ..old(self)@
            }),
    {
        self.stack.set(self.sp as usize, val);
        self.sp = self.sp + 1;
    }

    /// Pops the most recent return address; the caller guarantees the stack
    /// is not empty. The vacated slot keeps its bytes, as the view records.
    pub(crate) fn pop(&mut self) -> (r: u16)
        requires
            old(self).wf(),
            old(self)@.sp > 0,
        ensures
            final(self).wf(),
            r == old(self)@.stack[old(self)@.sp - 1],
            final(self)@ == (EmuView { sp: (old(self)@.sp - 1) as u16, ..old(self)@ }),
    {
        self.sp = self.sp - 1;
        self.stack[self.sp as usize]
    }
}

} // verus!
