//! The mathematical model of the machine: a ghost record holding every piece
//! of state the instruction set can touch, together with the power-on
//! configuration that construction and reset both establish.

use vstd::prelude::*;

verus! {

/// Ghost image of the whole machine state. Contracts throughout the crate
/// speak of this record rather than of the executable representation.
#[verifier::ext_equal]
pub ghost struct EmuView {
    /// Program counter; instruction fetch advances it by 2.
    pub pc: u16,
    /// 4096 bytes of flat memory; the font bitmap sits at the bottom.
    pub ram: Seq<u8>,
    /// 64x32 monochrome frame buffer, row-major: index = x + 64 * y.
    pub screen: Seq<bool>,
    /// Sixteen 8-bit general registers; register 15 doubles as the flag.
    pub v_regs: Seq<u8>,
    /// 16-bit index register used by draw, font, block transfer and BCD.
    pub i_reg: u16,
    /// Stack pointer: number of return addresses currently on the stack.
    pub sp: u16,
    /// Sixteen slots of 16-bit return addresses.
    pub stack: Seq<u16>,
    /// Sixteen key states, written by the host.
    pub keys: Seq<bool>,
    /// Delay timer, decremented externally, floored at 0.
    pub dt: u8,
    /// Sound timer, decremented externally, floored at 0.
    pub st: u8,
}

/// Shape every reachable machine state keeps: fixed array sizes and a stack
/// pointer that never leaves [0, 16].
pub open spec fn wf_view(s: EmuView) -> bool {
    &&& s.ram.len() == 4096
    &&& s.screen.len() == 2048
    &&& s.v_regs.len() == 16
    &&& s.stack.len() == 16
    &&& s.keys.len() == 16
    &&& s.sp <= 16
}

/// An all-clear frame buffer.
pub open spec fn blank_screen() -> Seq<bool> {
    Seq::new(2048, |i: int| false)
}

/// The built-in bitmap font: sixteen hexadecimal glyphs of five bytes each.
pub open spec fn font_seq() -> Seq<u8> {
    seq![
        0xF0u8, 0x90, 0x90, 0x90, 0xF0, // 0
        0x20, 0x60, 0x20, 0x20, 0x70, // 1
        0xF0, 0x10, 0xF0, 0x80, 0xF0, // 2
        0xF0, 0x10, 0xF0, 0x10, 0xF0, // 3
        0x90, 0x90, 0xF0, 0x10, 0x10, // 4
        0xF0, 0x80, 0xF0, 0x10, 0xF0, // 5
        0xF0, 0x80, 0xF0, 0x90, 0xF0, // 6
        0xF0, 0x10, 0x20, 0x40, 0x40, // 7
        0xF0, 0x90, 0xF0, 0x90, 0xF0, // 8
        0xF0, 0x90, 0xF0, 0x10, 0xF0, // 9
        0xF0, 0x90, 0xF0, 0x90, 0x90, // A
        0xE0, 0x90, 0xE0, 0x90, 0xE0, // B
        0xF0, 0x80, 0x80, 0x80, 0xF0, // C
        0xE0, 0x90, 0x90, 0x90, 0xE0, // D
        0xF0, 0x80, 0xF0, 0x80, 0xF0, // E
        0xF0, 0x80, 0xF0, 0x80, 0x80, // F
    ]
}

/// Memory at power-on: the font in the lowest 80 bytes, zero elsewhere.
pub open spec fn power_on_ram() -> Seq<u8> {
    Seq::new(4096, |j: int| if j < 80 { font_seq()[j] } else { 0u8 })
}

/// The power-on configuration: font loaded, program counter at 0x200,
/// everything else zeroed. Construction and reset both yield exactly this.
pub open spec fn power_on() -> EmuView {
    EmuView {
        pc: 0x200,
        ram: power_on_ram(),
        screen: blank_screen(),
        v_regs: Seq::new(16, |i: int| 0u8),
        i_reg: 0,
        sp: 0,
        stack: Seq::new(16, |i: int| 0u16),
        keys: Seq::new(16, |i: int| false),
        dt: 0,
        st: 0,
    }
}

} // verus!
