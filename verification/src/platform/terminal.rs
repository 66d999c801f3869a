//! Console modes.
use vstd::prelude::*;

verus! {

/// Console input modes: signals are processed.
pub const ENABLE_PROCESSED_INPUT: u32 = 0x0001;

/// Console input modes: input comes in lines.
pub const ENABLE_LINE_INPUT: u32 = 0x0002;

/// Console input modes: input is echoed.
pub const ENABLE_ECHO_INPUT: u32 = 0x0004;

/// Console input modes: keys come as escape sequences.
pub const ENABLE_VIRTUAL_TERMINAL_INPUT: u32 = 0x0200;

/// Whether a mode is set.
pub open spec fn mode_set(mode: u32, flag: u32) -> bool {
    mode & flag == flag
}

/// The raw mode of a console: without lines, echo and signals, with escape
/// sequences; the other modes as they are.
pub fn raw_console_mode(mode: u32) -> (raw: u32)
    ensures
        !mode_set(raw, ENABLE_PROCESSED_INPUT),
        !mode_set(raw, ENABLE_LINE_INPUT),
        !mode_set(raw, ENABLE_ECHO_INPUT),
        mode_set(raw, ENABLE_VIRTUAL_TERMINAL_INPUT),
        raw & 0xFFFF_FDF8 == mode & 0xFFFF_FDF8,
{
    let raw: u32 = (mode & !(ENABLE_LINE_INPUT | ENABLE_ECHO_INPUT | ENABLE_PROCESSED_INPUT))
        | ENABLE_VIRTUAL_TERMINAL_INPUT;
    proof {
        let r = (mode & !(0x0002u32 | 0x0004u32 | 0x0001u32)) | 0x0200u32;
        assert(r & 0x0001 != 0x0001 && r & 0x0002 != 0x0002 && r & 0x0004 != 0x0004 && r & 0x0200
            == 0x0200 && r & 0xFFFF_FDF8 == mode & 0xFFFF_FDF8) by (bit_vector)
            requires
                r == (mode & !(0x0002u32 | 0x0004u32 | 0x0001u32)) | 0x0200u32,
        ;
        assert(raw == r);
    }
    raw
}

/// The modes of a console by their bits: signals are bit 0, lines bit 1, echo bit 2 and
/// escape sequences bit 9.
pub proof fn console_modes_have_their_bits(mode: u32)
    ensures
        mode_set(mode, ENABLE_PROCESSED_INPUT) <==> mode % 2 == 1,
        mode_set(mode, ENABLE_LINE_INPUT) <==> mode / 2 % 2 == 1,
        mode_set(mode, ENABLE_ECHO_INPUT) <==> mode / 4 % 2 == 1,
        mode_set(mode, ENABLE_VIRTUAL_TERMINAL_INPUT) <==> mode / 512 % 2 == 1,
{
    assert((mode & 1 == 1) == (mode % 2 == 1) && (mode & 2 == 2) == (mode / 2 % 2 == 1) && (mode
        & 4 == 4) == (mode / 4 % 2 == 1) && (mode & 512 == 512) == (mode / 512 % 2 == 1))
        by (bit_vector);
}

} // verus!
