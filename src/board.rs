use vstd::prelude::*;

verus! {

/// A write that the core asks of the keyboard daemon. The library never talks
/// to the hardware itself: it hands these out, and the caller performs them in
/// order, logging any failure without stopping.
#[derive(Clone, Copy, Debug, PartialEq, Eq, Structural)]
pub enum BoardCommand {
    /// Program the scancode of the key at electrical `(row, col)` on `layer`.
    WriteScancode { layer: u8, row: u8, col: u8, code: u16 },
    /// Select backlight mode number `mode` at `speed` on `layer`.
    SetMode { layer: u8, mode: u8, speed: u8 },
    /// Set the brightness of LED `led`.
    SetBrightness { led: u8, value: i32 },
    /// Set the colour of LED `led`; hue in degrees, saturation in percent.
    SetColor { led: u8, hue: u16, saturation: u8 },
}

} // verus!
