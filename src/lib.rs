//! The core of a keyboard configurator: the board definition and its
//! scancode table, the keymap controller with keymap import and export, the
//! selection and layer state, and the backlight state machine. The core never
//! talks to the hardware: its operations return the board writes they call
//! for, and take the board reads they need as arguments.

pub mod backlight;
pub mod board;
pub mod keyboard;
pub mod keymap;
pub mod layout;
