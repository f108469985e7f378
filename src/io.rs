use vstd::prelude::*;

use crate::{SCREEN_HEIGHT, SCREEN_WIDTH};

verus! {

/// The framebuffer: `screen[x][y]` is the pixel in column `x`, row `y`.
pub type Screen = [[bool; SCREEN_HEIGHT]; SCREEN_WIDTH];

/// One call the machine made across the IO boundary, with what it
/// returned. The machine keeps the sequence of these as a ghost record.
pub enum IoCall {
    /// `update_screen`, with the framebuffer handed over.
    UpdateScreen(Seq<Seq<bool>>, Result<(), std::io::Error>),
    /// `start_beep`.
    StartBeep(Result<(), std::io::Error>),
    /// `end_beep`.
    EndBeep(Result<(), std::io::Error>),
    /// `get_key`.
    GetKey(Result<Option<(usize, bool)>, std::io::Error>),
}

/// What the machine needs from its surroundings: a display, a beeper and a
/// keypad. Every call is synchronous, and any error it returns ends the run.
pub trait ChipIO {
    /// Shows the whole framebuffer; called once per draw instruction.
    fn update_screen(&mut self, screen: &Screen) -> Result<(), std::io::Error>;

    /// Starts the tone; called when the sound timer is set from zero to a
    /// nonzero value.
    fn start_beep(&mut self) -> Result<(), std::io::Error>;

    /// Stops the tone; called on the tick at which the sound timer reaches
    /// zero.
    fn end_beep(&mut self) -> Result<(), std::io::Error>;

    /// Polls for at most one key change, without blocking: the key number
    /// (0 to 15) and whether it is now down.
    fn get_key(&mut self) -> Result<Option<(usize, bool)>, std::io::Error>;
}

} // verus!
