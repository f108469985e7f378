use vstd::prelude::*;

verus! {

/// Settings of a run.
pub struct ChipConfig {
    /// Instructions executed between two timer ticks.
    pub opcodes_per_cycle: usize,
    /// Timer ticks per second.
    pub timer_hz: u8,
    /// Selects the historical behaviour of the shift and offset-jump
    /// instructions.
    pub legacy: bool,
}

impl ChipConfig {
    /// Eight instructions per tick at 60 ticks per second.
    pub fn default(legacy: bool) -> (c: Self)
        ensures
            c.opcodes_per_cycle == 8,
            c.timer_hz == 60,
            c.legacy == legacy,
    {
        ChipConfig { opcodes_per_cycle: 8, timer_hz: 60, legacy }
    }

    /// Whether the settings can drive a run: at least one instruction per
    /// tick and a nonzero tick rate.
    pub open spec fn is_valid(&self) -> bool {
        self.opcodes_per_cycle >= 1 && self.timer_hz >= 1
    }

    /// Checked constructor: `None` when the settings cannot drive a run.
    pub fn new(opcodes_per_cycle: usize, timer_hz: u8, legacy: bool) -> (r: Option<Self>)
        ensures
            r matches Some(c) ==> c.opcodes_per_cycle == opcodes_per_cycle && c.timer_hz
                == timer_hz && c.legacy == legacy,
            r is Some <==> (opcodes_per_cycle >= 1 && timer_hz >= 1),
    {
        if opcodes_per_cycle >= 1 && timer_hz >= 1 {
            Some(ChipConfig { opcodes_per_cycle, timer_hz, legacy })
        } else {
            None
        }
    }
}

} // verus!
