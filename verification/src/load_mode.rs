//! How many voices a DSP unit is loaded with.

use vstd::prelude::*;

verus! {

/// How to load a DSP.
#[derive(Debug, Clone, Copy, PartialEq, Eq, Structural)]
pub enum DspLoadMode {
    /// Decide from the script's own metadata.
    AutoDetect,
    /// Monophonic effect, always alive.
    Effect,
    /// Polyphonic instrument with at most `nvoices` voices.
    Instrument { nvoices: i32 },
}

impl DspLoadMode {
    /// The load mode that a voice count stands for.
    pub open spec fn of_nvoices(nvoices: int) -> DspLoadMode {
        if nvoices == -1 {
            DspLoadMode::AutoDetect
        } else if nvoices == 0 {
            DspLoadMode::Effect
        } else {
            DspLoadMode::Instrument { nvoices: nvoices as i32 }
        }
    }

    /// The voice count that stands for this load mode.
    pub open spec fn nvoices(self) -> int {
        match self {
            DspLoadMode::AutoDetect => -1,
            DspLoadMode::Effect => 0,
            DspLoadMode::Instrument { nvoices } => nvoices as int,
        }
    }

    /// Reads a voice count: `-1` asks for detection, `0` for an effect, any
    /// positive count for an instrument with that many voices.
    pub fn from_nvoices(nvoices: i32) -> (mode: DspLoadMode)
        requires
            nvoices >= -1,
        ensures
            mode == DspLoadMode::of_nvoices(nvoices as int),
            mode.nvoices() == nvoices,
    {
        if nvoices == -1 {
            DspLoadMode::AutoDetect
        } else if nvoices == 0 {
            DspLoadMode::Effect
        } else {
            DspLoadMode::Instrument { nvoices }
        }
    }

    /// The voice count to hand to the compiler gateway.
    pub fn to_nvoices(&self) -> (nvoices: i32)
        ensures
            nvoices == self.nvoices(),
    {
        match self {
            DspLoadMode::AutoDetect => -1,
            DspLoadMode::Effect => 0,
            DspLoadMode::Instrument { nvoices } => *nvoices,
        }
    }
}

/// The kind of a unit, without the number of its voices.
#[derive(Debug, Clone, Copy, PartialEq, Eq, Structural)]
pub enum DspType {
    AutoDetect,
    Effect,
    Instrument,
}

impl DspType {
    /// The kind of a load mode.
    pub open spec fn of_mode(mode: DspLoadMode) -> DspType {
        match mode {
            DspLoadMode::AutoDetect => DspType::AutoDetect,
            DspLoadMode::Effect => DspType::Effect,
            DspLoadMode::Instrument { .. } => DspType::Instrument,
        }
    }

    /// The kind that a voice count stands for.
    pub fn from_nvoices(nvoices: i32) -> (kind: DspType)
        requires
            nvoices >= -1,
        ensures
            kind == DspType::of_mode(DspLoadMode::of_nvoices(nvoices as int)),
    {
        match DspLoadMode::from_nvoices(nvoices) {
            DspLoadMode::AutoDetect => DspType::AutoDetect,
            DspLoadMode::Effect => DspType::Effect,
            DspLoadMode::Instrument { .. } => DspType::Instrument,
        }
    }

    /// The voice count to load with once this kind has been picked, where
    /// `previous` was picked before with `nvoices` voices: detection and
    /// effects have their own counts, and an instrument starts with one
    /// voice and then keeps the count it has.
    pub fn voices_when_picked(self, previous: DspType, nvoices: i32) -> (count: i32)
        ensures
            count == match self {
                DspType::AutoDetect => -1i32,
                DspType::Effect => 0i32,
                DspType::Instrument => if previous is Instrument {
                    nvoices
                } else {
                    1i32
                },
            },
    {
        match self {
            DspType::AutoDetect => -1,
            DspType::Effect => 0,
            DspType::Instrument => match previous {
                DspType::Instrument => nvoices,
                _ => 1,
            },
        }
    }
}

} // verus!
