//! Engine-neutral description of an FM voice: one parameter block for the
//! modulator operator and one for the carrier operator.

use vstd::prelude::*;

verus! {

/// Parameters of a single FM operator, unpacked from the raw register bytes.
#[derive(Clone, Copy, PartialEq, Eq, Structural, Debug)]
pub struct AdlibParams {
    pub freq_multiplier: u8,
    pub scale_envelope: bool,
    pub enable_sustain: bool,
    pub vibrato: bool,
    pub tremolo: bool,
    pub scale_level: u8,
    pub output_level: u8,
    pub attack: u8,
    pub decay: u8,
    pub sustain: u8,
    pub release: u8,
    pub wave: u8,
    // Below are used for modulator only
    pub feedback: u8,
    pub connection: bool,
}

/// An FM instrument: a modulator/carrier operator pair.
#[derive(Clone, Copy, PartialEq, Eq, Structural, Debug)]
pub struct AdlibInstrument {
    pub modulator: AdlibParams,
    pub carrier: AdlibParams,
}

impl Default for AdlibParams {
    /// All-zero parameter block with every switch off.
    fn default() -> (r: Self)
        ensures
            r == AdlibParams::default_spec(),
    {
        AdlibParams {
            freq_multiplier: 0,
            scale_envelope: false,
            enable_sustain: false,
            vibrato: false,
            tremolo: false,
            scale_level: 0,
            output_level: 0,
            attack: 0,
            decay: 0,
            sustain: 0,
            release: 0,
            wave: 0,
            feedback: 0,
            connection: false,
        }
    }
}

impl AdlibParams {
    /// The default parameter block: all fields zero, all switches off.
    pub open spec fn default_spec() -> AdlibParams {
        AdlibParams {
            freq_multiplier: 0,
            scale_envelope: false,
            enable_sustain: false,
            vibrato: false,
            tremolo: false,
            scale_level: 0,
            output_level: 0,
            attack: 0,
            decay: 0,
            sustain: 0,
            release: 0,
            wave: 0,
            feedback: 0,
            connection: false,
        }
    }
}

impl Default for AdlibInstrument {
    /// Both operators at their default (all-zero) parameters.
    fn default() -> (r: Self)
        ensures
            r == AdlibInstrument::default_spec(),
    {
        AdlibInstrument { modulator: AdlibParams::default(), carrier: AdlibParams::default() }
    }
}

impl AdlibInstrument {
    /// The default instrument: both operators at their defaults.
    pub open spec fn default_spec() -> AdlibInstrument {
        AdlibInstrument {
            modulator: AdlibParams::default_spec(),
            carrier: AdlibParams::default_spec(),
        }
    }
}

} // verus!
