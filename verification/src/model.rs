//! Data model of a project on disk, as the engine consumes it: metadata,
//! track bindings, pattern grids and per-pattern effect metadata.
//!
//! The on-disk files are read and parsed outside the library; the engine
//! receives these plain structures.  Quantities that are unit-interval
//! fractions on disk (track volume, swing) are fixed point here, in
//! permille (`0..=1000`).

use vstd::prelude::*;

verus! {

/// Project metadata.
#[derive(Debug, Clone)]
pub struct Project {
    pub name: String,
    pub version: String,
    /// Tempo in beats per minute.
    pub bpm: u32,
    /// Swing amount in permille of a step period.
    pub swing: u32,
    pub author: String,
    pub created: String,
}

/// One track of the project: a display name, the sample file bound to the
/// track, and the track's gain.
#[derive(Debug, Clone)]
pub struct Track {
    pub name: String,
    /// Sample file name, resolved against the project's sample directory.
    pub sample: String,
    /// Gain in permille: `0` is silence, `1000` is full scale.
    pub volume: u32,
}

impl Track {
    /// A track configuration is valid when its volume is a unit-interval
    /// fraction.
    pub open spec fn valid(self) -> bool {
        self.volume <= 1000
    }
}

/// A pattern: a rectangular grid of steps, indexed `steps[track][step]`.
#[derive(Debug, Clone)]
pub struct Pattern {
    pub pattern_id: u32,
    pub steps: Vec<Vec<bool>>,
}

/// Channel binding of one track in pattern metadata.
#[derive(Debug, Clone)]
pub struct TrackMapEntry {
    pub channel: u32,
    pub sample: String,
}

/// Effects requested for one `"track:step"` key of pattern metadata.
#[derive(Debug, Clone)]
pub struct FxEntry {
    /// Number of evenly spaced re-plays within a step.  Recognized but
    /// reserved: no effect is installed for it.
    pub retrigger: Option<u32>,
    /// When true, the track's sample plays reversed.
    pub reverse: Option<bool>,
}

/// Metadata accompanying a pattern: channel mapping and effect entries
/// keyed by `"track:step"` strings.
#[derive(Debug, Clone)]
pub struct PatternMeta {
    pub track_map: Vec<TrackMapEntry>,
    pub fx: Vec<(String, FxEntry)>,
}

} // verus!
