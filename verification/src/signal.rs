//! Signal and Modality — provenance metadata for raw inputs.

use vstd::prelude::*;

verus! {

/// Signal modality — which sensory channel an input originates from.
#[derive(Debug, Clone, Copy, PartialEq, Eq, Hash, Structural)]
pub enum Modality {
    /// Audio (PCM / features).
    Audio,
    /// Visual (image / video frames).
    Visual,
    /// Context (window / app / time / location / motion).
    Context,
    /// Text (user utterance / chat log).
    Text,
}

/// The lowercase name of a modality, as it is serialized.
pub open spec fn modality_name(m: Modality) -> Seq<char> {
    match m {
        Modality::Audio => "audio"@,
        Modality::Visual => "visual"@,
        Modality::Context => "context"@,
        Modality::Text => "text"@,
    }
}

impl Modality {
    /// The lowercase name of the modality.
    pub fn name(self) -> (r: &'static str)
        ensures
            r@ == modality_name(self),
    {
        match self {
            Modality::Audio => "audio",
            Modality::Visual => "visual",
            Modality::Context => "context",
            Modality::Text => "text",
        }
    }
}

/// Signal — provenance metadata wrapping an extracted feature event.
#[derive(Debug)]
pub struct Signal {
    /// Source identifier (e.g. `"perceptkit-audio@0.1.0"`).
    pub source: String,
    /// Unix timestamp in microseconds.
    pub timestamp: i64,
    /// Modality classification.
    pub modality: Modality,
}

impl Signal {
    /// A signal from `source` of `modality` stamped at `timestamp`
    /// (the clock reading is taken by the caller).
    pub fn at(source: String, timestamp: i64, modality: Modality) -> (r: Self)
        ensures
            r.source == source,
            r.timestamp == timestamp,
            r.modality == modality,
    {
        Signal { source, timestamp, modality }
    }
}

} // verus!
