//! The audio provider's feature schema: the descriptors of the features its
//! extractors emit, and the energy extractor's identity. The signal
//! processing itself (RMS, zero crossings, FFT) works on floating-point PCM
//! and runs outside the verified library.

use vstd::prelude::*;

use crate::feature::{is_valid_key, FeatureDescriptor, FeatureKey, FeatureKind, TimeWindow};
use crate::registry::opt_seq;

verus! {

/// Provenance tag of the audio extractors.
pub const AUDIO_SOURCE: &'static str = "perceptkit-audio@0.1.0";

/// Provenance tag of the heuristic speaker extractor.
pub const SPEAKER_SOURCE: &'static str = "perceptkit-audio@0.1.0/heur";

/// `1.0` in the library's fixed point.
pub const ONE: i64 = 1_000_000;

/// `d` describes a bounded number feature `key` in `[min, max]` with `unit`,
/// `window`, `source`, version 1.
pub open spec fn number_descriptor(
    d: FeatureDescriptor,
    key: Seq<char>,
    min: int,
    max: int,
    unit: Seq<char>,
    window: TimeWindow,
    source: Seq<char>,
) -> bool {
    &&& d.key@ == key
    &&& d.kind matches FeatureKind::F64 { min: Some(lo), max: Some(hi) }
    &&& d.kind->min == Some(min as i64) && d.kind->max == Some(max as i64)
    &&& i64::MIN <= min <= i64::MAX && i64::MIN <= max <= i64::MAX
    &&& opt_seq(d.unit) == Some(unit)
    &&& d.window == window
    &&& d.source@ == source
    &&& d.version == 1
}

fn number(key: &str, min: i64, max: i64, unit: &str, window: TimeWindow, source: &str) -> (d: FeatureDescriptor)
    requires
        is_valid_key(key@),
    ensures
        number_descriptor(d, key@, min as int, max as int, unit@, window, source@),
{
    FeatureDescriptor {
        key: FeatureKey::from_valid(key),
        kind: FeatureKind::F64 { min: Some(min), max: Some(max) },
        unit: Some(unit.to_owned()),
        window,
        source: source.to_owned(),
        version: 1,
    }
}

/// The keys of a descriptor list, in order.
pub open spec fn descriptor_keys(ds: Seq<FeatureDescriptor>) -> Seq<Seq<char>> {
    ds.map_values(|d: FeatureDescriptor| d.key@)
}

/// The energy extractor's features: RMS, RMS in dBFS, peak, peak-normalized
/// RMS in dB, and the fraction of quiet sub-windows.
pub open spec fn energy_schema(r: Seq<FeatureDescriptor>) -> bool {
    &&& r.len() == 5
    &&& number_descriptor(r[0], "audio.rms"@, 0, ONE as int, "amplitude_0_1"@, TimeWindow::Instant, AUDIO_SOURCE@)
    &&& number_descriptor(r[1], "audio.rms_db"@, -120 * ONE, 0, "dBFS"@, TimeWindow::Instant, AUDIO_SOURCE@)
    &&& number_descriptor(r[2], "audio.peak"@, 0, ONE as int, "amplitude_0_1"@, TimeWindow::Instant, AUDIO_SOURCE@)
    &&& number_descriptor(r[3], "audio.rms_db_pn"@, -120 * ONE, 0, "dB_peak_normalized"@, TimeWindow::Instant, AUDIO_SOURCE@)
    &&& number_descriptor(r[4], "audio.low_energy_ratio"@, 0, ONE as int, "ratio_0_1"@, TimeWindow::Sliding { ms: 1000 }, AUDIO_SOURCE@)
}

/// The voice-activity extractor's features: the activity flag, the voiced
/// fraction and the zero-crossing rate.
pub open spec fn voice_activity_schema(r: Seq<FeatureDescriptor>) -> bool {
    &&& r.len() == 3
    &&& r[0].key@ == "audio.voice_activity"@
    &&& r[0].kind == FeatureKind::Bool
    &&& r[0].unit is None
    &&& r[0].window == TimeWindow::Instant
    &&& r[0].source@ == AUDIO_SOURCE@
    &&& r[0].version == 1
    &&& number_descriptor(r[1], "audio.voice_ratio"@, 0, ONE as int, "ratio_0_1"@, TimeWindow::Sliding { ms: 1000 }, AUDIO_SOURCE@)
    &&& number_descriptor(r[2], "audio.zero_crossing_rate"@, 0, ONE as int, "ratio_0_1"@, TimeWindow::Instant, AUDIO_SOURCE@)
}

/// The speaker extractor's features: speaker count and activity changes per
/// second.
pub open spec fn speaker_schema(r: Seq<FeatureDescriptor>) -> bool {
    &&& r.len() == 2
    &&& number_descriptor(r[0], "audio.speaker_count"@, 0, 16 * ONE, "count"@, TimeWindow::Sliding { ms: 5000 }, SPEAKER_SOURCE@)
    &&& number_descriptor(r[1], "audio.activity_transitions_per_sec"@, 0, 50 * ONE, "transitions_per_second"@, TimeWindow::Sliding { ms: 5000 }, SPEAKER_SOURCE@)
}

/// The spectral extractor's features: flatness, centroid and rolloff.
pub open spec fn spectral_schema(r: Seq<FeatureDescriptor>) -> bool {
    &&& r.len() == 3
    &&& number_descriptor(r[0], "audio.spectral_flatness"@, 0, ONE as int, "ratio_0_1"@, TimeWindow::Sliding { ms: 1000 }, AUDIO_SOURCE@)
    &&& number_descriptor(r[1], "audio.spectral_centroid_hz"@, 0, 8000 * ONE, "Hz"@, TimeWindow::Sliding { ms: 1000 }, AUDIO_SOURCE@)
    &&& number_descriptor(r[2], "audio.spectral_rolloff_hz"@, 0, 8000 * ONE, "Hz"@, TimeWindow::Sliding { ms: 1000 }, AUDIO_SOURCE@)
}

/// RMS / peak / dBFS extractor.
#[derive(Debug, Clone, Copy)]
pub struct EnergyExtractor;

impl EnergyExtractor {
    /// Construct a new extractor.
    pub fn new() -> (r: Self) {
        EnergyExtractor
    }

    /// Identify the extractor for provenance / audit.
    pub fn name(&self) -> (r: &'static str)
        ensures
            r@ == "perceptkit-audio::EnergyExtractor"@,
    {
        "perceptkit-audio::EnergyExtractor"
    }

    /// The five features this extractor emits.
    pub fn descriptors(&self) -> (r: Vec<FeatureDescriptor>)
        ensures
            energy_schema(r@),
    {
        proof {
            reveal_strlit("audio.rms");
            reveal_strlit("audio.rms_db");
            reveal_strlit("audio.peak");
            reveal_strlit("audio.rms_db_pn");
            reveal_strlit("audio.low_energy_ratio");
        }
        let mut r: Vec<FeatureDescriptor> = Vec::new();
        r.push(number("audio.rms", 0, ONE, "amplitude_0_1", TimeWindow::Instant, AUDIO_SOURCE));
        r.push(number("audio.rms_db", -120 * ONE, 0, "dBFS", TimeWindow::Instant, AUDIO_SOURCE));
        r.push(number("audio.peak", 0, ONE, "amplitude_0_1", TimeWindow::Instant, AUDIO_SOURCE));
        r.push(number("audio.rms_db_pn", -120 * ONE, 0, "dB_peak_normalized", TimeWindow::Instant, AUDIO_SOURCE));
        r.push(number("audio.low_energy_ratio", 0, ONE, "ratio_0_1", TimeWindow::Sliding { ms: 1000 }, AUDIO_SOURCE));
        r
    }
}

/// Name of the voice-activity extractor.
pub fn voice_activity_name() -> (r: &'static str)
    ensures
        r@ == "perceptkit-audio::VoiceActivityExtractor"@,
{
    "perceptkit-audio::VoiceActivityExtractor"
}

/// Descriptors of the voice-activity extractor: a boolean activity flag,
/// the voiced fraction and the zero-crossing rate.
pub fn voice_activity_descriptors() -> (r: Vec<FeatureDescriptor>)
    ensures
        voice_activity_schema(r@),
{
    proof {
        reveal_strlit("audio.voice_activity");
        reveal_strlit("audio.voice_ratio");
        reveal_strlit("audio.zero_crossing_rate");
    }
    let mut r: Vec<FeatureDescriptor> = Vec::new();
    r.push(FeatureDescriptor {
        key: FeatureKey::from_valid("audio.voice_activity"),
        kind: FeatureKind::Bool,
        unit: None,
        window: TimeWindow::Instant,
        source: AUDIO_SOURCE.to_owned(),
        version: 1,
    });
    r.push(number("audio.voice_ratio", 0, ONE, "ratio_0_1", TimeWindow::Sliding { ms: 1000 }, AUDIO_SOURCE));
    r.push(number("audio.zero_crossing_rate", 0, ONE, "ratio_0_1", TimeWindow::Instant, AUDIO_SOURCE));
    r
}

/// Name of the heuristic speaker-count extractor.
pub fn speaker_name() -> (r: &'static str)
    ensures
        r@ == "perceptkit-audio::MultiSpeakerExtractor (heuristic v0.2)"@,
{
    "perceptkit-audio::MultiSpeakerExtractor (heuristic v0.2)"
}

/// Descriptors of the heuristic speaker-count extractor.
pub fn speaker_descriptors() -> (r: Vec<FeatureDescriptor>)
    ensures
        speaker_schema(r@),
{
    proof {
        reveal_strlit("audio.speaker_count");
        reveal_strlit("audio.activity_transitions_per_sec");
    }
    let mut r: Vec<FeatureDescriptor> = Vec::new();
    r.push(number("audio.speaker_count", 0, 16 * ONE, "count", TimeWindow::Sliding { ms: 5000 }, SPEAKER_SOURCE));
    r.push(number("audio.activity_transitions_per_sec", 0, 50 * ONE, "transitions_per_second", TimeWindow::Sliding { ms: 5000 }, SPEAKER_SOURCE));
    r
}

/// Name of the spectral extractor.
pub fn spectral_name() -> (r: &'static str)
    ensures
        r@ == "perceptkit-audio::SpectralExtractor"@,
{
    "perceptkit-audio::SpectralExtractor"
}

/// Descriptors of the spectral extractor: flatness, centroid, rolloff.
pub fn spectral_descriptors() -> (r: Vec<FeatureDescriptor>)
    ensures
        spectral_schema(r@),
{
    proof {
        reveal_strlit("audio.spectral_flatness");
        reveal_strlit("audio.spectral_centroid_hz");
        reveal_strlit("audio.spectral_rolloff_hz");
    }
    let mut r: Vec<FeatureDescriptor> = Vec::new();
    r.push(number("audio.spectral_flatness", 0, ONE, "ratio_0_1", TimeWindow::Sliding { ms: 1000 }, AUDIO_SOURCE));
    r.push(number("audio.spectral_centroid_hz", 0, 8000 * ONE, "Hz", TimeWindow::Sliding { ms: 1000 }, AUDIO_SOURCE));
    r.push(number("audio.spectral_rolloff_hz", 0, 8000 * ONE, "Hz", TimeWindow::Sliding { ms: 1000 }, AUDIO_SOURCE));
    r
}

/// Provenance tag of the Silero voice-activity extractor.
pub const SILERO_SOURCE: &'static str = "perceptkit-audio@0.1.0/silero";

/// Name of the Silero voice-activity extractor.
pub fn silero_name() -> (r: &'static str)
    ensures
        r@ == "perceptkit-audio::SileroVadExtractor (rten)"@,
{
    "perceptkit-audio::SileroVadExtractor (rten)"
}

/// Descriptors of the Silero voice-activity extractor: the activity flag and
/// voiced fraction (schema version 2) and the mean speech probability.
pub fn silero_descriptors() -> (r: Vec<FeatureDescriptor>)
    ensures
        r@.len() == 3,
        r@[0].key@ == "audio.voice_activity"@ && r@[0].kind == FeatureKind::Bool && r@[0].unit is None
            && r@[0].window == TimeWindow::Instant && r@[0].source@ == SILERO_SOURCE@ && r@[0].version == 2,
        r@[1].key@ == "audio.voice_ratio"@ && r@[1].kind->min == Some(0i64) && r@[1].kind->max == Some(ONE)
            && r@[1].kind is F64 && opt_seq(r@[1].unit) == Some("ratio_0_1"@) && r@[1].window == (TimeWindow::Sliding { ms: 1000 })
            && r@[1].source@ == SILERO_SOURCE@ && r@[1].version == 2,
        number_descriptor(r@[2], "audio.voice_prob_mean"@, 0, ONE as int, "probability"@, TimeWindow::Sliding { ms: 1000 }, SILERO_SOURCE@),
{
    proof {
        reveal_strlit("audio.voice_activity");
        reveal_strlit("audio.voice_ratio");
        reveal_strlit("audio.voice_prob_mean");
    }
    let mut r: Vec<FeatureDescriptor> = Vec::new();
    r.push(FeatureDescriptor {
        key: FeatureKey::from_valid("audio.voice_activity"),
        kind: FeatureKind::Bool,
        unit: None,
        window: TimeWindow::Instant,
        source: SILERO_SOURCE.to_owned(),
        version: 2,
    });
    r.push(FeatureDescriptor {
        key: FeatureKey::from_valid("audio.voice_ratio"),
        kind: FeatureKind::F64 { min: Some(0), max: Some(ONE) },
        unit: Some("ratio_0_1".to_owned()),
        window: TimeWindow::Sliding { ms: 1000 },
        source: SILERO_SOURCE.to_owned(),
        version: 2,
    });
    r.push(number("audio.voice_prob_mean", 0, ONE, "probability", TimeWindow::Sliding { ms: 1000 }, SILERO_SOURCE));
    r
}

/// The keys of every default audio feature, in registration order.
pub open spec fn audio_keys() -> Seq<Seq<char>> {
    seq![
        "audio.rms"@, "audio.rms_db"@, "audio.peak"@, "audio.rms_db_pn"@, "audio.low_energy_ratio"@,
        "audio.voice_activity"@, "audio.voice_ratio"@, "audio.zero_crossing_rate"@,
        "audio.speaker_count"@, "audio.activity_transitions_per_sec"@,
        "audio.spectral_flatness"@, "audio.spectral_centroid_hz"@, "audio.spectral_rolloff_hz"@,
    ]
}

proof fn lemma_audio_keys_distinct()
    ensures
        audio_keys().no_duplicates(),
{
    reveal_strlit("audio.rms");
    reveal_strlit("audio.rms_db");
    reveal_strlit("audio.peak");
    reveal_strlit("audio.rms_db_pn");
    reveal_strlit("audio.low_energy_ratio");
    reveal_strlit("audio.voice_activity");
    reveal_strlit("audio.voice_ratio");
    reveal_strlit("audio.zero_crossing_rate");
    reveal_strlit("audio.speaker_count");
    reveal_strlit("audio.activity_transitions_per_sec");
    reveal_strlit("audio.spectral_flatness");
    reveal_strlit("audio.spectral_centroid_hz");
    reveal_strlit("audio.spectral_rolloff_hz");
    let k = audio_keys();
    assert forall|i: int, j: int| 0 <= i < k.len() && 0 <= j < k.len() && i != j implies k[i] != k[j] by {
        if k[i] == k[j] {
            assert(k[i][6] == k[j][6]);
            assert(k[i][7] == k[j][7]);
            assert(k[i][8] == k[j][8]);
            assert(k[i].len() == k[j].len());
        }
    }
}

/// Default descriptors produced by the audio extractors: energy, voice
/// activity, speaker count, spectral — in that order, no key twice.
pub fn audio_descriptors() -> (r: Vec<FeatureDescriptor>)
    ensures
        r@.len() == 13,
        energy_schema(r@.subrange(0, 5)),
        voice_activity_schema(r@.subrange(5, 8)),
        speaker_schema(r@.subrange(8, 10)),
        spectral_schema(r@.subrange(10, 13)),
        descriptor_keys(r@) == audio_keys(),
        descriptor_keys(r@).no_duplicates(),
{
    let mut out = EnergyExtractor.descriptors();
    let ghost e0 = out@;
    let mut v = voice_activity_descriptors();
    let ghost v0 = v@;
    out.append(&mut v);
    let mut s = speaker_descriptors();
    let ghost s0 = s@;
    out.append(&mut s);
    let mut p = spectral_descriptors();
    let ghost p0 = p@;
    out.append(&mut p);
    proof {
        assert(descriptor_keys(out@) =~= audio_keys());
        lemma_audio_keys_distinct();
        assert(out@.subrange(0, 5) =~= e0);
        assert(out@.subrange(5, 8) =~= v0);
        assert(out@.subrange(8, 10) =~= s0);
        assert(out@.subrange(10, 13) =~= p0);
    }
    out
}


/// Number of activity changes along `active`, starting from inactive.
pub open spec fn transitions(active: Seq<bool>) -> nat
    decreases active.len(),
{
    if active.len() == 0 {
        0
    } else {
        let prev = if active.len() == 1 { false } else { active[active.len() - 2] };
        transitions(active.drop_last()) + if active.last() != prev { 1nat } else { 0 }
    }
}

/// A flag equal to the one before it adds no change: repeating the last
/// flag of a non-empty sequence leaves the count unchanged, and appending a
/// flag that differs from the last one (inactive before the first) adds one.
pub proof fn lemma_transitions_extend(active: Seq<bool>, x: bool)
    ensures
        transitions(active.push(x)) == transitions(active) + if x != (if active.len() == 0 { false } else {
            active.last()
        }) { 1int } else { 0 },
{
    assert(active.push(x).drop_last() =~= active);
}

/// A run of one flag repeated `n > 0` times has one change when the flag is
/// active (from the inactive start) and none when it is inactive.
pub proof fn lemma_transitions_constant(active: Seq<bool>, x: bool)
    requires
        forall|i: int| 0 <= i < active.len() ==> active[i] == x,
    ensures
        transitions(active) == if x && active.len() > 0 { 1nat } else { 0nat },
    decreases active.len(),
{
    if active.len() > 0 {
        let init = active.drop_last();
        lemma_transitions_constant(init, x);
        lemma_transitions_extend(init, active.last());
        assert(init.push(active.last()) =~= active);
    }
}

/// The count never exceeds the number of sub-windows, and it is odd exactly
/// when the last sub-window is active (each change flips the state, which
/// starts inactive).
pub proof fn lemma_transitions_parity(active: Seq<bool>)
    ensures
        transitions(active) <= active.len(),
        transitions(active) % 2 == 1 <==> (active.len() > 0 && active.last()),
    decreases active.len(),
{
    if active.len() > 0 {
        let init = active.drop_last();
        lemma_transitions_parity(init);
        lemma_transitions_extend(init, active.last());
        assert(init.push(active.last()) =~= active);
    }
}

/// Count the activity changes along the per-sub-window activity flags.
pub fn count_transitions(active: &Vec<bool>) -> (r: usize)
    ensures
        r == transitions(active@),
{
    let mut n: usize = 0;
    let mut last = false;
    let mut i: usize = 0;
    while i < active.len()
        invariant
            i <= active@.len(),
            n == transitions(active@.take(i as int)),
            n <= i,
            last == if i == 0 { false } else { active@[i - 1] },
        decreases active@.len() - i,
    {
        proof {
            let t = active@.take(i + 1);
            assert(t.drop_last() =~= active@.take(i as int));
            if i > 0 {
                assert(t[t.len() - 2] == active@[i - 1]);
            }
        }
        if active[i] != last {
            n = n + 1;
        }
        last = active[i];
        i = i + 1;
    }
    assert(active@.take(i as int) =~= active@);
    n
}

/// Whether `transitions` changes over `samples` samples at `rate` per
/// second reach `threshold` changes per second (fixed point). With no
/// sample rate the duration is unbounded and the rate is zero.
pub open spec fn rate_at_least(transitions: nat, samples: nat, rate: nat, threshold: int) -> bool {
    if rate == 0 || samples == 0 {
        0 >= threshold
    } else {
        transitions * rate * 1_000_000 >= threshold * samples
    }
}

/// The speaker-count estimate: 1 with fewer than two sub-windows, else 3
/// when the change rate reaches `three_min`, 2 when it reaches `two_min`,
/// and 1 otherwise.
pub open spec fn speaker_class(sub_count: nat, transitions: nat, samples: nat, rate: nat, two_min: int, three_min: int) -> u32 {
    if sub_count < 2 {
        1
    } else if rate_at_least(transitions, samples, rate, three_min) {
        3
    } else if rate_at_least(transitions, samples, rate, two_min) {
        2
    } else {
        1
    }
}

fn reaches(transitions: usize, samples: usize, rate: u32, threshold: i64) -> (r: bool)
    ensures
        r == rate_at_least(transitions as nat, samples as nat, rate as nat, threshold as int),
{
    if rate == 0 || samples == 0 {
        0 >= threshold
    } else {
        assert(0 <= transitions * rate <= 0x1_0000_0000_0000_0000 * 0x1_0000_0000) by (nonlinear_arith)
            requires
                0 <= transitions <= usize::MAX,
                usize::MAX <= u64::MAX,
                0 <= rate <= u32::MAX,
        ;
        let lhs: i128 = (transitions as i128) * (rate as i128);
        let lhs = lhs * 1_000_000;
        assert(i64::MIN * u64::MAX <= threshold * samples <= i64::MAX * u64::MAX) by (nonlinear_arith)
            requires
                0 <= samples <= usize::MAX,
                usize::MAX <= u64::MAX,
                i64::MIN <= threshold <= i64::MAX,
        ;
        let rhs: i128 = (threshold as i128) * (samples as i128);
        lhs >= rhs
    }
}

/// Estimate the number of speakers from the activity changes of a buffer:
/// `sub_count` sub-windows with `transitions` changes over `samples`
/// samples at `rate` per second, against the two- and three-speaker change
/// rates (fixed point).
pub fn estimate_speakers(
    sub_count: usize,
    transitions: usize,
    samples: usize,
    rate: u32,
    two_min: i64,
    three_min: i64,
) -> (r: u32)
    ensures
        r == speaker_class(sub_count as nat, transitions as nat, samples as nat, rate as nat, two_min as int, three_min as int),
{
    if sub_count < 2 {
        1
    } else if reaches(transitions, samples, rate, three_min) {
        3
    } else if reaches(transitions, samples, rate, two_min) {
        2
    } else {
        1
    }
}

} // verus!
