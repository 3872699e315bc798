//! Decisions the patch compiler takes from the term alone: which taper a
//! modulation cable gets, and whether the voice needs a DC blocker.

use vstd::prelude::*;

use crate::term::{AudioNode, DriveMode, FilterKind};

verus! {

/// How a normalized knob value maps to the volts written to its handle.
#[derive(Clone, Copy, Debug, PartialEq, Eq, Structural)]
pub enum ParamMap {
    /// Pass through (a `0..1` knob CV).
    Unit,
    /// Resonance, capped below self-oscillation.
    Resonance,
    /// Delay feedback, capped below runaway.
    Feedback,
    /// Feedback on a bipolar port, where the sign of the feedback is itself a
    /// timbre; knob centre is no feedback.
    FeedbackBipolar,
    /// Crossfader position on a ±5 V port.
    XfadePos,
    /// Wavefolder threshold, kept off zero.
    FoldThreshold,
    /// Shelf or bell gain on a ±5 V port, where knob centre must be 0 dB.
    GainBipolar,
    /// Formant shift on a ±5 V port, where knob centre is no shift.
    FormantShift,
    /// A clock tempo over the port's whole 0–10 V range.
    ClockRate,
    /// Euclidean step count, 4..16 rather than 2..16.
    EuclidSteps,
    /// Euclidean pulse density, bounded off both degenerate ends at every
    /// step count.
    EuclidPulses,
    /// A slew limiter time: the bottom of a port whose own map is already
    /// square-law.
    SlewTime,
    /// Transposition on the pitch shifter's ±5 V `shift` port, ∓12 semitones
    /// with unison at knob centre.
    Semitones,
    /// The ducker's `amount`, a bipolar CV summed onto the module's own knob
    /// base.
    DuckAmount,
    /// A dynamics detector threshold, geometric over the detector's volt
    /// range.
    DetectorThreshold,
    /// The same threshold on the ducker's knob-plus-CV port.
    DuckThreshold,
    /// Mod depth for a ±5 V source into a normalized `0..1` port.
    ModDepthBipolar,
    /// Mod depth for a 0–10 V source into a normalized `0..1` port.
    ModDepthUnipolar,
    /// Mod depth for a ±5 V source into the pitch offset (V/Oct).
    ModDepthPitch,
    /// Mod depth for a 0–10 V source into the pitch offset (V/Oct).
    ModDepthPitchUnipolar,
    /// Mod depth for a ±5 V source into a ±5 V gain port (the EQ bands).
    ModDepthGain,
    /// Mod depth for a 0–10 V source into a ±5 V gain port.
    ModDepthGainUnipolar,
    /// Mod depth for a ±5 V source into the pitch shifter's semitone port.
    ModDepthShift,
    /// Mod depth for a 0–10 V source into the semitone port.
    ModDepthShiftUnipolar,
    /// Mod depth for a ±5 V source into a knob-plus-CV port, where ±5 V spans
    /// the whole normalized parameter.
    ModDepthParamCv,
    /// Mod depth for a 0–10 V source into a knob-plus-CV port.
    ModDepthParamCvUnipolar,
    /// Mod depth for a ±5 V source into a dynamics threshold port.
    ModDepthDetector,
    /// Mod depth for a 0–10 V source into a dynamics threshold port.
    ModDepthDetectorUnipolar,
}

/// Which *destination* a modulation cable is headed for.
///
/// The attenuverter level that means "full depth" is a property of the
/// destination's volt scale, not of the knob: a normalized 0..1 CV port, the
/// V/Oct pitch offset and a ±5 V gain port all want different levels for
/// the same musical amount. The compiler picks the source polarity;
/// this picks the scale, and the two together choose the taper.
#[derive(Clone, Copy, Debug, PartialEq, Eq, Structural)]
pub enum DepthScale {
    /// A 0..1 CV port (cutoff, morph, depth, drive, position, …) — where
    /// almost every mod slot in this grammar lands.
    Normalized,
    /// The pitch offset's summing input, in V/Oct.
    Pitch,
    /// A ±5 V gain port, read by quiver as `cv/5 · 12` dB.
    Gain,
    /// The pitch shifter's `shift` port, read by quiver as `cv/5 · 24`
    /// semitones.
    Shift,
    /// A modulated-parameter knob+CV port — the ducker's
    /// `amount` and `threshold`. The CV is summed onto the module's own knob
    /// base after `cv / 5`, so ±5 V spans the parameter's *whole* normalized
    /// range rather than the 0..1 the plain CV ports carry.
    ParamCv,
    /// A dynamics detector threshold: a 0..1 CV port whose *knob* is
    /// geometric, so the useful settings crowd the bottom of it.
    Detector,
}

impl DepthScale {
    /// The taper for this destination, given the source's polarity.
    pub open spec fn spec_taper(self, unipolar: bool) -> ParamMap {
        match (self, unipolar) {
            (DepthScale::Normalized, false) => ParamMap::ModDepthBipolar,
            (DepthScale::Normalized, true) => ParamMap::ModDepthUnipolar,
            (DepthScale::Pitch, false) => ParamMap::ModDepthPitch,
            (DepthScale::Pitch, true) => ParamMap::ModDepthPitchUnipolar,
            (DepthScale::Gain, false) => ParamMap::ModDepthGain,
            (DepthScale::Gain, true) => ParamMap::ModDepthGainUnipolar,
            (DepthScale::Shift, false) => ParamMap::ModDepthShift,
            (DepthScale::Shift, true) => ParamMap::ModDepthShiftUnipolar,
            (DepthScale::ParamCv, false) => ParamMap::ModDepthParamCv,
            (DepthScale::ParamCv, true) => ParamMap::ModDepthParamCvUnipolar,
            (DepthScale::Detector, false) => ParamMap::ModDepthDetector,
            (DepthScale::Detector, true) => ParamMap::ModDepthDetectorUnipolar,
        }
    }

    /// The taper for this destination, given the source's polarity.
    pub fn taper(self, unipolar: bool) -> (r: ParamMap)
        ensures
            r == self.spec_taper(unipolar),
    {
        match (self, unipolar) {
            (DepthScale::Normalized, false) => ParamMap::ModDepthBipolar,
            (DepthScale::Normalized, true) => ParamMap::ModDepthUnipolar,
            (DepthScale::Pitch, false) => ParamMap::ModDepthPitch,
            (DepthScale::Pitch, true) => ParamMap::ModDepthPitchUnipolar,
            (DepthScale::Gain, false) => ParamMap::ModDepthGain,
            (DepthScale::Gain, true) => ParamMap::ModDepthGainUnipolar,
            (DepthScale::Shift, false) => ParamMap::ModDepthShift,
            (DepthScale::Shift, true) => ParamMap::ModDepthShiftUnipolar,
            (DepthScale::ParamCv, false) => ParamMap::ModDepthParamCv,
            (DepthScale::ParamCv, true) => ParamMap::ModDepthParamCvUnipolar,
            (DepthScale::Detector, false) => ParamMap::ModDepthDetector,
            (DepthScale::Detector, true) => ParamMap::ModDepthDetectorUnipolar,
        }
    }
}

/// Whether the audio a subterm emits can carry a standing DC offset: only a
/// ladder filter and tube distortion rectify, a dynamics module passes on its
/// input's offset but never its detector branch's, a vocoder's band filters
/// remove any offset, and every other module passes on what its inputs carry.
pub open spec fn spec_makes_dc(n: AudioNode) -> bool
    decreases n,
{
    match n {
        AudioNode::Comp { input, .. } => spec_makes_dc(*input),
        AudioNode::Duck { input, .. } => spec_makes_dc(*input),
        AudioNode::Gate { input, .. } => spec_makes_dc(*input),
        AudioNode::Vocoder { .. } => false,
        AudioNode::Vco { .. } => false,
        AudioNode::Supersaw { .. } => false,
        AudioNode::Noise { .. } => false,
        AudioNode::Wavetable { .. } => false,
        AudioNode::Pluck { .. } => false,
        AudioNode::Formant { .. } => false,
        AudioNode::Mix { a, b, .. } => spec_makes_dc(*a) || spec_makes_dc(*b),
        AudioNode::RingMod { a, b, .. } => spec_makes_dc(*a) || spec_makes_dc(*b),
        AudioNode::Filter { kind, input, .. } => kind == FilterKind::Ladder || spec_makes_dc(*input),
        AudioNode::Distortion { mode, input, .. } => mode == DriveMode::Tube || spec_makes_dc(*input),
        AudioNode::Fold { input, .. } => spec_makes_dc(*input),
        AudioNode::Delay { input, .. } => spec_makes_dc(*input),
        AudioNode::Chorus { input, .. } => spec_makes_dc(*input),
        AudioNode::Reverb { input, .. } => spec_makes_dc(*input),
        AudioNode::Bitcrush { input, .. } => spec_makes_dc(*input),
        AudioNode::Phaser { input, .. } => spec_makes_dc(*input),
        AudioNode::Flanger { input, .. } => spec_makes_dc(*input),
        AudioNode::Tremolo { input, .. } => spec_makes_dc(*input),
        AudioNode::Vibrato { input, .. } => spec_makes_dc(*input),
        AudioNode::Eq { input, .. } => spec_makes_dc(*input),
        AudioNode::Granular { input, .. } => spec_makes_dc(*input),
        AudioNode::Shift { input, .. } => spec_makes_dc(*input),
    }
}

/// Does this subtree contain a nonlinearity that can rectify, i.e. produce a
/// standing DC offset at the voice's output?
pub fn makes_dc(node: &AudioNode) -> (r: bool)
    ensures
        r == spec_makes_dc(*node),
    decreases node,
{
    match node {
        AudioNode::Comp { input, .. } | AudioNode::Duck { input, .. } | AudioNode::Gate {
            input,
            ..
        } => makes_dc(input),
        AudioNode::Vocoder { .. } => false,
        AudioNode::Vco { .. }
        | AudioNode::Supersaw { .. }
        | AudioNode::Noise { .. }
        | AudioNode::Wavetable { .. }
        | AudioNode::Pluck { .. }
        | AudioNode::Formant { .. } => false,
        AudioNode::Mix { a, b, .. } | AudioNode::RingMod { a, b, .. } => makes_dc(a) || makes_dc(b),
        AudioNode::Filter { kind, input, .. } => matches!(kind, FilterKind::Ladder) || makes_dc(input),
        AudioNode::Distortion { mode, input, .. } => matches!(mode, DriveMode::Tube) || makes_dc(input),
        AudioNode::Fold { input, .. }
        | AudioNode::Delay { input, .. }
        | AudioNode::Chorus { input, .. }
        | AudioNode::Reverb { input, .. }
        | AudioNode::Bitcrush { input, .. }
        | AudioNode::Phaser { input, .. }
        | AudioNode::Flanger { input, .. }
        | AudioNode::Tremolo { input, .. }
        | AudioNode::Vibrato { input, .. }
        | AudioNode::Eq { input, .. }
        | AudioNode::Granular { input, .. }
        | AudioNode::Shift { input, .. } => makes_dc(input),
    }
}

} // verus!
