//! Compact s-expression rendering of patch terms, for logs and tests.
//!
//! Every continuous parameter is rendered by a formatter the caller supplies
//! (two decimals, in practice); octaves are signed integers and categorical
//! values are their port names and labels.

use vstd::prelude::*;
use vstd::string::StringExecFns;

use crate::term::{AudioNode, FilterKind, ModNode, Param, PatchTree};
use crate::text::{decimal, spec_decimal};

verus! {

/// Whether a formatter renders each value one way only.
pub open spec fn renders_plainly<F: Fn(Param) -> String>(f: F) -> bool {
    forall|b: Param, s1: String, s2: String|
        call_ensures(f, (b,), s1) && call_ensures(f, (b,), s2) ==> s1@ == s2@
}

/// What a formatter renders each value as.
pub open spec fn rendering<F: Fn(Param) -> String>(f: F) -> spec_fn(Param) -> Seq<char> {
    |b: Param| (choose|s: String| call_ensures(f, (b,), s))@
}

/// A signed integer with its sign always shown: `+1`, `-2`, `+0`.
pub open spec fn spec_signed(v: i8) -> Seq<char> {
    if v < 0 {
        "-"@ + spec_decimal((-v) as nat)
    } else {
        "+"@ + spec_decimal(v as nat)
    }
}

/// The filter kind as its variant is spelled.
pub open spec fn filter_kind_name(k: FilterKind) -> Seq<char> {
    match k {
        FilterKind::SvfLp => "SvfLp"@,
        FilterKind::SvfBp => "SvfBp"@,
        FilterKind::SvfHp => "SvfHp"@,
        FilterKind::Ladder => "Ladder"@,
    }
}

/// The rendering of a modulation term.
pub open spec fn spec_mod_sexpr(m: ModNode, fmt: spec_fn(Param) -> Seq<char>) -> Seq<char>
    decreases m,
{
    match m {
        ModNode::Empty => "nomod"@,
        ModNode::Lfo { wave, rate } => "(lfo "@ + wave.spec_port_name() + " "@ + fmt(rate) + ")"@,
        ModNode::Env { attack, decay } => "(env a="@ + fmt(attack) + " d="@ + fmt(decay) + ")"@,
        ModNode::Rand { rate, glide } => "(rand r="@ + fmt(rate) + " g="@ + fmt(glide) + ")"@,
        ModNode::Follow { sens, release } => "(follow s="@ + fmt(sens) + " r="@ + fmt(release)
            + ")"@,
        ModNode::Euclid { rate, steps, pulses } => "(euclid r="@ + fmt(rate) + " s="@ + fmt(steps)
            + " p="@ + fmt(pulses) + ")"@,
        ModNode::Op { kind, p0, p1, input } => if kind.spec_param_sites().len() == 1 {
            "("@ + kind.spec_label() + " "@ + fmt(p0) + " "@ + spec_mod_sexpr(*input, fmt) + ")"@
        } else {
            "("@ + kind.spec_label() + " "@ + fmt(p0) + " "@ + fmt(p1) + " "@ + spec_mod_sexpr(
                *input,
                fmt,
            ) + ")"@
        },
        ModNode::Pair { kind, a, b } => "("@ + kind.spec_label() + " "@ + spec_mod_sexpr(*a, fmt)
            + " "@ + spec_mod_sexpr(*b, fmt) + ")"@,
    }
}

/// The rendering of an audio term.
pub open spec fn spec_node_sexpr(n: AudioNode, fmt: spec_fn(Param) -> Seq<char>) -> Seq<char>
    decreases n,
{
    match n {
        AudioNode::Vco { wave, octave, detune, modulation, .. } => "(vco "@ + wave.spec_port_name() + " "@ + spec_signed(octave) + " "@ + fmt(detune) + " "@ + spec_mod_sexpr(modulation, fmt) + ")"@,
        AudioNode::Supersaw { octave, detune, mix, modulation, .. } => "(supersaw "@ + spec_signed(octave) + " "@ + fmt(detune) + " "@ + fmt(mix) + " "@ + spec_mod_sexpr(modulation, fmt) + ")"@,
        AudioNode::Noise { color } => "(noise "@ + color.spec_port_name() + ")"@,
        AudioNode::Formant { vowel, shift, octave, modulation, .. } => "(formant v="@ + fmt(vowel) + " s="@ + fmt(shift) + " "@ + spec_signed(octave) + " "@ + spec_mod_sexpr(modulation, fmt) + ")"@,
        AudioNode::Wavetable { table, octave, morph, modulation, .. } => "(wavetable "@ + table.spec_label() + " "@ + spec_signed(octave) + " m="@ + fmt(morph) + " "@ + spec_mod_sexpr(modulation, fmt) + ")"@,
        AudioNode::Pluck { octave, damping, brightness, modulation, .. } => "(pluck "@ + spec_signed(octave) + " d="@ + fmt(damping) + " b="@ + fmt(brightness) + " "@ + spec_mod_sexpr(modulation, fmt) + ")"@,
        AudioNode::Mix { balance, a, b } => "(mix "@ + fmt(balance) + " "@ + spec_node_sexpr(*a, fmt) + " "@ + spec_node_sexpr(*b, fmt) + ")"@,
        AudioNode::RingMod { mix, a, b } => "(ringmod "@ + fmt(mix) + " "@ + spec_node_sexpr(*a, fmt) + " "@ + spec_node_sexpr(*b, fmt) + ")"@,
        AudioNode::Filter { kind, cutoff, resonance, input, modulation, .. } => "(filter "@ + filter_kind_name(kind) + " c="@ + fmt(cutoff) + " r="@ + fmt(resonance) + " "@ + spec_mod_sexpr(modulation, fmt) + " "@ + spec_node_sexpr(*input, fmt) + ")"@,
        AudioNode::Fold { threshold, input, modulation, .. } => "(fold t="@ + fmt(threshold) + " "@ + spec_mod_sexpr(modulation, fmt) + " "@ + spec_node_sexpr(*input, fmt) + ")"@,
        AudioNode::Delay { time, feedback, mix, input, modulation, .. } => "(delay t="@ + fmt(time) + " fb="@ + fmt(feedback) + " mix="@ + fmt(mix) + " "@ + spec_mod_sexpr(modulation, fmt) + " "@ + spec_node_sexpr(*input, fmt) + ")"@,
        AudioNode::Chorus { rate, depth, mix, input, modulation, .. } => "(chorus r="@ + fmt(rate) + " d="@ + fmt(depth) + " mix="@ + fmt(mix) + " "@ + spec_mod_sexpr(modulation, fmt) + " "@ + spec_node_sexpr(*input, fmt) + ")"@,
        AudioNode::Reverb { size, damp, mix, input, modulation, .. } => "(reverb s="@ + fmt(size) + " d="@ + fmt(damp) + " mix="@ + fmt(mix) + " "@ + spec_mod_sexpr(modulation, fmt) + " "@ + spec_node_sexpr(*input, fmt) + ")"@,
        AudioNode::Distortion { drive, tone, mode, input, modulation, .. } => "(dist "@ + mode.spec_label() + " g="@ + fmt(drive) + " t="@ + fmt(tone) + " "@ + spec_mod_sexpr(modulation, fmt) + " "@ + spec_node_sexpr(*input, fmt) + ")"@,
        AudioNode::Bitcrush { bits, downsample, input, modulation, .. } => "(bitcrush b="@ + fmt(bits) + " r="@ + fmt(downsample) + " "@ + spec_mod_sexpr(modulation, fmt) + " "@ + spec_node_sexpr(*input, fmt) + ")"@,
        AudioNode::Phaser { rate, depth, feedback, input, modulation, .. } => "(phaser r="@ + fmt(rate) + " d="@ + fmt(depth) + " fb="@ + fmt(feedback) + " "@ + spec_mod_sexpr(modulation, fmt) + " "@ + spec_node_sexpr(*input, fmt) + ")"@,
        AudioNode::Flanger { rate, depth, feedback, input, modulation, .. } => "(flanger r="@ + fmt(rate) + " d="@ + fmt(depth) + " fb="@ + fmt(feedback) + " "@ + spec_mod_sexpr(modulation, fmt) + " "@ + spec_node_sexpr(*input, fmt) + ")"@,
        AudioNode::Tremolo { rate, depth, shape, input, modulation, .. } => "(tremolo r="@ + fmt(rate) + " d="@ + fmt(depth) + " s="@ + fmt(shape) + " "@ + spec_mod_sexpr(modulation, fmt) + " "@ + spec_node_sexpr(*input, fmt) + ")"@,
        AudioNode::Vibrato { rate, depth, mix, input, modulation, .. } => "(vibrato r="@ + fmt(rate) + " d="@ + fmt(depth) + " mix="@ + fmt(mix) + " "@ + spec_mod_sexpr(modulation, fmt) + " "@ + spec_node_sexpr(*input, fmt) + ")"@,
        AudioNode::Eq { low, mid, high, input, modulation, .. } => "(eq l="@ + fmt(low) + " m="@ + fmt(mid) + " h="@ + fmt(high) + " "@ + spec_mod_sexpr(modulation, fmt) + " "@ + spec_node_sexpr(*input, fmt) + ")"@,
        AudioNode::Granular { position, size, density, input, modulation, .. } => "(granular p="@ + fmt(position) + " s="@ + fmt(size) + " d="@ + fmt(density) + " "@ + spec_mod_sexpr(modulation, fmt) + " "@ + spec_node_sexpr(*input, fmt) + ")"@,
        AudioNode::Shift { semis, window, mix, input, modulation, .. } => "(shift s="@ + fmt(semis) + " w="@ + fmt(window) + " mix="@ + fmt(mix) + " "@ + spec_mod_sexpr(modulation, fmt) + " "@ + spec_node_sexpr(*input, fmt) + ")"@,
        AudioNode::Comp { threshold, ratio, makeup, input, sidechain, modulation, .. } => "(comp t="@ + fmt(threshold) + " r="@ + fmt(ratio) + " m="@ + fmt(makeup) + " "@ + spec_mod_sexpr(modulation, fmt) + " "@ + spec_node_sexpr(*input, fmt) + " "@ + spec_node_sexpr(*sidechain, fmt) + ")"@,
        AudioNode::Duck { amount, threshold, release, input, key, modulation, .. } => "(duck a="@ + fmt(amount) + " t="@ + fmt(threshold) + " r="@ + fmt(release) + " "@ + spec_mod_sexpr(modulation, fmt) + " "@ + spec_node_sexpr(*input, fmt) + " "@ + spec_node_sexpr(*key, fmt) + ")"@,
        AudioNode::Gate { threshold, range, release, input, sidechain, modulation, .. } => "(gate t="@ + fmt(threshold) + " rg="@ + fmt(range) + " r="@ + fmt(release) + " "@ + spec_mod_sexpr(modulation, fmt) + " "@ + spec_node_sexpr(*input, fmt) + " "@ + spec_node_sexpr(*sidechain, fmt) + ")"@,
        AudioNode::Vocoder { bands, attack, release, carrier, modulator, modulation, .. } => "(vocoder b="@ + fmt(bands) + " a="@ + fmt(attack) + " r="@ + fmt(release) + " "@ + spec_mod_sexpr(modulation, fmt) + " "@ + spec_node_sexpr(*carrier, fmt) + " "@ + spec_node_sexpr(*modulator, fmt) + ")"@,
    }
}

/// The rendering of a patch.
pub open spec fn spec_patch_sexpr(p: PatchTree, fmt: spec_fn(Param) -> Seq<char>) -> Seq<char> {
    "(voice a="@ + fmt(p.amp.attack) + " d="@ + fmt(p.amp.decay) + " s="@ + fmt(p.amp.sustain)
        + " r="@ + fmt(p.amp.release) + " "@ + spec_node_sexpr(p.root, fmt) + ")"@
}

/// A signed integer with its sign always shown.
fn signed_text(v: i8) -> (s: String)
    ensures
        s@ == spec_signed(v),
{
    if v < 0 {
        let digits = decimal((-(v as i16)) as usize);
        String::from_str("-").concat(digits.as_str())
    } else {
        let digits = decimal(v as usize);
        String::from_str("+").concat(digits.as_str())
    }
}

/// The filter kind as its variant is spelled.
fn filter_kind_text(k: FilterKind) -> (s: &'static str)
    ensures
        s@ == filter_kind_name(k),
{
    match k {
        FilterKind::SvfLp => "SvfLp",
        FilterKind::SvfBp => "SvfBp",
        FilterKind::SvfHp => "SvfHp",
        FilterKind::Ladder => "Ladder",
    }
}

/// A continuous value as the formatter renders it.
fn real_text<F: Fn(Param) -> String>(format_real: &F, b: Param) -> (s: String)
    requires
        forall|x: Param| call_requires(*format_real, (x,)),
        renders_plainly(*format_real),
    ensures
        s@ == rendering(*format_real)(b),
{
    let s = format_real(b);
    proof {
        let c = choose|t: String| call_ensures(*format_real, (b,), t);
        assert(call_ensures(*format_real, (b,), c));
    }
    s
}

/// Render a modulation term.
fn mod_sexpr<F: Fn(Param) -> String>(m: &ModNode, format_real: &F) -> (s: String)
    requires
        forall|x: Param| call_requires(*format_real, (x,)),
        renders_plainly(*format_real),
    ensures
        s@ == spec_mod_sexpr(*m, rendering(*format_real)),
    decreases m,
{
    match m {
        ModNode::Empty => String::from_str("nomod"),
        ModNode::Lfo { wave, rate } => {
            let mut s = String::from_str("(lfo ");
            s.append(wave.port_name());
            s.append(" ");
            let part = real_text(format_real, *rate);
            s.append(part.as_str());
            s.append(")");
            s
        },
        ModNode::Env { attack, decay } => {
            let mut s = String::from_str("(env a=");
            let part = real_text(format_real, *attack);
            s.append(part.as_str());
            s.append(" d=");
            let part = real_text(format_real, *decay);
            s.append(part.as_str());
            s.append(")");
            s
        },
        ModNode::Rand { rate, glide } => {
            let mut s = String::from_str("(rand r=");
            let part = real_text(format_real, *rate);
            s.append(part.as_str());
            s.append(" g=");
            let part = real_text(format_real, *glide);
            s.append(part.as_str());
            s.append(")");
            s
        },
        ModNode::Follow { sens, release } => {
            let mut s = String::from_str("(follow s=");
            let part = real_text(format_real, *sens);
            s.append(part.as_str());
            s.append(" r=");
            let part = real_text(format_real, *release);
            s.append(part.as_str());
            s.append(")");
            s
        },
        ModNode::Euclid { rate, steps, pulses } => {
            let mut s = String::from_str("(euclid r=");
            let part = real_text(format_real, *rate);
            s.append(part.as_str());
            s.append(" s=");
            let part = real_text(format_real, *steps);
            s.append(part.as_str());
            s.append(" p=");
            let part = real_text(format_real, *pulses);
            s.append(part.as_str());
            s.append(")");
            s
        },
        ModNode::Op { kind, p0, p1, input } => {
            let mut s = String::from_str("(");
            s.append(kind.label());
            s.append(" ");
            let part = real_text(format_real, *p0);
            s.append(part.as_str());
            s.append(" ");
            if kind.param_count() != 1 {
                let part = real_text(format_real, *p1);
                s.append(part.as_str());
                s.append(" ");
            }
            let part = mod_sexpr(input, format_real);
            s.append(part.as_str());
            s.append(")");
            s
        },
        ModNode::Pair { kind, a, b } => {
            let mut s = String::from_str("(");
            s.append(kind.label());
            s.append(" ");
            let part = mod_sexpr(a, format_real);
            s.append(part.as_str());
            s.append(" ");
            let part = mod_sexpr(b, format_real);
            s.append(part.as_str());
            s.append(")");
            s
        },
    }
}

impl AudioNode {
    /// Compact s-expression rendering for logs and tests; `format_real`
    /// renders each continuous parameter.
    #[verifier::rlimit(40)]
    pub fn to_sexpr<F: Fn(Param) -> String>(&self, format_real: &F) -> (s: String)
        requires
            forall|x: Param| call_requires(*format_real, (x,)),
            renders_plainly(*format_real),
        ensures
            s@ == spec_node_sexpr(*self, rendering(*format_real)),
        decreases self,
    {
        match self {
            AudioNode::Vco { wave, octave, detune, modulation, .. } => {
                let mut s = String::from_str("(vco ");
                s.append(wave.port_name());
                s.append(" ");
                let part = signed_text(*octave);
                s.append(part.as_str());
                s.append(" ");
                let part = real_text(format_real, *detune);
                s.append(part.as_str());
                s.append(" ");
                let part = mod_sexpr(modulation, format_real);
                s.append(part.as_str());
                s.append(")");
                s
            },
            AudioNode::Supersaw { octave, detune, mix, modulation, .. } => {
                let mut s = String::from_str("(supersaw ");
                let part = signed_text(*octave);
                s.append(part.as_str());
                s.append(" ");
                let part = real_text(format_real, *detune);
                s.append(part.as_str());
                s.append(" ");
                let part = real_text(format_real, *mix);
                s.append(part.as_str());
                s.append(" ");
                let part = mod_sexpr(modulation, format_real);
                s.append(part.as_str());
                s.append(")");
                s
            },
            AudioNode::Noise { color } => {
                let mut s = String::from_str("(noise ");
                s.append(color.port_name());
                s.append(")");
                s
            },
            AudioNode::Formant { vowel, shift, octave, modulation, .. } => {
                let mut s = String::from_str("(formant v=");
                let part = real_text(format_real, *vowel);
                s.append(part.as_str());
                s.append(" s=");
                let part = real_text(format_real, *shift);
                s.append(part.as_str());
                s.append(" ");
                let part = signed_text(*octave);
                s.append(part.as_str());
                s.append(" ");
                let part = mod_sexpr(modulation, format_real);
                s.append(part.as_str());
                s.append(")");
                s
            },
            AudioNode::Wavetable { table, octave, morph, modulation, .. } => {
                let mut s = String::from_str("(wavetable ");
                s.append(table.label());
                s.append(" ");
                let part = signed_text(*octave);
                s.append(part.as_str());
                s.append(" m=");
                let part = real_text(format_real, *morph);
                s.append(part.as_str());
                s.append(" ");
                let part = mod_sexpr(modulation, format_real);
                s.append(part.as_str());
                s.append(")");
                s
            },
            AudioNode::Pluck { octave, damping, brightness, modulation, .. } => {
                let mut s = String::from_str("(pluck ");
                let part = signed_text(*octave);
                s.append(part.as_str());
                s.append(" d=");
                let part = real_text(format_real, *damping);
                s.append(part.as_str());
                s.append(" b=");
                let part = real_text(format_real, *brightness);
                s.append(part.as_str());
                s.append(" ");
                let part = mod_sexpr(modulation, format_real);
                s.append(part.as_str());
                s.append(")");
                s
            },
            AudioNode::Mix { balance, a, b } => {
                let mut s = String::from_str("(mix ");
                let part = real_text(format_real, *balance);
                s.append(part.as_str());
                s.append(" ");
                let part = a.to_sexpr(format_real);
                s.append(part.as_str());
                s.append(" ");
                let part = b.to_sexpr(format_real);
                s.append(part.as_str());
                s.append(")");
                s
            },
            AudioNode::RingMod { mix, a, b } => {
                let mut s = String::from_str("(ringmod ");
                let part = real_text(format_real, *mix);
                s.append(part.as_str());
                s.append(" ");
                let part = a.to_sexpr(format_real);
                s.append(part.as_str());
                s.append(" ");
                let part = b.to_sexpr(format_real);
                s.append(part.as_str());
                s.append(")");
                s
            },
            AudioNode::Filter { kind, cutoff, resonance, input, modulation, .. } => {
                let mut s = String::from_str("(filter ");
                s.append(filter_kind_text(*kind));
                s.append(" c=");
                let part = real_text(format_real, *cutoff);
                s.append(part.as_str());
                s.append(" r=");
                let part = real_text(format_real, *resonance);
                s.append(part.as_str());
                s.append(" ");
                let part = mod_sexpr(modulation, format_real);
                s.append(part.as_str());
                s.append(" ");
                let part = input.to_sexpr(format_real);
                s.append(part.as_str());
                s.append(")");
                s
            },
            AudioNode::Fold { threshold, input, modulation, .. } => {
                let mut s = String::from_str("(fold t=");
                let part = real_text(format_real, *threshold);
                s.append(part.as_str());
                s.append(" ");
                let part = mod_sexpr(modulation, format_real);
                s.append(part.as_str());
                s.append(" ");
                let part = input.to_sexpr(format_real);
                s.append(part.as_str());
                s.append(")");
                s
            },
            AudioNode::Delay { time, feedback, mix, input, modulation, .. } => {
                let mut s = String::from_str("(delay t=");
                let part = real_text(format_real, *time);
                s.append(part.as_str());
                s.append(" fb=");
                let part = real_text(format_real, *feedback);
                s.append(part.as_str());
                s.append(" mix=");
                let part = real_text(format_real, *mix);
                s.append(part.as_str());
                s.append(" ");
                let part = mod_sexpr(modulation, format_real);
                s.append(part.as_str());
                s.append(" ");
                let part = input.to_sexpr(format_real);
                s.append(part.as_str());
                s.append(")");
                s
            },
            AudioNode::Chorus { rate, depth, mix, input, modulation, .. } => {
                let mut s = String::from_str("(chorus r=");
                let part = real_text(format_real, *rate);
                s.append(part.as_str());
                s.append(" d=");
                let part = real_text(format_real, *depth);
                s.append(part.as_str());
                s.append(" mix=");
                let part = real_text(format_real, *mix);
                s.append(part.as_str());
                s.append(" ");
                let part = mod_sexpr(modulation, format_real);
                s.append(part.as_str());
                s.append(" ");
                let part = input.to_sexpr(format_real);
                s.append(part.as_str());
                s.append(")");
                s
            },
            AudioNode::Reverb { size, damp, mix, input, modulation, .. } => {
                let mut s = String::from_str("(reverb s=");
                let part = real_text(format_real, *size);
                s.append(part.as_str());
                s.append(" d=");
                let part = real_text(format_real, *damp);
                s.append(part.as_str());
                s.append(" mix=");
                let part = real_text(format_real, *mix);
                s.append(part.as_str());
                s.append(" ");
                let part = mod_sexpr(modulation, format_real);
                s.append(part.as_str());
                s.append(" ");
                let part = input.to_sexpr(format_real);
                s.append(part.as_str());
                s.append(")");
                s
            },
            AudioNode::Distortion { drive, tone, mode, input, modulation, .. } => {
                let mut s = String::from_str("(dist ");
                s.append(mode.label());
                s.append(" g=");
                let part = real_text(format_real, *drive);
                s.append(part.as_str());
                s.append(" t=");
                let part = real_text(format_real, *tone);
                s.append(part.as_str());
                s.append(" ");
                let part = mod_sexpr(modulation, format_real);
                s.append(part.as_str());
                s.append(" ");
                let part = input.to_sexpr(format_real);
                s.append(part.as_str());
                s.append(")");
                s
            },
            AudioNode::Bitcrush { bits, downsample, input, modulation, .. } => {
                let mut s = String::from_str("(bitcrush b=");
                let part = real_text(format_real, *bits);
                s.append(part.as_str());
                s.append(" r=");
                let part = real_text(format_real, *downsample);
                s.append(part.as_str());
                s.append(" ");
                let part = mod_sexpr(modulation, format_real);
                s.append(part.as_str());
                s.append(" ");
                let part = input.to_sexpr(format_real);
                s.append(part.as_str());
                s.append(")");
                s
            },
            AudioNode::Phaser { rate, depth, feedback, input, modulation, .. } => {
                let mut s = String::from_str("(phaser r=");
                let part = real_text(format_real, *rate);
                s.append(part.as_str());
                s.append(" d=");
                let part = real_text(format_real, *depth);
                s.append(part.as_str());
                s.append(" fb=");
                let part = real_text(format_real, *feedback);
                s.append(part.as_str());
                s.append(" ");
                let part = mod_sexpr(modulation, format_real);
                s.append(part.as_str());
                s.append(" ");
                let part = input.to_sexpr(format_real);
                s.append(part.as_str());
                s.append(")");
                s
            },
            AudioNode::Flanger { rate, depth, feedback, input, modulation, .. } => {
                let mut s = String::from_str("(flanger r=");
                let part = real_text(format_real, *rate);
                s.append(part.as_str());
                s.append(" d=");
                let part = real_text(format_real, *depth);
                s.append(part.as_str());
                s.append(" fb=");
                let part = real_text(format_real, *feedback);
                s.append(part.as_str());
                s.append(" ");
                let part = mod_sexpr(modulation, format_real);
                s.append(part.as_str());
                s.append(" ");
                let part = input.to_sexpr(format_real);
                s.append(part.as_str());
                s.append(")");
                s
            },
            AudioNode::Tremolo { rate, depth, shape, input, modulation, .. } => {
                let mut s = String::from_str("(tremolo r=");
                let part = real_text(format_real, *rate);
                s.append(part.as_str());
                s.append(" d=");
                let part = real_text(format_real, *depth);
                s.append(part.as_str());
                s.append(" s=");
                let part = real_text(format_real, *shape);
                s.append(part.as_str());
                s.append(" ");
                let part = mod_sexpr(modulation, format_real);
                s.append(part.as_str());
                s.append(" ");
                let part = input.to_sexpr(format_real);
                s.append(part.as_str());
                s.append(")");
                s
            },
            AudioNode::Vibrato { rate, depth, mix, input, modulation, .. } => {
                let mut s = String::from_str("(vibrato r=");
                let part = real_text(format_real, *rate);
                s.append(part.as_str());
                s.append(" d=");
                let part = real_text(format_real, *depth);
                s.append(part.as_str());
                s.append(" mix=");
                let part = real_text(format_real, *mix);
                s.append(part.as_str());
                s.append(" ");
                let part = mod_sexpr(modulation, format_real);
                s.append(part.as_str());
                s.append(" ");
                let part = input.to_sexpr(format_real);
                s.append(part.as_str());
                s.append(")");
                s
            },
            AudioNode::Eq { low, mid, high, input, modulation, .. } => {
                let mut s = String::from_str("(eq l=");
                let part = real_text(format_real, *low);
                s.append(part.as_str());
                s.append(" m=");
                let part = real_text(format_real, *mid);
                s.append(part.as_str());
                s.append(" h=");
                let part = real_text(format_real, *high);
                s.append(part.as_str());
                s.append(" ");
                let part = mod_sexpr(modulation, format_real);
                s.append(part.as_str());
                s.append(" ");
                let part = input.to_sexpr(format_real);
                s.append(part.as_str());
                s.append(")");
                s
            },
            AudioNode::Granular { position, size, density, input, modulation, .. } => {
                let mut s = String::from_str("(granular p=");
                let part = real_text(format_real, *position);
                s.append(part.as_str());
                s.append(" s=");
                let part = real_text(format_real, *size);
                s.append(part.as_str());
                s.append(" d=");
                let part = real_text(format_real, *density);
                s.append(part.as_str());
                s.append(" ");
                let part = mod_sexpr(modulation, format_real);
                s.append(part.as_str());
                s.append(" ");
                let part = input.to_sexpr(format_real);
                s.append(part.as_str());
                s.append(")");
                s
            },
            AudioNode::Shift { semis, window, mix, input, modulation, .. } => {
                let mut s = String::from_str("(shift s=");
                let part = real_text(format_real, *semis);
                s.append(part.as_str());
                s.append(" w=");
                let part = real_text(format_real, *window);
                s.append(part.as_str());
                s.append(" mix=");
                let part = real_text(format_real, *mix);
                s.append(part.as_str());
                s.append(" ");
                let part = mod_sexpr(modulation, format_real);
                s.append(part.as_str());
                s.append(" ");
                let part = input.to_sexpr(format_real);
                s.append(part.as_str());
                s.append(")");
                s
            },
            AudioNode::Comp { threshold, ratio, makeup, input, sidechain, modulation, .. } => {
                let mut s = String::from_str("(comp t=");
                let part = real_text(format_real, *threshold);
                s.append(part.as_str());
                s.append(" r=");
                let part = real_text(format_real, *ratio);
                s.append(part.as_str());
                s.append(" m=");
                let part = real_text(format_real, *makeup);
                s.append(part.as_str());
                s.append(" ");
                let part = mod_sexpr(modulation, format_real);
                s.append(part.as_str());
                s.append(" ");
                let part = input.to_sexpr(format_real);
                s.append(part.as_str());
                s.append(" ");
                let part = sidechain.to_sexpr(format_real);
                s.append(part.as_str());
                s.append(")");
                s
            },
            AudioNode::Duck { amount, threshold, release, input, key, modulation, .. } => {
                let mut s = String::from_str("(duck a=");
                let part = real_text(format_real, *amount);
                s.append(part.as_str());
                s.append(" t=");
                let part = real_text(format_real, *threshold);
                s.append(part.as_str());
                s.append(" r=");
                let part = real_text(format_real, *release);
                s.append(part.as_str());
                s.append(" ");
                let part = mod_sexpr(modulation, format_real);
                s.append(part.as_str());
                s.append(" ");
                let part = input.to_sexpr(format_real);
                s.append(part.as_str());
                s.append(" ");
                let part = key.to_sexpr(format_real);
                s.append(part.as_str());
                s.append(")");
                s
            },
            AudioNode::Gate { threshold, range, release, input, sidechain, modulation, .. } => {
                let mut s = String::from_str("(gate t=");
                let part = real_text(format_real, *threshold);
                s.append(part.as_str());
                s.append(" rg=");
                let part = real_text(format_real, *range);
                s.append(part.as_str());
                s.append(" r=");
                let part = real_text(format_real, *release);
                s.append(part.as_str());
                s.append(" ");
                let part = mod_sexpr(modulation, format_real);
                s.append(part.as_str());
                s.append(" ");
                let part = input.to_sexpr(format_real);
                s.append(part.as_str());
                s.append(" ");
                let part = sidechain.to_sexpr(format_real);
                s.append(part.as_str());
                s.append(")");
                s
            },
            AudioNode::Vocoder { bands, attack, release, carrier, modulator, modulation, .. } => {
                let mut s = String::from_str("(vocoder b=");
                let part = real_text(format_real, *bands);
                s.append(part.as_str());
                s.append(" a=");
                let part = real_text(format_real, *attack);
                s.append(part.as_str());
                s.append(" r=");
                let part = real_text(format_real, *release);
                s.append(part.as_str());
                s.append(" ");
                let part = mod_sexpr(modulation, format_real);
                s.append(part.as_str());
                s.append(" ");
                let part = carrier.to_sexpr(format_real);
                s.append(part.as_str());
                s.append(" ");
                let part = modulator.to_sexpr(format_real);
                s.append(part.as_str());
                s.append(")");
                s
            },
        }
    }
}

impl PatchTree {
    /// Compact s-expression rendering for logs and tests; `format_real`
    /// renders each continuous parameter.
    pub fn to_sexpr<F: Fn(Param) -> String>(&self, format_real: &F) -> (s: String)
        requires
            forall|x: Param| call_requires(*format_real, (x,)),
            renders_plainly(*format_real),
        ensures
            s@ == spec_patch_sexpr(*self, rendering(*format_real)),
    {
        let mut s = String::from_str("(voice a=");
        let part = real_text(format_real, self.amp.attack);
        s.append(part.as_str());
        s.append(" d=");
        let part = real_text(format_real, self.amp.decay);
        s.append(part.as_str());
        s.append(" s=");
        let part = real_text(format_real, self.amp.sustain);
        s.append(part.as_str());
        s.append(" r=");
        let part = real_text(format_real, self.amp.release);
        s.append(part.as_str());
        s.append(" ");
        let part = self.root.to_sexpr(format_real);
        s.append(part.as_str());
        s.append(")");
        s
    }
}


/// Whether `s` ends with `tail`.
pub open spec fn ends_with(s: Seq<char>, tail: Seq<char>) -> bool {
    tail.len() <= s.len() && s.skip(s.len() - tail.len()) == tail
}

/// A text that is `head` followed by `a` and `b` ends with `a` and `b`.
proof fn lemma_ends_with_two(head: Seq<char>, a: Seq<char>, b: Seq<char>)
    ensures
        ends_with(head + a + b, a + b),
{
    assert((head + a + b).skip(head.len() as int) =~= a + b);
}

/// A text that is `head` followed by `a` to `e` ends with `a` to `e`.
proof fn lemma_ends_with_five(
    head: Seq<char>,
    a: Seq<char>,
    b: Seq<char>,
    c: Seq<char>,
    d: Seq<char>,
    e: Seq<char>,
)
    ensures
        ends_with(head + a + b + c + d + e, a + b + c + d + e),
{
    assert((head + a + b + c + d + e).skip(head.len() as int) =~= a + b + c + d + e);
}

/// A processor's rendering closes with the renderings of its inputs in input
/// order: its first input (`/0`) last of all for a one-input processor, and
/// for a two-input node its first input (`/0`) followed by its second
/// (`/1`).
#[verifier::spinoff_prover]
#[verifier::rlimit(60)]
pub proof fn law_inputs_render_in_order(n: AudioNode, fmt: spec_fn(Param) -> Seq<char>)
    requires
        !n.spec_is_source(),
    ensures
        n.spec_child(0) is Some,
        n.spec_child(1) is None ==> ends_with(
            spec_node_sexpr(n, fmt),
            spec_node_sexpr(n.spec_child(0).unwrap(), fmt) + ")"@,
        ),
        n.spec_child(1) matches Some(c1) ==> ends_with(
            spec_node_sexpr(n, fmt),
            " "@ + spec_node_sexpr(n.spec_child(0).unwrap(), fmt) + " "@ + spec_node_sexpr(c1, fmt)
                + ")"@,
        ),
{
    match n {
        AudioNode::Mix { balance, a, b } => {
            lemma_ends_with_five("(mix "@ + fmt(balance), " "@, spec_node_sexpr(*a, fmt), " "@, spec_node_sexpr(*b, fmt), ")"@);
        },
        AudioNode::RingMod { mix, a, b } => {
            lemma_ends_with_five("(ringmod "@ + fmt(mix), " "@, spec_node_sexpr(*a, fmt), " "@, spec_node_sexpr(*b, fmt), ")"@);
        },
        AudioNode::Filter { kind, cutoff, resonance, input, modulation, .. } => {
            lemma_ends_with_two("(filter "@ + filter_kind_name(kind) + " c="@ + fmt(cutoff) + " r="@ + fmt(resonance) + " "@ + spec_mod_sexpr(modulation, fmt) + " "@, spec_node_sexpr(*input, fmt), ")"@);
        },
        AudioNode::Fold { threshold, input, modulation, .. } => {
            lemma_ends_with_two("(fold t="@ + fmt(threshold) + " "@ + spec_mod_sexpr(modulation, fmt) + " "@, spec_node_sexpr(*input, fmt), ")"@);
        },
        AudioNode::Delay { time, feedback, mix, input, modulation, .. } => {
            lemma_ends_with_two("(delay t="@ + fmt(time) + " fb="@ + fmt(feedback) + " mix="@ + fmt(mix) + " "@ + spec_mod_sexpr(modulation, fmt) + " "@, spec_node_sexpr(*input, fmt), ")"@);
        },
        AudioNode::Chorus { rate, depth, mix, input, modulation, .. } => {
            lemma_ends_with_two("(chorus r="@ + fmt(rate) + " d="@ + fmt(depth) + " mix="@ + fmt(mix) + " "@ + spec_mod_sexpr(modulation, fmt) + " "@, spec_node_sexpr(*input, fmt), ")"@);
        },
        AudioNode::Reverb { size, damp, mix, input, modulation, .. } => {
            lemma_ends_with_two("(reverb s="@ + fmt(size) + " d="@ + fmt(damp) + " mix="@ + fmt(mix) + " "@ + spec_mod_sexpr(modulation, fmt) + " "@, spec_node_sexpr(*input, fmt), ")"@);
        },
        AudioNode::Distortion { drive, tone, mode, input, modulation, .. } => {
            lemma_ends_with_two("(dist "@ + mode.spec_label() + " g="@ + fmt(drive) + " t="@ + fmt(tone) + " "@ + spec_mod_sexpr(modulation, fmt) + " "@, spec_node_sexpr(*input, fmt), ")"@);
        },
        AudioNode::Bitcrush { bits, downsample, input, modulation, .. } => {
            lemma_ends_with_two("(bitcrush b="@ + fmt(bits) + " r="@ + fmt(downsample) + " "@ + spec_mod_sexpr(modulation, fmt) + " "@, spec_node_sexpr(*input, fmt), ")"@);
        },
        AudioNode::Phaser { rate, depth, feedback, input, modulation, .. } => {
            lemma_ends_with_two("(phaser r="@ + fmt(rate) + " d="@ + fmt(depth) + " fb="@ + fmt(feedback) + " "@ + spec_mod_sexpr(modulation, fmt) + " "@, spec_node_sexpr(*input, fmt), ")"@);
        },
        AudioNode::Flanger { rate, depth, feedback, input, modulation, .. } => {
            lemma_ends_with_two("(flanger r="@ + fmt(rate) + " d="@ + fmt(depth) + " fb="@ + fmt(feedback) + " "@ + spec_mod_sexpr(modulation, fmt) + " "@, spec_node_sexpr(*input, fmt), ")"@);
        },
        AudioNode::Tremolo { rate, depth, shape, input, modulation, .. } => {
            lemma_ends_with_two("(tremolo r="@ + fmt(rate) + " d="@ + fmt(depth) + " s="@ + fmt(shape) + " "@ + spec_mod_sexpr(modulation, fmt) + " "@, spec_node_sexpr(*input, fmt), ")"@);
        },
        AudioNode::Vibrato { rate, depth, mix, input, modulation, .. } => {
            lemma_ends_with_two("(vibrato r="@ + fmt(rate) + " d="@ + fmt(depth) + " mix="@ + fmt(mix) + " "@ + spec_mod_sexpr(modulation, fmt) + " "@, spec_node_sexpr(*input, fmt), ")"@);
        },
        AudioNode::Eq { low, mid, high, input, modulation, .. } => {
            lemma_ends_with_two("(eq l="@ + fmt(low) + " m="@ + fmt(mid) + " h="@ + fmt(high) + " "@ + spec_mod_sexpr(modulation, fmt) + " "@, spec_node_sexpr(*input, fmt), ")"@);
        },
        AudioNode::Granular { position, size, density, input, modulation, .. } => {
            lemma_ends_with_two("(granular p="@ + fmt(position) + " s="@ + fmt(size) + " d="@ + fmt(density) + " "@ + spec_mod_sexpr(modulation, fmt) + " "@, spec_node_sexpr(*input, fmt), ")"@);
        },
        AudioNode::Shift { semis, window, mix, input, modulation, .. } => {
            lemma_ends_with_two("(shift s="@ + fmt(semis) + " w="@ + fmt(window) + " mix="@ + fmt(mix) + " "@ + spec_mod_sexpr(modulation, fmt) + " "@, spec_node_sexpr(*input, fmt), ")"@);
        },
        AudioNode::Comp { threshold, ratio, makeup, input, sidechain, modulation, .. } => {
            lemma_ends_with_five("(comp t="@ + fmt(threshold) + " r="@ + fmt(ratio) + " m="@ + fmt(makeup) + " "@ + spec_mod_sexpr(modulation, fmt), " "@, spec_node_sexpr(*input, fmt), " "@, spec_node_sexpr(*sidechain, fmt), ")"@);
        },
        AudioNode::Duck { amount, threshold, release, input, key, modulation, .. } => {
            lemma_ends_with_five("(duck a="@ + fmt(amount) + " t="@ + fmt(threshold) + " r="@ + fmt(release) + " "@ + spec_mod_sexpr(modulation, fmt), " "@, spec_node_sexpr(*input, fmt), " "@, spec_node_sexpr(*key, fmt), ")"@);
        },
        AudioNode::Gate { threshold, range, release, input, sidechain, modulation, .. } => {
            lemma_ends_with_five("(gate t="@ + fmt(threshold) + " rg="@ + fmt(range) + " r="@ + fmt(release) + " "@ + spec_mod_sexpr(modulation, fmt), " "@, spec_node_sexpr(*input, fmt), " "@, spec_node_sexpr(*sidechain, fmt), ")"@);
        },
        AudioNode::Vocoder { bands, attack, release, carrier, modulator, modulation, .. } => {
            lemma_ends_with_five("(vocoder b="@ + fmt(bands) + " a="@ + fmt(attack) + " r="@ + fmt(release) + " "@ + spec_mod_sexpr(modulation, fmt), " "@, spec_node_sexpr(*carrier, fmt), " "@, spec_node_sexpr(*modulator, fmt), ")"@);
        },
        _ => {},
    }
}

} // verus!
