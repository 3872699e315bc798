//! The canonical trace encoding of a patch: a deterministic walk that
//! records, at the grammar's own addresses, every choice the generative
//! model makes, and the decoder that reads a patch back from such a record.
//!
//! Every node records `#leaf` and either `#src` or `#op`, then its own
//! parameters; its modulation term follows at `<key>/m` and its inputs at
//! `<key>/0` and `<key>/1`. The patch's amplitude envelope sits at `amp`.

use vstd::prelude::*;

use crate::edit::{lemma_split_joined, spec_split_addr};
use crate::genome::{below, child_key, lemma_layout, mod_key, spec_child_key, spec_mod_key};
use crate::mutate::P030;
use crate::term::{
    AmpEnv, AudioNode, DriveMode, FilterKind, ModNode, ModOp, NoiseColor, PairOp, Param,
    PatchTree, TableShape, Waveform,
};
use crate::text::{decimal, spec_decimal};
use crate::trace::{
    is_plain, lemma_address_injective_forall, lemma_escape_plain, site_address, spec_escape, spec_address, spec_lookup, SiteTrace,
    SiteValue,
};

verus! {

/// `t` with `v` recorded at `site` under `key`.
pub open spec fn spec_put(
    t: Map<Seq<char>, SiteValue>,
    key: Seq<char>,
    site: Seq<char>,
    v: SiteValue,
) -> Map<Seq<char>, SiteValue> {
    t.insert(spec_address(key, site), v)
}

/// The categorical index an octave offset is recorded as: `octave + 2`,
/// widened to a `usize` the way `as` widens a signed integer.
pub open spec fn spec_octave_index(octave: i8) -> usize {
    (octave + 2) as usize
}

/// `t` with the choices of modulation term `m`, rooted at `key`, recorded
/// in encoding order.
pub open spec fn spec_encode_mod(
    m: ModNode,
    key: Seq<char>,
    t: Map<Seq<char>, SiteValue>,
) -> Map<Seq<char>, SiteValue>
    decreases m,
{
    match m {
        ModNode::Empty => {
            let t = spec_put(t, key, "mod"@, SiteValue::Index(0));
            t
        },
        ModNode::Lfo { wave: v_wave, rate: v_rate } => {
            let t = spec_put(t, key, "mod"@, SiteValue::Index(1));
            let t = spec_put(t, key, "wave"@, SiteValue::Index(v_wave.spec_index() as usize));
            let t = spec_put(t, key, "rate"@, SiteValue::Real(v_rate));
            t
        },
        ModNode::Env { attack: v_attack, decay: v_decay } => {
            let t = spec_put(t, key, "mod"@, SiteValue::Index(2));
            let t = spec_put(t, key, "att"@, SiteValue::Real(v_attack));
            let t = spec_put(t, key, "dec"@, SiteValue::Real(v_decay));
            t
        },
        ModNode::Rand { rate: v_rate, glide: v_glide } => {
            let t = spec_put(t, key, "mod"@, SiteValue::Index(3));
            let t = spec_put(t, key, "rate"@, SiteValue::Real(v_rate));
            let t = spec_put(t, key, "glide"@, SiteValue::Real(v_glide));
            t
        },
        ModNode::Follow { sens: v_sens, release: v_release } => {
            let t = spec_put(t, key, "mod"@, SiteValue::Index(4));
            let t = spec_put(t, key, "sens"@, SiteValue::Real(v_sens));
            let t = spec_put(t, key, "rel"@, SiteValue::Real(v_release));
            t
        },
        ModNode::Euclid { rate: v_rate, steps: v_steps, pulses: v_pulses } => {
            let t = spec_put(t, key, "mod"@, SiteValue::Index(5));
            let t = spec_put(t, key, "erate"@, SiteValue::Real(v_rate));
            let t = spec_put(t, key, "esteps"@, SiteValue::Real(v_steps));
            let t = spec_put(t, key, "epulses"@, SiteValue::Real(v_pulses));
            t
        },
        ModNode::Op { kind: v_kind, p0: v_p0, p1: v_p1, input: v_input } => {
            let sites = v_kind.spec_param_sites();
            let t = spec_put(t, key, "mod"@, SiteValue::Index(6));
            let t = spec_put(t, key, "modop"@, SiteValue::Index(v_kind.spec_index() as usize));
            let t = spec_put(t, key, sites[0], SiteValue::Real(v_p0));
            let t = if sites.len() > 1 {
                spec_put(t, key, sites[1], SiteValue::Real(v_p1))
            } else {
                t
            };
            spec_encode_mod(*v_input, spec_child_key(key, 0), t)
        },
        ModNode::Pair { kind: v_kind, a: v_a, b: v_b } => {
            let t = spec_put(t, key, "mod"@, SiteValue::Index(7));
            let t = spec_put(t, key, "pairop"@, SiteValue::Index(v_kind.spec_index() as usize));
            let t = spec_encode_mod(*v_a, spec_child_key(key, 0), t);
            spec_encode_mod(*v_b, spec_child_key(key, 1), t)
        },
    }
}

/// `t` with the choices of audio term `n`, rooted at `key`, recorded in
/// encoding order: the node's own sites, then its modulation slot at
/// `<key>/m`, then its inputs at `<key>/0` and `<key>/1`.
pub open spec fn spec_encode_node(
    n: AudioNode,
    key: Seq<char>,
    t: Map<Seq<char>, SiteValue>,
) -> Map<Seq<char>, SiteValue>
    decreases n,
{
    match n {
        AudioNode::Vco { wave: v_wave, octave: v_octave, detune: v_detune, mod_depth: v_mod_depth, modulation: v_modulation } => {
            let t = spec_put(t, key, "leaf"@, SiteValue::Flag(true));
            let t = spec_put(t, key, "src"@, SiteValue::Index(0));
            let t = spec_put(t, key, "wave"@, SiteValue::Index(v_wave.spec_index() as usize));
            let t = spec_put(t, key, "oct"@, SiteValue::Index(spec_octave_index(v_octave)));
            let t = spec_put(t, key, "det"@, SiteValue::Real(v_detune));
            let t = spec_put(t, key, "mdepth"@, SiteValue::Real(v_mod_depth));
            spec_encode_mod(v_modulation, spec_mod_key(key), t)
        },
        AudioNode::Supersaw { octave: v_octave, detune: v_detune, mix: v_mix, mod_depth: v_mod_depth, modulation: v_modulation } => {
            let t = spec_put(t, key, "leaf"@, SiteValue::Flag(true));
            let t = spec_put(t, key, "src"@, SiteValue::Index(1));
            let t = spec_put(t, key, "oct"@, SiteValue::Index(spec_octave_index(v_octave)));
            let t = spec_put(t, key, "det"@, SiteValue::Real(v_detune));
            let t = spec_put(t, key, "smix"@, SiteValue::Real(v_mix));
            let t = spec_put(t, key, "mdepth"@, SiteValue::Real(v_mod_depth));
            spec_encode_mod(v_modulation, spec_mod_key(key), t)
        },
        AudioNode::Noise { color: v_color } => {
            let t = spec_put(t, key, "leaf"@, SiteValue::Flag(true));
            let t = spec_put(t, key, "src"@, SiteValue::Index(2));
            let t = spec_put(t, key, "color"@, SiteValue::Index(v_color.spec_index() as usize));
            t
        },
        AudioNode::Wavetable { table: v_table, octave: v_octave, morph: v_morph, mod_depth: v_mod_depth, modulation: v_modulation } => {
            let t = spec_put(t, key, "leaf"@, SiteValue::Flag(true));
            let t = spec_put(t, key, "src"@, SiteValue::Index(3));
            let t = spec_put(t, key, "table"@, SiteValue::Index(v_table.spec_index() as usize));
            let t = spec_put(t, key, "oct"@, SiteValue::Index(spec_octave_index(v_octave)));
            let t = spec_put(t, key, "morph"@, SiteValue::Real(v_morph));
            let t = spec_put(t, key, "mdepth"@, SiteValue::Real(v_mod_depth));
            spec_encode_mod(v_modulation, spec_mod_key(key), t)
        },
        AudioNode::Pluck { octave: v_octave, damping: v_damping, brightness: v_brightness, mod_depth: v_mod_depth, modulation: v_modulation } => {
            let t = spec_put(t, key, "leaf"@, SiteValue::Flag(true));
            let t = spec_put(t, key, "src"@, SiteValue::Index(4));
            let t = spec_put(t, key, "oct"@, SiteValue::Index(spec_octave_index(v_octave)));
            let t = spec_put(t, key, "damp"@, SiteValue::Real(v_damping));
            let t = spec_put(t, key, "bright"@, SiteValue::Real(v_brightness));
            let t = spec_put(t, key, "mdepth"@, SiteValue::Real(v_mod_depth));
            spec_encode_mod(v_modulation, spec_mod_key(key), t)
        },
        AudioNode::Formant { vowel: v_vowel, shift: v_shift, octave: v_octave, mod_depth: v_mod_depth, modulation: v_modulation } => {
            let t = spec_put(t, key, "leaf"@, SiteValue::Flag(true));
            let t = spec_put(t, key, "src"@, SiteValue::Index(5));
            let t = spec_put(t, key, "vowel"@, SiteValue::Real(v_vowel));
            let t = spec_put(t, key, "fshift"@, SiteValue::Real(v_shift));
            let t = spec_put(t, key, "oct"@, SiteValue::Index(spec_octave_index(v_octave)));
            let t = spec_put(t, key, "mdepth"@, SiteValue::Real(v_mod_depth));
            spec_encode_mod(v_modulation, spec_mod_key(key), t)
        },
        AudioNode::Mix { balance: v_balance, a: v_a, b: v_b } => {
            let t = spec_put(t, key, "leaf"@, SiteValue::Flag(false));
            let t = spec_put(t, key, "op"@, SiteValue::Index(0));
            let t = spec_put(t, key, "bal"@, SiteValue::Real(v_balance));
            let t = spec_encode_node(*v_a, spec_child_key(key, 0), t);
            spec_encode_node(*v_b, spec_child_key(key, 1), t)
        },
        AudioNode::Filter { kind: v_kind, cutoff: v_cutoff, resonance: v_resonance, mod_depth: v_mod_depth, input: v_input, modulation: v_modulation } => {
            let t = spec_put(t, key, "leaf"@, SiteValue::Flag(false));
            let t = spec_put(t, key, "op"@, SiteValue::Index(1));
            let t = spec_put(t, key, "fkind"@, SiteValue::Index(v_kind.spec_index() as usize));
            let t = spec_put(t, key, "cut"@, SiteValue::Real(v_cutoff));
            let t = spec_put(t, key, "res"@, SiteValue::Real(v_resonance));
            let t = spec_put(t, key, "mdepth"@, SiteValue::Real(v_mod_depth));
            let t = spec_encode_mod(v_modulation, spec_mod_key(key), t);
            spec_encode_node(*v_input, spec_child_key(key, 0), t)
        },
        AudioNode::Fold { threshold: v_threshold, mod_depth: v_mod_depth, input: v_input, modulation: v_modulation } => {
            let t = spec_put(t, key, "leaf"@, SiteValue::Flag(false));
            let t = spec_put(t, key, "op"@, SiteValue::Index(2));
            let t = spec_put(t, key, "thresh"@, SiteValue::Real(v_threshold));
            let t = spec_put(t, key, "mdepth"@, SiteValue::Real(v_mod_depth));
            let t = spec_encode_mod(v_modulation, spec_mod_key(key), t);
            spec_encode_node(*v_input, spec_child_key(key, 0), t)
        },
        AudioNode::Delay { time: v_time, feedback: v_feedback, mix: v_mix, mod_depth: v_mod_depth, input: v_input, modulation: v_modulation } => {
            let t = spec_put(t, key, "leaf"@, SiteValue::Flag(false));
            let t = spec_put(t, key, "op"@, SiteValue::Index(3));
            let t = spec_put(t, key, "time"@, SiteValue::Real(v_time));
            let t = spec_put(t, key, "fb"@, SiteValue::Real(v_feedback));
            let t = spec_put(t, key, "dmix"@, SiteValue::Real(v_mix));
            let t = spec_put(t, key, "mdepth"@, SiteValue::Real(v_mod_depth));
            let t = spec_encode_mod(v_modulation, spec_mod_key(key), t);
            spec_encode_node(*v_input, spec_child_key(key, 0), t)
        },
        AudioNode::Chorus { rate: v_rate, depth: v_depth, mix: v_mix, mod_depth: v_mod_depth, input: v_input, modulation: v_modulation } => {
            let t = spec_put(t, key, "leaf"@, SiteValue::Flag(false));
            let t = spec_put(t, key, "op"@, SiteValue::Index(4));
            let t = spec_put(t, key, "crate"@, SiteValue::Real(v_rate));
            let t = spec_put(t, key, "cdepth"@, SiteValue::Real(v_depth));
            let t = spec_put(t, key, "cmix"@, SiteValue::Real(v_mix));
            let t = spec_put(t, key, "mdepth"@, SiteValue::Real(v_mod_depth));
            let t = spec_encode_mod(v_modulation, spec_mod_key(key), t);
            spec_encode_node(*v_input, spec_child_key(key, 0), t)
        },
        AudioNode::Reverb { size: v_size, damp: v_damp, mix: v_mix, mod_depth: v_mod_depth, input: v_input, modulation: v_modulation } => {
            let t = spec_put(t, key, "leaf"@, SiteValue::Flag(false));
            let t = spec_put(t, key, "op"@, SiteValue::Index(5));
            let t = spec_put(t, key, "rsize"@, SiteValue::Real(v_size));
            let t = spec_put(t, key, "rdamp"@, SiteValue::Real(v_damp));
            let t = spec_put(t, key, "rmix"@, SiteValue::Real(v_mix));
            let t = spec_put(t, key, "mdepth"@, SiteValue::Real(v_mod_depth));
            let t = spec_encode_mod(v_modulation, spec_mod_key(key), t);
            spec_encode_node(*v_input, spec_child_key(key, 0), t)
        },
        AudioNode::Distortion { drive: v_drive, tone: v_tone, mode: v_mode, mod_depth: v_mod_depth, input: v_input, modulation: v_modulation } => {
            let t = spec_put(t, key, "leaf"@, SiteValue::Flag(false));
            let t = spec_put(t, key, "op"@, SiteValue::Index(6));
            let t = spec_put(t, key, "drive"@, SiteValue::Real(v_drive));
            let t = spec_put(t, key, "tone"@, SiteValue::Real(v_tone));
            let t = spec_put(t, key, "dmode"@, SiteValue::Index(v_mode.spec_index() as usize));
            let t = spec_put(t, key, "mdepth"@, SiteValue::Real(v_mod_depth));
            let t = spec_encode_mod(v_modulation, spec_mod_key(key), t);
            spec_encode_node(*v_input, spec_child_key(key, 0), t)
        },
        AudioNode::Bitcrush { bits: v_bits, downsample: v_downsample, mod_depth: v_mod_depth, input: v_input, modulation: v_modulation } => {
            let t = spec_put(t, key, "leaf"@, SiteValue::Flag(false));
            let t = spec_put(t, key, "op"@, SiteValue::Index(7));
            let t = spec_put(t, key, "bits"@, SiteValue::Real(v_bits));
            let t = spec_put(t, key, "dsamp"@, SiteValue::Real(v_downsample));
            let t = spec_put(t, key, "mdepth"@, SiteValue::Real(v_mod_depth));
            let t = spec_encode_mod(v_modulation, spec_mod_key(key), t);
            spec_encode_node(*v_input, spec_child_key(key, 0), t)
        },
        AudioNode::Phaser { rate: v_rate, depth: v_depth, feedback: v_feedback, mod_depth: v_mod_depth, input: v_input, modulation: v_modulation } => {
            let t = spec_put(t, key, "leaf"@, SiteValue::Flag(false));
            let t = spec_put(t, key, "op"@, SiteValue::Index(8));
            let t = spec_put(t, key, "prate"@, SiteValue::Real(v_rate));
            let t = spec_put(t, key, "pdepth"@, SiteValue::Real(v_depth));
            let t = spec_put(t, key, "pfb"@, SiteValue::Real(v_feedback));
            let t = spec_put(t, key, "mdepth"@, SiteValue::Real(v_mod_depth));
            let t = spec_encode_mod(v_modulation, spec_mod_key(key), t);
            spec_encode_node(*v_input, spec_child_key(key, 0), t)
        },
        AudioNode::RingMod { mix: v_mix, a: v_a, b: v_b } => {
            let t = spec_put(t, key, "leaf"@, SiteValue::Flag(false));
            let t = spec_put(t, key, "op"@, SiteValue::Index(9));
            let t = spec_put(t, key, "rgmix"@, SiteValue::Real(v_mix));
            let t = spec_encode_node(*v_a, spec_child_key(key, 0), t);
            spec_encode_node(*v_b, spec_child_key(key, 1), t)
        },
        AudioNode::Flanger { rate: v_rate, depth: v_depth, feedback: v_feedback, mod_depth: v_mod_depth, input: v_input, modulation: v_modulation } => {
            let t = spec_put(t, key, "leaf"@, SiteValue::Flag(false));
            let t = spec_put(t, key, "op"@, SiteValue::Index(10));
            let t = spec_put(t, key, "frate"@, SiteValue::Real(v_rate));
            let t = spec_put(t, key, "fdepth"@, SiteValue::Real(v_depth));
            let t = spec_put(t, key, "ffb"@, SiteValue::Real(v_feedback));
            let t = spec_put(t, key, "mdepth"@, SiteValue::Real(v_mod_depth));
            let t = spec_encode_mod(v_modulation, spec_mod_key(key), t);
            spec_encode_node(*v_input, spec_child_key(key, 0), t)
        },
        AudioNode::Tremolo { rate: v_rate, depth: v_depth, shape: v_shape, mod_depth: v_mod_depth, input: v_input, modulation: v_modulation } => {
            let t = spec_put(t, key, "leaf"@, SiteValue::Flag(false));
            let t = spec_put(t, key, "op"@, SiteValue::Index(11));
            let t = spec_put(t, key, "trate"@, SiteValue::Real(v_rate));
            let t = spec_put(t, key, "tdepth"@, SiteValue::Real(v_depth));
            let t = spec_put(t, key, "tshape"@, SiteValue::Real(v_shape));
            let t = spec_put(t, key, "mdepth"@, SiteValue::Real(v_mod_depth));
            let t = spec_encode_mod(v_modulation, spec_mod_key(key), t);
            spec_encode_node(*v_input, spec_child_key(key, 0), t)
        },
        AudioNode::Vibrato { rate: v_rate, depth: v_depth, mix: v_mix, mod_depth: v_mod_depth, input: v_input, modulation: v_modulation } => {
            let t = spec_put(t, key, "leaf"@, SiteValue::Flag(false));
            let t = spec_put(t, key, "op"@, SiteValue::Index(12));
            let t = spec_put(t, key, "vrate"@, SiteValue::Real(v_rate));
            let t = spec_put(t, key, "vdepth"@, SiteValue::Real(v_depth));
            let t = spec_put(t, key, "vmix"@, SiteValue::Real(v_mix));
            let t = spec_put(t, key, "mdepth"@, SiteValue::Real(v_mod_depth));
            let t = spec_encode_mod(v_modulation, spec_mod_key(key), t);
            spec_encode_node(*v_input, spec_child_key(key, 0), t)
        },
        AudioNode::Eq { low: v_low, mid: v_mid, high: v_high, mod_depth: v_mod_depth, input: v_input, modulation: v_modulation } => {
            let t = spec_put(t, key, "leaf"@, SiteValue::Flag(false));
            let t = spec_put(t, key, "op"@, SiteValue::Index(13));
            let t = spec_put(t, key, "low"@, SiteValue::Real(v_low));
            let t = spec_put(t, key, "mid"@, SiteValue::Real(v_mid));
            let t = spec_put(t, key, "high"@, SiteValue::Real(v_high));
            let t = spec_put(t, key, "mdepth"@, SiteValue::Real(v_mod_depth));
            let t = spec_encode_mod(v_modulation, spec_mod_key(key), t);
            spec_encode_node(*v_input, spec_child_key(key, 0), t)
        },
        AudioNode::Granular { position: v_position, size: v_size, density: v_density, mod_depth: v_mod_depth, input: v_input, modulation: v_modulation } => {
            let t = spec_put(t, key, "leaf"@, SiteValue::Flag(false));
            let t = spec_put(t, key, "op"@, SiteValue::Index(14));
            let t = spec_put(t, key, "gpos"@, SiteValue::Real(v_position));
            let t = spec_put(t, key, "gsize"@, SiteValue::Real(v_size));
            let t = spec_put(t, key, "gdens"@, SiteValue::Real(v_density));
            let t = spec_put(t, key, "mdepth"@, SiteValue::Real(v_mod_depth));
            let t = spec_encode_mod(v_modulation, spec_mod_key(key), t);
            spec_encode_node(*v_input, spec_child_key(key, 0), t)
        },
        AudioNode::Shift { semis: v_semis, window: v_window, mix: v_mix, mod_depth: v_mod_depth, input: v_input, modulation: v_modulation } => {
            let t = spec_put(t, key, "leaf"@, SiteValue::Flag(false));
            let t = spec_put(t, key, "op"@, SiteValue::Index(15));
            let t = spec_put(t, key, "semis"@, SiteValue::Real(v_semis));
            let t = spec_put(t, key, "window"@, SiteValue::Real(v_window));
            let t = spec_put(t, key, "smix"@, SiteValue::Real(v_mix));
            let t = spec_put(t, key, "mdepth"@, SiteValue::Real(v_mod_depth));
            let t = spec_encode_mod(v_modulation, spec_mod_key(key), t);
            spec_encode_node(*v_input, spec_child_key(key, 0), t)
        },
        AudioNode::Comp { threshold: v_threshold, ratio: v_ratio, makeup: v_makeup, mod_depth: v_mod_depth, input: v_input, sidechain: v_sidechain, modulation: v_modulation } => {
            let t = spec_put(t, key, "leaf"@, SiteValue::Flag(false));
            let t = spec_put(t, key, "op"@, SiteValue::Index(16));
            let t = spec_put(t, key, "thresh"@, SiteValue::Real(v_threshold));
            let t = spec_put(t, key, "ratio"@, SiteValue::Real(v_ratio));
            let t = spec_put(t, key, "makeup"@, SiteValue::Real(v_makeup));
            let t = spec_put(t, key, "mdepth"@, SiteValue::Real(v_mod_depth));
            let t = spec_encode_mod(v_modulation, spec_mod_key(key), t);
            let t = spec_encode_node(*v_input, spec_child_key(key, 0), t);
            spec_encode_node(*v_sidechain, spec_child_key(key, 1), t)
        },
        AudioNode::Duck { amount: v_amount, threshold: v_threshold, release: v_release, mod_depth: v_mod_depth, input: v_input, key: v_key, modulation: v_modulation } => {
            let t = spec_put(t, key, "leaf"@, SiteValue::Flag(false));
            let t = spec_put(t, key, "op"@, SiteValue::Index(17));
            let t = spec_put(t, key, "amount"@, SiteValue::Real(v_amount));
            let t = spec_put(t, key, "dthresh"@, SiteValue::Real(v_threshold));
            let t = spec_put(t, key, "drel"@, SiteValue::Real(v_release));
            let t = spec_put(t, key, "mdepth"@, SiteValue::Real(v_mod_depth));
            let t = spec_encode_mod(v_modulation, spec_mod_key(key), t);
            let t = spec_encode_node(*v_input, spec_child_key(key, 0), t);
            spec_encode_node(*v_key, spec_child_key(key, 1), t)
        },
        AudioNode::Gate { threshold: v_threshold, range: v_range, release: v_release, mod_depth: v_mod_depth, input: v_input, sidechain: v_sidechain, modulation: v_modulation } => {
            let t = spec_put(t, key, "leaf"@, SiteValue::Flag(false));
            let t = spec_put(t, key, "op"@, SiteValue::Index(18));
            let t = spec_put(t, key, "gthresh"@, SiteValue::Real(v_threshold));
            let t = spec_put(t, key, "range"@, SiteValue::Real(v_range));
            let t = spec_put(t, key, "grel"@, SiteValue::Real(v_release));
            let t = spec_put(t, key, "mdepth"@, SiteValue::Real(v_mod_depth));
            let t = spec_encode_mod(v_modulation, spec_mod_key(key), t);
            let t = spec_encode_node(*v_input, spec_child_key(key, 0), t);
            spec_encode_node(*v_sidechain, spec_child_key(key, 1), t)
        },
        AudioNode::Vocoder { bands: v_bands, attack: v_attack, release: v_release, mod_depth: v_mod_depth, carrier: v_carrier, modulator: v_modulator, modulation: v_modulation } => {
            let t = spec_put(t, key, "leaf"@, SiteValue::Flag(false));
            let t = spec_put(t, key, "op"@, SiteValue::Index(19));
            let t = spec_put(t, key, "bands"@, SiteValue::Real(v_bands));
            let t = spec_put(t, key, "vatt"@, SiteValue::Real(v_attack));
            let t = spec_put(t, key, "vrel"@, SiteValue::Real(v_release));
            let t = spec_put(t, key, "mdepth"@, SiteValue::Real(v_mod_depth));
            let t = spec_encode_mod(v_modulation, spec_mod_key(key), t);
            let t = spec_encode_node(*v_carrier, spec_child_key(key, 0), t);
            spec_encode_node(*v_modulator, spec_child_key(key, 1), t)
        },
    }
}

/// Octave offsets the encoding can widen without overflowing: `octave + 2`
/// must fit an `i8`.
pub open spec fn octaves_encodable(n: AudioNode) -> bool
    decreases n,
{
    match n {
        AudioNode::Vco { octave: v_octave, .. } => v_octave <= 125,
        AudioNode::Supersaw { octave: v_octave, .. } => v_octave <= 125,
        AudioNode::Noise { .. } => true,
        AudioNode::Wavetable { octave: v_octave, .. } => v_octave <= 125,
        AudioNode::Pluck { octave: v_octave, .. } => v_octave <= 125,
        AudioNode::Formant { octave: v_octave, .. } => v_octave <= 125,
        AudioNode::Mix { a: v_a, b: v_b, .. } => octaves_encodable(*v_a) && octaves_encodable(*v_b),
        AudioNode::Filter { input: v_input, .. } => octaves_encodable(*v_input),
        AudioNode::Fold { input: v_input, .. } => octaves_encodable(*v_input),
        AudioNode::Delay { input: v_input, .. } => octaves_encodable(*v_input),
        AudioNode::Chorus { input: v_input, .. } => octaves_encodable(*v_input),
        AudioNode::Reverb { input: v_input, .. } => octaves_encodable(*v_input),
        AudioNode::Distortion { input: v_input, .. } => octaves_encodable(*v_input),
        AudioNode::Bitcrush { input: v_input, .. } => octaves_encodable(*v_input),
        AudioNode::Phaser { input: v_input, .. } => octaves_encodable(*v_input),
        AudioNode::RingMod { a: v_a, b: v_b, .. } => octaves_encodable(*v_a) && octaves_encodable(*v_b),
        AudioNode::Flanger { input: v_input, .. } => octaves_encodable(*v_input),
        AudioNode::Tremolo { input: v_input, .. } => octaves_encodable(*v_input),
        AudioNode::Vibrato { input: v_input, .. } => octaves_encodable(*v_input),
        AudioNode::Eq { input: v_input, .. } => octaves_encodable(*v_input),
        AudioNode::Granular { input: v_input, .. } => octaves_encodable(*v_input),
        AudioNode::Shift { input: v_input, .. } => octaves_encodable(*v_input),
        AudioNode::Comp { input: v_input, sidechain: v_sidechain, .. } => octaves_encodable(*v_input) && octaves_encodable(*v_sidechain),
        AudioNode::Duck { input: v_input, key: v_key, .. } => octaves_encodable(*v_input) && octaves_encodable(*v_key),
        AudioNode::Gate { input: v_input, sidechain: v_sidechain, .. } => octaves_encodable(*v_input) && octaves_encodable(*v_sidechain),
        AudioNode::Vocoder { carrier: v_carrier, modulator: v_modulator, .. } => octaves_encodable(*v_carrier) && octaves_encodable(*v_modulator),
    }
}

/// Record `v` at `site` under `key`.
fn put(t: &mut SiteTrace, key: &str, site: &str, v: SiteValue)
    ensures
        final(t).choices() == spec_put(old(t).choices(), key@, site@, v),
{
    t.insert(site_address(key, site), v);
}

/// The categorical index an octave offset is recorded as.
fn octave_index(octave: i8) -> (r: usize)
    requires
        octave <= 125,
    ensures
        r == spec_octave_index(octave),
{
    (octave + 2) as usize
}

/// Record the choices of modulation term `m` rooted at `key`.
fn encode_mod(m: &ModNode, key: &str, t: &mut SiteTrace)
    ensures
        final(t).choices() == spec_encode_mod(*m, key@, old(t).choices()),
    decreases m,
{
    match m {
        ModNode::Empty => {
            put(t, key, "mod", SiteValue::Index(0));
        },
        ModNode::Lfo { wave: v_wave, rate: v_rate } => {
            put(t, key, "mod", SiteValue::Index(1));
            put(t, key, "wave", SiteValue::Index(v_wave.index()));
            put(t, key, "rate", SiteValue::Real(*v_rate));
        },
        ModNode::Env { attack: v_attack, decay: v_decay } => {
            put(t, key, "mod", SiteValue::Index(2));
            put(t, key, "att", SiteValue::Real(*v_attack));
            put(t, key, "dec", SiteValue::Real(*v_decay));
        },
        ModNode::Rand { rate: v_rate, glide: v_glide } => {
            put(t, key, "mod", SiteValue::Index(3));
            put(t, key, "rate", SiteValue::Real(*v_rate));
            put(t, key, "glide", SiteValue::Real(*v_glide));
        },
        ModNode::Follow { sens: v_sens, release: v_release } => {
            put(t, key, "mod", SiteValue::Index(4));
            put(t, key, "sens", SiteValue::Real(*v_sens));
            put(t, key, "rel", SiteValue::Real(*v_release));
        },
        ModNode::Euclid { rate: v_rate, steps: v_steps, pulses: v_pulses } => {
            put(t, key, "mod", SiteValue::Index(5));
            put(t, key, "erate", SiteValue::Real(*v_rate));
            put(t, key, "esteps", SiteValue::Real(*v_steps));
            put(t, key, "epulses", SiteValue::Real(*v_pulses));
        },
        ModNode::Op { kind: v_kind, p0: v_p0, p1: v_p1, input: v_input } => {
            put(t, key, "mod", SiteValue::Index(6));
            put(t, key, "modop", SiteValue::Index(v_kind.index()));
            let sites = v_kind.param_sites();
            put(t, key, sites[0], SiteValue::Real(*v_p0));
            if sites.len() > 1 {
                put(t, key, sites[1], SiteValue::Real(*v_p1));
            }
            let k0 = child_key(key, 0);
            encode_mod(v_input, k0.as_str(), t);
        },
        ModNode::Pair { kind: v_kind, a: v_a, b: v_b } => {
            put(t, key, "mod", SiteValue::Index(7));
            put(t, key, "pairop", SiteValue::Index(v_kind.index()));
            let k0 = child_key(key, 0);
            encode_mod(v_a, k0.as_str(), t);
            let k1 = child_key(key, 1);
            encode_mod(v_b, k1.as_str(), t);
        },
    }
}

/// Record the choices of audio term `n` rooted at `key`.
fn encode_node(n: &AudioNode, key: &str, t: &mut SiteTrace)
    requires
        octaves_encodable(*n),
    ensures
        final(t).choices() == spec_encode_node(*n, key@, old(t).choices()),
    decreases n,
{
    match n {
        AudioNode::Vco { wave: v_wave, octave: v_octave, detune: v_detune, mod_depth: v_mod_depth, modulation: v_modulation } => {
            put(t, key, "leaf", SiteValue::Flag(true));
            put(t, key, "src", SiteValue::Index(0));
            put(t, key, "wave", SiteValue::Index(v_wave.index()));
            put(t, key, "oct", SiteValue::Index(octave_index(*v_octave)));
            put(t, key, "det", SiteValue::Real(*v_detune));
            put(t, key, "mdepth", SiteValue::Real(*v_mod_depth));
            let km = mod_key(key);
            encode_mod(v_modulation, km.as_str(), t);
        },
        AudioNode::Supersaw { octave: v_octave, detune: v_detune, mix: v_mix, mod_depth: v_mod_depth, modulation: v_modulation } => {
            put(t, key, "leaf", SiteValue::Flag(true));
            put(t, key, "src", SiteValue::Index(1));
            put(t, key, "oct", SiteValue::Index(octave_index(*v_octave)));
            put(t, key, "det", SiteValue::Real(*v_detune));
            put(t, key, "smix", SiteValue::Real(*v_mix));
            put(t, key, "mdepth", SiteValue::Real(*v_mod_depth));
            let km = mod_key(key);
            encode_mod(v_modulation, km.as_str(), t);
        },
        AudioNode::Noise { color: v_color } => {
            put(t, key, "leaf", SiteValue::Flag(true));
            put(t, key, "src", SiteValue::Index(2));
            put(t, key, "color", SiteValue::Index(v_color.index()));
        },
        AudioNode::Wavetable { table: v_table, octave: v_octave, morph: v_morph, mod_depth: v_mod_depth, modulation: v_modulation } => {
            put(t, key, "leaf", SiteValue::Flag(true));
            put(t, key, "src", SiteValue::Index(3));
            put(t, key, "table", SiteValue::Index(v_table.index()));
            put(t, key, "oct", SiteValue::Index(octave_index(*v_octave)));
            put(t, key, "morph", SiteValue::Real(*v_morph));
            put(t, key, "mdepth", SiteValue::Real(*v_mod_depth));
            let km = mod_key(key);
            encode_mod(v_modulation, km.as_str(), t);
        },
        AudioNode::Pluck { octave: v_octave, damping: v_damping, brightness: v_brightness, mod_depth: v_mod_depth, modulation: v_modulation } => {
            put(t, key, "leaf", SiteValue::Flag(true));
            put(t, key, "src", SiteValue::Index(4));
            put(t, key, "oct", SiteValue::Index(octave_index(*v_octave)));
            put(t, key, "damp", SiteValue::Real(*v_damping));
            put(t, key, "bright", SiteValue::Real(*v_brightness));
            put(t, key, "mdepth", SiteValue::Real(*v_mod_depth));
            let km = mod_key(key);
            encode_mod(v_modulation, km.as_str(), t);
        },
        AudioNode::Formant { vowel: v_vowel, shift: v_shift, octave: v_octave, mod_depth: v_mod_depth, modulation: v_modulation } => {
            put(t, key, "leaf", SiteValue::Flag(true));
            put(t, key, "src", SiteValue::Index(5));
            put(t, key, "vowel", SiteValue::Real(*v_vowel));
            put(t, key, "fshift", SiteValue::Real(*v_shift));
            put(t, key, "oct", SiteValue::Index(octave_index(*v_octave)));
            put(t, key, "mdepth", SiteValue::Real(*v_mod_depth));
            let km = mod_key(key);
            encode_mod(v_modulation, km.as_str(), t);
        },
        AudioNode::Mix { balance: v_balance, a: v_a, b: v_b } => {
            put(t, key, "leaf", SiteValue::Flag(false));
            put(t, key, "op", SiteValue::Index(0));
            put(t, key, "bal", SiteValue::Real(*v_balance));
            let k0 = child_key(key, 0);
            encode_node(v_a, k0.as_str(), t);
            let k1 = child_key(key, 1);
            encode_node(v_b, k1.as_str(), t);
        },
        AudioNode::Filter { kind: v_kind, cutoff: v_cutoff, resonance: v_resonance, mod_depth: v_mod_depth, input: v_input, modulation: v_modulation } => {
            put(t, key, "leaf", SiteValue::Flag(false));
            put(t, key, "op", SiteValue::Index(1));
            put(t, key, "fkind", SiteValue::Index(v_kind.index()));
            put(t, key, "cut", SiteValue::Real(*v_cutoff));
            put(t, key, "res", SiteValue::Real(*v_resonance));
            put(t, key, "mdepth", SiteValue::Real(*v_mod_depth));
            let km = mod_key(key);
            encode_mod(v_modulation, km.as_str(), t);
            let k0 = child_key(key, 0);
            encode_node(v_input, k0.as_str(), t);
        },
        AudioNode::Fold { threshold: v_threshold, mod_depth: v_mod_depth, input: v_input, modulation: v_modulation } => {
            put(t, key, "leaf", SiteValue::Flag(false));
            put(t, key, "op", SiteValue::Index(2));
            put(t, key, "thresh", SiteValue::Real(*v_threshold));
            put(t, key, "mdepth", SiteValue::Real(*v_mod_depth));
            let km = mod_key(key);
            encode_mod(v_modulation, km.as_str(), t);
            let k0 = child_key(key, 0);
            encode_node(v_input, k0.as_str(), t);
        },
        AudioNode::Delay { time: v_time, feedback: v_feedback, mix: v_mix, mod_depth: v_mod_depth, input: v_input, modulation: v_modulation } => {
            put(t, key, "leaf", SiteValue::Flag(false));
            put(t, key, "op", SiteValue::Index(3));
            put(t, key, "time", SiteValue::Real(*v_time));
            put(t, key, "fb", SiteValue::Real(*v_feedback));
            put(t, key, "dmix", SiteValue::Real(*v_mix));
            put(t, key, "mdepth", SiteValue::Real(*v_mod_depth));
            let km = mod_key(key);
            encode_mod(v_modulation, km.as_str(), t);
            let k0 = child_key(key, 0);
            encode_node(v_input, k0.as_str(), t);
        },
        AudioNode::Chorus { rate: v_rate, depth: v_depth, mix: v_mix, mod_depth: v_mod_depth, input: v_input, modulation: v_modulation } => {
            put(t, key, "leaf", SiteValue::Flag(false));
            put(t, key, "op", SiteValue::Index(4));
            put(t, key, "crate", SiteValue::Real(*v_rate));
            put(t, key, "cdepth", SiteValue::Real(*v_depth));
            put(t, key, "cmix", SiteValue::Real(*v_mix));
            put(t, key, "mdepth", SiteValue::Real(*v_mod_depth));
            let km = mod_key(key);
            encode_mod(v_modulation, km.as_str(), t);
            let k0 = child_key(key, 0);
            encode_node(v_input, k0.as_str(), t);
        },
        AudioNode::Reverb { size: v_size, damp: v_damp, mix: v_mix, mod_depth: v_mod_depth, input: v_input, modulation: v_modulation } => {
            put(t, key, "leaf", SiteValue::Flag(false));
            put(t, key, "op", SiteValue::Index(5));
            put(t, key, "rsize", SiteValue::Real(*v_size));
            put(t, key, "rdamp", SiteValue::Real(*v_damp));
            put(t, key, "rmix", SiteValue::Real(*v_mix));
            put(t, key, "mdepth", SiteValue::Real(*v_mod_depth));
            let km = mod_key(key);
            encode_mod(v_modulation, km.as_str(), t);
            let k0 = child_key(key, 0);
            encode_node(v_input, k0.as_str(), t);
        },
        AudioNode::Distortion { drive: v_drive, tone: v_tone, mode: v_mode, mod_depth: v_mod_depth, input: v_input, modulation: v_modulation } => {
            put(t, key, "leaf", SiteValue::Flag(false));
            put(t, key, "op", SiteValue::Index(6));
            put(t, key, "drive", SiteValue::Real(*v_drive));
            put(t, key, "tone", SiteValue::Real(*v_tone));
            put(t, key, "dmode", SiteValue::Index(v_mode.index()));
            put(t, key, "mdepth", SiteValue::Real(*v_mod_depth));
            let km = mod_key(key);
            encode_mod(v_modulation, km.as_str(), t);
            let k0 = child_key(key, 0);
            encode_node(v_input, k0.as_str(), t);
        },
        AudioNode::Bitcrush { bits: v_bits, downsample: v_downsample, mod_depth: v_mod_depth, input: v_input, modulation: v_modulation } => {
            put(t, key, "leaf", SiteValue::Flag(false));
            put(t, key, "op", SiteValue::Index(7));
            put(t, key, "bits", SiteValue::Real(*v_bits));
            put(t, key, "dsamp", SiteValue::Real(*v_downsample));
            put(t, key, "mdepth", SiteValue::Real(*v_mod_depth));
            let km = mod_key(key);
            encode_mod(v_modulation, km.as_str(), t);
            let k0 = child_key(key, 0);
            encode_node(v_input, k0.as_str(), t);
        },
        AudioNode::Phaser { rate: v_rate, depth: v_depth, feedback: v_feedback, mod_depth: v_mod_depth, input: v_input, modulation: v_modulation } => {
            put(t, key, "leaf", SiteValue::Flag(false));
            put(t, key, "op", SiteValue::Index(8));
            put(t, key, "prate", SiteValue::Real(*v_rate));
            put(t, key, "pdepth", SiteValue::Real(*v_depth));
            put(t, key, "pfb", SiteValue::Real(*v_feedback));
            put(t, key, "mdepth", SiteValue::Real(*v_mod_depth));
            let km = mod_key(key);
            encode_mod(v_modulation, km.as_str(), t);
            let k0 = child_key(key, 0);
            encode_node(v_input, k0.as_str(), t);
        },
        AudioNode::RingMod { mix: v_mix, a: v_a, b: v_b } => {
            put(t, key, "leaf", SiteValue::Flag(false));
            put(t, key, "op", SiteValue::Index(9));
            put(t, key, "rgmix", SiteValue::Real(*v_mix));
            let k0 = child_key(key, 0);
            encode_node(v_a, k0.as_str(), t);
            let k1 = child_key(key, 1);
            encode_node(v_b, k1.as_str(), t);
        },
        AudioNode::Flanger { rate: v_rate, depth: v_depth, feedback: v_feedback, mod_depth: v_mod_depth, input: v_input, modulation: v_modulation } => {
            put(t, key, "leaf", SiteValue::Flag(false));
            put(t, key, "op", SiteValue::Index(10));
            put(t, key, "frate", SiteValue::Real(*v_rate));
            put(t, key, "fdepth", SiteValue::Real(*v_depth));
            put(t, key, "ffb", SiteValue::Real(*v_feedback));
            put(t, key, "mdepth", SiteValue::Real(*v_mod_depth));
            let km = mod_key(key);
            encode_mod(v_modulation, km.as_str(), t);
            let k0 = child_key(key, 0);
            encode_node(v_input, k0.as_str(), t);
        },
        AudioNode::Tremolo { rate: v_rate, depth: v_depth, shape: v_shape, mod_depth: v_mod_depth, input: v_input, modulation: v_modulation } => {
            put(t, key, "leaf", SiteValue::Flag(false));
            put(t, key, "op", SiteValue::Index(11));
            put(t, key, "trate", SiteValue::Real(*v_rate));
            put(t, key, "tdepth", SiteValue::Real(*v_depth));
            put(t, key, "tshape", SiteValue::Real(*v_shape));
            put(t, key, "mdepth", SiteValue::Real(*v_mod_depth));
            let km = mod_key(key);
            encode_mod(v_modulation, km.as_str(), t);
            let k0 = child_key(key, 0);
            encode_node(v_input, k0.as_str(), t);
        },
        AudioNode::Vibrato { rate: v_rate, depth: v_depth, mix: v_mix, mod_depth: v_mod_depth, input: v_input, modulation: v_modulation } => {
            put(t, key, "leaf", SiteValue::Flag(false));
            put(t, key, "op", SiteValue::Index(12));
            put(t, key, "vrate", SiteValue::Real(*v_rate));
            put(t, key, "vdepth", SiteValue::Real(*v_depth));
            put(t, key, "vmix", SiteValue::Real(*v_mix));
            put(t, key, "mdepth", SiteValue::Real(*v_mod_depth));
            let km = mod_key(key);
            encode_mod(v_modulation, km.as_str(), t);
            let k0 = child_key(key, 0);
            encode_node(v_input, k0.as_str(), t);
        },
        AudioNode::Eq { low: v_low, mid: v_mid, high: v_high, mod_depth: v_mod_depth, input: v_input, modulation: v_modulation } => {
            put(t, key, "leaf", SiteValue::Flag(false));
            put(t, key, "op", SiteValue::Index(13));
            put(t, key, "low", SiteValue::Real(*v_low));
            put(t, key, "mid", SiteValue::Real(*v_mid));
            put(t, key, "high", SiteValue::Real(*v_high));
            put(t, key, "mdepth", SiteValue::Real(*v_mod_depth));
            let km = mod_key(key);
            encode_mod(v_modulation, km.as_str(), t);
            let k0 = child_key(key, 0);
            encode_node(v_input, k0.as_str(), t);
        },
        AudioNode::Granular { position: v_position, size: v_size, density: v_density, mod_depth: v_mod_depth, input: v_input, modulation: v_modulation } => {
            put(t, key, "leaf", SiteValue::Flag(false));
            put(t, key, "op", SiteValue::Index(14));
            put(t, key, "gpos", SiteValue::Real(*v_position));
            put(t, key, "gsize", SiteValue::Real(*v_size));
            put(t, key, "gdens", SiteValue::Real(*v_density));
            put(t, key, "mdepth", SiteValue::Real(*v_mod_depth));
            let km = mod_key(key);
            encode_mod(v_modulation, km.as_str(), t);
            let k0 = child_key(key, 0);
            encode_node(v_input, k0.as_str(), t);
        },
        AudioNode::Shift { semis: v_semis, window: v_window, mix: v_mix, mod_depth: v_mod_depth, input: v_input, modulation: v_modulation } => {
            put(t, key, "leaf", SiteValue::Flag(false));
            put(t, key, "op", SiteValue::Index(15));
            put(t, key, "semis", SiteValue::Real(*v_semis));
            put(t, key, "window", SiteValue::Real(*v_window));
            put(t, key, "smix", SiteValue::Real(*v_mix));
            put(t, key, "mdepth", SiteValue::Real(*v_mod_depth));
            let km = mod_key(key);
            encode_mod(v_modulation, km.as_str(), t);
            let k0 = child_key(key, 0);
            encode_node(v_input, k0.as_str(), t);
        },
        AudioNode::Comp { threshold: v_threshold, ratio: v_ratio, makeup: v_makeup, mod_depth: v_mod_depth, input: v_input, sidechain: v_sidechain, modulation: v_modulation } => {
            put(t, key, "leaf", SiteValue::Flag(false));
            put(t, key, "op", SiteValue::Index(16));
            put(t, key, "thresh", SiteValue::Real(*v_threshold));
            put(t, key, "ratio", SiteValue::Real(*v_ratio));
            put(t, key, "makeup", SiteValue::Real(*v_makeup));
            put(t, key, "mdepth", SiteValue::Real(*v_mod_depth));
            let km = mod_key(key);
            encode_mod(v_modulation, km.as_str(), t);
            let k0 = child_key(key, 0);
            encode_node(v_input, k0.as_str(), t);
            let k1 = child_key(key, 1);
            encode_node(v_sidechain, k1.as_str(), t);
        },
        AudioNode::Duck { amount: v_amount, threshold: v_threshold, release: v_release, mod_depth: v_mod_depth, input: v_input, key: v_key, modulation: v_modulation } => {
            put(t, key, "leaf", SiteValue::Flag(false));
            put(t, key, "op", SiteValue::Index(17));
            put(t, key, "amount", SiteValue::Real(*v_amount));
            put(t, key, "dthresh", SiteValue::Real(*v_threshold));
            put(t, key, "drel", SiteValue::Real(*v_release));
            put(t, key, "mdepth", SiteValue::Real(*v_mod_depth));
            let km = mod_key(key);
            encode_mod(v_modulation, km.as_str(), t);
            let k0 = child_key(key, 0);
            encode_node(v_input, k0.as_str(), t);
            let k1 = child_key(key, 1);
            encode_node(v_key, k1.as_str(), t);
        },
        AudioNode::Gate { threshold: v_threshold, range: v_range, release: v_release, mod_depth: v_mod_depth, input: v_input, sidechain: v_sidechain, modulation: v_modulation } => {
            put(t, key, "leaf", SiteValue::Flag(false));
            put(t, key, "op", SiteValue::Index(18));
            put(t, key, "gthresh", SiteValue::Real(*v_threshold));
            put(t, key, "range", SiteValue::Real(*v_range));
            put(t, key, "grel", SiteValue::Real(*v_release));
            put(t, key, "mdepth", SiteValue::Real(*v_mod_depth));
            let km = mod_key(key);
            encode_mod(v_modulation, km.as_str(), t);
            let k0 = child_key(key, 0);
            encode_node(v_input, k0.as_str(), t);
            let k1 = child_key(key, 1);
            encode_node(v_sidechain, k1.as_str(), t);
        },
        AudioNode::Vocoder { bands: v_bands, attack: v_attack, release: v_release, mod_depth: v_mod_depth, carrier: v_carrier, modulator: v_modulator, modulation: v_modulation } => {
            put(t, key, "leaf", SiteValue::Flag(false));
            put(t, key, "op", SiteValue::Index(19));
            put(t, key, "bands", SiteValue::Real(*v_bands));
            put(t, key, "vatt", SiteValue::Real(*v_attack));
            put(t, key, "vrel", SiteValue::Real(*v_release));
            put(t, key, "mdepth", SiteValue::Real(*v_mod_depth));
            let km = mod_key(key);
            encode_mod(v_modulation, km.as_str(), t);
            let k0 = child_key(key, 0);
            encode_node(v_carrier, k0.as_str(), t);
            let k1 = child_key(key, 1);
            encode_node(v_modulator, k1.as_str(), t);
        },
    }
}
/// What decoding a subterm yields.
#[verifier::reject_recursive_types(T)]
pub enum Decoded<T> {
    /// The term read back.
    Value(T),
    /// A site the decoder needs is absent, or records another kind of value:
    /// its address.
    Missing(Seq<char>),
    /// A structural choice names no production: the message.
    OutOfRange(Seq<char>),
    /// An octave index whose offset does not fit an `i8`.
    Overflow,
}

/// A failure of one sort, relabelled for a term of another sort.
pub open spec fn relabel<T, U>(d: Decoded<T>) -> Decoded<U> {
    match d {
        Decoded::Missing(a) => Decoded::Missing(a),
        Decoded::OutOfRange(m) => Decoded::OutOfRange(m),
        _ => Decoded::Overflow,
    }
}

/// The continuous value recorded at `site` under `key`.
pub open spec fn read_real(t: Map<Seq<char>, SiteValue>, key: Seq<char>, site: Seq<char>) -> Option<
    Param,
> {
    match spec_lookup(t, spec_address(key, site)) {
        Some(SiteValue::Real(b)) => Some(b),
        _ => None,
    }
}

/// The categorical value recorded at `site` under `key`.
pub open spec fn read_index(t: Map<Seq<char>, SiteValue>, key: Seq<char>, site: Seq<char>) -> Option<
    usize,
> {
    match spec_lookup(t, spec_address(key, site)) {
        Some(SiteValue::Index(i)) => Some(i),
        _ => None,
    }
}

/// The Bernoulli value recorded at `site` under `key`.
pub open spec fn read_flag(t: Map<Seq<char>, SiteValue>, key: Seq<char>, site: Seq<char>) -> Option<
    bool,
> {
    match spec_lookup(t, spec_address(key, site)) {
        Some(SiteValue::Flag(b)) => Some(b),
        _ => None,
    }
}

/// Whether reading an octave back from index `i` overflows: the index,
/// narrowed to an `i8`, minus two must fit an `i8`.
pub open spec fn octave_overflows(i: usize) -> bool {
    (i as i8) < -126
}

/// The octave offset an index reads back as.
pub open spec fn spec_octave_at(i: usize) -> i8 {
    ((i as i8) - 2) as i8
}

/// The message for a structural index `k` that names no production.
pub open spec fn out_of_range(what: Seq<char>, k: usize, key: Seq<char>) -> Seq<char> {
    what + " kind "@ + spec_decimal(k as nat) + " out of range at "@ + key
}

/// How many recorded addresses lie below `key`.
pub open spec fn weight(t: Map<Seq<char>, SiteValue>, key: Seq<char>) -> nat {
    t.dom().filter(|a: Seq<char>| below(a, key)).len()
}

/// A site recorded at a plain key leaves fewer recorded addresses below
/// each of its child keys and its modulation key.
pub proof fn lemma_weight_drops(t: Map<Seq<char>, SiteValue>, key: Seq<char>, site: Seq<char>)
    requires
        t.dom().finite(),
        is_plain(key),
        t.dom().contains(spec_address(key, site)),
    ensures
        weight(t, spec_child_key(key, 0)) < weight(t, key),
        weight(t, spec_child_key(key, 1)) < weight(t, key),
        weight(t, spec_mod_key(key)) < weight(t, key),
{
    lemma_layout(key);
    let a0 = spec_address(key, site);
    let big = t.dom().filter(|a: Seq<char>| below(a, key));
    t.dom().lemma_len_filter(|a: Seq<char>| below(a, key));
    assert(big.contains(a0));
    let k0 = spec_child_key(key, 0);
    let k1 = spec_child_key(key, 1);
    let km = spec_mod_key(key);
    let s0 = t.dom().filter(|a: Seq<char>| below(a, k0));
    let s1 = t.dom().filter(|a: Seq<char>| below(a, k1));
    let sm = t.dom().filter(|a: Seq<char>| below(a, km));
    assert(s0.subset_of(big.remove(a0)));
    assert(s1.subset_of(big.remove(a0)));
    assert(sm.subset_of(big.remove(a0)));
    vstd::set_lib::lemma_len_subset(s0, big.remove(a0));
    vstd::set_lib::lemma_len_subset(s1, big.remove(a0));
    vstd::set_lib::lemma_len_subset(sm, big.remove(a0));
}

/// The mod-depth a module reads back as when its trace predates the knob.
pub const DEFAULT_MOD_DEPTH: Param = P030;

/// Decode the modulation term rooted at `key`.
pub open spec fn spec_decode_mod(t: Map<Seq<char>, SiteValue>, key: Seq<char>) -> Decoded<ModNode>
    decreases weight(t, key),
    when t.dom().finite() && is_plain(key)
{
    match read_index(t, key, "mod"@) {
        None => Decoded::Missing(spec_address(key, "mod"@)),
        Some(tag) => {
            proof {
                lemma_weight_drops(t, key, "mod"@);
            }
            if tag == 0 {
                Decoded::Value(ModNode::Empty)
            } else if tag == 1 {
                match read_index(t, key, "wave"@) {
                    None => Decoded::Missing(spec_address(key, "wave"@)),
                    Some(i) => {
                        let v_wave = Waveform::spec_from_index(i as nat);
                        match read_real(t, key, "rate"@) {
                            None => Decoded::Missing(spec_address(key, "rate"@)),
                            Some(v_rate) => {
                                Decoded::Value(ModNode::Lfo { wave: v_wave, rate: v_rate })
                            },
                        }
                    },
                }
            } else if tag == 2 {
                match read_real(t, key, "att"@) {
                    None => Decoded::Missing(spec_address(key, "att"@)),
                    Some(v_attack) => {
                        match read_real(t, key, "dec"@) {
                            None => Decoded::Missing(spec_address(key, "dec"@)),
                            Some(v_decay) => {
                                Decoded::Value(ModNode::Env { attack: v_attack, decay: v_decay })
                            },
                        }
                    },
                }
            } else if tag == 3 {
                match read_real(t, key, "rate"@) {
                    None => Decoded::Missing(spec_address(key, "rate"@)),
                    Some(v_rate) => {
                        let v_glide = match read_real(t, key, "glide"@) {
                            Some(b) => b,
                            None => 0,
                        };
                        Decoded::Value(ModNode::Rand { rate: v_rate, glide: v_glide })
                    },
                }
            } else if tag == 4 {
                match read_real(t, key, "sens"@) {
                    None => Decoded::Missing(spec_address(key, "sens"@)),
                    Some(v_sens) => {
                        match read_real(t, key, "rel"@) {
                            None => Decoded::Missing(spec_address(key, "rel"@)),
                            Some(v_release) => {
                                Decoded::Value(ModNode::Follow { sens: v_sens, release: v_release })
                            },
                        }
                    },
                }
            } else if tag == 5 {
                match read_real(t, key, "erate"@) {
                    None => Decoded::Missing(spec_address(key, "erate"@)),
                    Some(v_rate) => {
                        match read_real(t, key, "esteps"@) {
                            None => Decoded::Missing(spec_address(key, "esteps"@)),
                            Some(v_steps) => {
                                match read_real(t, key, "epulses"@) {
                                    None => Decoded::Missing(spec_address(key, "epulses"@)),
                                    Some(v_pulses) => {
                                        Decoded::Value(ModNode::Euclid { rate: v_rate, steps: v_steps, pulses: v_pulses })
                                    },
                                }
                            },
                        }
                    },
                }
            } else if tag == 6 {
                match read_index(t, key, "modop"@) {
                    None => Decoded::Missing(spec_address(key, "modop"@)),
                    Some(i) => {
                        let v_kind = ModOp::spec_from_index(i as nat);
                        let sites = v_kind.spec_param_sites();
                        match read_real(t, key, sites[0]) {
                            None => Decoded::Missing(spec_address(key, sites[0])),
                            Some(v_p0) => {
                                let p1 = if sites.len() > 1 {
                                    read_real(t, key, sites[1])
                                } else {
                                    Some(0u64)
                                };
                                match p1 {
                                    None => Decoded::Missing(spec_address(key, sites[1])),
                                    Some(v_p1) => match spec_decode_mod(t, spec_child_key(key, 0)) {
                                        Decoded::Value(v_input) => Decoded::Value(
                                            ModNode::Op {
                                                kind: v_kind,
                                                p0: v_p0,
                                                p1: v_p1,
                                                input: Box::new(v_input),
                                            },
                                        ),
                                        d => d,
                                    },
                                }
                            },
                        }
                    },
                }
            } else if tag == 7 {
                match read_index(t, key, "pairop"@) {
                    None => Decoded::Missing(spec_address(key, "pairop"@)),
                    Some(i) => {
                        let v_kind = PairOp::spec_from_index(i as nat);
                        match spec_decode_mod(t, spec_child_key(key, 0)) {
                            Decoded::Value(v_a) => match spec_decode_mod(t, spec_child_key(key, 1)) {
                                Decoded::Value(v_b) => Decoded::Value(
                                    ModNode::Pair { kind: v_kind, a: Box::new(v_a), b: Box::new(v_b) },
                                ),
                                d => d,
                            },
                            d => d,
                        }
                    },
                }
            } else {
                Decoded::OutOfRange(out_of_range("mod"@, tag, key))
            }
        },
    }
}

/// Decode a modulation slot that may predate the trace: with no `#mod` site
/// at all it reads back as an empty slot.
pub open spec fn spec_decode_new_mod(t: Map<Seq<char>, SiteValue>, key: Seq<char>) -> Decoded<
    ModNode,
> {
    match read_index(t, key, "mod"@) {
        None => Decoded::Value(ModNode::Empty),
        Some(_) => spec_decode_mod(t, key),
    }
}

/// Decode the audio term rooted at `key`.
pub open spec fn spec_decode_node(t: Map<Seq<char>, SiteValue>, key: Seq<char>) -> Decoded<AudioNode>
    decreases weight(t, key), 2nat,
    when t.dom().finite() && is_plain(key)
{
    match read_flag(t, key, "leaf"@) {
        None => Decoded::Missing(spec_address(key, "leaf"@)),
        Some(leaf) => if leaf {
            spec_decode_source(t, key)
        } else {
            spec_decode_processor(t, key)
        },
    }
}

/// Decode the source recorded at `key`.
pub open spec fn spec_decode_source(t: Map<Seq<char>, SiteValue>, key: Seq<char>) -> Decoded<AudioNode> {
    match read_index(t, key, "src"@) {
        None => Decoded::Missing(spec_address(key, "src"@)),
        Some(tag) => {
            if tag == 0 {
                match read_index(t, key, "wave"@) {
                    None => Decoded::Missing(spec_address(key, "wave"@)),
                    Some(i) => {
                        let v_wave = Waveform::spec_from_index(i as nat);
                        match read_index(t, key, "oct"@) {
                            None => Decoded::Missing(spec_address(key, "oct"@)),
                            Some(i) => {
                                if octave_overflows(i) {
                                    Decoded::Overflow
                                } else {
                                    let v_octave = spec_octave_at(i);
                                    match read_real(t, key, "det"@) {
                                        None => Decoded::Missing(spec_address(key, "det"@)),
                                        Some(v_detune) => {
                                            let v_mod_depth = match read_real(t, key, "mdepth"@) {
                                                Some(b) => b,
                                                None => DEFAULT_MOD_DEPTH,
                                            };
                                            match spec_decode_new_mod(t, spec_mod_key(key)) {
                                                Decoded::Value(v_modulation) => {
                                                    Decoded::Value(AudioNode::Vco { wave: v_wave, octave: v_octave, detune: v_detune, mod_depth: v_mod_depth, modulation: v_modulation })
                                                },
                                                d => relabel(d),
                                            }
                                        },
                                    }
                                }
                            },
                        }
                    },
                }
            } else if tag == 1 {
                match read_index(t, key, "oct"@) {
                    None => Decoded::Missing(spec_address(key, "oct"@)),
                    Some(i) => {
                        if octave_overflows(i) {
                            Decoded::Overflow
                        } else {
                            let v_octave = spec_octave_at(i);
                            match read_real(t, key, "det"@) {
                                None => Decoded::Missing(spec_address(key, "det"@)),
                                Some(v_detune) => {
                                    match read_real(t, key, "smix"@) {
                                        None => Decoded::Missing(spec_address(key, "smix"@)),
                                        Some(v_mix) => {
                                            let v_mod_depth = match read_real(t, key, "mdepth"@) {
                                                Some(b) => b,
                                                None => DEFAULT_MOD_DEPTH,
                                            };
                                            match spec_decode_new_mod(t, spec_mod_key(key)) {
                                                Decoded::Value(v_modulation) => {
                                                    Decoded::Value(AudioNode::Supersaw { octave: v_octave, detune: v_detune, mix: v_mix, mod_depth: v_mod_depth, modulation: v_modulation })
                                                },
                                                d => relabel(d),
                                            }
                                        },
                                    }
                                },
                            }
                        }
                    },
                }
            } else if tag == 2 {
                match read_index(t, key, "color"@) {
                    None => Decoded::Missing(spec_address(key, "color"@)),
                    Some(i) => {
                        let v_color = NoiseColor::spec_from_index(i as nat);
                        Decoded::Value(AudioNode::Noise { color: v_color })
                    },
                }
            } else if tag == 3 {
                match read_index(t, key, "table"@) {
                    None => Decoded::Missing(spec_address(key, "table"@)),
                    Some(i) => {
                        let v_table = TableShape::spec_from_index(i as nat);
                        match read_index(t, key, "oct"@) {
                            None => Decoded::Missing(spec_address(key, "oct"@)),
                            Some(i) => {
                                if octave_overflows(i) {
                                    Decoded::Overflow
                                } else {
                                    let v_octave = spec_octave_at(i);
                                    match read_real(t, key, "morph"@) {
                                        None => Decoded::Missing(spec_address(key, "morph"@)),
                                        Some(v_morph) => {
                                            match read_real(t, key, "mdepth"@) {
                                                None => Decoded::Missing(spec_address(key, "mdepth"@)),
                                                Some(v_mod_depth) => {
                                                    match spec_decode_new_mod(t, spec_mod_key(key)) {
                                                        Decoded::Value(v_modulation) => {
                                                            Decoded::Value(AudioNode::Wavetable { table: v_table, octave: v_octave, morph: v_morph, mod_depth: v_mod_depth, modulation: v_modulation })
                                                        },
                                                        d => relabel(d),
                                                    }
                                                },
                                            }
                                        },
                                    }
                                }
                            },
                        }
                    },
                }
            } else if tag == 4 {
                match read_index(t, key, "oct"@) {
                    None => Decoded::Missing(spec_address(key, "oct"@)),
                    Some(i) => {
                        if octave_overflows(i) {
                            Decoded::Overflow
                        } else {
                            let v_octave = spec_octave_at(i);
                            match read_real(t, key, "damp"@) {
                                None => Decoded::Missing(spec_address(key, "damp"@)),
                                Some(v_damping) => {
                                    match read_real(t, key, "bright"@) {
                                        None => Decoded::Missing(spec_address(key, "bright"@)),
                                        Some(v_brightness) => {
                                            match read_real(t, key, "mdepth"@) {
                                                None => Decoded::Missing(spec_address(key, "mdepth"@)),
                                                Some(v_mod_depth) => {
                                                    match spec_decode_new_mod(t, spec_mod_key(key)) {
                                                        Decoded::Value(v_modulation) => {
                                                            Decoded::Value(AudioNode::Pluck { octave: v_octave, damping: v_damping, brightness: v_brightness, mod_depth: v_mod_depth, modulation: v_modulation })
                                                        },
                                                        d => relabel(d),
                                                    }
                                                },
                                            }
                                        },
                                    }
                                },
                            }
                        }
                    },
                }
            } else if tag == 5 {
                match read_real(t, key, "vowel"@) {
                    None => Decoded::Missing(spec_address(key, "vowel"@)),
                    Some(v_vowel) => {
                        match read_real(t, key, "fshift"@) {
                            None => Decoded::Missing(spec_address(key, "fshift"@)),
                            Some(v_shift) => {
                                match read_index(t, key, "oct"@) {
                                    None => Decoded::Missing(spec_address(key, "oct"@)),
                                    Some(i) => {
                                        if octave_overflows(i) {
                                            Decoded::Overflow
                                        } else {
                                            let v_octave = spec_octave_at(i);
                                            match read_real(t, key, "mdepth"@) {
                                                None => Decoded::Missing(spec_address(key, "mdepth"@)),
                                                Some(v_mod_depth) => {
                                                    match spec_decode_mod(t, spec_mod_key(key)) {
                                                        Decoded::Value(v_modulation) => {
                                                            Decoded::Value(AudioNode::Formant { vowel: v_vowel, shift: v_shift, octave: v_octave, mod_depth: v_mod_depth, modulation: v_modulation })
                                                        },
                                                        d => relabel(d),
                                                    }
                                                },
                                            }
                                        }
                                    },
                                }
                            },
                        }
                    },
                }
            } else {
                Decoded::OutOfRange(out_of_range("source"@, tag, key))
            }
        },
    }
}

/// Decode the processor recorded at `key`.
pub open spec fn spec_decode_processor(t: Map<Seq<char>, SiteValue>, key: Seq<char>) -> Decoded<
    AudioNode,
>
    decreases weight(t, key), 1nat,
    when t.dom().finite() && is_plain(key)
{
    match read_index(t, key, "op"@) {
        None => Decoded::Missing(spec_address(key, "op"@)),
        Some(tag) => {
            if tag == 0 {
                spec_decode_mix(t, key)
            } else if tag == 1 {
                spec_decode_filter(t, key)
            } else if tag == 2 {
                spec_decode_fold(t, key)
            } else if tag == 3 {
                spec_decode_delay(t, key)
            } else if tag == 4 {
                spec_decode_chorus(t, key)
            } else if tag == 5 {
                spec_decode_reverb(t, key)
            } else if tag == 6 {
                spec_decode_distortion(t, key)
            } else if tag == 7 {
                spec_decode_bitcrush(t, key)
            } else if tag == 8 {
                spec_decode_phaser(t, key)
            } else if tag == 9 {
                spec_decode_ring_mod(t, key)
            } else if tag == 10 {
                spec_decode_flanger(t, key)
            } else if tag == 11 {
                spec_decode_tremolo(t, key)
            } else if tag == 12 {
                spec_decode_vibrato(t, key)
            } else if tag == 13 {
                spec_decode_eq(t, key)
            } else if tag == 14 {
                spec_decode_granular(t, key)
            } else if tag == 15 {
                spec_decode_shift(t, key)
            } else if tag == 16 {
                spec_decode_comp(t, key)
            } else if tag == 17 {
                spec_decode_duck(t, key)
            } else if tag == 18 {
                spec_decode_gate(t, key)
            } else if tag == 19 {
                spec_decode_vocoder(t, key)
            } else {
                Decoded::OutOfRange(out_of_range("op"@, tag, key))
            }
        },
    }
}

/// Decode the mix processor recorded at `key`.
pub open spec fn spec_decode_mix(t: Map<Seq<char>, SiteValue>, key: Seq<char>) -> Decoded<
    AudioNode,
>
    decreases weight(t, key), 0nat,
    when t.dom().finite() && is_plain(key) && t.dom().contains(spec_address(key, "op"@))
{
    proof {
        lemma_weight_drops(t, key, "op"@);
    }
    match read_real(t, key, "bal"@) {
        None => Decoded::Missing(spec_address(key, "bal"@)),
        Some(v_balance) => {
            match spec_decode_node(t, spec_child_key(key, 0)) {
                Decoded::Value(v_a) => {
                    match spec_decode_node(t, spec_child_key(key, 1)) {
                        Decoded::Value(v_b) => {
                            Decoded::Value(AudioNode::Mix { balance: v_balance, a: Box::new(v_a), b: Box::new(v_b) })
                        },
                        d => d,
                    }
                },
                d => d,
            }
        },
    }
}

/// Decode the filter processor recorded at `key`.
pub open spec fn spec_decode_filter(t: Map<Seq<char>, SiteValue>, key: Seq<char>) -> Decoded<
    AudioNode,
>
    decreases weight(t, key), 0nat,
    when t.dom().finite() && is_plain(key) && t.dom().contains(spec_address(key, "op"@))
{
    proof {
        lemma_weight_drops(t, key, "op"@);
    }
    match read_index(t, key, "fkind"@) {
        None => Decoded::Missing(spec_address(key, "fkind"@)),
        Some(i) => {
            let v_kind = FilterKind::spec_from_index(i as nat);
            match read_real(t, key, "cut"@) {
                None => Decoded::Missing(spec_address(key, "cut"@)),
                Some(v_cutoff) => {
                    match read_real(t, key, "res"@) {
                        None => Decoded::Missing(spec_address(key, "res"@)),
                        Some(v_resonance) => {
                            match read_real(t, key, "mdepth"@) {
                                None => Decoded::Missing(spec_address(key, "mdepth"@)),
                                Some(v_mod_depth) => {
                                    match spec_decode_mod(t, spec_mod_key(key)) {
                                        Decoded::Value(v_modulation) => {
                                            match spec_decode_node(t, spec_child_key(key, 0)) {
                                                Decoded::Value(v_input) => {
                                                    Decoded::Value(AudioNode::Filter { kind: v_kind, cutoff: v_cutoff, resonance: v_resonance, mod_depth: v_mod_depth, modulation: v_modulation, input: Box::new(v_input) })
                                                },
                                                d => d,
                                            }
                                        },
                                        d => relabel(d),
                                    }
                                },
                            }
                        },
                    }
                },
            }
        },
    }
}

/// Decode the fold processor recorded at `key`.
pub open spec fn spec_decode_fold(t: Map<Seq<char>, SiteValue>, key: Seq<char>) -> Decoded<
    AudioNode,
>
    decreases weight(t, key), 0nat,
    when t.dom().finite() && is_plain(key) && t.dom().contains(spec_address(key, "op"@))
{
    proof {
        lemma_weight_drops(t, key, "op"@);
    }
    match read_real(t, key, "thresh"@) {
        None => Decoded::Missing(spec_address(key, "thresh"@)),
        Some(v_threshold) => {
            match read_real(t, key, "mdepth"@) {
                None => Decoded::Missing(spec_address(key, "mdepth"@)),
                Some(v_mod_depth) => {
                    match spec_decode_mod(t, spec_mod_key(key)) {
                        Decoded::Value(v_modulation) => {
                            match spec_decode_node(t, spec_child_key(key, 0)) {
                                Decoded::Value(v_input) => {
                                    Decoded::Value(AudioNode::Fold { threshold: v_threshold, mod_depth: v_mod_depth, modulation: v_modulation, input: Box::new(v_input) })
                                },
                                d => d,
                            }
                        },
                        d => relabel(d),
                    }
                },
            }
        },
    }
}

/// Decode the delay processor recorded at `key`.
pub open spec fn spec_decode_delay(t: Map<Seq<char>, SiteValue>, key: Seq<char>) -> Decoded<
    AudioNode,
>
    decreases weight(t, key), 0nat,
    when t.dom().finite() && is_plain(key) && t.dom().contains(spec_address(key, "op"@))
{
    proof {
        lemma_weight_drops(t, key, "op"@);
    }
    match read_real(t, key, "time"@) {
        None => Decoded::Missing(spec_address(key, "time"@)),
        Some(v_time) => {
            match read_real(t, key, "fb"@) {
                None => Decoded::Missing(spec_address(key, "fb"@)),
                Some(v_feedback) => {
                    match read_real(t, key, "dmix"@) {
                        None => Decoded::Missing(spec_address(key, "dmix"@)),
                        Some(v_mix) => {
                            let v_mod_depth = match read_real(t, key, "mdepth"@) {
                                Some(b) => b,
                                None => DEFAULT_MOD_DEPTH,
                            };
                            match spec_decode_new_mod(t, spec_mod_key(key)) {
                                Decoded::Value(v_modulation) => {
                                    match spec_decode_node(t, spec_child_key(key, 0)) {
                                        Decoded::Value(v_input) => {
                                            Decoded::Value(AudioNode::Delay { time: v_time, feedback: v_feedback, mix: v_mix, mod_depth: v_mod_depth, modulation: v_modulation, input: Box::new(v_input) })
                                        },
                                        d => d,
                                    }
                                },
                                d => relabel(d),
                            }
                        },
                    }
                },
            }
        },
    }
}

/// Decode the chorus processor recorded at `key`.
pub open spec fn spec_decode_chorus(t: Map<Seq<char>, SiteValue>, key: Seq<char>) -> Decoded<
    AudioNode,
>
    decreases weight(t, key), 0nat,
    when t.dom().finite() && is_plain(key) && t.dom().contains(spec_address(key, "op"@))
{
    proof {
        lemma_weight_drops(t, key, "op"@);
    }
    match read_real(t, key, "crate"@) {
        None => Decoded::Missing(spec_address(key, "crate"@)),
        Some(v_rate) => {
            match read_real(t, key, "cdepth"@) {
                None => Decoded::Missing(spec_address(key, "cdepth"@)),
                Some(v_depth) => {
                    match read_real(t, key, "cmix"@) {
                        None => Decoded::Missing(spec_address(key, "cmix"@)),
                        Some(v_mix) => {
                            let v_mod_depth = match read_real(t, key, "mdepth"@) {
                                Some(b) => b,
                                None => DEFAULT_MOD_DEPTH,
                            };
                            match spec_decode_new_mod(t, spec_mod_key(key)) {
                                Decoded::Value(v_modulation) => {
                                    match spec_decode_node(t, spec_child_key(key, 0)) {
                                        Decoded::Value(v_input) => {
                                            Decoded::Value(AudioNode::Chorus { rate: v_rate, depth: v_depth, mix: v_mix, mod_depth: v_mod_depth, modulation: v_modulation, input: Box::new(v_input) })
                                        },
                                        d => d,
                                    }
                                },
                                d => relabel(d),
                            }
                        },
                    }
                },
            }
        },
    }
}

/// Decode the reverb processor recorded at `key`.
pub open spec fn spec_decode_reverb(t: Map<Seq<char>, SiteValue>, key: Seq<char>) -> Decoded<
    AudioNode,
>
    decreases weight(t, key), 0nat,
    when t.dom().finite() && is_plain(key) && t.dom().contains(spec_address(key, "op"@))
{
    proof {
        lemma_weight_drops(t, key, "op"@);
    }
    match read_real(t, key, "rsize"@) {
        None => Decoded::Missing(spec_address(key, "rsize"@)),
        Some(v_size) => {
            match read_real(t, key, "rdamp"@) {
                None => Decoded::Missing(spec_address(key, "rdamp"@)),
                Some(v_damp) => {
                    match read_real(t, key, "rmix"@) {
                        None => Decoded::Missing(spec_address(key, "rmix"@)),
                        Some(v_mix) => {
                            let v_mod_depth = match read_real(t, key, "mdepth"@) {
                                Some(b) => b,
                                None => DEFAULT_MOD_DEPTH,
                            };
                            match spec_decode_new_mod(t, spec_mod_key(key)) {
                                Decoded::Value(v_modulation) => {
                                    match spec_decode_node(t, spec_child_key(key, 0)) {
                                        Decoded::Value(v_input) => {
                                            Decoded::Value(AudioNode::Reverb { size: v_size, damp: v_damp, mix: v_mix, mod_depth: v_mod_depth, modulation: v_modulation, input: Box::new(v_input) })
                                        },
                                        d => d,
                                    }
                                },
                                d => relabel(d),
                            }
                        },
                    }
                },
            }
        },
    }
}

/// Decode the distortion processor recorded at `key`.
pub open spec fn spec_decode_distortion(t: Map<Seq<char>, SiteValue>, key: Seq<char>) -> Decoded<
    AudioNode,
>
    decreases weight(t, key), 0nat,
    when t.dom().finite() && is_plain(key) && t.dom().contains(spec_address(key, "op"@))
{
    proof {
        lemma_weight_drops(t, key, "op"@);
    }
    match read_real(t, key, "drive"@) {
        None => Decoded::Missing(spec_address(key, "drive"@)),
        Some(v_drive) => {
            match read_real(t, key, "tone"@) {
                None => Decoded::Missing(spec_address(key, "tone"@)),
                Some(v_tone) => {
                    match read_index(t, key, "dmode"@) {
                        None => Decoded::Missing(spec_address(key, "dmode"@)),
                        Some(i) => {
                            let v_mode = DriveMode::spec_from_index(i as nat);
                            match read_real(t, key, "mdepth"@) {
                                None => Decoded::Missing(spec_address(key, "mdepth"@)),
                                Some(v_mod_depth) => {
                                    match spec_decode_mod(t, spec_mod_key(key)) {
                                        Decoded::Value(v_modulation) => {
                                            match spec_decode_node(t, spec_child_key(key, 0)) {
                                                Decoded::Value(v_input) => {
                                                    Decoded::Value(AudioNode::Distortion { drive: v_drive, tone: v_tone, mode: v_mode, mod_depth: v_mod_depth, modulation: v_modulation, input: Box::new(v_input) })
                                                },
                                                d => d,
                                            }
                                        },
                                        d => relabel(d),
                                    }
                                },
                            }
                        },
                    }
                },
            }
        },
    }
}

/// Decode the bitcrush processor recorded at `key`.
pub open spec fn spec_decode_bitcrush(t: Map<Seq<char>, SiteValue>, key: Seq<char>) -> Decoded<
    AudioNode,
>
    decreases weight(t, key), 0nat,
    when t.dom().finite() && is_plain(key) && t.dom().contains(spec_address(key, "op"@))
{
    proof {
        lemma_weight_drops(t, key, "op"@);
    }
    match read_real(t, key, "bits"@) {
        None => Decoded::Missing(spec_address(key, "bits"@)),
        Some(v_bits) => {
            match read_real(t, key, "dsamp"@) {
                None => Decoded::Missing(spec_address(key, "dsamp"@)),
                Some(v_downsample) => {
                    match read_real(t, key, "mdepth"@) {
                        None => Decoded::Missing(spec_address(key, "mdepth"@)),
                        Some(v_mod_depth) => {
                            match spec_decode_mod(t, spec_mod_key(key)) {
                                Decoded::Value(v_modulation) => {
                                    match spec_decode_node(t, spec_child_key(key, 0)) {
                                        Decoded::Value(v_input) => {
                                            Decoded::Value(AudioNode::Bitcrush { bits: v_bits, downsample: v_downsample, mod_depth: v_mod_depth, modulation: v_modulation, input: Box::new(v_input) })
                                        },
                                        d => d,
                                    }
                                },
                                d => relabel(d),
                            }
                        },
                    }
                },
            }
        },
    }
}

/// Decode the phaser processor recorded at `key`.
pub open spec fn spec_decode_phaser(t: Map<Seq<char>, SiteValue>, key: Seq<char>) -> Decoded<
    AudioNode,
>
    decreases weight(t, key), 0nat,
    when t.dom().finite() && is_plain(key) && t.dom().contains(spec_address(key, "op"@))
{
    proof {
        lemma_weight_drops(t, key, "op"@);
    }
    match read_real(t, key, "prate"@) {
        None => Decoded::Missing(spec_address(key, "prate"@)),
        Some(v_rate) => {
            match read_real(t, key, "pdepth"@) {
                None => Decoded::Missing(spec_address(key, "pdepth"@)),
                Some(v_depth) => {
                    match read_real(t, key, "pfb"@) {
                        None => Decoded::Missing(spec_address(key, "pfb"@)),
                        Some(v_feedback) => {
                            match read_real(t, key, "mdepth"@) {
                                None => Decoded::Missing(spec_address(key, "mdepth"@)),
                                Some(v_mod_depth) => {
                                    match spec_decode_mod(t, spec_mod_key(key)) {
                                        Decoded::Value(v_modulation) => {
                                            match spec_decode_node(t, spec_child_key(key, 0)) {
                                                Decoded::Value(v_input) => {
                                                    Decoded::Value(AudioNode::Phaser { rate: v_rate, depth: v_depth, feedback: v_feedback, mod_depth: v_mod_depth, modulation: v_modulation, input: Box::new(v_input) })
                                                },
                                                d => d,
                                            }
                                        },
                                        d => relabel(d),
                                    }
                                },
                            }
                        },
                    }
                },
            }
        },
    }
}

/// Decode the ringmod processor recorded at `key`.
pub open spec fn spec_decode_ring_mod(t: Map<Seq<char>, SiteValue>, key: Seq<char>) -> Decoded<
    AudioNode,
>
    decreases weight(t, key), 0nat,
    when t.dom().finite() && is_plain(key) && t.dom().contains(spec_address(key, "op"@))
{
    proof {
        lemma_weight_drops(t, key, "op"@);
    }
    match read_real(t, key, "rgmix"@) {
        None => Decoded::Missing(spec_address(key, "rgmix"@)),
        Some(v_mix) => {
            match spec_decode_node(t, spec_child_key(key, 0)) {
                Decoded::Value(v_a) => {
                    match spec_decode_node(t, spec_child_key(key, 1)) {
                        Decoded::Value(v_b) => {
                            Decoded::Value(AudioNode::RingMod { mix: v_mix, a: Box::new(v_a), b: Box::new(v_b) })
                        },
                        d => d,
                    }
                },
                d => d,
            }
        },
    }
}

/// Decode the flanger processor recorded at `key`.
pub open spec fn spec_decode_flanger(t: Map<Seq<char>, SiteValue>, key: Seq<char>) -> Decoded<
    AudioNode,
>
    decreases weight(t, key), 0nat,
    when t.dom().finite() && is_plain(key) && t.dom().contains(spec_address(key, "op"@))
{
    proof {
        lemma_weight_drops(t, key, "op"@);
    }
    match read_real(t, key, "frate"@) {
        None => Decoded::Missing(spec_address(key, "frate"@)),
        Some(v_rate) => {
            match read_real(t, key, "fdepth"@) {
                None => Decoded::Missing(spec_address(key, "fdepth"@)),
                Some(v_depth) => {
                    match read_real(t, key, "ffb"@) {
                        None => Decoded::Missing(spec_address(key, "ffb"@)),
                        Some(v_feedback) => {
                            match read_real(t, key, "mdepth"@) {
                                None => Decoded::Missing(spec_address(key, "mdepth"@)),
                                Some(v_mod_depth) => {
                                    match spec_decode_mod(t, spec_mod_key(key)) {
                                        Decoded::Value(v_modulation) => {
                                            match spec_decode_node(t, spec_child_key(key, 0)) {
                                                Decoded::Value(v_input) => {
                                                    Decoded::Value(AudioNode::Flanger { rate: v_rate, depth: v_depth, feedback: v_feedback, mod_depth: v_mod_depth, modulation: v_modulation, input: Box::new(v_input) })
                                                },
                                                d => d,
                                            }
                                        },
                                        d => relabel(d),
                                    }
                                },
                            }
                        },
                    }
                },
            }
        },
    }
}

/// Decode the tremolo processor recorded at `key`.
pub open spec fn spec_decode_tremolo(t: Map<Seq<char>, SiteValue>, key: Seq<char>) -> Decoded<
    AudioNode,
>
    decreases weight(t, key), 0nat,
    when t.dom().finite() && is_plain(key) && t.dom().contains(spec_address(key, "op"@))
{
    proof {
        lemma_weight_drops(t, key, "op"@);
    }
    match read_real(t, key, "trate"@) {
        None => Decoded::Missing(spec_address(key, "trate"@)),
        Some(v_rate) => {
            match read_real(t, key, "tdepth"@) {
                None => Decoded::Missing(spec_address(key, "tdepth"@)),
                Some(v_depth) => {
                    match read_real(t, key, "tshape"@) {
                        None => Decoded::Missing(spec_address(key, "tshape"@)),
                        Some(v_shape) => {
                            match read_real(t, key, "mdepth"@) {
                                None => Decoded::Missing(spec_address(key, "mdepth"@)),
                                Some(v_mod_depth) => {
                                    match spec_decode_mod(t, spec_mod_key(key)) {
                                        Decoded::Value(v_modulation) => {
                                            match spec_decode_node(t, spec_child_key(key, 0)) {
                                                Decoded::Value(v_input) => {
                                                    Decoded::Value(AudioNode::Tremolo { rate: v_rate, depth: v_depth, shape: v_shape, mod_depth: v_mod_depth, modulation: v_modulation, input: Box::new(v_input) })
                                                },
                                                d => d,
                                            }
                                        },
                                        d => relabel(d),
                                    }
                                },
                            }
                        },
                    }
                },
            }
        },
    }
}

/// Decode the vibrato processor recorded at `key`.
pub open spec fn spec_decode_vibrato(t: Map<Seq<char>, SiteValue>, key: Seq<char>) -> Decoded<
    AudioNode,
>
    decreases weight(t, key), 0nat,
    when t.dom().finite() && is_plain(key) && t.dom().contains(spec_address(key, "op"@))
{
    proof {
        lemma_weight_drops(t, key, "op"@);
    }
    match read_real(t, key, "vrate"@) {
        None => Decoded::Missing(spec_address(key, "vrate"@)),
        Some(v_rate) => {
            match read_real(t, key, "vdepth"@) {
                None => Decoded::Missing(spec_address(key, "vdepth"@)),
                Some(v_depth) => {
                    match read_real(t, key, "vmix"@) {
                        None => Decoded::Missing(spec_address(key, "vmix"@)),
                        Some(v_mix) => {
                            match read_real(t, key, "mdepth"@) {
                                None => Decoded::Missing(spec_address(key, "mdepth"@)),
                                Some(v_mod_depth) => {
                                    match spec_decode_mod(t, spec_mod_key(key)) {
                                        Decoded::Value(v_modulation) => {
                                            match spec_decode_node(t, spec_child_key(key, 0)) {
                                                Decoded::Value(v_input) => {
                                                    Decoded::Value(AudioNode::Vibrato { rate: v_rate, depth: v_depth, mix: v_mix, mod_depth: v_mod_depth, modulation: v_modulation, input: Box::new(v_input) })
                                                },
                                                d => d,
                                            }
                                        },
                                        d => relabel(d),
                                    }
                                },
                            }
                        },
                    }
                },
            }
        },
    }
}

/// Decode the eq processor recorded at `key`.
pub open spec fn spec_decode_eq(t: Map<Seq<char>, SiteValue>, key: Seq<char>) -> Decoded<
    AudioNode,
>
    decreases weight(t, key), 0nat,
    when t.dom().finite() && is_plain(key) && t.dom().contains(spec_address(key, "op"@))
{
    proof {
        lemma_weight_drops(t, key, "op"@);
    }
    match read_real(t, key, "low"@) {
        None => Decoded::Missing(spec_address(key, "low"@)),
        Some(v_low) => {
            match read_real(t, key, "mid"@) {
                None => Decoded::Missing(spec_address(key, "mid"@)),
                Some(v_mid) => {
                    match read_real(t, key, "high"@) {
                        None => Decoded::Missing(spec_address(key, "high"@)),
                        Some(v_high) => {
                            match read_real(t, key, "mdepth"@) {
                                None => Decoded::Missing(spec_address(key, "mdepth"@)),
                                Some(v_mod_depth) => {
                                    match spec_decode_mod(t, spec_mod_key(key)) {
                                        Decoded::Value(v_modulation) => {
                                            match spec_decode_node(t, spec_child_key(key, 0)) {
                                                Decoded::Value(v_input) => {
                                                    Decoded::Value(AudioNode::Eq { low: v_low, mid: v_mid, high: v_high, mod_depth: v_mod_depth, modulation: v_modulation, input: Box::new(v_input) })
                                                },
                                                d => d,
                                            }
                                        },
                                        d => relabel(d),
                                    }
                                },
                            }
                        },
                    }
                },
            }
        },
    }
}

/// Decode the granular processor recorded at `key`.
pub open spec fn spec_decode_granular(t: Map<Seq<char>, SiteValue>, key: Seq<char>) -> Decoded<
    AudioNode,
>
    decreases weight(t, key), 0nat,
    when t.dom().finite() && is_plain(key) && t.dom().contains(spec_address(key, "op"@))
{
    proof {
        lemma_weight_drops(t, key, "op"@);
    }
    match read_real(t, key, "gpos"@) {
        None => Decoded::Missing(spec_address(key, "gpos"@)),
        Some(v_position) => {
            match read_real(t, key, "gsize"@) {
                None => Decoded::Missing(spec_address(key, "gsize"@)),
                Some(v_size) => {
                    match read_real(t, key, "gdens"@) {
                        None => Decoded::Missing(spec_address(key, "gdens"@)),
                        Some(v_density) => {
                            match read_real(t, key, "mdepth"@) {
                                None => Decoded::Missing(spec_address(key, "mdepth"@)),
                                Some(v_mod_depth) => {
                                    match spec_decode_mod(t, spec_mod_key(key)) {
                                        Decoded::Value(v_modulation) => {
                                            match spec_decode_node(t, spec_child_key(key, 0)) {
                                                Decoded::Value(v_input) => {
                                                    Decoded::Value(AudioNode::Granular { position: v_position, size: v_size, density: v_density, mod_depth: v_mod_depth, modulation: v_modulation, input: Box::new(v_input) })
                                                },
                                                d => d,
                                            }
                                        },
                                        d => relabel(d),
                                    }
                                },
                            }
                        },
                    }
                },
            }
        },
    }
}

/// Decode the shift processor recorded at `key`.
pub open spec fn spec_decode_shift(t: Map<Seq<char>, SiteValue>, key: Seq<char>) -> Decoded<
    AudioNode,
>
    decreases weight(t, key), 0nat,
    when t.dom().finite() && is_plain(key) && t.dom().contains(spec_address(key, "op"@))
{
    proof {
        lemma_weight_drops(t, key, "op"@);
    }
    match read_real(t, key, "semis"@) {
        None => Decoded::Missing(spec_address(key, "semis"@)),
        Some(v_semis) => {
            match read_real(t, key, "window"@) {
                None => Decoded::Missing(spec_address(key, "window"@)),
                Some(v_window) => {
                    match read_real(t, key, "smix"@) {
                        None => Decoded::Missing(spec_address(key, "smix"@)),
                        Some(v_mix) => {
                            match read_real(t, key, "mdepth"@) {
                                None => Decoded::Missing(spec_address(key, "mdepth"@)),
                                Some(v_mod_depth) => {
                                    match spec_decode_mod(t, spec_mod_key(key)) {
                                        Decoded::Value(v_modulation) => {
                                            match spec_decode_node(t, spec_child_key(key, 0)) {
                                                Decoded::Value(v_input) => {
                                                    Decoded::Value(AudioNode::Shift { semis: v_semis, window: v_window, mix: v_mix, mod_depth: v_mod_depth, modulation: v_modulation, input: Box::new(v_input) })
                                                },
                                                d => d,
                                            }
                                        },
                                        d => relabel(d),
                                    }
                                },
                            }
                        },
                    }
                },
            }
        },
    }
}

/// Decode the comp processor recorded at `key`.
pub open spec fn spec_decode_comp(t: Map<Seq<char>, SiteValue>, key: Seq<char>) -> Decoded<
    AudioNode,
>
    decreases weight(t, key), 0nat,
    when t.dom().finite() && is_plain(key) && t.dom().contains(spec_address(key, "op"@))
{
    proof {
        lemma_weight_drops(t, key, "op"@);
    }
    match read_real(t, key, "thresh"@) {
        None => Decoded::Missing(spec_address(key, "thresh"@)),
        Some(v_threshold) => {
            match read_real(t, key, "ratio"@) {
                None => Decoded::Missing(spec_address(key, "ratio"@)),
                Some(v_ratio) => {
                    match read_real(t, key, "makeup"@) {
                        None => Decoded::Missing(spec_address(key, "makeup"@)),
                        Some(v_makeup) => {
                            match read_real(t, key, "mdepth"@) {
                                None => Decoded::Missing(spec_address(key, "mdepth"@)),
                                Some(v_mod_depth) => {
                                    match spec_decode_mod(t, spec_mod_key(key)) {
                                        Decoded::Value(v_modulation) => {
                                            match spec_decode_node(t, spec_child_key(key, 0)) {
                                                Decoded::Value(v_input) => {
                                                    match spec_decode_node(t, spec_child_key(key, 1)) {
                                                        Decoded::Value(v_sidechain) => {
                                                            Decoded::Value(AudioNode::Comp { threshold: v_threshold, ratio: v_ratio, makeup: v_makeup, mod_depth: v_mod_depth, modulation: v_modulation, input: Box::new(v_input), sidechain: Box::new(v_sidechain) })
                                                        },
                                                        d => d,
                                                    }
                                                },
                                                d => d,
                                            }
                                        },
                                        d => relabel(d),
                                    }
                                },
                            }
                        },
                    }
                },
            }
        },
    }
}

/// Decode the duck processor recorded at `key`.
pub open spec fn spec_decode_duck(t: Map<Seq<char>, SiteValue>, key: Seq<char>) -> Decoded<
    AudioNode,
>
    decreases weight(t, key), 0nat,
    when t.dom().finite() && is_plain(key) && t.dom().contains(spec_address(key, "op"@))
{
    proof {
        lemma_weight_drops(t, key, "op"@);
    }
    match read_real(t, key, "amount"@) {
        None => Decoded::Missing(spec_address(key, "amount"@)),
        Some(v_amount) => {
            match read_real(t, key, "dthresh"@) {
                None => Decoded::Missing(spec_address(key, "dthresh"@)),
                Some(v_threshold) => {
                    match read_real(t, key, "drel"@) {
                        None => Decoded::Missing(spec_address(key, "drel"@)),
                        Some(v_release) => {
                            match read_real(t, key, "mdepth"@) {
                                None => Decoded::Missing(spec_address(key, "mdepth"@)),
                                Some(v_mod_depth) => {
                                    match spec_decode_mod(t, spec_mod_key(key)) {
                                        Decoded::Value(v_modulation) => {
                                            match spec_decode_node(t, spec_child_key(key, 0)) {
                                                Decoded::Value(v_input) => {
                                                    match spec_decode_node(t, spec_child_key(key, 1)) {
                                                        Decoded::Value(v_key) => {
                                                            Decoded::Value(AudioNode::Duck { amount: v_amount, threshold: v_threshold, release: v_release, mod_depth: v_mod_depth, modulation: v_modulation, input: Box::new(v_input), key: Box::new(v_key) })
                                                        },
                                                        d => d,
                                                    }
                                                },
                                                d => d,
                                            }
                                        },
                                        d => relabel(d),
                                    }
                                },
                            }
                        },
                    }
                },
            }
        },
    }
}

/// Decode the noise-gate processor recorded at `key`.
pub open spec fn spec_decode_gate(t: Map<Seq<char>, SiteValue>, key: Seq<char>) -> Decoded<
    AudioNode,
>
    decreases weight(t, key), 0nat,
    when t.dom().finite() && is_plain(key) && t.dom().contains(spec_address(key, "op"@))
{
    proof {
        lemma_weight_drops(t, key, "op"@);
    }
    match read_real(t, key, "gthresh"@) {
        None => Decoded::Missing(spec_address(key, "gthresh"@)),
        Some(v_threshold) => {
            match read_real(t, key, "range"@) {
                None => Decoded::Missing(spec_address(key, "range"@)),
                Some(v_range) => {
                    match read_real(t, key, "grel"@) {
                        None => Decoded::Missing(spec_address(key, "grel"@)),
                        Some(v_release) => {
                            match read_real(t, key, "mdepth"@) {
                                None => Decoded::Missing(spec_address(key, "mdepth"@)),
                                Some(v_mod_depth) => {
                                    match spec_decode_mod(t, spec_mod_key(key)) {
                                        Decoded::Value(v_modulation) => {
                                            match spec_decode_node(t, spec_child_key(key, 0)) {
                                                Decoded::Value(v_input) => {
                                                    match spec_decode_node(t, spec_child_key(key, 1)) {
                                                        Decoded::Value(v_sidechain) => {
                                                            Decoded::Value(AudioNode::Gate { threshold: v_threshold, range: v_range, release: v_release, mod_depth: v_mod_depth, modulation: v_modulation, input: Box::new(v_input), sidechain: Box::new(v_sidechain) })
                                                        },
                                                        d => d,
                                                    }
                                                },
                                                d => d,
                                            }
                                        },
                                        d => relabel(d),
                                    }
                                },
                            }
                        },
                    }
                },
            }
        },
    }
}

/// Decode the vocoder processor recorded at `key`.
pub open spec fn spec_decode_vocoder(t: Map<Seq<char>, SiteValue>, key: Seq<char>) -> Decoded<
    AudioNode,
>
    decreases weight(t, key), 0nat,
    when t.dom().finite() && is_plain(key) && t.dom().contains(spec_address(key, "op"@))
{
    proof {
        lemma_weight_drops(t, key, "op"@);
    }
    match read_real(t, key, "bands"@) {
        None => Decoded::Missing(spec_address(key, "bands"@)),
        Some(v_bands) => {
            match read_real(t, key, "vatt"@) {
                None => Decoded::Missing(spec_address(key, "vatt"@)),
                Some(v_attack) => {
                    match read_real(t, key, "vrel"@) {
                        None => Decoded::Missing(spec_address(key, "vrel"@)),
                        Some(v_release) => {
                            match read_real(t, key, "mdepth"@) {
                                None => Decoded::Missing(spec_address(key, "mdepth"@)),
                                Some(v_mod_depth) => {
                                    match spec_decode_mod(t, spec_mod_key(key)) {
                                        Decoded::Value(v_modulation) => {
                                            match spec_decode_node(t, spec_child_key(key, 0)) {
                                                Decoded::Value(v_carrier) => {
                                                    match spec_decode_node(t, spec_child_key(key, 1)) {
                                                        Decoded::Value(v_modulator) => {
                                                            Decoded::Value(AudioNode::Vocoder { bands: v_bands, attack: v_attack, release: v_release, mod_depth: v_mod_depth, modulation: v_modulation, carrier: Box::new(v_carrier), modulator: Box::new(v_modulator) })
                                                        },
                                                        d => d,
                                                    }
                                                },
                                                d => d,
                                            }
                                        },
                                        d => relabel(d),
                                    }
                                },
                            }
                        },
                    }
                },
            }
        },
    }
}
/// Why a trace does not decode to a patch.
#[derive(Debug, PartialEq, Eq)]
pub enum TraceError {
    /// A site the decoder needs is absent, or records another kind of value.
    MissingAddress(String),
    /// A structural choice names no production.
    InvalidStructure(String),
}

/// Whether an executable decoding result is what the specification says:
/// `None` stands for an octave that overflows.
pub open spec fn decoded_as<T>(r: Option<Result<T, TraceError>>, d: Decoded<T>) -> bool {
    match d {
        Decoded::Value(x) => r == Some(Ok::<T, TraceError>(x)),
        Decoded::Missing(a) => r matches Some(Err(TraceError::MissingAddress(s))) && s@ == a,
        Decoded::OutOfRange(m) => r matches Some(Err(TraceError::InvalidStructure(s))) && s@ == m,
        Decoded::Overflow => r is None,
    }
}

/// The refusal for an absent site.
pub open spec fn missing_at(e: TraceError, a: Seq<char>) -> bool {
    e matches TraceError::MissingAddress(s) && s@ == a
}

/// The continuous value at `site` under `key`.
fn get_real(t: &SiteTrace, key: &str, site: &str) -> (r: Result<Param, TraceError>)
    ensures
        match r {
            Ok(b) => read_real(t.choices(), key@, site@) == Some(b),
            Err(e) => read_real(t.choices(), key@, site@) is None && missing_at(
                e,
                spec_address(key@, site@),
            ),
        },
{
    let a = site_address(key, site);
    match t.get(a.as_str()) {
        Some(SiteValue::Real(b)) => Ok(b),
        _ => Err(TraceError::MissingAddress(a)),
    }
}

/// The categorical value at `site` under `key`.
fn get_index(t: &SiteTrace, key: &str, site: &str) -> (r: Result<usize, TraceError>)
    ensures
        match r {
            Ok(i) => read_index(t.choices(), key@, site@) == Some(i),
            Err(e) => read_index(t.choices(), key@, site@) is None && missing_at(
                e,
                spec_address(key@, site@),
            ),
        },
{
    let a = site_address(key, site);
    match t.get(a.as_str()) {
        Some(SiteValue::Index(i)) => Ok(i),
        _ => Err(TraceError::MissingAddress(a)),
    }
}

/// The Bernoulli value at `site` under `key`.
fn get_flag(t: &SiteTrace, key: &str, site: &str) -> (r: Result<bool, TraceError>)
    ensures
        match r {
            Ok(b) => read_flag(t.choices(), key@, site@) == Some(b),
            Err(e) => read_flag(t.choices(), key@, site@) is None && missing_at(
                e,
                spec_address(key@, site@),
            ),
        },
{
    let a = site_address(key, site);
    match t.get(a.as_str()) {
        Some(SiteValue::Flag(b)) => Ok(b),
        _ => Err(TraceError::MissingAddress(a)),
    }
}

/// The continuous value at a site added after traces were already being
/// kept: absent, it reads as `default`.
fn get_real_or(t: &SiteTrace, key: &str, site: &str, default: Param) -> (r: Param)
    ensures
        r == match read_real(t.choices(), key@, site@) {
            Some(b) => b,
            None => default,
        },
{
    match get_real(t, key, site) {
        Ok(b) => b,
        Err(_) => default,
    }
}

/// The octave offset index `i` reads back as, or `None` where that
/// overflows.
fn octave_at(i: usize) -> (r: Option<i8>)
    ensures
        r == (if octave_overflows(i) {
            None
        } else {
            Some(spec_octave_at(i))
        }),
{
    let o = i as i8;
    if o < -126 {
        None
    } else {
        Some(o - 2)
    }
}

/// The message for a structural index `k` that names no production.
fn out_of_range_message(what: &str, k: usize, key: &str) -> (r: String)
    ensures
        r@ == out_of_range(what@, k, key@),
{
    String::from_str(what).concat(" kind ").concat(decimal(k).as_str()).concat(
        " out of range at ",
    ).concat(key)
}

/// Decode the modulation term rooted at `key`.
fn decode_mod(t: &SiteTrace, key: &str) -> (r: Option<Result<ModNode, TraceError>>)
    requires
        is_plain(key@),
    ensures
        decoded_as(r, spec_decode_mod(t.choices(), key@)),
    decreases weight(t.choices(), key@),
{
    proof {
        t.lemma_finite();
        lemma_layout(key@);
    }
    let tag = match get_index(t, key, "mod") {
        Ok(i) => i,
        Err(e) => return Some(Err(e)),
    };
    proof {
        lemma_weight_drops(t.choices(), key@, "mod"@);
    }
    if tag == 0 {
        return Some(Ok(ModNode::Empty));
    }
    if tag == 1 {
        let v_wave = match get_index(t, key, "wave") {
            Ok(i) => Waveform::from_index(i),
            Err(e) => return Some(Err(e)),
        };
        let v_rate = match get_real(t, key, "rate") {
            Ok(b) => b,
            Err(e) => return Some(Err(e)),
        };
        return Some(Ok(ModNode::Lfo { wave: v_wave, rate: v_rate }));
    }
    if tag == 2 {
        let v_attack = match get_real(t, key, "att") {
            Ok(b) => b,
            Err(e) => return Some(Err(e)),
        };
        let v_decay = match get_real(t, key, "dec") {
            Ok(b) => b,
            Err(e) => return Some(Err(e)),
        };
        return Some(Ok(ModNode::Env { attack: v_attack, decay: v_decay }));
    }
    if tag == 3 {
        let v_rate = match get_real(t, key, "rate") {
            Ok(b) => b,
            Err(e) => return Some(Err(e)),
        };
        let v_glide = get_real_or(t, key, "glide", 0);
        return Some(Ok(ModNode::Rand { rate: v_rate, glide: v_glide }));
    }
    if tag == 4 {
        let v_sens = match get_real(t, key, "sens") {
            Ok(b) => b,
            Err(e) => return Some(Err(e)),
        };
        let v_release = match get_real(t, key, "rel") {
            Ok(b) => b,
            Err(e) => return Some(Err(e)),
        };
        return Some(Ok(ModNode::Follow { sens: v_sens, release: v_release }));
    }
    if tag == 5 {
        let v_rate = match get_real(t, key, "erate") {
            Ok(b) => b,
            Err(e) => return Some(Err(e)),
        };
        let v_steps = match get_real(t, key, "esteps") {
            Ok(b) => b,
            Err(e) => return Some(Err(e)),
        };
        let v_pulses = match get_real(t, key, "epulses") {
            Ok(b) => b,
            Err(e) => return Some(Err(e)),
        };
        return Some(Ok(ModNode::Euclid { rate: v_rate, steps: v_steps, pulses: v_pulses }));
    }
    if tag == 6 {
        let v_kind = match get_index(t, key, "modop") {
            Ok(i) => ModOp::from_index(i),
            Err(e) => return Some(Err(e)),
        };
        let sites = v_kind.param_sites();
        let v_p0 = match get_real(t, key, sites[0]) {
            Ok(b) => b,
            Err(e) => return Some(Err(e)),
        };
        let v_p1 = if sites.len() > 1 {
            match get_real(t, key, sites[1]) {
                Ok(b) => b,
                Err(e) => return Some(Err(e)),
            }
        } else {
            0
        };
        let k0 = child_key(key, 0);
        let v_input = match decode_mod(t, k0.as_str()) {
            Some(Ok(x)) => x,
            Some(Err(e)) => return Some(Err(e)),
            None => return None,
        };
        return Some(Ok(ModNode::Op { kind: v_kind, p0: v_p0, p1: v_p1, input: Box::new(v_input) }));
    }
    if tag == 7 {
        let v_kind = match get_index(t, key, "pairop") {
            Ok(i) => PairOp::from_index(i),
            Err(e) => return Some(Err(e)),
        };
        let k0 = child_key(key, 0);
        let v_a = match decode_mod(t, k0.as_str()) {
            Some(Ok(x)) => x,
            Some(Err(e)) => return Some(Err(e)),
            None => return None,
        };
        let k1 = child_key(key, 1);
        let v_b = match decode_mod(t, k1.as_str()) {
            Some(Ok(x)) => x,
            Some(Err(e)) => return Some(Err(e)),
            None => return None,
        };
        return Some(Ok(ModNode::Pair { kind: v_kind, a: Box::new(v_a), b: Box::new(v_b) }));
    }
    Some(Err(TraceError::InvalidStructure(out_of_range_message("mod", tag, key))))
}

/// Decode a modulation slot that may predate the trace.
fn decode_new_mod(t: &SiteTrace, key: &str) -> (r: Option<Result<ModNode, TraceError>>)
    requires
        is_plain(key@),
    ensures
        decoded_as(r, spec_decode_new_mod(t.choices(), key@)),
{
    if get_index(t, key, "mod").is_err() {
        return Some(Ok(ModNode::Empty));
    }
    decode_mod(t, key)
}


/// Decode the audio term rooted at `key`.
fn decode_node(t: &SiteTrace, key: &str) -> (r: Option<Result<AudioNode, TraceError>>)
    requires
        is_plain(key@),
    ensures
        decoded_as(r, spec_decode_node(t.choices(), key@)),
    decreases weight(t.choices(), key@), 2nat,
{
    proof {
        t.lemma_finite();
    }
    let leaf = match get_flag(t, key, "leaf") {
        Ok(b) => b,
        Err(e) => return Some(Err(e)),
    };
    if leaf {
        decode_source(t, key)
    } else {
        decode_processor(t, key)
    }
}

/// Decode the source recorded at `key`.
#[verifier::rlimit(40)]
fn decode_source(t: &SiteTrace, key: &str) -> (r: Option<Result<AudioNode, TraceError>>)
    requires
        is_plain(key@),
    ensures
        decoded_as(r, spec_decode_source(t.choices(), key@)),
{
    proof {
        lemma_layout(key@);
    }
    let tag = match get_index(t, key, "src") {
        Ok(i) => i,
        Err(e) => return Some(Err(e)),
    };
    if tag == 0 {
        let v_wave = match get_index(t, key, "wave") {
            Ok(i) => Waveform::from_index(i),
            Err(e) => return Some(Err(e)),
        };
        let v_octave = match get_index(t, key, "oct") {
            Ok(i) => match octave_at(i) {
                Some(o) => o,
                None => return None,
            },
            Err(e) => return Some(Err(e)),
        };
        let v_detune = match get_real(t, key, "det") {
            Ok(b) => b,
            Err(e) => return Some(Err(e)),
        };
        let v_mod_depth = get_real_or(t, key, "mdepth", DEFAULT_MOD_DEPTH);
        let km = mod_key(key);
        let v_modulation = match decode_new_mod(t, km.as_str()) {
            Some(Ok(x)) => x,
            Some(Err(e)) => return Some(Err(e)),
            None => return None,
        };
        return Some(Ok(AudioNode::Vco { wave: v_wave, octave: v_octave, detune: v_detune, mod_depth: v_mod_depth, modulation: v_modulation }));
    }
    if tag == 1 {
        let v_octave = match get_index(t, key, "oct") {
            Ok(i) => match octave_at(i) {
                Some(o) => o,
                None => return None,
            },
            Err(e) => return Some(Err(e)),
        };
        let v_detune = match get_real(t, key, "det") {
            Ok(b) => b,
            Err(e) => return Some(Err(e)),
        };
        let v_mix = match get_real(t, key, "smix") {
            Ok(b) => b,
            Err(e) => return Some(Err(e)),
        };
        let v_mod_depth = get_real_or(t, key, "mdepth", DEFAULT_MOD_DEPTH);
        let km = mod_key(key);
        let v_modulation = match decode_new_mod(t, km.as_str()) {
            Some(Ok(x)) => x,
            Some(Err(e)) => return Some(Err(e)),
            None => return None,
        };
        return Some(Ok(AudioNode::Supersaw { octave: v_octave, detune: v_detune, mix: v_mix, mod_depth: v_mod_depth, modulation: v_modulation }));
    }
    if tag == 2 {
        let v_color = match get_index(t, key, "color") {
            Ok(i) => NoiseColor::from_index(i),
            Err(e) => return Some(Err(e)),
        };
        return Some(Ok(AudioNode::Noise { color: v_color }));
    }
    if tag == 3 {
        let v_table = match get_index(t, key, "table") {
            Ok(i) => TableShape::from_index(i),
            Err(e) => return Some(Err(e)),
        };
        let v_octave = match get_index(t, key, "oct") {
            Ok(i) => match octave_at(i) {
                Some(o) => o,
                None => return None,
            },
            Err(e) => return Some(Err(e)),
        };
        let v_morph = match get_real(t, key, "morph") {
            Ok(b) => b,
            Err(e) => return Some(Err(e)),
        };
        let v_mod_depth = match get_real(t, key, "mdepth") {
            Ok(b) => b,
            Err(e) => return Some(Err(e)),
        };
        let km = mod_key(key);
        let v_modulation = match decode_new_mod(t, km.as_str()) {
            Some(Ok(x)) => x,
            Some(Err(e)) => return Some(Err(e)),
            None => return None,
        };
        return Some(Ok(AudioNode::Wavetable { table: v_table, octave: v_octave, morph: v_morph, mod_depth: v_mod_depth, modulation: v_modulation }));
    }
    if tag == 4 {
        let v_octave = match get_index(t, key, "oct") {
            Ok(i) => match octave_at(i) {
                Some(o) => o,
                None => return None,
            },
            Err(e) => return Some(Err(e)),
        };
        let v_damping = match get_real(t, key, "damp") {
            Ok(b) => b,
            Err(e) => return Some(Err(e)),
        };
        let v_brightness = match get_real(t, key, "bright") {
            Ok(b) => b,
            Err(e) => return Some(Err(e)),
        };
        let v_mod_depth = match get_real(t, key, "mdepth") {
            Ok(b) => b,
            Err(e) => return Some(Err(e)),
        };
        let km = mod_key(key);
        let v_modulation = match decode_new_mod(t, km.as_str()) {
            Some(Ok(x)) => x,
            Some(Err(e)) => return Some(Err(e)),
            None => return None,
        };
        return Some(Ok(AudioNode::Pluck { octave: v_octave, damping: v_damping, brightness: v_brightness, mod_depth: v_mod_depth, modulation: v_modulation }));
    }
    if tag == 5 {
        let v_vowel = match get_real(t, key, "vowel") {
            Ok(b) => b,
            Err(e) => return Some(Err(e)),
        };
        let v_shift = match get_real(t, key, "fshift") {
            Ok(b) => b,
            Err(e) => return Some(Err(e)),
        };
        let v_octave = match get_index(t, key, "oct") {
            Ok(i) => match octave_at(i) {
                Some(o) => o,
                None => return None,
            },
            Err(e) => return Some(Err(e)),
        };
        let v_mod_depth = match get_real(t, key, "mdepth") {
            Ok(b) => b,
            Err(e) => return Some(Err(e)),
        };
        let km = mod_key(key);
        let v_modulation = match decode_mod(t, km.as_str()) {
            Some(Ok(x)) => x,
            Some(Err(e)) => return Some(Err(e)),
            None => return None,
        };
        return Some(Ok(AudioNode::Formant { vowel: v_vowel, shift: v_shift, octave: v_octave, mod_depth: v_mod_depth, modulation: v_modulation }));
    }
    Some(Err(TraceError::InvalidStructure(out_of_range_message("source", tag, key))))
}

/// Decode the processor recorded at `key`.
fn decode_processor(t: &SiteTrace, key: &str) -> (r: Option<Result<AudioNode, TraceError>>)
    requires
        is_plain(key@),
    ensures
        decoded_as(r, spec_decode_processor(t.choices(), key@)),
    decreases weight(t.choices(), key@), 1nat,
{
    proof {
        t.lemma_finite();
    }
    let tag = match get_index(t, key, "op") {
        Ok(i) => i,
        Err(e) => return Some(Err(e)),
    };
    if tag == 0 {
        return decode_mix(t, key);
    }
    if tag == 1 {
        return decode_filter(t, key);
    }
    if tag == 2 {
        return decode_fold(t, key);
    }
    if tag == 3 {
        return decode_delay(t, key);
    }
    if tag == 4 {
        return decode_chorus(t, key);
    }
    if tag == 5 {
        return decode_reverb(t, key);
    }
    if tag == 6 {
        return decode_distortion(t, key);
    }
    if tag == 7 {
        return decode_bitcrush(t, key);
    }
    if tag == 8 {
        return decode_phaser(t, key);
    }
    if tag == 9 {
        return decode_ring_mod(t, key);
    }
    if tag == 10 {
        return decode_flanger(t, key);
    }
    if tag == 11 {
        return decode_tremolo(t, key);
    }
    if tag == 12 {
        return decode_vibrato(t, key);
    }
    if tag == 13 {
        return decode_eq(t, key);
    }
    if tag == 14 {
        return decode_granular(t, key);
    }
    if tag == 15 {
        return decode_shift(t, key);
    }
    if tag == 16 {
        return decode_comp(t, key);
    }
    if tag == 17 {
        return decode_duck(t, key);
    }
    if tag == 18 {
        return decode_gate(t, key);
    }
    if tag == 19 {
        return decode_vocoder(t, key);
    }
    Some(Err(TraceError::InvalidStructure(out_of_range_message("op", tag, key))))
}

/// Decode the mix processor recorded at `key`.
fn decode_mix(t: &SiteTrace, key: &str) -> (r: Option<Result<AudioNode, TraceError>>)
    requires
        is_plain(key@),
        t.choices().dom().contains(spec_address(key@, "op"@)),
    ensures
        decoded_as(r, spec_decode_mix(t.choices(), key@)),
    decreases weight(t.choices(), key@), 0nat,
{
    proof {
        t.lemma_finite();
        lemma_layout(key@);
        lemma_weight_drops(t.choices(), key@, "op"@);
    }
    let v_balance = match get_real(t, key, "bal") {
        Ok(b) => b,
        Err(e) => return Some(Err(e)),
    };
    let k0 = child_key(key, 0);
    let v_a = match decode_node(t, k0.as_str()) {
        Some(Ok(x)) => x,
        Some(Err(e)) => return Some(Err(e)),
        None => return None,
    };
    let k1 = child_key(key, 1);
    let v_b = match decode_node(t, k1.as_str()) {
        Some(Ok(x)) => x,
        Some(Err(e)) => return Some(Err(e)),
        None => return None,
    };
    Some(Ok(AudioNode::Mix { balance: v_balance, a: Box::new(v_a), b: Box::new(v_b) }))
}

/// Decode the filter processor recorded at `key`.
fn decode_filter(t: &SiteTrace, key: &str) -> (r: Option<Result<AudioNode, TraceError>>)
    requires
        is_plain(key@),
        t.choices().dom().contains(spec_address(key@, "op"@)),
    ensures
        decoded_as(r, spec_decode_filter(t.choices(), key@)),
    decreases weight(t.choices(), key@), 0nat,
{
    proof {
        t.lemma_finite();
        lemma_layout(key@);
        lemma_weight_drops(t.choices(), key@, "op"@);
    }
    let v_kind = match get_index(t, key, "fkind") {
        Ok(i) => FilterKind::from_index(i),
        Err(e) => return Some(Err(e)),
    };
    let v_cutoff = match get_real(t, key, "cut") {
        Ok(b) => b,
        Err(e) => return Some(Err(e)),
    };
    let v_resonance = match get_real(t, key, "res") {
        Ok(b) => b,
        Err(e) => return Some(Err(e)),
    };
    let v_mod_depth = match get_real(t, key, "mdepth") {
        Ok(b) => b,
        Err(e) => return Some(Err(e)),
    };
    let km = mod_key(key);
    let v_modulation = match decode_mod(t, km.as_str()) {
        Some(Ok(x)) => x,
        Some(Err(e)) => return Some(Err(e)),
        None => return None,
    };
    let k0 = child_key(key, 0);
    let v_input = match decode_node(t, k0.as_str()) {
        Some(Ok(x)) => x,
        Some(Err(e)) => return Some(Err(e)),
        None => return None,
    };
    Some(Ok(AudioNode::Filter { kind: v_kind, cutoff: v_cutoff, resonance: v_resonance, mod_depth: v_mod_depth, modulation: v_modulation, input: Box::new(v_input) }))
}

/// Decode the fold processor recorded at `key`.
fn decode_fold(t: &SiteTrace, key: &str) -> (r: Option<Result<AudioNode, TraceError>>)
    requires
        is_plain(key@),
        t.choices().dom().contains(spec_address(key@, "op"@)),
    ensures
        decoded_as(r, spec_decode_fold(t.choices(), key@)),
    decreases weight(t.choices(), key@), 0nat,
{
    proof {
        t.lemma_finite();
        lemma_layout(key@);
        lemma_weight_drops(t.choices(), key@, "op"@);
    }
    let v_threshold = match get_real(t, key, "thresh") {
        Ok(b) => b,
        Err(e) => return Some(Err(e)),
    };
    let v_mod_depth = match get_real(t, key, "mdepth") {
        Ok(b) => b,
        Err(e) => return Some(Err(e)),
    };
    let km = mod_key(key);
    let v_modulation = match decode_mod(t, km.as_str()) {
        Some(Ok(x)) => x,
        Some(Err(e)) => return Some(Err(e)),
        None => return None,
    };
    let k0 = child_key(key, 0);
    let v_input = match decode_node(t, k0.as_str()) {
        Some(Ok(x)) => x,
        Some(Err(e)) => return Some(Err(e)),
        None => return None,
    };
    Some(Ok(AudioNode::Fold { threshold: v_threshold, mod_depth: v_mod_depth, modulation: v_modulation, input: Box::new(v_input) }))
}

/// Decode the delay processor recorded at `key`.
fn decode_delay(t: &SiteTrace, key: &str) -> (r: Option<Result<AudioNode, TraceError>>)
    requires
        is_plain(key@),
        t.choices().dom().contains(spec_address(key@, "op"@)),
    ensures
        decoded_as(r, spec_decode_delay(t.choices(), key@)),
    decreases weight(t.choices(), key@), 0nat,
{
    proof {
        t.lemma_finite();
        lemma_layout(key@);
        lemma_weight_drops(t.choices(), key@, "op"@);
    }
    let v_time = match get_real(t, key, "time") {
        Ok(b) => b,
        Err(e) => return Some(Err(e)),
    };
    let v_feedback = match get_real(t, key, "fb") {
        Ok(b) => b,
        Err(e) => return Some(Err(e)),
    };
    let v_mix = match get_real(t, key, "dmix") {
        Ok(b) => b,
        Err(e) => return Some(Err(e)),
    };
    let v_mod_depth = get_real_or(t, key, "mdepth", DEFAULT_MOD_DEPTH);
    let km = mod_key(key);
    let v_modulation = match decode_new_mod(t, km.as_str()) {
        Some(Ok(x)) => x,
        Some(Err(e)) => return Some(Err(e)),
        None => return None,
    };
    let k0 = child_key(key, 0);
    let v_input = match decode_node(t, k0.as_str()) {
        Some(Ok(x)) => x,
        Some(Err(e)) => return Some(Err(e)),
        None => return None,
    };
    Some(Ok(AudioNode::Delay { time: v_time, feedback: v_feedback, mix: v_mix, mod_depth: v_mod_depth, modulation: v_modulation, input: Box::new(v_input) }))
}

/// Decode the chorus processor recorded at `key`.
fn decode_chorus(t: &SiteTrace, key: &str) -> (r: Option<Result<AudioNode, TraceError>>)
    requires
        is_plain(key@),
        t.choices().dom().contains(spec_address(key@, "op"@)),
    ensures
        decoded_as(r, spec_decode_chorus(t.choices(), key@)),
    decreases weight(t.choices(), key@), 0nat,
{
    proof {
        t.lemma_finite();
        lemma_layout(key@);
        lemma_weight_drops(t.choices(), key@, "op"@);
    }
    let v_rate = match get_real(t, key, "crate") {
        Ok(b) => b,
        Err(e) => return Some(Err(e)),
    };
    let v_depth = match get_real(t, key, "cdepth") {
        Ok(b) => b,
        Err(e) => return Some(Err(e)),
    };
    let v_mix = match get_real(t, key, "cmix") {
        Ok(b) => b,
        Err(e) => return Some(Err(e)),
    };
    let v_mod_depth = get_real_or(t, key, "mdepth", DEFAULT_MOD_DEPTH);
    let km = mod_key(key);
    let v_modulation = match decode_new_mod(t, km.as_str()) {
        Some(Ok(x)) => x,
        Some(Err(e)) => return Some(Err(e)),
        None => return None,
    };
    let k0 = child_key(key, 0);
    let v_input = match decode_node(t, k0.as_str()) {
        Some(Ok(x)) => x,
        Some(Err(e)) => return Some(Err(e)),
        None => return None,
    };
    Some(Ok(AudioNode::Chorus { rate: v_rate, depth: v_depth, mix: v_mix, mod_depth: v_mod_depth, modulation: v_modulation, input: Box::new(v_input) }))
}

/// Decode the reverb processor recorded at `key`.
fn decode_reverb(t: &SiteTrace, key: &str) -> (r: Option<Result<AudioNode, TraceError>>)
    requires
        is_plain(key@),
        t.choices().dom().contains(spec_address(key@, "op"@)),
    ensures
        decoded_as(r, spec_decode_reverb(t.choices(), key@)),
    decreases weight(t.choices(), key@), 0nat,
{
    proof {
        t.lemma_finite();
        lemma_layout(key@);
        lemma_weight_drops(t.choices(), key@, "op"@);
    }
    let v_size = match get_real(t, key, "rsize") {
        Ok(b) => b,
        Err(e) => return Some(Err(e)),
    };
    let v_damp = match get_real(t, key, "rdamp") {
        Ok(b) => b,
        Err(e) => return Some(Err(e)),
    };
    let v_mix = match get_real(t, key, "rmix") {
        Ok(b) => b,
        Err(e) => return Some(Err(e)),
    };
    let v_mod_depth = get_real_or(t, key, "mdepth", DEFAULT_MOD_DEPTH);
    let km = mod_key(key);
    let v_modulation = match decode_new_mod(t, km.as_str()) {
        Some(Ok(x)) => x,
        Some(Err(e)) => return Some(Err(e)),
        None => return None,
    };
    let k0 = child_key(key, 0);
    let v_input = match decode_node(t, k0.as_str()) {
        Some(Ok(x)) => x,
        Some(Err(e)) => return Some(Err(e)),
        None => return None,
    };
    Some(Ok(AudioNode::Reverb { size: v_size, damp: v_damp, mix: v_mix, mod_depth: v_mod_depth, modulation: v_modulation, input: Box::new(v_input) }))
}

/// Decode the distortion processor recorded at `key`.
fn decode_distortion(t: &SiteTrace, key: &str) -> (r: Option<Result<AudioNode, TraceError>>)
    requires
        is_plain(key@),
        t.choices().dom().contains(spec_address(key@, "op"@)),
    ensures
        decoded_as(r, spec_decode_distortion(t.choices(), key@)),
    decreases weight(t.choices(), key@), 0nat,
{
    proof {
        t.lemma_finite();
        lemma_layout(key@);
        lemma_weight_drops(t.choices(), key@, "op"@);
    }
    let v_drive = match get_real(t, key, "drive") {
        Ok(b) => b,
        Err(e) => return Some(Err(e)),
    };
    let v_tone = match get_real(t, key, "tone") {
        Ok(b) => b,
        Err(e) => return Some(Err(e)),
    };
    let v_mode = match get_index(t, key, "dmode") {
        Ok(i) => DriveMode::from_index(i),
        Err(e) => return Some(Err(e)),
    };
    let v_mod_depth = match get_real(t, key, "mdepth") {
        Ok(b) => b,
        Err(e) => return Some(Err(e)),
    };
    let km = mod_key(key);
    let v_modulation = match decode_mod(t, km.as_str()) {
        Some(Ok(x)) => x,
        Some(Err(e)) => return Some(Err(e)),
        None => return None,
    };
    let k0 = child_key(key, 0);
    let v_input = match decode_node(t, k0.as_str()) {
        Some(Ok(x)) => x,
        Some(Err(e)) => return Some(Err(e)),
        None => return None,
    };
    Some(Ok(AudioNode::Distortion { drive: v_drive, tone: v_tone, mode: v_mode, mod_depth: v_mod_depth, modulation: v_modulation, input: Box::new(v_input) }))
}

/// Decode the bitcrush processor recorded at `key`.
fn decode_bitcrush(t: &SiteTrace, key: &str) -> (r: Option<Result<AudioNode, TraceError>>)
    requires
        is_plain(key@),
        t.choices().dom().contains(spec_address(key@, "op"@)),
    ensures
        decoded_as(r, spec_decode_bitcrush(t.choices(), key@)),
    decreases weight(t.choices(), key@), 0nat,
{
    proof {
        t.lemma_finite();
        lemma_layout(key@);
        lemma_weight_drops(t.choices(), key@, "op"@);
    }
    let v_bits = match get_real(t, key, "bits") {
        Ok(b) => b,
        Err(e) => return Some(Err(e)),
    };
    let v_downsample = match get_real(t, key, "dsamp") {
        Ok(b) => b,
        Err(e) => return Some(Err(e)),
    };
    let v_mod_depth = match get_real(t, key, "mdepth") {
        Ok(b) => b,
        Err(e) => return Some(Err(e)),
    };
    let km = mod_key(key);
    let v_modulation = match decode_mod(t, km.as_str()) {
        Some(Ok(x)) => x,
        Some(Err(e)) => return Some(Err(e)),
        None => return None,
    };
    let k0 = child_key(key, 0);
    let v_input = match decode_node(t, k0.as_str()) {
        Some(Ok(x)) => x,
        Some(Err(e)) => return Some(Err(e)),
        None => return None,
    };
    Some(Ok(AudioNode::Bitcrush { bits: v_bits, downsample: v_downsample, mod_depth: v_mod_depth, modulation: v_modulation, input: Box::new(v_input) }))
}

/// Decode the phaser processor recorded at `key`.
fn decode_phaser(t: &SiteTrace, key: &str) -> (r: Option<Result<AudioNode, TraceError>>)
    requires
        is_plain(key@),
        t.choices().dom().contains(spec_address(key@, "op"@)),
    ensures
        decoded_as(r, spec_decode_phaser(t.choices(), key@)),
    decreases weight(t.choices(), key@), 0nat,
{
    proof {
        t.lemma_finite();
        lemma_layout(key@);
        lemma_weight_drops(t.choices(), key@, "op"@);
    }
    let v_rate = match get_real(t, key, "prate") {
        Ok(b) => b,
        Err(e) => return Some(Err(e)),
    };
    let v_depth = match get_real(t, key, "pdepth") {
        Ok(b) => b,
        Err(e) => return Some(Err(e)),
    };
    let v_feedback = match get_real(t, key, "pfb") {
        Ok(b) => b,
        Err(e) => return Some(Err(e)),
    };
    let v_mod_depth = match get_real(t, key, "mdepth") {
        Ok(b) => b,
        Err(e) => return Some(Err(e)),
    };
    let km = mod_key(key);
    let v_modulation = match decode_mod(t, km.as_str()) {
        Some(Ok(x)) => x,
        Some(Err(e)) => return Some(Err(e)),
        None => return None,
    };
    let k0 = child_key(key, 0);
    let v_input = match decode_node(t, k0.as_str()) {
        Some(Ok(x)) => x,
        Some(Err(e)) => return Some(Err(e)),
        None => return None,
    };
    Some(Ok(AudioNode::Phaser { rate: v_rate, depth: v_depth, feedback: v_feedback, mod_depth: v_mod_depth, modulation: v_modulation, input: Box::new(v_input) }))
}

/// Decode the ringmod processor recorded at `key`.
fn decode_ring_mod(t: &SiteTrace, key: &str) -> (r: Option<Result<AudioNode, TraceError>>)
    requires
        is_plain(key@),
        t.choices().dom().contains(spec_address(key@, "op"@)),
    ensures
        decoded_as(r, spec_decode_ring_mod(t.choices(), key@)),
    decreases weight(t.choices(), key@), 0nat,
{
    proof {
        t.lemma_finite();
        lemma_layout(key@);
        lemma_weight_drops(t.choices(), key@, "op"@);
    }
    let v_mix = match get_real(t, key, "rgmix") {
        Ok(b) => b,
        Err(e) => return Some(Err(e)),
    };
    let k0 = child_key(key, 0);
    let v_a = match decode_node(t, k0.as_str()) {
        Some(Ok(x)) => x,
        Some(Err(e)) => return Some(Err(e)),
        None => return None,
    };
    let k1 = child_key(key, 1);
    let v_b = match decode_node(t, k1.as_str()) {
        Some(Ok(x)) => x,
        Some(Err(e)) => return Some(Err(e)),
        None => return None,
    };
    Some(Ok(AudioNode::RingMod { mix: v_mix, a: Box::new(v_a), b: Box::new(v_b) }))
}

/// Decode the flanger processor recorded at `key`.
fn decode_flanger(t: &SiteTrace, key: &str) -> (r: Option<Result<AudioNode, TraceError>>)
    requires
        is_plain(key@),
        t.choices().dom().contains(spec_address(key@, "op"@)),
    ensures
        decoded_as(r, spec_decode_flanger(t.choices(), key@)),
    decreases weight(t.choices(), key@), 0nat,
{
    proof {
        t.lemma_finite();
        lemma_layout(key@);
        lemma_weight_drops(t.choices(), key@, "op"@);
    }
    let v_rate = match get_real(t, key, "frate") {
        Ok(b) => b,
        Err(e) => return Some(Err(e)),
    };
    let v_depth = match get_real(t, key, "fdepth") {
        Ok(b) => b,
        Err(e) => return Some(Err(e)),
    };
    let v_feedback = match get_real(t, key, "ffb") {
        Ok(b) => b,
        Err(e) => return Some(Err(e)),
    };
    let v_mod_depth = match get_real(t, key, "mdepth") {
        Ok(b) => b,
        Err(e) => return Some(Err(e)),
    };
    let km = mod_key(key);
    let v_modulation = match decode_mod(t, km.as_str()) {
        Some(Ok(x)) => x,
        Some(Err(e)) => return Some(Err(e)),
        None => return None,
    };
    let k0 = child_key(key, 0);
    let v_input = match decode_node(t, k0.as_str()) {
        Some(Ok(x)) => x,
        Some(Err(e)) => return Some(Err(e)),
        None => return None,
    };
    Some(Ok(AudioNode::Flanger { rate: v_rate, depth: v_depth, feedback: v_feedback, mod_depth: v_mod_depth, modulation: v_modulation, input: Box::new(v_input) }))
}

/// Decode the tremolo processor recorded at `key`.
fn decode_tremolo(t: &SiteTrace, key: &str) -> (r: Option<Result<AudioNode, TraceError>>)
    requires
        is_plain(key@),
        t.choices().dom().contains(spec_address(key@, "op"@)),
    ensures
        decoded_as(r, spec_decode_tremolo(t.choices(), key@)),
    decreases weight(t.choices(), key@), 0nat,
{
    proof {
        t.lemma_finite();
        lemma_layout(key@);
        lemma_weight_drops(t.choices(), key@, "op"@);
    }
    let v_rate = match get_real(t, key, "trate") {
        Ok(b) => b,
        Err(e) => return Some(Err(e)),
    };
    let v_depth = match get_real(t, key, "tdepth") {
        Ok(b) => b,
        Err(e) => return Some(Err(e)),
    };
    let v_shape = match get_real(t, key, "tshape") {
        Ok(b) => b,
        Err(e) => return Some(Err(e)),
    };
    let v_mod_depth = match get_real(t, key, "mdepth") {
        Ok(b) => b,
        Err(e) => return Some(Err(e)),
    };
    let km = mod_key(key);
    let v_modulation = match decode_mod(t, km.as_str()) {
        Some(Ok(x)) => x,
        Some(Err(e)) => return Some(Err(e)),
        None => return None,
    };
    let k0 = child_key(key, 0);
    let v_input = match decode_node(t, k0.as_str()) {
        Some(Ok(x)) => x,
        Some(Err(e)) => return Some(Err(e)),
        None => return None,
    };
    Some(Ok(AudioNode::Tremolo { rate: v_rate, depth: v_depth, shape: v_shape, mod_depth: v_mod_depth, modulation: v_modulation, input: Box::new(v_input) }))
}

/// Decode the vibrato processor recorded at `key`.
fn decode_vibrato(t: &SiteTrace, key: &str) -> (r: Option<Result<AudioNode, TraceError>>)
    requires
        is_plain(key@),
        t.choices().dom().contains(spec_address(key@, "op"@)),
    ensures
        decoded_as(r, spec_decode_vibrato(t.choices(), key@)),
    decreases weight(t.choices(), key@), 0nat,
{
    proof {
        t.lemma_finite();
        lemma_layout(key@);
        lemma_weight_drops(t.choices(), key@, "op"@);
    }
    let v_rate = match get_real(t, key, "vrate") {
        Ok(b) => b,
        Err(e) => return Some(Err(e)),
    };
    let v_depth = match get_real(t, key, "vdepth") {
        Ok(b) => b,
        Err(e) => return Some(Err(e)),
    };
    let v_mix = match get_real(t, key, "vmix") {
        Ok(b) => b,
        Err(e) => return Some(Err(e)),
    };
    let v_mod_depth = match get_real(t, key, "mdepth") {
        Ok(b) => b,
        Err(e) => return Some(Err(e)),
    };
    let km = mod_key(key);
    let v_modulation = match decode_mod(t, km.as_str()) {
        Some(Ok(x)) => x,
        Some(Err(e)) => return Some(Err(e)),
        None => return None,
    };
    let k0 = child_key(key, 0);
    let v_input = match decode_node(t, k0.as_str()) {
        Some(Ok(x)) => x,
        Some(Err(e)) => return Some(Err(e)),
        None => return None,
    };
    Some(Ok(AudioNode::Vibrato { rate: v_rate, depth: v_depth, mix: v_mix, mod_depth: v_mod_depth, modulation: v_modulation, input: Box::new(v_input) }))
}

/// Decode the eq processor recorded at `key`.
fn decode_eq(t: &SiteTrace, key: &str) -> (r: Option<Result<AudioNode, TraceError>>)
    requires
        is_plain(key@),
        t.choices().dom().contains(spec_address(key@, "op"@)),
    ensures
        decoded_as(r, spec_decode_eq(t.choices(), key@)),
    decreases weight(t.choices(), key@), 0nat,
{
    proof {
        t.lemma_finite();
        lemma_layout(key@);
        lemma_weight_drops(t.choices(), key@, "op"@);
    }
    let v_low = match get_real(t, key, "low") {
        Ok(b) => b,
        Err(e) => return Some(Err(e)),
    };
    let v_mid = match get_real(t, key, "mid") {
        Ok(b) => b,
        Err(e) => return Some(Err(e)),
    };
    let v_high = match get_real(t, key, "high") {
        Ok(b) => b,
        Err(e) => return Some(Err(e)),
    };
    let v_mod_depth = match get_real(t, key, "mdepth") {
        Ok(b) => b,
        Err(e) => return Some(Err(e)),
    };
    let km = mod_key(key);
    let v_modulation = match decode_mod(t, km.as_str()) {
        Some(Ok(x)) => x,
        Some(Err(e)) => return Some(Err(e)),
        None => return None,
    };
    let k0 = child_key(key, 0);
    let v_input = match decode_node(t, k0.as_str()) {
        Some(Ok(x)) => x,
        Some(Err(e)) => return Some(Err(e)),
        None => return None,
    };
    Some(Ok(AudioNode::Eq { low: v_low, mid: v_mid, high: v_high, mod_depth: v_mod_depth, modulation: v_modulation, input: Box::new(v_input) }))
}

/// Decode the granular processor recorded at `key`.
fn decode_granular(t: &SiteTrace, key: &str) -> (r: Option<Result<AudioNode, TraceError>>)
    requires
        is_plain(key@),
        t.choices().dom().contains(spec_address(key@, "op"@)),
    ensures
        decoded_as(r, spec_decode_granular(t.choices(), key@)),
    decreases weight(t.choices(), key@), 0nat,
{
    proof {
        t.lemma_finite();
        lemma_layout(key@);
        lemma_weight_drops(t.choices(), key@, "op"@);
    }
    let v_position = match get_real(t, key, "gpos") {
        Ok(b) => b,
        Err(e) => return Some(Err(e)),
    };
    let v_size = match get_real(t, key, "gsize") {
        Ok(b) => b,
        Err(e) => return Some(Err(e)),
    };
    let v_density = match get_real(t, key, "gdens") {
        Ok(b) => b,
        Err(e) => return Some(Err(e)),
    };
    let v_mod_depth = match get_real(t, key, "mdepth") {
        Ok(b) => b,
        Err(e) => return Some(Err(e)),
    };
    let km = mod_key(key);
    let v_modulation = match decode_mod(t, km.as_str()) {
        Some(Ok(x)) => x,
        Some(Err(e)) => return Some(Err(e)),
        None => return None,
    };
    let k0 = child_key(key, 0);
    let v_input = match decode_node(t, k0.as_str()) {
        Some(Ok(x)) => x,
        Some(Err(e)) => return Some(Err(e)),
        None => return None,
    };
    Some(Ok(AudioNode::Granular { position: v_position, size: v_size, density: v_density, mod_depth: v_mod_depth, modulation: v_modulation, input: Box::new(v_input) }))
}

/// Decode the shift processor recorded at `key`.
fn decode_shift(t: &SiteTrace, key: &str) -> (r: Option<Result<AudioNode, TraceError>>)
    requires
        is_plain(key@),
        t.choices().dom().contains(spec_address(key@, "op"@)),
    ensures
        decoded_as(r, spec_decode_shift(t.choices(), key@)),
    decreases weight(t.choices(), key@), 0nat,
{
    proof {
        t.lemma_finite();
        lemma_layout(key@);
        lemma_weight_drops(t.choices(), key@, "op"@);
    }
    let v_semis = match get_real(t, key, "semis") {
        Ok(b) => b,
        Err(e) => return Some(Err(e)),
    };
    let v_window = match get_real(t, key, "window") {
        Ok(b) => b,
        Err(e) => return Some(Err(e)),
    };
    let v_mix = match get_real(t, key, "smix") {
        Ok(b) => b,
        Err(e) => return Some(Err(e)),
    };
    let v_mod_depth = match get_real(t, key, "mdepth") {
        Ok(b) => b,
        Err(e) => return Some(Err(e)),
    };
    let km = mod_key(key);
    let v_modulation = match decode_mod(t, km.as_str()) {
        Some(Ok(x)) => x,
        Some(Err(e)) => return Some(Err(e)),
        None => return None,
    };
    let k0 = child_key(key, 0);
    let v_input = match decode_node(t, k0.as_str()) {
        Some(Ok(x)) => x,
        Some(Err(e)) => return Some(Err(e)),
        None => return None,
    };
    Some(Ok(AudioNode::Shift { semis: v_semis, window: v_window, mix: v_mix, mod_depth: v_mod_depth, modulation: v_modulation, input: Box::new(v_input) }))
}

/// Decode the comp processor recorded at `key`.
fn decode_comp(t: &SiteTrace, key: &str) -> (r: Option<Result<AudioNode, TraceError>>)
    requires
        is_plain(key@),
        t.choices().dom().contains(spec_address(key@, "op"@)),
    ensures
        decoded_as(r, spec_decode_comp(t.choices(), key@)),
    decreases weight(t.choices(), key@), 0nat,
{
    proof {
        t.lemma_finite();
        lemma_layout(key@);
        lemma_weight_drops(t.choices(), key@, "op"@);
    }
    let v_threshold = match get_real(t, key, "thresh") {
        Ok(b) => b,
        Err(e) => return Some(Err(e)),
    };
    let v_ratio = match get_real(t, key, "ratio") {
        Ok(b) => b,
        Err(e) => return Some(Err(e)),
    };
    let v_makeup = match get_real(t, key, "makeup") {
        Ok(b) => b,
        Err(e) => return Some(Err(e)),
    };
    let v_mod_depth = match get_real(t, key, "mdepth") {
        Ok(b) => b,
        Err(e) => return Some(Err(e)),
    };
    let km = mod_key(key);
    let v_modulation = match decode_mod(t, km.as_str()) {
        Some(Ok(x)) => x,
        Some(Err(e)) => return Some(Err(e)),
        None => return None,
    };
    let k0 = child_key(key, 0);
    let v_input = match decode_node(t, k0.as_str()) {
        Some(Ok(x)) => x,
        Some(Err(e)) => return Some(Err(e)),
        None => return None,
    };
    let k1 = child_key(key, 1);
    let v_sidechain = match decode_node(t, k1.as_str()) {
        Some(Ok(x)) => x,
        Some(Err(e)) => return Some(Err(e)),
        None => return None,
    };
    Some(Ok(AudioNode::Comp { threshold: v_threshold, ratio: v_ratio, makeup: v_makeup, mod_depth: v_mod_depth, modulation: v_modulation, input: Box::new(v_input), sidechain: Box::new(v_sidechain) }))
}

/// Decode the duck processor recorded at `key`.
fn decode_duck(t: &SiteTrace, key: &str) -> (r: Option<Result<AudioNode, TraceError>>)
    requires
        is_plain(key@),
        t.choices().dom().contains(spec_address(key@, "op"@)),
    ensures
        decoded_as(r, spec_decode_duck(t.choices(), key@)),
    decreases weight(t.choices(), key@), 0nat,
{
    proof {
        t.lemma_finite();
        lemma_layout(key@);
        lemma_weight_drops(t.choices(), key@, "op"@);
    }
    let v_amount = match get_real(t, key, "amount") {
        Ok(b) => b,
        Err(e) => return Some(Err(e)),
    };
    let v_threshold = match get_real(t, key, "dthresh") {
        Ok(b) => b,
        Err(e) => return Some(Err(e)),
    };
    let v_release = match get_real(t, key, "drel") {
        Ok(b) => b,
        Err(e) => return Some(Err(e)),
    };
    let v_mod_depth = match get_real(t, key, "mdepth") {
        Ok(b) => b,
        Err(e) => return Some(Err(e)),
    };
    let km = mod_key(key);
    let v_modulation = match decode_mod(t, km.as_str()) {
        Some(Ok(x)) => x,
        Some(Err(e)) => return Some(Err(e)),
        None => return None,
    };
    let k0 = child_key(key, 0);
    let v_input = match decode_node(t, k0.as_str()) {
        Some(Ok(x)) => x,
        Some(Err(e)) => return Some(Err(e)),
        None => return None,
    };
    let k1 = child_key(key, 1);
    let v_key = match decode_node(t, k1.as_str()) {
        Some(Ok(x)) => x,
        Some(Err(e)) => return Some(Err(e)),
        None => return None,
    };
    Some(Ok(AudioNode::Duck { amount: v_amount, threshold: v_threshold, release: v_release, mod_depth: v_mod_depth, modulation: v_modulation, input: Box::new(v_input), key: Box::new(v_key) }))
}

/// Decode the noise-gate processor recorded at `key`.
fn decode_gate(t: &SiteTrace, key: &str) -> (r: Option<Result<AudioNode, TraceError>>)
    requires
        is_plain(key@),
        t.choices().dom().contains(spec_address(key@, "op"@)),
    ensures
        decoded_as(r, spec_decode_gate(t.choices(), key@)),
    decreases weight(t.choices(), key@), 0nat,
{
    proof {
        t.lemma_finite();
        lemma_layout(key@);
        lemma_weight_drops(t.choices(), key@, "op"@);
    }
    let v_threshold = match get_real(t, key, "gthresh") {
        Ok(b) => b,
        Err(e) => return Some(Err(e)),
    };
    let v_range = match get_real(t, key, "range") {
        Ok(b) => b,
        Err(e) => return Some(Err(e)),
    };
    let v_release = match get_real(t, key, "grel") {
        Ok(b) => b,
        Err(e) => return Some(Err(e)),
    };
    let v_mod_depth = match get_real(t, key, "mdepth") {
        Ok(b) => b,
        Err(e) => return Some(Err(e)),
    };
    let km = mod_key(key);
    let v_modulation = match decode_mod(t, km.as_str()) {
        Some(Ok(x)) => x,
        Some(Err(e)) => return Some(Err(e)),
        None => return None,
    };
    let k0 = child_key(key, 0);
    let v_input = match decode_node(t, k0.as_str()) {
        Some(Ok(x)) => x,
        Some(Err(e)) => return Some(Err(e)),
        None => return None,
    };
    let k1 = child_key(key, 1);
    let v_sidechain = match decode_node(t, k1.as_str()) {
        Some(Ok(x)) => x,
        Some(Err(e)) => return Some(Err(e)),
        None => return None,
    };
    Some(Ok(AudioNode::Gate { threshold: v_threshold, range: v_range, release: v_release, mod_depth: v_mod_depth, modulation: v_modulation, input: Box::new(v_input), sidechain: Box::new(v_sidechain) }))
}

/// Decode the vocoder processor recorded at `key`.
fn decode_vocoder(t: &SiteTrace, key: &str) -> (r: Option<Result<AudioNode, TraceError>>)
    requires
        is_plain(key@),
        t.choices().dom().contains(spec_address(key@, "op"@)),
    ensures
        decoded_as(r, spec_decode_vocoder(t.choices(), key@)),
    decreases weight(t.choices(), key@), 0nat,
{
    proof {
        t.lemma_finite();
        lemma_layout(key@);
        lemma_weight_drops(t.choices(), key@, "op"@);
    }
    let v_bands = match get_real(t, key, "bands") {
        Ok(b) => b,
        Err(e) => return Some(Err(e)),
    };
    let v_attack = match get_real(t, key, "vatt") {
        Ok(b) => b,
        Err(e) => return Some(Err(e)),
    };
    let v_release = match get_real(t, key, "vrel") {
        Ok(b) => b,
        Err(e) => return Some(Err(e)),
    };
    let v_mod_depth = match get_real(t, key, "mdepth") {
        Ok(b) => b,
        Err(e) => return Some(Err(e)),
    };
    let km = mod_key(key);
    let v_modulation = match decode_mod(t, km.as_str()) {
        Some(Ok(x)) => x,
        Some(Err(e)) => return Some(Err(e)),
        None => return None,
    };
    let k0 = child_key(key, 0);
    let v_carrier = match decode_node(t, k0.as_str()) {
        Some(Ok(x)) => x,
        Some(Err(e)) => return Some(Err(e)),
        None => return None,
    };
    let k1 = child_key(key, 1);
    let v_modulator = match decode_node(t, k1.as_str()) {
        Some(Ok(x)) => x,
        Some(Err(e)) => return Some(Err(e)),
        None => return None,
    };
    Some(Ok(AudioNode::Vocoder { bands: v_bands, attack: v_attack, release: v_release, mod_depth: v_mod_depth, modulation: v_modulation, carrier: Box::new(v_carrier), modulator: Box::new(v_modulator) }))
}
/// A recorded Waveform index reads back as the same value.
proof fn lemma_index_round_trip_waveform(v: Waveform)
    ensures
        Waveform::spec_from_index((v.spec_index() as usize) as nat) == v,
{
}

/// A recorded NoiseColor index reads back as the same value.
proof fn lemma_index_round_trip_noisecolor(v: NoiseColor)
    ensures
        NoiseColor::spec_from_index((v.spec_index() as usize) as nat) == v,
{
}

/// A recorded FilterKind index reads back as the same value.
proof fn lemma_index_round_trip_filterkind(v: FilterKind)
    ensures
        FilterKind::spec_from_index((v.spec_index() as usize) as nat) == v,
{
}

/// A recorded TableShape index reads back as the same value.
proof fn lemma_index_round_trip_tableshape(v: TableShape)
    ensures
        TableShape::spec_from_index((v.spec_index() as usize) as nat) == v,
{
}

/// A recorded DriveMode index reads back as the same value.
proof fn lemma_index_round_trip_drivemode(v: DriveMode)
    ensures
        DriveMode::spec_from_index((v.spec_index() as usize) as nat) == v,
{
}

/// A recorded ModOp index reads back as the same value.
proof fn lemma_index_round_trip_modop(v: ModOp)
    ensures
        ModOp::spec_from_index((v.spec_index() as usize) as nat) == v,
{
}

/// A recorded PairOp index reads back as the same value.
proof fn lemma_index_round_trip_pairop(v: PairOp)
    ensures
        PairOp::spec_from_index((v.spec_index() as usize) as nat) == v,
{
}

/// Every knob the trace leaves unrecorded is zero, so that reading the
/// term back restores it: a one-knob processor records no `p1`.
pub open spec fn idle_knobs_zero(m: ModNode) -> bool
    decreases m,
{
    match m {
        ModNode::Op { kind, p1, input, .. } => (kind.spec_param_sites().len() == 1 ==> p1 == 0)
            && idle_knobs_zero(*input),
        ModNode::Pair { a, b, .. } => idle_knobs_zero(*a) && idle_knobs_zero(*b),
        _ => true,
    }
}

/// Every modulation term of an audio term leaves its unrecorded knobs zero.
pub open spec fn idle_knobs_zero_node(n: AudioNode) -> bool
    decreases n,
{
    match n {
        AudioNode::Vco { modulation: v_modulation, .. } => idle_knobs_zero(v_modulation),
        AudioNode::Supersaw { modulation: v_modulation, .. } => idle_knobs_zero(v_modulation),
        AudioNode::Noise { .. } => true,
        AudioNode::Wavetable { modulation: v_modulation, .. } => idle_knobs_zero(v_modulation),
        AudioNode::Pluck { modulation: v_modulation, .. } => idle_knobs_zero(v_modulation),
        AudioNode::Formant { modulation: v_modulation, .. } => idle_knobs_zero(v_modulation),
        AudioNode::Mix { a: v_a, b: v_b, .. } => idle_knobs_zero_node(*v_a) && idle_knobs_zero_node(*v_b),
        AudioNode::Filter { modulation: v_modulation, input: v_input, .. } => idle_knobs_zero(v_modulation) && idle_knobs_zero_node(*v_input),
        AudioNode::Fold { modulation: v_modulation, input: v_input, .. } => idle_knobs_zero(v_modulation) && idle_knobs_zero_node(*v_input),
        AudioNode::Delay { modulation: v_modulation, input: v_input, .. } => idle_knobs_zero(v_modulation) && idle_knobs_zero_node(*v_input),
        AudioNode::Chorus { modulation: v_modulation, input: v_input, .. } => idle_knobs_zero(v_modulation) && idle_knobs_zero_node(*v_input),
        AudioNode::Reverb { modulation: v_modulation, input: v_input, .. } => idle_knobs_zero(v_modulation) && idle_knobs_zero_node(*v_input),
        AudioNode::Distortion { modulation: v_modulation, input: v_input, .. } => idle_knobs_zero(v_modulation) && idle_knobs_zero_node(*v_input),
        AudioNode::Bitcrush { modulation: v_modulation, input: v_input, .. } => idle_knobs_zero(v_modulation) && idle_knobs_zero_node(*v_input),
        AudioNode::Phaser { modulation: v_modulation, input: v_input, .. } => idle_knobs_zero(v_modulation) && idle_knobs_zero_node(*v_input),
        AudioNode::RingMod { a: v_a, b: v_b, .. } => idle_knobs_zero_node(*v_a) && idle_knobs_zero_node(*v_b),
        AudioNode::Flanger { modulation: v_modulation, input: v_input, .. } => idle_knobs_zero(v_modulation) && idle_knobs_zero_node(*v_input),
        AudioNode::Tremolo { modulation: v_modulation, input: v_input, .. } => idle_knobs_zero(v_modulation) && idle_knobs_zero_node(*v_input),
        AudioNode::Vibrato { modulation: v_modulation, input: v_input, .. } => idle_knobs_zero(v_modulation) && idle_knobs_zero_node(*v_input),
        AudioNode::Eq { modulation: v_modulation, input: v_input, .. } => idle_knobs_zero(v_modulation) && idle_knobs_zero_node(*v_input),
        AudioNode::Granular { modulation: v_modulation, input: v_input, .. } => idle_knobs_zero(v_modulation) && idle_knobs_zero_node(*v_input),
        AudioNode::Shift { modulation: v_modulation, input: v_input, .. } => idle_knobs_zero(v_modulation) && idle_knobs_zero_node(*v_input),
        AudioNode::Comp { modulation: v_modulation, input: v_input, sidechain: v_sidechain, .. } => idle_knobs_zero(v_modulation) && idle_knobs_zero_node(*v_input) && idle_knobs_zero_node(*v_sidechain),
        AudioNode::Duck { modulation: v_modulation, input: v_input, key: v_key, .. } => idle_knobs_zero(v_modulation) && idle_knobs_zero_node(*v_input) && idle_knobs_zero_node(*v_key),
        AudioNode::Gate { modulation: v_modulation, input: v_input, sidechain: v_sidechain, .. } => idle_knobs_zero(v_modulation) && idle_knobs_zero_node(*v_input) && idle_knobs_zero_node(*v_sidechain),
        AudioNode::Vocoder { modulation: v_modulation, carrier: v_carrier, modulator: v_modulator, .. } => idle_knobs_zero(v_modulation) && idle_knobs_zero_node(*v_carrier) && idle_knobs_zero_node(*v_modulator),
    }
}

/// Recording a modulation term at a plain key touches no address outside
/// the subtree at that key.
pub proof fn lemma_encode_mod_frame(m: ModNode, key: Seq<char>, t: Map<Seq<char>, SiteValue>)
    requires
        is_plain(key),
    ensures
        forall|a: Seq<char>|
            !below(a, key) ==> #[trigger] spec_lookup(spec_encode_mod(m, key, t), a) == spec_lookup(
                t,
                a,
            ),
    decreases m,
{
    lemma_layout(key);
    match m {
        ModNode::Op { kind: v_kind, p0: v_p0, p1: v_p1, input: v_input } => {
            let sites = v_kind.spec_param_sites();
            let t = spec_put(t, key, "mod"@, SiteValue::Index(6));
            let t = spec_put(t, key, "modop"@, SiteValue::Index(v_kind.spec_index() as usize));
            let t = spec_put(t, key, sites[0], SiteValue::Real(v_p0));
            let t = if sites.len() > 1 {
                spec_put(t, key, sites[1], SiteValue::Real(v_p1))
            } else {
                t
            };
            lemma_encode_mod_frame(*v_input, spec_child_key(key, 0), t);
        },
        ModNode::Pair { kind: v_kind, a: v_a, b: v_b } => {
            let t = spec_put(t, key, "mod"@, SiteValue::Index(7));
            let t = spec_put(t, key, "pairop"@, SiteValue::Index(v_kind.spec_index() as usize));
            lemma_encode_mod_frame(*v_a, spec_child_key(key, 0), t);
            lemma_encode_mod_frame(*v_b, spec_child_key(key, 1), spec_encode_mod(*v_a, spec_child_key(key, 0), t));
        },
        _ => {},
    }
}

/// Recording an audio term at a plain key touches no address outside the
/// subtree at that key.
pub proof fn lemma_encode_node_frame(n: AudioNode, key: Seq<char>, t: Map<Seq<char>, SiteValue>)
    requires
        is_plain(key),
    ensures
        forall|a: Seq<char>|
            !below(a, key) ==> #[trigger] spec_lookup(spec_encode_node(n, key, t), a) == spec_lookup(
                t,
                a,
            ),
    decreases n,
{
    lemma_layout(key);
    match n {
        AudioNode::Vco { wave: v_wave, octave: v_octave, detune: v_detune, mod_depth: v_mod_depth, modulation: v_modulation } => {
            let t = spec_put(t, key, "leaf"@, SiteValue::Flag(true));
            let t = spec_put(t, key, "src"@, SiteValue::Index(0));
            let t = spec_put(t, key, "wave"@, SiteValue::Index(v_wave.spec_index() as usize));
            let t = spec_put(t, key, "oct"@, SiteValue::Index(spec_octave_index(v_octave)));
            let t = spec_put(t, key, "det"@, SiteValue::Real(v_detune));
            let t = spec_put(t, key, "mdepth"@, SiteValue::Real(v_mod_depth));
            lemma_encode_mod_frame(v_modulation, spec_mod_key(key), t);
            let t = spec_encode_mod(v_modulation, spec_mod_key(key), t);
        },
        AudioNode::Supersaw { octave: v_octave, detune: v_detune, mix: v_mix, mod_depth: v_mod_depth, modulation: v_modulation } => {
            let t = spec_put(t, key, "leaf"@, SiteValue::Flag(true));
            let t = spec_put(t, key, "src"@, SiteValue::Index(1));
            let t = spec_put(t, key, "oct"@, SiteValue::Index(spec_octave_index(v_octave)));
            let t = spec_put(t, key, "det"@, SiteValue::Real(v_detune));
            let t = spec_put(t, key, "smix"@, SiteValue::Real(v_mix));
            let t = spec_put(t, key, "mdepth"@, SiteValue::Real(v_mod_depth));
            lemma_encode_mod_frame(v_modulation, spec_mod_key(key), t);
            let t = spec_encode_mod(v_modulation, spec_mod_key(key), t);
        },
        AudioNode::Wavetable { table: v_table, octave: v_octave, morph: v_morph, mod_depth: v_mod_depth, modulation: v_modulation } => {
            let t = spec_put(t, key, "leaf"@, SiteValue::Flag(true));
            let t = spec_put(t, key, "src"@, SiteValue::Index(3));
            let t = spec_put(t, key, "table"@, SiteValue::Index(v_table.spec_index() as usize));
            let t = spec_put(t, key, "oct"@, SiteValue::Index(spec_octave_index(v_octave)));
            let t = spec_put(t, key, "morph"@, SiteValue::Real(v_morph));
            let t = spec_put(t, key, "mdepth"@, SiteValue::Real(v_mod_depth));
            lemma_encode_mod_frame(v_modulation, spec_mod_key(key), t);
            let t = spec_encode_mod(v_modulation, spec_mod_key(key), t);
        },
        AudioNode::Pluck { octave: v_octave, damping: v_damping, brightness: v_brightness, mod_depth: v_mod_depth, modulation: v_modulation } => {
            let t = spec_put(t, key, "leaf"@, SiteValue::Flag(true));
            let t = spec_put(t, key, "src"@, SiteValue::Index(4));
            let t = spec_put(t, key, "oct"@, SiteValue::Index(spec_octave_index(v_octave)));
            let t = spec_put(t, key, "damp"@, SiteValue::Real(v_damping));
            let t = spec_put(t, key, "bright"@, SiteValue::Real(v_brightness));
            let t = spec_put(t, key, "mdepth"@, SiteValue::Real(v_mod_depth));
            lemma_encode_mod_frame(v_modulation, spec_mod_key(key), t);
            let t = spec_encode_mod(v_modulation, spec_mod_key(key), t);
        },
        AudioNode::Formant { vowel: v_vowel, shift: v_shift, octave: v_octave, mod_depth: v_mod_depth, modulation: v_modulation } => {
            let t = spec_put(t, key, "leaf"@, SiteValue::Flag(true));
            let t = spec_put(t, key, "src"@, SiteValue::Index(5));
            let t = spec_put(t, key, "vowel"@, SiteValue::Real(v_vowel));
            let t = spec_put(t, key, "fshift"@, SiteValue::Real(v_shift));
            let t = spec_put(t, key, "oct"@, SiteValue::Index(spec_octave_index(v_octave)));
            let t = spec_put(t, key, "mdepth"@, SiteValue::Real(v_mod_depth));
            lemma_encode_mod_frame(v_modulation, spec_mod_key(key), t);
            let t = spec_encode_mod(v_modulation, spec_mod_key(key), t);
        },
        AudioNode::Mix { balance: v_balance, a: v_a, b: v_b } => {
            let t = spec_put(t, key, "leaf"@, SiteValue::Flag(false));
            let t = spec_put(t, key, "op"@, SiteValue::Index(0));
            let t = spec_put(t, key, "bal"@, SiteValue::Real(v_balance));
            lemma_encode_node_frame(*v_a, spec_child_key(key, 0), t);
            let t = spec_encode_node(*v_a, spec_child_key(key, 0), t);
            lemma_encode_node_frame(*v_b, spec_child_key(key, 1), t);
            let t = spec_encode_node(*v_b, spec_child_key(key, 1), t);
        },
        AudioNode::Filter { kind: v_kind, cutoff: v_cutoff, resonance: v_resonance, mod_depth: v_mod_depth, input: v_input, modulation: v_modulation } => {
            let t = spec_put(t, key, "leaf"@, SiteValue::Flag(false));
            let t = spec_put(t, key, "op"@, SiteValue::Index(1));
            let t = spec_put(t, key, "fkind"@, SiteValue::Index(v_kind.spec_index() as usize));
            let t = spec_put(t, key, "cut"@, SiteValue::Real(v_cutoff));
            let t = spec_put(t, key, "res"@, SiteValue::Real(v_resonance));
            let t = spec_put(t, key, "mdepth"@, SiteValue::Real(v_mod_depth));
            lemma_encode_mod_frame(v_modulation, spec_mod_key(key), t);
            let t = spec_encode_mod(v_modulation, spec_mod_key(key), t);
            lemma_encode_node_frame(*v_input, spec_child_key(key, 0), t);
            let t = spec_encode_node(*v_input, spec_child_key(key, 0), t);
        },
        AudioNode::Fold { threshold: v_threshold, mod_depth: v_mod_depth, input: v_input, modulation: v_modulation } => {
            let t = spec_put(t, key, "leaf"@, SiteValue::Flag(false));
            let t = spec_put(t, key, "op"@, SiteValue::Index(2));
            let t = spec_put(t, key, "thresh"@, SiteValue::Real(v_threshold));
            let t = spec_put(t, key, "mdepth"@, SiteValue::Real(v_mod_depth));
            lemma_encode_mod_frame(v_modulation, spec_mod_key(key), t);
            let t = spec_encode_mod(v_modulation, spec_mod_key(key), t);
            lemma_encode_node_frame(*v_input, spec_child_key(key, 0), t);
            let t = spec_encode_node(*v_input, spec_child_key(key, 0), t);
        },
        AudioNode::Delay { time: v_time, feedback: v_feedback, mix: v_mix, mod_depth: v_mod_depth, input: v_input, modulation: v_modulation } => {
            let t = spec_put(t, key, "leaf"@, SiteValue::Flag(false));
            let t = spec_put(t, key, "op"@, SiteValue::Index(3));
            let t = spec_put(t, key, "time"@, SiteValue::Real(v_time));
            let t = spec_put(t, key, "fb"@, SiteValue::Real(v_feedback));
            let t = spec_put(t, key, "dmix"@, SiteValue::Real(v_mix));
            let t = spec_put(t, key, "mdepth"@, SiteValue::Real(v_mod_depth));
            lemma_encode_mod_frame(v_modulation, spec_mod_key(key), t);
            let t = spec_encode_mod(v_modulation, spec_mod_key(key), t);
            lemma_encode_node_frame(*v_input, spec_child_key(key, 0), t);
            let t = spec_encode_node(*v_input, spec_child_key(key, 0), t);
        },
        AudioNode::Chorus { rate: v_rate, depth: v_depth, mix: v_mix, mod_depth: v_mod_depth, input: v_input, modulation: v_modulation } => {
            let t = spec_put(t, key, "leaf"@, SiteValue::Flag(false));
            let t = spec_put(t, key, "op"@, SiteValue::Index(4));
            let t = spec_put(t, key, "crate"@, SiteValue::Real(v_rate));
            let t = spec_put(t, key, "cdepth"@, SiteValue::Real(v_depth));
            let t = spec_put(t, key, "cmix"@, SiteValue::Real(v_mix));
            let t = spec_put(t, key, "mdepth"@, SiteValue::Real(v_mod_depth));
            lemma_encode_mod_frame(v_modulation, spec_mod_key(key), t);
            let t = spec_encode_mod(v_modulation, spec_mod_key(key), t);
            lemma_encode_node_frame(*v_input, spec_child_key(key, 0), t);
            let t = spec_encode_node(*v_input, spec_child_key(key, 0), t);
        },
        AudioNode::Reverb { size: v_size, damp: v_damp, mix: v_mix, mod_depth: v_mod_depth, input: v_input, modulation: v_modulation } => {
            let t = spec_put(t, key, "leaf"@, SiteValue::Flag(false));
            let t = spec_put(t, key, "op"@, SiteValue::Index(5));
            let t = spec_put(t, key, "rsize"@, SiteValue::Real(v_size));
            let t = spec_put(t, key, "rdamp"@, SiteValue::Real(v_damp));
            let t = spec_put(t, key, "rmix"@, SiteValue::Real(v_mix));
            let t = spec_put(t, key, "mdepth"@, SiteValue::Real(v_mod_depth));
            lemma_encode_mod_frame(v_modulation, spec_mod_key(key), t);
            let t = spec_encode_mod(v_modulation, spec_mod_key(key), t);
            lemma_encode_node_frame(*v_input, spec_child_key(key, 0), t);
            let t = spec_encode_node(*v_input, spec_child_key(key, 0), t);
        },
        AudioNode::Distortion { drive: v_drive, tone: v_tone, mode: v_mode, mod_depth: v_mod_depth, input: v_input, modulation: v_modulation } => {
            let t = spec_put(t, key, "leaf"@, SiteValue::Flag(false));
            let t = spec_put(t, key, "op"@, SiteValue::Index(6));
            let t = spec_put(t, key, "drive"@, SiteValue::Real(v_drive));
            let t = spec_put(t, key, "tone"@, SiteValue::Real(v_tone));
            let t = spec_put(t, key, "dmode"@, SiteValue::Index(v_mode.spec_index() as usize));
            let t = spec_put(t, key, "mdepth"@, SiteValue::Real(v_mod_depth));
            lemma_encode_mod_frame(v_modulation, spec_mod_key(key), t);
            let t = spec_encode_mod(v_modulation, spec_mod_key(key), t);
            lemma_encode_node_frame(*v_input, spec_child_key(key, 0), t);
            let t = spec_encode_node(*v_input, spec_child_key(key, 0), t);
        },
        AudioNode::Bitcrush { bits: v_bits, downsample: v_downsample, mod_depth: v_mod_depth, input: v_input, modulation: v_modulation } => {
            let t = spec_put(t, key, "leaf"@, SiteValue::Flag(false));
            let t = spec_put(t, key, "op"@, SiteValue::Index(7));
            let t = spec_put(t, key, "bits"@, SiteValue::Real(v_bits));
            let t = spec_put(t, key, "dsamp"@, SiteValue::Real(v_downsample));
            let t = spec_put(t, key, "mdepth"@, SiteValue::Real(v_mod_depth));
            lemma_encode_mod_frame(v_modulation, spec_mod_key(key), t);
            let t = spec_encode_mod(v_modulation, spec_mod_key(key), t);
            lemma_encode_node_frame(*v_input, spec_child_key(key, 0), t);
            let t = spec_encode_node(*v_input, spec_child_key(key, 0), t);
        },
        AudioNode::Phaser { rate: v_rate, depth: v_depth, feedback: v_feedback, mod_depth: v_mod_depth, input: v_input, modulation: v_modulation } => {
            let t = spec_put(t, key, "leaf"@, SiteValue::Flag(false));
            let t = spec_put(t, key, "op"@, SiteValue::Index(8));
            let t = spec_put(t, key, "prate"@, SiteValue::Real(v_rate));
            let t = spec_put(t, key, "pdepth"@, SiteValue::Real(v_depth));
            let t = spec_put(t, key, "pfb"@, SiteValue::Real(v_feedback));
            let t = spec_put(t, key, "mdepth"@, SiteValue::Real(v_mod_depth));
            lemma_encode_mod_frame(v_modulation, spec_mod_key(key), t);
            let t = spec_encode_mod(v_modulation, spec_mod_key(key), t);
            lemma_encode_node_frame(*v_input, spec_child_key(key, 0), t);
            let t = spec_encode_node(*v_input, spec_child_key(key, 0), t);
        },
        AudioNode::RingMod { mix: v_mix, a: v_a, b: v_b } => {
            let t = spec_put(t, key, "leaf"@, SiteValue::Flag(false));
            let t = spec_put(t, key, "op"@, SiteValue::Index(9));
            let t = spec_put(t, key, "rgmix"@, SiteValue::Real(v_mix));
            lemma_encode_node_frame(*v_a, spec_child_key(key, 0), t);
            let t = spec_encode_node(*v_a, spec_child_key(key, 0), t);
            lemma_encode_node_frame(*v_b, spec_child_key(key, 1), t);
            let t = spec_encode_node(*v_b, spec_child_key(key, 1), t);
        },
        AudioNode::Flanger { rate: v_rate, depth: v_depth, feedback: v_feedback, mod_depth: v_mod_depth, input: v_input, modulation: v_modulation } => {
            let t = spec_put(t, key, "leaf"@, SiteValue::Flag(false));
            let t = spec_put(t, key, "op"@, SiteValue::Index(10));
            let t = spec_put(t, key, "frate"@, SiteValue::Real(v_rate));
            let t = spec_put(t, key, "fdepth"@, SiteValue::Real(v_depth));
            let t = spec_put(t, key, "ffb"@, SiteValue::Real(v_feedback));
            let t = spec_put(t, key, "mdepth"@, SiteValue::Real(v_mod_depth));
            lemma_encode_mod_frame(v_modulation, spec_mod_key(key), t);
            let t = spec_encode_mod(v_modulation, spec_mod_key(key), t);
            lemma_encode_node_frame(*v_input, spec_child_key(key, 0), t);
            let t = spec_encode_node(*v_input, spec_child_key(key, 0), t);
        },
        AudioNode::Tremolo { rate: v_rate, depth: v_depth, shape: v_shape, mod_depth: v_mod_depth, input: v_input, modulation: v_modulation } => {
            let t = spec_put(t, key, "leaf"@, SiteValue::Flag(false));
            let t = spec_put(t, key, "op"@, SiteValue::Index(11));
            let t = spec_put(t, key, "trate"@, SiteValue::Real(v_rate));
            let t = spec_put(t, key, "tdepth"@, SiteValue::Real(v_depth));
            let t = spec_put(t, key, "tshape"@, SiteValue::Real(v_shape));
            let t = spec_put(t, key, "mdepth"@, SiteValue::Real(v_mod_depth));
            lemma_encode_mod_frame(v_modulation, spec_mod_key(key), t);
            let t = spec_encode_mod(v_modulation, spec_mod_key(key), t);
            lemma_encode_node_frame(*v_input, spec_child_key(key, 0), t);
            let t = spec_encode_node(*v_input, spec_child_key(key, 0), t);
        },
        AudioNode::Vibrato { rate: v_rate, depth: v_depth, mix: v_mix, mod_depth: v_mod_depth, input: v_input, modulation: v_modulation } => {
            let t = spec_put(t, key, "leaf"@, SiteValue::Flag(false));
            let t = spec_put(t, key, "op"@, SiteValue::Index(12));
            let t = spec_put(t, key, "vrate"@, SiteValue::Real(v_rate));
            let t = spec_put(t, key, "vdepth"@, SiteValue::Real(v_depth));
            let t = spec_put(t, key, "vmix"@, SiteValue::Real(v_mix));
            let t = spec_put(t, key, "mdepth"@, SiteValue::Real(v_mod_depth));
            lemma_encode_mod_frame(v_modulation, spec_mod_key(key), t);
            let t = spec_encode_mod(v_modulation, spec_mod_key(key), t);
            lemma_encode_node_frame(*v_input, spec_child_key(key, 0), t);
            let t = spec_encode_node(*v_input, spec_child_key(key, 0), t);
        },
        AudioNode::Eq { low: v_low, mid: v_mid, high: v_high, mod_depth: v_mod_depth, input: v_input, modulation: v_modulation } => {
            let t = spec_put(t, key, "leaf"@, SiteValue::Flag(false));
            let t = spec_put(t, key, "op"@, SiteValue::Index(13));
            let t = spec_put(t, key, "low"@, SiteValue::Real(v_low));
            let t = spec_put(t, key, "mid"@, SiteValue::Real(v_mid));
            let t = spec_put(t, key, "high"@, SiteValue::Real(v_high));
            let t = spec_put(t, key, "mdepth"@, SiteValue::Real(v_mod_depth));
            lemma_encode_mod_frame(v_modulation, spec_mod_key(key), t);
            let t = spec_encode_mod(v_modulation, spec_mod_key(key), t);
            lemma_encode_node_frame(*v_input, spec_child_key(key, 0), t);
            let t = spec_encode_node(*v_input, spec_child_key(key, 0), t);
        },
        AudioNode::Granular { position: v_position, size: v_size, density: v_density, mod_depth: v_mod_depth, input: v_input, modulation: v_modulation } => {
            let t = spec_put(t, key, "leaf"@, SiteValue::Flag(false));
            let t = spec_put(t, key, "op"@, SiteValue::Index(14));
            let t = spec_put(t, key, "gpos"@, SiteValue::Real(v_position));
            let t = spec_put(t, key, "gsize"@, SiteValue::Real(v_size));
            let t = spec_put(t, key, "gdens"@, SiteValue::Real(v_density));
            let t = spec_put(t, key, "mdepth"@, SiteValue::Real(v_mod_depth));
            lemma_encode_mod_frame(v_modulation, spec_mod_key(key), t);
            let t = spec_encode_mod(v_modulation, spec_mod_key(key), t);
            lemma_encode_node_frame(*v_input, spec_child_key(key, 0), t);
            let t = spec_encode_node(*v_input, spec_child_key(key, 0), t);
        },
        AudioNode::Shift { semis: v_semis, window: v_window, mix: v_mix, mod_depth: v_mod_depth, input: v_input, modulation: v_modulation } => {
            let t = spec_put(t, key, "leaf"@, SiteValue::Flag(false));
            let t = spec_put(t, key, "op"@, SiteValue::Index(15));
            let t = spec_put(t, key, "semis"@, SiteValue::Real(v_semis));
            let t = spec_put(t, key, "window"@, SiteValue::Real(v_window));
            let t = spec_put(t, key, "smix"@, SiteValue::Real(v_mix));
            let t = spec_put(t, key, "mdepth"@, SiteValue::Real(v_mod_depth));
            lemma_encode_mod_frame(v_modulation, spec_mod_key(key), t);
            let t = spec_encode_mod(v_modulation, spec_mod_key(key), t);
            lemma_encode_node_frame(*v_input, spec_child_key(key, 0), t);
            let t = spec_encode_node(*v_input, spec_child_key(key, 0), t);
        },
        AudioNode::Comp { threshold: v_threshold, ratio: v_ratio, makeup: v_makeup, mod_depth: v_mod_depth, input: v_input, sidechain: v_sidechain, modulation: v_modulation } => {
            let t = spec_put(t, key, "leaf"@, SiteValue::Flag(false));
            let t = spec_put(t, key, "op"@, SiteValue::Index(16));
            let t = spec_put(t, key, "thresh"@, SiteValue::Real(v_threshold));
            let t = spec_put(t, key, "ratio"@, SiteValue::Real(v_ratio));
            let t = spec_put(t, key, "makeup"@, SiteValue::Real(v_makeup));
            let t = spec_put(t, key, "mdepth"@, SiteValue::Real(v_mod_depth));
            lemma_encode_mod_frame(v_modulation, spec_mod_key(key), t);
            let t = spec_encode_mod(v_modulation, spec_mod_key(key), t);
            lemma_encode_node_frame(*v_input, spec_child_key(key, 0), t);
            let t = spec_encode_node(*v_input, spec_child_key(key, 0), t);
            lemma_encode_node_frame(*v_sidechain, spec_child_key(key, 1), t);
            let t = spec_encode_node(*v_sidechain, spec_child_key(key, 1), t);
        },
        AudioNode::Duck { amount: v_amount, threshold: v_threshold, release: v_release, mod_depth: v_mod_depth, input: v_input, key: v_key, modulation: v_modulation } => {
            let t = spec_put(t, key, "leaf"@, SiteValue::Flag(false));
            let t = spec_put(t, key, "op"@, SiteValue::Index(17));
            let t = spec_put(t, key, "amount"@, SiteValue::Real(v_amount));
            let t = spec_put(t, key, "dthresh"@, SiteValue::Real(v_threshold));
            let t = spec_put(t, key, "drel"@, SiteValue::Real(v_release));
            let t = spec_put(t, key, "mdepth"@, SiteValue::Real(v_mod_depth));
            lemma_encode_mod_frame(v_modulation, spec_mod_key(key), t);
            let t = spec_encode_mod(v_modulation, spec_mod_key(key), t);
            lemma_encode_node_frame(*v_input, spec_child_key(key, 0), t);
            let t = spec_encode_node(*v_input, spec_child_key(key, 0), t);
            lemma_encode_node_frame(*v_key, spec_child_key(key, 1), t);
            let t = spec_encode_node(*v_key, spec_child_key(key, 1), t);
        },
        AudioNode::Gate { threshold: v_threshold, range: v_range, release: v_release, mod_depth: v_mod_depth, input: v_input, sidechain: v_sidechain, modulation: v_modulation } => {
            let t = spec_put(t, key, "leaf"@, SiteValue::Flag(false));
            let t = spec_put(t, key, "op"@, SiteValue::Index(18));
            let t = spec_put(t, key, "gthresh"@, SiteValue::Real(v_threshold));
            let t = spec_put(t, key, "range"@, SiteValue::Real(v_range));
            let t = spec_put(t, key, "grel"@, SiteValue::Real(v_release));
            let t = spec_put(t, key, "mdepth"@, SiteValue::Real(v_mod_depth));
            lemma_encode_mod_frame(v_modulation, spec_mod_key(key), t);
            let t = spec_encode_mod(v_modulation, spec_mod_key(key), t);
            lemma_encode_node_frame(*v_input, spec_child_key(key, 0), t);
            let t = spec_encode_node(*v_input, spec_child_key(key, 0), t);
            lemma_encode_node_frame(*v_sidechain, spec_child_key(key, 1), t);
            let t = spec_encode_node(*v_sidechain, spec_child_key(key, 1), t);
        },
        AudioNode::Vocoder { bands: v_bands, attack: v_attack, release: v_release, mod_depth: v_mod_depth, carrier: v_carrier, modulator: v_modulator, modulation: v_modulation } => {
            let t = spec_put(t, key, "leaf"@, SiteValue::Flag(false));
            let t = spec_put(t, key, "op"@, SiteValue::Index(19));
            let t = spec_put(t, key, "bands"@, SiteValue::Real(v_bands));
            let t = spec_put(t, key, "vatt"@, SiteValue::Real(v_attack));
            let t = spec_put(t, key, "vrel"@, SiteValue::Real(v_release));
            let t = spec_put(t, key, "mdepth"@, SiteValue::Real(v_mod_depth));
            lemma_encode_mod_frame(v_modulation, spec_mod_key(key), t);
            let t = spec_encode_mod(v_modulation, spec_mod_key(key), t);
            lemma_encode_node_frame(*v_carrier, spec_child_key(key, 0), t);
            let t = spec_encode_node(*v_carrier, spec_child_key(key, 0), t);
            lemma_encode_node_frame(*v_modulator, spec_child_key(key, 1), t);
            let t = spec_encode_node(*v_modulator, spec_child_key(key, 1), t);
        },
        _ => {},
    }
}

/// An encodable octave offset reads back as itself.
pub proof fn lemma_octave_round_trip(octave: i8)
    requires
        octave <= 125,
    ensures
        !octave_overflows(spec_octave_index(octave)),
        spec_octave_at(spec_octave_index(octave)) == octave,
{
    assert((((octave + 2) as usize) as i8) == octave + 2 && ((((octave + 2) as usize) as i8) - 2) as i8
        == octave) by (bit_vector)
        requires
            octave <= 125,
    ;
}

/// Reading back the modulation term recorded at a plain key gives the term,
/// from any trace that agrees with the recording below that key.
pub proof fn lemma_decode_encoded_mod(
    t: Map<Seq<char>, SiteValue>,
    key: Seq<char>,
    m: ModNode,
    base: Map<Seq<char>, SiteValue>,
)
    requires
        t.dom().finite(),
        is_plain(key),
        idle_knobs_zero(m),
        forall|a: Seq<char>|
            #[trigger] below(a, key) ==> spec_lookup(t, a) == spec_lookup(
                spec_encode_mod(m, key, base),
                a,
            ),
    ensures
        spec_decode_mod(t, key) == Decoded::Value(m),
        read_index(t, key, "mod"@) is Some,
    decreases m,
{
    lemma_layout(key);
    lemma_address_injective_forall(key);
    reveal_strlit("mod");
    match m {
        ModNode::Empty => {
        },
        ModNode::Lfo { wave: v_wave, rate: v_rate } => {
            reveal_strlit("wave");
            lemma_index_round_trip_waveform(v_wave);
            reveal_strlit("rate");
        },
        ModNode::Env { attack: v_attack, decay: v_decay } => {
            reveal_strlit("att");
            reveal_strlit("dec");
        },
        ModNode::Rand { rate: v_rate, glide: v_glide } => {
            reveal_strlit("rate");
            reveal_strlit("glide");
        },
        ModNode::Follow { sens: v_sens, release: v_release } => {
            reveal_strlit("sens");
            reveal_strlit("rel");
        },
        ModNode::Euclid { rate: v_rate, steps: v_steps, pulses: v_pulses } => {
            reveal_strlit("erate");
            reveal_strlit("esteps");
            reveal_strlit("epulses");
        },
        ModNode::Op { kind: v_kind, p0: v_p0, p1: v_p1, input: v_input } => {
            reveal_strlit("modop");
            reveal_strlit("qroot");
            reveal_strlit("qscale");
            reveal_strlit("rise");
            reveal_strlit("fall");
            reveal_strlit("rmode");
            reveal_strlit("hrate");
            lemma_index_round_trip_modop(v_kind);
            let sites = v_kind.spec_param_sites();
            let t2 = spec_put(base, key, "mod"@, SiteValue::Index(6));
            let t2 = spec_put(t2, key, "modop"@, SiteValue::Index(v_kind.spec_index() as usize));
            let t2 = spec_put(t2, key, sites[0], SiteValue::Real(v_p0));
            let t2 = if sites.len() > 1 {
                spec_put(t2, key, sites[1], SiteValue::Real(v_p1))
            } else {
                t2
            };
            let k0 = spec_child_key(key, 0);
            lemma_encode_mod_frame(*v_input, k0, t2);
            assert forall|a: Seq<char>| #[trigger] below(a, k0) implies spec_lookup(t, a) == spec_lookup(
                spec_encode_mod(*v_input, k0, t2),
                a,
            ) by {}
            lemma_decode_encoded_mod(t, k0, *v_input, t2);
        },
        ModNode::Pair { kind: v_kind, a: v_a, b: v_b } => {
            reveal_strlit("pairop");
            lemma_index_round_trip_pairop(v_kind);
            let t2 = spec_put(base, key, "mod"@, SiteValue::Index(7));
            let t2 = spec_put(t2, key, "pairop"@, SiteValue::Index(v_kind.spec_index() as usize));
            let k0 = spec_child_key(key, 0);
            let k1 = spec_child_key(key, 1);
            let t3 = spec_encode_mod(*v_a, k0, t2);
            lemma_encode_mod_frame(*v_a, k0, t2);
            lemma_encode_mod_frame(*v_b, k1, t3);
            assert forall|a: Seq<char>| #[trigger] below(a, k0) implies spec_lookup(t, a) == spec_lookup(
                spec_encode_mod(*v_a, k0, t2),
                a,
            ) by {}
            assert forall|a: Seq<char>| #[trigger] below(a, k1) implies spec_lookup(t, a) == spec_lookup(
                spec_encode_mod(*v_b, k1, t3),
                a,
            ) by {}
            lemma_decode_encoded_mod(t, k0, *v_a, t2);
            lemma_decode_encoded_mod(t, k1, *v_b, t3);
        },
    }
}

/// Reading back a recorded vco gives it back.
#[verifier::rlimit(40)]
proof fn lemma_decode_encoded_vco(
    t: Map<Seq<char>, SiteValue>,
    key: Seq<char>,
    n: AudioNode,
    base: Map<Seq<char>, SiteValue>,
)
    requires
        n is Vco,
        t.dom().finite(),
        is_plain(key),
        octaves_encodable(n),
        idle_knobs_zero_node(n),
        forall|a: Seq<char>|
            #[trigger] below(a, key) ==> spec_lookup(t, a) == spec_lookup(
                spec_encode_node(n, key, base),
                a,
            ),
    ensures
        spec_decode_node(t, key) == Decoded::Value(n),
    decreases n, 0nat,
{
    lemma_layout(key);
    lemma_address_injective_forall(key);
    reveal_strlit("leaf");
    reveal_strlit("src");
    reveal_strlit("wave");
    reveal_strlit("oct");
    reveal_strlit("det");
    reveal_strlit("mdepth");
    match n {
        AudioNode::Vco { wave: v_wave, octave: v_octave, detune: v_detune, mod_depth: v_mod_depth, modulation: v_modulation } => {
            lemma_index_round_trip_waveform(v_wave);
            lemma_octave_round_trip(v_octave);
            let e = spec_put(base, key, "leaf"@, SiteValue::Flag(true));
            let e = spec_put(e, key, "src"@, SiteValue::Index(0));
            let e = spec_put(e, key, "wave"@, SiteValue::Index(v_wave.spec_index() as usize));
            let e = spec_put(e, key, "oct"@, SiteValue::Index(spec_octave_index(v_octave)));
            let e = spec_put(e, key, "det"@, SiteValue::Real(v_detune));
            let e = spec_put(e, key, "mdepth"@, SiteValue::Real(v_mod_depth));
            let km = spec_mod_key(key);
            lemma_encode_mod_frame(v_modulation, km, e);
            let em = spec_encode_mod(v_modulation, km, e);
            assert forall|a: Seq<char>| #[trigger] below(a, km) implies spec_lookup(t, a) == spec_lookup(em, a) by {}
            lemma_decode_encoded_mod(t, km, v_modulation, e);
            assert("leaf"@[0] != "wave"@[0]);
            assert("src"@[0] != "oct"@[0]);
            assert("src"@[0] != "det"@[0]);
            assert("oct"@[0] != "det"@[0]);
            assert(read_flag(t, key, "leaf"@) == Some(true));
            assert(read_index(t, key, "src"@) == Some(0usize));
            assert(read_index(t, key, "wave"@) == Some(v_wave.spec_index() as usize));
            assert(read_index(t, key, "oct"@) == Some(spec_octave_index(v_octave)));
            assert(read_real(t, key, "det"@) == Some(v_detune));
            assert(read_real(t, key, "mdepth"@) == Some(v_mod_depth));
            assert(spec_decode_node(t, key) == spec_decode_source(t, key));
        },
        _ => {},
    }
}

/// Reading back a recorded supersaw gives it back.
#[verifier::rlimit(40)]
proof fn lemma_decode_encoded_supersaw(
    t: Map<Seq<char>, SiteValue>,
    key: Seq<char>,
    n: AudioNode,
    base: Map<Seq<char>, SiteValue>,
)
    requires
        n is Supersaw,
        t.dom().finite(),
        is_plain(key),
        octaves_encodable(n),
        idle_knobs_zero_node(n),
        forall|a: Seq<char>|
            #[trigger] below(a, key) ==> spec_lookup(t, a) == spec_lookup(
                spec_encode_node(n, key, base),
                a,
            ),
    ensures
        spec_decode_node(t, key) == Decoded::Value(n),
    decreases n, 0nat,
{
    lemma_layout(key);
    lemma_address_injective_forall(key);
    reveal_strlit("leaf");
    reveal_strlit("src");
    reveal_strlit("oct");
    reveal_strlit("det");
    reveal_strlit("smix");
    reveal_strlit("mdepth");
    match n {
        AudioNode::Supersaw { octave: v_octave, detune: v_detune, mix: v_mix, mod_depth: v_mod_depth, modulation: v_modulation } => {
            lemma_octave_round_trip(v_octave);
            let e = spec_put(base, key, "leaf"@, SiteValue::Flag(true));
            let e = spec_put(e, key, "src"@, SiteValue::Index(1));
            let e = spec_put(e, key, "oct"@, SiteValue::Index(spec_octave_index(v_octave)));
            let e = spec_put(e, key, "det"@, SiteValue::Real(v_detune));
            let e = spec_put(e, key, "smix"@, SiteValue::Real(v_mix));
            let e = spec_put(e, key, "mdepth"@, SiteValue::Real(v_mod_depth));
            let km = spec_mod_key(key);
            lemma_encode_mod_frame(v_modulation, km, e);
            let em = spec_encode_mod(v_modulation, km, e);
            assert forall|a: Seq<char>| #[trigger] below(a, km) implies spec_lookup(t, a) == spec_lookup(em, a) by {}
            lemma_decode_encoded_mod(t, km, v_modulation, e);
            assert("leaf"@[0] != "smix"@[0]);
            assert("src"@[0] != "oct"@[0]);
            assert("src"@[0] != "det"@[0]);
            assert("oct"@[0] != "det"@[0]);
            assert(read_flag(t, key, "leaf"@) == Some(true));
            assert(read_index(t, key, "src"@) == Some(1usize));
            assert(read_index(t, key, "oct"@) == Some(spec_octave_index(v_octave)));
            assert(read_real(t, key, "det"@) == Some(v_detune));
            assert(read_real(t, key, "smix"@) == Some(v_mix));
            assert(read_real(t, key, "mdepth"@) == Some(v_mod_depth));
            assert(spec_decode_node(t, key) == spec_decode_source(t, key));
        },
        _ => {},
    }
}

/// Reading back a recorded noise gives it back.
#[verifier::rlimit(40)]
proof fn lemma_decode_encoded_noise(
    t: Map<Seq<char>, SiteValue>,
    key: Seq<char>,
    n: AudioNode,
    base: Map<Seq<char>, SiteValue>,
)
    requires
        n is Noise,
        t.dom().finite(),
        is_plain(key),
        octaves_encodable(n),
        idle_knobs_zero_node(n),
        forall|a: Seq<char>|
            #[trigger] below(a, key) ==> spec_lookup(t, a) == spec_lookup(
                spec_encode_node(n, key, base),
                a,
            ),
    ensures
        spec_decode_node(t, key) == Decoded::Value(n),
    decreases n, 0nat,
{
    lemma_layout(key);
    lemma_address_injective_forall(key);
    reveal_strlit("leaf");
    reveal_strlit("src");
    reveal_strlit("color");
    match n {
        AudioNode::Noise { color: v_color } => {
            lemma_index_round_trip_noisecolor(v_color);
            let e = spec_put(base, key, "leaf"@, SiteValue::Flag(true));
            let e = spec_put(e, key, "src"@, SiteValue::Index(2));
            let e = spec_put(e, key, "color"@, SiteValue::Index(v_color.spec_index() as usize));
            assert(read_flag(t, key, "leaf"@) == Some(true));
            assert(read_index(t, key, "src"@) == Some(2usize));
            assert(read_index(t, key, "color"@) == Some(v_color.spec_index() as usize));
            assert(spec_decode_node(t, key) == spec_decode_source(t, key));
        },
        _ => {},
    }
}

/// Reading back a recorded wavetable gives it back.
#[verifier::rlimit(40)]
proof fn lemma_decode_encoded_wavetable(
    t: Map<Seq<char>, SiteValue>,
    key: Seq<char>,
    n: AudioNode,
    base: Map<Seq<char>, SiteValue>,
)
    requires
        n is Wavetable,
        t.dom().finite(),
        is_plain(key),
        octaves_encodable(n),
        idle_knobs_zero_node(n),
        forall|a: Seq<char>|
            #[trigger] below(a, key) ==> spec_lookup(t, a) == spec_lookup(
                spec_encode_node(n, key, base),
                a,
            ),
    ensures
        spec_decode_node(t, key) == Decoded::Value(n),
    decreases n, 0nat,
{
    lemma_layout(key);
    lemma_address_injective_forall(key);
    reveal_strlit("leaf");
    reveal_strlit("src");
    reveal_strlit("table");
    reveal_strlit("oct");
    reveal_strlit("morph");
    reveal_strlit("mdepth");
    match n {
        AudioNode::Wavetable { table: v_table, octave: v_octave, morph: v_morph, mod_depth: v_mod_depth, modulation: v_modulation } => {
            lemma_index_round_trip_tableshape(v_table);
            lemma_octave_round_trip(v_octave);
            let e = spec_put(base, key, "leaf"@, SiteValue::Flag(true));
            let e = spec_put(e, key, "src"@, SiteValue::Index(3));
            let e = spec_put(e, key, "table"@, SiteValue::Index(v_table.spec_index() as usize));
            let e = spec_put(e, key, "oct"@, SiteValue::Index(spec_octave_index(v_octave)));
            let e = spec_put(e, key, "morph"@, SiteValue::Real(v_morph));
            let e = spec_put(e, key, "mdepth"@, SiteValue::Real(v_mod_depth));
            let km = spec_mod_key(key);
            lemma_encode_mod_frame(v_modulation, km, e);
            let em = spec_encode_mod(v_modulation, km, e);
            assert forall|a: Seq<char>| #[trigger] below(a, km) implies spec_lookup(t, a) == spec_lookup(em, a) by {}
            lemma_decode_encoded_mod(t, km, v_modulation, e);
            assert("src"@[0] != "oct"@[0]);
            assert("table"@[0] != "morph"@[0]);
            assert(read_flag(t, key, "leaf"@) == Some(true));
            assert(read_index(t, key, "src"@) == Some(3usize));
            assert(read_index(t, key, "table"@) == Some(v_table.spec_index() as usize));
            assert(read_index(t, key, "oct"@) == Some(spec_octave_index(v_octave)));
            assert(read_real(t, key, "morph"@) == Some(v_morph));
            assert(read_real(t, key, "mdepth"@) == Some(v_mod_depth));
            assert(spec_decode_node(t, key) == spec_decode_source(t, key));
        },
        _ => {},
    }
}

/// Reading back a recorded pluck gives it back.
#[verifier::rlimit(40)]
proof fn lemma_decode_encoded_pluck(
    t: Map<Seq<char>, SiteValue>,
    key: Seq<char>,
    n: AudioNode,
    base: Map<Seq<char>, SiteValue>,
)
    requires
        n is Pluck,
        t.dom().finite(),
        is_plain(key),
        octaves_encodable(n),
        idle_knobs_zero_node(n),
        forall|a: Seq<char>|
            #[trigger] below(a, key) ==> spec_lookup(t, a) == spec_lookup(
                spec_encode_node(n, key, base),
                a,
            ),
    ensures
        spec_decode_node(t, key) == Decoded::Value(n),
    decreases n, 0nat,
{
    lemma_layout(key);
    lemma_address_injective_forall(key);
    reveal_strlit("leaf");
    reveal_strlit("src");
    reveal_strlit("oct");
    reveal_strlit("damp");
    reveal_strlit("bright");
    reveal_strlit("mdepth");
    match n {
        AudioNode::Pluck { octave: v_octave, damping: v_damping, brightness: v_brightness, mod_depth: v_mod_depth, modulation: v_modulation } => {
            lemma_octave_round_trip(v_octave);
            let e = spec_put(base, key, "leaf"@, SiteValue::Flag(true));
            let e = spec_put(e, key, "src"@, SiteValue::Index(4));
            let e = spec_put(e, key, "oct"@, SiteValue::Index(spec_octave_index(v_octave)));
            let e = spec_put(e, key, "damp"@, SiteValue::Real(v_damping));
            let e = spec_put(e, key, "bright"@, SiteValue::Real(v_brightness));
            let e = spec_put(e, key, "mdepth"@, SiteValue::Real(v_mod_depth));
            let km = spec_mod_key(key);
            lemma_encode_mod_frame(v_modulation, km, e);
            let em = spec_encode_mod(v_modulation, km, e);
            assert forall|a: Seq<char>| #[trigger] below(a, km) implies spec_lookup(t, a) == spec_lookup(em, a) by {}
            lemma_decode_encoded_mod(t, km, v_modulation, e);
            assert("leaf"@[0] != "damp"@[0]);
            assert("src"@[0] != "oct"@[0]);
            assert("bright"@[0] != "mdepth"@[0]);
            assert(read_flag(t, key, "leaf"@) == Some(true));
            assert(read_index(t, key, "src"@) == Some(4usize));
            assert(read_index(t, key, "oct"@) == Some(spec_octave_index(v_octave)));
            assert(read_real(t, key, "damp"@) == Some(v_damping));
            assert(read_real(t, key, "bright"@) == Some(v_brightness));
            assert(read_real(t, key, "mdepth"@) == Some(v_mod_depth));
            assert(spec_decode_node(t, key) == spec_decode_source(t, key));
        },
        _ => {},
    }
}

/// Reading back a recorded formant gives it back.
#[verifier::rlimit(40)]
proof fn lemma_decode_encoded_formant(
    t: Map<Seq<char>, SiteValue>,
    key: Seq<char>,
    n: AudioNode,
    base: Map<Seq<char>, SiteValue>,
)
    requires
        n is Formant,
        t.dom().finite(),
        is_plain(key),
        octaves_encodable(n),
        idle_knobs_zero_node(n),
        forall|a: Seq<char>|
            #[trigger] below(a, key) ==> spec_lookup(t, a) == spec_lookup(
                spec_encode_node(n, key, base),
                a,
            ),
    ensures
        spec_decode_node(t, key) == Decoded::Value(n),
    decreases n, 0nat,
{
    lemma_layout(key);
    lemma_address_injective_forall(key);
    reveal_strlit("leaf");
    reveal_strlit("src");
    reveal_strlit("vowel");
    reveal_strlit("fshift");
    reveal_strlit("oct");
    reveal_strlit("mdepth");
    match n {
        AudioNode::Formant { vowel: v_vowel, shift: v_shift, octave: v_octave, mod_depth: v_mod_depth, modulation: v_modulation } => {
            lemma_octave_round_trip(v_octave);
            let e = spec_put(base, key, "leaf"@, SiteValue::Flag(true));
            let e = spec_put(e, key, "src"@, SiteValue::Index(5));
            let e = spec_put(e, key, "vowel"@, SiteValue::Real(v_vowel));
            let e = spec_put(e, key, "fshift"@, SiteValue::Real(v_shift));
            let e = spec_put(e, key, "oct"@, SiteValue::Index(spec_octave_index(v_octave)));
            let e = spec_put(e, key, "mdepth"@, SiteValue::Real(v_mod_depth));
            let km = spec_mod_key(key);
            lemma_encode_mod_frame(v_modulation, km, e);
            let em = spec_encode_mod(v_modulation, km, e);
            assert forall|a: Seq<char>| #[trigger] below(a, km) implies spec_lookup(t, a) == spec_lookup(em, a) by {}
            lemma_decode_encoded_mod(t, km, v_modulation, e);
            assert("src"@[0] != "oct"@[0]);
            assert("fshift"@[0] != "mdepth"@[0]);
            assert(read_flag(t, key, "leaf"@) == Some(true));
            assert(read_index(t, key, "src"@) == Some(5usize));
            assert(read_real(t, key, "vowel"@) == Some(v_vowel));
            assert(read_real(t, key, "fshift"@) == Some(v_shift));
            assert(read_index(t, key, "oct"@) == Some(spec_octave_index(v_octave)));
            assert(read_real(t, key, "mdepth"@) == Some(v_mod_depth));
            assert(spec_decode_node(t, key) == spec_decode_source(t, key));
        },
        _ => {},
    }
}

/// Reading back a recorded mix gives it back.
#[verifier::rlimit(40)]
proof fn lemma_decode_encoded_mix(
    t: Map<Seq<char>, SiteValue>,
    key: Seq<char>,
    n: AudioNode,
    base: Map<Seq<char>, SiteValue>,
)
    requires
        n is Mix,
        t.dom().finite(),
        is_plain(key),
        octaves_encodable(n),
        idle_knobs_zero_node(n),
        forall|a: Seq<char>|
            #[trigger] below(a, key) ==> spec_lookup(t, a) == spec_lookup(
                spec_encode_node(n, key, base),
                a,
            ),
    ensures
        spec_decode_node(t, key) == Decoded::Value(n),
    decreases n, 0nat,
{
    lemma_layout(key);
    lemma_address_injective_forall(key);
    reveal_strlit("leaf");
    reveal_strlit("op");
    reveal_strlit("bal");
    match n {
        AudioNode::Mix { balance: v_balance, a: v_a, b: v_b } => {
            let e = spec_put(base, key, "leaf"@, SiteValue::Flag(false));
            let e = spec_put(e, key, "op"@, SiteValue::Index(0));
            let e = spec_put(e, key, "bal"@, SiteValue::Real(v_balance));
            let k0 = spec_child_key(key, 0);
            lemma_encode_node_frame(*v_a, k0, e);
            let e0 = spec_encode_node(*v_a, k0, e);
            let k1 = spec_child_key(key, 1);
            lemma_encode_node_frame(*v_b, k1, e0);
            let e1 = spec_encode_node(*v_b, k1, e0);
            assert forall|a: Seq<char>| #[trigger] below(a, k0) implies spec_lookup(t, a) == spec_lookup(e0, a) by {}
            lemma_decode_encoded_node(t, k0, *v_a, e);
            assert forall|a: Seq<char>| #[trigger] below(a, k1) implies spec_lookup(t, a) == spec_lookup(e1, a) by {}
            lemma_decode_encoded_node(t, k1, *v_b, e0);
            assert(read_flag(t, key, "leaf"@) == Some(false));
            assert(read_index(t, key, "op"@) == Some(0usize));
            assert(read_real(t, key, "bal"@) == Some(v_balance));
            assert(t.dom().contains(spec_address(key, "op"@)));
            assert(spec_decode_node(t, key) == spec_decode_processor(t, key));
            assert(spec_decode_processor(t, key) == spec_decode_mix(t, key));
        },
        _ => {},
    }
}

/// Reading back a recorded filter gives it back.
#[verifier::rlimit(40)]
proof fn lemma_decode_encoded_filter(
    t: Map<Seq<char>, SiteValue>,
    key: Seq<char>,
    n: AudioNode,
    base: Map<Seq<char>, SiteValue>,
)
    requires
        n is Filter,
        t.dom().finite(),
        is_plain(key),
        octaves_encodable(n),
        idle_knobs_zero_node(n),
        forall|a: Seq<char>|
            #[trigger] below(a, key) ==> spec_lookup(t, a) == spec_lookup(
                spec_encode_node(n, key, base),
                a,
            ),
    ensures
        spec_decode_node(t, key) == Decoded::Value(n),
    decreases n, 0nat,
{
    lemma_layout(key);
    lemma_address_injective_forall(key);
    reveal_strlit("leaf");
    reveal_strlit("op");
    reveal_strlit("fkind");
    reveal_strlit("cut");
    reveal_strlit("res");
    reveal_strlit("mdepth");
    match n {
        AudioNode::Filter { kind: v_kind, cutoff: v_cutoff, resonance: v_resonance, mod_depth: v_mod_depth, input: v_input, modulation: v_modulation } => {
            lemma_index_round_trip_filterkind(v_kind);
            let e = spec_put(base, key, "leaf"@, SiteValue::Flag(false));
            let e = spec_put(e, key, "op"@, SiteValue::Index(1));
            let e = spec_put(e, key, "fkind"@, SiteValue::Index(v_kind.spec_index() as usize));
            let e = spec_put(e, key, "cut"@, SiteValue::Real(v_cutoff));
            let e = spec_put(e, key, "res"@, SiteValue::Real(v_resonance));
            let e = spec_put(e, key, "mdepth"@, SiteValue::Real(v_mod_depth));
            let km = spec_mod_key(key);
            lemma_encode_mod_frame(v_modulation, km, e);
            let em = spec_encode_mod(v_modulation, km, e);
            let k0 = spec_child_key(key, 0);
            lemma_encode_node_frame(*v_input, k0, em);
            let e0 = spec_encode_node(*v_input, k0, em);
            assert forall|a: Seq<char>| #[trigger] below(a, km) implies spec_lookup(t, a) == spec_lookup(em, a) by {}
            lemma_decode_encoded_mod(t, km, v_modulation, e);
            assert forall|a: Seq<char>| #[trigger] below(a, k0) implies spec_lookup(t, a) == spec_lookup(e0, a) by {}
            lemma_decode_encoded_node(t, k0, *v_input, em);
            assert("cut"@[0] != "res"@[0]);
            assert(read_flag(t, key, "leaf"@) == Some(false));
            assert(read_index(t, key, "op"@) == Some(1usize));
            assert(read_index(t, key, "fkind"@) == Some(v_kind.spec_index() as usize));
            assert(read_real(t, key, "cut"@) == Some(v_cutoff));
            assert(read_real(t, key, "res"@) == Some(v_resonance));
            assert(read_real(t, key, "mdepth"@) == Some(v_mod_depth));
            assert(t.dom().contains(spec_address(key, "op"@)));
            assert(spec_decode_node(t, key) == spec_decode_processor(t, key));
            assert(spec_decode_processor(t, key) == spec_decode_filter(t, key));
        },
        _ => {},
    }
}

/// Reading back a recorded fold gives it back.
#[verifier::rlimit(40)]
proof fn lemma_decode_encoded_fold(
    t: Map<Seq<char>, SiteValue>,
    key: Seq<char>,
    n: AudioNode,
    base: Map<Seq<char>, SiteValue>,
)
    requires
        n is Fold,
        t.dom().finite(),
        is_plain(key),
        octaves_encodable(n),
        idle_knobs_zero_node(n),
        forall|a: Seq<char>|
            #[trigger] below(a, key) ==> spec_lookup(t, a) == spec_lookup(
                spec_encode_node(n, key, base),
                a,
            ),
    ensures
        spec_decode_node(t, key) == Decoded::Value(n),
    decreases n, 0nat,
{
    lemma_layout(key);
    lemma_address_injective_forall(key);
    reveal_strlit("leaf");
    reveal_strlit("op");
    reveal_strlit("thresh");
    reveal_strlit("mdepth");
    match n {
        AudioNode::Fold { threshold: v_threshold, mod_depth: v_mod_depth, input: v_input, modulation: v_modulation } => {
            let e = spec_put(base, key, "leaf"@, SiteValue::Flag(false));
            let e = spec_put(e, key, "op"@, SiteValue::Index(2));
            let e = spec_put(e, key, "thresh"@, SiteValue::Real(v_threshold));
            let e = spec_put(e, key, "mdepth"@, SiteValue::Real(v_mod_depth));
            let km = spec_mod_key(key);
            lemma_encode_mod_frame(v_modulation, km, e);
            let em = spec_encode_mod(v_modulation, km, e);
            let k0 = spec_child_key(key, 0);
            lemma_encode_node_frame(*v_input, k0, em);
            let e0 = spec_encode_node(*v_input, k0, em);
            assert forall|a: Seq<char>| #[trigger] below(a, km) implies spec_lookup(t, a) == spec_lookup(em, a) by {}
            lemma_decode_encoded_mod(t, km, v_modulation, e);
            assert forall|a: Seq<char>| #[trigger] below(a, k0) implies spec_lookup(t, a) == spec_lookup(e0, a) by {}
            lemma_decode_encoded_node(t, k0, *v_input, em);
            assert("thresh"@[0] != "mdepth"@[0]);
            assert(read_flag(t, key, "leaf"@) == Some(false));
            assert(read_index(t, key, "op"@) == Some(2usize));
            assert(read_real(t, key, "thresh"@) == Some(v_threshold));
            assert(read_real(t, key, "mdepth"@) == Some(v_mod_depth));
            assert(t.dom().contains(spec_address(key, "op"@)));
            assert(spec_decode_node(t, key) == spec_decode_processor(t, key));
            assert(spec_decode_processor(t, key) == spec_decode_fold(t, key));
        },
        _ => {},
    }
}

/// Reading back a recorded delay gives it back.
#[verifier::rlimit(40)]
proof fn lemma_decode_encoded_delay(
    t: Map<Seq<char>, SiteValue>,
    key: Seq<char>,
    n: AudioNode,
    base: Map<Seq<char>, SiteValue>,
)
    requires
        n is Delay,
        t.dom().finite(),
        is_plain(key),
        octaves_encodable(n),
        idle_knobs_zero_node(n),
        forall|a: Seq<char>|
            #[trigger] below(a, key) ==> spec_lookup(t, a) == spec_lookup(
                spec_encode_node(n, key, base),
                a,
            ),
    ensures
        spec_decode_node(t, key) == Decoded::Value(n),
    decreases n, 0nat,
{
    lemma_layout(key);
    lemma_address_injective_forall(key);
    reveal_strlit("leaf");
    reveal_strlit("op");
    reveal_strlit("time");
    reveal_strlit("fb");
    reveal_strlit("dmix");
    reveal_strlit("mdepth");
    match n {
        AudioNode::Delay { time: v_time, feedback: v_feedback, mix: v_mix, mod_depth: v_mod_depth, input: v_input, modulation: v_modulation } => {
            let e = spec_put(base, key, "leaf"@, SiteValue::Flag(false));
            let e = spec_put(e, key, "op"@, SiteValue::Index(3));
            let e = spec_put(e, key, "time"@, SiteValue::Real(v_time));
            let e = spec_put(e, key, "fb"@, SiteValue::Real(v_feedback));
            let e = spec_put(e, key, "dmix"@, SiteValue::Real(v_mix));
            let e = spec_put(e, key, "mdepth"@, SiteValue::Real(v_mod_depth));
            let km = spec_mod_key(key);
            lemma_encode_mod_frame(v_modulation, km, e);
            let em = spec_encode_mod(v_modulation, km, e);
            let k0 = spec_child_key(key, 0);
            lemma_encode_node_frame(*v_input, k0, em);
            let e0 = spec_encode_node(*v_input, k0, em);
            assert forall|a: Seq<char>| #[trigger] below(a, km) implies spec_lookup(t, a) == spec_lookup(em, a) by {}
            lemma_decode_encoded_mod(t, km, v_modulation, e);
            assert forall|a: Seq<char>| #[trigger] below(a, k0) implies spec_lookup(t, a) == spec_lookup(e0, a) by {}
            lemma_decode_encoded_node(t, k0, *v_input, em);
            assert("leaf"@[0] != "time"@[0]);
            assert("leaf"@[0] != "dmix"@[0]);
            assert("op"@[0] != "fb"@[0]);
            assert("time"@[0] != "dmix"@[0]);
            assert(read_flag(t, key, "leaf"@) == Some(false));
            assert(read_index(t, key, "op"@) == Some(3usize));
            assert(read_real(t, key, "time"@) == Some(v_time));
            assert(read_real(t, key, "fb"@) == Some(v_feedback));
            assert(read_real(t, key, "dmix"@) == Some(v_mix));
            assert(read_real(t, key, "mdepth"@) == Some(v_mod_depth));
            assert(t.dom().contains(spec_address(key, "op"@)));
            assert(spec_decode_node(t, key) == spec_decode_processor(t, key));
            assert(spec_decode_processor(t, key) == spec_decode_delay(t, key));
        },
        _ => {},
    }
}

/// Reading back a recorded chorus gives it back.
#[verifier::rlimit(40)]
proof fn lemma_decode_encoded_chorus(
    t: Map<Seq<char>, SiteValue>,
    key: Seq<char>,
    n: AudioNode,
    base: Map<Seq<char>, SiteValue>,
)
    requires
        n is Chorus,
        t.dom().finite(),
        is_plain(key),
        octaves_encodable(n),
        idle_knobs_zero_node(n),
        forall|a: Seq<char>|
            #[trigger] below(a, key) ==> spec_lookup(t, a) == spec_lookup(
                spec_encode_node(n, key, base),
                a,
            ),
    ensures
        spec_decode_node(t, key) == Decoded::Value(n),
    decreases n, 0nat,
{
    lemma_layout(key);
    lemma_address_injective_forall(key);
    reveal_strlit("leaf");
    reveal_strlit("op");
    reveal_strlit("crate");
    reveal_strlit("cdepth");
    reveal_strlit("cmix");
    reveal_strlit("mdepth");
    match n {
        AudioNode::Chorus { rate: v_rate, depth: v_depth, mix: v_mix, mod_depth: v_mod_depth, input: v_input, modulation: v_modulation } => {
            let e = spec_put(base, key, "leaf"@, SiteValue::Flag(false));
            let e = spec_put(e, key, "op"@, SiteValue::Index(4));
            let e = spec_put(e, key, "crate"@, SiteValue::Real(v_rate));
            let e = spec_put(e, key, "cdepth"@, SiteValue::Real(v_depth));
            let e = spec_put(e, key, "cmix"@, SiteValue::Real(v_mix));
            let e = spec_put(e, key, "mdepth"@, SiteValue::Real(v_mod_depth));
            let km = spec_mod_key(key);
            lemma_encode_mod_frame(v_modulation, km, e);
            let em = spec_encode_mod(v_modulation, km, e);
            let k0 = spec_child_key(key, 0);
            lemma_encode_node_frame(*v_input, k0, em);
            let e0 = spec_encode_node(*v_input, k0, em);
            assert forall|a: Seq<char>| #[trigger] below(a, km) implies spec_lookup(t, a) == spec_lookup(em, a) by {}
            lemma_decode_encoded_mod(t, km, v_modulation, e);
            assert forall|a: Seq<char>| #[trigger] below(a, k0) implies spec_lookup(t, a) == spec_lookup(e0, a) by {}
            lemma_decode_encoded_node(t, k0, *v_input, em);
            assert("leaf"@[0] != "cmix"@[0]);
            assert("cdepth"@[0] != "mdepth"@[0]);
            assert(read_flag(t, key, "leaf"@) == Some(false));
            assert(read_index(t, key, "op"@) == Some(4usize));
            assert(read_real(t, key, "crate"@) == Some(v_rate));
            assert(read_real(t, key, "cdepth"@) == Some(v_depth));
            assert(read_real(t, key, "cmix"@) == Some(v_mix));
            assert(read_real(t, key, "mdepth"@) == Some(v_mod_depth));
            assert(t.dom().contains(spec_address(key, "op"@)));
            assert(spec_decode_node(t, key) == spec_decode_processor(t, key));
            assert(spec_decode_processor(t, key) == spec_decode_chorus(t, key));
        },
        _ => {},
    }
}

/// Reading back a recorded reverb gives it back.
#[verifier::rlimit(40)]
proof fn lemma_decode_encoded_reverb(
    t: Map<Seq<char>, SiteValue>,
    key: Seq<char>,
    n: AudioNode,
    base: Map<Seq<char>, SiteValue>,
)
    requires
        n is Reverb,
        t.dom().finite(),
        is_plain(key),
        octaves_encodable(n),
        idle_knobs_zero_node(n),
        forall|a: Seq<char>|
            #[trigger] below(a, key) ==> spec_lookup(t, a) == spec_lookup(
                spec_encode_node(n, key, base),
                a,
            ),
    ensures
        spec_decode_node(t, key) == Decoded::Value(n),
    decreases n, 0nat,
{
    lemma_layout(key);
    lemma_address_injective_forall(key);
    reveal_strlit("leaf");
    reveal_strlit("op");
    reveal_strlit("rsize");
    reveal_strlit("rdamp");
    reveal_strlit("rmix");
    reveal_strlit("mdepth");
    match n {
        AudioNode::Reverb { size: v_size, damp: v_damp, mix: v_mix, mod_depth: v_mod_depth, input: v_input, modulation: v_modulation } => {
            let e = spec_put(base, key, "leaf"@, SiteValue::Flag(false));
            let e = spec_put(e, key, "op"@, SiteValue::Index(5));
            let e = spec_put(e, key, "rsize"@, SiteValue::Real(v_size));
            let e = spec_put(e, key, "rdamp"@, SiteValue::Real(v_damp));
            let e = spec_put(e, key, "rmix"@, SiteValue::Real(v_mix));
            let e = spec_put(e, key, "mdepth"@, SiteValue::Real(v_mod_depth));
            let km = spec_mod_key(key);
            lemma_encode_mod_frame(v_modulation, km, e);
            let em = spec_encode_mod(v_modulation, km, e);
            let k0 = spec_child_key(key, 0);
            lemma_encode_node_frame(*v_input, k0, em);
            let e0 = spec_encode_node(*v_input, k0, em);
            assert forall|a: Seq<char>| #[trigger] below(a, km) implies spec_lookup(t, a) == spec_lookup(em, a) by {}
            lemma_decode_encoded_mod(t, km, v_modulation, e);
            assert forall|a: Seq<char>| #[trigger] below(a, k0) implies spec_lookup(t, a) == spec_lookup(e0, a) by {}
            lemma_decode_encoded_node(t, k0, *v_input, em);
            assert("leaf"@[0] != "rmix"@[0]);
            assert("rsize"@[1] != "rdamp"@[1]);
            assert(read_flag(t, key, "leaf"@) == Some(false));
            assert(read_index(t, key, "op"@) == Some(5usize));
            assert(read_real(t, key, "rsize"@) == Some(v_size));
            assert(read_real(t, key, "rdamp"@) == Some(v_damp));
            assert(read_real(t, key, "rmix"@) == Some(v_mix));
            assert(read_real(t, key, "mdepth"@) == Some(v_mod_depth));
            assert(t.dom().contains(spec_address(key, "op"@)));
            assert(spec_decode_node(t, key) == spec_decode_processor(t, key));
            assert(spec_decode_processor(t, key) == spec_decode_reverb(t, key));
        },
        _ => {},
    }
}

/// Reading back a recorded distortion gives it back.
#[verifier::rlimit(40)]
proof fn lemma_decode_encoded_distortion(
    t: Map<Seq<char>, SiteValue>,
    key: Seq<char>,
    n: AudioNode,
    base: Map<Seq<char>, SiteValue>,
)
    requires
        n is Distortion,
        t.dom().finite(),
        is_plain(key),
        octaves_encodable(n),
        idle_knobs_zero_node(n),
        forall|a: Seq<char>|
            #[trigger] below(a, key) ==> spec_lookup(t, a) == spec_lookup(
                spec_encode_node(n, key, base),
                a,
            ),
    ensures
        spec_decode_node(t, key) == Decoded::Value(n),
    decreases n, 0nat,
{
    lemma_layout(key);
    lemma_address_injective_forall(key);
    reveal_strlit("leaf");
    reveal_strlit("op");
    reveal_strlit("drive");
    reveal_strlit("tone");
    reveal_strlit("dmode");
    reveal_strlit("mdepth");
    match n {
        AudioNode::Distortion { drive: v_drive, tone: v_tone, mode: v_mode, mod_depth: v_mod_depth, input: v_input, modulation: v_modulation } => {
            lemma_index_round_trip_drivemode(v_mode);
            let e = spec_put(base, key, "leaf"@, SiteValue::Flag(false));
            let e = spec_put(e, key, "op"@, SiteValue::Index(6));
            let e = spec_put(e, key, "drive"@, SiteValue::Real(v_drive));
            let e = spec_put(e, key, "tone"@, SiteValue::Real(v_tone));
            let e = spec_put(e, key, "dmode"@, SiteValue::Index(v_mode.spec_index() as usize));
            let e = spec_put(e, key, "mdepth"@, SiteValue::Real(v_mod_depth));
            let km = spec_mod_key(key);
            lemma_encode_mod_frame(v_modulation, km, e);
            let em = spec_encode_mod(v_modulation, km, e);
            let k0 = spec_child_key(key, 0);
            lemma_encode_node_frame(*v_input, k0, em);
            let e0 = spec_encode_node(*v_input, k0, em);
            assert forall|a: Seq<char>| #[trigger] below(a, km) implies spec_lookup(t, a) == spec_lookup(em, a) by {}
            lemma_decode_encoded_mod(t, km, v_modulation, e);
            assert forall|a: Seq<char>| #[trigger] below(a, k0) implies spec_lookup(t, a) == spec_lookup(e0, a) by {}
            lemma_decode_encoded_node(t, k0, *v_input, em);
            assert("leaf"@[0] != "tone"@[0]);
            assert("drive"@[1] != "dmode"@[1]);
            assert(read_flag(t, key, "leaf"@) == Some(false));
            assert(read_index(t, key, "op"@) == Some(6usize));
            assert(read_real(t, key, "drive"@) == Some(v_drive));
            assert(read_real(t, key, "tone"@) == Some(v_tone));
            assert(read_index(t, key, "dmode"@) == Some(v_mode.spec_index() as usize));
            assert(read_real(t, key, "mdepth"@) == Some(v_mod_depth));
            assert(t.dom().contains(spec_address(key, "op"@)));
            assert(spec_decode_node(t, key) == spec_decode_processor(t, key));
            assert(spec_decode_processor(t, key) == spec_decode_distortion(t, key));
        },
        _ => {},
    }
}

/// Reading back a recorded bitcrush gives it back.
#[verifier::rlimit(40)]
proof fn lemma_decode_encoded_bitcrush(
    t: Map<Seq<char>, SiteValue>,
    key: Seq<char>,
    n: AudioNode,
    base: Map<Seq<char>, SiteValue>,
)
    requires
        n is Bitcrush,
        t.dom().finite(),
        is_plain(key),
        octaves_encodable(n),
        idle_knobs_zero_node(n),
        forall|a: Seq<char>|
            #[trigger] below(a, key) ==> spec_lookup(t, a) == spec_lookup(
                spec_encode_node(n, key, base),
                a,
            ),
    ensures
        spec_decode_node(t, key) == Decoded::Value(n),
    decreases n, 0nat,
{
    lemma_layout(key);
    lemma_address_injective_forall(key);
    reveal_strlit("leaf");
    reveal_strlit("op");
    reveal_strlit("bits");
    reveal_strlit("dsamp");
    reveal_strlit("mdepth");
    match n {
        AudioNode::Bitcrush { bits: v_bits, downsample: v_downsample, mod_depth: v_mod_depth, input: v_input, modulation: v_modulation } => {
            let e = spec_put(base, key, "leaf"@, SiteValue::Flag(false));
            let e = spec_put(e, key, "op"@, SiteValue::Index(7));
            let e = spec_put(e, key, "bits"@, SiteValue::Real(v_bits));
            let e = spec_put(e, key, "dsamp"@, SiteValue::Real(v_downsample));
            let e = spec_put(e, key, "mdepth"@, SiteValue::Real(v_mod_depth));
            let km = spec_mod_key(key);
            lemma_encode_mod_frame(v_modulation, km, e);
            let em = spec_encode_mod(v_modulation, km, e);
            let k0 = spec_child_key(key, 0);
            lemma_encode_node_frame(*v_input, k0, em);
            let e0 = spec_encode_node(*v_input, k0, em);
            assert forall|a: Seq<char>| #[trigger] below(a, km) implies spec_lookup(t, a) == spec_lookup(em, a) by {}
            lemma_decode_encoded_mod(t, km, v_modulation, e);
            assert forall|a: Seq<char>| #[trigger] below(a, k0) implies spec_lookup(t, a) == spec_lookup(e0, a) by {}
            lemma_decode_encoded_node(t, k0, *v_input, em);
            assert("leaf"@[0] != "bits"@[0]);
            assert(read_flag(t, key, "leaf"@) == Some(false));
            assert(read_index(t, key, "op"@) == Some(7usize));
            assert(read_real(t, key, "bits"@) == Some(v_bits));
            assert(read_real(t, key, "dsamp"@) == Some(v_downsample));
            assert(read_real(t, key, "mdepth"@) == Some(v_mod_depth));
            assert(t.dom().contains(spec_address(key, "op"@)));
            assert(spec_decode_node(t, key) == spec_decode_processor(t, key));
            assert(spec_decode_processor(t, key) == spec_decode_bitcrush(t, key));
        },
        _ => {},
    }
}

/// Reading back a recorded phaser gives it back.
#[verifier::rlimit(40)]
proof fn lemma_decode_encoded_phaser(
    t: Map<Seq<char>, SiteValue>,
    key: Seq<char>,
    n: AudioNode,
    base: Map<Seq<char>, SiteValue>,
)
    requires
        n is Phaser,
        t.dom().finite(),
        is_plain(key),
        octaves_encodable(n),
        idle_knobs_zero_node(n),
        forall|a: Seq<char>|
            #[trigger] below(a, key) ==> spec_lookup(t, a) == spec_lookup(
                spec_encode_node(n, key, base),
                a,
            ),
    ensures
        spec_decode_node(t, key) == Decoded::Value(n),
    decreases n, 0nat,
{
    lemma_layout(key);
    lemma_address_injective_forall(key);
    reveal_strlit("leaf");
    reveal_strlit("op");
    reveal_strlit("prate");
    reveal_strlit("pdepth");
    reveal_strlit("pfb");
    reveal_strlit("mdepth");
    match n {
        AudioNode::Phaser { rate: v_rate, depth: v_depth, feedback: v_feedback, mod_depth: v_mod_depth, input: v_input, modulation: v_modulation } => {
            let e = spec_put(base, key, "leaf"@, SiteValue::Flag(false));
            let e = spec_put(e, key, "op"@, SiteValue::Index(8));
            let e = spec_put(e, key, "prate"@, SiteValue::Real(v_rate));
            let e = spec_put(e, key, "pdepth"@, SiteValue::Real(v_depth));
            let e = spec_put(e, key, "pfb"@, SiteValue::Real(v_feedback));
            let e = spec_put(e, key, "mdepth"@, SiteValue::Real(v_mod_depth));
            let km = spec_mod_key(key);
            lemma_encode_mod_frame(v_modulation, km, e);
            let em = spec_encode_mod(v_modulation, km, e);
            let k0 = spec_child_key(key, 0);
            lemma_encode_node_frame(*v_input, k0, em);
            let e0 = spec_encode_node(*v_input, k0, em);
            assert forall|a: Seq<char>| #[trigger] below(a, km) implies spec_lookup(t, a) == spec_lookup(em, a) by {}
            lemma_decode_encoded_mod(t, km, v_modulation, e);
            assert forall|a: Seq<char>| #[trigger] below(a, k0) implies spec_lookup(t, a) == spec_lookup(e0, a) by {}
            lemma_decode_encoded_node(t, k0, *v_input, em);
            assert("pdepth"@[0] != "mdepth"@[0]);
            assert(read_flag(t, key, "leaf"@) == Some(false));
            assert(read_index(t, key, "op"@) == Some(8usize));
            assert(read_real(t, key, "prate"@) == Some(v_rate));
            assert(read_real(t, key, "pdepth"@) == Some(v_depth));
            assert(read_real(t, key, "pfb"@) == Some(v_feedback));
            assert(read_real(t, key, "mdepth"@) == Some(v_mod_depth));
            assert(t.dom().contains(spec_address(key, "op"@)));
            assert(spec_decode_node(t, key) == spec_decode_processor(t, key));
            assert(spec_decode_processor(t, key) == spec_decode_phaser(t, key));
        },
        _ => {},
    }
}

/// Reading back a recorded ringmod gives it back.
#[verifier::rlimit(40)]
proof fn lemma_decode_encoded_ring_mod(
    t: Map<Seq<char>, SiteValue>,
    key: Seq<char>,
    n: AudioNode,
    base: Map<Seq<char>, SiteValue>,
)
    requires
        n is RingMod,
        t.dom().finite(),
        is_plain(key),
        octaves_encodable(n),
        idle_knobs_zero_node(n),
        forall|a: Seq<char>|
            #[trigger] below(a, key) ==> spec_lookup(t, a) == spec_lookup(
                spec_encode_node(n, key, base),
                a,
            ),
    ensures
        spec_decode_node(t, key) == Decoded::Value(n),
    decreases n, 0nat,
{
    lemma_layout(key);
    lemma_address_injective_forall(key);
    reveal_strlit("leaf");
    reveal_strlit("op");
    reveal_strlit("rgmix");
    match n {
        AudioNode::RingMod { mix: v_mix, a: v_a, b: v_b } => {
            let e = spec_put(base, key, "leaf"@, SiteValue::Flag(false));
            let e = spec_put(e, key, "op"@, SiteValue::Index(9));
            let e = spec_put(e, key, "rgmix"@, SiteValue::Real(v_mix));
            let k0 = spec_child_key(key, 0);
            lemma_encode_node_frame(*v_a, k0, e);
            let e0 = spec_encode_node(*v_a, k0, e);
            let k1 = spec_child_key(key, 1);
            lemma_encode_node_frame(*v_b, k1, e0);
            let e1 = spec_encode_node(*v_b, k1, e0);
            assert forall|a: Seq<char>| #[trigger] below(a, k0) implies spec_lookup(t, a) == spec_lookup(e0, a) by {}
            lemma_decode_encoded_node(t, k0, *v_a, e);
            assert forall|a: Seq<char>| #[trigger] below(a, k1) implies spec_lookup(t, a) == spec_lookup(e1, a) by {}
            lemma_decode_encoded_node(t, k1, *v_b, e0);
            assert(read_flag(t, key, "leaf"@) == Some(false));
            assert(read_index(t, key, "op"@) == Some(9usize));
            assert(read_real(t, key, "rgmix"@) == Some(v_mix));
            assert(t.dom().contains(spec_address(key, "op"@)));
            assert(spec_decode_node(t, key) == spec_decode_processor(t, key));
            assert(spec_decode_processor(t, key) == spec_decode_ring_mod(t, key));
        },
        _ => {},
    }
}

/// Reading back a recorded flanger gives it back.
#[verifier::rlimit(40)]
proof fn lemma_decode_encoded_flanger(
    t: Map<Seq<char>, SiteValue>,
    key: Seq<char>,
    n: AudioNode,
    base: Map<Seq<char>, SiteValue>,
)
    requires
        n is Flanger,
        t.dom().finite(),
        is_plain(key),
        octaves_encodable(n),
        idle_knobs_zero_node(n),
        forall|a: Seq<char>|
            #[trigger] below(a, key) ==> spec_lookup(t, a) == spec_lookup(
                spec_encode_node(n, key, base),
                a,
            ),
    ensures
        spec_decode_node(t, key) == Decoded::Value(n),
    decreases n, 0nat,
{
    lemma_layout(key);
    lemma_address_injective_forall(key);
    reveal_strlit("leaf");
    reveal_strlit("op");
    reveal_strlit("frate");
    reveal_strlit("fdepth");
    reveal_strlit("ffb");
    reveal_strlit("mdepth");
    match n {
        AudioNode::Flanger { rate: v_rate, depth: v_depth, feedback: v_feedback, mod_depth: v_mod_depth, input: v_input, modulation: v_modulation } => {
            let e = spec_put(base, key, "leaf"@, SiteValue::Flag(false));
            let e = spec_put(e, key, "op"@, SiteValue::Index(10));
            let e = spec_put(e, key, "frate"@, SiteValue::Real(v_rate));
            let e = spec_put(e, key, "fdepth"@, SiteValue::Real(v_depth));
            let e = spec_put(e, key, "ffb"@, SiteValue::Real(v_feedback));
            let e = spec_put(e, key, "mdepth"@, SiteValue::Real(v_mod_depth));
            let km = spec_mod_key(key);
            lemma_encode_mod_frame(v_modulation, km, e);
            let em = spec_encode_mod(v_modulation, km, e);
            let k0 = spec_child_key(key, 0);
            lemma_encode_node_frame(*v_input, k0, em);
            let e0 = spec_encode_node(*v_input, k0, em);
            assert forall|a: Seq<char>| #[trigger] below(a, km) implies spec_lookup(t, a) == spec_lookup(em, a) by {}
            lemma_decode_encoded_mod(t, km, v_modulation, e);
            assert forall|a: Seq<char>| #[trigger] below(a, k0) implies spec_lookup(t, a) == spec_lookup(e0, a) by {}
            lemma_decode_encoded_node(t, k0, *v_input, em);
            assert("fdepth"@[0] != "mdepth"@[0]);
            assert(read_flag(t, key, "leaf"@) == Some(false));
            assert(read_index(t, key, "op"@) == Some(10usize));
            assert(read_real(t, key, "frate"@) == Some(v_rate));
            assert(read_real(t, key, "fdepth"@) == Some(v_depth));
            assert(read_real(t, key, "ffb"@) == Some(v_feedback));
            assert(read_real(t, key, "mdepth"@) == Some(v_mod_depth));
            assert(t.dom().contains(spec_address(key, "op"@)));
            assert(spec_decode_node(t, key) == spec_decode_processor(t, key));
            assert(spec_decode_processor(t, key) == spec_decode_flanger(t, key));
        },
        _ => {},
    }
}

/// Reading back a recorded tremolo gives it back.
#[verifier::rlimit(40)]
proof fn lemma_decode_encoded_tremolo(
    t: Map<Seq<char>, SiteValue>,
    key: Seq<char>,
    n: AudioNode,
    base: Map<Seq<char>, SiteValue>,
)
    requires
        n is Tremolo,
        t.dom().finite(),
        is_plain(key),
        octaves_encodable(n),
        idle_knobs_zero_node(n),
        forall|a: Seq<char>|
            #[trigger] below(a, key) ==> spec_lookup(t, a) == spec_lookup(
                spec_encode_node(n, key, base),
                a,
            ),
    ensures
        spec_decode_node(t, key) == Decoded::Value(n),
    decreases n, 0nat,
{
    lemma_layout(key);
    lemma_address_injective_forall(key);
    reveal_strlit("leaf");
    reveal_strlit("op");
    reveal_strlit("trate");
    reveal_strlit("tdepth");
    reveal_strlit("tshape");
    reveal_strlit("mdepth");
    match n {
        AudioNode::Tremolo { rate: v_rate, depth: v_depth, shape: v_shape, mod_depth: v_mod_depth, input: v_input, modulation: v_modulation } => {
            let e = spec_put(base, key, "leaf"@, SiteValue::Flag(false));
            let e = spec_put(e, key, "op"@, SiteValue::Index(11));
            let e = spec_put(e, key, "trate"@, SiteValue::Real(v_rate));
            let e = spec_put(e, key, "tdepth"@, SiteValue::Real(v_depth));
            let e = spec_put(e, key, "tshape"@, SiteValue::Real(v_shape));
            let e = spec_put(e, key, "mdepth"@, SiteValue::Real(v_mod_depth));
            let km = spec_mod_key(key);
            lemma_encode_mod_frame(v_modulation, km, e);
            let em = spec_encode_mod(v_modulation, km, e);
            let k0 = spec_child_key(key, 0);
            lemma_encode_node_frame(*v_input, k0, em);
            let e0 = spec_encode_node(*v_input, k0, em);
            assert forall|a: Seq<char>| #[trigger] below(a, km) implies spec_lookup(t, a) == spec_lookup(em, a) by {}
            lemma_decode_encoded_mod(t, km, v_modulation, e);
            assert forall|a: Seq<char>| #[trigger] below(a, k0) implies spec_lookup(t, a) == spec_lookup(e0, a) by {}
            lemma_decode_encoded_node(t, k0, *v_input, em);
            assert("tdepth"@[1] != "tshape"@[1]);
            assert("tdepth"@[0] != "mdepth"@[0]);
            assert("tshape"@[0] != "mdepth"@[0]);
            assert(read_flag(t, key, "leaf"@) == Some(false));
            assert(read_index(t, key, "op"@) == Some(11usize));
            assert(read_real(t, key, "trate"@) == Some(v_rate));
            assert(read_real(t, key, "tdepth"@) == Some(v_depth));
            assert(read_real(t, key, "tshape"@) == Some(v_shape));
            assert(read_real(t, key, "mdepth"@) == Some(v_mod_depth));
            assert(t.dom().contains(spec_address(key, "op"@)));
            assert(spec_decode_node(t, key) == spec_decode_processor(t, key));
            assert(spec_decode_processor(t, key) == spec_decode_tremolo(t, key));
        },
        _ => {},
    }
}

/// Reading back a recorded vibrato gives it back.
#[verifier::rlimit(40)]
proof fn lemma_decode_encoded_vibrato(
    t: Map<Seq<char>, SiteValue>,
    key: Seq<char>,
    n: AudioNode,
    base: Map<Seq<char>, SiteValue>,
)
    requires
        n is Vibrato,
        t.dom().finite(),
        is_plain(key),
        octaves_encodable(n),
        idle_knobs_zero_node(n),
        forall|a: Seq<char>|
            #[trigger] below(a, key) ==> spec_lookup(t, a) == spec_lookup(
                spec_encode_node(n, key, base),
                a,
            ),
    ensures
        spec_decode_node(t, key) == Decoded::Value(n),
    decreases n, 0nat,
{
    lemma_layout(key);
    lemma_address_injective_forall(key);
    reveal_strlit("leaf");
    reveal_strlit("op");
    reveal_strlit("vrate");
    reveal_strlit("vdepth");
    reveal_strlit("vmix");
    reveal_strlit("mdepth");
    match n {
        AudioNode::Vibrato { rate: v_rate, depth: v_depth, mix: v_mix, mod_depth: v_mod_depth, input: v_input, modulation: v_modulation } => {
            let e = spec_put(base, key, "leaf"@, SiteValue::Flag(false));
            let e = spec_put(e, key, "op"@, SiteValue::Index(12));
            let e = spec_put(e, key, "vrate"@, SiteValue::Real(v_rate));
            let e = spec_put(e, key, "vdepth"@, SiteValue::Real(v_depth));
            let e = spec_put(e, key, "vmix"@, SiteValue::Real(v_mix));
            let e = spec_put(e, key, "mdepth"@, SiteValue::Real(v_mod_depth));
            let km = spec_mod_key(key);
            lemma_encode_mod_frame(v_modulation, km, e);
            let em = spec_encode_mod(v_modulation, km, e);
            let k0 = spec_child_key(key, 0);
            lemma_encode_node_frame(*v_input, k0, em);
            let e0 = spec_encode_node(*v_input, k0, em);
            assert forall|a: Seq<char>| #[trigger] below(a, km) implies spec_lookup(t, a) == spec_lookup(em, a) by {}
            lemma_decode_encoded_mod(t, km, v_modulation, e);
            assert forall|a: Seq<char>| #[trigger] below(a, k0) implies spec_lookup(t, a) == spec_lookup(e0, a) by {}
            lemma_decode_encoded_node(t, k0, *v_input, em);
            assert("leaf"@[0] != "vmix"@[0]);
            assert("vdepth"@[0] != "mdepth"@[0]);
            assert(read_flag(t, key, "leaf"@) == Some(false));
            assert(read_index(t, key, "op"@) == Some(12usize));
            assert(read_real(t, key, "vrate"@) == Some(v_rate));
            assert(read_real(t, key, "vdepth"@) == Some(v_depth));
            assert(read_real(t, key, "vmix"@) == Some(v_mix));
            assert(read_real(t, key, "mdepth"@) == Some(v_mod_depth));
            assert(t.dom().contains(spec_address(key, "op"@)));
            assert(spec_decode_node(t, key) == spec_decode_processor(t, key));
            assert(spec_decode_processor(t, key) == spec_decode_vibrato(t, key));
        },
        _ => {},
    }
}

/// Reading back a recorded eq gives it back.
#[verifier::rlimit(40)]
proof fn lemma_decode_encoded_eq(
    t: Map<Seq<char>, SiteValue>,
    key: Seq<char>,
    n: AudioNode,
    base: Map<Seq<char>, SiteValue>,
)
    requires
        n is Eq,
        t.dom().finite(),
        is_plain(key),
        octaves_encodable(n),
        idle_knobs_zero_node(n),
        forall|a: Seq<char>|
            #[trigger] below(a, key) ==> spec_lookup(t, a) == spec_lookup(
                spec_encode_node(n, key, base),
                a,
            ),
    ensures
        spec_decode_node(t, key) == Decoded::Value(n),
    decreases n, 0nat,
{
    lemma_layout(key);
    lemma_address_injective_forall(key);
    reveal_strlit("leaf");
    reveal_strlit("op");
    reveal_strlit("low");
    reveal_strlit("mid");
    reveal_strlit("high");
    reveal_strlit("mdepth");
    match n {
        AudioNode::Eq { low: v_low, mid: v_mid, high: v_high, mod_depth: v_mod_depth, input: v_input, modulation: v_modulation } => {
            let e = spec_put(base, key, "leaf"@, SiteValue::Flag(false));
            let e = spec_put(e, key, "op"@, SiteValue::Index(13));
            let e = spec_put(e, key, "low"@, SiteValue::Real(v_low));
            let e = spec_put(e, key, "mid"@, SiteValue::Real(v_mid));
            let e = spec_put(e, key, "high"@, SiteValue::Real(v_high));
            let e = spec_put(e, key, "mdepth"@, SiteValue::Real(v_mod_depth));
            let km = spec_mod_key(key);
            lemma_encode_mod_frame(v_modulation, km, e);
            let em = spec_encode_mod(v_modulation, km, e);
            let k0 = spec_child_key(key, 0);
            lemma_encode_node_frame(*v_input, k0, em);
            let e0 = spec_encode_node(*v_input, k0, em);
            assert forall|a: Seq<char>| #[trigger] below(a, km) implies spec_lookup(t, a) == spec_lookup(em, a) by {}
            lemma_decode_encoded_mod(t, km, v_modulation, e);
            assert forall|a: Seq<char>| #[trigger] below(a, k0) implies spec_lookup(t, a) == spec_lookup(e0, a) by {}
            lemma_decode_encoded_node(t, k0, *v_input, em);
            assert("leaf"@[0] != "high"@[0]);
            assert("low"@[0] != "mid"@[0]);
            assert(read_flag(t, key, "leaf"@) == Some(false));
            assert(read_index(t, key, "op"@) == Some(13usize));
            assert(read_real(t, key, "low"@) == Some(v_low));
            assert(read_real(t, key, "mid"@) == Some(v_mid));
            assert(read_real(t, key, "high"@) == Some(v_high));
            assert(read_real(t, key, "mdepth"@) == Some(v_mod_depth));
            assert(t.dom().contains(spec_address(key, "op"@)));
            assert(spec_decode_node(t, key) == spec_decode_processor(t, key));
            assert(spec_decode_processor(t, key) == spec_decode_eq(t, key));
        },
        _ => {},
    }
}

/// Reading back a recorded granular gives it back.
#[verifier::rlimit(40)]
proof fn lemma_decode_encoded_granular(
    t: Map<Seq<char>, SiteValue>,
    key: Seq<char>,
    n: AudioNode,
    base: Map<Seq<char>, SiteValue>,
)
    requires
        n is Granular,
        t.dom().finite(),
        is_plain(key),
        octaves_encodable(n),
        idle_knobs_zero_node(n),
        forall|a: Seq<char>|
            #[trigger] below(a, key) ==> spec_lookup(t, a) == spec_lookup(
                spec_encode_node(n, key, base),
                a,
            ),
    ensures
        spec_decode_node(t, key) == Decoded::Value(n),
    decreases n, 0nat,
{
    lemma_layout(key);
    lemma_address_injective_forall(key);
    reveal_strlit("leaf");
    reveal_strlit("op");
    reveal_strlit("gpos");
    reveal_strlit("gsize");
    reveal_strlit("gdens");
    reveal_strlit("mdepth");
    match n {
        AudioNode::Granular { position: v_position, size: v_size, density: v_density, mod_depth: v_mod_depth, input: v_input, modulation: v_modulation } => {
            let e = spec_put(base, key, "leaf"@, SiteValue::Flag(false));
            let e = spec_put(e, key, "op"@, SiteValue::Index(14));
            let e = spec_put(e, key, "gpos"@, SiteValue::Real(v_position));
            let e = spec_put(e, key, "gsize"@, SiteValue::Real(v_size));
            let e = spec_put(e, key, "gdens"@, SiteValue::Real(v_density));
            let e = spec_put(e, key, "mdepth"@, SiteValue::Real(v_mod_depth));
            let km = spec_mod_key(key);
            lemma_encode_mod_frame(v_modulation, km, e);
            let em = spec_encode_mod(v_modulation, km, e);
            let k0 = spec_child_key(key, 0);
            lemma_encode_node_frame(*v_input, k0, em);
            let e0 = spec_encode_node(*v_input, k0, em);
            assert forall|a: Seq<char>| #[trigger] below(a, km) implies spec_lookup(t, a) == spec_lookup(em, a) by {}
            lemma_decode_encoded_mod(t, km, v_modulation, e);
            assert forall|a: Seq<char>| #[trigger] below(a, k0) implies spec_lookup(t, a) == spec_lookup(e0, a) by {}
            lemma_decode_encoded_node(t, k0, *v_input, em);
            assert("leaf"@[0] != "gpos"@[0]);
            assert("gsize"@[1] != "gdens"@[1]);
            assert(read_flag(t, key, "leaf"@) == Some(false));
            assert(read_index(t, key, "op"@) == Some(14usize));
            assert(read_real(t, key, "gpos"@) == Some(v_position));
            assert(read_real(t, key, "gsize"@) == Some(v_size));
            assert(read_real(t, key, "gdens"@) == Some(v_density));
            assert(read_real(t, key, "mdepth"@) == Some(v_mod_depth));
            assert(t.dom().contains(spec_address(key, "op"@)));
            assert(spec_decode_node(t, key) == spec_decode_processor(t, key));
            assert(spec_decode_processor(t, key) == spec_decode_granular(t, key));
        },
        _ => {},
    }
}

/// Reading back a recorded shift gives it back.
#[verifier::rlimit(40)]
proof fn lemma_decode_encoded_shift(
    t: Map<Seq<char>, SiteValue>,
    key: Seq<char>,
    n: AudioNode,
    base: Map<Seq<char>, SiteValue>,
)
    requires
        n is Shift,
        t.dom().finite(),
        is_plain(key),
        octaves_encodable(n),
        idle_knobs_zero_node(n),
        forall|a: Seq<char>|
            #[trigger] below(a, key) ==> spec_lookup(t, a) == spec_lookup(
                spec_encode_node(n, key, base),
                a,
            ),
    ensures
        spec_decode_node(t, key) == Decoded::Value(n),
    decreases n, 0nat,
{
    lemma_layout(key);
    lemma_address_injective_forall(key);
    reveal_strlit("leaf");
    reveal_strlit("op");
    reveal_strlit("semis");
    reveal_strlit("window");
    reveal_strlit("smix");
    reveal_strlit("mdepth");
    match n {
        AudioNode::Shift { semis: v_semis, window: v_window, mix: v_mix, mod_depth: v_mod_depth, input: v_input, modulation: v_modulation } => {
            let e = spec_put(base, key, "leaf"@, SiteValue::Flag(false));
            let e = spec_put(e, key, "op"@, SiteValue::Index(15));
            let e = spec_put(e, key, "semis"@, SiteValue::Real(v_semis));
            let e = spec_put(e, key, "window"@, SiteValue::Real(v_window));
            let e = spec_put(e, key, "smix"@, SiteValue::Real(v_mix));
            let e = spec_put(e, key, "mdepth"@, SiteValue::Real(v_mod_depth));
            let km = spec_mod_key(key);
            lemma_encode_mod_frame(v_modulation, km, e);
            let em = spec_encode_mod(v_modulation, km, e);
            let k0 = spec_child_key(key, 0);
            lemma_encode_node_frame(*v_input, k0, em);
            let e0 = spec_encode_node(*v_input, k0, em);
            assert forall|a: Seq<char>| #[trigger] below(a, km) implies spec_lookup(t, a) == spec_lookup(em, a) by {}
            lemma_decode_encoded_mod(t, km, v_modulation, e);
            assert forall|a: Seq<char>| #[trigger] below(a, k0) implies spec_lookup(t, a) == spec_lookup(e0, a) by {}
            lemma_decode_encoded_node(t, k0, *v_input, em);
            assert("leaf"@[0] != "smix"@[0]);
            assert("window"@[0] != "mdepth"@[0]);
            assert(read_flag(t, key, "leaf"@) == Some(false));
            assert(read_index(t, key, "op"@) == Some(15usize));
            assert(read_real(t, key, "semis"@) == Some(v_semis));
            assert(read_real(t, key, "window"@) == Some(v_window));
            assert(read_real(t, key, "smix"@) == Some(v_mix));
            assert(read_real(t, key, "mdepth"@) == Some(v_mod_depth));
            assert(t.dom().contains(spec_address(key, "op"@)));
            assert(spec_decode_node(t, key) == spec_decode_processor(t, key));
            assert(spec_decode_processor(t, key) == spec_decode_shift(t, key));
        },
        _ => {},
    }
}

/// Reading back a recorded comp gives it back.
#[verifier::rlimit(40)]
proof fn lemma_decode_encoded_comp(
    t: Map<Seq<char>, SiteValue>,
    key: Seq<char>,
    n: AudioNode,
    base: Map<Seq<char>, SiteValue>,
)
    requires
        n is Comp,
        t.dom().finite(),
        is_plain(key),
        octaves_encodable(n),
        idle_knobs_zero_node(n),
        forall|a: Seq<char>|
            #[trigger] below(a, key) ==> spec_lookup(t, a) == spec_lookup(
                spec_encode_node(n, key, base),
                a,
            ),
    ensures
        spec_decode_node(t, key) == Decoded::Value(n),
    decreases n, 0nat,
{
    lemma_layout(key);
    lemma_address_injective_forall(key);
    reveal_strlit("leaf");
    reveal_strlit("op");
    reveal_strlit("thresh");
    reveal_strlit("ratio");
    reveal_strlit("makeup");
    reveal_strlit("mdepth");
    match n {
        AudioNode::Comp { threshold: v_threshold, ratio: v_ratio, makeup: v_makeup, mod_depth: v_mod_depth, input: v_input, sidechain: v_sidechain, modulation: v_modulation } => {
            let e = spec_put(base, key, "leaf"@, SiteValue::Flag(false));
            let e = spec_put(e, key, "op"@, SiteValue::Index(16));
            let e = spec_put(e, key, "thresh"@, SiteValue::Real(v_threshold));
            let e = spec_put(e, key, "ratio"@, SiteValue::Real(v_ratio));
            let e = spec_put(e, key, "makeup"@, SiteValue::Real(v_makeup));
            let e = spec_put(e, key, "mdepth"@, SiteValue::Real(v_mod_depth));
            let km = spec_mod_key(key);
            lemma_encode_mod_frame(v_modulation, km, e);
            let em = spec_encode_mod(v_modulation, km, e);
            let k0 = spec_child_key(key, 0);
            lemma_encode_node_frame(*v_input, k0, em);
            let e0 = spec_encode_node(*v_input, k0, em);
            let k1 = spec_child_key(key, 1);
            lemma_encode_node_frame(*v_sidechain, k1, e0);
            let e1 = spec_encode_node(*v_sidechain, k1, e0);
            assert forall|a: Seq<char>| #[trigger] below(a, km) implies spec_lookup(t, a) == spec_lookup(em, a) by {}
            lemma_decode_encoded_mod(t, km, v_modulation, e);
            assert forall|a: Seq<char>| #[trigger] below(a, k0) implies spec_lookup(t, a) == spec_lookup(e0, a) by {}
            lemma_decode_encoded_node(t, k0, *v_input, em);
            assert forall|a: Seq<char>| #[trigger] below(a, k1) implies spec_lookup(t, a) == spec_lookup(e1, a) by {}
            lemma_decode_encoded_node(t, k1, *v_sidechain, e0);
            assert("thresh"@[0] != "makeup"@[0]);
            assert("thresh"@[0] != "mdepth"@[0]);
            assert("makeup"@[1] != "mdepth"@[1]);
            assert(read_flag(t, key, "leaf"@) == Some(false));
            assert(read_index(t, key, "op"@) == Some(16usize));
            assert(read_real(t, key, "thresh"@) == Some(v_threshold));
            assert(read_real(t, key, "ratio"@) == Some(v_ratio));
            assert(read_real(t, key, "makeup"@) == Some(v_makeup));
            assert(read_real(t, key, "mdepth"@) == Some(v_mod_depth));
            assert(t.dom().contains(spec_address(key, "op"@)));
            assert(spec_decode_node(t, key) == spec_decode_processor(t, key));
            assert(spec_decode_processor(t, key) == spec_decode_comp(t, key));
        },
        _ => {},
    }
}

/// Reading back a recorded duck gives it back.
#[verifier::rlimit(40)]
proof fn lemma_decode_encoded_duck(
    t: Map<Seq<char>, SiteValue>,
    key: Seq<char>,
    n: AudioNode,
    base: Map<Seq<char>, SiteValue>,
)
    requires
        n is Duck,
        t.dom().finite(),
        is_plain(key),
        octaves_encodable(n),
        idle_knobs_zero_node(n),
        forall|a: Seq<char>|
            #[trigger] below(a, key) ==> spec_lookup(t, a) == spec_lookup(
                spec_encode_node(n, key, base),
                a,
            ),
    ensures
        spec_decode_node(t, key) == Decoded::Value(n),
    decreases n, 0nat,
{
    lemma_layout(key);
    lemma_address_injective_forall(key);
    reveal_strlit("leaf");
    reveal_strlit("op");
    reveal_strlit("amount");
    reveal_strlit("dthresh");
    reveal_strlit("drel");
    reveal_strlit("mdepth");
    match n {
        AudioNode::Duck { amount: v_amount, threshold: v_threshold, release: v_release, mod_depth: v_mod_depth, input: v_input, key: v_key, modulation: v_modulation } => {
            let e = spec_put(base, key, "leaf"@, SiteValue::Flag(false));
            let e = spec_put(e, key, "op"@, SiteValue::Index(17));
            let e = spec_put(e, key, "amount"@, SiteValue::Real(v_amount));
            let e = spec_put(e, key, "dthresh"@, SiteValue::Real(v_threshold));
            let e = spec_put(e, key, "drel"@, SiteValue::Real(v_release));
            let e = spec_put(e, key, "mdepth"@, SiteValue::Real(v_mod_depth));
            let km = spec_mod_key(key);
            lemma_encode_mod_frame(v_modulation, km, e);
            let em = spec_encode_mod(v_modulation, km, e);
            let k0 = spec_child_key(key, 0);
            lemma_encode_node_frame(*v_input, k0, em);
            let e0 = spec_encode_node(*v_input, k0, em);
            let k1 = spec_child_key(key, 1);
            lemma_encode_node_frame(*v_key, k1, e0);
            let e1 = spec_encode_node(*v_key, k1, e0);
            assert forall|a: Seq<char>| #[trigger] below(a, km) implies spec_lookup(t, a) == spec_lookup(em, a) by {}
            lemma_decode_encoded_mod(t, km, v_modulation, e);
            assert forall|a: Seq<char>| #[trigger] below(a, k0) implies spec_lookup(t, a) == spec_lookup(e0, a) by {}
            lemma_decode_encoded_node(t, k0, *v_input, em);
            assert forall|a: Seq<char>| #[trigger] below(a, k1) implies spec_lookup(t, a) == spec_lookup(e1, a) by {}
            lemma_decode_encoded_node(t, k1, *v_key, e0);
            assert("leaf"@[0] != "drel"@[0]);
            assert("amount"@[0] != "mdepth"@[0]);
            assert(read_flag(t, key, "leaf"@) == Some(false));
            assert(read_index(t, key, "op"@) == Some(17usize));
            assert(read_real(t, key, "amount"@) == Some(v_amount));
            assert(read_real(t, key, "dthresh"@) == Some(v_threshold));
            assert(read_real(t, key, "drel"@) == Some(v_release));
            assert(read_real(t, key, "mdepth"@) == Some(v_mod_depth));
            assert(t.dom().contains(spec_address(key, "op"@)));
            assert(spec_decode_node(t, key) == spec_decode_processor(t, key));
            assert(spec_decode_processor(t, key) == spec_decode_duck(t, key));
        },
        _ => {},
    }
}

/// Reading back a recorded gate gives it back.
#[verifier::rlimit(40)]
proof fn lemma_decode_encoded_gate(
    t: Map<Seq<char>, SiteValue>,
    key: Seq<char>,
    n: AudioNode,
    base: Map<Seq<char>, SiteValue>,
)
    requires
        n is Gate,
        t.dom().finite(),
        is_plain(key),
        octaves_encodable(n),
        idle_knobs_zero_node(n),
        forall|a: Seq<char>|
            #[trigger] below(a, key) ==> spec_lookup(t, a) == spec_lookup(
                spec_encode_node(n, key, base),
                a,
            ),
    ensures
        spec_decode_node(t, key) == Decoded::Value(n),
    decreases n, 0nat,
{
    lemma_layout(key);
    lemma_address_injective_forall(key);
    reveal_strlit("leaf");
    reveal_strlit("op");
    reveal_strlit("gthresh");
    reveal_strlit("range");
    reveal_strlit("grel");
    reveal_strlit("mdepth");
    match n {
        AudioNode::Gate { threshold: v_threshold, range: v_range, release: v_release, mod_depth: v_mod_depth, input: v_input, sidechain: v_sidechain, modulation: v_modulation } => {
            let e = spec_put(base, key, "leaf"@, SiteValue::Flag(false));
            let e = spec_put(e, key, "op"@, SiteValue::Index(18));
            let e = spec_put(e, key, "gthresh"@, SiteValue::Real(v_threshold));
            let e = spec_put(e, key, "range"@, SiteValue::Real(v_range));
            let e = spec_put(e, key, "grel"@, SiteValue::Real(v_release));
            let e = spec_put(e, key, "mdepth"@, SiteValue::Real(v_mod_depth));
            let km = spec_mod_key(key);
            lemma_encode_mod_frame(v_modulation, km, e);
            let em = spec_encode_mod(v_modulation, km, e);
            let k0 = spec_child_key(key, 0);
            lemma_encode_node_frame(*v_input, k0, em);
            let e0 = spec_encode_node(*v_input, k0, em);
            let k1 = spec_child_key(key, 1);
            lemma_encode_node_frame(*v_sidechain, k1, e0);
            let e1 = spec_encode_node(*v_sidechain, k1, e0);
            assert forall|a: Seq<char>| #[trigger] below(a, km) implies spec_lookup(t, a) == spec_lookup(em, a) by {}
            lemma_decode_encoded_mod(t, km, v_modulation, e);
            assert forall|a: Seq<char>| #[trigger] below(a, k0) implies spec_lookup(t, a) == spec_lookup(e0, a) by {}
            lemma_decode_encoded_node(t, k0, *v_input, em);
            assert forall|a: Seq<char>| #[trigger] below(a, k1) implies spec_lookup(t, a) == spec_lookup(e1, a) by {}
            lemma_decode_encoded_node(t, k1, *v_sidechain, e0);
            assert("leaf"@[0] != "grel"@[0]);
            assert(read_flag(t, key, "leaf"@) == Some(false));
            assert(read_index(t, key, "op"@) == Some(18usize));
            assert(read_real(t, key, "gthresh"@) == Some(v_threshold));
            assert(read_real(t, key, "range"@) == Some(v_range));
            assert(read_real(t, key, "grel"@) == Some(v_release));
            assert(read_real(t, key, "mdepth"@) == Some(v_mod_depth));
            assert(t.dom().contains(spec_address(key, "op"@)));
            assert(spec_decode_node(t, key) == spec_decode_processor(t, key));
            assert(spec_decode_processor(t, key) == spec_decode_gate(t, key));
        },
        _ => {},
    }
}

/// Reading back a recorded vocoder gives it back.
#[verifier::rlimit(40)]
proof fn lemma_decode_encoded_vocoder(
    t: Map<Seq<char>, SiteValue>,
    key: Seq<char>,
    n: AudioNode,
    base: Map<Seq<char>, SiteValue>,
)
    requires
        n is Vocoder,
        t.dom().finite(),
        is_plain(key),
        octaves_encodable(n),
        idle_knobs_zero_node(n),
        forall|a: Seq<char>|
            #[trigger] below(a, key) ==> spec_lookup(t, a) == spec_lookup(
                spec_encode_node(n, key, base),
                a,
            ),
    ensures
        spec_decode_node(t, key) == Decoded::Value(n),
    decreases n, 0nat,
{
    lemma_layout(key);
    lemma_address_injective_forall(key);
    reveal_strlit("leaf");
    reveal_strlit("op");
    reveal_strlit("bands");
    reveal_strlit("vatt");
    reveal_strlit("vrel");
    reveal_strlit("mdepth");
    match n {
        AudioNode::Vocoder { bands: v_bands, attack: v_attack, release: v_release, mod_depth: v_mod_depth, carrier: v_carrier, modulator: v_modulator, modulation: v_modulation } => {
            let e = spec_put(base, key, "leaf"@, SiteValue::Flag(false));
            let e = spec_put(e, key, "op"@, SiteValue::Index(19));
            let e = spec_put(e, key, "bands"@, SiteValue::Real(v_bands));
            let e = spec_put(e, key, "vatt"@, SiteValue::Real(v_attack));
            let e = spec_put(e, key, "vrel"@, SiteValue::Real(v_release));
            let e = spec_put(e, key, "mdepth"@, SiteValue::Real(v_mod_depth));
            let km = spec_mod_key(key);
            lemma_encode_mod_frame(v_modulation, km, e);
            let em = spec_encode_mod(v_modulation, km, e);
            let k0 = spec_child_key(key, 0);
            lemma_encode_node_frame(*v_carrier, k0, em);
            let e0 = spec_encode_node(*v_carrier, k0, em);
            let k1 = spec_child_key(key, 1);
            lemma_encode_node_frame(*v_modulator, k1, e0);
            let e1 = spec_encode_node(*v_modulator, k1, e0);
            assert forall|a: Seq<char>| #[trigger] below(a, km) implies spec_lookup(t, a) == spec_lookup(em, a) by {}
            lemma_decode_encoded_mod(t, km, v_modulation, e);
            assert forall|a: Seq<char>| #[trigger] below(a, k0) implies spec_lookup(t, a) == spec_lookup(e0, a) by {}
            lemma_decode_encoded_node(t, k0, *v_carrier, em);
            assert forall|a: Seq<char>| #[trigger] below(a, k1) implies spec_lookup(t, a) == spec_lookup(e1, a) by {}
            lemma_decode_encoded_node(t, k1, *v_modulator, e0);
            assert("leaf"@[0] != "vatt"@[0]);
            assert("leaf"@[0] != "vrel"@[0]);
            assert("vatt"@[1] != "vrel"@[1]);
            assert(read_flag(t, key, "leaf"@) == Some(false));
            assert(read_index(t, key, "op"@) == Some(19usize));
            assert(read_real(t, key, "bands"@) == Some(v_bands));
            assert(read_real(t, key, "vatt"@) == Some(v_attack));
            assert(read_real(t, key, "vrel"@) == Some(v_release));
            assert(read_real(t, key, "mdepth"@) == Some(v_mod_depth));
            assert(t.dom().contains(spec_address(key, "op"@)));
            assert(spec_decode_node(t, key) == spec_decode_processor(t, key));
            assert(spec_decode_processor(t, key) == spec_decode_vocoder(t, key));
        },
        _ => {},
    }
}

/// Reading back the audio term recorded at a plain key gives the term, from
/// any trace that agrees with the recording below that key.
pub proof fn lemma_decode_encoded_node(
    t: Map<Seq<char>, SiteValue>,
    key: Seq<char>,
    n: AudioNode,
    base: Map<Seq<char>, SiteValue>,
)
    requires
        t.dom().finite(),
        is_plain(key),
        octaves_encodable(n),
        idle_knobs_zero_node(n),
        forall|a: Seq<char>|
            #[trigger] below(a, key) ==> spec_lookup(t, a) == spec_lookup(
                spec_encode_node(n, key, base),
                a,
            ),
    ensures
        spec_decode_node(t, key) == Decoded::Value(n),
    decreases n, 1nat,
{
    match n {
        AudioNode::Vco { .. } => lemma_decode_encoded_vco(t, key, n, base),
        AudioNode::Supersaw { .. } => lemma_decode_encoded_supersaw(t, key, n, base),
        AudioNode::Noise { .. } => lemma_decode_encoded_noise(t, key, n, base),
        AudioNode::Wavetable { .. } => lemma_decode_encoded_wavetable(t, key, n, base),
        AudioNode::Pluck { .. } => lemma_decode_encoded_pluck(t, key, n, base),
        AudioNode::Formant { .. } => lemma_decode_encoded_formant(t, key, n, base),
        AudioNode::Mix { .. } => lemma_decode_encoded_mix(t, key, n, base),
        AudioNode::Filter { .. } => lemma_decode_encoded_filter(t, key, n, base),
        AudioNode::Fold { .. } => lemma_decode_encoded_fold(t, key, n, base),
        AudioNode::Delay { .. } => lemma_decode_encoded_delay(t, key, n, base),
        AudioNode::Chorus { .. } => lemma_decode_encoded_chorus(t, key, n, base),
        AudioNode::Reverb { .. } => lemma_decode_encoded_reverb(t, key, n, base),
        AudioNode::Distortion { .. } => lemma_decode_encoded_distortion(t, key, n, base),
        AudioNode::Bitcrush { .. } => lemma_decode_encoded_bitcrush(t, key, n, base),
        AudioNode::Phaser { .. } => lemma_decode_encoded_phaser(t, key, n, base),
        AudioNode::RingMod { .. } => lemma_decode_encoded_ring_mod(t, key, n, base),
        AudioNode::Flanger { .. } => lemma_decode_encoded_flanger(t, key, n, base),
        AudioNode::Tremolo { .. } => lemma_decode_encoded_tremolo(t, key, n, base),
        AudioNode::Vibrato { .. } => lemma_decode_encoded_vibrato(t, key, n, base),
        AudioNode::Eq { .. } => lemma_decode_encoded_eq(t, key, n, base),
        AudioNode::Granular { .. } => lemma_decode_encoded_granular(t, key, n, base),
        AudioNode::Shift { .. } => lemma_decode_encoded_shift(t, key, n, base),
        AudioNode::Comp { .. } => lemma_decode_encoded_comp(t, key, n, base),
        AudioNode::Duck { .. } => lemma_decode_encoded_duck(t, key, n, base),
        AudioNode::Gate { .. } => lemma_decode_encoded_gate(t, key, n, base),
        AudioNode::Vocoder { .. } => lemma_decode_encoded_vocoder(t, key, n, base),
    }
}
/// `t` with the amplitude envelope recorded under `amp`.
pub open spec fn spec_encode_amp(amp: AmpEnv, t: Map<Seq<char>, SiteValue>) -> Map<
    Seq<char>,
    SiteValue,
> {
    let t = spec_put(t, "amp"@, "attack"@, SiteValue::Real(amp.attack));
    let t = spec_put(t, "amp"@, "decay"@, SiteValue::Real(amp.decay));
    let t = spec_put(t, "amp"@, "sustain"@, SiteValue::Real(amp.sustain));
    spec_put(t, "amp"@, "release"@, SiteValue::Real(amp.release))
}

/// The canonical trace of a patch: the envelope under `amp`, then the audio
/// term rooted at `node`.
pub open spec fn spec_to_trace(p: PatchTree) -> Map<Seq<char>, SiteValue> {
    spec_encode_node(p.root, "node"@, spec_encode_amp(p.amp, Map::empty()))
}

/// Read a patch back from a trace.
pub open spec fn spec_from_trace(t: Map<Seq<char>, SiteValue>) -> Decoded<PatchTree> {
    match read_real(t, "amp"@, "attack"@) {
        None => Decoded::Missing(spec_address("amp"@, "attack"@)),
        Some(attack) => match read_real(t, "amp"@, "decay"@) {
            None => Decoded::Missing(spec_address("amp"@, "decay"@)),
            Some(decay) => match read_real(t, "amp"@, "sustain"@) {
                None => Decoded::Missing(spec_address("amp"@, "sustain"@)),
                Some(sustain) => match read_real(t, "amp"@, "release"@) {
                    None => Decoded::Missing(spec_address("amp"@, "release"@)),
                    Some(release) => match spec_decode_node(t, "node"@) {
                        Decoded::Value(root) => Decoded::Value(
                            PatchTree { amp: AmpEnv { attack, decay, sustain, release }, root },
                        ),
                        d => relabel(d),
                    },
                },
            },
        },
    }
}

/// The root key is plain.
proof fn lemma_root_plain()
    ensures
        is_plain("node"@),
        is_plain("amp"@),
{
    reveal_strlit("node");
    reveal_strlit("amp");
}

impl PatchTree {
    /// The canonical trace of this patch.
    pub fn to_trace(&self) -> (t: SiteTrace)
        requires
            octaves_encodable(self.root),
        ensures
            t.choices() == spec_to_trace(*self),
    {
        let mut t = SiteTrace::new();
        put(&mut t, "amp", "attack", SiteValue::Real(self.amp.attack));
        put(&mut t, "amp", "decay", SiteValue::Real(self.amp.decay));
        put(&mut t, "amp", "sustain", SiteValue::Real(self.amp.sustain));
        put(&mut t, "amp", "release", SiteValue::Real(self.amp.release));
        encode_node(&self.root, "node", &mut t);
        t
    }

    /// Read a patch back from a trace, or `None` where an octave index
    /// overflows when read back.
    pub fn try_from_trace(trace: &SiteTrace) -> (r: Option<Result<PatchTree, TraceError>>)
        ensures
            decoded_as(r, spec_from_trace(trace.choices())),
    {
        proof {
            lemma_root_plain();
        }
        let attack = match get_real(trace, "amp", "attack") {
            Ok(b) => b,
            Err(e) => return Some(Err(e)),
        };
        let decay = match get_real(trace, "amp", "decay") {
            Ok(b) => b,
            Err(e) => return Some(Err(e)),
        };
        let sustain = match get_real(trace, "amp", "sustain") {
            Ok(b) => b,
            Err(e) => return Some(Err(e)),
        };
        let release = match get_real(trace, "amp", "release") {
            Ok(b) => b,
            Err(e) => return Some(Err(e)),
        };
        match decode_node(trace, "node") {
            Some(Ok(root)) => Some(
                Ok(PatchTree { amp: AmpEnv { attack, decay, sustain, release }, root }),
            ),
            Some(Err(e)) => Some(Err(e)),
            None => None,
        }
    }

    /// Read a patch back from a trace.
    pub fn from_trace(trace: &SiteTrace) -> (r: Result<PatchTree, TraceError>)
        requires
            !(spec_from_trace(trace.choices()) is Overflow),
        ensures
            decoded_as(Some(r), spec_from_trace(trace.choices())),
    {
        match PatchTree::try_from_trace(trace) {
            Some(r) => r,
            None => {
                assert(false);
                Err(TraceError::InvalidStructure(String::new()))
            },
        }
    }
}

/// Recording a modulation term keeps a finite trace finite.
proof fn lemma_encode_mod_finite(m: ModNode, key: Seq<char>, t: Map<Seq<char>, SiteValue>)
    requires
        t.dom().finite(),
    ensures
        spec_encode_mod(m, key, t).dom().finite(),
    decreases m,
{
    match m {
        ModNode::Op { kind: v_kind, p0: v_p0, p1: v_p1, input: v_input } => {
            let sites = v_kind.spec_param_sites();
            let t = spec_put(t, key, "mod"@, SiteValue::Index(6));
            let t = spec_put(t, key, "modop"@, SiteValue::Index(v_kind.spec_index() as usize));
            let t = spec_put(t, key, sites[0], SiteValue::Real(v_p0));
            let t = if sites.len() > 1 {
                spec_put(t, key, sites[1], SiteValue::Real(v_p1))
            } else {
                t
            };
            lemma_encode_mod_finite(*v_input, spec_child_key(key, 0), t);
        },
        ModNode::Pair { kind: v_kind, a: v_a, b: v_b } => {
            let t = spec_put(t, key, "mod"@, SiteValue::Index(7));
            let t = spec_put(t, key, "pairop"@, SiteValue::Index(v_kind.spec_index() as usize));
            lemma_encode_mod_finite(*v_a, spec_child_key(key, 0), t);
            lemma_encode_mod_finite(
                *v_b,
                spec_child_key(key, 1),
                spec_encode_mod(*v_a, spec_child_key(key, 0), t),
            );
        },
        _ => {},
    }
}

/// Recording an audio term keeps a finite trace finite.
proof fn lemma_encode_node_finite(n: AudioNode, key: Seq<char>, t: Map<Seq<char>, SiteValue>)
    requires
        t.dom().finite(),
    ensures
        spec_encode_node(n, key, t).dom().finite(),
    decreases n,
{
    match n {
        AudioNode::Vco { wave: v_wave, octave: v_octave, detune: v_detune, mod_depth: v_mod_depth, modulation: v_modulation } => {
            let t = spec_put(t, key, "leaf"@, SiteValue::Flag(true));
            let t = spec_put(t, key, "src"@, SiteValue::Index(0));
            let t = spec_put(t, key, "wave"@, SiteValue::Index(v_wave.spec_index() as usize));
            let t = spec_put(t, key, "oct"@, SiteValue::Index(spec_octave_index(v_octave)));
            let t = spec_put(t, key, "det"@, SiteValue::Real(v_detune));
            let t = spec_put(t, key, "mdepth"@, SiteValue::Real(v_mod_depth));
            lemma_encode_mod_finite(v_modulation, spec_mod_key(key), t);
            let t = spec_encode_mod(v_modulation, spec_mod_key(key), t);
        },
        AudioNode::Supersaw { octave: v_octave, detune: v_detune, mix: v_mix, mod_depth: v_mod_depth, modulation: v_modulation } => {
            let t = spec_put(t, key, "leaf"@, SiteValue::Flag(true));
            let t = spec_put(t, key, "src"@, SiteValue::Index(1));
            let t = spec_put(t, key, "oct"@, SiteValue::Index(spec_octave_index(v_octave)));
            let t = spec_put(t, key, "det"@, SiteValue::Real(v_detune));
            let t = spec_put(t, key, "smix"@, SiteValue::Real(v_mix));
            let t = spec_put(t, key, "mdepth"@, SiteValue::Real(v_mod_depth));
            lemma_encode_mod_finite(v_modulation, spec_mod_key(key), t);
            let t = spec_encode_mod(v_modulation, spec_mod_key(key), t);
        },
        AudioNode::Wavetable { table: v_table, octave: v_octave, morph: v_morph, mod_depth: v_mod_depth, modulation: v_modulation } => {
            let t = spec_put(t, key, "leaf"@, SiteValue::Flag(true));
            let t = spec_put(t, key, "src"@, SiteValue::Index(3));
            let t = spec_put(t, key, "table"@, SiteValue::Index(v_table.spec_index() as usize));
            let t = spec_put(t, key, "oct"@, SiteValue::Index(spec_octave_index(v_octave)));
            let t = spec_put(t, key, "morph"@, SiteValue::Real(v_morph));
            let t = spec_put(t, key, "mdepth"@, SiteValue::Real(v_mod_depth));
            lemma_encode_mod_finite(v_modulation, spec_mod_key(key), t);
            let t = spec_encode_mod(v_modulation, spec_mod_key(key), t);
        },
        AudioNode::Pluck { octave: v_octave, damping: v_damping, brightness: v_brightness, mod_depth: v_mod_depth, modulation: v_modulation } => {
            let t = spec_put(t, key, "leaf"@, SiteValue::Flag(true));
            let t = spec_put(t, key, "src"@, SiteValue::Index(4));
            let t = spec_put(t, key, "oct"@, SiteValue::Index(spec_octave_index(v_octave)));
            let t = spec_put(t, key, "damp"@, SiteValue::Real(v_damping));
            let t = spec_put(t, key, "bright"@, SiteValue::Real(v_brightness));
            let t = spec_put(t, key, "mdepth"@, SiteValue::Real(v_mod_depth));
            lemma_encode_mod_finite(v_modulation, spec_mod_key(key), t);
            let t = spec_encode_mod(v_modulation, spec_mod_key(key), t);
        },
        AudioNode::Formant { vowel: v_vowel, shift: v_shift, octave: v_octave, mod_depth: v_mod_depth, modulation: v_modulation } => {
            let t = spec_put(t, key, "leaf"@, SiteValue::Flag(true));
            let t = spec_put(t, key, "src"@, SiteValue::Index(5));
            let t = spec_put(t, key, "vowel"@, SiteValue::Real(v_vowel));
            let t = spec_put(t, key, "fshift"@, SiteValue::Real(v_shift));
            let t = spec_put(t, key, "oct"@, SiteValue::Index(spec_octave_index(v_octave)));
            let t = spec_put(t, key, "mdepth"@, SiteValue::Real(v_mod_depth));
            lemma_encode_mod_finite(v_modulation, spec_mod_key(key), t);
            let t = spec_encode_mod(v_modulation, spec_mod_key(key), t);
        },
        AudioNode::Mix { balance: v_balance, a: v_a, b: v_b } => {
            let t = spec_put(t, key, "leaf"@, SiteValue::Flag(false));
            let t = spec_put(t, key, "op"@, SiteValue::Index(0));
            let t = spec_put(t, key, "bal"@, SiteValue::Real(v_balance));
            lemma_encode_node_finite(*v_a, spec_child_key(key, 0), t);
            let t = spec_encode_node(*v_a, spec_child_key(key, 0), t);
            lemma_encode_node_finite(*v_b, spec_child_key(key, 1), t);
            let t = spec_encode_node(*v_b, spec_child_key(key, 1), t);
        },
        AudioNode::Filter { kind: v_kind, cutoff: v_cutoff, resonance: v_resonance, mod_depth: v_mod_depth, input: v_input, modulation: v_modulation } => {
            let t = spec_put(t, key, "leaf"@, SiteValue::Flag(false));
            let t = spec_put(t, key, "op"@, SiteValue::Index(1));
            let t = spec_put(t, key, "fkind"@, SiteValue::Index(v_kind.spec_index() as usize));
            let t = spec_put(t, key, "cut"@, SiteValue::Real(v_cutoff));
            let t = spec_put(t, key, "res"@, SiteValue::Real(v_resonance));
            let t = spec_put(t, key, "mdepth"@, SiteValue::Real(v_mod_depth));
            lemma_encode_mod_finite(v_modulation, spec_mod_key(key), t);
            let t = spec_encode_mod(v_modulation, spec_mod_key(key), t);
            lemma_encode_node_finite(*v_input, spec_child_key(key, 0), t);
            let t = spec_encode_node(*v_input, spec_child_key(key, 0), t);
        },
        AudioNode::Fold { threshold: v_threshold, mod_depth: v_mod_depth, input: v_input, modulation: v_modulation } => {
            let t = spec_put(t, key, "leaf"@, SiteValue::Flag(false));
            let t = spec_put(t, key, "op"@, SiteValue::Index(2));
            let t = spec_put(t, key, "thresh"@, SiteValue::Real(v_threshold));
            let t = spec_put(t, key, "mdepth"@, SiteValue::Real(v_mod_depth));
            lemma_encode_mod_finite(v_modulation, spec_mod_key(key), t);
            let t = spec_encode_mod(v_modulation, spec_mod_key(key), t);
            lemma_encode_node_finite(*v_input, spec_child_key(key, 0), t);
            let t = spec_encode_node(*v_input, spec_child_key(key, 0), t);
        },
        AudioNode::Delay { time: v_time, feedback: v_feedback, mix: v_mix, mod_depth: v_mod_depth, input: v_input, modulation: v_modulation } => {
            let t = spec_put(t, key, "leaf"@, SiteValue::Flag(false));
            let t = spec_put(t, key, "op"@, SiteValue::Index(3));
            let t = spec_put(t, key, "time"@, SiteValue::Real(v_time));
            let t = spec_put(t, key, "fb"@, SiteValue::Real(v_feedback));
            let t = spec_put(t, key, "dmix"@, SiteValue::Real(v_mix));
            let t = spec_put(t, key, "mdepth"@, SiteValue::Real(v_mod_depth));
            lemma_encode_mod_finite(v_modulation, spec_mod_key(key), t);
            let t = spec_encode_mod(v_modulation, spec_mod_key(key), t);
            lemma_encode_node_finite(*v_input, spec_child_key(key, 0), t);
            let t = spec_encode_node(*v_input, spec_child_key(key, 0), t);
        },
        AudioNode::Chorus { rate: v_rate, depth: v_depth, mix: v_mix, mod_depth: v_mod_depth, input: v_input, modulation: v_modulation } => {
            let t = spec_put(t, key, "leaf"@, SiteValue::Flag(false));
            let t = spec_put(t, key, "op"@, SiteValue::Index(4));
            let t = spec_put(t, key, "crate"@, SiteValue::Real(v_rate));
            let t = spec_put(t, key, "cdepth"@, SiteValue::Real(v_depth));
            let t = spec_put(t, key, "cmix"@, SiteValue::Real(v_mix));
            let t = spec_put(t, key, "mdepth"@, SiteValue::Real(v_mod_depth));
            lemma_encode_mod_finite(v_modulation, spec_mod_key(key), t);
            let t = spec_encode_mod(v_modulation, spec_mod_key(key), t);
            lemma_encode_node_finite(*v_input, spec_child_key(key, 0), t);
            let t = spec_encode_node(*v_input, spec_child_key(key, 0), t);
        },
        AudioNode::Reverb { size: v_size, damp: v_damp, mix: v_mix, mod_depth: v_mod_depth, input: v_input, modulation: v_modulation } => {
            let t = spec_put(t, key, "leaf"@, SiteValue::Flag(false));
            let t = spec_put(t, key, "op"@, SiteValue::Index(5));
            let t = spec_put(t, key, "rsize"@, SiteValue::Real(v_size));
            let t = spec_put(t, key, "rdamp"@, SiteValue::Real(v_damp));
            let t = spec_put(t, key, "rmix"@, SiteValue::Real(v_mix));
            let t = spec_put(t, key, "mdepth"@, SiteValue::Real(v_mod_depth));
            lemma_encode_mod_finite(v_modulation, spec_mod_key(key), t);
            let t = spec_encode_mod(v_modulation, spec_mod_key(key), t);
            lemma_encode_node_finite(*v_input, spec_child_key(key, 0), t);
            let t = spec_encode_node(*v_input, spec_child_key(key, 0), t);
        },
        AudioNode::Distortion { drive: v_drive, tone: v_tone, mode: v_mode, mod_depth: v_mod_depth, input: v_input, modulation: v_modulation } => {
            let t = spec_put(t, key, "leaf"@, SiteValue::Flag(false));
            let t = spec_put(t, key, "op"@, SiteValue::Index(6));
            let t = spec_put(t, key, "drive"@, SiteValue::Real(v_drive));
            let t = spec_put(t, key, "tone"@, SiteValue::Real(v_tone));
            let t = spec_put(t, key, "dmode"@, SiteValue::Index(v_mode.spec_index() as usize));
            let t = spec_put(t, key, "mdepth"@, SiteValue::Real(v_mod_depth));
            lemma_encode_mod_finite(v_modulation, spec_mod_key(key), t);
            let t = spec_encode_mod(v_modulation, spec_mod_key(key), t);
            lemma_encode_node_finite(*v_input, spec_child_key(key, 0), t);
            let t = spec_encode_node(*v_input, spec_child_key(key, 0), t);
        },
        AudioNode::Bitcrush { bits: v_bits, downsample: v_downsample, mod_depth: v_mod_depth, input: v_input, modulation: v_modulation } => {
            let t = spec_put(t, key, "leaf"@, SiteValue::Flag(false));
            let t = spec_put(t, key, "op"@, SiteValue::Index(7));
            let t = spec_put(t, key, "bits"@, SiteValue::Real(v_bits));
            let t = spec_put(t, key, "dsamp"@, SiteValue::Real(v_downsample));
            let t = spec_put(t, key, "mdepth"@, SiteValue::Real(v_mod_depth));
            lemma_encode_mod_finite(v_modulation, spec_mod_key(key), t);
            let t = spec_encode_mod(v_modulation, spec_mod_key(key), t);
            lemma_encode_node_finite(*v_input, spec_child_key(key, 0), t);
            let t = spec_encode_node(*v_input, spec_child_key(key, 0), t);
        },
        AudioNode::Phaser { rate: v_rate, depth: v_depth, feedback: v_feedback, mod_depth: v_mod_depth, input: v_input, modulation: v_modulation } => {
            let t = spec_put(t, key, "leaf"@, SiteValue::Flag(false));
            let t = spec_put(t, key, "op"@, SiteValue::Index(8));
            let t = spec_put(t, key, "prate"@, SiteValue::Real(v_rate));
            let t = spec_put(t, key, "pdepth"@, SiteValue::Real(v_depth));
            let t = spec_put(t, key, "pfb"@, SiteValue::Real(v_feedback));
            let t = spec_put(t, key, "mdepth"@, SiteValue::Real(v_mod_depth));
            lemma_encode_mod_finite(v_modulation, spec_mod_key(key), t);
            let t = spec_encode_mod(v_modulation, spec_mod_key(key), t);
            lemma_encode_node_finite(*v_input, spec_child_key(key, 0), t);
            let t = spec_encode_node(*v_input, spec_child_key(key, 0), t);
        },
        AudioNode::RingMod { mix: v_mix, a: v_a, b: v_b } => {
            let t = spec_put(t, key, "leaf"@, SiteValue::Flag(false));
            let t = spec_put(t, key, "op"@, SiteValue::Index(9));
            let t = spec_put(t, key, "rgmix"@, SiteValue::Real(v_mix));
            lemma_encode_node_finite(*v_a, spec_child_key(key, 0), t);
            let t = spec_encode_node(*v_a, spec_child_key(key, 0), t);
            lemma_encode_node_finite(*v_b, spec_child_key(key, 1), t);
            let t = spec_encode_node(*v_b, spec_child_key(key, 1), t);
        },
        AudioNode::Flanger { rate: v_rate, depth: v_depth, feedback: v_feedback, mod_depth: v_mod_depth, input: v_input, modulation: v_modulation } => {
            let t = spec_put(t, key, "leaf"@, SiteValue::Flag(false));
            let t = spec_put(t, key, "op"@, SiteValue::Index(10));
            let t = spec_put(t, key, "frate"@, SiteValue::Real(v_rate));
            let t = spec_put(t, key, "fdepth"@, SiteValue::Real(v_depth));
            let t = spec_put(t, key, "ffb"@, SiteValue::Real(v_feedback));
            let t = spec_put(t, key, "mdepth"@, SiteValue::Real(v_mod_depth));
            lemma_encode_mod_finite(v_modulation, spec_mod_key(key), t);
            let t = spec_encode_mod(v_modulation, spec_mod_key(key), t);
            lemma_encode_node_finite(*v_input, spec_child_key(key, 0), t);
            let t = spec_encode_node(*v_input, spec_child_key(key, 0), t);
        },
        AudioNode::Tremolo { rate: v_rate, depth: v_depth, shape: v_shape, mod_depth: v_mod_depth, input: v_input, modulation: v_modulation } => {
            let t = spec_put(t, key, "leaf"@, SiteValue::Flag(false));
            let t = spec_put(t, key, "op"@, SiteValue::Index(11));
            let t = spec_put(t, key, "trate"@, SiteValue::Real(v_rate));
            let t = spec_put(t, key, "tdepth"@, SiteValue::Real(v_depth));
            let t = spec_put(t, key, "tshape"@, SiteValue::Real(v_shape));
            let t = spec_put(t, key, "mdepth"@, SiteValue::Real(v_mod_depth));
            lemma_encode_mod_finite(v_modulation, spec_mod_key(key), t);
            let t = spec_encode_mod(v_modulation, spec_mod_key(key), t);
            lemma_encode_node_finite(*v_input, spec_child_key(key, 0), t);
            let t = spec_encode_node(*v_input, spec_child_key(key, 0), t);
        },
        AudioNode::Vibrato { rate: v_rate, depth: v_depth, mix: v_mix, mod_depth: v_mod_depth, input: v_input, modulation: v_modulation } => {
            let t = spec_put(t, key, "leaf"@, SiteValue::Flag(false));
            let t = spec_put(t, key, "op"@, SiteValue::Index(12));
            let t = spec_put(t, key, "vrate"@, SiteValue::Real(v_rate));
            let t = spec_put(t, key, "vdepth"@, SiteValue::Real(v_depth));
            let t = spec_put(t, key, "vmix"@, SiteValue::Real(v_mix));
            let t = spec_put(t, key, "mdepth"@, SiteValue::Real(v_mod_depth));
            lemma_encode_mod_finite(v_modulation, spec_mod_key(key), t);
            let t = spec_encode_mod(v_modulation, spec_mod_key(key), t);
            lemma_encode_node_finite(*v_input, spec_child_key(key, 0), t);
            let t = spec_encode_node(*v_input, spec_child_key(key, 0), t);
        },
        AudioNode::Eq { low: v_low, mid: v_mid, high: v_high, mod_depth: v_mod_depth, input: v_input, modulation: v_modulation } => {
            let t = spec_put(t, key, "leaf"@, SiteValue::Flag(false));
            let t = spec_put(t, key, "op"@, SiteValue::Index(13));
            let t = spec_put(t, key, "low"@, SiteValue::Real(v_low));
            let t = spec_put(t, key, "mid"@, SiteValue::Real(v_mid));
            let t = spec_put(t, key, "high"@, SiteValue::Real(v_high));
            let t = spec_put(t, key, "mdepth"@, SiteValue::Real(v_mod_depth));
            lemma_encode_mod_finite(v_modulation, spec_mod_key(key), t);
            let t = spec_encode_mod(v_modulation, spec_mod_key(key), t);
            lemma_encode_node_finite(*v_input, spec_child_key(key, 0), t);
            let t = spec_encode_node(*v_input, spec_child_key(key, 0), t);
        },
        AudioNode::Granular { position: v_position, size: v_size, density: v_density, mod_depth: v_mod_depth, input: v_input, modulation: v_modulation } => {
            let t = spec_put(t, key, "leaf"@, SiteValue::Flag(false));
            let t = spec_put(t, key, "op"@, SiteValue::Index(14));
            let t = spec_put(t, key, "gpos"@, SiteValue::Real(v_position));
            let t = spec_put(t, key, "gsize"@, SiteValue::Real(v_size));
            let t = spec_put(t, key, "gdens"@, SiteValue::Real(v_density));
            let t = spec_put(t, key, "mdepth"@, SiteValue::Real(v_mod_depth));
            lemma_encode_mod_finite(v_modulation, spec_mod_key(key), t);
            let t = spec_encode_mod(v_modulation, spec_mod_key(key), t);
            lemma_encode_node_finite(*v_input, spec_child_key(key, 0), t);
            let t = spec_encode_node(*v_input, spec_child_key(key, 0), t);
        },
        AudioNode::Shift { semis: v_semis, window: v_window, mix: v_mix, mod_depth: v_mod_depth, input: v_input, modulation: v_modulation } => {
            let t = spec_put(t, key, "leaf"@, SiteValue::Flag(false));
            let t = spec_put(t, key, "op"@, SiteValue::Index(15));
            let t = spec_put(t, key, "semis"@, SiteValue::Real(v_semis));
            let t = spec_put(t, key, "window"@, SiteValue::Real(v_window));
            let t = spec_put(t, key, "smix"@, SiteValue::Real(v_mix));
            let t = spec_put(t, key, "mdepth"@, SiteValue::Real(v_mod_depth));
            lemma_encode_mod_finite(v_modulation, spec_mod_key(key), t);
            let t = spec_encode_mod(v_modulation, spec_mod_key(key), t);
            lemma_encode_node_finite(*v_input, spec_child_key(key, 0), t);
            let t = spec_encode_node(*v_input, spec_child_key(key, 0), t);
        },
        AudioNode::Comp { threshold: v_threshold, ratio: v_ratio, makeup: v_makeup, mod_depth: v_mod_depth, input: v_input, sidechain: v_sidechain, modulation: v_modulation } => {
            let t = spec_put(t, key, "leaf"@, SiteValue::Flag(false));
            let t = spec_put(t, key, "op"@, SiteValue::Index(16));
            let t = spec_put(t, key, "thresh"@, SiteValue::Real(v_threshold));
            let t = spec_put(t, key, "ratio"@, SiteValue::Real(v_ratio));
            let t = spec_put(t, key, "makeup"@, SiteValue::Real(v_makeup));
            let t = spec_put(t, key, "mdepth"@, SiteValue::Real(v_mod_depth));
            lemma_encode_mod_finite(v_modulation, spec_mod_key(key), t);
            let t = spec_encode_mod(v_modulation, spec_mod_key(key), t);
            lemma_encode_node_finite(*v_input, spec_child_key(key, 0), t);
            let t = spec_encode_node(*v_input, spec_child_key(key, 0), t);
            lemma_encode_node_finite(*v_sidechain, spec_child_key(key, 1), t);
            let t = spec_encode_node(*v_sidechain, spec_child_key(key, 1), t);
        },
        AudioNode::Duck { amount: v_amount, threshold: v_threshold, release: v_release, mod_depth: v_mod_depth, input: v_input, key: v_key, modulation: v_modulation } => {
            let t = spec_put(t, key, "leaf"@, SiteValue::Flag(false));
            let t = spec_put(t, key, "op"@, SiteValue::Index(17));
            let t = spec_put(t, key, "amount"@, SiteValue::Real(v_amount));
            let t = spec_put(t, key, "dthresh"@, SiteValue::Real(v_threshold));
            let t = spec_put(t, key, "drel"@, SiteValue::Real(v_release));
            let t = spec_put(t, key, "mdepth"@, SiteValue::Real(v_mod_depth));
            lemma_encode_mod_finite(v_modulation, spec_mod_key(key), t);
            let t = spec_encode_mod(v_modulation, spec_mod_key(key), t);
            lemma_encode_node_finite(*v_input, spec_child_key(key, 0), t);
            let t = spec_encode_node(*v_input, spec_child_key(key, 0), t);
            lemma_encode_node_finite(*v_key, spec_child_key(key, 1), t);
            let t = spec_encode_node(*v_key, spec_child_key(key, 1), t);
        },
        AudioNode::Gate { threshold: v_threshold, range: v_range, release: v_release, mod_depth: v_mod_depth, input: v_input, sidechain: v_sidechain, modulation: v_modulation } => {
            let t = spec_put(t, key, "leaf"@, SiteValue::Flag(false));
            let t = spec_put(t, key, "op"@, SiteValue::Index(18));
            let t = spec_put(t, key, "gthresh"@, SiteValue::Real(v_threshold));
            let t = spec_put(t, key, "range"@, SiteValue::Real(v_range));
            let t = spec_put(t, key, "grel"@, SiteValue::Real(v_release));
            let t = spec_put(t, key, "mdepth"@, SiteValue::Real(v_mod_depth));
            lemma_encode_mod_finite(v_modulation, spec_mod_key(key), t);
            let t = spec_encode_mod(v_modulation, spec_mod_key(key), t);
            lemma_encode_node_finite(*v_input, spec_child_key(key, 0), t);
            let t = spec_encode_node(*v_input, spec_child_key(key, 0), t);
            lemma_encode_node_finite(*v_sidechain, spec_child_key(key, 1), t);
            let t = spec_encode_node(*v_sidechain, spec_child_key(key, 1), t);
        },
        AudioNode::Vocoder { bands: v_bands, attack: v_attack, release: v_release, mod_depth: v_mod_depth, carrier: v_carrier, modulator: v_modulator, modulation: v_modulation } => {
            let t = spec_put(t, key, "leaf"@, SiteValue::Flag(false));
            let t = spec_put(t, key, "op"@, SiteValue::Index(19));
            let t = spec_put(t, key, "bands"@, SiteValue::Real(v_bands));
            let t = spec_put(t, key, "vatt"@, SiteValue::Real(v_attack));
            let t = spec_put(t, key, "vrel"@, SiteValue::Real(v_release));
            let t = spec_put(t, key, "mdepth"@, SiteValue::Real(v_mod_depth));
            lemma_encode_mod_finite(v_modulation, spec_mod_key(key), t);
            let t = spec_encode_mod(v_modulation, spec_mod_key(key), t);
            lemma_encode_node_finite(*v_carrier, spec_child_key(key, 0), t);
            let t = spec_encode_node(*v_carrier, spec_child_key(key, 0), t);
            lemma_encode_node_finite(*v_modulator, spec_child_key(key, 1), t);
            let t = spec_encode_node(*v_modulator, spec_child_key(key, 1), t);
        },
        _ => {},
    }
}


/// The envelope reads back from any trace that agrees with its recording
/// outside the subtree at `node`.
proof fn lemma_amp_reads(t: Map<Seq<char>, SiteValue>, amp: AmpEnv)
    requires
        forall|a: Seq<char>|
            !below(a, "node"@) ==> #[trigger] spec_lookup(t, a) == spec_lookup(
                spec_encode_amp(amp, Map::empty()),
                a,
            ),
    ensures
        read_real(t, "amp"@, "attack"@) == Some(amp.attack),
        read_real(t, "amp"@, "decay"@) == Some(amp.decay),
        read_real(t, "amp"@, "sustain"@) == Some(amp.sustain),
        read_real(t, "amp"@, "release"@) == Some(amp.release),
{
    reveal_strlit("amp");
    reveal_strlit("node");
    reveal_strlit("attack");
    reveal_strlit("decay");
    reveal_strlit("sustain");
    reveal_strlit("release");
    lemma_address_injective_forall("amp"@);
    lemma_escape_plain("amp"@);
    assert("sustain"@[0] != "release"@[0]);
    assert forall|s: Seq<char>| !below(#[trigger] spec_address("amp"@, s), "node"@) by {
        let a = spec_address("amp"@, s);
        assert(a[0] == 'a') by {
            assert(a == "amp"@ + seq!['#'] + spec_escape(s));
        }
        if below(a, "node"@) {
            assert(a.take(4)[0] == a[0]);
        }
    }
}

/// Reading a patch back from its own trace gives the patch: the decoder
/// inverts the encoding, for every patch whose octave offsets the encoding
/// can record and whose one-knob processors leave their unrecorded knob at
/// zero.
pub proof fn lemma_trace_round_trip(p: PatchTree)
    requires
        octaves_encodable(p.root),
        idle_knobs_zero_node(p.root),
    ensures
        spec_from_trace(spec_to_trace(p)) == Decoded::Value(p),
{
    lemma_root_plain();
    let base = spec_encode_amp(p.amp, Map::empty());
    let t = spec_encode_node(p.root, "node"@, base);
    assert(t == spec_to_trace(p));
    lemma_encode_node_finite(p.root, "node"@, base);
    lemma_encode_node_frame(p.root, "node"@, base);
    lemma_amp_reads(t, p.amp);
    lemma_decode_encoded_node(t, "node"@, p.root, base);
}

/// The canonical trace of a patch whose octaves the encoding can record is
/// finite, and every octave in it reads back.
pub proof fn lemma_trace_readable(p: PatchTree)
    requires
        octaves_encodable(p.root),
    ensures
        spec_to_trace(p).dom().finite(),
        octaves_readable(spec_to_trace(p)),
{
    lemma_root_plain();
    let base = spec_encode_amp(p.amp, Map::empty());
    assert(octaves_readable(Map::<Seq<char>, SiteValue>::empty()));
    lemma_encode_node_finite(p.root, "node"@, base);
    lemma_encode_node_readable(p.root, "node"@, base);
}

/// A trace whose octaves read back reads back as a patch or a refusal,
/// never an overflow.
pub proof fn lemma_from_trace_no_overflow(t: Map<Seq<char>, SiteValue>)
    requires
        t.dom().finite(),
        octaves_readable(t),
    ensures
        !(spec_from_trace(t) is Overflow),
{
    lemma_root_plain();
    lemma_decode_node_no_overflow(t, "node"@);
}

/// Whether every octave offset in `n` can be recorded.
pub fn octaves_fit(n: &AudioNode) -> (b: bool)
    ensures
        b == octaves_encodable(*n),
    decreases n,
{
    match n {
        AudioNode::Vco { octave: v_octave, .. } => *v_octave <= 125,
        AudioNode::Supersaw { octave: v_octave, .. } => *v_octave <= 125,
        AudioNode::Noise { .. } => true,
        AudioNode::Wavetable { octave: v_octave, .. } => *v_octave <= 125,
        AudioNode::Pluck { octave: v_octave, .. } => *v_octave <= 125,
        AudioNode::Formant { octave: v_octave, .. } => *v_octave <= 125,
        AudioNode::Mix { a: v_a, b: v_b, .. } => octaves_fit(v_a) && octaves_fit(v_b),
        AudioNode::Filter { input: v_input, .. } => octaves_fit(v_input),
        AudioNode::Fold { input: v_input, .. } => octaves_fit(v_input),
        AudioNode::Delay { input: v_input, .. } => octaves_fit(v_input),
        AudioNode::Chorus { input: v_input, .. } => octaves_fit(v_input),
        AudioNode::Reverb { input: v_input, .. } => octaves_fit(v_input),
        AudioNode::Distortion { input: v_input, .. } => octaves_fit(v_input),
        AudioNode::Bitcrush { input: v_input, .. } => octaves_fit(v_input),
        AudioNode::Phaser { input: v_input, .. } => octaves_fit(v_input),
        AudioNode::RingMod { a: v_a, b: v_b, .. } => octaves_fit(v_a) && octaves_fit(v_b),
        AudioNode::Flanger { input: v_input, .. } => octaves_fit(v_input),
        AudioNode::Tremolo { input: v_input, .. } => octaves_fit(v_input),
        AudioNode::Vibrato { input: v_input, .. } => octaves_fit(v_input),
        AudioNode::Eq { input: v_input, .. } => octaves_fit(v_input),
        AudioNode::Granular { input: v_input, .. } => octaves_fit(v_input),
        AudioNode::Shift { input: v_input, .. } => octaves_fit(v_input),
        AudioNode::Comp { input: v_input, sidechain: v_sidechain, .. } => octaves_fit(v_input) && octaves_fit(v_sidechain),
        AudioNode::Duck { input: v_input, key: v_key, .. } => octaves_fit(v_input) && octaves_fit(v_key),
        AudioNode::Gate { input: v_input, sidechain: v_sidechain, .. } => octaves_fit(v_input) && octaves_fit(v_sidechain),
        AudioNode::Vocoder { carrier: v_carrier, modulator: v_modulator, .. } => octaves_fit(v_carrier) && octaves_fit(v_modulator),
    }
}

impl PatchTree {
    /// Whether every octave offset in this patch can be recorded.
    pub fn octaves_fit(&self) -> (b: bool)
        ensures
            b == octaves_encodable(self.root),
    {
        octaves_fit(&self.root)
    }
}
/// No `oct` site records an index that overflows when read back.
pub open spec fn octaves_readable(t: Map<Seq<char>, SiteValue>) -> bool {
    forall|a: Seq<char>|
        #[trigger] t.dom().contains(a) && spec_split_addr(a).1 == "oct"@ ==> match t[a] {
            SiteValue::Index(i) => !octave_overflows(i),
            _ => true,
        }
}

/// Recording a value keeps the octaves readable unless it is an overflowing
/// index at an `oct` site.
pub proof fn lemma_insert_readable(t: Map<Seq<char>, SiteValue>, a: Seq<char>, v: SiteValue)
    requires
        octaves_readable(t),
        match v {
            SiteValue::Index(i) => spec_split_addr(a).1 == "oct"@ ==> !octave_overflows(i),
            _ => true,
        },
    ensures
        octaves_readable(t.insert(a, v)),
{
}

/// The sites that record categorical values are plain, and only `oct` is
/// `oct`.
proof fn lemma_index_sites_plain()
    ensures
        is_plain("src"@),
        is_plain("op"@),
        is_plain("wave"@),
        is_plain("color"@),
        is_plain("table"@),
        is_plain("fkind"@),
        is_plain("dmode"@),
        is_plain("oct"@),
        is_plain("mod"@),
        is_plain("modop"@),
        is_plain("pairop"@),
        "src"@ != "oct"@,
        "op"@ != "oct"@,
        "wave"@ != "oct"@,
        "color"@ != "oct"@,
        "table"@ != "oct"@,
        "fkind"@ != "oct"@,
        "dmode"@ != "oct"@,
        "mod"@ != "oct"@,
        "modop"@ != "oct"@,
        "pairop"@ != "oct"@,
{
    reveal_strlit("src");
    assert("src"@ =~= seq!['s', 'r', 'c']);
    reveal_strlit("op");
    assert("op"@ =~= seq!['o', 'p']);
    reveal_strlit("wave");
    assert("wave"@ =~= seq!['w', 'a', 'v', 'e']);
    reveal_strlit("color");
    assert("color"@ =~= seq!['c', 'o', 'l', 'o', 'r']);
    reveal_strlit("table");
    assert("table"@ =~= seq!['t', 'a', 'b', 'l', 'e']);
    reveal_strlit("fkind");
    assert("fkind"@ =~= seq!['f', 'k', 'i', 'n', 'd']);
    reveal_strlit("dmode");
    assert("dmode"@ =~= seq!['d', 'm', 'o', 'd', 'e']);
    reveal_strlit("oct");
    assert("oct"@ =~= seq!['o', 'c', 't']);
    reveal_strlit("mod");
    assert("mod"@ =~= seq!['m', 'o', 'd']);
    reveal_strlit("modop");
    assert("modop"@ =~= seq!['m', 'o', 'd', 'o', 'p']);
    reveal_strlit("pairop");
    assert("pairop"@ =~= seq!['p', 'a', 'i', 'r', 'o', 'p']);
}

/// Recording a value at a plain key keeps the octaves readable, given that
/// a categorical value goes to a plain site and an `oct` index reads back.
pub proof fn lemma_put_readable(t: Map<Seq<char>, SiteValue>, key: Seq<char>, site: Seq<char>, v: SiteValue)
    requires
        octaves_readable(t),
        is_plain(key),
        match v {
            SiteValue::Index(i) => is_plain(site) && (site == "oct"@ ==> !octave_overflows(i)),
            _ => true,
        },
    ensures
        octaves_readable(spec_put(t, key, site, v)),
{
    if v is Index {
        lemma_escape_plain(key);
        lemma_escape_plain(site);
        lemma_split_joined(key, site);
    }
    lemma_insert_readable(t, spec_address(key, site), v);
}

/// Recording a modulation term keeps the octaves readable.
pub proof fn lemma_encode_mod_readable(m: ModNode, key: Seq<char>, t: Map<Seq<char>, SiteValue>)
    requires
        octaves_readable(t),
        is_plain(key),
    ensures
        octaves_readable(spec_encode_mod(m, key, t)),
    decreases m,
{
    lemma_index_sites_plain();
    lemma_layout(key);
    match m {
        ModNode::Empty => {
            let e0 = t;
            lemma_put_readable(e0, key, "mod"@, SiteValue::Index(0));
            let e1 = spec_put(e0, key, "mod"@, SiteValue::Index(0));
        },
        ModNode::Lfo { wave: v_wave, rate: v_rate } => {
            let e0 = t;
            lemma_put_readable(e0, key, "mod"@, SiteValue::Index(1));
            let e1 = spec_put(e0, key, "mod"@, SiteValue::Index(1));
            lemma_put_readable(e1, key, "wave"@, SiteValue::Index(v_wave.spec_index() as usize));
            let e2 = spec_put(e1, key, "wave"@, SiteValue::Index(v_wave.spec_index() as usize));
            lemma_put_readable(e2, key, "rate"@, SiteValue::Real(v_rate));
            let e3 = spec_put(e2, key, "rate"@, SiteValue::Real(v_rate));
        },
        ModNode::Env { attack: v_attack, decay: v_decay } => {
            let e0 = t;
            lemma_put_readable(e0, key, "mod"@, SiteValue::Index(2));
            let e1 = spec_put(e0, key, "mod"@, SiteValue::Index(2));
            lemma_put_readable(e1, key, "att"@, SiteValue::Real(v_attack));
            let e2 = spec_put(e1, key, "att"@, SiteValue::Real(v_attack));
            lemma_put_readable(e2, key, "dec"@, SiteValue::Real(v_decay));
            let e3 = spec_put(e2, key, "dec"@, SiteValue::Real(v_decay));
        },
        ModNode::Rand { rate: v_rate, glide: v_glide } => {
            let e0 = t;
            lemma_put_readable(e0, key, "mod"@, SiteValue::Index(3));
            let e1 = spec_put(e0, key, "mod"@, SiteValue::Index(3));
            lemma_put_readable(e1, key, "rate"@, SiteValue::Real(v_rate));
            let e2 = spec_put(e1, key, "rate"@, SiteValue::Real(v_rate));
            lemma_put_readable(e2, key, "glide"@, SiteValue::Real(v_glide));
            let e3 = spec_put(e2, key, "glide"@, SiteValue::Real(v_glide));
        },
        ModNode::Follow { sens: v_sens, release: v_release } => {
            let e0 = t;
            lemma_put_readable(e0, key, "mod"@, SiteValue::Index(4));
            let e1 = spec_put(e0, key, "mod"@, SiteValue::Index(4));
            lemma_put_readable(e1, key, "sens"@, SiteValue::Real(v_sens));
            let e2 = spec_put(e1, key, "sens"@, SiteValue::Real(v_sens));
            lemma_put_readable(e2, key, "rel"@, SiteValue::Real(v_release));
            let e3 = spec_put(e2, key, "rel"@, SiteValue::Real(v_release));
        },
        ModNode::Euclid { rate: v_rate, steps: v_steps, pulses: v_pulses } => {
            let e0 = t;
            lemma_put_readable(e0, key, "mod"@, SiteValue::Index(5));
            let e1 = spec_put(e0, key, "mod"@, SiteValue::Index(5));
            lemma_put_readable(e1, key, "erate"@, SiteValue::Real(v_rate));
            let e2 = spec_put(e1, key, "erate"@, SiteValue::Real(v_rate));
            lemma_put_readable(e2, key, "esteps"@, SiteValue::Real(v_steps));
            let e3 = spec_put(e2, key, "esteps"@, SiteValue::Real(v_steps));
            lemma_put_readable(e3, key, "epulses"@, SiteValue::Real(v_pulses));
            let e4 = spec_put(e3, key, "epulses"@, SiteValue::Real(v_pulses));
        },
        ModNode::Op { kind: v_kind, p0: v_p0, p1: v_p1, input: v_input } => {
            let sites = v_kind.spec_param_sites();
            lemma_put_readable(t, key, "mod"@, SiteValue::Index(6));
            let e = spec_put(t, key, "mod"@, SiteValue::Index(6));
            lemma_put_readable(e, key, "modop"@, SiteValue::Index(v_kind.spec_index() as usize));
            let e = spec_put(e, key, "modop"@, SiteValue::Index(v_kind.spec_index() as usize));
            lemma_put_readable(e, key, sites[0], SiteValue::Real(v_p0));
            let e = spec_put(e, key, sites[0], SiteValue::Real(v_p0));
            let e = if sites.len() > 1 {
                lemma_put_readable(e, key, sites[1], SiteValue::Real(v_p1));
                spec_put(e, key, sites[1], SiteValue::Real(v_p1))
            } else {
                e
            };
            lemma_encode_mod_readable(*v_input, spec_child_key(key, 0), e);
        },
        ModNode::Pair { kind: v_kind, a: v_a, b: v_b } => {
            lemma_put_readable(t, key, "mod"@, SiteValue::Index(7));
            let e = spec_put(t, key, "mod"@, SiteValue::Index(7));
            lemma_put_readable(e, key, "pairop"@, SiteValue::Index(v_kind.spec_index() as usize));
            let e = spec_put(e, key, "pairop"@, SiteValue::Index(v_kind.spec_index() as usize));
            lemma_encode_mod_readable(*v_a, spec_child_key(key, 0), e);
            let e = spec_encode_mod(*v_a, spec_child_key(key, 0), e);
            lemma_encode_mod_readable(*v_b, spec_child_key(key, 1), e);
        },
    }
}

/// Recording an audio term whose octaves the encoding can record keeps the
/// octaves readable.
pub proof fn lemma_encode_node_readable(n: AudioNode, key: Seq<char>, t: Map<Seq<char>, SiteValue>)
    requires
        octaves_readable(t),
        is_plain(key),
        octaves_encodable(n),
    ensures
        octaves_readable(spec_encode_node(n, key, t)),
    decreases n,
{
    lemma_index_sites_plain();
    lemma_layout(key);
    match n {
        AudioNode::Vco { wave: v_wave, octave: v_octave, detune: v_detune, mod_depth: v_mod_depth, modulation: v_modulation } => {
            let e0 = t;
            lemma_octave_round_trip(v_octave);
            lemma_put_readable(e0, key, "leaf"@, SiteValue::Flag(true));
            let e1 = spec_put(e0, key, "leaf"@, SiteValue::Flag(true));
            lemma_put_readable(e1, key, "src"@, SiteValue::Index(0));
            let e2 = spec_put(e1, key, "src"@, SiteValue::Index(0));
            lemma_put_readable(e2, key, "wave"@, SiteValue::Index(v_wave.spec_index() as usize));
            let e3 = spec_put(e2, key, "wave"@, SiteValue::Index(v_wave.spec_index() as usize));
            lemma_put_readable(e3, key, "oct"@, SiteValue::Index(spec_octave_index(v_octave)));
            let e4 = spec_put(e3, key, "oct"@, SiteValue::Index(spec_octave_index(v_octave)));
            lemma_put_readable(e4, key, "det"@, SiteValue::Real(v_detune));
            let e5 = spec_put(e4, key, "det"@, SiteValue::Real(v_detune));
            lemma_put_readable(e5, key, "mdepth"@, SiteValue::Real(v_mod_depth));
            let e6 = spec_put(e5, key, "mdepth"@, SiteValue::Real(v_mod_depth));
            lemma_encode_mod_readable(v_modulation, spec_mod_key(key), e6);
            let em = spec_encode_mod(v_modulation, spec_mod_key(key), e6);
        },
        AudioNode::Supersaw { octave: v_octave, detune: v_detune, mix: v_mix, mod_depth: v_mod_depth, modulation: v_modulation } => {
            let e0 = t;
            lemma_octave_round_trip(v_octave);
            lemma_put_readable(e0, key, "leaf"@, SiteValue::Flag(true));
            let e1 = spec_put(e0, key, "leaf"@, SiteValue::Flag(true));
            lemma_put_readable(e1, key, "src"@, SiteValue::Index(1));
            let e2 = spec_put(e1, key, "src"@, SiteValue::Index(1));
            lemma_put_readable(e2, key, "oct"@, SiteValue::Index(spec_octave_index(v_octave)));
            let e3 = spec_put(e2, key, "oct"@, SiteValue::Index(spec_octave_index(v_octave)));
            lemma_put_readable(e3, key, "det"@, SiteValue::Real(v_detune));
            let e4 = spec_put(e3, key, "det"@, SiteValue::Real(v_detune));
            lemma_put_readable(e4, key, "smix"@, SiteValue::Real(v_mix));
            let e5 = spec_put(e4, key, "smix"@, SiteValue::Real(v_mix));
            lemma_put_readable(e5, key, "mdepth"@, SiteValue::Real(v_mod_depth));
            let e6 = spec_put(e5, key, "mdepth"@, SiteValue::Real(v_mod_depth));
            lemma_encode_mod_readable(v_modulation, spec_mod_key(key), e6);
            let em = spec_encode_mod(v_modulation, spec_mod_key(key), e6);
        },
        AudioNode::Noise { color: v_color } => {
            let e0 = t;
            lemma_put_readable(e0, key, "leaf"@, SiteValue::Flag(true));
            let e1 = spec_put(e0, key, "leaf"@, SiteValue::Flag(true));
            lemma_put_readable(e1, key, "src"@, SiteValue::Index(2));
            let e2 = spec_put(e1, key, "src"@, SiteValue::Index(2));
            lemma_put_readable(e2, key, "color"@, SiteValue::Index(v_color.spec_index() as usize));
            let e3 = spec_put(e2, key, "color"@, SiteValue::Index(v_color.spec_index() as usize));
        },
        AudioNode::Wavetable { table: v_table, octave: v_octave, morph: v_morph, mod_depth: v_mod_depth, modulation: v_modulation } => {
            let e0 = t;
            lemma_octave_round_trip(v_octave);
            lemma_put_readable(e0, key, "leaf"@, SiteValue::Flag(true));
            let e1 = spec_put(e0, key, "leaf"@, SiteValue::Flag(true));
            lemma_put_readable(e1, key, "src"@, SiteValue::Index(3));
            let e2 = spec_put(e1, key, "src"@, SiteValue::Index(3));
            lemma_put_readable(e2, key, "table"@, SiteValue::Index(v_table.spec_index() as usize));
            let e3 = spec_put(e2, key, "table"@, SiteValue::Index(v_table.spec_index() as usize));
            lemma_put_readable(e3, key, "oct"@, SiteValue::Index(spec_octave_index(v_octave)));
            let e4 = spec_put(e3, key, "oct"@, SiteValue::Index(spec_octave_index(v_octave)));
            lemma_put_readable(e4, key, "morph"@, SiteValue::Real(v_morph));
            let e5 = spec_put(e4, key, "morph"@, SiteValue::Real(v_morph));
            lemma_put_readable(e5, key, "mdepth"@, SiteValue::Real(v_mod_depth));
            let e6 = spec_put(e5, key, "mdepth"@, SiteValue::Real(v_mod_depth));
            lemma_encode_mod_readable(v_modulation, spec_mod_key(key), e6);
            let em = spec_encode_mod(v_modulation, spec_mod_key(key), e6);
        },
        AudioNode::Pluck { octave: v_octave, damping: v_damping, brightness: v_brightness, mod_depth: v_mod_depth, modulation: v_modulation } => {
            let e0 = t;
            lemma_octave_round_trip(v_octave);
            lemma_put_readable(e0, key, "leaf"@, SiteValue::Flag(true));
            let e1 = spec_put(e0, key, "leaf"@, SiteValue::Flag(true));
            lemma_put_readable(e1, key, "src"@, SiteValue::Index(4));
            let e2 = spec_put(e1, key, "src"@, SiteValue::Index(4));
            lemma_put_readable(e2, key, "oct"@, SiteValue::Index(spec_octave_index(v_octave)));
            let e3 = spec_put(e2, key, "oct"@, SiteValue::Index(spec_octave_index(v_octave)));
            lemma_put_readable(e3, key, "damp"@, SiteValue::Real(v_damping));
            let e4 = spec_put(e3, key, "damp"@, SiteValue::Real(v_damping));
            lemma_put_readable(e4, key, "bright"@, SiteValue::Real(v_brightness));
            let e5 = spec_put(e4, key, "bright"@, SiteValue::Real(v_brightness));
            lemma_put_readable(e5, key, "mdepth"@, SiteValue::Real(v_mod_depth));
            let e6 = spec_put(e5, key, "mdepth"@, SiteValue::Real(v_mod_depth));
            lemma_encode_mod_readable(v_modulation, spec_mod_key(key), e6);
            let em = spec_encode_mod(v_modulation, spec_mod_key(key), e6);
        },
        AudioNode::Formant { vowel: v_vowel, shift: v_shift, octave: v_octave, mod_depth: v_mod_depth, modulation: v_modulation } => {
            let e0 = t;
            lemma_octave_round_trip(v_octave);
            lemma_put_readable(e0, key, "leaf"@, SiteValue::Flag(true));
            let e1 = spec_put(e0, key, "leaf"@, SiteValue::Flag(true));
            lemma_put_readable(e1, key, "src"@, SiteValue::Index(5));
            let e2 = spec_put(e1, key, "src"@, SiteValue::Index(5));
            lemma_put_readable(e2, key, "vowel"@, SiteValue::Real(v_vowel));
            let e3 = spec_put(e2, key, "vowel"@, SiteValue::Real(v_vowel));
            lemma_put_readable(e3, key, "fshift"@, SiteValue::Real(v_shift));
            let e4 = spec_put(e3, key, "fshift"@, SiteValue::Real(v_shift));
            lemma_put_readable(e4, key, "oct"@, SiteValue::Index(spec_octave_index(v_octave)));
            let e5 = spec_put(e4, key, "oct"@, SiteValue::Index(spec_octave_index(v_octave)));
            lemma_put_readable(e5, key, "mdepth"@, SiteValue::Real(v_mod_depth));
            let e6 = spec_put(e5, key, "mdepth"@, SiteValue::Real(v_mod_depth));
            lemma_encode_mod_readable(v_modulation, spec_mod_key(key), e6);
            let em = spec_encode_mod(v_modulation, spec_mod_key(key), e6);
        },
        AudioNode::Mix { balance: v_balance, a: v_a, b: v_b } => {
            let e0 = t;
            lemma_put_readable(e0, key, "leaf"@, SiteValue::Flag(false));
            let e1 = spec_put(e0, key, "leaf"@, SiteValue::Flag(false));
            lemma_put_readable(e1, key, "op"@, SiteValue::Index(0));
            let e2 = spec_put(e1, key, "op"@, SiteValue::Index(0));
            lemma_put_readable(e2, key, "bal"@, SiteValue::Real(v_balance));
            let e3 = spec_put(e2, key, "bal"@, SiteValue::Real(v_balance));
            lemma_encode_node_readable(*v_a, spec_child_key(key, 0), e3);
            let c0 = spec_encode_node(*v_a, spec_child_key(key, 0), e3);
            lemma_encode_node_readable(*v_b, spec_child_key(key, 1), c0);
            let c1 = spec_encode_node(*v_b, spec_child_key(key, 1), c0);
        },
        AudioNode::Filter { kind: v_kind, cutoff: v_cutoff, resonance: v_resonance, mod_depth: v_mod_depth, input: v_input, modulation: v_modulation } => {
            let e0 = t;
            lemma_put_readable(e0, key, "leaf"@, SiteValue::Flag(false));
            let e1 = spec_put(e0, key, "leaf"@, SiteValue::Flag(false));
            lemma_put_readable(e1, key, "op"@, SiteValue::Index(1));
            let e2 = spec_put(e1, key, "op"@, SiteValue::Index(1));
            lemma_put_readable(e2, key, "fkind"@, SiteValue::Index(v_kind.spec_index() as usize));
            let e3 = spec_put(e2, key, "fkind"@, SiteValue::Index(v_kind.spec_index() as usize));
            lemma_put_readable(e3, key, "cut"@, SiteValue::Real(v_cutoff));
            let e4 = spec_put(e3, key, "cut"@, SiteValue::Real(v_cutoff));
            lemma_put_readable(e4, key, "res"@, SiteValue::Real(v_resonance));
            let e5 = spec_put(e4, key, "res"@, SiteValue::Real(v_resonance));
            lemma_put_readable(e5, key, "mdepth"@, SiteValue::Real(v_mod_depth));
            let e6 = spec_put(e5, key, "mdepth"@, SiteValue::Real(v_mod_depth));
            lemma_encode_mod_readable(v_modulation, spec_mod_key(key), e6);
            let em = spec_encode_mod(v_modulation, spec_mod_key(key), e6);
            lemma_encode_node_readable(*v_input, spec_child_key(key, 0), em);
            let c0 = spec_encode_node(*v_input, spec_child_key(key, 0), em);
        },
        AudioNode::Fold { threshold: v_threshold, mod_depth: v_mod_depth, input: v_input, modulation: v_modulation } => {
            let e0 = t;
            lemma_put_readable(e0, key, "leaf"@, SiteValue::Flag(false));
            let e1 = spec_put(e0, key, "leaf"@, SiteValue::Flag(false));
            lemma_put_readable(e1, key, "op"@, SiteValue::Index(2));
            let e2 = spec_put(e1, key, "op"@, SiteValue::Index(2));
            lemma_put_readable(e2, key, "thresh"@, SiteValue::Real(v_threshold));
            let e3 = spec_put(e2, key, "thresh"@, SiteValue::Real(v_threshold));
            lemma_put_readable(e3, key, "mdepth"@, SiteValue::Real(v_mod_depth));
            let e4 = spec_put(e3, key, "mdepth"@, SiteValue::Real(v_mod_depth));
            lemma_encode_mod_readable(v_modulation, spec_mod_key(key), e4);
            let em = spec_encode_mod(v_modulation, spec_mod_key(key), e4);
            lemma_encode_node_readable(*v_input, spec_child_key(key, 0), em);
            let c0 = spec_encode_node(*v_input, spec_child_key(key, 0), em);
        },
        AudioNode::Delay { time: v_time, feedback: v_feedback, mix: v_mix, mod_depth: v_mod_depth, input: v_input, modulation: v_modulation } => {
            let e0 = t;
            lemma_put_readable(e0, key, "leaf"@, SiteValue::Flag(false));
            let e1 = spec_put(e0, key, "leaf"@, SiteValue::Flag(false));
            lemma_put_readable(e1, key, "op"@, SiteValue::Index(3));
            let e2 = spec_put(e1, key, "op"@, SiteValue::Index(3));
            lemma_put_readable(e2, key, "time"@, SiteValue::Real(v_time));
            let e3 = spec_put(e2, key, "time"@, SiteValue::Real(v_time));
            lemma_put_readable(e3, key, "fb"@, SiteValue::Real(v_feedback));
            let e4 = spec_put(e3, key, "fb"@, SiteValue::Real(v_feedback));
            lemma_put_readable(e4, key, "dmix"@, SiteValue::Real(v_mix));
            let e5 = spec_put(e4, key, "dmix"@, SiteValue::Real(v_mix));
            lemma_put_readable(e5, key, "mdepth"@, SiteValue::Real(v_mod_depth));
            let e6 = spec_put(e5, key, "mdepth"@, SiteValue::Real(v_mod_depth));
            lemma_encode_mod_readable(v_modulation, spec_mod_key(key), e6);
            let em = spec_encode_mod(v_modulation, spec_mod_key(key), e6);
            lemma_encode_node_readable(*v_input, spec_child_key(key, 0), em);
            let c0 = spec_encode_node(*v_input, spec_child_key(key, 0), em);
        },
        AudioNode::Chorus { rate: v_rate, depth: v_depth, mix: v_mix, mod_depth: v_mod_depth, input: v_input, modulation: v_modulation } => {
            let e0 = t;
            lemma_put_readable(e0, key, "leaf"@, SiteValue::Flag(false));
            let e1 = spec_put(e0, key, "leaf"@, SiteValue::Flag(false));
            lemma_put_readable(e1, key, "op"@, SiteValue::Index(4));
            let e2 = spec_put(e1, key, "op"@, SiteValue::Index(4));
            lemma_put_readable(e2, key, "crate"@, SiteValue::Real(v_rate));
            let e3 = spec_put(e2, key, "crate"@, SiteValue::Real(v_rate));
            lemma_put_readable(e3, key, "cdepth"@, SiteValue::Real(v_depth));
            let e4 = spec_put(e3, key, "cdepth"@, SiteValue::Real(v_depth));
            lemma_put_readable(e4, key, "cmix"@, SiteValue::Real(v_mix));
            let e5 = spec_put(e4, key, "cmix"@, SiteValue::Real(v_mix));
            lemma_put_readable(e5, key, "mdepth"@, SiteValue::Real(v_mod_depth));
            let e6 = spec_put(e5, key, "mdepth"@, SiteValue::Real(v_mod_depth));
            lemma_encode_mod_readable(v_modulation, spec_mod_key(key), e6);
            let em = spec_encode_mod(v_modulation, spec_mod_key(key), e6);
            lemma_encode_node_readable(*v_input, spec_child_key(key, 0), em);
            let c0 = spec_encode_node(*v_input, spec_child_key(key, 0), em);
        },
        AudioNode::Reverb { size: v_size, damp: v_damp, mix: v_mix, mod_depth: v_mod_depth, input: v_input, modulation: v_modulation } => {
            let e0 = t;
            lemma_put_readable(e0, key, "leaf"@, SiteValue::Flag(false));
            let e1 = spec_put(e0, key, "leaf"@, SiteValue::Flag(false));
            lemma_put_readable(e1, key, "op"@, SiteValue::Index(5));
            let e2 = spec_put(e1, key, "op"@, SiteValue::Index(5));
            lemma_put_readable(e2, key, "rsize"@, SiteValue::Real(v_size));
            let e3 = spec_put(e2, key, "rsize"@, SiteValue::Real(v_size));
            lemma_put_readable(e3, key, "rdamp"@, SiteValue::Real(v_damp));
            let e4 = spec_put(e3, key, "rdamp"@, SiteValue::Real(v_damp));
            lemma_put_readable(e4, key, "rmix"@, SiteValue::Real(v_mix));
            let e5 = spec_put(e4, key, "rmix"@, SiteValue::Real(v_mix));
            lemma_put_readable(e5, key, "mdepth"@, SiteValue::Real(v_mod_depth));
            let e6 = spec_put(e5, key, "mdepth"@, SiteValue::Real(v_mod_depth));
            lemma_encode_mod_readable(v_modulation, spec_mod_key(key), e6);
            let em = spec_encode_mod(v_modulation, spec_mod_key(key), e6);
            lemma_encode_node_readable(*v_input, spec_child_key(key, 0), em);
            let c0 = spec_encode_node(*v_input, spec_child_key(key, 0), em);
        },
        AudioNode::Distortion { drive: v_drive, tone: v_tone, mode: v_mode, mod_depth: v_mod_depth, input: v_input, modulation: v_modulation } => {
            let e0 = t;
            lemma_put_readable(e0, key, "leaf"@, SiteValue::Flag(false));
            let e1 = spec_put(e0, key, "leaf"@, SiteValue::Flag(false));
            lemma_put_readable(e1, key, "op"@, SiteValue::Index(6));
            let e2 = spec_put(e1, key, "op"@, SiteValue::Index(6));
            lemma_put_readable(e2, key, "drive"@, SiteValue::Real(v_drive));
            let e3 = spec_put(e2, key, "drive"@, SiteValue::Real(v_drive));
            lemma_put_readable(e3, key, "tone"@, SiteValue::Real(v_tone));
            let e4 = spec_put(e3, key, "tone"@, SiteValue::Real(v_tone));
            lemma_put_readable(e4, key, "dmode"@, SiteValue::Index(v_mode.spec_index() as usize));
            let e5 = spec_put(e4, key, "dmode"@, SiteValue::Index(v_mode.spec_index() as usize));
            lemma_put_readable(e5, key, "mdepth"@, SiteValue::Real(v_mod_depth));
            let e6 = spec_put(e5, key, "mdepth"@, SiteValue::Real(v_mod_depth));
            lemma_encode_mod_readable(v_modulation, spec_mod_key(key), e6);
            let em = spec_encode_mod(v_modulation, spec_mod_key(key), e6);
            lemma_encode_node_readable(*v_input, spec_child_key(key, 0), em);
            let c0 = spec_encode_node(*v_input, spec_child_key(key, 0), em);
        },
        AudioNode::Bitcrush { bits: v_bits, downsample: v_downsample, mod_depth: v_mod_depth, input: v_input, modulation: v_modulation } => {
            let e0 = t;
            lemma_put_readable(e0, key, "leaf"@, SiteValue::Flag(false));
            let e1 = spec_put(e0, key, "leaf"@, SiteValue::Flag(false));
            lemma_put_readable(e1, key, "op"@, SiteValue::Index(7));
            let e2 = spec_put(e1, key, "op"@, SiteValue::Index(7));
            lemma_put_readable(e2, key, "bits"@, SiteValue::Real(v_bits));
            let e3 = spec_put(e2, key, "bits"@, SiteValue::Real(v_bits));
            lemma_put_readable(e3, key, "dsamp"@, SiteValue::Real(v_downsample));
            let e4 = spec_put(e3, key, "dsamp"@, SiteValue::Real(v_downsample));
            lemma_put_readable(e4, key, "mdepth"@, SiteValue::Real(v_mod_depth));
            let e5 = spec_put(e4, key, "mdepth"@, SiteValue::Real(v_mod_depth));
            lemma_encode_mod_readable(v_modulation, spec_mod_key(key), e5);
            let em = spec_encode_mod(v_modulation, spec_mod_key(key), e5);
            lemma_encode_node_readable(*v_input, spec_child_key(key, 0), em);
            let c0 = spec_encode_node(*v_input, spec_child_key(key, 0), em);
        },
        AudioNode::Phaser { rate: v_rate, depth: v_depth, feedback: v_feedback, mod_depth: v_mod_depth, input: v_input, modulation: v_modulation } => {
            let e0 = t;
            lemma_put_readable(e0, key, "leaf"@, SiteValue::Flag(false));
            let e1 = spec_put(e0, key, "leaf"@, SiteValue::Flag(false));
            lemma_put_readable(e1, key, "op"@, SiteValue::Index(8));
            let e2 = spec_put(e1, key, "op"@, SiteValue::Index(8));
            lemma_put_readable(e2, key, "prate"@, SiteValue::Real(v_rate));
            let e3 = spec_put(e2, key, "prate"@, SiteValue::Real(v_rate));
            lemma_put_readable(e3, key, "pdepth"@, SiteValue::Real(v_depth));
            let e4 = spec_put(e3, key, "pdepth"@, SiteValue::Real(v_depth));
            lemma_put_readable(e4, key, "pfb"@, SiteValue::Real(v_feedback));
            let e5 = spec_put(e4, key, "pfb"@, SiteValue::Real(v_feedback));
            lemma_put_readable(e5, key, "mdepth"@, SiteValue::Real(v_mod_depth));
            let e6 = spec_put(e5, key, "mdepth"@, SiteValue::Real(v_mod_depth));
            lemma_encode_mod_readable(v_modulation, spec_mod_key(key), e6);
            let em = spec_encode_mod(v_modulation, spec_mod_key(key), e6);
            lemma_encode_node_readable(*v_input, spec_child_key(key, 0), em);
            let c0 = spec_encode_node(*v_input, spec_child_key(key, 0), em);
        },
        AudioNode::RingMod { mix: v_mix, a: v_a, b: v_b } => {
            let e0 = t;
            lemma_put_readable(e0, key, "leaf"@, SiteValue::Flag(false));
            let e1 = spec_put(e0, key, "leaf"@, SiteValue::Flag(false));
            lemma_put_readable(e1, key, "op"@, SiteValue::Index(9));
            let e2 = spec_put(e1, key, "op"@, SiteValue::Index(9));
            lemma_put_readable(e2, key, "rgmix"@, SiteValue::Real(v_mix));
            let e3 = spec_put(e2, key, "rgmix"@, SiteValue::Real(v_mix));
            lemma_encode_node_readable(*v_a, spec_child_key(key, 0), e3);
            let c0 = spec_encode_node(*v_a, spec_child_key(key, 0), e3);
            lemma_encode_node_readable(*v_b, spec_child_key(key, 1), c0);
            let c1 = spec_encode_node(*v_b, spec_child_key(key, 1), c0);
        },
        AudioNode::Flanger { rate: v_rate, depth: v_depth, feedback: v_feedback, mod_depth: v_mod_depth, input: v_input, modulation: v_modulation } => {
            let e0 = t;
            lemma_put_readable(e0, key, "leaf"@, SiteValue::Flag(false));
            let e1 = spec_put(e0, key, "leaf"@, SiteValue::Flag(false));
            lemma_put_readable(e1, key, "op"@, SiteValue::Index(10));
            let e2 = spec_put(e1, key, "op"@, SiteValue::Index(10));
            lemma_put_readable(e2, key, "frate"@, SiteValue::Real(v_rate));
            let e3 = spec_put(e2, key, "frate"@, SiteValue::Real(v_rate));
            lemma_put_readable(e3, key, "fdepth"@, SiteValue::Real(v_depth));
            let e4 = spec_put(e3, key, "fdepth"@, SiteValue::Real(v_depth));
            lemma_put_readable(e4, key, "ffb"@, SiteValue::Real(v_feedback));
            let e5 = spec_put(e4, key, "ffb"@, SiteValue::Real(v_feedback));
            lemma_put_readable(e5, key, "mdepth"@, SiteValue::Real(v_mod_depth));
            let e6 = spec_put(e5, key, "mdepth"@, SiteValue::Real(v_mod_depth));
            lemma_encode_mod_readable(v_modulation, spec_mod_key(key), e6);
            let em = spec_encode_mod(v_modulation, spec_mod_key(key), e6);
            lemma_encode_node_readable(*v_input, spec_child_key(key, 0), em);
            let c0 = spec_encode_node(*v_input, spec_child_key(key, 0), em);
        },
        AudioNode::Tremolo { rate: v_rate, depth: v_depth, shape: v_shape, mod_depth: v_mod_depth, input: v_input, modulation: v_modulation } => {
            let e0 = t;
            lemma_put_readable(e0, key, "leaf"@, SiteValue::Flag(false));
            let e1 = spec_put(e0, key, "leaf"@, SiteValue::Flag(false));
            lemma_put_readable(e1, key, "op"@, SiteValue::Index(11));
            let e2 = spec_put(e1, key, "op"@, SiteValue::Index(11));
            lemma_put_readable(e2, key, "trate"@, SiteValue::Real(v_rate));
            let e3 = spec_put(e2, key, "trate"@, SiteValue::Real(v_rate));
            lemma_put_readable(e3, key, "tdepth"@, SiteValue::Real(v_depth));
            let e4 = spec_put(e3, key, "tdepth"@, SiteValue::Real(v_depth));
            lemma_put_readable(e4, key, "tshape"@, SiteValue::Real(v_shape));
            let e5 = spec_put(e4, key, "tshape"@, SiteValue::Real(v_shape));
            lemma_put_readable(e5, key, "mdepth"@, SiteValue::Real(v_mod_depth));
            let e6 = spec_put(e5, key, "mdepth"@, SiteValue::Real(v_mod_depth));
            lemma_encode_mod_readable(v_modulation, spec_mod_key(key), e6);
            let em = spec_encode_mod(v_modulation, spec_mod_key(key), e6);
            lemma_encode_node_readable(*v_input, spec_child_key(key, 0), em);
            let c0 = spec_encode_node(*v_input, spec_child_key(key, 0), em);
        },
        AudioNode::Vibrato { rate: v_rate, depth: v_depth, mix: v_mix, mod_depth: v_mod_depth, input: v_input, modulation: v_modulation } => {
            let e0 = t;
            lemma_put_readable(e0, key, "leaf"@, SiteValue::Flag(false));
            let e1 = spec_put(e0, key, "leaf"@, SiteValue::Flag(false));
            lemma_put_readable(e1, key, "op"@, SiteValue::Index(12));
            let e2 = spec_put(e1, key, "op"@, SiteValue::Index(12));
            lemma_put_readable(e2, key, "vrate"@, SiteValue::Real(v_rate));
            let e3 = spec_put(e2, key, "vrate"@, SiteValue::Real(v_rate));
            lemma_put_readable(e3, key, "vdepth"@, SiteValue::Real(v_depth));
            let e4 = spec_put(e3, key, "vdepth"@, SiteValue::Real(v_depth));
            lemma_put_readable(e4, key, "vmix"@, SiteValue::Real(v_mix));
            let e5 = spec_put(e4, key, "vmix"@, SiteValue::Real(v_mix));
            lemma_put_readable(e5, key, "mdepth"@, SiteValue::Real(v_mod_depth));
            let e6 = spec_put(e5, key, "mdepth"@, SiteValue::Real(v_mod_depth));
            lemma_encode_mod_readable(v_modulation, spec_mod_key(key), e6);
            let em = spec_encode_mod(v_modulation, spec_mod_key(key), e6);
            lemma_encode_node_readable(*v_input, spec_child_key(key, 0), em);
            let c0 = spec_encode_node(*v_input, spec_child_key(key, 0), em);
        },
        AudioNode::Eq { low: v_low, mid: v_mid, high: v_high, mod_depth: v_mod_depth, input: v_input, modulation: v_modulation } => {
            let e0 = t;
            lemma_put_readable(e0, key, "leaf"@, SiteValue::Flag(false));
            let e1 = spec_put(e0, key, "leaf"@, SiteValue::Flag(false));
            lemma_put_readable(e1, key, "op"@, SiteValue::Index(13));
            let e2 = spec_put(e1, key, "op"@, SiteValue::Index(13));
            lemma_put_readable(e2, key, "low"@, SiteValue::Real(v_low));
            let e3 = spec_put(e2, key, "low"@, SiteValue::Real(v_low));
            lemma_put_readable(e3, key, "mid"@, SiteValue::Real(v_mid));
            let e4 = spec_put(e3, key, "mid"@, SiteValue::Real(v_mid));
            lemma_put_readable(e4, key, "high"@, SiteValue::Real(v_high));
            let e5 = spec_put(e4, key, "high"@, SiteValue::Real(v_high));
            lemma_put_readable(e5, key, "mdepth"@, SiteValue::Real(v_mod_depth));
            let e6 = spec_put(e5, key, "mdepth"@, SiteValue::Real(v_mod_depth));
            lemma_encode_mod_readable(v_modulation, spec_mod_key(key), e6);
            let em = spec_encode_mod(v_modulation, spec_mod_key(key), e6);
            lemma_encode_node_readable(*v_input, spec_child_key(key, 0), em);
            let c0 = spec_encode_node(*v_input, spec_child_key(key, 0), em);
        },
        AudioNode::Granular { position: v_position, size: v_size, density: v_density, mod_depth: v_mod_depth, input: v_input, modulation: v_modulation } => {
            let e0 = t;
            lemma_put_readable(e0, key, "leaf"@, SiteValue::Flag(false));
            let e1 = spec_put(e0, key, "leaf"@, SiteValue::Flag(false));
            lemma_put_readable(e1, key, "op"@, SiteValue::Index(14));
            let e2 = spec_put(e1, key, "op"@, SiteValue::Index(14));
            lemma_put_readable(e2, key, "gpos"@, SiteValue::Real(v_position));
            let e3 = spec_put(e2, key, "gpos"@, SiteValue::Real(v_position));
            lemma_put_readable(e3, key, "gsize"@, SiteValue::Real(v_size));
            let e4 = spec_put(e3, key, "gsize"@, SiteValue::Real(v_size));
            lemma_put_readable(e4, key, "gdens"@, SiteValue::Real(v_density));
            let e5 = spec_put(e4, key, "gdens"@, SiteValue::Real(v_density));
            lemma_put_readable(e5, key, "mdepth"@, SiteValue::Real(v_mod_depth));
            let e6 = spec_put(e5, key, "mdepth"@, SiteValue::Real(v_mod_depth));
            lemma_encode_mod_readable(v_modulation, spec_mod_key(key), e6);
            let em = spec_encode_mod(v_modulation, spec_mod_key(key), e6);
            lemma_encode_node_readable(*v_input, spec_child_key(key, 0), em);
            let c0 = spec_encode_node(*v_input, spec_child_key(key, 0), em);
        },
        AudioNode::Shift { semis: v_semis, window: v_window, mix: v_mix, mod_depth: v_mod_depth, input: v_input, modulation: v_modulation } => {
            let e0 = t;
            lemma_put_readable(e0, key, "leaf"@, SiteValue::Flag(false));
            let e1 = spec_put(e0, key, "leaf"@, SiteValue::Flag(false));
            lemma_put_readable(e1, key, "op"@, SiteValue::Index(15));
            let e2 = spec_put(e1, key, "op"@, SiteValue::Index(15));
            lemma_put_readable(e2, key, "semis"@, SiteValue::Real(v_semis));
            let e3 = spec_put(e2, key, "semis"@, SiteValue::Real(v_semis));
            lemma_put_readable(e3, key, "window"@, SiteValue::Real(v_window));
            let e4 = spec_put(e3, key, "window"@, SiteValue::Real(v_window));
            lemma_put_readable(e4, key, "smix"@, SiteValue::Real(v_mix));
            let e5 = spec_put(e4, key, "smix"@, SiteValue::Real(v_mix));
            lemma_put_readable(e5, key, "mdepth"@, SiteValue::Real(v_mod_depth));
            let e6 = spec_put(e5, key, "mdepth"@, SiteValue::Real(v_mod_depth));
            lemma_encode_mod_readable(v_modulation, spec_mod_key(key), e6);
            let em = spec_encode_mod(v_modulation, spec_mod_key(key), e6);
            lemma_encode_node_readable(*v_input, spec_child_key(key, 0), em);
            let c0 = spec_encode_node(*v_input, spec_child_key(key, 0), em);
        },
        AudioNode::Comp { threshold: v_threshold, ratio: v_ratio, makeup: v_makeup, mod_depth: v_mod_depth, input: v_input, sidechain: v_sidechain, modulation: v_modulation } => {
            let e0 = t;
            lemma_put_readable(e0, key, "leaf"@, SiteValue::Flag(false));
            let e1 = spec_put(e0, key, "leaf"@, SiteValue::Flag(false));
            lemma_put_readable(e1, key, "op"@, SiteValue::Index(16));
            let e2 = spec_put(e1, key, "op"@, SiteValue::Index(16));
            lemma_put_readable(e2, key, "thresh"@, SiteValue::Real(v_threshold));
            let e3 = spec_put(e2, key, "thresh"@, SiteValue::Real(v_threshold));
            lemma_put_readable(e3, key, "ratio"@, SiteValue::Real(v_ratio));
            let e4 = spec_put(e3, key, "ratio"@, SiteValue::Real(v_ratio));
            lemma_put_readable(e4, key, "makeup"@, SiteValue::Real(v_makeup));
            let e5 = spec_put(e4, key, "makeup"@, SiteValue::Real(v_makeup));
            lemma_put_readable(e5, key, "mdepth"@, SiteValue::Real(v_mod_depth));
            let e6 = spec_put(e5, key, "mdepth"@, SiteValue::Real(v_mod_depth));
            lemma_encode_mod_readable(v_modulation, spec_mod_key(key), e6);
            let em = spec_encode_mod(v_modulation, spec_mod_key(key), e6);
            lemma_encode_node_readable(*v_input, spec_child_key(key, 0), em);
            let c0 = spec_encode_node(*v_input, spec_child_key(key, 0), em);
            lemma_encode_node_readable(*v_sidechain, spec_child_key(key, 1), c0);
            let c1 = spec_encode_node(*v_sidechain, spec_child_key(key, 1), c0);
        },
        AudioNode::Duck { amount: v_amount, threshold: v_threshold, release: v_release, mod_depth: v_mod_depth, input: v_input, key: v_key, modulation: v_modulation } => {
            let e0 = t;
            lemma_put_readable(e0, key, "leaf"@, SiteValue::Flag(false));
            let e1 = spec_put(e0, key, "leaf"@, SiteValue::Flag(false));
            lemma_put_readable(e1, key, "op"@, SiteValue::Index(17));
            let e2 = spec_put(e1, key, "op"@, SiteValue::Index(17));
            lemma_put_readable(e2, key, "amount"@, SiteValue::Real(v_amount));
            let e3 = spec_put(e2, key, "amount"@, SiteValue::Real(v_amount));
            lemma_put_readable(e3, key, "dthresh"@, SiteValue::Real(v_threshold));
            let e4 = spec_put(e3, key, "dthresh"@, SiteValue::Real(v_threshold));
            lemma_put_readable(e4, key, "drel"@, SiteValue::Real(v_release));
            let e5 = spec_put(e4, key, "drel"@, SiteValue::Real(v_release));
            lemma_put_readable(e5, key, "mdepth"@, SiteValue::Real(v_mod_depth));
            let e6 = spec_put(e5, key, "mdepth"@, SiteValue::Real(v_mod_depth));
            lemma_encode_mod_readable(v_modulation, spec_mod_key(key), e6);
            let em = spec_encode_mod(v_modulation, spec_mod_key(key), e6);
            lemma_encode_node_readable(*v_input, spec_child_key(key, 0), em);
            let c0 = spec_encode_node(*v_input, spec_child_key(key, 0), em);
            lemma_encode_node_readable(*v_key, spec_child_key(key, 1), c0);
            let c1 = spec_encode_node(*v_key, spec_child_key(key, 1), c0);
        },
        AudioNode::Gate { threshold: v_threshold, range: v_range, release: v_release, mod_depth: v_mod_depth, input: v_input, sidechain: v_sidechain, modulation: v_modulation } => {
            let e0 = t;
            lemma_put_readable(e0, key, "leaf"@, SiteValue::Flag(false));
            let e1 = spec_put(e0, key, "leaf"@, SiteValue::Flag(false));
            lemma_put_readable(e1, key, "op"@, SiteValue::Index(18));
            let e2 = spec_put(e1, key, "op"@, SiteValue::Index(18));
            lemma_put_readable(e2, key, "gthresh"@, SiteValue::Real(v_threshold));
            let e3 = spec_put(e2, key, "gthresh"@, SiteValue::Real(v_threshold));
            lemma_put_readable(e3, key, "range"@, SiteValue::Real(v_range));
            let e4 = spec_put(e3, key, "range"@, SiteValue::Real(v_range));
            lemma_put_readable(e4, key, "grel"@, SiteValue::Real(v_release));
            let e5 = spec_put(e4, key, "grel"@, SiteValue::Real(v_release));
            lemma_put_readable(e5, key, "mdepth"@, SiteValue::Real(v_mod_depth));
            let e6 = spec_put(e5, key, "mdepth"@, SiteValue::Real(v_mod_depth));
            lemma_encode_mod_readable(v_modulation, spec_mod_key(key), e6);
            let em = spec_encode_mod(v_modulation, spec_mod_key(key), e6);
            lemma_encode_node_readable(*v_input, spec_child_key(key, 0), em);
            let c0 = spec_encode_node(*v_input, spec_child_key(key, 0), em);
            lemma_encode_node_readable(*v_sidechain, spec_child_key(key, 1), c0);
            let c1 = spec_encode_node(*v_sidechain, spec_child_key(key, 1), c0);
        },
        AudioNode::Vocoder { bands: v_bands, attack: v_attack, release: v_release, mod_depth: v_mod_depth, carrier: v_carrier, modulator: v_modulator, modulation: v_modulation } => {
            let e0 = t;
            lemma_put_readable(e0, key, "leaf"@, SiteValue::Flag(false));
            let e1 = spec_put(e0, key, "leaf"@, SiteValue::Flag(false));
            lemma_put_readable(e1, key, "op"@, SiteValue::Index(19));
            let e2 = spec_put(e1, key, "op"@, SiteValue::Index(19));
            lemma_put_readable(e2, key, "bands"@, SiteValue::Real(v_bands));
            let e3 = spec_put(e2, key, "bands"@, SiteValue::Real(v_bands));
            lemma_put_readable(e3, key, "vatt"@, SiteValue::Real(v_attack));
            let e4 = spec_put(e3, key, "vatt"@, SiteValue::Real(v_attack));
            lemma_put_readable(e4, key, "vrel"@, SiteValue::Real(v_release));
            let e5 = spec_put(e4, key, "vrel"@, SiteValue::Real(v_release));
            lemma_put_readable(e5, key, "mdepth"@, SiteValue::Real(v_mod_depth));
            let e6 = spec_put(e5, key, "mdepth"@, SiteValue::Real(v_mod_depth));
            lemma_encode_mod_readable(v_modulation, spec_mod_key(key), e6);
            let em = spec_encode_mod(v_modulation, spec_mod_key(key), e6);
            lemma_encode_node_readable(*v_carrier, spec_child_key(key, 0), em);
            let c0 = spec_encode_node(*v_carrier, spec_child_key(key, 0), em);
            lemma_encode_node_readable(*v_modulator, spec_child_key(key, 1), c0);
            let c1 = spec_encode_node(*v_modulator, spec_child_key(key, 1), c0);
        },
    }
}

/// Decoding a modulation term never overflows: no modulation site is an
/// octave.
pub proof fn lemma_decode_mod_no_overflow(t: Map<Seq<char>, SiteValue>, key: Seq<char>)
    requires
        t.dom().finite(),
        is_plain(key),
    ensures
        !(spec_decode_mod(t, key) is Overflow),
    decreases weight(t, key),
{
    if read_index(t, key, "mod"@) is Some {
        lemma_layout(key);
        lemma_weight_drops(t, key, "mod"@);
        lemma_decode_mod_no_overflow(t, spec_child_key(key, 0));
        lemma_decode_mod_no_overflow(t, spec_child_key(key, 1));
    }
}

/// Decoding the audio term at a plain key of a trace whose octaves are
/// readable never overflows.
pub proof fn lemma_decode_node_no_overflow(t: Map<Seq<char>, SiteValue>, key: Seq<char>)
    requires
        t.dom().finite(),
        is_plain(key),
        octaves_readable(t),
    ensures
        !(spec_decode_node(t, key) is Overflow),
    decreases weight(t, key), 1nat,
{
    lemma_layout(key);
    if let Some(leaf) = read_flag(t, key, "leaf"@) {
        if leaf {
            lemma_decode_mod_no_overflow(t, spec_mod_key(key));
            let a = spec_address(key, "oct"@);
            lemma_index_sites_plain();
            lemma_escape_plain(key);
            lemma_escape_plain("oct"@);
            lemma_split_joined(key, "oct"@);
            if t.dom().contains(a) {
                assert(spec_split_addr(a).1 == "oct"@);
            }
            assert(spec_decode_node(t, key) == spec_decode_source(t, key));
        } else {
            lemma_decode_processor_no_overflow(t, key);
        }
    }
}

/// Decoding the processor at a plain key of a trace whose octaves are
/// readable never overflows.
#[verifier::rlimit(40)]
proof fn lemma_decode_processor_no_overflow(t: Map<Seq<char>, SiteValue>, key: Seq<char>)
    requires
        t.dom().finite(),
        is_plain(key),
        octaves_readable(t),
        read_flag(t, key, "leaf"@) == Some(false),
    ensures
        !(spec_decode_node(t, key) is Overflow),
    decreases weight(t, key), 0nat,
{
    lemma_layout(key);
    if read_index(t, key, "op"@) is Some {
        lemma_weight_drops(t, key, "op"@);
        lemma_decode_mod_no_overflow(t, spec_mod_key(key));
        lemma_decode_node_no_overflow(t, spec_child_key(key, 0));
        lemma_decode_node_no_overflow(t, spec_child_key(key, 1));
        let tag = read_index(t, key, "op"@).unwrap();
        if tag == 0 {
            assert(!(spec_decode_mix(t, key) is Overflow));
        } else if tag == 1 {
            assert(!(spec_decode_filter(t, key) is Overflow));
        } else if tag == 2 {
            assert(!(spec_decode_fold(t, key) is Overflow));
        } else if tag == 3 {
            assert(!(spec_decode_delay(t, key) is Overflow));
        } else if tag == 4 {
            assert(!(spec_decode_chorus(t, key) is Overflow));
        } else if tag == 5 {
            assert(!(spec_decode_reverb(t, key) is Overflow));
        } else if tag == 6 {
            assert(!(spec_decode_distortion(t, key) is Overflow));
        } else if tag == 7 {
            assert(!(spec_decode_bitcrush(t, key) is Overflow));
        } else if tag == 8 {
            assert(!(spec_decode_phaser(t, key) is Overflow));
        } else if tag == 9 {
            assert(!(spec_decode_ring_mod(t, key) is Overflow));
        } else if tag == 10 {
            assert(!(spec_decode_flanger(t, key) is Overflow));
        } else if tag == 11 {
            assert(!(spec_decode_tremolo(t, key) is Overflow));
        } else if tag == 12 {
            assert(!(spec_decode_vibrato(t, key) is Overflow));
        } else if tag == 13 {
            assert(!(spec_decode_eq(t, key) is Overflow));
        } else if tag == 14 {
            assert(!(spec_decode_granular(t, key) is Overflow));
        } else if tag == 15 {
            assert(!(spec_decode_shift(t, key) is Overflow));
        } else if tag == 16 {
            assert(!(spec_decode_comp(t, key) is Overflow));
        } else if tag == 17 {
            assert(!(spec_decode_duck(t, key) is Overflow));
        } else if tag == 18 {
            assert(!(spec_decode_gate(t, key) is Overflow));
        } else if tag == 19 {
            assert(!(spec_decode_vocoder(t, key) is Overflow));
        }
    }
    assert(spec_decode_node(t, key) == spec_decode_processor(t, key));
}
/// No address of `t` lies below `key`.
pub open spec fn clear_below(t: Map<Seq<char>, SiteValue>, key: Seq<char>) -> bool {
    forall|a: Seq<char>| #[trigger] t.dom().contains(a) ==> !below(a, key)
}

/// Recording a modulation term below a key that holds nothing yet records
/// exactly its site count of new addresses, all below the key.
pub proof fn lemma_encode_mod_count(m: ModNode, key: Seq<char>, t: Map<Seq<char>, SiteValue>)
    requires
        is_plain(key),
        t.dom().finite(),
        clear_below(t, key),
    ensures
        spec_encode_mod(m, key, t).dom().finite(),
        spec_encode_mod(m, key, t).dom().len() == t.dom().len() + m.spec_site_count(),
        forall|a: Seq<char>|
            #[trigger] spec_encode_mod(m, key, t).dom().contains(a) ==> t.dom().contains(a) || below(
                a,
                key,
            ),
    decreases m,
{
    lemma_layout(key);
    lemma_address_injective_forall(key);
    match m {
        ModNode::Empty => {
            reveal_strlit("mod");
        },
        ModNode::Lfo { wave: v_wave, rate: v_rate } => {
            reveal_strlit("mod");
            reveal_strlit("wave");
            reveal_strlit("rate");
            assert("wave"@[0] != "rate"@[0]);
        },
        ModNode::Env { attack: v_attack, decay: v_decay } => {
            reveal_strlit("mod");
            reveal_strlit("att");
            reveal_strlit("dec");
            assert("mod"@[0] != "att"@[0]);
            assert("mod"@[0] != "dec"@[0]);
            assert("att"@[0] != "dec"@[0]);
        },
        ModNode::Rand { rate: v_rate, glide: v_glide } => {
            reveal_strlit("mod");
            reveal_strlit("rate");
            reveal_strlit("glide");
        },
        ModNode::Follow { sens: v_sens, release: v_release } => {
            reveal_strlit("mod");
            reveal_strlit("sens");
            reveal_strlit("rel");
            assert("mod"@[0] != "rel"@[0]);
        },
        ModNode::Euclid { rate: v_rate, steps: v_steps, pulses: v_pulses } => {
            reveal_strlit("mod");
            reveal_strlit("erate");
            reveal_strlit("esteps");
            reveal_strlit("epulses");
        },
        ModNode::Op { kind: v_kind, p0: v_p0, p1: v_p1, input: v_input } => {
            reveal_strlit("mod");
            reveal_strlit("modop");
            reveal_strlit("qroot");
            reveal_strlit("qscale");
            reveal_strlit("rise");
            reveal_strlit("fall");
            reveal_strlit("rmode");
            reveal_strlit("hrate");
            assert("modop"@[0] != "qroot"@[0]);
            assert("modop"@[0] != "rmode"@[0]);
            assert("modop"@[0] != "hrate"@[0]);
            assert("qroot"@[0] != "rmode"@[0]);
            assert("qroot"@[0] != "hrate"@[0]);
            assert("rise"@[0] != "fall"@[0]);
            assert("rmode"@[0] != "hrate"@[0]);
            let sites = v_kind.spec_param_sites();
            let e = spec_put(t, key, "mod"@, SiteValue::Index(6));
            let e = spec_put(e, key, "modop"@, SiteValue::Index(v_kind.spec_index() as usize));
            let e = spec_put(e, key, sites[0], SiteValue::Real(v_p0));
            let e = if sites.len() > 1 {
                spec_put(e, key, sites[1], SiteValue::Real(v_p1))
            } else {
                e
            };
            let k0 = spec_child_key(key, 0);
            assert(clear_below(e, k0));
            lemma_encode_mod_count(*v_input, k0, e);
        },
        ModNode::Pair { kind: v_kind, a: v_a, b: v_b } => {
            reveal_strlit("mod");
            reveal_strlit("pairop");
            let e = spec_put(t, key, "mod"@, SiteValue::Index(7));
            let e = spec_put(e, key, "pairop"@, SiteValue::Index(v_kind.spec_index() as usize));
            let k0 = spec_child_key(key, 0);
            let k1 = spec_child_key(key, 1);
            assert(clear_below(e, k0));
            lemma_encode_mod_count(*v_a, k0, e);
            let ea = spec_encode_mod(*v_a, k0, e);
            assert(clear_below(ea, k1));
            lemma_encode_mod_count(*v_b, k1, ea);
        },
    }
}

/// Recording a vco below a key that holds nothing yet records exactly
/// its site count of new addresses, all below the key.
#[verifier::rlimit(40)]
proof fn lemma_encode_vco_count(n: AudioNode, key: Seq<char>, t: Map<Seq<char>, SiteValue>)
    requires
        n is Vco,
        is_plain(key),
        t.dom().finite(),
        clear_below(t, key),
    ensures
        spec_encode_node(n, key, t).dom().finite(),
        spec_encode_node(n, key, t).dom().len() == t.dom().len() + n.spec_site_count(),
        forall|a: Seq<char>|
            #[trigger] spec_encode_node(n, key, t).dom().contains(a) ==> t.dom().contains(a) || below(
                a,
                key,
            ),
    decreases n, 0nat,
{
    lemma_layout(key);
    lemma_address_injective_forall(key);
    reveal_strlit("leaf");
    reveal_strlit("src");
    reveal_strlit("wave");
    reveal_strlit("oct");
    reveal_strlit("det");
    reveal_strlit("mdepth");
    assert("leaf"@[0] != "wave"@[0]);
    assert("src"@[0] != "oct"@[0]);
    assert("src"@[0] != "det"@[0]);
    assert("oct"@[0] != "det"@[0]);
    match n {
        AudioNode::Vco { wave: v_wave, octave: v_octave, detune: v_detune, mod_depth: v_mod_depth, modulation: v_modulation } => {
            let e = spec_put(t, key, "leaf"@, SiteValue::Flag(true));
            let e = spec_put(e, key, "src"@, SiteValue::Index(0));
            let e = spec_put(e, key, "wave"@, SiteValue::Index(v_wave.spec_index() as usize));
            let e = spec_put(e, key, "oct"@, SiteValue::Index(spec_octave_index(v_octave)));
            let e = spec_put(e, key, "det"@, SiteValue::Real(v_detune));
            let e = spec_put(e, key, "mdepth"@, SiteValue::Real(v_mod_depth));
            let km = spec_mod_key(key);
            assert(clear_below(e, km));
            lemma_encode_mod_count(v_modulation, km, e);
            let em = spec_encode_mod(v_modulation, km, e);
        },
        _ => {},
    }
}

/// Recording a supersaw below a key that holds nothing yet records exactly
/// its site count of new addresses, all below the key.
#[verifier::rlimit(40)]
proof fn lemma_encode_supersaw_count(n: AudioNode, key: Seq<char>, t: Map<Seq<char>, SiteValue>)
    requires
        n is Supersaw,
        is_plain(key),
        t.dom().finite(),
        clear_below(t, key),
    ensures
        spec_encode_node(n, key, t).dom().finite(),
        spec_encode_node(n, key, t).dom().len() == t.dom().len() + n.spec_site_count(),
        forall|a: Seq<char>|
            #[trigger] spec_encode_node(n, key, t).dom().contains(a) ==> t.dom().contains(a) || below(
                a,
                key,
            ),
    decreases n, 0nat,
{
    lemma_layout(key);
    lemma_address_injective_forall(key);
    reveal_strlit("leaf");
    reveal_strlit("src");
    reveal_strlit("oct");
    reveal_strlit("det");
    reveal_strlit("smix");
    reveal_strlit("mdepth");
    assert("leaf"@[0] != "smix"@[0]);
    assert("src"@[0] != "oct"@[0]);
    assert("src"@[0] != "det"@[0]);
    assert("oct"@[0] != "det"@[0]);
    match n {
        AudioNode::Supersaw { octave: v_octave, detune: v_detune, mix: v_mix, mod_depth: v_mod_depth, modulation: v_modulation } => {
            let e = spec_put(t, key, "leaf"@, SiteValue::Flag(true));
            let e = spec_put(e, key, "src"@, SiteValue::Index(1));
            let e = spec_put(e, key, "oct"@, SiteValue::Index(spec_octave_index(v_octave)));
            let e = spec_put(e, key, "det"@, SiteValue::Real(v_detune));
            let e = spec_put(e, key, "smix"@, SiteValue::Real(v_mix));
            let e = spec_put(e, key, "mdepth"@, SiteValue::Real(v_mod_depth));
            let km = spec_mod_key(key);
            assert(clear_below(e, km));
            lemma_encode_mod_count(v_modulation, km, e);
            let em = spec_encode_mod(v_modulation, km, e);
        },
        _ => {},
    }
}

/// Recording a noise below a key that holds nothing yet records exactly
/// its site count of new addresses, all below the key.
#[verifier::rlimit(40)]
proof fn lemma_encode_noise_count(n: AudioNode, key: Seq<char>, t: Map<Seq<char>, SiteValue>)
    requires
        n is Noise,
        is_plain(key),
        t.dom().finite(),
        clear_below(t, key),
    ensures
        spec_encode_node(n, key, t).dom().finite(),
        spec_encode_node(n, key, t).dom().len() == t.dom().len() + n.spec_site_count(),
        forall|a: Seq<char>|
            #[trigger] spec_encode_node(n, key, t).dom().contains(a) ==> t.dom().contains(a) || below(
                a,
                key,
            ),
    decreases n, 0nat,
{
    lemma_layout(key);
    lemma_address_injective_forall(key);
    reveal_strlit("leaf");
    reveal_strlit("src");
    reveal_strlit("color");
    match n {
        AudioNode::Noise { color: v_color } => {
            let e = spec_put(t, key, "leaf"@, SiteValue::Flag(true));
            let e = spec_put(e, key, "src"@, SiteValue::Index(2));
            let e = spec_put(e, key, "color"@, SiteValue::Index(v_color.spec_index() as usize));
        },
        _ => {},
    }
}

/// Recording a wavetable below a key that holds nothing yet records exactly
/// its site count of new addresses, all below the key.
#[verifier::rlimit(40)]
proof fn lemma_encode_wavetable_count(n: AudioNode, key: Seq<char>, t: Map<Seq<char>, SiteValue>)
    requires
        n is Wavetable,
        is_plain(key),
        t.dom().finite(),
        clear_below(t, key),
    ensures
        spec_encode_node(n, key, t).dom().finite(),
        spec_encode_node(n, key, t).dom().len() == t.dom().len() + n.spec_site_count(),
        forall|a: Seq<char>|
            #[trigger] spec_encode_node(n, key, t).dom().contains(a) ==> t.dom().contains(a) || below(
                a,
                key,
            ),
    decreases n, 0nat,
{
    lemma_layout(key);
    lemma_address_injective_forall(key);
    reveal_strlit("leaf");
    reveal_strlit("src");
    reveal_strlit("table");
    reveal_strlit("oct");
    reveal_strlit("morph");
    reveal_strlit("mdepth");
    assert("src"@[0] != "oct"@[0]);
    assert("table"@[0] != "morph"@[0]);
    match n {
        AudioNode::Wavetable { table: v_table, octave: v_octave, morph: v_morph, mod_depth: v_mod_depth, modulation: v_modulation } => {
            let e = spec_put(t, key, "leaf"@, SiteValue::Flag(true));
            let e = spec_put(e, key, "src"@, SiteValue::Index(3));
            let e = spec_put(e, key, "table"@, SiteValue::Index(v_table.spec_index() as usize));
            let e = spec_put(e, key, "oct"@, SiteValue::Index(spec_octave_index(v_octave)));
            let e = spec_put(e, key, "morph"@, SiteValue::Real(v_morph));
            let e = spec_put(e, key, "mdepth"@, SiteValue::Real(v_mod_depth));
            let km = spec_mod_key(key);
            assert(clear_below(e, km));
            lemma_encode_mod_count(v_modulation, km, e);
            let em = spec_encode_mod(v_modulation, km, e);
        },
        _ => {},
    }
}

/// Recording a pluck below a key that holds nothing yet records exactly
/// its site count of new addresses, all below the key.
#[verifier::rlimit(40)]
proof fn lemma_encode_pluck_count(n: AudioNode, key: Seq<char>, t: Map<Seq<char>, SiteValue>)
    requires
        n is Pluck,
        is_plain(key),
        t.dom().finite(),
        clear_below(t, key),
    ensures
        spec_encode_node(n, key, t).dom().finite(),
        spec_encode_node(n, key, t).dom().len() == t.dom().len() + n.spec_site_count(),
        forall|a: Seq<char>|
            #[trigger] spec_encode_node(n, key, t).dom().contains(a) ==> t.dom().contains(a) || below(
                a,
                key,
            ),
    decreases n, 0nat,
{
    lemma_layout(key);
    lemma_address_injective_forall(key);
    reveal_strlit("leaf");
    reveal_strlit("src");
    reveal_strlit("oct");
    reveal_strlit("damp");
    reveal_strlit("bright");
    reveal_strlit("mdepth");
    assert("leaf"@[0] != "damp"@[0]);
    assert("src"@[0] != "oct"@[0]);
    assert("bright"@[0] != "mdepth"@[0]);
    match n {
        AudioNode::Pluck { octave: v_octave, damping: v_damping, brightness: v_brightness, mod_depth: v_mod_depth, modulation: v_modulation } => {
            let e = spec_put(t, key, "leaf"@, SiteValue::Flag(true));
            let e = spec_put(e, key, "src"@, SiteValue::Index(4));
            let e = spec_put(e, key, "oct"@, SiteValue::Index(spec_octave_index(v_octave)));
            let e = spec_put(e, key, "damp"@, SiteValue::Real(v_damping));
            let e = spec_put(e, key, "bright"@, SiteValue::Real(v_brightness));
            let e = spec_put(e, key, "mdepth"@, SiteValue::Real(v_mod_depth));
            let km = spec_mod_key(key);
            assert(clear_below(e, km));
            lemma_encode_mod_count(v_modulation, km, e);
            let em = spec_encode_mod(v_modulation, km, e);
        },
        _ => {},
    }
}

/// Recording a formant below a key that holds nothing yet records exactly
/// its site count of new addresses, all below the key.
#[verifier::rlimit(40)]
proof fn lemma_encode_formant_count(n: AudioNode, key: Seq<char>, t: Map<Seq<char>, SiteValue>)
    requires
        n is Formant,
        is_plain(key),
        t.dom().finite(),
        clear_below(t, key),
    ensures
        spec_encode_node(n, key, t).dom().finite(),
        spec_encode_node(n, key, t).dom().len() == t.dom().len() + n.spec_site_count(),
        forall|a: Seq<char>|
            #[trigger] spec_encode_node(n, key, t).dom().contains(a) ==> t.dom().contains(a) || below(
                a,
                key,
            ),
    decreases n, 0nat,
{
    lemma_layout(key);
    lemma_address_injective_forall(key);
    reveal_strlit("leaf");
    reveal_strlit("src");
    reveal_strlit("vowel");
    reveal_strlit("fshift");
    reveal_strlit("oct");
    reveal_strlit("mdepth");
    assert("src"@[0] != "oct"@[0]);
    assert("fshift"@[0] != "mdepth"@[0]);
    match n {
        AudioNode::Formant { vowel: v_vowel, shift: v_shift, octave: v_octave, mod_depth: v_mod_depth, modulation: v_modulation } => {
            let e = spec_put(t, key, "leaf"@, SiteValue::Flag(true));
            let e = spec_put(e, key, "src"@, SiteValue::Index(5));
            let e = spec_put(e, key, "vowel"@, SiteValue::Real(v_vowel));
            let e = spec_put(e, key, "fshift"@, SiteValue::Real(v_shift));
            let e = spec_put(e, key, "oct"@, SiteValue::Index(spec_octave_index(v_octave)));
            let e = spec_put(e, key, "mdepth"@, SiteValue::Real(v_mod_depth));
            let km = spec_mod_key(key);
            assert(clear_below(e, km));
            lemma_encode_mod_count(v_modulation, km, e);
            let em = spec_encode_mod(v_modulation, km, e);
        },
        _ => {},
    }
}

/// Recording a mix below a key that holds nothing yet records exactly
/// its site count of new addresses, all below the key.
#[verifier::rlimit(40)]
proof fn lemma_encode_mix_count(n: AudioNode, key: Seq<char>, t: Map<Seq<char>, SiteValue>)
    requires
        n is Mix,
        is_plain(key),
        t.dom().finite(),
        clear_below(t, key),
    ensures
        spec_encode_node(n, key, t).dom().finite(),
        spec_encode_node(n, key, t).dom().len() == t.dom().len() + n.spec_site_count(),
        forall|a: Seq<char>|
            #[trigger] spec_encode_node(n, key, t).dom().contains(a) ==> t.dom().contains(a) || below(
                a,
                key,
            ),
    decreases n, 0nat,
{
    lemma_layout(key);
    lemma_address_injective_forall(key);
    reveal_strlit("leaf");
    reveal_strlit("op");
    reveal_strlit("bal");
    match n {
        AudioNode::Mix { balance: v_balance, a: v_a, b: v_b } => {
            let e = spec_put(t, key, "leaf"@, SiteValue::Flag(false));
            let e = spec_put(e, key, "op"@, SiteValue::Index(0));
            let e = spec_put(e, key, "bal"@, SiteValue::Real(v_balance));
            let k0 = spec_child_key(key, 0);
            assert(clear_below(e, k0));
            lemma_encode_node_count(*v_a, k0, e);
            let c0 = spec_encode_node(*v_a, k0, e);
            let k1 = spec_child_key(key, 1);
            assert(clear_below(c0, k1));
            lemma_encode_node_count(*v_b, k1, c0);
            let c1 = spec_encode_node(*v_b, k1, c0);
        },
        _ => {},
    }
}

/// Recording a filter below a key that holds nothing yet records exactly
/// its site count of new addresses, all below the key.
#[verifier::rlimit(40)]
proof fn lemma_encode_filter_count(n: AudioNode, key: Seq<char>, t: Map<Seq<char>, SiteValue>)
    requires
        n is Filter,
        is_plain(key),
        t.dom().finite(),
        clear_below(t, key),
    ensures
        spec_encode_node(n, key, t).dom().finite(),
        spec_encode_node(n, key, t).dom().len() == t.dom().len() + n.spec_site_count(),
        forall|a: Seq<char>|
            #[trigger] spec_encode_node(n, key, t).dom().contains(a) ==> t.dom().contains(a) || below(
                a,
                key,
            ),
    decreases n, 0nat,
{
    lemma_layout(key);
    lemma_address_injective_forall(key);
    reveal_strlit("leaf");
    reveal_strlit("op");
    reveal_strlit("fkind");
    reveal_strlit("cut");
    reveal_strlit("res");
    reveal_strlit("mdepth");
    assert("cut"@[0] != "res"@[0]);
    match n {
        AudioNode::Filter { kind: v_kind, cutoff: v_cutoff, resonance: v_resonance, mod_depth: v_mod_depth, input: v_input, modulation: v_modulation } => {
            let e = spec_put(t, key, "leaf"@, SiteValue::Flag(false));
            let e = spec_put(e, key, "op"@, SiteValue::Index(1));
            let e = spec_put(e, key, "fkind"@, SiteValue::Index(v_kind.spec_index() as usize));
            let e = spec_put(e, key, "cut"@, SiteValue::Real(v_cutoff));
            let e = spec_put(e, key, "res"@, SiteValue::Real(v_resonance));
            let e = spec_put(e, key, "mdepth"@, SiteValue::Real(v_mod_depth));
            let km = spec_mod_key(key);
            assert(clear_below(e, km));
            lemma_encode_mod_count(v_modulation, km, e);
            let em = spec_encode_mod(v_modulation, km, e);
            let k0 = spec_child_key(key, 0);
            assert(clear_below(em, k0));
            lemma_encode_node_count(*v_input, k0, em);
            let c0 = spec_encode_node(*v_input, k0, em);
        },
        _ => {},
    }
}

/// Recording a fold below a key that holds nothing yet records exactly
/// its site count of new addresses, all below the key.
#[verifier::rlimit(40)]
proof fn lemma_encode_fold_count(n: AudioNode, key: Seq<char>, t: Map<Seq<char>, SiteValue>)
    requires
        n is Fold,
        is_plain(key),
        t.dom().finite(),
        clear_below(t, key),
    ensures
        spec_encode_node(n, key, t).dom().finite(),
        spec_encode_node(n, key, t).dom().len() == t.dom().len() + n.spec_site_count(),
        forall|a: Seq<char>|
            #[trigger] spec_encode_node(n, key, t).dom().contains(a) ==> t.dom().contains(a) || below(
                a,
                key,
            ),
    decreases n, 0nat,
{
    lemma_layout(key);
    lemma_address_injective_forall(key);
    reveal_strlit("leaf");
    reveal_strlit("op");
    reveal_strlit("thresh");
    reveal_strlit("mdepth");
    assert("thresh"@[0] != "mdepth"@[0]);
    match n {
        AudioNode::Fold { threshold: v_threshold, mod_depth: v_mod_depth, input: v_input, modulation: v_modulation } => {
            let e = spec_put(t, key, "leaf"@, SiteValue::Flag(false));
            let e = spec_put(e, key, "op"@, SiteValue::Index(2));
            let e = spec_put(e, key, "thresh"@, SiteValue::Real(v_threshold));
            let e = spec_put(e, key, "mdepth"@, SiteValue::Real(v_mod_depth));
            let km = spec_mod_key(key);
            assert(clear_below(e, km));
            lemma_encode_mod_count(v_modulation, km, e);
            let em = spec_encode_mod(v_modulation, km, e);
            let k0 = spec_child_key(key, 0);
            assert(clear_below(em, k0));
            lemma_encode_node_count(*v_input, k0, em);
            let c0 = spec_encode_node(*v_input, k0, em);
        },
        _ => {},
    }
}

/// Recording a delay below a key that holds nothing yet records exactly
/// its site count of new addresses, all below the key.
#[verifier::rlimit(40)]
proof fn lemma_encode_delay_count(n: AudioNode, key: Seq<char>, t: Map<Seq<char>, SiteValue>)
    requires
        n is Delay,
        is_plain(key),
        t.dom().finite(),
        clear_below(t, key),
    ensures
        spec_encode_node(n, key, t).dom().finite(),
        spec_encode_node(n, key, t).dom().len() == t.dom().len() + n.spec_site_count(),
        forall|a: Seq<char>|
            #[trigger] spec_encode_node(n, key, t).dom().contains(a) ==> t.dom().contains(a) || below(
                a,
                key,
            ),
    decreases n, 0nat,
{
    lemma_layout(key);
    lemma_address_injective_forall(key);
    reveal_strlit("leaf");
    reveal_strlit("op");
    reveal_strlit("time");
    reveal_strlit("fb");
    reveal_strlit("dmix");
    reveal_strlit("mdepth");
    assert("leaf"@[0] != "time"@[0]);
    assert("leaf"@[0] != "dmix"@[0]);
    assert("op"@[0] != "fb"@[0]);
    assert("time"@[0] != "dmix"@[0]);
    match n {
        AudioNode::Delay { time: v_time, feedback: v_feedback, mix: v_mix, mod_depth: v_mod_depth, input: v_input, modulation: v_modulation } => {
            let e = spec_put(t, key, "leaf"@, SiteValue::Flag(false));
            let e = spec_put(e, key, "op"@, SiteValue::Index(3));
            let e = spec_put(e, key, "time"@, SiteValue::Real(v_time));
            let e = spec_put(e, key, "fb"@, SiteValue::Real(v_feedback));
            let e = spec_put(e, key, "dmix"@, SiteValue::Real(v_mix));
            let e = spec_put(e, key, "mdepth"@, SiteValue::Real(v_mod_depth));
            let km = spec_mod_key(key);
            assert(clear_below(e, km));
            lemma_encode_mod_count(v_modulation, km, e);
            let em = spec_encode_mod(v_modulation, km, e);
            let k0 = spec_child_key(key, 0);
            assert(clear_below(em, k0));
            lemma_encode_node_count(*v_input, k0, em);
            let c0 = spec_encode_node(*v_input, k0, em);
        },
        _ => {},
    }
}

/// Recording a chorus below a key that holds nothing yet records exactly
/// its site count of new addresses, all below the key.
#[verifier::rlimit(40)]
proof fn lemma_encode_chorus_count(n: AudioNode, key: Seq<char>, t: Map<Seq<char>, SiteValue>)
    requires
        n is Chorus,
        is_plain(key),
        t.dom().finite(),
        clear_below(t, key),
    ensures
        spec_encode_node(n, key, t).dom().finite(),
        spec_encode_node(n, key, t).dom().len() == t.dom().len() + n.spec_site_count(),
        forall|a: Seq<char>|
            #[trigger] spec_encode_node(n, key, t).dom().contains(a) ==> t.dom().contains(a) || below(
                a,
                key,
            ),
    decreases n, 0nat,
{
    lemma_layout(key);
    lemma_address_injective_forall(key);
    reveal_strlit("leaf");
    reveal_strlit("op");
    reveal_strlit("crate");
    reveal_strlit("cdepth");
    reveal_strlit("cmix");
    reveal_strlit("mdepth");
    assert("leaf"@[0] != "cmix"@[0]);
    assert("cdepth"@[0] != "mdepth"@[0]);
    match n {
        AudioNode::Chorus { rate: v_rate, depth: v_depth, mix: v_mix, mod_depth: v_mod_depth, input: v_input, modulation: v_modulation } => {
            let e = spec_put(t, key, "leaf"@, SiteValue::Flag(false));
            let e = spec_put(e, key, "op"@, SiteValue::Index(4));
            let e = spec_put(e, key, "crate"@, SiteValue::Real(v_rate));
            let e = spec_put(e, key, "cdepth"@, SiteValue::Real(v_depth));
            let e = spec_put(e, key, "cmix"@, SiteValue::Real(v_mix));
            let e = spec_put(e, key, "mdepth"@, SiteValue::Real(v_mod_depth));
            let km = spec_mod_key(key);
            assert(clear_below(e, km));
            lemma_encode_mod_count(v_modulation, km, e);
            let em = spec_encode_mod(v_modulation, km, e);
            let k0 = spec_child_key(key, 0);
            assert(clear_below(em, k0));
            lemma_encode_node_count(*v_input, k0, em);
            let c0 = spec_encode_node(*v_input, k0, em);
        },
        _ => {},
    }
}

/// Recording a reverb below a key that holds nothing yet records exactly
/// its site count of new addresses, all below the key.
#[verifier::rlimit(40)]
proof fn lemma_encode_reverb_count(n: AudioNode, key: Seq<char>, t: Map<Seq<char>, SiteValue>)
    requires
        n is Reverb,
        is_plain(key),
        t.dom().finite(),
        clear_below(t, key),
    ensures
        spec_encode_node(n, key, t).dom().finite(),
        spec_encode_node(n, key, t).dom().len() == t.dom().len() + n.spec_site_count(),
        forall|a: Seq<char>|
            #[trigger] spec_encode_node(n, key, t).dom().contains(a) ==> t.dom().contains(a) || below(
                a,
                key,
            ),
    decreases n, 0nat,
{
    lemma_layout(key);
    lemma_address_injective_forall(key);
    reveal_strlit("leaf");
    reveal_strlit("op");
    reveal_strlit("rsize");
    reveal_strlit("rdamp");
    reveal_strlit("rmix");
    reveal_strlit("mdepth");
    assert("leaf"@[0] != "rmix"@[0]);
    assert("rsize"@[1] != "rdamp"@[1]);
    match n {
        AudioNode::Reverb { size: v_size, damp: v_damp, mix: v_mix, mod_depth: v_mod_depth, input: v_input, modulation: v_modulation } => {
            let e = spec_put(t, key, "leaf"@, SiteValue::Flag(false));
            let e = spec_put(e, key, "op"@, SiteValue::Index(5));
            let e = spec_put(e, key, "rsize"@, SiteValue::Real(v_size));
            let e = spec_put(e, key, "rdamp"@, SiteValue::Real(v_damp));
            let e = spec_put(e, key, "rmix"@, SiteValue::Real(v_mix));
            let e = spec_put(e, key, "mdepth"@, SiteValue::Real(v_mod_depth));
            let km = spec_mod_key(key);
            assert(clear_below(e, km));
            lemma_encode_mod_count(v_modulation, km, e);
            let em = spec_encode_mod(v_modulation, km, e);
            let k0 = spec_child_key(key, 0);
            assert(clear_below(em, k0));
            lemma_encode_node_count(*v_input, k0, em);
            let c0 = spec_encode_node(*v_input, k0, em);
        },
        _ => {},
    }
}

/// Recording a distortion below a key that holds nothing yet records exactly
/// its site count of new addresses, all below the key.
#[verifier::rlimit(40)]
proof fn lemma_encode_distortion_count(n: AudioNode, key: Seq<char>, t: Map<Seq<char>, SiteValue>)
    requires
        n is Distortion,
        is_plain(key),
        t.dom().finite(),
        clear_below(t, key),
    ensures
        spec_encode_node(n, key, t).dom().finite(),
        spec_encode_node(n, key, t).dom().len() == t.dom().len() + n.spec_site_count(),
        forall|a: Seq<char>|
            #[trigger] spec_encode_node(n, key, t).dom().contains(a) ==> t.dom().contains(a) || below(
                a,
                key,
            ),
    decreases n, 0nat,
{
    lemma_layout(key);
    lemma_address_injective_forall(key);
    reveal_strlit("leaf");
    reveal_strlit("op");
    reveal_strlit("drive");
    reveal_strlit("tone");
    reveal_strlit("dmode");
    reveal_strlit("mdepth");
    assert("leaf"@[0] != "tone"@[0]);
    assert("drive"@[1] != "dmode"@[1]);
    match n {
        AudioNode::Distortion { drive: v_drive, tone: v_tone, mode: v_mode, mod_depth: v_mod_depth, input: v_input, modulation: v_modulation } => {
            let e = spec_put(t, key, "leaf"@, SiteValue::Flag(false));
            let e = spec_put(e, key, "op"@, SiteValue::Index(6));
            let e = spec_put(e, key, "drive"@, SiteValue::Real(v_drive));
            let e = spec_put(e, key, "tone"@, SiteValue::Real(v_tone));
            let e = spec_put(e, key, "dmode"@, SiteValue::Index(v_mode.spec_index() as usize));
            let e = spec_put(e, key, "mdepth"@, SiteValue::Real(v_mod_depth));
            let km = spec_mod_key(key);
            assert(clear_below(e, km));
            lemma_encode_mod_count(v_modulation, km, e);
            let em = spec_encode_mod(v_modulation, km, e);
            let k0 = spec_child_key(key, 0);
            assert(clear_below(em, k0));
            lemma_encode_node_count(*v_input, k0, em);
            let c0 = spec_encode_node(*v_input, k0, em);
        },
        _ => {},
    }
}

/// Recording a bitcrush below a key that holds nothing yet records exactly
/// its site count of new addresses, all below the key.
#[verifier::rlimit(40)]
proof fn lemma_encode_bitcrush_count(n: AudioNode, key: Seq<char>, t: Map<Seq<char>, SiteValue>)
    requires
        n is Bitcrush,
        is_plain(key),
        t.dom().finite(),
        clear_below(t, key),
    ensures
        spec_encode_node(n, key, t).dom().finite(),
        spec_encode_node(n, key, t).dom().len() == t.dom().len() + n.spec_site_count(),
        forall|a: Seq<char>|
            #[trigger] spec_encode_node(n, key, t).dom().contains(a) ==> t.dom().contains(a) || below(
                a,
                key,
            ),
    decreases n, 0nat,
{
    lemma_layout(key);
    lemma_address_injective_forall(key);
    reveal_strlit("leaf");
    reveal_strlit("op");
    reveal_strlit("bits");
    reveal_strlit("dsamp");
    reveal_strlit("mdepth");
    assert("leaf"@[0] != "bits"@[0]);
    match n {
        AudioNode::Bitcrush { bits: v_bits, downsample: v_downsample, mod_depth: v_mod_depth, input: v_input, modulation: v_modulation } => {
            let e = spec_put(t, key, "leaf"@, SiteValue::Flag(false));
            let e = spec_put(e, key, "op"@, SiteValue::Index(7));
            let e = spec_put(e, key, "bits"@, SiteValue::Real(v_bits));
            let e = spec_put(e, key, "dsamp"@, SiteValue::Real(v_downsample));
            let e = spec_put(e, key, "mdepth"@, SiteValue::Real(v_mod_depth));
            let km = spec_mod_key(key);
            assert(clear_below(e, km));
            lemma_encode_mod_count(v_modulation, km, e);
            let em = spec_encode_mod(v_modulation, km, e);
            let k0 = spec_child_key(key, 0);
            assert(clear_below(em, k0));
            lemma_encode_node_count(*v_input, k0, em);
            let c0 = spec_encode_node(*v_input, k0, em);
        },
        _ => {},
    }
}

/// Recording a phaser below a key that holds nothing yet records exactly
/// its site count of new addresses, all below the key.
#[verifier::rlimit(40)]
proof fn lemma_encode_phaser_count(n: AudioNode, key: Seq<char>, t: Map<Seq<char>, SiteValue>)
    requires
        n is Phaser,
        is_plain(key),
        t.dom().finite(),
        clear_below(t, key),
    ensures
        spec_encode_node(n, key, t).dom().finite(),
        spec_encode_node(n, key, t).dom().len() == t.dom().len() + n.spec_site_count(),
        forall|a: Seq<char>|
            #[trigger] spec_encode_node(n, key, t).dom().contains(a) ==> t.dom().contains(a) || below(
                a,
                key,
            ),
    decreases n, 0nat,
{
    lemma_layout(key);
    lemma_address_injective_forall(key);
    reveal_strlit("leaf");
    reveal_strlit("op");
    reveal_strlit("prate");
    reveal_strlit("pdepth");
    reveal_strlit("pfb");
    reveal_strlit("mdepth");
    assert("pdepth"@[0] != "mdepth"@[0]);
    match n {
        AudioNode::Phaser { rate: v_rate, depth: v_depth, feedback: v_feedback, mod_depth: v_mod_depth, input: v_input, modulation: v_modulation } => {
            let e = spec_put(t, key, "leaf"@, SiteValue::Flag(false));
            let e = spec_put(e, key, "op"@, SiteValue::Index(8));
            let e = spec_put(e, key, "prate"@, SiteValue::Real(v_rate));
            let e = spec_put(e, key, "pdepth"@, SiteValue::Real(v_depth));
            let e = spec_put(e, key, "pfb"@, SiteValue::Real(v_feedback));
            let e = spec_put(e, key, "mdepth"@, SiteValue::Real(v_mod_depth));
            let km = spec_mod_key(key);
            assert(clear_below(e, km));
            lemma_encode_mod_count(v_modulation, km, e);
            let em = spec_encode_mod(v_modulation, km, e);
            let k0 = spec_child_key(key, 0);
            assert(clear_below(em, k0));
            lemma_encode_node_count(*v_input, k0, em);
            let c0 = spec_encode_node(*v_input, k0, em);
        },
        _ => {},
    }
}

/// Recording a ringmod below a key that holds nothing yet records exactly
/// its site count of new addresses, all below the key.
#[verifier::rlimit(40)]
proof fn lemma_encode_ring_mod_count(n: AudioNode, key: Seq<char>, t: Map<Seq<char>, SiteValue>)
    requires
        n is RingMod,
        is_plain(key),
        t.dom().finite(),
        clear_below(t, key),
    ensures
        spec_encode_node(n, key, t).dom().finite(),
        spec_encode_node(n, key, t).dom().len() == t.dom().len() + n.spec_site_count(),
        forall|a: Seq<char>|
            #[trigger] spec_encode_node(n, key, t).dom().contains(a) ==> t.dom().contains(a) || below(
                a,
                key,
            ),
    decreases n, 0nat,
{
    lemma_layout(key);
    lemma_address_injective_forall(key);
    reveal_strlit("leaf");
    reveal_strlit("op");
    reveal_strlit("rgmix");
    match n {
        AudioNode::RingMod { mix: v_mix, a: v_a, b: v_b } => {
            let e = spec_put(t, key, "leaf"@, SiteValue::Flag(false));
            let e = spec_put(e, key, "op"@, SiteValue::Index(9));
            let e = spec_put(e, key, "rgmix"@, SiteValue::Real(v_mix));
            let k0 = spec_child_key(key, 0);
            assert(clear_below(e, k0));
            lemma_encode_node_count(*v_a, k0, e);
            let c0 = spec_encode_node(*v_a, k0, e);
            let k1 = spec_child_key(key, 1);
            assert(clear_below(c0, k1));
            lemma_encode_node_count(*v_b, k1, c0);
            let c1 = spec_encode_node(*v_b, k1, c0);
        },
        _ => {},
    }
}

/// Recording a flanger below a key that holds nothing yet records exactly
/// its site count of new addresses, all below the key.
#[verifier::rlimit(40)]
proof fn lemma_encode_flanger_count(n: AudioNode, key: Seq<char>, t: Map<Seq<char>, SiteValue>)
    requires
        n is Flanger,
        is_plain(key),
        t.dom().finite(),
        clear_below(t, key),
    ensures
        spec_encode_node(n, key, t).dom().finite(),
        spec_encode_node(n, key, t).dom().len() == t.dom().len() + n.spec_site_count(),
        forall|a: Seq<char>|
            #[trigger] spec_encode_node(n, key, t).dom().contains(a) ==> t.dom().contains(a) || below(
                a,
                key,
            ),
    decreases n, 0nat,
{
    lemma_layout(key);
    lemma_address_injective_forall(key);
    reveal_strlit("leaf");
    reveal_strlit("op");
    reveal_strlit("frate");
    reveal_strlit("fdepth");
    reveal_strlit("ffb");
    reveal_strlit("mdepth");
    assert("fdepth"@[0] != "mdepth"@[0]);
    match n {
        AudioNode::Flanger { rate: v_rate, depth: v_depth, feedback: v_feedback, mod_depth: v_mod_depth, input: v_input, modulation: v_modulation } => {
            let e = spec_put(t, key, "leaf"@, SiteValue::Flag(false));
            let e = spec_put(e, key, "op"@, SiteValue::Index(10));
            let e = spec_put(e, key, "frate"@, SiteValue::Real(v_rate));
            let e = spec_put(e, key, "fdepth"@, SiteValue::Real(v_depth));
            let e = spec_put(e, key, "ffb"@, SiteValue::Real(v_feedback));
            let e = spec_put(e, key, "mdepth"@, SiteValue::Real(v_mod_depth));
            let km = spec_mod_key(key);
            assert(clear_below(e, km));
            lemma_encode_mod_count(v_modulation, km, e);
            let em = spec_encode_mod(v_modulation, km, e);
            let k0 = spec_child_key(key, 0);
            assert(clear_below(em, k0));
            lemma_encode_node_count(*v_input, k0, em);
            let c0 = spec_encode_node(*v_input, k0, em);
        },
        _ => {},
    }
}

/// Recording a tremolo below a key that holds nothing yet records exactly
/// its site count of new addresses, all below the key.
#[verifier::rlimit(40)]
proof fn lemma_encode_tremolo_count(n: AudioNode, key: Seq<char>, t: Map<Seq<char>, SiteValue>)
    requires
        n is Tremolo,
        is_plain(key),
        t.dom().finite(),
        clear_below(t, key),
    ensures
        spec_encode_node(n, key, t).dom().finite(),
        spec_encode_node(n, key, t).dom().len() == t.dom().len() + n.spec_site_count(),
        forall|a: Seq<char>|
            #[trigger] spec_encode_node(n, key, t).dom().contains(a) ==> t.dom().contains(a) || below(
                a,
                key,
            ),
    decreases n, 0nat,
{
    lemma_layout(key);
    lemma_address_injective_forall(key);
    reveal_strlit("leaf");
    reveal_strlit("op");
    reveal_strlit("trate");
    reveal_strlit("tdepth");
    reveal_strlit("tshape");
    reveal_strlit("mdepth");
    assert("tdepth"@[1] != "tshape"@[1]);
    assert("tdepth"@[0] != "mdepth"@[0]);
    assert("tshape"@[0] != "mdepth"@[0]);
    match n {
        AudioNode::Tremolo { rate: v_rate, depth: v_depth, shape: v_shape, mod_depth: v_mod_depth, input: v_input, modulation: v_modulation } => {
            let e = spec_put(t, key, "leaf"@, SiteValue::Flag(false));
            let e = spec_put(e, key, "op"@, SiteValue::Index(11));
            let e = spec_put(e, key, "trate"@, SiteValue::Real(v_rate));
            let e = spec_put(e, key, "tdepth"@, SiteValue::Real(v_depth));
            let e = spec_put(e, key, "tshape"@, SiteValue::Real(v_shape));
            let e = spec_put(e, key, "mdepth"@, SiteValue::Real(v_mod_depth));
            let km = spec_mod_key(key);
            assert(clear_below(e, km));
            lemma_encode_mod_count(v_modulation, km, e);
            let em = spec_encode_mod(v_modulation, km, e);
            let k0 = spec_child_key(key, 0);
            assert(clear_below(em, k0));
            lemma_encode_node_count(*v_input, k0, em);
            let c0 = spec_encode_node(*v_input, k0, em);
        },
        _ => {},
    }
}

/// Recording a vibrato below a key that holds nothing yet records exactly
/// its site count of new addresses, all below the key.
#[verifier::rlimit(40)]
proof fn lemma_encode_vibrato_count(n: AudioNode, key: Seq<char>, t: Map<Seq<char>, SiteValue>)
    requires
        n is Vibrato,
        is_plain(key),
        t.dom().finite(),
        clear_below(t, key),
    ensures
        spec_encode_node(n, key, t).dom().finite(),
        spec_encode_node(n, key, t).dom().len() == t.dom().len() + n.spec_site_count(),
        forall|a: Seq<char>|
            #[trigger] spec_encode_node(n, key, t).dom().contains(a) ==> t.dom().contains(a) || below(
                a,
                key,
            ),
    decreases n, 0nat,
{
    lemma_layout(key);
    lemma_address_injective_forall(key);
    reveal_strlit("leaf");
    reveal_strlit("op");
    reveal_strlit("vrate");
    reveal_strlit("vdepth");
    reveal_strlit("vmix");
    reveal_strlit("mdepth");
    assert("leaf"@[0] != "vmix"@[0]);
    assert("vdepth"@[0] != "mdepth"@[0]);
    match n {
        AudioNode::Vibrato { rate: v_rate, depth: v_depth, mix: v_mix, mod_depth: v_mod_depth, input: v_input, modulation: v_modulation } => {
            let e = spec_put(t, key, "leaf"@, SiteValue::Flag(false));
            let e = spec_put(e, key, "op"@, SiteValue::Index(12));
            let e = spec_put(e, key, "vrate"@, SiteValue::Real(v_rate));
            let e = spec_put(e, key, "vdepth"@, SiteValue::Real(v_depth));
            let e = spec_put(e, key, "vmix"@, SiteValue::Real(v_mix));
            let e = spec_put(e, key, "mdepth"@, SiteValue::Real(v_mod_depth));
            let km = spec_mod_key(key);
            assert(clear_below(e, km));
            lemma_encode_mod_count(v_modulation, km, e);
            let em = spec_encode_mod(v_modulation, km, e);
            let k0 = spec_child_key(key, 0);
            assert(clear_below(em, k0));
            lemma_encode_node_count(*v_input, k0, em);
            let c0 = spec_encode_node(*v_input, k0, em);
        },
        _ => {},
    }
}

/// Recording a eq below a key that holds nothing yet records exactly
/// its site count of new addresses, all below the key.
#[verifier::rlimit(40)]
proof fn lemma_encode_eq_count(n: AudioNode, key: Seq<char>, t: Map<Seq<char>, SiteValue>)
    requires
        n is Eq,
        is_plain(key),
        t.dom().finite(),
        clear_below(t, key),
    ensures
        spec_encode_node(n, key, t).dom().finite(),
        spec_encode_node(n, key, t).dom().len() == t.dom().len() + n.spec_site_count(),
        forall|a: Seq<char>|
            #[trigger] spec_encode_node(n, key, t).dom().contains(a) ==> t.dom().contains(a) || below(
                a,
                key,
            ),
    decreases n, 0nat,
{
    lemma_layout(key);
    lemma_address_injective_forall(key);
    reveal_strlit("leaf");
    reveal_strlit("op");
    reveal_strlit("low");
    reveal_strlit("mid");
    reveal_strlit("high");
    reveal_strlit("mdepth");
    assert("leaf"@[0] != "high"@[0]);
    assert("low"@[0] != "mid"@[0]);
    match n {
        AudioNode::Eq { low: v_low, mid: v_mid, high: v_high, mod_depth: v_mod_depth, input: v_input, modulation: v_modulation } => {
            let e = spec_put(t, key, "leaf"@, SiteValue::Flag(false));
            let e = spec_put(e, key, "op"@, SiteValue::Index(13));
            let e = spec_put(e, key, "low"@, SiteValue::Real(v_low));
            let e = spec_put(e, key, "mid"@, SiteValue::Real(v_mid));
            let e = spec_put(e, key, "high"@, SiteValue::Real(v_high));
            let e = spec_put(e, key, "mdepth"@, SiteValue::Real(v_mod_depth));
            let km = spec_mod_key(key);
            assert(clear_below(e, km));
            lemma_encode_mod_count(v_modulation, km, e);
            let em = spec_encode_mod(v_modulation, km, e);
            let k0 = spec_child_key(key, 0);
            assert(clear_below(em, k0));
            lemma_encode_node_count(*v_input, k0, em);
            let c0 = spec_encode_node(*v_input, k0, em);
        },
        _ => {},
    }
}

/// Recording a granular below a key that holds nothing yet records exactly
/// its site count of new addresses, all below the key.
#[verifier::rlimit(40)]
proof fn lemma_encode_granular_count(n: AudioNode, key: Seq<char>, t: Map<Seq<char>, SiteValue>)
    requires
        n is Granular,
        is_plain(key),
        t.dom().finite(),
        clear_below(t, key),
    ensures
        spec_encode_node(n, key, t).dom().finite(),
        spec_encode_node(n, key, t).dom().len() == t.dom().len() + n.spec_site_count(),
        forall|a: Seq<char>|
            #[trigger] spec_encode_node(n, key, t).dom().contains(a) ==> t.dom().contains(a) || below(
                a,
                key,
            ),
    decreases n, 0nat,
{
    lemma_layout(key);
    lemma_address_injective_forall(key);
    reveal_strlit("leaf");
    reveal_strlit("op");
    reveal_strlit("gpos");
    reveal_strlit("gsize");
    reveal_strlit("gdens");
    reveal_strlit("mdepth");
    assert("leaf"@[0] != "gpos"@[0]);
    assert("gsize"@[1] != "gdens"@[1]);
    match n {
        AudioNode::Granular { position: v_position, size: v_size, density: v_density, mod_depth: v_mod_depth, input: v_input, modulation: v_modulation } => {
            let e = spec_put(t, key, "leaf"@, SiteValue::Flag(false));
            let e = spec_put(e, key, "op"@, SiteValue::Index(14));
            let e = spec_put(e, key, "gpos"@, SiteValue::Real(v_position));
            let e = spec_put(e, key, "gsize"@, SiteValue::Real(v_size));
            let e = spec_put(e, key, "gdens"@, SiteValue::Real(v_density));
            let e = spec_put(e, key, "mdepth"@, SiteValue::Real(v_mod_depth));
            let km = spec_mod_key(key);
            assert(clear_below(e, km));
            lemma_encode_mod_count(v_modulation, km, e);
            let em = spec_encode_mod(v_modulation, km, e);
            let k0 = spec_child_key(key, 0);
            assert(clear_below(em, k0));
            lemma_encode_node_count(*v_input, k0, em);
            let c0 = spec_encode_node(*v_input, k0, em);
        },
        _ => {},
    }
}

/// Recording a shift below a key that holds nothing yet records exactly
/// its site count of new addresses, all below the key.
#[verifier::rlimit(40)]
proof fn lemma_encode_shift_count(n: AudioNode, key: Seq<char>, t: Map<Seq<char>, SiteValue>)
    requires
        n is Shift,
        is_plain(key),
        t.dom().finite(),
        clear_below(t, key),
    ensures
        spec_encode_node(n, key, t).dom().finite(),
        spec_encode_node(n, key, t).dom().len() == t.dom().len() + n.spec_site_count(),
        forall|a: Seq<char>|
            #[trigger] spec_encode_node(n, key, t).dom().contains(a) ==> t.dom().contains(a) || below(
                a,
                key,
            ),
    decreases n, 0nat,
{
    lemma_layout(key);
    lemma_address_injective_forall(key);
    reveal_strlit("leaf");
    reveal_strlit("op");
    reveal_strlit("semis");
    reveal_strlit("window");
    reveal_strlit("smix");
    reveal_strlit("mdepth");
    assert("leaf"@[0] != "smix"@[0]);
    assert("window"@[0] != "mdepth"@[0]);
    match n {
        AudioNode::Shift { semis: v_semis, window: v_window, mix: v_mix, mod_depth: v_mod_depth, input: v_input, modulation: v_modulation } => {
            let e = spec_put(t, key, "leaf"@, SiteValue::Flag(false));
            let e = spec_put(e, key, "op"@, SiteValue::Index(15));
            let e = spec_put(e, key, "semis"@, SiteValue::Real(v_semis));
            let e = spec_put(e, key, "window"@, SiteValue::Real(v_window));
            let e = spec_put(e, key, "smix"@, SiteValue::Real(v_mix));
            let e = spec_put(e, key, "mdepth"@, SiteValue::Real(v_mod_depth));
            let km = spec_mod_key(key);
            assert(clear_below(e, km));
            lemma_encode_mod_count(v_modulation, km, e);
            let em = spec_encode_mod(v_modulation, km, e);
            let k0 = spec_child_key(key, 0);
            assert(clear_below(em, k0));
            lemma_encode_node_count(*v_input, k0, em);
            let c0 = spec_encode_node(*v_input, k0, em);
        },
        _ => {},
    }
}

/// Recording a comp below a key that holds nothing yet records exactly
/// its site count of new addresses, all below the key.
#[verifier::rlimit(40)]
proof fn lemma_encode_comp_count(n: AudioNode, key: Seq<char>, t: Map<Seq<char>, SiteValue>)
    requires
        n is Comp,
        is_plain(key),
        t.dom().finite(),
        clear_below(t, key),
    ensures
        spec_encode_node(n, key, t).dom().finite(),
        spec_encode_node(n, key, t).dom().len() == t.dom().len() + n.spec_site_count(),
        forall|a: Seq<char>|
            #[trigger] spec_encode_node(n, key, t).dom().contains(a) ==> t.dom().contains(a) || below(
                a,
                key,
            ),
    decreases n, 0nat,
{
    lemma_layout(key);
    lemma_address_injective_forall(key);
    reveal_strlit("leaf");
    reveal_strlit("op");
    reveal_strlit("thresh");
    reveal_strlit("ratio");
    reveal_strlit("makeup");
    reveal_strlit("mdepth");
    assert("thresh"@[0] != "makeup"@[0]);
    assert("thresh"@[0] != "mdepth"@[0]);
    assert("makeup"@[1] != "mdepth"@[1]);
    match n {
        AudioNode::Comp { threshold: v_threshold, ratio: v_ratio, makeup: v_makeup, mod_depth: v_mod_depth, input: v_input, sidechain: v_sidechain, modulation: v_modulation } => {
            let e = spec_put(t, key, "leaf"@, SiteValue::Flag(false));
            let e = spec_put(e, key, "op"@, SiteValue::Index(16));
            let e = spec_put(e, key, "thresh"@, SiteValue::Real(v_threshold));
            let e = spec_put(e, key, "ratio"@, SiteValue::Real(v_ratio));
            let e = spec_put(e, key, "makeup"@, SiteValue::Real(v_makeup));
            let e = spec_put(e, key, "mdepth"@, SiteValue::Real(v_mod_depth));
            let km = spec_mod_key(key);
            assert(clear_below(e, km));
            lemma_encode_mod_count(v_modulation, km, e);
            let em = spec_encode_mod(v_modulation, km, e);
            let k0 = spec_child_key(key, 0);
            assert(clear_below(em, k0));
            lemma_encode_node_count(*v_input, k0, em);
            let c0 = spec_encode_node(*v_input, k0, em);
            let k1 = spec_child_key(key, 1);
            assert(clear_below(c0, k1));
            lemma_encode_node_count(*v_sidechain, k1, c0);
            let c1 = spec_encode_node(*v_sidechain, k1, c0);
        },
        _ => {},
    }
}

/// Recording a duck below a key that holds nothing yet records exactly
/// its site count of new addresses, all below the key.
#[verifier::rlimit(40)]
proof fn lemma_encode_duck_count(n: AudioNode, key: Seq<char>, t: Map<Seq<char>, SiteValue>)
    requires
        n is Duck,
        is_plain(key),
        t.dom().finite(),
        clear_below(t, key),
    ensures
        spec_encode_node(n, key, t).dom().finite(),
        spec_encode_node(n, key, t).dom().len() == t.dom().len() + n.spec_site_count(),
        forall|a: Seq<char>|
            #[trigger] spec_encode_node(n, key, t).dom().contains(a) ==> t.dom().contains(a) || below(
                a,
                key,
            ),
    decreases n, 0nat,
{
    lemma_layout(key);
    lemma_address_injective_forall(key);
    reveal_strlit("leaf");
    reveal_strlit("op");
    reveal_strlit("amount");
    reveal_strlit("dthresh");
    reveal_strlit("drel");
    reveal_strlit("mdepth");
    assert("leaf"@[0] != "drel"@[0]);
    assert("amount"@[0] != "mdepth"@[0]);
    match n {
        AudioNode::Duck { amount: v_amount, threshold: v_threshold, release: v_release, mod_depth: v_mod_depth, input: v_input, key: v_key, modulation: v_modulation } => {
            let e = spec_put(t, key, "leaf"@, SiteValue::Flag(false));
            let e = spec_put(e, key, "op"@, SiteValue::Index(17));
            let e = spec_put(e, key, "amount"@, SiteValue::Real(v_amount));
            let e = spec_put(e, key, "dthresh"@, SiteValue::Real(v_threshold));
            let e = spec_put(e, key, "drel"@, SiteValue::Real(v_release));
            let e = spec_put(e, key, "mdepth"@, SiteValue::Real(v_mod_depth));
            let km = spec_mod_key(key);
            assert(clear_below(e, km));
            lemma_encode_mod_count(v_modulation, km, e);
            let em = spec_encode_mod(v_modulation, km, e);
            let k0 = spec_child_key(key, 0);
            assert(clear_below(em, k0));
            lemma_encode_node_count(*v_input, k0, em);
            let c0 = spec_encode_node(*v_input, k0, em);
            let k1 = spec_child_key(key, 1);
            assert(clear_below(c0, k1));
            lemma_encode_node_count(*v_key, k1, c0);
            let c1 = spec_encode_node(*v_key, k1, c0);
        },
        _ => {},
    }
}

/// Recording a gate below a key that holds nothing yet records exactly
/// its site count of new addresses, all below the key.
#[verifier::rlimit(40)]
proof fn lemma_encode_gate_count(n: AudioNode, key: Seq<char>, t: Map<Seq<char>, SiteValue>)
    requires
        n is Gate,
        is_plain(key),
        t.dom().finite(),
        clear_below(t, key),
    ensures
        spec_encode_node(n, key, t).dom().finite(),
        spec_encode_node(n, key, t).dom().len() == t.dom().len() + n.spec_site_count(),
        forall|a: Seq<char>|
            #[trigger] spec_encode_node(n, key, t).dom().contains(a) ==> t.dom().contains(a) || below(
                a,
                key,
            ),
    decreases n, 0nat,
{
    lemma_layout(key);
    lemma_address_injective_forall(key);
    reveal_strlit("leaf");
    reveal_strlit("op");
    reveal_strlit("gthresh");
    reveal_strlit("range");
    reveal_strlit("grel");
    reveal_strlit("mdepth");
    assert("leaf"@[0] != "grel"@[0]);
    match n {
        AudioNode::Gate { threshold: v_threshold, range: v_range, release: v_release, mod_depth: v_mod_depth, input: v_input, sidechain: v_sidechain, modulation: v_modulation } => {
            let e = spec_put(t, key, "leaf"@, SiteValue::Flag(false));
            let e = spec_put(e, key, "op"@, SiteValue::Index(18));
            let e = spec_put(e, key, "gthresh"@, SiteValue::Real(v_threshold));
            let e = spec_put(e, key, "range"@, SiteValue::Real(v_range));
            let e = spec_put(e, key, "grel"@, SiteValue::Real(v_release));
            let e = spec_put(e, key, "mdepth"@, SiteValue::Real(v_mod_depth));
            let km = spec_mod_key(key);
            assert(clear_below(e, km));
            lemma_encode_mod_count(v_modulation, km, e);
            let em = spec_encode_mod(v_modulation, km, e);
            let k0 = spec_child_key(key, 0);
            assert(clear_below(em, k0));
            lemma_encode_node_count(*v_input, k0, em);
            let c0 = spec_encode_node(*v_input, k0, em);
            let k1 = spec_child_key(key, 1);
            assert(clear_below(c0, k1));
            lemma_encode_node_count(*v_sidechain, k1, c0);
            let c1 = spec_encode_node(*v_sidechain, k1, c0);
        },
        _ => {},
    }
}

/// Recording a vocoder below a key that holds nothing yet records exactly
/// its site count of new addresses, all below the key.
#[verifier::rlimit(40)]
proof fn lemma_encode_vocoder_count(n: AudioNode, key: Seq<char>, t: Map<Seq<char>, SiteValue>)
    requires
        n is Vocoder,
        is_plain(key),
        t.dom().finite(),
        clear_below(t, key),
    ensures
        spec_encode_node(n, key, t).dom().finite(),
        spec_encode_node(n, key, t).dom().len() == t.dom().len() + n.spec_site_count(),
        forall|a: Seq<char>|
            #[trigger] spec_encode_node(n, key, t).dom().contains(a) ==> t.dom().contains(a) || below(
                a,
                key,
            ),
    decreases n, 0nat,
{
    lemma_layout(key);
    lemma_address_injective_forall(key);
    reveal_strlit("leaf");
    reveal_strlit("op");
    reveal_strlit("bands");
    reveal_strlit("vatt");
    reveal_strlit("vrel");
    reveal_strlit("mdepth");
    assert("leaf"@[0] != "vatt"@[0]);
    assert("leaf"@[0] != "vrel"@[0]);
    assert("vatt"@[1] != "vrel"@[1]);
    match n {
        AudioNode::Vocoder { bands: v_bands, attack: v_attack, release: v_release, mod_depth: v_mod_depth, carrier: v_carrier, modulator: v_modulator, modulation: v_modulation } => {
            let e = spec_put(t, key, "leaf"@, SiteValue::Flag(false));
            let e = spec_put(e, key, "op"@, SiteValue::Index(19));
            let e = spec_put(e, key, "bands"@, SiteValue::Real(v_bands));
            let e = spec_put(e, key, "vatt"@, SiteValue::Real(v_attack));
            let e = spec_put(e, key, "vrel"@, SiteValue::Real(v_release));
            let e = spec_put(e, key, "mdepth"@, SiteValue::Real(v_mod_depth));
            let km = spec_mod_key(key);
            assert(clear_below(e, km));
            lemma_encode_mod_count(v_modulation, km, e);
            let em = spec_encode_mod(v_modulation, km, e);
            let k0 = spec_child_key(key, 0);
            assert(clear_below(em, k0));
            lemma_encode_node_count(*v_carrier, k0, em);
            let c0 = spec_encode_node(*v_carrier, k0, em);
            let k1 = spec_child_key(key, 1);
            assert(clear_below(c0, k1));
            lemma_encode_node_count(*v_modulator, k1, c0);
            let c1 = spec_encode_node(*v_modulator, k1, c0);
        },
        _ => {},
    }
}

/// Recording an audio term below a key that holds nothing yet records
/// exactly its site count of new addresses, all below the key.
pub proof fn lemma_encode_node_count(n: AudioNode, key: Seq<char>, t: Map<Seq<char>, SiteValue>)
    requires
        is_plain(key),
        t.dom().finite(),
        clear_below(t, key),
    ensures
        spec_encode_node(n, key, t).dom().finite(),
        spec_encode_node(n, key, t).dom().len() == t.dom().len() + n.spec_site_count(),
        forall|a: Seq<char>|
            #[trigger] spec_encode_node(n, key, t).dom().contains(a) ==> t.dom().contains(a) || below(
                a,
                key,
            ),
    decreases n, 1nat,
{
    match n {
        AudioNode::Vco { .. } => lemma_encode_vco_count(n, key, t),
        AudioNode::Supersaw { .. } => lemma_encode_supersaw_count(n, key, t),
        AudioNode::Noise { .. } => lemma_encode_noise_count(n, key, t),
        AudioNode::Wavetable { .. } => lemma_encode_wavetable_count(n, key, t),
        AudioNode::Pluck { .. } => lemma_encode_pluck_count(n, key, t),
        AudioNode::Formant { .. } => lemma_encode_formant_count(n, key, t),
        AudioNode::Mix { .. } => lemma_encode_mix_count(n, key, t),
        AudioNode::Filter { .. } => lemma_encode_filter_count(n, key, t),
        AudioNode::Fold { .. } => lemma_encode_fold_count(n, key, t),
        AudioNode::Delay { .. } => lemma_encode_delay_count(n, key, t),
        AudioNode::Chorus { .. } => lemma_encode_chorus_count(n, key, t),
        AudioNode::Reverb { .. } => lemma_encode_reverb_count(n, key, t),
        AudioNode::Distortion { .. } => lemma_encode_distortion_count(n, key, t),
        AudioNode::Bitcrush { .. } => lemma_encode_bitcrush_count(n, key, t),
        AudioNode::Phaser { .. } => lemma_encode_phaser_count(n, key, t),
        AudioNode::RingMod { .. } => lemma_encode_ring_mod_count(n, key, t),
        AudioNode::Flanger { .. } => lemma_encode_flanger_count(n, key, t),
        AudioNode::Tremolo { .. } => lemma_encode_tremolo_count(n, key, t),
        AudioNode::Vibrato { .. } => lemma_encode_vibrato_count(n, key, t),
        AudioNode::Eq { .. } => lemma_encode_eq_count(n, key, t),
        AudioNode::Granular { .. } => lemma_encode_granular_count(n, key, t),
        AudioNode::Shift { .. } => lemma_encode_shift_count(n, key, t),
        AudioNode::Comp { .. } => lemma_encode_comp_count(n, key, t),
        AudioNode::Duck { .. } => lemma_encode_duck_count(n, key, t),
        AudioNode::Gate { .. } => lemma_encode_gate_count(n, key, t),
        AudioNode::Vocoder { .. } => lemma_encode_vocoder_count(n, key, t),
    }
}

/// A patch's trace records exactly its site count of choices: the envelope's
/// four and one for every site of its audio term.
pub proof fn lemma_trace_size(p: PatchTree)
    ensures
        spec_to_trace(p).dom().finite(),
        spec_to_trace(p).dom().len() == p.spec_site_count(),
{
    reveal_strlit("amp");
    reveal_strlit("node");
    reveal_strlit("attack");
    reveal_strlit("decay");
    reveal_strlit("sustain");
    reveal_strlit("release");
    lemma_root_plain();
    lemma_address_injective_forall("amp"@);
    lemma_escape_plain("amp"@);
    assert("sustain"@[0] != "release"@[0]);
    let base = spec_encode_amp(p.amp, Map::empty());
    assert forall|s: Seq<char>| !below(#[trigger] spec_address("amp"@, s), "node"@) by {
        let a = spec_address("amp"@, s);
        assert(a[0] == 'a') by {
            assert(a == "amp"@ + seq!['#'] + spec_escape(s));
        }
        if below(a, "node"@) {
            assert(a.take(4)[0] == a[0]);
        }
    }
    assert(base.dom().len() == 4);
    assert(clear_below(base, "node"@));
    lemma_encode_node_count(p.root, "node"@, base);
}

} // verus!
