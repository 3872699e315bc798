//! Legal values in, legal values out: a trace whose continuous values all
//! lie in their domain reads back as a patch whose parameters all do, and
//! such a patch records only legal values. So repairing a patch's trace and
//! reading it back leaves nothing to repair.

use vstd::prelude::*;

use crate::domain::{is_violation, repaired, spec_in_domain, violations};
use crate::encoding::{
    lemma_weight_drops, octaves_encodable, read_flag, read_index, spec_decode_mod,
    spec_decode_new_mod, spec_decode_node, spec_decode_processor, spec_decode_source,
    spec_decode_bitcrush, spec_decode_chorus, spec_decode_comp, spec_decode_delay, spec_decode_distortion, spec_decode_duck, spec_decode_eq, spec_decode_filter, spec_decode_flanger, spec_decode_fold, spec_decode_gate, spec_decode_granular, spec_decode_mix, spec_decode_phaser, spec_decode_reverb, spec_decode_ring_mod, spec_decode_shift, spec_decode_tremolo, spec_decode_vibrato, spec_decode_vocoder,
    spec_encode_amp, spec_encode_mod, spec_encode_node, spec_from_trace, spec_octave_index,
    spec_put, spec_to_trace, weight, Decoded,
};
use crate::genome::{lemma_layout, spec_child_key, spec_mod_key};
use crate::term::{AmpEnv, AudioNode, ModNode, PatchTree};
use crate::trace::{is_plain, spec_address, SiteValue};
use crate::turning::lemma_repair_rebuilds;

verus! {

/// Whether every continuous value recorded in `t` lies in its domain.
pub open spec fn reals_legal(t: Map<Seq<char>, SiteValue>) -> bool {
    forall|a: Seq<char>| #[trigger] t.dom().contains(a) ==> !is_violation(t[a])
}

/// Whether every continuous parameter of a modulation term lies in its
/// domain.
pub open spec fn mod_legal(m: ModNode) -> bool
    decreases m,
{
    match m {
        ModNode::Empty => true,
        ModNode::Lfo { wave: v_wave, rate: v_rate } => spec_in_domain(v_rate),
        ModNode::Env { attack: v_attack, decay: v_decay } => spec_in_domain(v_attack) && spec_in_domain(v_decay),
        ModNode::Rand { rate: v_rate, glide: v_glide } => spec_in_domain(v_rate) && spec_in_domain(v_glide),
        ModNode::Follow { sens: v_sens, release: v_release } => spec_in_domain(v_sens) && spec_in_domain(v_release),
        ModNode::Euclid { rate: v_rate, steps: v_steps, pulses: v_pulses } => spec_in_domain(v_rate) && spec_in_domain(v_steps) && spec_in_domain(v_pulses),
        ModNode::Op { p0, p1, input, .. } => spec_in_domain(p0) && spec_in_domain(p1) && mod_legal(
            *input,
        ),
        ModNode::Pair { a, b, .. } => mod_legal(*a) && mod_legal(*b),
    }
}

/// Whether every continuous parameter of an audio term lies in its domain.
pub open spec fn node_legal(n: AudioNode) -> bool
    decreases n,
{
    match n {
        AudioNode::Vco { wave: v_wave, octave: v_octave, detune: v_detune, mod_depth: v_mod_depth, modulation: v_modulation } => spec_in_domain(v_detune) && spec_in_domain(v_mod_depth) && mod_legal(v_modulation),
        AudioNode::Supersaw { octave: v_octave, detune: v_detune, mix: v_mix, mod_depth: v_mod_depth, modulation: v_modulation } => spec_in_domain(v_detune) && spec_in_domain(v_mix) && spec_in_domain(v_mod_depth) && mod_legal(v_modulation),
        AudioNode::Noise { color: v_color } => true,
        AudioNode::Wavetable { table: v_table, octave: v_octave, morph: v_morph, mod_depth: v_mod_depth, modulation: v_modulation } => spec_in_domain(v_morph) && spec_in_domain(v_mod_depth) && mod_legal(v_modulation),
        AudioNode::Pluck { octave: v_octave, damping: v_damping, brightness: v_brightness, mod_depth: v_mod_depth, modulation: v_modulation } => spec_in_domain(v_damping) && spec_in_domain(v_brightness) && spec_in_domain(v_mod_depth) && mod_legal(v_modulation),
        AudioNode::Formant { vowel: v_vowel, shift: v_shift, octave: v_octave, mod_depth: v_mod_depth, modulation: v_modulation } => spec_in_domain(v_vowel) && spec_in_domain(v_shift) && spec_in_domain(v_mod_depth) && mod_legal(v_modulation),
        AudioNode::Mix { balance: v_balance, a: v_a, b: v_b } => spec_in_domain(v_balance) && node_legal(*v_a) && node_legal(*v_b),
        AudioNode::Filter { kind: v_kind, cutoff: v_cutoff, resonance: v_resonance, mod_depth: v_mod_depth, input: v_input, modulation: v_modulation } => spec_in_domain(v_cutoff) && spec_in_domain(v_resonance) && spec_in_domain(v_mod_depth) && mod_legal(v_modulation) && node_legal(*v_input),
        AudioNode::Fold { threshold: v_threshold, mod_depth: v_mod_depth, input: v_input, modulation: v_modulation } => spec_in_domain(v_threshold) && spec_in_domain(v_mod_depth) && mod_legal(v_modulation) && node_legal(*v_input),
        AudioNode::Delay { time: v_time, feedback: v_feedback, mix: v_mix, mod_depth: v_mod_depth, input: v_input, modulation: v_modulation } => spec_in_domain(v_time) && spec_in_domain(v_feedback) && spec_in_domain(v_mix) && spec_in_domain(v_mod_depth) && mod_legal(v_modulation) && node_legal(*v_input),
        AudioNode::Chorus { rate: v_rate, depth: v_depth, mix: v_mix, mod_depth: v_mod_depth, input: v_input, modulation: v_modulation } => spec_in_domain(v_rate) && spec_in_domain(v_depth) && spec_in_domain(v_mix) && spec_in_domain(v_mod_depth) && mod_legal(v_modulation) && node_legal(*v_input),
        AudioNode::Reverb { size: v_size, damp: v_damp, mix: v_mix, mod_depth: v_mod_depth, input: v_input, modulation: v_modulation } => spec_in_domain(v_size) && spec_in_domain(v_damp) && spec_in_domain(v_mix) && spec_in_domain(v_mod_depth) && mod_legal(v_modulation) && node_legal(*v_input),
        AudioNode::Distortion { drive: v_drive, tone: v_tone, mode: v_mode, mod_depth: v_mod_depth, input: v_input, modulation: v_modulation } => spec_in_domain(v_drive) && spec_in_domain(v_tone) && spec_in_domain(v_mod_depth) && mod_legal(v_modulation) && node_legal(*v_input),
        AudioNode::Bitcrush { bits: v_bits, downsample: v_downsample, mod_depth: v_mod_depth, input: v_input, modulation: v_modulation } => spec_in_domain(v_bits) && spec_in_domain(v_downsample) && spec_in_domain(v_mod_depth) && mod_legal(v_modulation) && node_legal(*v_input),
        AudioNode::Phaser { rate: v_rate, depth: v_depth, feedback: v_feedback, mod_depth: v_mod_depth, input: v_input, modulation: v_modulation } => spec_in_domain(v_rate) && spec_in_domain(v_depth) && spec_in_domain(v_feedback) && spec_in_domain(v_mod_depth) && mod_legal(v_modulation) && node_legal(*v_input),
        AudioNode::RingMod { mix: v_mix, a: v_a, b: v_b } => spec_in_domain(v_mix) && node_legal(*v_a) && node_legal(*v_b),
        AudioNode::Flanger { rate: v_rate, depth: v_depth, feedback: v_feedback, mod_depth: v_mod_depth, input: v_input, modulation: v_modulation } => spec_in_domain(v_rate) && spec_in_domain(v_depth) && spec_in_domain(v_feedback) && spec_in_domain(v_mod_depth) && mod_legal(v_modulation) && node_legal(*v_input),
        AudioNode::Tremolo { rate: v_rate, depth: v_depth, shape: v_shape, mod_depth: v_mod_depth, input: v_input, modulation: v_modulation } => spec_in_domain(v_rate) && spec_in_domain(v_depth) && spec_in_domain(v_shape) && spec_in_domain(v_mod_depth) && mod_legal(v_modulation) && node_legal(*v_input),
        AudioNode::Vibrato { rate: v_rate, depth: v_depth, mix: v_mix, mod_depth: v_mod_depth, input: v_input, modulation: v_modulation } => spec_in_domain(v_rate) && spec_in_domain(v_depth) && spec_in_domain(v_mix) && spec_in_domain(v_mod_depth) && mod_legal(v_modulation) && node_legal(*v_input),
        AudioNode::Eq { low: v_low, mid: v_mid, high: v_high, mod_depth: v_mod_depth, input: v_input, modulation: v_modulation } => spec_in_domain(v_low) && spec_in_domain(v_mid) && spec_in_domain(v_high) && spec_in_domain(v_mod_depth) && mod_legal(v_modulation) && node_legal(*v_input),
        AudioNode::Granular { position: v_position, size: v_size, density: v_density, mod_depth: v_mod_depth, input: v_input, modulation: v_modulation } => spec_in_domain(v_position) && spec_in_domain(v_size) && spec_in_domain(v_density) && spec_in_domain(v_mod_depth) && mod_legal(v_modulation) && node_legal(*v_input),
        AudioNode::Shift { semis: v_semis, window: v_window, mix: v_mix, mod_depth: v_mod_depth, input: v_input, modulation: v_modulation } => spec_in_domain(v_semis) && spec_in_domain(v_window) && spec_in_domain(v_mix) && spec_in_domain(v_mod_depth) && mod_legal(v_modulation) && node_legal(*v_input),
        AudioNode::Comp { threshold: v_threshold, ratio: v_ratio, makeup: v_makeup, mod_depth: v_mod_depth, input: v_input, sidechain: v_sidechain, modulation: v_modulation } => spec_in_domain(v_threshold) && spec_in_domain(v_ratio) && spec_in_domain(v_makeup) && spec_in_domain(v_mod_depth) && mod_legal(v_modulation) && node_legal(*v_input) && node_legal(*v_sidechain),
        AudioNode::Duck { amount: v_amount, threshold: v_threshold, release: v_release, mod_depth: v_mod_depth, input: v_input, key: v_key, modulation: v_modulation } => spec_in_domain(v_amount) && spec_in_domain(v_threshold) && spec_in_domain(v_release) && spec_in_domain(v_mod_depth) && mod_legal(v_modulation) && node_legal(*v_input) && node_legal(*v_key),
        AudioNode::Gate { threshold: v_threshold, range: v_range, release: v_release, mod_depth: v_mod_depth, input: v_input, sidechain: v_sidechain, modulation: v_modulation } => spec_in_domain(v_threshold) && spec_in_domain(v_range) && spec_in_domain(v_release) && spec_in_domain(v_mod_depth) && mod_legal(v_modulation) && node_legal(*v_input) && node_legal(*v_sidechain),
        AudioNode::Vocoder { bands: v_bands, attack: v_attack, release: v_release, mod_depth: v_mod_depth, carrier: v_carrier, modulator: v_modulator, modulation: v_modulation } => spec_in_domain(v_bands) && spec_in_domain(v_attack) && spec_in_domain(v_release) && spec_in_domain(v_mod_depth) && mod_legal(v_modulation) && node_legal(*v_carrier) && node_legal(*v_modulator),
    }
}

/// Whether every continuous parameter of a patch lies in its domain.
pub open spec fn patch_legal(p: PatchTree) -> bool {
    &&& spec_in_domain(p.amp.attack)
    &&& spec_in_domain(p.amp.decay)
    &&& spec_in_domain(p.amp.sustain)
    &&& spec_in_domain(p.amp.release)
    &&& node_legal(p.root)
}

/// Reading a modulation term from a trace of legal values gives a legal
/// term.
pub proof fn lemma_decode_mod_legal(t: Map<Seq<char>, SiteValue>, key: Seq<char>)
    requires
        t.dom().finite(),
        is_plain(key),
        reals_legal(t),
    ensures
        spec_decode_mod(t, key) matches Decoded::Value(m) ==> mod_legal(m),
        spec_decode_new_mod(t, key) matches Decoded::Value(m) ==> mod_legal(m),
    decreases weight(t, key),
{
    if read_index(t, key, "mod"@) is Some {
        lemma_layout(key);
        lemma_weight_drops(t, key, "mod"@);
        lemma_decode_mod_legal(t, spec_child_key(key, 0));
        lemma_decode_mod_legal(t, spec_child_key(key, 1));
    }
}

/// Reading an audio term from a trace of legal values gives a legal term.
pub proof fn lemma_decode_node_legal(t: Map<Seq<char>, SiteValue>, key: Seq<char>)
    requires
        t.dom().finite(),
        is_plain(key),
        reals_legal(t),
    ensures
        spec_decode_node(t, key) matches Decoded::Value(n) ==> node_legal(n),
    decreases weight(t, key), 1nat,
{
    lemma_layout(key);
    if let Some(leaf) = read_flag(t, key, "leaf"@) {
        if leaf {
            lemma_decode_mod_legal(t, spec_mod_key(key));
            assert(spec_decode_node(t, key) == spec_decode_source(t, key));
        } else {
            lemma_decode_processor_legal(t, key);
        }
    }
}

/// Reading a processor from a trace of legal values gives a legal term.
#[verifier::rlimit(40)]
proof fn lemma_decode_processor_legal(t: Map<Seq<char>, SiteValue>, key: Seq<char>)
    requires
        t.dom().finite(),
        is_plain(key),
        reals_legal(t),
        read_flag(t, key, "leaf"@) == Some(false),
    ensures
        spec_decode_node(t, key) matches Decoded::Value(n) ==> node_legal(n),
    decreases weight(t, key), 0nat,
{
    lemma_layout(key);
    if read_index(t, key, "op"@) is Some {
        lemma_weight_drops(t, key, "op"@);
        lemma_decode_mod_legal(t, spec_mod_key(key));
        lemma_decode_node_legal(t, spec_child_key(key, 0));
        lemma_decode_node_legal(t, spec_child_key(key, 1));
        let tag = read_index(t, key, "op"@).unwrap();
        if tag == 0 {
            lemma_mix_legal(t, key);
        } else if tag == 1 {
            lemma_filter_legal(t, key);
        } else if tag == 2 {
            lemma_fold_legal(t, key);
        } else if tag == 3 {
            lemma_delay_legal(t, key);
        } else if tag == 4 {
            lemma_chorus_legal(t, key);
        } else if tag == 5 {
            lemma_reverb_legal(t, key);
        } else if tag == 6 {
            lemma_distortion_legal(t, key);
        } else if tag == 7 {
            lemma_bitcrush_legal(t, key);
        } else if tag == 8 {
            lemma_phaser_legal(t, key);
        } else if tag == 9 {
            lemma_ring_mod_legal(t, key);
        } else if tag == 10 {
            lemma_flanger_legal(t, key);
        } else if tag == 11 {
            lemma_tremolo_legal(t, key);
        } else if tag == 12 {
            lemma_vibrato_legal(t, key);
        } else if tag == 13 {
            lemma_eq_legal(t, key);
        } else if tag == 14 {
            lemma_granular_legal(t, key);
        } else if tag == 15 {
            lemma_shift_legal(t, key);
        } else if tag == 16 {
            lemma_comp_legal(t, key);
        } else if tag == 17 {
            lemma_duck_legal(t, key);
        } else if tag == 18 {
            lemma_gate_legal(t, key);
        } else if tag == 19 {
            lemma_vocoder_legal(t, key);
        }
    }
    assert(spec_decode_node(t, key) == spec_decode_processor(t, key));
}


/// Reading a mix from a trace of legal values, whose subterms read as
/// legal terms, gives a legal term.
proof fn lemma_mix_legal(t: Map<Seq<char>, SiteValue>, key: Seq<char>)
    requires
        t.dom().finite(),
        is_plain(key),
        reals_legal(t),
        t.dom().contains(spec_address(key, "op"@)),
        spec_decode_mod(t, spec_mod_key(key)) matches Decoded::Value(m) ==> mod_legal(m),
        spec_decode_new_mod(t, spec_mod_key(key)) matches Decoded::Value(m) ==> mod_legal(m),
        spec_decode_node(t, spec_child_key(key, 0)) matches Decoded::Value(n) ==> node_legal(n),
        spec_decode_node(t, spec_child_key(key, 1)) matches Decoded::Value(n) ==> node_legal(n),
    ensures
        spec_decode_mix(t, key) matches Decoded::Value(n) ==> node_legal(n),
{
}

/// Reading a filter from a trace of legal values, whose subterms read as
/// legal terms, gives a legal term.
proof fn lemma_filter_legal(t: Map<Seq<char>, SiteValue>, key: Seq<char>)
    requires
        t.dom().finite(),
        is_plain(key),
        reals_legal(t),
        t.dom().contains(spec_address(key, "op"@)),
        spec_decode_mod(t, spec_mod_key(key)) matches Decoded::Value(m) ==> mod_legal(m),
        spec_decode_new_mod(t, spec_mod_key(key)) matches Decoded::Value(m) ==> mod_legal(m),
        spec_decode_node(t, spec_child_key(key, 0)) matches Decoded::Value(n) ==> node_legal(n),
        spec_decode_node(t, spec_child_key(key, 1)) matches Decoded::Value(n) ==> node_legal(n),
    ensures
        spec_decode_filter(t, key) matches Decoded::Value(n) ==> node_legal(n),
{
}

/// Reading a fold from a trace of legal values, whose subterms read as
/// legal terms, gives a legal term.
proof fn lemma_fold_legal(t: Map<Seq<char>, SiteValue>, key: Seq<char>)
    requires
        t.dom().finite(),
        is_plain(key),
        reals_legal(t),
        t.dom().contains(spec_address(key, "op"@)),
        spec_decode_mod(t, spec_mod_key(key)) matches Decoded::Value(m) ==> mod_legal(m),
        spec_decode_new_mod(t, spec_mod_key(key)) matches Decoded::Value(m) ==> mod_legal(m),
        spec_decode_node(t, spec_child_key(key, 0)) matches Decoded::Value(n) ==> node_legal(n),
        spec_decode_node(t, spec_child_key(key, 1)) matches Decoded::Value(n) ==> node_legal(n),
    ensures
        spec_decode_fold(t, key) matches Decoded::Value(n) ==> node_legal(n),
{
}

/// Reading a delay from a trace of legal values, whose subterms read as
/// legal terms, gives a legal term.
proof fn lemma_delay_legal(t: Map<Seq<char>, SiteValue>, key: Seq<char>)
    requires
        t.dom().finite(),
        is_plain(key),
        reals_legal(t),
        t.dom().contains(spec_address(key, "op"@)),
        spec_decode_mod(t, spec_mod_key(key)) matches Decoded::Value(m) ==> mod_legal(m),
        spec_decode_new_mod(t, spec_mod_key(key)) matches Decoded::Value(m) ==> mod_legal(m),
        spec_decode_node(t, spec_child_key(key, 0)) matches Decoded::Value(n) ==> node_legal(n),
        spec_decode_node(t, spec_child_key(key, 1)) matches Decoded::Value(n) ==> node_legal(n),
    ensures
        spec_decode_delay(t, key) matches Decoded::Value(n) ==> node_legal(n),
{
}

/// Reading a chorus from a trace of legal values, whose subterms read as
/// legal terms, gives a legal term.
proof fn lemma_chorus_legal(t: Map<Seq<char>, SiteValue>, key: Seq<char>)
    requires
        t.dom().finite(),
        is_plain(key),
        reals_legal(t),
        t.dom().contains(spec_address(key, "op"@)),
        spec_decode_mod(t, spec_mod_key(key)) matches Decoded::Value(m) ==> mod_legal(m),
        spec_decode_new_mod(t, spec_mod_key(key)) matches Decoded::Value(m) ==> mod_legal(m),
        spec_decode_node(t, spec_child_key(key, 0)) matches Decoded::Value(n) ==> node_legal(n),
        spec_decode_node(t, spec_child_key(key, 1)) matches Decoded::Value(n) ==> node_legal(n),
    ensures
        spec_decode_chorus(t, key) matches Decoded::Value(n) ==> node_legal(n),
{
}

/// Reading a reverb from a trace of legal values, whose subterms read as
/// legal terms, gives a legal term.
proof fn lemma_reverb_legal(t: Map<Seq<char>, SiteValue>, key: Seq<char>)
    requires
        t.dom().finite(),
        is_plain(key),
        reals_legal(t),
        t.dom().contains(spec_address(key, "op"@)),
        spec_decode_mod(t, spec_mod_key(key)) matches Decoded::Value(m) ==> mod_legal(m),
        spec_decode_new_mod(t, spec_mod_key(key)) matches Decoded::Value(m) ==> mod_legal(m),
        spec_decode_node(t, spec_child_key(key, 0)) matches Decoded::Value(n) ==> node_legal(n),
        spec_decode_node(t, spec_child_key(key, 1)) matches Decoded::Value(n) ==> node_legal(n),
    ensures
        spec_decode_reverb(t, key) matches Decoded::Value(n) ==> node_legal(n),
{
}

/// Reading a distortion from a trace of legal values, whose subterms read as
/// legal terms, gives a legal term.
proof fn lemma_distortion_legal(t: Map<Seq<char>, SiteValue>, key: Seq<char>)
    requires
        t.dom().finite(),
        is_plain(key),
        reals_legal(t),
        t.dom().contains(spec_address(key, "op"@)),
        spec_decode_mod(t, spec_mod_key(key)) matches Decoded::Value(m) ==> mod_legal(m),
        spec_decode_new_mod(t, spec_mod_key(key)) matches Decoded::Value(m) ==> mod_legal(m),
        spec_decode_node(t, spec_child_key(key, 0)) matches Decoded::Value(n) ==> node_legal(n),
        spec_decode_node(t, spec_child_key(key, 1)) matches Decoded::Value(n) ==> node_legal(n),
    ensures
        spec_decode_distortion(t, key) matches Decoded::Value(n) ==> node_legal(n),
{
}

/// Reading a bitcrush from a trace of legal values, whose subterms read as
/// legal terms, gives a legal term.
proof fn lemma_bitcrush_legal(t: Map<Seq<char>, SiteValue>, key: Seq<char>)
    requires
        t.dom().finite(),
        is_plain(key),
        reals_legal(t),
        t.dom().contains(spec_address(key, "op"@)),
        spec_decode_mod(t, spec_mod_key(key)) matches Decoded::Value(m) ==> mod_legal(m),
        spec_decode_new_mod(t, spec_mod_key(key)) matches Decoded::Value(m) ==> mod_legal(m),
        spec_decode_node(t, spec_child_key(key, 0)) matches Decoded::Value(n) ==> node_legal(n),
        spec_decode_node(t, spec_child_key(key, 1)) matches Decoded::Value(n) ==> node_legal(n),
    ensures
        spec_decode_bitcrush(t, key) matches Decoded::Value(n) ==> node_legal(n),
{
}

/// Reading a phaser from a trace of legal values, whose subterms read as
/// legal terms, gives a legal term.
proof fn lemma_phaser_legal(t: Map<Seq<char>, SiteValue>, key: Seq<char>)
    requires
        t.dom().finite(),
        is_plain(key),
        reals_legal(t),
        t.dom().contains(spec_address(key, "op"@)),
        spec_decode_mod(t, spec_mod_key(key)) matches Decoded::Value(m) ==> mod_legal(m),
        spec_decode_new_mod(t, spec_mod_key(key)) matches Decoded::Value(m) ==> mod_legal(m),
        spec_decode_node(t, spec_child_key(key, 0)) matches Decoded::Value(n) ==> node_legal(n),
        spec_decode_node(t, spec_child_key(key, 1)) matches Decoded::Value(n) ==> node_legal(n),
    ensures
        spec_decode_phaser(t, key) matches Decoded::Value(n) ==> node_legal(n),
{
}

/// Reading a ring mod from a trace of legal values, whose subterms read as
/// legal terms, gives a legal term.
proof fn lemma_ring_mod_legal(t: Map<Seq<char>, SiteValue>, key: Seq<char>)
    requires
        t.dom().finite(),
        is_plain(key),
        reals_legal(t),
        t.dom().contains(spec_address(key, "op"@)),
        spec_decode_mod(t, spec_mod_key(key)) matches Decoded::Value(m) ==> mod_legal(m),
        spec_decode_new_mod(t, spec_mod_key(key)) matches Decoded::Value(m) ==> mod_legal(m),
        spec_decode_node(t, spec_child_key(key, 0)) matches Decoded::Value(n) ==> node_legal(n),
        spec_decode_node(t, spec_child_key(key, 1)) matches Decoded::Value(n) ==> node_legal(n),
    ensures
        spec_decode_ring_mod(t, key) matches Decoded::Value(n) ==> node_legal(n),
{
}

/// Reading a flanger from a trace of legal values, whose subterms read as
/// legal terms, gives a legal term.
proof fn lemma_flanger_legal(t: Map<Seq<char>, SiteValue>, key: Seq<char>)
    requires
        t.dom().finite(),
        is_plain(key),
        reals_legal(t),
        t.dom().contains(spec_address(key, "op"@)),
        spec_decode_mod(t, spec_mod_key(key)) matches Decoded::Value(m) ==> mod_legal(m),
        spec_decode_new_mod(t, spec_mod_key(key)) matches Decoded::Value(m) ==> mod_legal(m),
        spec_decode_node(t, spec_child_key(key, 0)) matches Decoded::Value(n) ==> node_legal(n),
        spec_decode_node(t, spec_child_key(key, 1)) matches Decoded::Value(n) ==> node_legal(n),
    ensures
        spec_decode_flanger(t, key) matches Decoded::Value(n) ==> node_legal(n),
{
}

/// Reading a tremolo from a trace of legal values, whose subterms read as
/// legal terms, gives a legal term.
proof fn lemma_tremolo_legal(t: Map<Seq<char>, SiteValue>, key: Seq<char>)
    requires
        t.dom().finite(),
        is_plain(key),
        reals_legal(t),
        t.dom().contains(spec_address(key, "op"@)),
        spec_decode_mod(t, spec_mod_key(key)) matches Decoded::Value(m) ==> mod_legal(m),
        spec_decode_new_mod(t, spec_mod_key(key)) matches Decoded::Value(m) ==> mod_legal(m),
        spec_decode_node(t, spec_child_key(key, 0)) matches Decoded::Value(n) ==> node_legal(n),
        spec_decode_node(t, spec_child_key(key, 1)) matches Decoded::Value(n) ==> node_legal(n),
    ensures
        spec_decode_tremolo(t, key) matches Decoded::Value(n) ==> node_legal(n),
{
}

/// Reading a vibrato from a trace of legal values, whose subterms read as
/// legal terms, gives a legal term.
proof fn lemma_vibrato_legal(t: Map<Seq<char>, SiteValue>, key: Seq<char>)
    requires
        t.dom().finite(),
        is_plain(key),
        reals_legal(t),
        t.dom().contains(spec_address(key, "op"@)),
        spec_decode_mod(t, spec_mod_key(key)) matches Decoded::Value(m) ==> mod_legal(m),
        spec_decode_new_mod(t, spec_mod_key(key)) matches Decoded::Value(m) ==> mod_legal(m),
        spec_decode_node(t, spec_child_key(key, 0)) matches Decoded::Value(n) ==> node_legal(n),
        spec_decode_node(t, spec_child_key(key, 1)) matches Decoded::Value(n) ==> node_legal(n),
    ensures
        spec_decode_vibrato(t, key) matches Decoded::Value(n) ==> node_legal(n),
{
}

/// Reading a eq from a trace of legal values, whose subterms read as
/// legal terms, gives a legal term.
proof fn lemma_eq_legal(t: Map<Seq<char>, SiteValue>, key: Seq<char>)
    requires
        t.dom().finite(),
        is_plain(key),
        reals_legal(t),
        t.dom().contains(spec_address(key, "op"@)),
        spec_decode_mod(t, spec_mod_key(key)) matches Decoded::Value(m) ==> mod_legal(m),
        spec_decode_new_mod(t, spec_mod_key(key)) matches Decoded::Value(m) ==> mod_legal(m),
        spec_decode_node(t, spec_child_key(key, 0)) matches Decoded::Value(n) ==> node_legal(n),
        spec_decode_node(t, spec_child_key(key, 1)) matches Decoded::Value(n) ==> node_legal(n),
    ensures
        spec_decode_eq(t, key) matches Decoded::Value(n) ==> node_legal(n),
{
}

/// Reading a granular from a trace of legal values, whose subterms read as
/// legal terms, gives a legal term.
proof fn lemma_granular_legal(t: Map<Seq<char>, SiteValue>, key: Seq<char>)
    requires
        t.dom().finite(),
        is_plain(key),
        reals_legal(t),
        t.dom().contains(spec_address(key, "op"@)),
        spec_decode_mod(t, spec_mod_key(key)) matches Decoded::Value(m) ==> mod_legal(m),
        spec_decode_new_mod(t, spec_mod_key(key)) matches Decoded::Value(m) ==> mod_legal(m),
        spec_decode_node(t, spec_child_key(key, 0)) matches Decoded::Value(n) ==> node_legal(n),
        spec_decode_node(t, spec_child_key(key, 1)) matches Decoded::Value(n) ==> node_legal(n),
    ensures
        spec_decode_granular(t, key) matches Decoded::Value(n) ==> node_legal(n),
{
}

/// Reading a shift from a trace of legal values, whose subterms read as
/// legal terms, gives a legal term.
proof fn lemma_shift_legal(t: Map<Seq<char>, SiteValue>, key: Seq<char>)
    requires
        t.dom().finite(),
        is_plain(key),
        reals_legal(t),
        t.dom().contains(spec_address(key, "op"@)),
        spec_decode_mod(t, spec_mod_key(key)) matches Decoded::Value(m) ==> mod_legal(m),
        spec_decode_new_mod(t, spec_mod_key(key)) matches Decoded::Value(m) ==> mod_legal(m),
        spec_decode_node(t, spec_child_key(key, 0)) matches Decoded::Value(n) ==> node_legal(n),
        spec_decode_node(t, spec_child_key(key, 1)) matches Decoded::Value(n) ==> node_legal(n),
    ensures
        spec_decode_shift(t, key) matches Decoded::Value(n) ==> node_legal(n),
{
}

/// Reading a comp from a trace of legal values, whose subterms read as
/// legal terms, gives a legal term.
proof fn lemma_comp_legal(t: Map<Seq<char>, SiteValue>, key: Seq<char>)
    requires
        t.dom().finite(),
        is_plain(key),
        reals_legal(t),
        t.dom().contains(spec_address(key, "op"@)),
        spec_decode_mod(t, spec_mod_key(key)) matches Decoded::Value(m) ==> mod_legal(m),
        spec_decode_new_mod(t, spec_mod_key(key)) matches Decoded::Value(m) ==> mod_legal(m),
        spec_decode_node(t, spec_child_key(key, 0)) matches Decoded::Value(n) ==> node_legal(n),
        spec_decode_node(t, spec_child_key(key, 1)) matches Decoded::Value(n) ==> node_legal(n),
    ensures
        spec_decode_comp(t, key) matches Decoded::Value(n) ==> node_legal(n),
{
}

/// Reading a duck from a trace of legal values, whose subterms read as
/// legal terms, gives a legal term.
proof fn lemma_duck_legal(t: Map<Seq<char>, SiteValue>, key: Seq<char>)
    requires
        t.dom().finite(),
        is_plain(key),
        reals_legal(t),
        t.dom().contains(spec_address(key, "op"@)),
        spec_decode_mod(t, spec_mod_key(key)) matches Decoded::Value(m) ==> mod_legal(m),
        spec_decode_new_mod(t, spec_mod_key(key)) matches Decoded::Value(m) ==> mod_legal(m),
        spec_decode_node(t, spec_child_key(key, 0)) matches Decoded::Value(n) ==> node_legal(n),
        spec_decode_node(t, spec_child_key(key, 1)) matches Decoded::Value(n) ==> node_legal(n),
    ensures
        spec_decode_duck(t, key) matches Decoded::Value(n) ==> node_legal(n),
{
}

/// Reading a gate from a trace of legal values, whose subterms read as
/// legal terms, gives a legal term.
proof fn lemma_gate_legal(t: Map<Seq<char>, SiteValue>, key: Seq<char>)
    requires
        t.dom().finite(),
        is_plain(key),
        reals_legal(t),
        t.dom().contains(spec_address(key, "op"@)),
        spec_decode_mod(t, spec_mod_key(key)) matches Decoded::Value(m) ==> mod_legal(m),
        spec_decode_new_mod(t, spec_mod_key(key)) matches Decoded::Value(m) ==> mod_legal(m),
        spec_decode_node(t, spec_child_key(key, 0)) matches Decoded::Value(n) ==> node_legal(n),
        spec_decode_node(t, spec_child_key(key, 1)) matches Decoded::Value(n) ==> node_legal(n),
    ensures
        spec_decode_gate(t, key) matches Decoded::Value(n) ==> node_legal(n),
{
}

/// Reading a vocoder from a trace of legal values, whose subterms read as
/// legal terms, gives a legal term.
proof fn lemma_vocoder_legal(t: Map<Seq<char>, SiteValue>, key: Seq<char>)
    requires
        t.dom().finite(),
        is_plain(key),
        reals_legal(t),
        t.dom().contains(spec_address(key, "op"@)),
        spec_decode_mod(t, spec_mod_key(key)) matches Decoded::Value(m) ==> mod_legal(m),
        spec_decode_new_mod(t, spec_mod_key(key)) matches Decoded::Value(m) ==> mod_legal(m),
        spec_decode_node(t, spec_child_key(key, 0)) matches Decoded::Value(n) ==> node_legal(n),
        spec_decode_node(t, spec_child_key(key, 1)) matches Decoded::Value(n) ==> node_legal(n),
    ensures
        spec_decode_vocoder(t, key) matches Decoded::Value(n) ==> node_legal(n),
{
}


/// Recording a legal value keeps a trace legal.
proof fn lemma_put_legal(t: Map<Seq<char>, SiteValue>, key: Seq<char>, site: Seq<char>, v: SiteValue)
    requires
        reals_legal(t),
        !is_violation(v),
    ensures
        reals_legal(spec_put(t, key, site, v)),
{
}

/// Recording a legal modulation term keeps a trace legal.
pub proof fn lemma_encode_mod_legal(m: ModNode, key: Seq<char>, t: Map<Seq<char>, SiteValue>)
    requires
        reals_legal(t),
        mod_legal(m),
    ensures
        reals_legal(spec_encode_mod(m, key, t)),
    decreases m,
{
    match m {
        ModNode::Op { kind: v_kind, p0: v_p0, p1: v_p1, input: v_input } => {
            let sites = v_kind.spec_param_sites();
            let e = spec_put(t, key, "mod"@, SiteValue::Index(6));
            let e = spec_put(e, key, "modop"@, SiteValue::Index(v_kind.spec_index() as usize));
            let e = spec_put(e, key, sites[0], SiteValue::Real(v_p0));
            let e = if sites.len() > 1 {
                spec_put(e, key, sites[1], SiteValue::Real(v_p1))
            } else {
                e
            };
            lemma_encode_mod_legal(*v_input, spec_child_key(key, 0), e);
        },
        ModNode::Pair { kind: v_kind, a: v_a, b: v_b } => {
            let e = spec_put(t, key, "mod"@, SiteValue::Index(7));
            let e = spec_put(e, key, "pairop"@, SiteValue::Index(v_kind.spec_index() as usize));
            lemma_encode_mod_legal(*v_a, spec_child_key(key, 0), e);
            let e = spec_encode_mod(*v_a, spec_child_key(key, 0), e);
            lemma_encode_mod_legal(*v_b, spec_child_key(key, 1), e);
        },
        _ => {},
    }
}

/// Recording a legal audio term keeps a trace legal.
pub proof fn lemma_encode_node_legal(n: AudioNode, key: Seq<char>, t: Map<Seq<char>, SiteValue>)
    requires
        reals_legal(t),
        node_legal(n),
    ensures
        reals_legal(spec_encode_node(n, key, t)),
    decreases n,
{
    match n {
        AudioNode::Vco { wave: v_wave, octave: v_octave, detune: v_detune, mod_depth: v_mod_depth, modulation: v_modulation } => {
            let e = spec_put(t, key, "leaf"@, SiteValue::Flag(true));
            let e = spec_put(e, key, "src"@, SiteValue::Index(0));
            let e = spec_put(e, key, "wave"@, SiteValue::Index(v_wave.spec_index() as usize));
            let e = spec_put(e, key, "oct"@, SiteValue::Index(spec_octave_index(v_octave)));
            let e = spec_put(e, key, "det"@, SiteValue::Real(v_detune));
            let e = spec_put(e, key, "mdepth"@, SiteValue::Real(v_mod_depth));
            lemma_encode_mod_legal(v_modulation, spec_mod_key(key), e);
            let e = spec_encode_mod(v_modulation, spec_mod_key(key), e);
        },
        AudioNode::Supersaw { octave: v_octave, detune: v_detune, mix: v_mix, mod_depth: v_mod_depth, modulation: v_modulation } => {
            let e = spec_put(t, key, "leaf"@, SiteValue::Flag(true));
            let e = spec_put(e, key, "src"@, SiteValue::Index(1));
            let e = spec_put(e, key, "oct"@, SiteValue::Index(spec_octave_index(v_octave)));
            let e = spec_put(e, key, "det"@, SiteValue::Real(v_detune));
            let e = spec_put(e, key, "smix"@, SiteValue::Real(v_mix));
            let e = spec_put(e, key, "mdepth"@, SiteValue::Real(v_mod_depth));
            lemma_encode_mod_legal(v_modulation, spec_mod_key(key), e);
            let e = spec_encode_mod(v_modulation, spec_mod_key(key), e);
        },
        AudioNode::Noise { color: v_color } => {
            let e = spec_put(t, key, "leaf"@, SiteValue::Flag(true));
            let e = spec_put(e, key, "src"@, SiteValue::Index(2));
            let e = spec_put(e, key, "color"@, SiteValue::Index(v_color.spec_index() as usize));
        },
        AudioNode::Wavetable { table: v_table, octave: v_octave, morph: v_morph, mod_depth: v_mod_depth, modulation: v_modulation } => {
            let e = spec_put(t, key, "leaf"@, SiteValue::Flag(true));
            let e = spec_put(e, key, "src"@, SiteValue::Index(3));
            let e = spec_put(e, key, "table"@, SiteValue::Index(v_table.spec_index() as usize));
            let e = spec_put(e, key, "oct"@, SiteValue::Index(spec_octave_index(v_octave)));
            let e = spec_put(e, key, "morph"@, SiteValue::Real(v_morph));
            let e = spec_put(e, key, "mdepth"@, SiteValue::Real(v_mod_depth));
            lemma_encode_mod_legal(v_modulation, spec_mod_key(key), e);
            let e = spec_encode_mod(v_modulation, spec_mod_key(key), e);
        },
        AudioNode::Pluck { octave: v_octave, damping: v_damping, brightness: v_brightness, mod_depth: v_mod_depth, modulation: v_modulation } => {
            let e = spec_put(t, key, "leaf"@, SiteValue::Flag(true));
            let e = spec_put(e, key, "src"@, SiteValue::Index(4));
            let e = spec_put(e, key, "oct"@, SiteValue::Index(spec_octave_index(v_octave)));
            let e = spec_put(e, key, "damp"@, SiteValue::Real(v_damping));
            let e = spec_put(e, key, "bright"@, SiteValue::Real(v_brightness));
            let e = spec_put(e, key, "mdepth"@, SiteValue::Real(v_mod_depth));
            lemma_encode_mod_legal(v_modulation, spec_mod_key(key), e);
            let e = spec_encode_mod(v_modulation, spec_mod_key(key), e);
        },
        AudioNode::Formant { vowel: v_vowel, shift: v_shift, octave: v_octave, mod_depth: v_mod_depth, modulation: v_modulation } => {
            let e = spec_put(t, key, "leaf"@, SiteValue::Flag(true));
            let e = spec_put(e, key, "src"@, SiteValue::Index(5));
            let e = spec_put(e, key, "vowel"@, SiteValue::Real(v_vowel));
            let e = spec_put(e, key, "fshift"@, SiteValue::Real(v_shift));
            let e = spec_put(e, key, "oct"@, SiteValue::Index(spec_octave_index(v_octave)));
            let e = spec_put(e, key, "mdepth"@, SiteValue::Real(v_mod_depth));
            lemma_encode_mod_legal(v_modulation, spec_mod_key(key), e);
            let e = spec_encode_mod(v_modulation, spec_mod_key(key), e);
        },
        AudioNode::Mix { balance: v_balance, a: v_a, b: v_b } => {
            let e = spec_put(t, key, "leaf"@, SiteValue::Flag(false));
            let e = spec_put(e, key, "op"@, SiteValue::Index(0));
            let e = spec_put(e, key, "bal"@, SiteValue::Real(v_balance));
            lemma_encode_node_legal(*v_a, spec_child_key(key, 0), e);
            let e = spec_encode_node(*v_a, spec_child_key(key, 0), e);
            lemma_encode_node_legal(*v_b, spec_child_key(key, 1), e);
            let e = spec_encode_node(*v_b, spec_child_key(key, 1), e);
        },
        AudioNode::Filter { kind: v_kind, cutoff: v_cutoff, resonance: v_resonance, mod_depth: v_mod_depth, input: v_input, modulation: v_modulation } => {
            let e = spec_put(t, key, "leaf"@, SiteValue::Flag(false));
            let e = spec_put(e, key, "op"@, SiteValue::Index(1));
            let e = spec_put(e, key, "fkind"@, SiteValue::Index(v_kind.spec_index() as usize));
            let e = spec_put(e, key, "cut"@, SiteValue::Real(v_cutoff));
            let e = spec_put(e, key, "res"@, SiteValue::Real(v_resonance));
            let e = spec_put(e, key, "mdepth"@, SiteValue::Real(v_mod_depth));
            lemma_encode_mod_legal(v_modulation, spec_mod_key(key), e);
            let e = spec_encode_mod(v_modulation, spec_mod_key(key), e);
            lemma_encode_node_legal(*v_input, spec_child_key(key, 0), e);
            let e = spec_encode_node(*v_input, spec_child_key(key, 0), e);
        },
        AudioNode::Fold { threshold: v_threshold, mod_depth: v_mod_depth, input: v_input, modulation: v_modulation } => {
            let e = spec_put(t, key, "leaf"@, SiteValue::Flag(false));
            let e = spec_put(e, key, "op"@, SiteValue::Index(2));
            let e = spec_put(e, key, "thresh"@, SiteValue::Real(v_threshold));
            let e = spec_put(e, key, "mdepth"@, SiteValue::Real(v_mod_depth));
            lemma_encode_mod_legal(v_modulation, spec_mod_key(key), e);
            let e = spec_encode_mod(v_modulation, spec_mod_key(key), e);
            lemma_encode_node_legal(*v_input, spec_child_key(key, 0), e);
            let e = spec_encode_node(*v_input, spec_child_key(key, 0), e);
        },
        AudioNode::Delay { time: v_time, feedback: v_feedback, mix: v_mix, mod_depth: v_mod_depth, input: v_input, modulation: v_modulation } => {
            let e = spec_put(t, key, "leaf"@, SiteValue::Flag(false));
            let e = spec_put(e, key, "op"@, SiteValue::Index(3));
            let e = spec_put(e, key, "time"@, SiteValue::Real(v_time));
            let e = spec_put(e, key, "fb"@, SiteValue::Real(v_feedback));
            let e = spec_put(e, key, "dmix"@, SiteValue::Real(v_mix));
            let e = spec_put(e, key, "mdepth"@, SiteValue::Real(v_mod_depth));
            lemma_encode_mod_legal(v_modulation, spec_mod_key(key), e);
            let e = spec_encode_mod(v_modulation, spec_mod_key(key), e);
            lemma_encode_node_legal(*v_input, spec_child_key(key, 0), e);
            let e = spec_encode_node(*v_input, spec_child_key(key, 0), e);
        },
        AudioNode::Chorus { rate: v_rate, depth: v_depth, mix: v_mix, mod_depth: v_mod_depth, input: v_input, modulation: v_modulation } => {
            let e = spec_put(t, key, "leaf"@, SiteValue::Flag(false));
            let e = spec_put(e, key, "op"@, SiteValue::Index(4));
            let e = spec_put(e, key, "crate"@, SiteValue::Real(v_rate));
            let e = spec_put(e, key, "cdepth"@, SiteValue::Real(v_depth));
            let e = spec_put(e, key, "cmix"@, SiteValue::Real(v_mix));
            let e = spec_put(e, key, "mdepth"@, SiteValue::Real(v_mod_depth));
            lemma_encode_mod_legal(v_modulation, spec_mod_key(key), e);
            let e = spec_encode_mod(v_modulation, spec_mod_key(key), e);
            lemma_encode_node_legal(*v_input, spec_child_key(key, 0), e);
            let e = spec_encode_node(*v_input, spec_child_key(key, 0), e);
        },
        AudioNode::Reverb { size: v_size, damp: v_damp, mix: v_mix, mod_depth: v_mod_depth, input: v_input, modulation: v_modulation } => {
            let e = spec_put(t, key, "leaf"@, SiteValue::Flag(false));
            let e = spec_put(e, key, "op"@, SiteValue::Index(5));
            let e = spec_put(e, key, "rsize"@, SiteValue::Real(v_size));
            let e = spec_put(e, key, "rdamp"@, SiteValue::Real(v_damp));
            let e = spec_put(e, key, "rmix"@, SiteValue::Real(v_mix));
            let e = spec_put(e, key, "mdepth"@, SiteValue::Real(v_mod_depth));
            lemma_encode_mod_legal(v_modulation, spec_mod_key(key), e);
            let e = spec_encode_mod(v_modulation, spec_mod_key(key), e);
            lemma_encode_node_legal(*v_input, spec_child_key(key, 0), e);
            let e = spec_encode_node(*v_input, spec_child_key(key, 0), e);
        },
        AudioNode::Distortion { drive: v_drive, tone: v_tone, mode: v_mode, mod_depth: v_mod_depth, input: v_input, modulation: v_modulation } => {
            let e = spec_put(t, key, "leaf"@, SiteValue::Flag(false));
            let e = spec_put(e, key, "op"@, SiteValue::Index(6));
            let e = spec_put(e, key, "drive"@, SiteValue::Real(v_drive));
            let e = spec_put(e, key, "tone"@, SiteValue::Real(v_tone));
            let e = spec_put(e, key, "dmode"@, SiteValue::Index(v_mode.spec_index() as usize));
            let e = spec_put(e, key, "mdepth"@, SiteValue::Real(v_mod_depth));
            lemma_encode_mod_legal(v_modulation, spec_mod_key(key), e);
            let e = spec_encode_mod(v_modulation, spec_mod_key(key), e);
            lemma_encode_node_legal(*v_input, spec_child_key(key, 0), e);
            let e = spec_encode_node(*v_input, spec_child_key(key, 0), e);
        },
        AudioNode::Bitcrush { bits: v_bits, downsample: v_downsample, mod_depth: v_mod_depth, input: v_input, modulation: v_modulation } => {
            let e = spec_put(t, key, "leaf"@, SiteValue::Flag(false));
            let e = spec_put(e, key, "op"@, SiteValue::Index(7));
            let e = spec_put(e, key, "bits"@, SiteValue::Real(v_bits));
            let e = spec_put(e, key, "dsamp"@, SiteValue::Real(v_downsample));
            let e = spec_put(e, key, "mdepth"@, SiteValue::Real(v_mod_depth));
            lemma_encode_mod_legal(v_modulation, spec_mod_key(key), e);
            let e = spec_encode_mod(v_modulation, spec_mod_key(key), e);
            lemma_encode_node_legal(*v_input, spec_child_key(key, 0), e);
            let e = spec_encode_node(*v_input, spec_child_key(key, 0), e);
        },
        AudioNode::Phaser { rate: v_rate, depth: v_depth, feedback: v_feedback, mod_depth: v_mod_depth, input: v_input, modulation: v_modulation } => {
            let e = spec_put(t, key, "leaf"@, SiteValue::Flag(false));
            let e = spec_put(e, key, "op"@, SiteValue::Index(8));
            let e = spec_put(e, key, "prate"@, SiteValue::Real(v_rate));
            let e = spec_put(e, key, "pdepth"@, SiteValue::Real(v_depth));
            let e = spec_put(e, key, "pfb"@, SiteValue::Real(v_feedback));
            let e = spec_put(e, key, "mdepth"@, SiteValue::Real(v_mod_depth));
            lemma_encode_mod_legal(v_modulation, spec_mod_key(key), e);
            let e = spec_encode_mod(v_modulation, spec_mod_key(key), e);
            lemma_encode_node_legal(*v_input, spec_child_key(key, 0), e);
            let e = spec_encode_node(*v_input, spec_child_key(key, 0), e);
        },
        AudioNode::RingMod { mix: v_mix, a: v_a, b: v_b } => {
            let e = spec_put(t, key, "leaf"@, SiteValue::Flag(false));
            let e = spec_put(e, key, "op"@, SiteValue::Index(9));
            let e = spec_put(e, key, "rgmix"@, SiteValue::Real(v_mix));
            lemma_encode_node_legal(*v_a, spec_child_key(key, 0), e);
            let e = spec_encode_node(*v_a, spec_child_key(key, 0), e);
            lemma_encode_node_legal(*v_b, spec_child_key(key, 1), e);
            let e = spec_encode_node(*v_b, spec_child_key(key, 1), e);
        },
        AudioNode::Flanger { rate: v_rate, depth: v_depth, feedback: v_feedback, mod_depth: v_mod_depth, input: v_input, modulation: v_modulation } => {
            let e = spec_put(t, key, "leaf"@, SiteValue::Flag(false));
            let e = spec_put(e, key, "op"@, SiteValue::Index(10));
            let e = spec_put(e, key, "frate"@, SiteValue::Real(v_rate));
            let e = spec_put(e, key, "fdepth"@, SiteValue::Real(v_depth));
            let e = spec_put(e, key, "ffb"@, SiteValue::Real(v_feedback));
            let e = spec_put(e, key, "mdepth"@, SiteValue::Real(v_mod_depth));
            lemma_encode_mod_legal(v_modulation, spec_mod_key(key), e);
            let e = spec_encode_mod(v_modulation, spec_mod_key(key), e);
            lemma_encode_node_legal(*v_input, spec_child_key(key, 0), e);
            let e = spec_encode_node(*v_input, spec_child_key(key, 0), e);
        },
        AudioNode::Tremolo { rate: v_rate, depth: v_depth, shape: v_shape, mod_depth: v_mod_depth, input: v_input, modulation: v_modulation } => {
            let e = spec_put(t, key, "leaf"@, SiteValue::Flag(false));
            let e = spec_put(e, key, "op"@, SiteValue::Index(11));
            let e = spec_put(e, key, "trate"@, SiteValue::Real(v_rate));
            let e = spec_put(e, key, "tdepth"@, SiteValue::Real(v_depth));
            let e = spec_put(e, key, "tshape"@, SiteValue::Real(v_shape));
            let e = spec_put(e, key, "mdepth"@, SiteValue::Real(v_mod_depth));
            lemma_encode_mod_legal(v_modulation, spec_mod_key(key), e);
            let e = spec_encode_mod(v_modulation, spec_mod_key(key), e);
            lemma_encode_node_legal(*v_input, spec_child_key(key, 0), e);
            let e = spec_encode_node(*v_input, spec_child_key(key, 0), e);
        },
        AudioNode::Vibrato { rate: v_rate, depth: v_depth, mix: v_mix, mod_depth: v_mod_depth, input: v_input, modulation: v_modulation } => {
            let e = spec_put(t, key, "leaf"@, SiteValue::Flag(false));
            let e = spec_put(e, key, "op"@, SiteValue::Index(12));
            let e = spec_put(e, key, "vrate"@, SiteValue::Real(v_rate));
            let e = spec_put(e, key, "vdepth"@, SiteValue::Real(v_depth));
            let e = spec_put(e, key, "vmix"@, SiteValue::Real(v_mix));
            let e = spec_put(e, key, "mdepth"@, SiteValue::Real(v_mod_depth));
            lemma_encode_mod_legal(v_modulation, spec_mod_key(key), e);
            let e = spec_encode_mod(v_modulation, spec_mod_key(key), e);
            lemma_encode_node_legal(*v_input, spec_child_key(key, 0), e);
            let e = spec_encode_node(*v_input, spec_child_key(key, 0), e);
        },
        AudioNode::Eq { low: v_low, mid: v_mid, high: v_high, mod_depth: v_mod_depth, input: v_input, modulation: v_modulation } => {
            let e = spec_put(t, key, "leaf"@, SiteValue::Flag(false));
            let e = spec_put(e, key, "op"@, SiteValue::Index(13));
            let e = spec_put(e, key, "low"@, SiteValue::Real(v_low));
            let e = spec_put(e, key, "mid"@, SiteValue::Real(v_mid));
            let e = spec_put(e, key, "high"@, SiteValue::Real(v_high));
            let e = spec_put(e, key, "mdepth"@, SiteValue::Real(v_mod_depth));
            lemma_encode_mod_legal(v_modulation, spec_mod_key(key), e);
            let e = spec_encode_mod(v_modulation, spec_mod_key(key), e);
            lemma_encode_node_legal(*v_input, spec_child_key(key, 0), e);
            let e = spec_encode_node(*v_input, spec_child_key(key, 0), e);
        },
        AudioNode::Granular { position: v_position, size: v_size, density: v_density, mod_depth: v_mod_depth, input: v_input, modulation: v_modulation } => {
            let e = spec_put(t, key, "leaf"@, SiteValue::Flag(false));
            let e = spec_put(e, key, "op"@, SiteValue::Index(14));
            let e = spec_put(e, key, "gpos"@, SiteValue::Real(v_position));
            let e = spec_put(e, key, "gsize"@, SiteValue::Real(v_size));
            let e = spec_put(e, key, "gdens"@, SiteValue::Real(v_density));
            let e = spec_put(e, key, "mdepth"@, SiteValue::Real(v_mod_depth));
            lemma_encode_mod_legal(v_modulation, spec_mod_key(key), e);
            let e = spec_encode_mod(v_modulation, spec_mod_key(key), e);
            lemma_encode_node_legal(*v_input, spec_child_key(key, 0), e);
            let e = spec_encode_node(*v_input, spec_child_key(key, 0), e);
        },
        AudioNode::Shift { semis: v_semis, window: v_window, mix: v_mix, mod_depth: v_mod_depth, input: v_input, modulation: v_modulation } => {
            let e = spec_put(t, key, "leaf"@, SiteValue::Flag(false));
            let e = spec_put(e, key, "op"@, SiteValue::Index(15));
            let e = spec_put(e, key, "semis"@, SiteValue::Real(v_semis));
            let e = spec_put(e, key, "window"@, SiteValue::Real(v_window));
            let e = spec_put(e, key, "smix"@, SiteValue::Real(v_mix));
            let e = spec_put(e, key, "mdepth"@, SiteValue::Real(v_mod_depth));
            lemma_encode_mod_legal(v_modulation, spec_mod_key(key), e);
            let e = spec_encode_mod(v_modulation, spec_mod_key(key), e);
            lemma_encode_node_legal(*v_input, spec_child_key(key, 0), e);
            let e = spec_encode_node(*v_input, spec_child_key(key, 0), e);
        },
        AudioNode::Comp { threshold: v_threshold, ratio: v_ratio, makeup: v_makeup, mod_depth: v_mod_depth, input: v_input, sidechain: v_sidechain, modulation: v_modulation } => {
            let e = spec_put(t, key, "leaf"@, SiteValue::Flag(false));
            let e = spec_put(e, key, "op"@, SiteValue::Index(16));
            let e = spec_put(e, key, "thresh"@, SiteValue::Real(v_threshold));
            let e = spec_put(e, key, "ratio"@, SiteValue::Real(v_ratio));
            let e = spec_put(e, key, "makeup"@, SiteValue::Real(v_makeup));
            let e = spec_put(e, key, "mdepth"@, SiteValue::Real(v_mod_depth));
            lemma_encode_mod_legal(v_modulation, spec_mod_key(key), e);
            let e = spec_encode_mod(v_modulation, spec_mod_key(key), e);
            lemma_encode_node_legal(*v_input, spec_child_key(key, 0), e);
            let e = spec_encode_node(*v_input, spec_child_key(key, 0), e);
            lemma_encode_node_legal(*v_sidechain, spec_child_key(key, 1), e);
            let e = spec_encode_node(*v_sidechain, spec_child_key(key, 1), e);
        },
        AudioNode::Duck { amount: v_amount, threshold: v_threshold, release: v_release, mod_depth: v_mod_depth, input: v_input, key: v_key, modulation: v_modulation } => {
            let e = spec_put(t, key, "leaf"@, SiteValue::Flag(false));
            let e = spec_put(e, key, "op"@, SiteValue::Index(17));
            let e = spec_put(e, key, "amount"@, SiteValue::Real(v_amount));
            let e = spec_put(e, key, "dthresh"@, SiteValue::Real(v_threshold));
            let e = spec_put(e, key, "drel"@, SiteValue::Real(v_release));
            let e = spec_put(e, key, "mdepth"@, SiteValue::Real(v_mod_depth));
            lemma_encode_mod_legal(v_modulation, spec_mod_key(key), e);
            let e = spec_encode_mod(v_modulation, spec_mod_key(key), e);
            lemma_encode_node_legal(*v_input, spec_child_key(key, 0), e);
            let e = spec_encode_node(*v_input, spec_child_key(key, 0), e);
            lemma_encode_node_legal(*v_key, spec_child_key(key, 1), e);
            let e = spec_encode_node(*v_key, spec_child_key(key, 1), e);
        },
        AudioNode::Gate { threshold: v_threshold, range: v_range, release: v_release, mod_depth: v_mod_depth, input: v_input, sidechain: v_sidechain, modulation: v_modulation } => {
            let e = spec_put(t, key, "leaf"@, SiteValue::Flag(false));
            let e = spec_put(e, key, "op"@, SiteValue::Index(18));
            let e = spec_put(e, key, "gthresh"@, SiteValue::Real(v_threshold));
            let e = spec_put(e, key, "range"@, SiteValue::Real(v_range));
            let e = spec_put(e, key, "grel"@, SiteValue::Real(v_release));
            let e = spec_put(e, key, "mdepth"@, SiteValue::Real(v_mod_depth));
            lemma_encode_mod_legal(v_modulation, spec_mod_key(key), e);
            let e = spec_encode_mod(v_modulation, spec_mod_key(key), e);
            lemma_encode_node_legal(*v_input, spec_child_key(key, 0), e);
            let e = spec_encode_node(*v_input, spec_child_key(key, 0), e);
            lemma_encode_node_legal(*v_sidechain, spec_child_key(key, 1), e);
            let e = spec_encode_node(*v_sidechain, spec_child_key(key, 1), e);
        },
        AudioNode::Vocoder { bands: v_bands, attack: v_attack, release: v_release, mod_depth: v_mod_depth, carrier: v_carrier, modulator: v_modulator, modulation: v_modulation } => {
            let e = spec_put(t, key, "leaf"@, SiteValue::Flag(false));
            let e = spec_put(e, key, "op"@, SiteValue::Index(19));
            let e = spec_put(e, key, "bands"@, SiteValue::Real(v_bands));
            let e = spec_put(e, key, "vatt"@, SiteValue::Real(v_attack));
            let e = spec_put(e, key, "vrel"@, SiteValue::Real(v_release));
            let e = spec_put(e, key, "mdepth"@, SiteValue::Real(v_mod_depth));
            lemma_encode_mod_legal(v_modulation, spec_mod_key(key), e);
            let e = spec_encode_mod(v_modulation, spec_mod_key(key), e);
            lemma_encode_node_legal(*v_carrier, spec_child_key(key, 0), e);
            let e = spec_encode_node(*v_carrier, spec_child_key(key, 0), e);
            lemma_encode_node_legal(*v_modulator, spec_child_key(key, 1), e);
            let e = spec_encode_node(*v_modulator, spec_child_key(key, 1), e);
        },
    }
}

/// Repairing a trace leaves every continuous value in its domain.
pub proof fn lemma_repaired_legal(t: Map<Seq<char>, SiteValue>)
    ensures
        reals_legal(repaired(t)),
{
}

/// Repairing a patch and reading it back leaves nothing to repair: every
/// continuous value of the rebuilt patch's trace lies in its domain.
pub proof fn lemma_repair_leaves_nothing(tree: PatchTree)
    requires
        octaves_encodable(tree.root),
    ensures
        spec_from_trace(repaired(spec_to_trace(tree))) matches Decoded::Value(p) ==> violations(
            spec_to_trace(p),
        ) == Set::<Seq<char>>::empty(),
{
    let t2 = repaired(spec_to_trace(tree));
    lemma_repair_rebuilds(tree);
    lemma_repaired_legal(spec_to_trace(tree));
    crate::encoding::lemma_trace_readable(tree);
    assert(t2.dom() =~= spec_to_trace(tree).dom());
    reveal_strlit("node");
    assert("node"@ =~= seq!['n', 'o', 'd', 'e']);
    assert(is_plain("node"@));
    lemma_decode_node_legal(t2, "node"@);
    if let Decoded::Value(p) = spec_from_trace(t2) {
        assert(patch_legal(p));
        let base = spec_encode_amp(p.amp, Map::empty());
        assert(reals_legal(base));
        lemma_encode_node_legal(p.root, "node"@, base);
        assert(violations(spec_to_trace(p)) =~= Set::empty());
    }
}


} // verus!
