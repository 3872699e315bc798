//! The preset library: its copy, its coverage of the grammar, and the
//! modulation-rate floor it is held to.

use std::collections::HashSet;

use ricercar_grammar::presets::{categories, preset_bank, presets};
use ricercar_grammar::{AudioNode, ModNode};

/// `0.01·3000^x` Hz, the LFO/S&H rate map.
fn mod_hz(cv: f64) -> f64 {
    0.01 * 3000f64.powf(cv)
}

/// `0.1·50^x` Hz — the chorus runs its own, much narrower map.
fn chorus_hz(cv: f64) -> f64 {
    0.1 * 50f64.powf(cv)
}

fn hz_of(kind: &str, cv: f64) -> f64 {
    if kind == "chorus" {
        chorus_hz(cv)
    } else {
        mod_hz(cv)
    }
}

fn from_bits(b: u64) -> f64 {
    f64::from_bits(b)
}

/// Walk every modulation source in the library.
fn mod_sources() -> Vec<(&'static str, &'static str, f64)> {
    fn walk(n: &AudioNode, name: &'static str, out: &mut Vec<(&'static str, &'static str, f64)>) {
        let mut note = |m: &ModNode| match m {
            ModNode::Lfo { rate, .. } => out.push((name, "lfo", from_bits(*rate))),
            ModNode::Rand { rate, .. } => out.push((name, "s&h", from_bits(*rate))),
            _ => {}
        };
        match n {
            AudioNode::Filter {
                modulation, input, ..
            }
            | AudioNode::Fold {
                modulation, input, ..
            } => {
                note(modulation);
                walk(input, name, out);
            }
            AudioNode::Chorus { rate, input, .. } => {
                out.push((name, "chorus", from_bits(*rate)));
                walk(input, name, out);
            }
            AudioNode::Delay { input, .. } | AudioNode::Reverb { input, .. } => {
                walk(input, name, out)
            }
            AudioNode::Mix { a, b, .. } => {
                walk(a, name, out);
                walk(b, name, out);
            }
            AudioNode::Vco { .. } | AudioNode::Supersaw { .. } | AudioNode::Noise { .. } => {}
            other => panic!("{name}: the library grew a {other:?}"),
        }
    }
    let mut out = Vec::new();
    for p in preset_bank() {
        walk(&p.tree.root, p.name, &mut out);
    }
    out
}

/// No LFO, S&H or chorus in the library is too slow to hear within the
/// audition phrase's longest note.
#[test]
fn every_modulation_source_is_audible_within_one_note() {
    const FLOOR_HZ: f64 = 0.2;
    let slow: Vec<String> = mod_sources()
        .into_iter()
        .filter(|(_, kind, cv)| hz_of(kind, *cv) < FLOOR_HZ)
        .map(|(name, kind, cv)| {
            let f = hz_of(kind, cv);
            format!(
                "{name} {kind} rate {cv} = {f:.3} Hz ({:.1} s per cycle)",
                1.0 / f
            )
        })
        .collect();
    assert!(
        slow.is_empty(),
        "modulation too slow to hear in a 1.8 s note (floor {FLOOR_HZ} Hz):\n  {}",
        slow.join("\n  ")
    );
}

/// Each of the four early too-slow rates must fall below the audible-rate floor.
#[test]
fn the_floor_catches_every_original_offender() {
    for cv in [0.15, 0.20, 0.35, 0.35] {
        let f = mod_hz(cv);
        assert!(
            f < 0.2,
            "rate {cv} = {f:.4} Hz would now pass the floor it exists to catch"
        );
    }
}

/// What the library exercises.
#[derive(Default)]
struct Coverage {
    waves: HashSet<String>,
    lfo_waves: HashSet<String>,
    kinds: HashSet<String>,
    colors: HashSet<String>,
    octaves: HashSet<i8>,
    mods: HashSet<&'static str>,
    nodes: HashSet<&'static str>,
}

impl Coverage {
    fn note_mod(&mut self, m: &ModNode) {
        match m {
            ModNode::Empty => {
                self.mods.insert("none");
            }
            ModNode::Lfo { wave, .. } => {
                self.mods.insert("lfo");
                self.lfo_waves.insert(format!("{wave:?}"));
            }
            ModNode::Env { .. } => {
                self.mods.insert("env");
            }
            ModNode::Rand { .. } => {
                self.mods.insert("rand");
            }
            other => panic!("the library grew a {other:?}"),
        };
    }

    fn walk(&mut self, n: &AudioNode) {
        match n {
            AudioNode::Vco { wave, octave, .. } => {
                self.nodes.insert("vco");
                self.waves.insert(format!("{wave:?}"));
                self.octaves.insert(*octave);
            }
            AudioNode::Supersaw { octave, .. } => {
                self.nodes.insert("supersaw");
                self.octaves.insert(*octave);
            }
            AudioNode::Noise { color } => {
                self.nodes.insert("noise");
                self.colors.insert(format!("{color:?}"));
            }
            AudioNode::Mix { a, b, .. } => {
                self.nodes.insert("mix");
                self.walk(a);
                self.walk(b);
            }
            AudioNode::Filter {
                kind,
                modulation,
                input,
                ..
            } => {
                self.nodes.insert("filter");
                self.kinds.insert(format!("{kind:?}"));
                self.note_mod(modulation);
                self.walk(input);
            }
            AudioNode::Fold {
                modulation, input, ..
            } => {
                self.nodes.insert("fold");
                self.note_mod(modulation);
                self.walk(input);
            }
            AudioNode::Delay { input, .. } => {
                self.nodes.insert("delay");
                self.walk(input);
            }
            AudioNode::Chorus { input, .. } => {
                self.nodes.insert("chorus");
                self.walk(input);
            }
            AudioNode::Reverb { input, .. } => {
                self.nodes.insert("reverb");
                self.walk(input);
            }
            other => panic!("the library grew a {other:?}"),
        }
    }
}

/// The preset library doubles as the instrument's documentation and as the
/// taste model's first evidence, so it has to actually exercise the grammar.
#[test]
fn the_library_covers_the_grammar() {
    let mut cov = Coverage::default();
    for p in preset_bank() {
        cov.walk(&p.tree.root);
    }
    let Coverage {
        waves,
        lfo_waves,
        kinds,
        colors,
        octaves,
        mods,
        nodes,
    } = cov;

    assert_eq!(waves.len(), 4, "not every oscillator waveform is used");
    assert!(
        lfo_waves.len() >= 3,
        "the LFO is only ever run as {lfo_waves:?} — its waveform is a real timbral choice"
    );
    assert_eq!(kinds.len(), 4, "not every filter kind is used: {kinds:?}");
    assert_eq!(colors.len(), 2, "one of the noise colours is never heard");
    assert_eq!(mods.len(), 4, "not every modulation source is used: {mods:?}");
    assert_eq!(nodes.len(), 9, "not every audio node is used: {nodes:?}");
    for oct in [-2, -1, 0, 1, 2] {
        assert!(octaves.contains(&oct), "octave {oct} is never used");
    }
}

/// Categories are what the browser groups by and what the warm start
/// samples across.
#[test]
fn every_preset_declares_a_known_category_and_copy() {
    let cats = categories();
    for p in preset_bank() {
        assert!(
            cats.contains(&p.category),
            "{}: unknown category {:?}",
            p.name,
            p.category
        );
        assert!(!p.blurb.is_empty(), "{}: no blurb", p.name);
    }
    for c in cats {
        let n = preset_bank().iter().filter(|p| p.category == c).count();
        assert!(n >= 3, "category {c} has only {n} presets — too thin to sample");
    }
}

/// Names are the handle the user carries back to the bank.
#[test]
fn preset_names_are_unique() {
    let bank = preset_bank();
    let unique: HashSet<&str> = bank.iter().map(|p| p.name).collect();
    assert_eq!(unique.len(), bank.len(), "duplicate preset name");
}

#[test]
fn the_pairs_follow_the_bank() {
    let bank = preset_bank();
    let pairs = presets();
    assert_eq!(pairs.len(), bank.len());
    assert_eq!(pairs[0].0, "First Bass");
    for (p, (name, tree)) in bank.iter().zip(pairs.iter()) {
        assert_eq!(p.name, *name);
        assert_eq!(p.tree, *tree);
    }
}

#[test]
fn first_bass_is_a_ladder_over_a_low_saw() {
    let bank = preset_bank();
    let first = &bank[0];
    assert_eq!(first.category, "bass");
    assert_eq!(from_bits(first.tree.amp.attack), 0.03);
    match &first.tree.root {
        AudioNode::Filter { cutoff, input, .. } => {
            assert_eq!(from_bits(*cutoff), 0.45);
            assert!(matches!(**input, AudioNode::Vco { octave: -1, .. }));
        }
        other => panic!("{other:?}"),
    }
}
