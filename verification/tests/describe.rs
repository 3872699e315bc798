use ricercar_grammar::describe::{
    describe, drive_mode_options, filter_options, noise_options, table_options, waveform_options,
    KnobKind, KnobValue, RackDescription, Selector,
};
use ricercar_grammar::term::{DriveMode, FilterKind, ModOp, NoiseColor, PairOp, Waveform};
use ricercar_grammar::{
    set_param, tree_diff, AmpEnv, AudioNode, ModNode, ParamValue, PatchTree, SiteValue,
};

fn p(x: f64) -> u64 {
    x.to_bits()
}

fn amp() -> AmpEnv {
    AmpEnv {
        attack: p(0.03),
        decay: p(0.35),
        sustain: p(0.55),
        release: p(0.2),
    }
}

/// The first preset of the library ("First Bass").
fn first_bass() -> PatchTree {
    PatchTree {
        amp: amp(),
        root: AudioNode::Filter {
            kind: FilterKind::Ladder,
            cutoff: p(0.45),
            resonance: p(0.55),
            mod_depth: p(0.6),
            modulation: ModNode::Env {
                attack: p(0.02),
                decay: p(0.45),
            },
            input: Box::new(AudioNode::Vco {
                wave: Waveform::Saw,
                octave: -1,
                detune: p(0.5),
                mod_depth: 0,
                modulation: ModNode::Empty,
            }),
        },
    }
}

/// A patch that reaches every shape the rack draws: a binary node, a
/// modulated binary node, a source without a slot, a processor chain and a
/// combiner in a modulation slot.
fn busy_patch() -> PatchTree {
    let lfo = ModNode::Lfo {
        wave: Waveform::Triangle,
        rate: p(0.4),
    };
    let chain = ModNode::Op {
        kind: ModOp::Quantize,
        p0: p(0.3),
        p1: p(0.6),
        input: Box::new(ModNode::Pair {
            kind: PairOp::Max,
            a: Box::new(lfo),
            b: Box::new(ModNode::Euclid {
                rate: p(0.5),
                steps: p(0.5),
                pulses: p(0.25),
            }),
        }),
    };
    PatchTree {
        amp: amp(),
        root: AudioNode::Comp {
            threshold: p(0.4),
            ratio: p(0.5),
            makeup: p(0.2),
            mod_depth: p(0.1),
            input: Box::new(AudioNode::Mix {
                balance: p(0.5),
                a: Box::new(AudioNode::Noise {
                    color: NoiseColor::Pink,
                }),
                b: Box::new(AudioNode::Distortion {
                    drive: p(0.7),
                    tone: p(0.4),
                    mode: DriveMode::Tube,
                    mod_depth: p(0.3),
                    input: Box::new(AudioNode::Supersaw {
                        octave: 2,
                        detune: p(0.3),
                        mix: p(0.5),
                        mod_depth: p(0.5),
                        modulation: chain,
                    }),
                    modulation: ModNode::Op {
                        kind: ModOp::Rectify,
                        p0: p(0.9),
                        p1: 0,
                        input: Box::new(ModNode::Rand {
                            rate: p(0.6),
                            glide: p(0.1),
                        }),
                    },
                }),
            }),
            sidechain: Box::new(AudioNode::Wavetable {
                table: ricercar_grammar::term::TableShape::FormantA,
                octave: 0,
                morph: p(0.2),
                mod_depth: 0,
                modulation: ModNode::Empty,
            }),
            modulation: ModNode::Follow {
                sens: p(0.5),
                release: p(0.5),
            },
        },
    }
}

fn rack(t: &PatchTree) -> RackDescription {
    describe(t, |_, _| 1)
}

fn fmt(b: u64) -> String {
    format!("{:.2}", f64::from_bits(b))
}

/// Every knob address in the rack description is a real trace site, every
/// continuous/enum knob is editable through it, and the edit is exactly a
/// one-site trace change (the panel cannot drift from the genome).
#[test]
fn rack_description_addresses_are_live() {
    for tree in [first_bass(), busy_patch()] {
        let rack = rack(&tree);
        let trace = tree.to_trace();
        for m in &rack.modules {
            for a in &m.structural_addrs {
                assert!(trace.get(a).is_some(), "structural addr {a} not in trace");
            }
            for knob in &m.knobs {
                let found = trace
                    .get(&knob.addr)
                    .unwrap_or_else(|| panic!("knob addr {} not in trace", knob.addr));
                let edited = match knob.kind {
                    KnobKind::Continuous => {
                        assert!(matches!(found, SiteValue::Real(_)));
                        set_param(&tree, &knob.addr, ParamValue::Continuous(p(0.5))).unwrap()
                    }
                    KnobKind::Enum { .. } | KnobKind::Octave => {
                        assert!(matches!(found, SiteValue::Index(_)));
                        set_param(&tree, &knob.addr, ParamValue::Index(0)).unwrap()
                    }
                };
                // The edit changes at most that one site.
                let d = tree_diff(&tree, &edited, fmt);
                assert!(d.len() <= 1, "edit at {} touched {:?}", knob.addr, d);
            }
        }
        // Wires reference existing modules only.
        for w in &rack.wires {
            assert!(rack.modules.iter().any(|m| m.key == w.from) || w.from == "node");
            assert!(rack.modules.iter().any(|m| m.key == w.to));
        }
    }
}

/// An edit through a knob's address records the edited value at that
/// address, and the edited patch's trace agrees with the original trace at
/// every other address.
#[test]
fn a_knob_edit_changes_the_trace_at_its_address_only() {
    for tree in [first_bass(), busy_patch()] {
        let before = tree.to_trace();
        for m in &rack(&tree).modules {
            for knob in &m.knobs {
                let (value, expected) = match knob.kind {
                    KnobKind::Continuous => {
                        (ParamValue::Continuous(p(0.25)), SiteValue::Real(p(0.25)))
                    }
                    KnobKind::Enum { .. } | KnobKind::Octave => {
                        (ParamValue::Index(1), SiteValue::Index(1))
                    }
                };
                let after = set_param(&tree, &knob.addr, value).unwrap().to_trace();
                assert_eq!(after.len(), before.len());
                assert_eq!(after.get(&knob.addr), Some(expected));
                for (a, v) in before.entries() {
                    if a != knob.addr {
                        assert_eq!(after.get(&a), Some(v), "edit at {} moved {}", knob.addr, a);
                    }
                }
            }
        }
    }
}

#[test]
fn first_bass_is_an_amp_a_ladder_an_envelope_and_a_vco() {
    let rack = rack(&first_bass());
    let keys: Vec<&str> = rack.modules.iter().map(|m| m.key.as_str()).collect();
    assert_eq!(keys, vec!["amp", "node", "node/m", "node/0"]);
    let kinds: Vec<&str> = rack.modules.iter().map(|m| m.kind.as_str()).collect();
    assert_eq!(kinds, vec!["amp", "filter", "modenv", "vco"]);
    let titles: Vec<&str> = rack.modules.iter().map(|m| m.title.as_str()).collect();
    assert_eq!(titles, vec!["env / out", "ladder", "mod env", "vco"]);
    let columns: Vec<usize> = rack.modules.iter().map(|m| m.column).collect();
    assert_eq!(columns, vec![0, 1, 2, 2]);
    let is_mod: Vec<bool> = rack.modules.iter().map(|m| m.is_mod).collect();
    assert_eq!(is_mod, vec![false, false, true, false]);

    let amp = &rack.modules[0];
    let amp_addrs: Vec<&str> = amp.knobs.iter().map(|k| k.addr.as_str()).collect();
    assert_eq!(amp_addrs, vec!["amp#attack", "amp#decay", "amp#sustain", "amp#release"]);
    assert_eq!(amp.knobs[0].value, KnobValue::Level(p(0.03)));
    assert!(amp.structural_addrs.is_empty());

    let filter = &rack.modules[1];
    let labels: Vec<&str> = filter.knobs.iter().map(|k| k.label.as_str()).collect();
    assert_eq!(labels, vec!["mode", "cutoff", "resonance", "mod depth"]);
    assert_eq!(filter.knobs[0].addr, "node#fkind");
    assert_eq!(filter.knobs[0].value, KnobValue::Step(3));
    assert_eq!(
        filter.knobs[0].kind,
        KnobKind::Enum {
            options: filter_options()
        }
    );
    assert_eq!(filter.structural_addrs, vec!["node#leaf", "node#op"]);

    let env = &rack.modules[2];
    assert_eq!(env.structural_addrs, vec!["node/m#mod"]);
    assert_eq!(env.knobs[0].addr, "node/m#att");
    assert_eq!(env.knobs[1].label, "decay");

    // The vco's empty slot belongs to the vco.
    let vco = &rack.modules[3];
    assert_eq!(
        vco.structural_addrs,
        vec!["node/0#leaf", "node/0#src", "node/0/m#mod"]
    );
    assert_eq!(vco.knobs[1].addr, "node/0#oct");
    assert_eq!(vco.knobs[1].kind, KnobKind::Octave);
    assert_eq!(vco.knobs[1].value, KnobValue::Step(1));
    assert_eq!(vco.knobs[0].value, KnobValue::Step(2));

    let wires: Vec<(&str, &str, &str)> = rack
        .wires
        .iter()
        .map(|w| (w.from.as_str(), w.to.as_str(), w.kind.as_str()))
        .collect();
    assert_eq!(
        wires,
        vec![
            ("node", "amp", "audio"),
            ("node/0", "node", "audio"),
            ("node/m", "node", "mod"),
        ]
    );
}

#[test]
fn a_modulation_chain_is_drawn_stage_by_stage() {
    let rack = rack(&busy_patch());
    let keys: Vec<&str> = rack.modules.iter().map(|m| m.key.as_str()).collect();
    assert_eq!(
        keys,
        vec![
            "amp",
            "node",
            "node/m",
            "node/0",
            "node/0/0",
            "node/0/1",
            "node/0/1/m",
            "node/0/1/m/0",
            "node/0/1/0",
            "node/0/1/0/m",
            "node/0/1/0/m/0",
            "node/0/1/0/m/0/0",
            "node/0/1/0/m/0/1",
            "node/1",
        ]
    );
    let q = &rack.modules[9];
    assert_eq!(q.kind, "quantize");
    assert_eq!(q.column, 5);
    assert!(q.is_mod);
    assert_eq!(
        q.structural_addrs,
        vec!["node/0/1/0/m#mod", "node/0/1/0/m#modop"]
    );
    let pair = &rack.modules[10];
    assert_eq!(pair.kind, "max");
    assert!(pair.knobs.is_empty());
    assert_eq!(
        pair.structural_addrs,
        vec!["node/0/1/0/m/0#mod", "node/0/1/0/m/0#pairop"]
    );
    // The noise source has no slot; the wavetable's empty slot is its own.
    let noise = &rack.modules[4];
    assert_eq!(noise.structural_addrs, vec!["node/0/0#leaf", "node/0/0#src"]);
    assert_eq!(noise.knobs[0].value, KnobValue::Step(1));
    let table = &rack.modules[13];
    assert_eq!(
        table.structural_addrs,
        vec!["node/1#leaf", "node/1#src", "node/1/m#mod"]
    );
    // The binary dynamics module wires both inputs before its slot's chain.
    let into_comp: Vec<(&str, &str)> = rack
        .wires
        .iter()
        .filter(|w| w.to == "node")
        .map(|w| (w.from.as_str(), w.kind.as_str()))
        .collect();
    assert_eq!(
        into_comp,
        vec![("node/0", "audio"), ("node/1", "audio"), ("node/m", "mod")]
    );
    let into_pair: Vec<&str> = rack
        .wires
        .iter()
        .filter(|w| w.to == "node/0/1/0/m/0")
        .map(|w| w.from.as_str())
        .collect();
    // The combiner draws a cable from each subterm, and each subterm draws
    // its own cable into the module it feeds.
    assert_eq!(
        into_pair,
        vec![
            "node/0/1/0/m/0/0",
            "node/0/1/0/m/0/1",
            "node/0/1/0/m/0/0",
            "node/0/1/0/m/0/1",
        ]
    );
}

#[test]
fn selector_labels_name_the_cell_the_value_falls_in() {
    let tree = busy_patch();
    let rack = describe(&tree, |s, _| match s {
        Selector::QuantRoot => 4,
        Selector::QuantScale => 1,
        Selector::RectMode => 2,
    });
    let q = rack.modules.iter().find(|m| m.kind == "quantize").unwrap();
    assert_eq!(q.knobs[0].label, "root · E");
    assert_eq!(q.knobs[0].addr, "node/0/1/0/m#qroot");
    assert_eq!(q.knobs[0].value, KnobValue::Level(p(0.3)));
    assert_eq!(q.knobs[1].label, "scale · major");
    let r = rack.modules.iter().find(|m| m.kind == "rectify").unwrap();
    assert_eq!(r.knobs.len(), 1);
    assert_eq!(r.knobs[0].label, "mode · negative");
    assert_eq!(r.knobs[0].addr, "node/0/1/m#rmode");
}

#[test]
fn a_cell_past_the_end_names_the_last_one() {
    let rack = describe(&busy_patch(), |_, _| 99);
    let q = rack.modules.iter().find(|m| m.kind == "quantize").unwrap();
    assert_eq!(q.knobs[0].label, "root · B");
    assert_eq!(q.knobs[1].label, "scale · blues");
    let r = rack.modules.iter().find(|m| m.kind == "rectify").unwrap();
    assert_eq!(r.knobs[0].label, "mode · negative");
}

#[test]
fn option_lists_follow_the_categorical_order() {
    assert_eq!(waveform_options(), vec!["sin", "tri", "saw", "sqr"]);
    assert_eq!(noise_options(), vec!["white", "pink"]);
    assert_eq!(filter_options(), vec!["svf lp", "svf bp", "svf hp", "ladder"]);
    assert_eq!(table_options().len(), 8);
    assert_eq!(drive_mode_options().len(), 3);
}
