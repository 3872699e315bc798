use ricercar_grammar::mutate::P030;
use ricercar_grammar::term::{FilterKind, ModOp, PairOp, Waveform};
use ricercar_grammar::{AmpEnv, AudioNode, ModNode, PatchTree, SiteTrace, SiteValue, TraceError};

fn p(x: f64) -> u64 {
    x.to_bits()
}

fn vco(wave: Waveform, octave: i8, detune: f64) -> AudioNode {
    AudioNode::Vco {
        wave,
        octave,
        detune: p(detune),
        mod_depth: p(0.25),
        modulation: ModNode::Empty,
    }
}

fn amp() -> AmpEnv {
    AmpEnv {
        attack: p(0.03),
        decay: p(0.35),
        sustain: p(0.55),
        release: p(0.2),
    }
}

/// The first preset of the library ("First Bass").
fn first_bass() -> PatchTree {
    PatchTree {
        amp: amp(),
        root: AudioNode::Filter {
            kind: FilterKind::Ladder,
            cutoff: p(0.45),
            resonance: p(0.55),
            mod_depth: p(0.6),
            modulation: ModNode::Env {
                attack: p(0.02),
                decay: p(0.45),
            },
            input: Box::new(vco(Waveform::Saw, -1, 0.5)),
        },
    }
}

/// A patch with a binary node, a two-input mixer and a modulation chain.
fn busy_patch() -> PatchTree {
    PatchTree {
        amp: amp(),
        root: AudioNode::Comp {
            threshold: p(0.4),
            ratio: p(0.6),
            makeup: p(0.1),
            mod_depth: p(0.3),
            input: Box::new(AudioNode::Mix {
                balance: p(0.5),
                a: Box::new(vco(Waveform::Square, 2, 0.1)),
                b: Box::new(AudioNode::Supersaw {
                    octave: -2,
                    detune: p(0.3),
                    mix: p(0.7),
                    mod_depth: p(0.2),
                    modulation: ModNode::Lfo {
                        wave: Waveform::Triangle,
                        rate: p(0.33),
                    },
                }),
            }),
            sidechain: Box::new(vco(Waveform::Sine, 0, 0.0)),
            modulation: ModNode::Pair {
                kind: PairOp::Max,
                a: Box::new(ModNode::Op {
                    kind: ModOp::Slew,
                    p0: p(0.2),
                    p1: p(0.8),
                    input: Box::new(ModNode::Rand {
                        rate: p(0.5),
                        glide: p(0.1),
                    }),
                }),
                b: Box::new(ModNode::Op {
                    kind: ModOp::Hold,
                    p0: p(0.6),
                    p1: 0,
                    input: Box::new(ModNode::Euclid {
                        rate: p(0.4),
                        steps: p(0.5),
                        pulses: p(0.25),
                    }),
                }),
            },
        },
    }
}

fn trace_of(entries: &[(&str, SiteValue)]) -> SiteTrace {
    let mut t = SiteTrace::new();
    for (a, v) in entries {
        t.insert(a.to_string(), *v);
    }
    t
}

fn amp_sites() -> Vec<(&'static str, SiteValue)> {
    vec![
        ("amp#attack", SiteValue::Real(p(0.03))),
        ("amp#decay", SiteValue::Real(p(0.35))),
        ("amp#sustain", SiteValue::Real(p(0.55))),
        ("amp#release", SiteValue::Real(p(0.2))),
    ]
}

#[test]
fn to_trace_records_the_address_scheme() {
    let t = first_bass().to_trace();
    assert_eq!(t.get("amp#attack"), Some(SiteValue::Real(p(0.03))));
    assert_eq!(t.get("amp#release"), Some(SiteValue::Real(p(0.2))));
    assert_eq!(t.get("node#leaf"), Some(SiteValue::Flag(false)));
    assert_eq!(t.get("node#op"), Some(SiteValue::Index(1)));
    assert_eq!(t.get("node#fkind"), Some(SiteValue::Index(3)));
    assert_eq!(t.get("node#cut"), Some(SiteValue::Real(p(0.45))));
    assert_eq!(t.get("node#mdepth"), Some(SiteValue::Real(p(0.6))));
    assert_eq!(t.get("node/m#mod"), Some(SiteValue::Index(2)));
    assert_eq!(t.get("node/m#att"), Some(SiteValue::Real(p(0.02))));
    assert_eq!(t.get("node/m#dec"), Some(SiteValue::Real(p(0.45))));
    assert_eq!(t.get("node/0#leaf"), Some(SiteValue::Flag(true)));
    assert_eq!(t.get("node/0#src"), Some(SiteValue::Index(0)));
    assert_eq!(t.get("node/0#wave"), Some(SiteValue::Index(2)));
    assert_eq!(t.get("node/0#oct"), Some(SiteValue::Index(1)));
    assert_eq!(t.get("node/0#det"), Some(SiteValue::Real(p(0.5))));
    assert_eq!(t.get("node/0/m#mod"), Some(SiteValue::Index(0)));
    assert_eq!(t.get("node/1#leaf"), None);
    assert_eq!(t.len(), first_bass().site_count());
}

#[test]
fn trace_roundtrip_of_fixed_patches() {
    for tree in [first_bass(), busy_patch()] {
        let back = PatchTree::from_trace(&tree.to_trace());
        assert_eq!(back, Ok(tree));
    }
}

#[test]
fn a_chain_records_its_subterms_below_the_slot() {
    let t = busy_patch().to_trace();
    assert_eq!(t.get("node/m#mod"), Some(SiteValue::Index(7)));
    assert_eq!(t.get("node/m#pairop"), Some(SiteValue::Index(1)));
    assert_eq!(t.get("node/m/0#modop"), Some(SiteValue::Index(1)));
    assert_eq!(t.get("node/m/0#rise"), Some(SiteValue::Real(p(0.2))));
    assert_eq!(t.get("node/m/0#fall"), Some(SiteValue::Real(p(0.8))));
    assert_eq!(t.get("node/m/0/0#glide"), Some(SiteValue::Real(p(0.1))));
    assert_eq!(t.get("node/m/1#hrate"), Some(SiteValue::Real(p(0.6))));
    assert_eq!(t.get("node/m/1/0#epulses"), Some(SiteValue::Real(p(0.25))));
    assert_eq!(t.get("node/1#src"), Some(SiteValue::Index(0)));
    assert_eq!(t.get("node/0/1#oct"), Some(SiteValue::Index(0)));
    assert_eq!(t.len(), busy_patch().site_count());
}

#[test]
fn a_one_knob_processor_records_no_second_knob() {
    let tree = PatchTree {
        amp: amp(),
        root: AudioNode::Fold {
            threshold: p(0.5),
            mod_depth: p(0.5),
            input: Box::new(vco(Waveform::Sine, 0, 0.2)),
            modulation: ModNode::Op {
                kind: ModOp::Rectify,
                p0: p(0.4),
                p1: p(0.7),
                input: Box::new(ModNode::Empty),
            },
        },
    };
    let t = tree.to_trace();
    assert_eq!(t.get("node/m#rmode"), Some(SiteValue::Real(p(0.4))));
    let back = PatchTree::from_trace(&t).unwrap();
    match back.root {
        AudioNode::Fold { modulation: ModNode::Op { p1, .. }, .. } => assert_eq!(p1, 0),
        _ => panic!("the fold did not come back"),
    }
}

#[test]
fn out_of_range_octaves_round_trip_through_the_index() {
    let tree = PatchTree { amp: amp(), root: vco(Waveform::Sine, -3, 0.0) };
    let t = tree.to_trace();
    assert_eq!(t.get("node#oct"), Some(SiteValue::Index(usize::MAX)));
    assert_eq!(PatchTree::from_trace(&t), Ok(tree));
}

#[test]
fn a_missing_site_is_refused_with_its_address() {
    let t = trace_of(&amp_sites());
    assert_eq!(
        PatchTree::from_trace(&t),
        Err(TraceError::MissingAddress("node#leaf".to_string()))
    );
    let t = trace_of(&[("amp#attack", SiteValue::Real(0))]);
    assert_eq!(
        PatchTree::from_trace(&t),
        Err(TraceError::MissingAddress("amp#decay".to_string()))
    );
}

#[test]
fn a_site_of_the_wrong_kind_reads_as_missing() {
    let mut sites = amp_sites();
    sites.push(("node#leaf", SiteValue::Index(1)));
    assert_eq!(
        PatchTree::from_trace(&trace_of(&sites)),
        Err(TraceError::MissingAddress("node#leaf".to_string()))
    );
}

#[test]
fn an_unknown_production_is_refused() {
    let mut sites = amp_sites();
    sites.push(("node#leaf", SiteValue::Flag(false)));
    sites.push(("node#op", SiteValue::Index(42)));
    assert_eq!(
        PatchTree::from_trace(&trace_of(&sites)),
        Err(TraceError::InvalidStructure("op kind 42 out of range at node".to_string()))
    );
    let mut sites = amp_sites();
    sites.push(("node#leaf", SiteValue::Flag(true)));
    sites.push(("node#src", SiteValue::Index(6)));
    assert_eq!(
        PatchTree::from_trace(&trace_of(&sites)),
        Err(TraceError::InvalidStructure("source kind 6 out of range at node".to_string()))
    );
    let mut sites = amp_sites();
    sites.push(("node#leaf", SiteValue::Flag(false)));
    sites.push(("node#op", SiteValue::Index(2)));
    sites.push(("node#thresh", SiteValue::Real(p(0.5))));
    sites.push(("node#mdepth", SiteValue::Real(p(0.5))));
    sites.push(("node/m#mod", SiteValue::Index(9)));
    assert_eq!(
        PatchTree::from_trace(&trace_of(&sites)),
        Err(TraceError::InvalidStructure("mod kind 9 out of range at node/m".to_string()))
    );
}

#[test]
fn an_old_trace_reads_the_new_sites_as_their_defaults() {
    let mut sites = amp_sites();
    sites.push(("node#leaf", SiteValue::Flag(true)));
    sites.push(("node#src", SiteValue::Index(0)));
    sites.push(("node#wave", SiteValue::Index(1)));
    sites.push(("node#oct", SiteValue::Index(3)));
    sites.push(("node#det", SiteValue::Real(p(0.1))));
    let tree = PatchTree::from_trace(&trace_of(&sites)).unwrap();
    assert_eq!(
        tree.root,
        AudioNode::Vco {
            wave: Waveform::Triangle,
            octave: 1,
            detune: p(0.1),
            mod_depth: P030,
            modulation: ModNode::Empty,
        }
    );
    assert_eq!(P030, p(0.3));
}

#[test]
fn an_overflowing_octave_is_flagged() {
    let mut sites = amp_sites();
    sites.push(("node#leaf", SiteValue::Flag(true)));
    sites.push(("node#src", SiteValue::Index(0)));
    sites.push(("node#wave", SiteValue::Index(1)));
    sites.push(("node#oct", SiteValue::Index(128)));
    assert_eq!(PatchTree::try_from_trace(&trace_of(&sites)), None);
}

#[test]
fn inserting_at_a_recorded_address_overwrites_it() {
    let mut t = SiteTrace::new();
    t.insert("node#leaf".to_string(), SiteValue::Flag(true));
    t.insert("node#leaf".to_string(), SiteValue::Flag(false));
    t.insert("node#op".to_string(), SiteValue::Index(3));
    assert_eq!(t.get("node#leaf"), Some(SiteValue::Flag(false)));
    assert_eq!(t.get("node#op"), Some(SiteValue::Index(3)));
    assert_eq!(t.get("node#src"), None);
    assert_eq!(t.len(), 2);
}

/// A trace written before the mod-depth knobs, the pitch slots and the S&H
/// glide existed still decodes, with every new site at its default.
#[test]
fn a_v1_trace_still_decodes() {
    let mut t = SiteTrace::new();
    for (site, v) in [("attack", 0.1), ("decay", 0.3), ("sustain", 0.6), ("release", 0.2)] {
        t.insert(format!("amp#{site}"), SiteValue::Real(p(v)));
    }
    // node = Delay { time, fb, dmix } — no #mdepth, no /m slot at all.
    t.insert("node#leaf".to_string(), SiteValue::Flag(false));
    t.insert("node#op".to_string(), SiteValue::Index(3));
    t.insert("node#time".to_string(), SiteValue::Real(p(0.6)));
    t.insert("node#fb".to_string(), SiteValue::Real(p(0.4)));
    t.insert("node#dmix".to_string(), SiteValue::Real(p(0.35)));
    // node/0 = Filter modulated by a v1 Rand — rate but no glide.
    t.insert("node/0#leaf".to_string(), SiteValue::Flag(false));
    t.insert("node/0#op".to_string(), SiteValue::Index(1));
    t.insert("node/0#fkind".to_string(), SiteValue::Index(3));
    t.insert("node/0#cut".to_string(), SiteValue::Real(p(0.5)));
    t.insert("node/0#res".to_string(), SiteValue::Real(p(0.4)));
    t.insert("node/0#mdepth".to_string(), SiteValue::Real(p(0.5)));
    t.insert("node/0/m#mod".to_string(), SiteValue::Index(3));
    t.insert("node/0/m#rate".to_string(), SiteValue::Real(p(0.62)));
    // node/0/0 = Vco.
    t.insert("node/0/0#leaf".to_string(), SiteValue::Flag(true));
    t.insert("node/0/0#src".to_string(), SiteValue::Index(0));
    t.insert("node/0/0#wave".to_string(), SiteValue::Index(2));
    t.insert("node/0/0#oct".to_string(), SiteValue::Index(1));
    t.insert("node/0/0#det".to_string(), SiteValue::Real(p(0.5)));

    let tree = PatchTree::from_trace(&t).expect("a v1 trace must still load");
    let AudioNode::Delay { mod_depth, modulation, input, .. } = &tree.root else {
        panic!("decoded the wrong node: {:?}", tree.root);
    };
    assert_eq!(*mod_depth, p(0.3), "new mod depth did not default");
    assert_eq!(*modulation, ModNode::Empty, "absent slot must decode empty");
    let AudioNode::Filter { kind, modulation, .. } = &**input else {
        panic!("decoded the wrong child: {:?}", input);
    };
    assert_eq!(*kind, FilterKind::Ladder);
    assert_eq!(
        *modulation,
        ModNode::Rand { rate: p(0.62), glide: p(0.0) },
        "a v1 S&H must come back as hard steps"
    );
    let AudioNode::Filter { input, .. } = &**input else {
        unreachable!("checked above")
    };
    assert_eq!(
        **input,
        AudioNode::Vco {
            wave: Waveform::Saw,
            octave: -1,
            detune: p(0.5),
            mod_depth: P030,
            modulation: ModNode::Empty,
        },
        "a v1 vco must decode with its pitch slot empty"
    );
    let back = PatchTree::from_trace(&tree.to_trace()).expect("re-encoded trace decodes");
    assert_eq!(back, tree);
}
