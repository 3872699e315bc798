use ricercar_grammar::term::{FilterKind, Waveform};
use ricercar_grammar::{set_param, AmpEnv, AudioNode, EditError, ModNode, ParamValue, PatchTree};

fn p(x: f64) -> u64 {
    x.to_bits()
}

/// The first preset of the library ("First Bass").
fn first_bass() -> PatchTree {
    PatchTree {
        amp: AmpEnv {
            attack: p(0.03),
            decay: p(0.35),
            sustain: p(0.55),
            release: p(0.2),
        },
        root: AudioNode::Filter {
            kind: FilterKind::Ladder,
            cutoff: p(0.45),
            resonance: p(0.55),
            mod_depth: p(0.6),
            modulation: ModNode::Env {
                attack: p(0.02),
                decay: p(0.45),
            },
            input: Box::new(AudioNode::Vco {
                wave: Waveform::Saw,
                octave: -1,
                detune: p(0.5),
                mod_depth: 0,
                modulation: ModNode::Empty,
            }),
        },
    }
}

fn input_of(t: &PatchTree) -> &AudioNode {
    match &t.root {
        AudioNode::Filter { input, .. } => input,
        _ => panic!("not a filter"),
    }
}

/// Structural sites reject knob edits; unknown addresses error cleanly.
#[test]
fn edits_reject_structure_and_unknowns() {
    let tree = first_bass();
    assert!(matches!(
        set_param(&tree, "node#leaf", ParamValue::Index(0)),
        Err(EditError::StructuralAddress(_))
    ));
    assert!(matches!(
        set_param(&tree, "nowhere#cut", ParamValue::Continuous(p(0.5))),
        Err(EditError::UnknownAddress(_))
    ));
}

#[test]
fn every_structural_site_is_refused_with_its_address() {
    let tree = first_bass();
    for a in ["node#op", "node/m#mod", "node/0#src", "node/0/m#mod"] {
        assert_eq!(
            set_param(&tree, a, ParamValue::Index(1)),
            Err(EditError::StructuralAddress(a.to_string()))
        );
    }
}

#[test]
fn a_continuous_edit_moves_exactly_one_knob() {
    let tree = first_bass();
    let edited = set_param(&tree, "node#cut", ParamValue::Continuous(p(0.9))).unwrap();
    let mut expected = first_bass();
    if let AudioNode::Filter { cutoff, .. } = &mut expected.root {
        *cutoff = p(0.9);
    }
    assert_eq!(edited, expected);
    let edited = set_param(&tree, "amp#attack", ParamValue::Continuous(p(0.7))).unwrap();
    assert_eq!(edited.amp.attack, p(0.7));
    assert_eq!(edited.root, tree.root);
}

#[test]
fn continuous_values_are_clamped_to_the_unit_interval() {
    let tree = first_bass();
    let cut = |v: f64| match set_param(&tree, "node#cut", ParamValue::Continuous(p(v))).unwrap().root {
        AudioNode::Filter { cutoff, .. } => cutoff,
        _ => panic!("not a filter"),
    };
    assert_eq!(cut(1.5), p(1.0));
    assert_eq!(cut(f64::INFINITY), p(1.0));
    assert_eq!(cut(-0.2), p(0.0));
    assert_eq!(cut(f64::NEG_INFINITY), p(0.0));
    assert_eq!(cut(-0.0), p(-0.0));
    assert_eq!(cut(0.25), p(0.25));
    assert!(f64::from_bits(cut(f64::NAN)).is_nan());
    for v in [-3.0, -1e-300, 0.0, 1e-300, 0.5, 1.0, 1.0000001, 7.0] {
        assert_eq!(cut(v), p(v.clamp(0.0, 1.0)));
    }
}

#[test]
fn enum_indices_are_clamped_to_the_site_arity() {
    let tree = first_bass();
    let edited = set_param(&tree, "node/0#wave", ParamValue::Index(9)).unwrap();
    assert!(matches!(input_of(&edited), AudioNode::Vco { wave: Waveform::Square, .. }));
    let edited = set_param(&tree, "node/0#oct", ParamValue::Index(9)).unwrap();
    assert!(matches!(input_of(&edited), AudioNode::Vco { octave: 2, .. }));
    let edited = set_param(&tree, "node/0#oct", ParamValue::Index(0)).unwrap();
    assert!(matches!(input_of(&edited), AudioNode::Vco { octave: -2, .. }));
    let edited = set_param(&tree, "node#fkind", ParamValue::Index(1)).unwrap();
    assert!(matches!(edited.root, AudioNode::Filter { kind: FilterKind::SvfBp, .. }));
}

#[test]
fn a_value_of_the_wrong_kind_is_refused() {
    let tree = first_bass();
    assert_eq!(
        set_param(&tree, "node#cut", ParamValue::Index(1)),
        Err(EditError::KindMismatch("node#cut".to_string()))
    );
    assert_eq!(
        set_param(&tree, "node/0#wave", ParamValue::Continuous(p(0.5))),
        Err(EditError::KindMismatch("node/0#wave".to_string()))
    );
}
