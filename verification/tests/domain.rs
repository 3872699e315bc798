use ricercar_grammar::domain::in_domain;
use ricercar_grammar::term::{FilterKind, ModOp, Waveform};
use ricercar_grammar::term::NoiseColor;
use ricercar_grammar::{
    apply_struct_op, validate_tree, AmpEnv, AudioNode, ModNode, PatchTree, StructOp,
};

fn p(x: f64) -> u64 {
    x.to_bits()
}

fn filter_over_vco(cutoff: f64) -> PatchTree {
    PatchTree {
        amp: AmpEnv {
            attack: p(0.1),
            decay: p(0.3),
            sustain: p(0.6),
            release: p(0.2),
        },
        root: AudioNode::Filter {
            kind: FilterKind::SvfBp,
            cutoff: p(cutoff),
            resonance: p(0.4),
            mod_depth: p(0.5),
            input: Box::new(AudioNode::Vco {
                wave: Waveform::Saw,
                octave: 0,
                detune: p(0.5),
                mod_depth: p(0.3),
                modulation: ModNode::Empty,
            }),
            modulation: ModNode::Empty,
        },
    }
}

#[test]
fn the_domain_is_the_closed_unit_interval() {
    for v in [0.0, -0.0, 1e-300, 0.5, 1.0] {
        assert!(in_domain(p(v)), "{v} must be in the domain");
    }
    for v in [-1e-300, -1.0, 1.0000001, 2.0, 1e30, f64::INFINITY, f64::NEG_INFINITY, f64::NAN] {
        assert!(!in_domain(p(v)), "{v} must be out of the domain");
    }
}

/// The sentinel, as it was found: sites of one patch at `1e30`. Repair
/// moves exactly those and nothing else.
#[test]
fn clamp_repairs_the_sentinel() {
    let mut t = filter_over_vco(1e30);
    t.amp.sustain = p(1e30);
    assert_eq!(
        t.domain_violations(),
        vec![("amp#sustain".to_string(), p(1e30)), ("node#cut".to_string(), p(1e30))]
    );
    assert_eq!(t.clamp_domains(), 2);
    assert!(t.domain_violations().is_empty());
    assert_eq!(t.amp.sustain, p(1.0));
    assert_eq!(t.amp.attack, p(0.1), "a clean site must not move");
    let AudioNode::Filter { cutoff, resonance, .. } = &t.root else {
        panic!("the repair changed the term's shape");
    };
    assert_eq!(*cutoff, p(1.0));
    assert_eq!(*resonance, p(0.4));
    // Idempotent, and free on a clean term.
    assert_eq!(t.clamp_domains(), 0);
}

/// NaN carries no direction, so it lands in the middle rather than being
/// pinned to an end that would state one.
#[test]
fn nan_lands_mid_range() {
    let mut t = filter_over_vco(f64::NAN);
    assert_eq!(t.clamp_domains(), 1);
    let AudioNode::Filter { cutoff, .. } = &t.root else {
        unreachable!()
    };
    assert_eq!(*cutoff, p(0.5));
}

#[test]
fn negative_values_clamp_to_zero() {
    let mut t = filter_over_vco(-3.0);
    assert_eq!(t.domain_violations(), vec![("node#cut".to_string(), p(-3.0))]);
    assert_eq!(t.clamp_domains(), 1);
    let AudioNode::Filter { cutoff, .. } = &t.root else {
        unreachable!()
    };
    assert_eq!(*cutoff, p(0.0));
}

/// Every kind of continuous site — the envelope, a module's own knobs, and
/// knobs deep in a modulation chain — is repaired in one pass, and the
/// rebuilt patch has nothing left to repair.
#[test]
fn one_repair_leaves_nothing_to_repair() {
    let mut t = filter_over_vco(0.5);
    t.amp.release = p(f64::INFINITY);
    if let AudioNode::Filter { modulation, .. } = &mut t.root {
        *modulation = ModNode::Op {
            kind: ModOp::Slew,
            p0: p(-2.0),
            p1: p(f64::NAN),
            input: Box::new(ModNode::Lfo {
                wave: Waveform::Sine,
                rate: p(7.0),
            }),
        };
    }
    assert_eq!(t.domain_violations().len(), 4);
    assert_eq!(t.clamp_domains(), 4);
    assert!(t.domain_violations().is_empty());
    assert_eq!(t.amp.release, p(1.0));
    let AudioNode::Filter { modulation: ModNode::Op { p0, p1, input, .. }, .. } = &t.root else {
        panic!("the repair changed the term's shape");
    };
    assert_eq!((*p0, *p1), (p(0.0), p(0.5)));
    assert!(matches!(**input, ModNode::Lfo { rate, .. } if rate == p(1.0)));
    assert_eq!(t.clamp_domains(), 0);
}

/// The whole-tree route refuses a corrupt value, and names the site.
#[test]
fn validate_tree_refuses_an_out_of_domain_site() {
    assert!(validate_tree(&filter_over_vco(0.6)).is_ok());
    let err = validate_tree(&filter_over_vco(1e30)).expect_err("must refuse");
    assert!(err.contains("node#cut"), "the reason must name the site: {err}");
    assert!(err.contains("out of range"), "{err}");
}

/// An explicit fragment handed to `apply_struct_op` is adopted as given, so
/// the way out has to be where a corrupt value in it is repaired.
#[test]
fn an_explicit_fragment_cannot_seat_a_bad_value() {
    let host = filter_over_vco(0.6);
    let bad = AudioNode::Fold {
        threshold: p(1e30),
        mod_depth: p(0.3),
        input: Box::new(AudioNode::Noise { color: NoiseColor::White }),
        modulation: ModNode::Empty,
    };
    let out = apply_struct_op(
        &host,
        &StructOp::InsertTree { key: "node/0".into(), node: bad },
        |b: u64| (1.0 - f64::from_bits(b)).to_bits(),
    )
    .expect("a repairable fragment must still land");
    assert!(
        out.domain_violations().is_empty(),
        "the edit seated {:?}",
        out.domain_violations()
    );
}
