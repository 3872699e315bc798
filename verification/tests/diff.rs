use ricercar_grammar::term::{FilterKind, NoiseColor, Waveform};
use ricercar_grammar::{
    display_label, set_param, tree_diff, AmpEnv, AudioNode, DiffEntry, ModNode, ParamValue,
    PatchTree, SiteValue,
};

fn p(x: f64) -> u64 {
    x.to_bits()
}

fn fmt(b: u64) -> String {
    format!("{:.2}", f64::from_bits(b))
}

fn vco() -> AudioNode {
    AudioNode::Vco {
        wave: Waveform::Saw,
        octave: -1,
        detune: p(0.5),
        mod_depth: 0,
        modulation: ModNode::Empty,
    }
}

/// The first preset of the library ("First Bass").
fn first_bass() -> PatchTree {
    PatchTree {
        amp: AmpEnv {
            attack: p(0.03),
            decay: p(0.35),
            sustain: p(0.55),
            release: p(0.2),
        },
        root: AudioNode::Filter {
            kind: FilterKind::Ladder,
            cutoff: p(0.45),
            resonance: p(0.55),
            mod_depth: p(0.6),
            modulation: ModNode::Env {
                attack: p(0.02),
                decay: p(0.45),
            },
            input: Box::new(vco()),
        },
    }
}

fn entry(addr: &str, before: Option<&str>, after: Option<&str>) -> DiffEntry {
    DiffEntry {
        addr: addr.to_string(),
        before: before.map(|s| s.to_string()),
        after: after.map(|s| s.to_string()),
    }
}

/// tree_diff is empty on identity and localizes a single edit.
#[test]
fn diff_localizes_edits() {
    let tree = first_bass();
    assert!(tree_diff(&tree, &tree, fmt).is_empty());
    let edited = set_param(&tree, "amp#attack", ParamValue::Continuous(p(0.9))).unwrap();
    let d = tree_diff(&tree, &edited, fmt);
    assert_eq!(d.len(), 1);
    assert_eq!(d[0].addr, "amp#attack");
    assert!(d[0].before.is_some() && d[0].after.is_some());
    assert_eq!(d, vec![entry("amp#attack", Some("0.03"), Some("0.90"))]);
}

#[test]
fn a_swapped_source_shows_as_removed_and_added_sites_in_address_order() {
    let before = first_bass();
    let mut after = first_bass();
    if let AudioNode::Filter { input, .. } = &mut after.root {
        **input = AudioNode::Noise { color: NoiseColor::Pink };
    }
    let d = tree_diff(&before, &after, fmt);
    assert_eq!(
        d,
        vec![
            entry("node/0#color", None, Some("pink")),
            entry("node/0#det", Some("0.50"), None),
            entry("node/0#mdepth", Some("0.00"), None),
            entry("node/0#oct", Some("-1"), None),
            entry("node/0#src", Some("vco"), Some("noise")),
            entry("node/0#wave", Some("saw"), None),
            entry("node/0/m#mod", Some("no mod"), None),
        ]
    );
    let addrs: Vec<&str> = d.iter().map(|e| e.addr.as_str()).collect();
    let mut sorted = addrs.clone();
    sorted.sort();
    assert_eq!(addrs, sorted);
}

#[test]
fn continuous_sites_compare_as_numbers() {
    let before = first_bass();
    let mut after = first_bass();
    after.amp.attack = p(-0.0);
    after.amp.decay = p(f64::NAN);
    let mut nan = first_bass();
    nan.amp.decay = p(f64::NAN);
    let zero = PatchTree { amp: AmpEnv { attack: p(0.0), ..first_bass().amp }, ..first_bass() };
    assert!(tree_diff(&zero, &PatchTree { amp: AmpEnv { attack: p(-0.0), ..first_bass().amp }, ..first_bass() }, fmt).is_empty());
    let d = tree_diff(&nan, &nan, fmt);
    assert_eq!(d, vec![entry("amp#decay", Some("NaN"), Some("NaN"))]);
    let d = tree_diff(&before, &after, fmt);
    assert_eq!(d.len(), 2);
    assert_eq!(d[0], entry("amp#attack", Some("0.03"), Some("-0.00")));
    assert_eq!(d[1].addr, "amp#decay");
}

#[test]
fn labels_name_what_the_diff_can_name() {
    assert_eq!(display_label("leaf", SiteValue::Flag(true)), "source");
    assert_eq!(display_label("leaf", SiteValue::Flag(false)), "processor");
    assert_eq!(display_label("wave", SiteValue::Index(3)), "sqr");
    assert_eq!(display_label("wave", SiteValue::Index(4)), "4");
    assert_eq!(display_label("fkind", SiteValue::Index(0)), "svf lp");
    assert_eq!(display_label("op", SiteValue::Index(4)), "chorus");
    assert_eq!(display_label("op", SiteValue::Index(7)), "7");
    assert_eq!(display_label("mod", SiteValue::Index(2)), "mod env");
    assert_eq!(display_label("table", SiteValue::Index(5)), "5");
    assert_eq!(display_label("oct", SiteValue::Index(2)), "+0");
    assert_eq!(display_label("oct", SiteValue::Index(4)), "+2");
    assert_eq!(display_label("oct", SiteValue::Index(0)), "-2");
    assert_eq!(display_label("x", SiteValue::Signed(-5)), "I64(-5)");
    assert_eq!(display_label("x", SiteValue::Signed(i64::MIN)), format!("I64({})", i64::MIN));
    assert_eq!(display_label("x", SiteValue::Count(u64::MAX)), format!("U64({})", u64::MAX));
}
