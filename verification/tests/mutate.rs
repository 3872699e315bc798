use ricercar_grammar::mutate::{MAX_DEPTH, MAX_MOD_DEPTH, MAX_SIZE};
use ricercar_grammar::term::{FilterKind, ModOp, NoiseColor, PairOp, Waveform};
use ricercar_grammar::{
    apply_struct_op, validate_tree, AmpEnv, AudioNode, ModKind, ModNode, NodeKind, PatchTree,
    StructError, StructOp,
};

fn p(x: f64) -> u64 {
    x.to_bits()
}

fn mirror(b: u64) -> u64 {
    (1.0 - f64::from_bits(b)).to_bits()
}

fn vco(wave: Waveform, octave: i8, detune: f64) -> AudioNode {
    AudioNode::Vco {
        wave,
        octave,
        detune: p(detune),
        mod_depth: 0,
        modulation: ModNode::Empty,
    }
}

/// The first preset of the library ("First Bass").
fn first_bass() -> PatchTree {
    PatchTree {
        amp: AmpEnv {
            attack: p(0.03),
            decay: p(0.35),
            sustain: p(0.55),
            release: p(0.2),
        },
        root: AudioNode::Filter {
            kind: FilterKind::Ladder,
            cutoff: p(0.45),
            resonance: p(0.55),
            mod_depth: p(0.6),
            modulation: ModNode::Env {
                attack: p(0.02),
                decay: p(0.45),
            },
            input: Box::new(vco(Waveform::Saw, -1, 0.5)),
        },
    }
}

fn apply(tree: &PatchTree, op: StructOp) -> Result<PatchTree, StructError> {
    apply_struct_op(tree, &op, mirror)
}

fn kind_tag(n: &AudioNode) -> &'static str {
    n.tag()
}

/// A filter wrapping `inner`, built without going through the op vocabulary.
fn default_filter_over(inner: AudioNode) -> AudioNode {
    AudioNode::Filter {
        kind: FilterKind::SvfLp,
        cutoff: p(0.5),
        resonance: p(0.2),
        mod_depth: p(0.0),
        input: Box::new(inner),
        modulation: ModNode::Empty,
    }
}

/// The ceilings have to hold on both routes into the bench: a tree that
/// `apply_struct_op` would refuse must be refused by `validate_tree` too.
#[test]
fn validate_tree_refuses_what_apply_struct_op_refuses() {
    let mut tree = first_bass();
    assert!(validate_tree(&tree).is_ok(), "a preset is inside the ceilings");
    let mut over = None;
    for _ in 0..(MAX_DEPTH + MAX_SIZE + 4) {
        let op = StructOp::Insert { key: "node".into(), kind: NodeKind::Filter };
        match apply_struct_op(&tree, &op, mirror) {
            Ok(next) => tree = next,
            Err(_) => {
                let mut raw = tree.clone();
                raw.root = default_filter_over(raw.root);
                over = Some(raw);
                break;
            }
        }
    }
    let over = over.expect("the ceilings must bite within a bounded number of inserts");
    assert!(
        validate_tree(&over).is_err(),
        "validate_tree let through a tree apply_struct_op refuses"
    );
}

#[test]
fn inserting_past_the_depth_ceiling_is_too_big() {
    let mut tree = first_bass();
    let mut inserted = 0;
    loop {
        match apply(&tree, StructOp::Insert { key: "node".into(), kind: NodeKind::Delay }) {
            Ok(next) => {
                tree = next;
                inserted += 1;
            }
            Err(e) => {
                assert_eq!(e, StructError::TooBig(MAX_SIZE, MAX_DEPTH));
                assert_eq!(e.message(), "patch would exceed limits (24 nodes max, depth 9)");
                break;
            }
        }
    }
    // The preset is two deep; seven delays fill the depth ceiling of nine.
    assert_eq!(inserted, 7);
    assert_eq!(tree.root.depth(), MAX_DEPTH);
    assert_eq!(
        validate_tree(&AmpWrap::over(&tree)).unwrap_err(),
        "patch would exceed limits (24 nodes max, depth 9)"
    );
}

struct AmpWrap;

impl AmpWrap {
    fn over(t: &PatchTree) -> PatchTree {
        PatchTree { amp: t.amp, root: default_filter_over(t.root.clone()) }
    }
}

#[test]
fn replacing_the_root_with_each_binary_counts_both_branches() {
    let seed = first_bass();
    for kind in [
        NodeKind::Mix,
        NodeKind::RingMod,
        NodeKind::Comp,
        NodeKind::Duck,
        NodeKind::Gate,
        NodeKind::Vocoder,
    ] {
        let tree = apply(&seed, StructOp::Replace { key: "node".into(), kind }).unwrap();
        assert!(tree.root.size() >= 3, "{kind:?}");
        assert!(tree.root.is_binary(), "{kind:?}");
        // Deleting either branch collapses to the sibling, both ways.
        for (gone, kept) in [(0usize, 1usize), (1, 0)] {
            let sibling = tree.root.child(kept).unwrap().clone();
            let after = apply(&tree, StructOp::Delete { key: format!("node/{gone}") }).unwrap();
            assert_eq!(after.root, sibling, "{kind:?}: delete /{gone}");
        }
        // The two pure binaries have no modulation slot; the four dynamics
        // nodes do, and setting one does not disturb `/1`.
        let has_slot = !matches!(kind, NodeKind::Mix | NodeKind::RingMod);
        let set = apply(&tree, StructOp::SetMod { key: "node".into(), kind: ModKind::Lfo });
        assert_eq!(set.is_ok(), has_slot, "{kind:?}");
        if let Ok(set) = set {
            assert_eq!(set.root.child(1), tree.root.child(1));
            assert_eq!(
                set.root.slot(),
                Some(&ModNode::Lfo { wave: Waveform::Triangle, rate: p(0.4) })
            );
        } else {
            assert_eq!(
                set.unwrap_err(),
                StructError::Invalid("mixers and ring modulators have no modulation slot".into())
            );
        }
        // Swapping exchanges the branches.
        let swapped = apply(&tree, StructOp::SwapMix { key: "node".into() }).unwrap();
        assert_eq!(swapped.root.child(0), tree.root.child(1));
        assert_eq!(swapped.root.child(1), tree.root.child(0));
        // Insert-into-the-wire keeps the fragment's own `/1`.
        let frag = tree.root.clone();
        let inserted = apply(&tree, StructOp::InsertTree { key: "node/0".into(), node: frag.clone() })
            .unwrap();
        let placed = inserted.root.child(0).unwrap();
        assert_eq!(placed.child(1), frag.child(1));
        assert_eq!(placed.child(0), tree.root.child(0));
    }
}

#[test]
fn replace_wraps_or_swaps_in_place() {
    let seed = first_bass();
    // A processor replacing a processor keeps its input.
    let t = apply(&seed, StructOp::Replace { key: "node".into(), kind: NodeKind::Fold }).unwrap();
    assert_eq!(kind_tag(&t.root), "fold");
    assert_eq!(t.root.child(0), seed.root.child(0));
    // A processor replacing a source wraps the source.
    let t2 = apply(&seed, StructOp::Replace { key: "node/0".into(), kind: NodeKind::Chorus })
        .unwrap();
    let chorus = t2.root.child(0).unwrap();
    assert_eq!(kind_tag(chorus), "cho");
    assert_eq!(chorus.child(0), seed.root.child(0));
    // A source replaces in place, dropping the subtree.
    let t3 = apply(&seed, StructOp::Replace { key: "node".into(), kind: NodeKind::Noise }).unwrap();
    assert_eq!(t3.root, AudioNode::Noise { color: NoiseColor::White });
    // The vocoder brings its own carrier.
    let t4 = apply(&seed, StructOp::Replace { key: "node".into(), kind: NodeKind::Vocoder })
        .unwrap();
    assert_eq!(kind_tag(t4.root.child(0).unwrap()), "ssaw");
    assert_eq!(kind_tag(t4.root.child(1).unwrap()), "vox");
}

#[test]
fn refusals_name_their_reason() {
    let seed = first_bass();
    assert_eq!(
        apply(&seed, StructOp::Insert { key: "node".into(), kind: NodeKind::Vco }).unwrap_err(),
        StructError::Invalid(
            "sources cannot be inserted into a wire \u{2014} use replace, or insert a mix".into()
        )
    );
    assert_eq!(
        apply(&seed, StructOp::Delete { key: "node/0".into() }).unwrap_err(),
        StructError::Invalid("a lone source cannot be deleted \u{2014} replace it instead".into())
    );
    assert_eq!(
        apply(&seed, StructOp::SwapMix { key: "node".into() }).unwrap_err(),
        StructError::Invalid(
            "this module has only one input \u{2014} there is nothing to swap".into()
        )
    );
    assert_eq!(
        apply(&seed, StructOp::InsertTree { key: "node".into(), node: vco(Waveform::Sine, 0, 0.5) })
            .unwrap_err(),
        StructError::Invalid("a source has no input to splice into".into())
    );
    let missing = apply(&seed, StructOp::Delete { key: "node/0/0".into() }).unwrap_err();
    assert_eq!(missing, StructError::NoSuchNode("node/0/0".into()));
    assert_eq!(missing.message(), "no node at node/0/0");
    assert_eq!(
        apply(&seed, StructOp::SetMod { key: "nowhere".into(), kind: ModKind::Lfo }).unwrap_err(),
        StructError::NoSuchNode("nowhere".into())
    );
    assert_eq!(
        apply(&seed, StructOp::SetMod { key: "node/1".into(), kind: ModKind::Lfo }).unwrap_err(),
        StructError::NoSuchNode("node/1".into())
    );
}

#[test]
fn delete_undoes_insert() {
    let seed = first_bass();
    for kind in [NodeKind::Filter, NodeKind::Mix, NodeKind::Comp, NodeKind::Shift] {
        let t = apply(&seed, StructOp::Insert { key: "node/0".into(), kind }).unwrap();
        let back = apply(&t, StructOp::Delete { key: "node/0".into() }).unwrap();
        assert_eq!(back, seed, "{kind:?}");
        let t = apply(&seed, StructOp::Insert { key: "node".into(), kind }).unwrap();
        let back = apply(&t, StructOp::Delete { key: "node".into() }).unwrap();
        assert_eq!(back, seed, "{kind:?}");
    }
}

#[test]
fn swapping_a_mix_mirrors_its_balance() {
    let tree = PatchTree {
        amp: first_bass().amp,
        root: AudioNode::Mix {
            balance: p(0.25),
            a: Box::new(vco(Waveform::Saw, 0, 0.5)),
            b: Box::new(AudioNode::Noise { color: NoiseColor::Pink }),
        },
    };
    let once = apply(&tree, StructOp::SwapMix { key: "node".into() }).unwrap();
    assert_eq!(
        once.root,
        AudioNode::Mix {
            balance: p(0.75),
            a: Box::new(AudioNode::Noise { color: NoiseColor::Pink }),
            b: Box::new(vco(Waveform::Saw, 0, 0.5)),
        }
    );
    let twice = apply(&once, StructOp::SwapMix { key: "node".into() }).unwrap();
    assert_eq!(twice, tree);
}

#[test]
fn set_mod_wraps_sources_and_replaces_them() {
    let seed = first_bass();
    // A shaper wraps what is there.
    let t = apply(&seed, StructOp::SetMod { key: "node".into(), kind: ModKind::Quantize }).unwrap();
    assert_eq!(
        t.root.slot(),
        Some(&ModNode::Op {
            kind: ModOp::Quantize,
            p0: 0,
            p1: p(2.5 / 7.0),
            input: Box::new(ModNode::Env { attack: p(0.02), decay: p(0.45) }),
        })
    );
    // A shaper on an empty slot wraps a default S&H.
    let vco_root = PatchTree { amp: seed.amp, root: vco(Waveform::Saw, 0, 0.5) };
    let t = apply(&vco_root, StructOp::SetMod { key: "node".into(), kind: ModKind::Hold }).unwrap();
    assert_eq!(
        t.root.slot(),
        Some(&ModNode::Op {
            kind: ModOp::Hold,
            p0: p(0.5),
            p1: 0,
            input: Box::new(ModNode::Rand { rate: p(0.4), glide: 0 }),
        })
    );
    // A combiner gets a default second branch.
    let t = apply(&seed, StructOp::SetMod { key: "node".into(), kind: ModKind::Xor }).unwrap();
    assert_eq!(
        t.root.slot(),
        Some(&ModNode::Pair {
            kind: PairOp::Xor,
            a: Box::new(ModNode::Env { attack: p(0.02), decay: p(0.45) }),
            b: Box::new(ModNode::Euclid { rate: p(0.5), steps: p(0.5), pulses: p(0.4) }),
        })
    );
    let t = apply(&seed, StructOp::SetMod { key: "node".into(), kind: ModKind::Max }).unwrap();
    assert!(matches!(t.root.slot(), Some(ModNode::Pair { b, .. }) if **b == ModNode::Lfo { wave: Waveform::Triangle, rate: p(0.3) }));
    // A source replaces; `Empty` clears.
    let t = apply(&seed, StructOp::SetMod { key: "node".into(), kind: ModKind::Follow }).unwrap();
    assert_eq!(t.root.slot(), Some(&ModNode::Follow { sens: p(0.5), release: p(0.4) }));
    let t = apply(&seed, StructOp::SetMod { key: "node".into(), kind: ModKind::Empty }).unwrap();
    assert_eq!(t.root.slot(), Some(&ModNode::Empty));
}

#[test]
fn set_mod_tree_installs_the_canonical_form_and_respects_the_ceiling() {
    let seed = first_bass();
    let lfo = ModNode::Lfo { wave: Waveform::Sine, rate: p(0.5) };
    let frag = ModNode::Pair {
        kind: PairOp::Min,
        a: Box::new(ModNode::Empty),
        b: Box::new(lfo.clone()),
    };
    let t = apply(&seed, StructOp::SetModTree { key: "node".into(), m: frag }).unwrap();
    assert_eq!(t.root.slot(), Some(&lfo));
    // Five stacked processors exceed the modulation ceiling of four.
    let mut deep = lfo;
    for _ in 0..MAX_MOD_DEPTH {
        deep = ModNode::Op { kind: ModOp::Slew, p0: p(0.2), p1: p(0.2), input: Box::new(deep) };
    }
    assert_eq!(deep.depth(), MAX_MOD_DEPTH + 1);
    let err = apply(&seed, StructOp::SetModTree { key: "node".into(), m: deep }).unwrap_err();
    assert_eq!(err, StructError::ModTooDeep(MAX_MOD_DEPTH));
    assert_eq!(err.message(), "modulation chain would exceed depth 4");
}

#[test]
fn replace_tree_installs_the_fragment_verbatim() {
    let seed = first_bass();
    let frag = AudioNode::Noise { color: NoiseColor::Pink };
    let t = apply(&seed, StructOp::ReplaceTree { key: "node/0".into(), node: frag.clone() })
        .unwrap();
    assert_eq!(t.root.child(0), Some(&frag));
    assert_eq!(t.amp, seed.amp);
}

fn rack_of(t: &PatchTree) -> ricercar_grammar::RackDescription {
    ricercar_grammar::describe(t, |_, _| 1)
}

/// Every preset describes, and structural edits (replace / insert / delete /
/// set-mod / swap) on every module of every preset always yield trees inside
/// the ceilings that read back from their own traces.
#[test]
fn presets_and_struct_ops_stay_in_grammar() {
    for (name, tree) in ricercar_grammar::presets() {
        assert!(!tree.signature().is_empty(), "preset {name} has no signature");
    }
    let kinds = [
        NodeKind::Vco,
        NodeKind::Supersaw,
        NodeKind::Noise,
        NodeKind::Wavetable,
        NodeKind::Pluck,
        NodeKind::Mix,
        NodeKind::RingMod,
        NodeKind::Filter,
        NodeKind::Fold,
        NodeKind::Delay,
        NodeKind::Chorus,
        NodeKind::Distortion,
        NodeKind::Bitcrush,
        NodeKind::Phaser,
        NodeKind::Shift,
        NodeKind::Comp,
        NodeKind::Duck,
        NodeKind::Gate,
        NodeKind::Vocoder,
    ];
    for (name, tree) in ricercar_grammar::presets() {
        let keys: Vec<String> = rack_of(&tree)
            .modules
            .iter()
            .filter(|m| m.key != "amp" && !m.is_mod)
            .map(|m| m.key.clone())
            .collect();
        let mut ops: Vec<StructOp> = Vec::new();
        for key in &keys {
            for kind in kinds {
                ops.push(StructOp::Replace { key: key.clone(), kind });
                if !kind.is_source() {
                    ops.push(StructOp::Insert { key: key.clone(), kind });
                }
            }
            ops.push(StructOp::Delete { key: key.clone() });
            for mk in [ModKind::Empty, ModKind::Lfo, ModKind::Env, ModKind::Rand, ModKind::Follow] {
                ops.push(StructOp::SetMod { key: key.clone(), kind: mk });
            }
            ops.push(StructOp::SwapMix { key: key.clone() });
        }
        for op in ops {
            let shown = format!("{op:?}");
            // Invalid ops are allowed to reject, but never panic.
            if let Ok(next) = apply_struct_op(&tree, &op, mirror) {
                assert!(next.root.size() <= MAX_SIZE);
                let back = PatchTree::from_trace(&next.to_trace()).unwrap();
                assert_eq!(back, next, "{name}: trace roundtrip after {shown}");
                rack_of(&next);
            }
        }
    }
}

/// Every structural path that treats a binary node specially, exercised on
/// each of the six binary kinds.
#[test]
fn every_binary_node_survives_the_whole_edit_vocabulary() {
    let seed = ricercar_grammar::presets()[0].1.clone();
    for kind in [
        NodeKind::Mix,
        NodeKind::RingMod,
        NodeKind::Comp,
        NodeKind::Duck,
        NodeKind::Gate,
        NodeKind::Vocoder,
    ] {
        let tree = apply(&seed, StructOp::Replace { key: "node".into(), kind })
            .unwrap_or_else(|e| panic!("{kind:?}: replace at the root: {}", e.message()));
        // A binary node plus two branches.
        assert!(tree.root.size() >= 3, "{kind:?}: size {}", tree.root.size());
        // Both branches are real nodes at `/0` and `/1`, and the rack names
        // them there.
        let rack = rack_of(&tree);
        for k in ["node/0", "node/1"] {
            assert!(rack.modules.iter().any(|m| m.key == k), "{kind:?}: no module at {k}");
            assert!(
                rack.wires.iter().any(|w| w.from == k && w.to == "node"),
                "{kind:?}: no audio wire from {k}"
            );
        }
        // Deleting either branch collapses to the sibling, both ways.
        for (gone, kept) in [(0usize, 1usize), (1, 0)] {
            let before = rack_of(&tree);
            let sibling = before
                .modules
                .iter()
                .find(|m| m.key == format!("node/{kept}"))
                .expect("sibling")
                .kind
                .clone();
            let after = apply(&tree, StructOp::Delete { key: format!("node/{gone}") })
                .unwrap_or_else(|e| panic!("{kind:?}: delete /{gone}: {}", e.message()));
            assert_eq!(
                rack_of(&after).modules[1].kind,
                sibling,
                "{kind:?}: deleting /{gone} did not leave /{kept} at the root"
            );
        }
        // The modulation slot: the two pure binaries have none, the four
        // dynamics nodes do, and setting one must not disturb `/1`.
        let has_slot = !matches!(kind, NodeKind::Mix | NodeKind::RingMod);
        let set = apply(&tree, StructOp::SetMod { key: "node".into(), kind: ModKind::Lfo });
        assert_eq!(set.is_ok(), has_slot, "{kind:?}: modulation slot present");
        if let Ok(set) = set {
            let rack = rack_of(&set);
            assert!(rack.modules.iter().any(|m| m.key == "node/m" && m.is_mod));
            assert!(rack.modules.iter().any(|m| m.key == "node/1"));
            assert_eq!(PatchTree::from_trace(&set.to_trace()).unwrap(), set);
        }
        // Insert-into-the-wire keeps the fragment's own `/1`.
        let fragment = apply(&seed, StructOp::Replace { key: "node".into(), kind }).unwrap().root;
        let inserted = apply(&tree, StructOp::InsertTree { key: "node/0".into(), node: fragment })
            .unwrap_or_else(|e| panic!("{kind:?}: insert into a wire: {}", e.message()));
        assert_eq!(PatchTree::from_trace(&inserted.to_trace()).unwrap(), inserted);
        // Swapping the two inputs exchanges the branches.
        let before = rack_of(&tree);
        let kind_at = |r: &ricercar_grammar::RackDescription, k: &str| {
            r.modules
                .iter()
                .find(|m| m.key == k)
                .unwrap_or_else(|| panic!("{kind:?}: no module at {k}"))
                .kind
                .clone()
        };
        let swapped = apply(&tree, StructOp::SwapMix { key: "node".into() })
            .unwrap_or_else(|e| panic!("{kind:?}: swap the two inputs: {}", e.message()));
        let after = rack_of(&swapped);
        assert_eq!(kind_at(&after, "node/0"), kind_at(&before, "node/1"));
        assert_eq!(kind_at(&after, "node/1"), kind_at(&before, "node/0"));
        assert_eq!(PatchTree::from_trace(&swapped.to_trace()).unwrap(), swapped);
    }
}
