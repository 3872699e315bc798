use ricercar_grammar::wiring::{makes_dc, DepthScale, ParamMap};
use ricercar_grammar::term::{
    AmpEnv, AudioNode, DriveMode, FilterKind, ModNode, ModOp, NoiseColor, PairOp, PatchTree,
    TableShape, Waveform,
};

fn p(x: f64) -> u64 {
    x.to_bits()
}

fn saw() -> AudioNode {
    AudioNode::Vco {
        wave: Waveform::Saw,
        octave: 0,
        detune: p(0.5),
        mod_depth: p(0.3),
        modulation: ModNode::Empty,
    }
}

fn amp() -> AmpEnv {
    AmpEnv {
        attack: p(0.1),
        decay: p(0.3),
        sustain: p(0.6),
        release: p(0.2),
    }
}

#[test]
fn every_index_round_trips() {
    for w in [Waveform::Sine, Waveform::Triangle, Waveform::Saw, Waveform::Square] {
        assert_eq!(Waveform::from_index(w.index()), w);
    }
    for c in [NoiseColor::White, NoiseColor::Pink] {
        assert_eq!(NoiseColor::from_index(c.index()), c);
    }
    for k in [FilterKind::SvfLp, FilterKind::SvfBp, FilterKind::SvfHp, FilterKind::Ladder] {
        assert_eq!(FilterKind::from_index(k.index()), k);
    }
    for i in 0..8 {
        assert_eq!(TableShape::from_index(i).index(), i);
    }
    for i in 0..3 {
        assert_eq!(DriveMode::from_index(i).index(), i);
    }
    for i in 0..4 {
        assert_eq!(ModOp::from_index(i).index(), i);
    }
    for i in 0..6 {
        assert_eq!(PairOp::from_index(i).index(), i);
    }
}

#[test]
fn from_index_wraps_out_of_range() {
    assert_eq!(Waveform::from_index(5), Waveform::Triangle);
    assert_eq!(NoiseColor::from_index(3), NoiseColor::Pink);
    assert_eq!(FilterKind::from_index(7), FilterKind::Ladder);
    assert_eq!(TableShape::from_index(8), TableShape::Sine);
    assert_eq!(DriveMode::from_index(4), DriveMode::Hard);
    assert_eq!(ModOp::from_index(6), ModOp::Rectify);
    assert_eq!(PairOp::from_index(11), PairOp::Switch);
    assert_eq!(Waveform::Square.index(), 3);
    assert_eq!(TableShape::FormantO.index(), 7);
}

#[test]
fn names_and_labels() {
    assert_eq!(Waveform::Square.port_name(), "sqr");
    assert_eq!(NoiseColor::Pink.port_name(), "pink");
    assert_eq!(TableShape::Pulse12.label(), "pulse 12");
    assert_eq!(DriveMode::Tube.label(), "tube");
    assert_eq!(ModOp::Quantize.label(), "quantize");
    assert_eq!(PairOp::Switch.label(), "switch");
    assert_eq!(ModOp::Quantize.param_sites(), &["qroot", "qscale"]);
    assert_eq!(ModOp::Rectify.param_sites(), &["rmode"]);
    assert_eq!(ModOp::Hold.param_count(), 1);
    assert!(PairOp::Xor.is_gate());
    assert!(!PairOp::Switch.is_gate());
    assert!(!PairOp::Min.is_gate());
}

#[test]
fn mod_term_measures() {
    let lfo = ModNode::Lfo { wave: Waveform::Sine, rate: p(0.4) };
    let quant = ModNode::Op {
        kind: ModOp::Quantize,
        p0: p(0.1),
        p1: p(0.2),
        input: Box::new(lfo.clone()),
    };
    assert_eq!(quant.site_count(), 7);
    assert_eq!(quant.depth(), 2);
    assert_eq!(quant.size(), 2);
    let hold = ModNode::Op {
        kind: ModOp::Hold,
        p0: p(0.5),
        p1: 0,
        input: Box::new(ModNode::Rand { rate: p(0.4), glide: 0 }),
    };
    assert_eq!(hold.site_count(), 6);
    let pair = ModNode::Pair {
        kind: PairOp::And,
        a: Box::new(ModNode::Env { attack: 0, decay: p(0.5) }),
        b: Box::new(quant),
    };
    assert_eq!(pair.site_count(), 2 + 3 + 7);
    assert_eq!(pair.depth(), 3);
    assert_eq!(pair.size(), 4);
    assert_eq!(ModNode::Empty.site_count(), 1);
    assert_eq!(ModNode::Empty.depth(), 0);
    assert!(pair.depth_within(3));
    assert!(!pair.depth_within(2));
}

#[test]
fn normalization_folds_dead_processors() {
    let lfo = ModNode::Lfo { wave: Waveform::Triangle, rate: p(0.3) };
    // The unused `p1` of a one-parameter op is pinned to zero.
    let rect = ModNode::Op {
        kind: ModOp::Rectify,
        p0: p(0.5),
        p1: p(0.7),
        input: Box::new(lfo.clone()),
    };
    assert_eq!(
        rect.normalized(),
        ModNode::Op { kind: ModOp::Rectify, p0: p(0.5), p1: 0, input: Box::new(lfo.clone()) }
    );
    // A pair with one empty branch is its other branch.
    let half = ModNode::Pair {
        kind: PairOp::Min,
        a: Box::new(ModNode::Empty),
        b: Box::new(lfo.clone()),
    };
    assert_eq!(half.normalized(), lfo.clone());
    // A processor over nothing is nothing, transitively.
    let dead = ModNode::Pair {
        kind: PairOp::Or,
        a: Box::new(ModNode::Empty),
        b: Box::new(ModNode::Op {
            kind: ModOp::Slew,
            p0: p(0.2),
            p1: p(0.2),
            input: Box::new(ModNode::Empty),
        }),
    };
    assert_eq!(dead.normalized(), ModNode::Empty);
    // A two-parameter op keeps both knobs, and normalizing twice changes nothing.
    let slew = ModNode::Op {
        kind: ModOp::Slew,
        p0: p(0.2),
        p1: p(0.7),
        input: Box::new(lfo),
    };
    let once = slew.clone().normalized();
    assert_eq!(once, slew);
    assert_eq!(once.clone().normalized(), once);
}

#[test]
fn audio_term_measures() {
    let tree = PatchTree {
        amp: amp(),
        root: AudioNode::Filter {
            kind: FilterKind::Ladder,
            cutoff: p(0.45),
            resonance: p(0.55),
            mod_depth: p(0.6),
            input: Box::new(saw()),
            modulation: ModNode::Lfo { wave: Waveform::Sine, rate: p(0.4) },
        },
    };
    assert_eq!(tree.root.site_count(), 6 + 7 + 3);
    assert_eq!(tree.site_count(), 20);
    assert_eq!(tree.root.size(), 2);
    assert_eq!(tree.root.depth(), 2);
    let mix = AudioNode::Mix {
        balance: p(0.5),
        a: Box::new(tree.root.clone()),
        b: Box::new(AudioNode::Noise { color: NoiseColor::Pink }),
    };
    assert_eq!(mix.size(), 4);
    assert_eq!(mix.depth(), 3);
    assert_eq!(mix.site_count(), 3 + 16 + 3);
    assert_eq!(mix.fits_size(4), Some(0));
    assert_eq!(mix.fits_size(3), None);
    assert!(mix.depth_within(3));
    assert!(!mix.depth_within(2));
    assert!(mix.mod_depth_within(1));
    assert!(!mix.mod_depth_within(0));
}

#[test]
fn signature_follows_the_spine() {
    let short = PatchTree {
        amp: amp(),
        root: AudioNode::Delay {
            time: p(0.35),
            feedback: p(0.35),
            mix: p(0.35),
            mod_depth: 0,
            input: Box::new(AudioNode::Filter {
                kind: FilterKind::Ladder,
                cutoff: p(0.5),
                resonance: p(0.5),
                mod_depth: 0,
                input: Box::new(saw()),
                modulation: ModNode::Empty,
            }),
            modulation: ModNode::Empty,
        },
    };
    assert_eq!(short.signature(), "saw\u{b7}ladr\u{b7}dly");
    let long = PatchTree {
        amp: amp(),
        root: AudioNode::Reverb {
            size: p(0.5),
            damp: p(0.5),
            mix: p(0.3),
            mod_depth: 0,
            input: Box::new(AudioNode::Mix {
                balance: p(0.5),
                a: Box::new(AudioNode::Fold {
                    threshold: p(0.5),
                    mod_depth: 0,
                    input: Box::new(AudioNode::Filter {
                        kind: FilterKind::SvfLp,
                        cutoff: p(0.5),
                        resonance: p(0.5),
                        mod_depth: 0,
                        input: Box::new(saw()),
                        modulation: ModNode::Empty,
                    }),
                    modulation: ModNode::Empty,
                }),
                b: Box::new(AudioNode::Noise { color: NoiseColor::White }),
            }),
            modulation: ModNode::Empty,
        },
    };
    assert_eq!(long.signature(), "1+\u{b7}lp\u{b7}fold\u{b7}mix\u{b7}rvb");
    let wt = PatchTree {
        amp: amp(),
        root: AudioNode::Wavetable {
            table: TableShape::Pulse25,
            octave: 0,
            morph: 0,
            mod_depth: 0,
            modulation: ModNode::Empty,
        },
    };
    assert_eq!(wt.signature(), "wpul");
}

#[test]
fn children_and_slots() {
    let comp = AudioNode::Comp {
        threshold: p(0.3),
        ratio: p(0.5),
        makeup: p(0.4),
        mod_depth: p(0.3),
        input: Box::new(saw()),
        sidechain: Box::new(AudioNode::Noise { color: NoiseColor::White }),
        modulation: ModNode::Empty,
    };
    assert!(comp.is_binary());
    assert!(!comp.is_source());
    assert_eq!(comp.child(0), Some(&saw()));
    assert_eq!(comp.child(1), Some(&AudioNode::Noise { color: NoiseColor::White }));
    assert_eq!(comp.child(2), None);
    assert_eq!(comp.slot(), Some(&ModNode::Empty));
    let swapped = comp.clone().with_child(0, AudioNode::Noise { color: NoiseColor::Pink });
    assert_eq!(swapped.child(0), Some(&AudioNode::Noise { color: NoiseColor::Pink }));
    assert_eq!(AudioNode::Noise { color: NoiseColor::Pink }.slot(), None);
    let path = vec![1];
    assert_eq!(comp.node_at(&path, 0), Some(&AudioNode::Noise { color: NoiseColor::White }));
    assert_eq!(comp.node_at(&vec![2], 0), None);
}

#[test]
fn only_a_ladder_or_tube_drive_on_the_signal_path_buys_a_dc_blocker() {
    let noise = || AudioNode::Noise {
        color: NoiseColor::White,
    };
    let ladder = |input: AudioNode| AudioNode::Filter {
        kind: FilterKind::Ladder,
        cutoff: 0,
        resonance: 0,
        mod_depth: 0,
        input: Box::new(input),
        modulation: ModNode::Empty,
    };
    assert!(!makes_dc(&noise()));
    assert!(makes_dc(&ladder(noise())));
    let svf = AudioNode::Filter {
        kind: FilterKind::SvfLp,
        cutoff: 0,
        resonance: 0,
        mod_depth: 0,
        input: Box::new(noise()),
        modulation: ModNode::Empty,
    };
    assert!(!makes_dc(&svf));
    let tube = AudioNode::Distortion {
        drive: 0,
        tone: 0,
        mode: DriveMode::Tube,
        mod_depth: 0,
        input: Box::new(noise()),
        modulation: ModNode::Empty,
    };
    assert!(makes_dc(&tube));
    let soft = AudioNode::Distortion {
        drive: 0,
        tone: 0,
        mode: DriveMode::Soft,
        mod_depth: 0,
        input: Box::new(noise()),
        modulation: ModNode::Empty,
    };
    assert!(!makes_dc(&soft));
    // A ladder in a compressor's sidechain reaches only the detector.
    let comp = |input: AudioNode, side: AudioNode| AudioNode::Comp {
        threshold: 0,
        ratio: 0,
        makeup: 0,
        mod_depth: 0,
        input: Box::new(input),
        sidechain: Box::new(side),
        modulation: ModNode::Empty,
    };
    assert!(!makes_dc(&comp(noise(), ladder(noise()))));
    assert!(makes_dc(&comp(ladder(noise()), noise())));
    // A vocoder's band filters remove any offset on either input.
    let vocoder = AudioNode::Vocoder {
        bands: 0,
        attack: 0,
        release: 0,
        mod_depth: 0,
        carrier: Box::new(ladder(noise())),
        modulator: Box::new(ladder(noise())),
        modulation: ModNode::Empty,
    };
    assert!(!makes_dc(&vocoder));
    let mix = AudioNode::Mix {
        balance: 0,
        a: Box::new(noise()),
        b: Box::new(tube),
    };
    assert!(makes_dc(&mix));
}

#[test]
fn the_taper_follows_scale_and_polarity() {
    assert_eq!(DepthScale::Normalized.taper(false), ParamMap::ModDepthBipolar);
    assert_eq!(DepthScale::Normalized.taper(true), ParamMap::ModDepthUnipolar);
    assert_eq!(DepthScale::Pitch.taper(true), ParamMap::ModDepthPitchUnipolar);
    assert_eq!(DepthScale::Gain.taper(false), ParamMap::ModDepthGain);
    assert_eq!(DepthScale::Shift.taper(true), ParamMap::ModDepthShiftUnipolar);
    assert_eq!(DepthScale::ParamCv.taper(false), ParamMap::ModDepthParamCv);
    assert_eq!(DepthScale::Detector.taper(true), ParamMap::ModDepthDetectorUnipolar);
}
