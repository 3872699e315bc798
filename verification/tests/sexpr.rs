use ricercar_grammar::term::{DriveMode, FilterKind, ModOp, NoiseColor, PairOp, Waveform};
use ricercar_grammar::{AmpEnv, AudioNode, ModNode, PatchTree};

fn p(x: f64) -> u64 {
    x.to_bits()
}

fn two(b: u64) -> String {
    format!("{:.2}", f64::from_bits(b))
}

/// The first preset of the library ("First Bass").
fn first_bass() -> PatchTree {
    PatchTree {
        amp: AmpEnv {
            attack: p(0.03),
            decay: p(0.35),
            sustain: p(0.55),
            release: p(0.2),
        },
        root: AudioNode::Filter {
            kind: FilterKind::Ladder,
            cutoff: p(0.45),
            resonance: p(0.55),
            mod_depth: p(0.6),
            modulation: ModNode::Env {
                attack: p(0.02),
                decay: p(0.45),
            },
            input: Box::new(AudioNode::Vco {
                wave: Waveform::Saw,
                octave: -1,
                detune: p(0.5),
                mod_depth: 0,
                modulation: ModNode::Empty,
            }),
        },
    }
}

#[test]
fn a_patch_renders_as_a_voice_around_its_term() {
    assert_eq!(
        first_bass().to_sexpr(&two),
        "(voice a=0.03 d=0.35 s=0.55 r=0.20 (filter Ladder c=0.45 r=0.55 (env a=0.02 d=0.45) (vco saw -1 0.50 nomod)))"
    );
}

#[test]
fn octaves_always_carry_their_sign() {
    let n = AudioNode::Supersaw {
        octave: 0,
        detune: p(0.25),
        mix: p(0.5),
        mod_depth: 0,
        modulation: ModNode::Empty,
    };
    assert_eq!(n.to_sexpr(&two), "(supersaw +0 0.25 0.50 nomod)");
    let n = AudioNode::Pluck {
        octave: 2,
        damping: p(0.1),
        brightness: p(0.9),
        mod_depth: 0,
        modulation: ModNode::Empty,
    };
    assert_eq!(n.to_sexpr(&two), "(pluck +2 d=0.10 b=0.90 nomod)");
}

#[test]
fn modulation_chains_render_inside_out() {
    let chain = ModNode::Op {
        kind: ModOp::Quantize,
        p0: p(0.3),
        p1: p(0.6),
        input: Box::new(ModNode::Pair {
            kind: PairOp::Max,
            a: Box::new(ModNode::Lfo {
                wave: Waveform::Triangle,
                rate: p(0.4),
            }),
            b: Box::new(ModNode::Euclid {
                rate: p(0.5),
                steps: p(0.5),
                pulses: p(0.25),
            }),
        }),
    };
    let n = AudioNode::Distortion {
        drive: p(0.7),
        tone: p(0.4),
        mode: DriveMode::Tube,
        mod_depth: p(0.3),
        input: Box::new(AudioNode::Noise {
            color: NoiseColor::Pink,
        }),
        modulation: chain,
    };
    assert_eq!(
        n.to_sexpr(&two),
        "(dist tube g=0.70 t=0.40 (quantize 0.30 0.60 (max (lfo tri 0.40) (euclid r=0.50 s=0.50 p=0.25))) (noise pink))"
    );
    let one = AudioNode::Fold {
        threshold: p(0.35),
        mod_depth: 0,
        input: Box::new(AudioNode::Noise {
            color: NoiseColor::White,
        }),
        modulation: ModNode::Op {
            kind: ModOp::Rectify,
            p0: p(0.9),
            p1: 0,
            input: Box::new(ModNode::Rand {
                rate: p(0.6),
                glide: p(0.1),
            }),
        },
    };
    assert_eq!(
        one.to_sexpr(&two),
        "(fold t=0.35 (rectify 0.90 (rand r=0.60 g=0.10)) (noise white))"
    );
}

#[test]
fn binary_dynamics_render_both_inputs_after_the_slot() {
    let n = AudioNode::Duck {
        amount: p(0.5),
        threshold: p(0.4),
        release: p(0.3),
        mod_depth: 0,
        input: Box::new(AudioNode::Noise {
            color: NoiseColor::White,
        }),
        key: Box::new(AudioNode::Noise {
            color: NoiseColor::Pink,
        }),
        modulation: ModNode::Empty,
    };
    assert_eq!(
        n.to_sexpr(&two),
        "(duck a=0.50 t=0.40 r=0.30 nomod (noise white) (noise pink))"
    );
}
