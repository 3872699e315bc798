//! Hand-designed preset patches: a starting vocabulary for the bank, and a
//! fast way to seed the taste model ("keep the ones you like").
//!
//! Every parameter here is normalized, not in units: a continuous field
//! holds the bit pattern of an `f64` in `[0, 1]`, and the constants below
//! name those values by their decimal digits (`P045` holds forty-five
//! hundredths, `P0325` three hundred twenty-five thousandths). The musical
//! meaning of a value lives in the maps the compiler applies to it.
//!
//! A preset that leaves a module's modulation slot unused holds an empty slot
//! with zero depth, and a random source without glide steps hard.
//!
//! Names are what the user carries back to the bank, and categories are what
//! the browser groups by and what the warm start samples across; the laws at
//! the end of this module pin both.

use vstd::prelude::*;

use crate::term::{AmpEnv, AudioNode, FilterKind, ModNode, NoiseColor, Param, PatchTree, Waveform};

verus! {

const P002: Param = 0x3f94_7ae1_47ae_147b;
const P003: Param = 0x3f9e_b851_eb85_1eb8;
const P005: Param = 0x3fa9_9999_9999_999a;
const P015: Param = 0x3fc3_3333_3333_3333;
const P018: Param = 0x3fc7_0a3d_70a3_d70a;
const P020: Param = 0x3fc9_9999_9999_999a;
const P022: Param = 0x3fcc_28f5_c28f_5c29;
const P025: Param = 0x3fd0_0000_0000_0000;
const P030: Param = 0x3fd3_3333_3333_3333;
const P032: Param = 0x3fd4_7ae1_47ae_147b;
const P0325: Param = 0x3fd4_cccc_cccc_cccd;
const P035: Param = 0x3fd6_6666_6666_6666;
const P040: Param = 0x3fd9_9999_9999_999a;
const P042: Param = 0x3fda_e147_ae14_7ae1;
const P044: Param = 0x3fdc_28f5_c28f_5c29;
const P045: Param = 0x3fdc_cccc_cccc_cccd;
const P049: Param = 0x3fdf_5c28_f5c2_8f5c;
const P050: Param = 0x3fe0_0000_0000_0000;
const P052: Param = 0x3fe0_a3d7_0a3d_70a4;
const P054: Param = 0x3fe1_47ae_147a_e148;
const P055: Param = 0x3fe1_9999_9999_999a;
const P058: Param = 0x3fe2_8f5c_28f5_c28f;
const P060: Param = 0x3fe3_3333_3333_3333;
const P062: Param = 0x3fe3_d70a_3d70_a3d7;
const P063: Param = 0x3fe4_28f5_c28f_5c29;
const P065: Param = 0x3fe4_cccc_cccc_cccd;
const P068: Param = 0x3fe5_c28f_5c28_f5c3;
const P070: Param = 0x3fe6_6666_6666_6666;
const P072: Param = 0x3fe7_0a3d_70a3_d70a;
const P075: Param = 0x3fe8_0000_0000_0000;
const P078: Param = 0x3fe8_f5c2_8f5c_28f6;
const P079: Param = 0x3fe9_47ae_147a_e148;
const P080: Param = 0x3fe9_9999_9999_999a;
const P082: Param = 0x3fea_3d70_a3d7_0a3d;
const P085: Param = 0x3feb_3333_3333_3333;
const P090: Param = 0x3fec_cccc_cccc_cccd;
const P000: Param = 0x0000_0000_0000_0000;

/// One built-in patch, with the copy that makes it findable.
pub struct Preset {
    /// Display name.
    pub name: &'static str,
    /// Which family it belongs to; one of the [`categories`].
    pub category: &'static str,
    /// One line on what it sounds like. Shown in the browser row and its
    /// tooltip — the handbook delivered where the user is already looking.
    pub blurb: &'static str,
    /// The patch.
    pub tree: PatchTree,
}

/// The categories, in display order.
pub open spec fn spec_categories() -> Seq<Seq<char>> {
    seq!["bass"@, "lead"@, "keys"@, "pad"@, "texture"@, "perc"@, "weird"@]
}

/// The categories, in display order.
pub fn categories() -> (r: [&'static str; 7])
    ensures
        forall|i: int| 0 <= i < 7 ==> #[trigger] r@[i]@ == spec_categories()[i],
{
    let r = ["bass", "lead", "keys", "pad", "texture", "perc", "weird"];
    assert(r@ =~= seq!["bass", "lead", "keys", "pad", "texture", "perc", "weird"]);
    r
}

/// An amp envelope.
pub open spec fn spec_amp(attack: Param, decay: Param, sustain: Param, release: Param) -> AmpEnv {
    AmpEnv { attack, decay, sustain, release }
}

/// An amp envelope.
fn amp(attack: Param, decay: Param, sustain: Param, release: Param) -> (r: AmpEnv)
    ensures
        r == spec_amp(attack, decay, sustain, release),
{
    AmpEnv { attack, decay, sustain, release }
}

/// A plain oscillator: no modulation.
pub open spec fn spec_vco(wave: Waveform, octave: i8, detune: Param) -> AudioNode {
    AudioNode::Vco { wave, octave, detune, mod_depth: 0, modulation: ModNode::Empty }
}

/// A plain oscillator: no modulation.
fn vco(wave: Waveform, octave: i8, detune: Param) -> (r: AudioNode)
    ensures
        r == spec_vco(wave, octave, detune),
{
    AudioNode::Vco { wave, octave, detune, mod_depth: P000, modulation: ModNode::Empty }
}

/// The built-in preset library, in category order.
#[verifier::opaque]
pub closed spec fn spec_preset_bank() -> Seq<Preset> {
    seq![
        Preset {
            name: "First Bass",
            category: "bass",
            blurb: "the plain correct one — measure the others against it",
            tree: PatchTree {
                amp: spec_amp(P003, P035, P055, P020),
                root: AudioNode::Filter {
                    kind: FilterKind::Ladder,
                    cutoff: P045,
                    resonance: P055,
                    mod_depth: P060,
                    input: Box::new(spec_vco(Waveform::Saw, -1i8, P050)),
                    modulation: ModNode::Env { attack: P002, decay: P045 },
                },
            },
        },
        Preset {
            name: "Sub & Sparkle",
            category: "bass",
            blurb: "weight underneath, air above, nothing in the middle",
            tree: PatchTree {
                amp: spec_amp(P005, P035, P065, P035),
                root: AudioNode::Mix {
                    balance: P035,
                    a: Box::new(spec_vco(Waveform::Sine, -1i8, P050)),
                    b: Box::new(AudioNode::Filter {
                        kind: FilterKind::SvfHp,
                        cutoff: P070,
                        resonance: P030,
                        mod_depth: P000,
                        input: Box::new(spec_vco(Waveform::Saw, 1i8, P060)),
                        modulation: ModNode::Empty,
                    }),
                },
            },
        },
        Preset {
            name: "Acid Line",
            category: "bass",
            blurb: "a 303 that got out of the cage",
            tree: PatchTree {
                amp: spec_amp(P000, P042, P030, P030),
                root: AudioNode::Filter {
                    kind: FilterKind::Ladder,
                    cutoff: P030,
                    resonance: P080,
                    mod_depth: P065,
                    input: Box::new(spec_vco(Waveform::Saw, -1i8, P052)),
                    modulation: ModNode::Env { attack: P000, decay: P030 },
                },
            },
        },
        Preset {
            name: "Reese",
            category: "bass",
            blurb: "two saws beating against each other, low and wide",
            tree: PatchTree {
                amp: spec_amp(P002, P050, P075, P035),
                root: AudioNode::Filter {
                    kind: FilterKind::SvfLp,
                    cutoff: P045,
                    resonance: P035,
                    mod_depth: P025,
                    input: Box::new(AudioNode::Mix {
                        balance: P050,
                        a: Box::new(spec_vco(Waveform::Saw, -1i8, P030)),
                        b: Box::new(spec_vco(Waveform::Saw, -1i8, P085)),
                    }),
                    modulation: ModNode::Lfo { wave: Waveform::Triangle, rate: P049 },
                },
            },
        },
        Preset {
            name: "Anvil",
            category: "bass",
            blurb: "a square driven into the folder, then hammered flat",
            tree: PatchTree {
                amp: spec_amp(P000, P045, P045, P030),
                root: AudioNode::Filter {
                    kind: FilterKind::Ladder,
                    cutoff: P042,
                    resonance: P035,
                    mod_depth: P000,
                    input: Box::new(AudioNode::Fold {
                        threshold: P035,
                        mod_depth: P040,
                        input: Box::new(spec_vco(Waveform::Square, -1i8, P050)),
                        modulation: ModNode::Env { attack: P000, decay: P0325 },
                    }),
                    modulation: ModNode::Empty,
                },
            },
        },
        Preset {
            name: "Folded Lead",
            category: "lead",
            blurb: "buzzing, metallic, never quite still",
            tree: PatchTree {
                amp: spec_amp(P002, P030, P070, P030),
                root: AudioNode::Fold {
                    threshold: P040,
                    mod_depth: P050,
                    input: Box::new(spec_vco(Waveform::Saw, 0i8, P055)),
                    modulation: ModNode::Lfo { wave: Waveform::Triangle, rate: P060 },
                },
            },
        },
        Preset {
            name: "Hornet",
            category: "lead",
            blurb: "nasal and angry; cuts through anything",
            tree: PatchTree {
                amp: spec_amp(P015, P040, P065, P030),
                root: AudioNode::Filter {
                    kind: FilterKind::SvfBp,
                    cutoff: P062,
                    resonance: P070,
                    mod_depth: P025,
                    input: Box::new(spec_vco(Waveform::Square, 0i8, P050)),
                    modulation: ModNode::Rand { rate: P062, glide: P000 },
                },
            },
        },
        Preset {
            name: "Solo Flight",
            category: "lead",
            blurb: "wide enough to sing, not so wide it stops being one voice",
            tree: PatchTree {
                amp: spec_amp(P030, P045, P078, P045),
                root: AudioNode::Chorus {
                    rate: P030,
                    depth: P035,
                    mix: P030,
                    mod_depth: P000,
                    input: Box::new(AudioNode::Filter {
                        kind: FilterKind::SvfLp,
                        cutoff: P072,
                        resonance: P030,
                        mod_depth: P018,
                        input: Box::new(AudioNode::Supersaw {
                            octave: 0i8,
                            detune: P025,
                            mix: P045,
                            mod_depth: P000,
                            modulation: ModNode::Empty,
                        }),
                        modulation: ModNode::Lfo { wave: Waveform::Sine, rate: P055 },
                    }),
                    modulation: ModNode::Empty,
                },
            },
        },
        Preset {
            name: "Telegraph",
            category: "lead",
            blurb: "every note answers itself once and stops",
            tree: PatchTree {
                amp: spec_amp(P015, P045, P055, P035),
                root: AudioNode::Delay {
                    time: P063,
                    feedback: P040,
                    mix: P032,
                    mod_depth: P000,
                    input: Box::new(AudioNode::Filter {
                        kind: FilterKind::SvfLp,
                        cutoff: P068,
                        resonance: P040,
                        mod_depth: P035,
                        input: Box::new(spec_vco(Waveform::Triangle, 1i8, P050)),
                        modulation: ModNode::Env { attack: P000, decay: P042 },
                    }),
                    modulation: ModNode::Empty,
                },
            },
        },
        Preset {
            name: "Pluck",
            category: "keys",
            blurb: "woody and dry; gone before you lift the key",
            tree: PatchTree {
                amp: spec_amp(P000, P025, P005, P025),
                root: AudioNode::Filter {
                    kind: FilterKind::SvfBp,
                    cutoff: P060,
                    resonance: P045,
                    mod_depth: P050,
                    input: Box::new(spec_vco(Waveform::Triangle, 0i8, P050)),
                    modulation: ModNode::Env { attack: P000, decay: P025 },
                },
            },
        },
        Preset {
            name: "Bell Jar",
            category: "keys",
            blurb: "struck glass, heard from across the room",
            tree: PatchTree {
                amp: spec_amp(P000, P055, P000, P070),
                root: AudioNode::Reverb {
                    size: P070,
                    damp: P030,
                    mix: P040,
                    mod_depth: P000,
                    input: Box::new(AudioNode::Fold {
                        threshold: P055,
                        mod_depth: P035,
                        input: Box::new(spec_vco(Waveform::Sine, 1i8, P050)),
                        modulation: ModNode::Env { attack: P000, decay: P035 },
                    }),
                    modulation: ModNode::Empty,
                },
            },
        },
        Preset {
            name: "Tine",
            category: "keys",
            blurb: "electric-piano-shaped, without pretending to be one",
            tree: PatchTree {
                amp: spec_amp(P000, P060, P025, P050),
                root: AudioNode::Chorus {
                    rate: P020,
                    depth: P030,
                    mix: P030,
                    mod_depth: P000,
                    input: Box::new(AudioNode::Mix {
                        balance: P030,
                        a: Box::new(spec_vco(Waveform::Sine, 0i8, P050)),
                        b: Box::new(AudioNode::Filter {
                            kind: FilterKind::SvfHp,
                            cutoff: P078,
                            resonance: P020,
                            mod_depth: P000,
                            input: Box::new(spec_vco(Waveform::Triangle, 2i8, P050)),
                            modulation: ModNode::Empty,
                        }),
                    }),
                    modulation: ModNode::Empty,
                },
            },
        },
        Preset {
            name: "Coin Toss",
            category: "keys",
            blurb: "a resonant burble that never settles",
            tree: PatchTree {
                amp: spec_amp(P000, P042, P000, P035),
                root: AudioNode::Filter {
                    kind: FilterKind::Ladder,
                    cutoff: P055,
                    resonance: P060,
                    mod_depth: P030,
                    input: Box::new(spec_vco(Waveform::Saw, 0i8, P050)),
                    modulation: ModNode::Rand { rate: P075, glide: P000 },
                },
            },
        },
        Preset {
            name: "Cathedral",
            category: "pad",
            blurb: "slow, sacred and wide",
            tree: PatchTree {
                amp: spec_amp(P075, P040, P075, P070),
                root: AudioNode::Reverb {
                    size: P085,
                    damp: P035,
                    mix: P050,
                    mod_depth: P000,
                    input: Box::new(AudioNode::Filter {
                        kind: FilterKind::SvfLp,
                        cutoff: P055,
                        resonance: P025,
                        mod_depth: P030,
                        input: Box::new(spec_vco(Waveform::Triangle, 0i8, P055)),
                        modulation: ModNode::Rand { rate: P045, glide: P000 },
                    }),
                    modulation: ModNode::Empty,
                },
            },
        },
        Preset {
            name: "Glass Pad",
            category: "pad",
            blurb: "bright, transparent, faintly fragile",
            tree: PatchTree {
                amp: spec_amp(P055, P040, P080, P065),
                root: AudioNode::Chorus {
                    rate: P025,
                    depth: P050,
                    mix: P045,
                    mod_depth: P000,
                    input: Box::new(AudioNode::Filter {
                        kind: FilterKind::SvfLp,
                        cutoff: P065,
                        resonance: P020,
                        mod_depth: P025,
                        input: Box::new(AudioNode::Supersaw {
                            octave: 0i8,
                            detune: P040,
                            mix: P060,
                            mod_depth: P000,
                            modulation: ModNode::Empty,
                        }),
                        modulation: ModNode::Lfo { wave: Waveform::Sine, rate: P049 },
                    }),
                    modulation: ModNode::Empty,
                },
            },
        },
        Preset {
            name: "Detune Dream",
            category: "pad",
            blurb: "a wide smear that drifts off the end of the note",
            tree: PatchTree {
                amp: spec_amp(P035, P040, P075, P055),
                root: AudioNode::Delay {
                    time: P072,
                    feedback: P045,
                    mix: P035,
                    mod_depth: P000,
                    input: Box::new(AudioNode::Chorus {
                        rate: P030,
                        depth: P055,
                        mix: P040,
                        mod_depth: P000,
                        input: Box::new(AudioNode::Supersaw {
                            octave: 0i8,
                            detune: P055,
                            mix: P050,
                            mod_depth: P000,
                            modulation: ModNode::Empty,
                        }),
                        modulation: ModNode::Empty,
                    }),
                    modulation: ModNode::Empty,
                },
            },
        },
        Preset {
            name: "Ember",
            category: "pad",
            blurb: "a pad that glows rather than shines",
            tree: PatchTree {
                amp: spec_amp(P075, P055, P080, P085),
                root: AudioNode::Reverb {
                    size: P075,
                    damp: P055,
                    mix: P045,
                    mod_depth: P000,
                    input: Box::new(AudioNode::Filter {
                        kind: FilterKind::SvfLp,
                        cutoff: P042,
                        resonance: P025,
                        mod_depth: P025,
                        input: Box::new(AudioNode::Mix {
                            balance: P040,
                            a: Box::new(spec_vco(Waveform::Sine, -1i8, P050)),
                            b: Box::new(AudioNode::Noise {
                                color: NoiseColor::Pink,
                            }),
                        }),
                        modulation: ModNode::Lfo { wave: Waveform::Sine, rate: P045 },
                    }),
                    modulation: ModNode::Empty,
                },
            },
        },
        Preset {
            name: "Slow Weather",
            category: "pad",
            blurb: "never sits in the same place twice",
            tree: PatchTree {
                amp: spec_amp(P079, P050, P085, P080),
                root: AudioNode::Reverb {
                    size: P065,
                    damp: P040,
                    mix: P035,
                    mod_depth: P000,
                    input: Box::new(AudioNode::Filter {
                        kind: FilterKind::SvfBp,
                        cutoff: P050,
                        resonance: P045,
                        mod_depth: P050,
                        input: Box::new(AudioNode::Supersaw {
                            octave: 0i8,
                            detune: P060,
                            mix: P055,
                            mod_depth: P000,
                            modulation: ModNode::Empty,
                        }),
                        modulation: ModNode::Lfo { wave: Waveform::Triangle, rate: P040 },
                    }),
                    modulation: ModNode::Empty,
                },
            },
        },
        Preset {
            name: "Noise Wash",
            category: "texture",
            blurb: "coastal fog with a pitch somewhere inside it",
            tree: PatchTree {
                amp: spec_amp(P070, P050, P075, P080),
                root: AudioNode::Filter {
                    kind: FilterKind::SvfLp,
                    cutoff: P045,
                    resonance: P050,
                    mod_depth: P050,
                    input: Box::new(AudioNode::Noise {
                        color: NoiseColor::Pink,
                    }),
                    modulation: ModNode::Lfo { wave: Waveform::Sine, rate: P044 },
                },
            },
        },
        Preset {
            name: "Dub Echo",
            category: "texture",
            blurb: "the mixing desk is the instrument",
            tree: PatchTree {
                amp: spec_amp(P002, P030, P050, P040),
                root: AudioNode::Delay {
                    time: P079,
                    feedback: P075,
                    mix: P050,
                    mod_depth: P000,
                    input: Box::new(AudioNode::Filter {
                        kind: FilterKind::SvfLp,
                        cutoff: P050,
                        resonance: P035,
                        mod_depth: P000,
                        input: Box::new(spec_vco(Waveform::Square, 0i8, P050)),
                        modulation: ModNode::Empty,
                    }),
                    modulation: ModNode::Empty,
                },
            },
        },
        Preset {
            name: "Static Ocean",
            category: "texture",
            blurb: "surf heard from a headland",
            tree: PatchTree {
                amp: spec_amp(P085, P050, P085, P090),
                root: AudioNode::Reverb {
                    size: P090,
                    damp: P060,
                    mix: P055,
                    mod_depth: P000,
                    input: Box::new(AudioNode::Filter {
                        kind: FilterKind::SvfBp,
                        cutoff: P055,
                        resonance: P065,
                        mod_depth: P055,
                        input: Box::new(AudioNode::Noise {
                            color: NoiseColor::White,
                        }),
                        modulation: ModNode::Lfo { wave: Waveform::Sine, rate: P042 },
                    }),
                    modulation: ModNode::Empty,
                },
            },
        },
        Preset {
            name: "Rotor",
            category: "texture",
            blurb: "a machine idling in the next room",
            tree: PatchTree {
                amp: spec_amp(P065, P050, P090, P060),
                root: AudioNode::Chorus {
                    rate: P045,
                    depth: P060,
                    mix: P050,
                    mod_depth: P000,
                    input: Box::new(AudioNode::Filter {
                        kind: FilterKind::SvfLp,
                        cutoff: P042,
                        resonance: P040,
                        mod_depth: P040,
                        input: Box::new(spec_vco(Waveform::Square, -1i8, P050)),
                        modulation: ModNode::Rand { rate: P058, glide: P000 },
                    }),
                    modulation: ModNode::Empty,
                },
            },
        },
        Preset {
            name: "Long Room",
            category: "texture",
            blurb: "a drone that builds itself while you hold the key",
            tree: PatchTree {
                amp: spec_amp(P070, P050, P085, P090),
                root: AudioNode::Reverb {
                    size: P080,
                    damp: P045,
                    mix: P040,
                    mod_depth: P000,
                    input: Box::new(AudioNode::Delay {
                        time: P082,
                        feedback: P062,
                        mix: P045,
                        mod_depth: P000,
                        input: Box::new(AudioNode::Filter {
                            kind: FilterKind::SvfLp,
                            cutoff: P045,
                            resonance: P030,
                            mod_depth: P022,
                            input: Box::new(spec_vco(Waveform::Sine, -1i8, P050)),
                            modulation: ModNode::Lfo { wave: Waveform::Triangle, rate: P042 },
                        }),
                        modulation: ModNode::Empty,
                    }),
                    modulation: ModNode::Empty,
                },
            },
        },
        Preset {
            name: "Flint",
            category: "perc",
            blurb: "a struck spark",
            tree: PatchTree {
                amp: spec_amp(P000, P035, P000, P025),
                root: AudioNode::Filter {
                    kind: FilterKind::SvfHp,
                    cutoff: P072,
                    resonance: P055,
                    mod_depth: P030,
                    input: Box::new(AudioNode::Noise {
                        color: NoiseColor::White,
                    }),
                    modulation: ModNode::Env { attack: P000, decay: P020 },
                },
            },
        },
        Preset {
            name: "Deadfall",
            category: "perc",
            blurb: "a tuned drum with the room taken out",
            tree: PatchTree {
                amp: spec_amp(P000, P045, P000, P030),
                root: AudioNode::Filter {
                    kind: FilterKind::Ladder,
                    cutoff: P050,
                    resonance: P030,
                    mod_depth: P055,
                    input: Box::new(spec_vco(Waveform::Sine, -2i8, P050)),
                    modulation: ModNode::Env { attack: P000, decay: P020 },
                },
            },
        },
        Preset {
            name: "Ricochet",
            category: "perc",
            blurb: "a metallic ping bouncing down a corridor",
            tree: PatchTree {
                amp: spec_amp(P000, P040, P000, P025),
                root: AudioNode::Delay {
                    time: P054,
                    feedback: P068,
                    mix: P055,
                    mod_depth: P000,
                    input: Box::new(AudioNode::Filter {
                        kind: FilterKind::SvfBp,
                        cutoff: P070,
                        resonance: P065,
                        mod_depth: P025,
                        input: Box::new(spec_vco(Waveform::Square, 1i8, P050)),
                        modulation: ModNode::Env { attack: P000, decay: P015 },
                    }),
                    modulation: ModNode::Empty,
                },
            },
        },
        Preset {
            name: "Sour Mash",
            category: "weird",
            blurb: "pure character, no manners, and no filter at all",
            tree: PatchTree {
                amp: spec_amp(P020, P045, P070, P035),
                root: AudioNode::Fold {
                    threshold: P030,
                    mod_depth: P060,
                    input: Box::new(AudioNode::Mix {
                        balance: P045,
                        a: Box::new(spec_vco(Waveform::Saw, 0i8, P050)),
                        b: Box::new(spec_vco(Waveform::Square, -1i8, P050)),
                    }),
                    modulation: ModNode::Lfo { wave: Waveform::Square, rate: P060 },
                },
            },
        },
        Preset {
            name: "Wrong Number",
            category: "weird",
            blurb: "a narrow resonant peak, hunting for a pitch",
            tree: PatchTree {
                amp: spec_amp(P015, P050, P060, P035),
                root: AudioNode::Filter {
                    kind: FilterKind::SvfBp,
                    cutoff: P045,
                    resonance: P082,
                    mod_depth: P070,
                    input: Box::new(spec_vco(Waveform::Triangle, 0i8, P050)),
                    modulation: ModNode::Rand { rate: P080, glide: P000 },
                },
            },
        },
        Preset {
            name: "Inside Out",
            category: "weird",
            blurb: "the note arrives some time after the transient does",
            tree: PatchTree {
                amp: spec_amp(P060, P050, P070, P045),
                root: AudioNode::Chorus {
                    rate: P035,
                    depth: P070,
                    mix: P060,
                    mod_depth: P000,
                    input: Box::new(AudioNode::Filter {
                        kind: FilterKind::SvfHp,
                        cutoff: P080,
                        resonance: P045,
                        mod_depth: P065,
                        input: Box::new(AudioNode::Mix {
                            balance: P055,
                            a: Box::new(spec_vco(Waveform::Saw, -1i8, P050)),
                            b: Box::new(spec_vco(Waveform::Square, 1i8, P050)),
                        }),
                        modulation: ModNode::Env { attack: P060, decay: P065 },
                    }),
                    modulation: ModNode::Empty,
                },
            },
        },
    ]
}

/// The built-in preset library, in category order.
#[verifier::rlimit(60)]
pub fn preset_bank() -> (r: Vec<Preset>)
    ensures
        r@ == spec_preset_bank(),
{
    let r = vec![
        Preset {
            name: "First Bass",
            category: "bass",
            blurb: "the plain correct one — measure the others against it",
            tree: PatchTree {
                amp: amp(P003, P035, P055, P020),
                root: AudioNode::Filter {
                    kind: FilterKind::Ladder,
                    cutoff: P045,
                    resonance: P055,
                    mod_depth: P060,
                    input: Box::new(vco(Waveform::Saw, -1i8, P050)),
                    modulation: ModNode::Env { attack: P002, decay: P045 },
                },
            },
        },
        Preset {
            name: "Sub & Sparkle",
            category: "bass",
            blurb: "weight underneath, air above, nothing in the middle",
            tree: PatchTree {
                amp: amp(P005, P035, P065, P035),
                root: AudioNode::Mix {
                    balance: P035,
                    a: Box::new(vco(Waveform::Sine, -1i8, P050)),
                    b: Box::new(AudioNode::Filter {
                        kind: FilterKind::SvfHp,
                        cutoff: P070,
                        resonance: P030,
                        mod_depth: P000,
                        input: Box::new(vco(Waveform::Saw, 1i8, P060)),
                        modulation: ModNode::Empty,
                    }),
                },
            },
        },
        Preset {
            name: "Acid Line",
            category: "bass",
            blurb: "a 303 that got out of the cage",
            tree: PatchTree {
                amp: amp(P000, P042, P030, P030),
                root: AudioNode::Filter {
                    kind: FilterKind::Ladder,
                    cutoff: P030,
                    resonance: P080,
                    mod_depth: P065,
                    input: Box::new(vco(Waveform::Saw, -1i8, P052)),
                    modulation: ModNode::Env { attack: P000, decay: P030 },
                },
            },
        },
        Preset {
            name: "Reese",
            category: "bass",
            blurb: "two saws beating against each other, low and wide",
            tree: PatchTree {
                amp: amp(P002, P050, P075, P035),
                root: AudioNode::Filter {
                    kind: FilterKind::SvfLp,
                    cutoff: P045,
                    resonance: P035,
                    mod_depth: P025,
                    input: Box::new(AudioNode::Mix {
                        balance: P050,
                        a: Box::new(vco(Waveform::Saw, -1i8, P030)),
                        b: Box::new(vco(Waveform::Saw, -1i8, P085)),
                    }),
                    modulation: ModNode::Lfo { wave: Waveform::Triangle, rate: P049 },
                },
            },
        },
        Preset {
            name: "Anvil",
            category: "bass",
            blurb: "a square driven into the folder, then hammered flat",
            tree: PatchTree {
                amp: amp(P000, P045, P045, P030),
                root: AudioNode::Filter {
                    kind: FilterKind::Ladder,
                    cutoff: P042,
                    resonance: P035,
                    mod_depth: P000,
                    input: Box::new(AudioNode::Fold {
                        threshold: P035,
                        mod_depth: P040,
                        input: Box::new(vco(Waveform::Square, -1i8, P050)),
                        modulation: ModNode::Env { attack: P000, decay: P0325 },
                    }),
                    modulation: ModNode::Empty,
                },
            },
        },
        Preset {
            name: "Folded Lead",
            category: "lead",
            blurb: "buzzing, metallic, never quite still",
            tree: PatchTree {
                amp: amp(P002, P030, P070, P030),
                root: AudioNode::Fold {
                    threshold: P040,
                    mod_depth: P050,
                    input: Box::new(vco(Waveform::Saw, 0i8, P055)),
                    modulation: ModNode::Lfo { wave: Waveform::Triangle, rate: P060 },
                },
            },
        },
        Preset {
            name: "Hornet",
            category: "lead",
            blurb: "nasal and angry; cuts through anything",
            tree: PatchTree {
                amp: amp(P015, P040, P065, P030),
                root: AudioNode::Filter {
                    kind: FilterKind::SvfBp,
                    cutoff: P062,
                    resonance: P070,
                    mod_depth: P025,
                    input: Box::new(vco(Waveform::Square, 0i8, P050)),
                    modulation: ModNode::Rand { rate: P062, glide: P000 },
                },
            },
        },
        Preset {
            name: "Solo Flight",
            category: "lead",
            blurb: "wide enough to sing, not so wide it stops being one voice",
            tree: PatchTree {
                amp: amp(P030, P045, P078, P045),
                root: AudioNode::Chorus {
                    rate: P030,
                    depth: P035,
                    mix: P030,
                    mod_depth: P000,
                    input: Box::new(AudioNode::Filter {
                        kind: FilterKind::SvfLp,
                        cutoff: P072,
                        resonance: P030,
                        mod_depth: P018,
                        input: Box::new(AudioNode::Supersaw {
                            octave: 0i8,
                            detune: P025,
                            mix: P045,
                            mod_depth: P000,
                            modulation: ModNode::Empty,
                        }),
                        modulation: ModNode::Lfo { wave: Waveform::Sine, rate: P055 },
                    }),
                    modulation: ModNode::Empty,
                },
            },
        },
        Preset {
            name: "Telegraph",
            category: "lead",
            blurb: "every note answers itself once and stops",
            tree: PatchTree {
                amp: amp(P015, P045, P055, P035),
                root: AudioNode::Delay {
                    time: P063,
                    feedback: P040,
                    mix: P032,
                    mod_depth: P000,
                    input: Box::new(AudioNode::Filter {
                        kind: FilterKind::SvfLp,
                        cutoff: P068,
                        resonance: P040,
                        mod_depth: P035,
                        input: Box::new(vco(Waveform::Triangle, 1i8, P050)),
                        modulation: ModNode::Env { attack: P000, decay: P042 },
                    }),
                    modulation: ModNode::Empty,
                },
            },
        },
        Preset {
            name: "Pluck",
            category: "keys",
            blurb: "woody and dry; gone before you lift the key",
            tree: PatchTree {
                amp: amp(P000, P025, P005, P025),
                root: AudioNode::Filter {
                    kind: FilterKind::SvfBp,
                    cutoff: P060,
                    resonance: P045,
                    mod_depth: P050,
                    input: Box::new(vco(Waveform::Triangle, 0i8, P050)),
                    modulation: ModNode::Env { attack: P000, decay: P025 },
                },
            },
        },
        Preset {
            name: "Bell Jar",
            category: "keys",
            blurb: "struck glass, heard from across the room",
            tree: PatchTree {
                amp: amp(P000, P055, P000, P070),
                root: AudioNode::Reverb {
                    size: P070,
                    damp: P030,
                    mix: P040,
                    mod_depth: P000,
                    input: Box::new(AudioNode::Fold {
                        threshold: P055,
                        mod_depth: P035,
                        input: Box::new(vco(Waveform::Sine, 1i8, P050)),
                        modulation: ModNode::Env { attack: P000, decay: P035 },
                    }),
                    modulation: ModNode::Empty,
                },
            },
        },
        Preset {
            name: "Tine",
            category: "keys",
            blurb: "electric-piano-shaped, without pretending to be one",
            tree: PatchTree {
                amp: amp(P000, P060, P025, P050),
                root: AudioNode::Chorus {
                    rate: P020,
                    depth: P030,
                    mix: P030,
                    mod_depth: P000,
                    input: Box::new(AudioNode::Mix {
                        balance: P030,
                        a: Box::new(vco(Waveform::Sine, 0i8, P050)),
                        b: Box::new(AudioNode::Filter {
                            kind: FilterKind::SvfHp,
                            cutoff: P078,
                            resonance: P020,
                            mod_depth: P000,
                            input: Box::new(vco(Waveform::Triangle, 2i8, P050)),
                            modulation: ModNode::Empty,
                        }),
                    }),
                    modulation: ModNode::Empty,
                },
            },
        },
        Preset {
            name: "Coin Toss",
            category: "keys",
            blurb: "a resonant burble that never settles",
            tree: PatchTree {
                amp: amp(P000, P042, P000, P035),
                root: AudioNode::Filter {
                    kind: FilterKind::Ladder,
                    cutoff: P055,
                    resonance: P060,
                    mod_depth: P030,
                    input: Box::new(vco(Waveform::Saw, 0i8, P050)),
                    modulation: ModNode::Rand { rate: P075, glide: P000 },
                },
            },
        },
        Preset {
            name: "Cathedral",
            category: "pad",
            blurb: "slow, sacred and wide",
            tree: PatchTree {
                amp: amp(P075, P040, P075, P070),
                root: AudioNode::Reverb {
                    size: P085,
                    damp: P035,
                    mix: P050,
                    mod_depth: P000,
                    input: Box::new(AudioNode::Filter {
                        kind: FilterKind::SvfLp,
                        cutoff: P055,
                        resonance: P025,
                        mod_depth: P030,
                        input: Box::new(vco(Waveform::Triangle, 0i8, P055)),
                        modulation: ModNode::Rand { rate: P045, glide: P000 },
                    }),
                    modulation: ModNode::Empty,
                },
            },
        },
        Preset {
            name: "Glass Pad",
            category: "pad",
            blurb: "bright, transparent, faintly fragile",
            tree: PatchTree {
                amp: amp(P055, P040, P080, P065),
                root: AudioNode::Chorus {
                    rate: P025,
                    depth: P050,
                    mix: P045,
                    mod_depth: P000,
                    input: Box::new(AudioNode::Filter {
                        kind: FilterKind::SvfLp,
                        cutoff: P065,
                        resonance: P020,
                        mod_depth: P025,
                        input: Box::new(AudioNode::Supersaw {
                            octave: 0i8,
                            detune: P040,
                            mix: P060,
                            mod_depth: P000,
                            modulation: ModNode::Empty,
                        }),
                        modulation: ModNode::Lfo { wave: Waveform::Sine, rate: P049 },
                    }),
                    modulation: ModNode::Empty,
                },
            },
        },
        Preset {
            name: "Detune Dream",
            category: "pad",
            blurb: "a wide smear that drifts off the end of the note",
            tree: PatchTree {
                amp: amp(P035, P040, P075, P055),
                root: AudioNode::Delay {
                    time: P072,
                    feedback: P045,
                    mix: P035,
                    mod_depth: P000,
                    input: Box::new(AudioNode::Chorus {
                        rate: P030,
                        depth: P055,
                        mix: P040,
                        mod_depth: P000,
                        input: Box::new(AudioNode::Supersaw {
                            octave: 0i8,
                            detune: P055,
                            mix: P050,
                            mod_depth: P000,
                            modulation: ModNode::Empty,
                        }),
                        modulation: ModNode::Empty,
                    }),
                    modulation: ModNode::Empty,
                },
            },
        },
        Preset {
            name: "Ember",
            category: "pad",
            blurb: "a pad that glows rather than shines",
            tree: PatchTree {
                amp: amp(P075, P055, P080, P085),
                root: AudioNode::Reverb {
                    size: P075,
                    damp: P055,
                    mix: P045,
                    mod_depth: P000,
                    input: Box::new(AudioNode::Filter {
                        kind: FilterKind::SvfLp,
                        cutoff: P042,
                        resonance: P025,
                        mod_depth: P025,
                        input: Box::new(AudioNode::Mix {
                            balance: P040,
                            a: Box::new(vco(Waveform::Sine, -1i8, P050)),
                            b: Box::new(AudioNode::Noise {
                                color: NoiseColor::Pink,
                            }),
                        }),
                        modulation: ModNode::Lfo { wave: Waveform::Sine, rate: P045 },
                    }),
                    modulation: ModNode::Empty,
                },
            },
        },
        Preset {
            name: "Slow Weather",
            category: "pad",
            blurb: "never sits in the same place twice",
            tree: PatchTree {
                amp: amp(P079, P050, P085, P080),
                root: AudioNode::Reverb {
                    size: P065,
                    damp: P040,
                    mix: P035,
                    mod_depth: P000,
                    input: Box::new(AudioNode::Filter {
                        kind: FilterKind::SvfBp,
                        cutoff: P050,
                        resonance: P045,
                        mod_depth: P050,
                        input: Box::new(AudioNode::Supersaw {
                            octave: 0i8,
                            detune: P060,
                            mix: P055,
                            mod_depth: P000,
                            modulation: ModNode::Empty,
                        }),
                        modulation: ModNode::Lfo { wave: Waveform::Triangle, rate: P040 },
                    }),
                    modulation: ModNode::Empty,
                },
            },
        },
        Preset {
            name: "Noise Wash",
            category: "texture",
            blurb: "coastal fog with a pitch somewhere inside it",
            tree: PatchTree {
                amp: amp(P070, P050, P075, P080),
                root: AudioNode::Filter {
                    kind: FilterKind::SvfLp,
                    cutoff: P045,
                    resonance: P050,
                    mod_depth: P050,
                    input: Box::new(AudioNode::Noise {
                        color: NoiseColor::Pink,
                    }),
                    modulation: ModNode::Lfo { wave: Waveform::Sine, rate: P044 },
                },
            },
        },
        Preset {
            name: "Dub Echo",
            category: "texture",
            blurb: "the mixing desk is the instrument",
            tree: PatchTree {
                amp: amp(P002, P030, P050, P040),
                root: AudioNode::Delay {
                    time: P079,
                    feedback: P075,
                    mix: P050,
                    mod_depth: P000,
                    input: Box::new(AudioNode::Filter {
                        kind: FilterKind::SvfLp,
                        cutoff: P050,
                        resonance: P035,
                        mod_depth: P000,
                        input: Box::new(vco(Waveform::Square, 0i8, P050)),
                        modulation: ModNode::Empty,
                    }),
                    modulation: ModNode::Empty,
                },
            },
        },
        Preset {
            name: "Static Ocean",
            category: "texture",
            blurb: "surf heard from a headland",
            tree: PatchTree {
                amp: amp(P085, P050, P085, P090),
                root: AudioNode::Reverb {
                    size: P090,
                    damp: P060,
                    mix: P055,
                    mod_depth: P000,
                    input: Box::new(AudioNode::Filter {
                        kind: FilterKind::SvfBp,
                        cutoff: P055,
                        resonance: P065,
                        mod_depth: P055,
                        input: Box::new(AudioNode::Noise {
                            color: NoiseColor::White,
                        }),
                        modulation: ModNode::Lfo { wave: Waveform::Sine, rate: P042 },
                    }),
                    modulation: ModNode::Empty,
                },
            },
        },
        Preset {
            name: "Rotor",
            category: "texture",
            blurb: "a machine idling in the next room",
            tree: PatchTree {
                amp: amp(P065, P050, P090, P060),
                root: AudioNode::Chorus {
                    rate: P045,
                    depth: P060,
                    mix: P050,
                    mod_depth: P000,
                    input: Box::new(AudioNode::Filter {
                        kind: FilterKind::SvfLp,
                        cutoff: P042,
                        resonance: P040,
                        mod_depth: P040,
                        input: Box::new(vco(Waveform::Square, -1i8, P050)),
                        modulation: ModNode::Rand { rate: P058, glide: P000 },
                    }),
                    modulation: ModNode::Empty,
                },
            },
        },
        Preset {
            name: "Long Room",
            category: "texture",
            blurb: "a drone that builds itself while you hold the key",
            tree: PatchTree {
                amp: amp(P070, P050, P085, P090),
                root: AudioNode::Reverb {
                    size: P080,
                    damp: P045,
                    mix: P040,
                    mod_depth: P000,
                    input: Box::new(AudioNode::Delay {
                        time: P082,
                        feedback: P062,
                        mix: P045,
                        mod_depth: P000,
                        input: Box::new(AudioNode::Filter {
                            kind: FilterKind::SvfLp,
                            cutoff: P045,
                            resonance: P030,
                            mod_depth: P022,
                            input: Box::new(vco(Waveform::Sine, -1i8, P050)),
                            modulation: ModNode::Lfo { wave: Waveform::Triangle, rate: P042 },
                        }),
                        modulation: ModNode::Empty,
                    }),
                    modulation: ModNode::Empty,
                },
            },
        },
        Preset {
            name: "Flint",
            category: "perc",
            blurb: "a struck spark",
            tree: PatchTree {
                amp: amp(P000, P035, P000, P025),
                root: AudioNode::Filter {
                    kind: FilterKind::SvfHp,
                    cutoff: P072,
                    resonance: P055,
                    mod_depth: P030,
                    input: Box::new(AudioNode::Noise {
                        color: NoiseColor::White,
                    }),
                    modulation: ModNode::Env { attack: P000, decay: P020 },
                },
            },
        },
        Preset {
            name: "Deadfall",
            category: "perc",
            blurb: "a tuned drum with the room taken out",
            tree: PatchTree {
                amp: amp(P000, P045, P000, P030),
                root: AudioNode::Filter {
                    kind: FilterKind::Ladder,
                    cutoff: P050,
                    resonance: P030,
                    mod_depth: P055,
                    input: Box::new(vco(Waveform::Sine, -2i8, P050)),
                    modulation: ModNode::Env { attack: P000, decay: P020 },
                },
            },
        },
        Preset {
            name: "Ricochet",
            category: "perc",
            blurb: "a metallic ping bouncing down a corridor",
            tree: PatchTree {
                amp: amp(P000, P040, P000, P025),
                root: AudioNode::Delay {
                    time: P054,
                    feedback: P068,
                    mix: P055,
                    mod_depth: P000,
                    input: Box::new(AudioNode::Filter {
                        kind: FilterKind::SvfBp,
                        cutoff: P070,
                        resonance: P065,
                        mod_depth: P025,
                        input: Box::new(vco(Waveform::Square, 1i8, P050)),
                        modulation: ModNode::Env { attack: P000, decay: P015 },
                    }),
                    modulation: ModNode::Empty,
                },
            },
        },
        Preset {
            name: "Sour Mash",
            category: "weird",
            blurb: "pure character, no manners, and no filter at all",
            tree: PatchTree {
                amp: amp(P020, P045, P070, P035),
                root: AudioNode::Fold {
                    threshold: P030,
                    mod_depth: P060,
                    input: Box::new(AudioNode::Mix {
                        balance: P045,
                        a: Box::new(vco(Waveform::Saw, 0i8, P050)),
                        b: Box::new(vco(Waveform::Square, -1i8, P050)),
                    }),
                    modulation: ModNode::Lfo { wave: Waveform::Square, rate: P060 },
                },
            },
        },
        Preset {
            name: "Wrong Number",
            category: "weird",
            blurb: "a narrow resonant peak, hunting for a pitch",
            tree: PatchTree {
                amp: amp(P015, P050, P060, P035),
                root: AudioNode::Filter {
                    kind: FilterKind::SvfBp,
                    cutoff: P045,
                    resonance: P082,
                    mod_depth: P070,
                    input: Box::new(vco(Waveform::Triangle, 0i8, P050)),
                    modulation: ModNode::Rand { rate: P080, glide: P000 },
                },
            },
        },
        Preset {
            name: "Inside Out",
            category: "weird",
            blurb: "the note arrives some time after the transient does",
            tree: PatchTree {
                amp: amp(P060, P050, P070, P045),
                root: AudioNode::Chorus {
                    rate: P035,
                    depth: P070,
                    mix: P060,
                    mod_depth: P000,
                    input: Box::new(AudioNode::Filter {
                        kind: FilterKind::SvfHp,
                        cutoff: P080,
                        resonance: P045,
                        mod_depth: P065,
                        input: Box::new(AudioNode::Mix {
                            balance: P055,
                            a: Box::new(vco(Waveform::Saw, -1i8, P050)),
                            b: Box::new(vco(Waveform::Square, 1i8, P050)),
                        }),
                        modulation: ModNode::Env { attack: P060, decay: P065 },
                    }),
                    modulation: ModNode::Empty,
                },
            },
        },
    ];
    proof {
        reveal(spec_preset_bank);
    }
    assert(r@ =~= spec_preset_bank());
    r
}

/// The built-in presets, as `(name, tree)` pairs.
pub fn presets() -> (r: Vec<(&'static str, PatchTree)>)
    ensures
        r@.len() == spec_preset_bank().len(),
        forall|i: int|
            0 <= i < r@.len() ==> (#[trigger] r@[i]).0 == spec_preset_bank()[i].name && r@[i].1
                == spec_preset_bank()[i].tree,
{
    let bank = preset_bank();
    let mut r: Vec<(&'static str, PatchTree)> = Vec::new();
    let mut i: usize = 0;
    while i < bank.len()
        invariant
            bank@ == spec_preset_bank(),
            i <= bank@.len(),
            r@.len() == i,
            forall|k: int|
                0 <= k < i ==> (#[trigger] r@[k]).0 == spec_preset_bank()[k].name && r@[k].1
                    == spec_preset_bank()[k].tree,
        decreases bank@.len() - i,
    {
        r.push((bank[i].name, bank[i].tree.clone()));
        i = i + 1;
    }
    r
}


/// What the library says of each preset's name, category and copy.
proof fn lemma_bank_text()
    ensures
        spec_preset_bank().len() == 29,
        spec_preset_bank()[0].name@ == "First Bass"@,
        spec_preset_bank()[0].category@ == "bass"@,
        spec_preset_bank()[0].blurb@.len() > 0,
        spec_preset_bank()[1].name@ == "Sub & Sparkle"@,
        spec_preset_bank()[1].category@ == "bass"@,
        spec_preset_bank()[1].blurb@.len() > 0,
        spec_preset_bank()[2].name@ == "Acid Line"@,
        spec_preset_bank()[2].category@ == "bass"@,
        spec_preset_bank()[2].blurb@.len() > 0,
        spec_preset_bank()[3].name@ == "Reese"@,
        spec_preset_bank()[3].category@ == "bass"@,
        spec_preset_bank()[3].blurb@.len() > 0,
        spec_preset_bank()[4].name@ == "Anvil"@,
        spec_preset_bank()[4].category@ == "bass"@,
        spec_preset_bank()[4].blurb@.len() > 0,
        spec_preset_bank()[5].name@ == "Folded Lead"@,
        spec_preset_bank()[5].category@ == "lead"@,
        spec_preset_bank()[5].blurb@.len() > 0,
        spec_preset_bank()[6].name@ == "Hornet"@,
        spec_preset_bank()[6].category@ == "lead"@,
        spec_preset_bank()[6].blurb@.len() > 0,
        spec_preset_bank()[7].name@ == "Solo Flight"@,
        spec_preset_bank()[7].category@ == "lead"@,
        spec_preset_bank()[7].blurb@.len() > 0,
        spec_preset_bank()[8].name@ == "Telegraph"@,
        spec_preset_bank()[8].category@ == "lead"@,
        spec_preset_bank()[8].blurb@.len() > 0,
        spec_preset_bank()[9].name@ == "Pluck"@,
        spec_preset_bank()[9].category@ == "keys"@,
        spec_preset_bank()[9].blurb@.len() > 0,
        spec_preset_bank()[10].name@ == "Bell Jar"@,
        spec_preset_bank()[10].category@ == "keys"@,
        spec_preset_bank()[10].blurb@.len() > 0,
        spec_preset_bank()[11].name@ == "Tine"@,
        spec_preset_bank()[11].category@ == "keys"@,
        spec_preset_bank()[11].blurb@.len() > 0,
        spec_preset_bank()[12].name@ == "Coin Toss"@,
        spec_preset_bank()[12].category@ == "keys"@,
        spec_preset_bank()[12].blurb@.len() > 0,
        spec_preset_bank()[13].name@ == "Cathedral"@,
        spec_preset_bank()[13].category@ == "pad"@,
        spec_preset_bank()[13].blurb@.len() > 0,
        spec_preset_bank()[14].name@ == "Glass Pad"@,
        spec_preset_bank()[14].category@ == "pad"@,
        spec_preset_bank()[14].blurb@.len() > 0,
        spec_preset_bank()[15].name@ == "Detune Dream"@,
        spec_preset_bank()[15].category@ == "pad"@,
        spec_preset_bank()[15].blurb@.len() > 0,
        spec_preset_bank()[16].name@ == "Ember"@,
        spec_preset_bank()[16].category@ == "pad"@,
        spec_preset_bank()[16].blurb@.len() > 0,
        spec_preset_bank()[17].name@ == "Slow Weather"@,
        spec_preset_bank()[17].category@ == "pad"@,
        spec_preset_bank()[17].blurb@.len() > 0,
        spec_preset_bank()[18].name@ == "Noise Wash"@,
        spec_preset_bank()[18].category@ == "texture"@,
        spec_preset_bank()[18].blurb@.len() > 0,
        spec_preset_bank()[19].name@ == "Dub Echo"@,
        spec_preset_bank()[19].category@ == "texture"@,
        spec_preset_bank()[19].blurb@.len() > 0,
        spec_preset_bank()[20].name@ == "Static Ocean"@,
        spec_preset_bank()[20].category@ == "texture"@,
        spec_preset_bank()[20].blurb@.len() > 0,
        spec_preset_bank()[21].name@ == "Rotor"@,
        spec_preset_bank()[21].category@ == "texture"@,
        spec_preset_bank()[21].blurb@.len() > 0,
        spec_preset_bank()[22].name@ == "Long Room"@,
        spec_preset_bank()[22].category@ == "texture"@,
        spec_preset_bank()[22].blurb@.len() > 0,
        spec_preset_bank()[23].name@ == "Flint"@,
        spec_preset_bank()[23].category@ == "perc"@,
        spec_preset_bank()[23].blurb@.len() > 0,
        spec_preset_bank()[24].name@ == "Deadfall"@,
        spec_preset_bank()[24].category@ == "perc"@,
        spec_preset_bank()[24].blurb@.len() > 0,
        spec_preset_bank()[25].name@ == "Ricochet"@,
        spec_preset_bank()[25].category@ == "perc"@,
        spec_preset_bank()[25].blurb@.len() > 0,
        spec_preset_bank()[26].name@ == "Sour Mash"@,
        spec_preset_bank()[26].category@ == "weird"@,
        spec_preset_bank()[26].blurb@.len() > 0,
        spec_preset_bank()[27].name@ == "Wrong Number"@,
        spec_preset_bank()[27].category@ == "weird"@,
        spec_preset_bank()[27].blurb@.len() > 0,
        spec_preset_bank()[28].name@ == "Inside Out"@,
        spec_preset_bank()[28].category@ == "weird"@,
        spec_preset_bank()[28].blurb@.len() > 0,
{
    reveal(spec_preset_bank);
    reveal_strlit("the plain correct one — measure the others against it");
    reveal_strlit("weight underneath, air above, nothing in the middle");
    reveal_strlit("a 303 that got out of the cage");
    reveal_strlit("two saws beating against each other, low and wide");
    reveal_strlit("a square driven into the folder, then hammered flat");
    reveal_strlit("buzzing, metallic, never quite still");
    reveal_strlit("nasal and angry; cuts through anything");
    reveal_strlit("wide enough to sing, not so wide it stops being one voice");
    reveal_strlit("every note answers itself once and stops");
    reveal_strlit("woody and dry; gone before you lift the key");
    reveal_strlit("struck glass, heard from across the room");
    reveal_strlit("electric-piano-shaped, without pretending to be one");
    reveal_strlit("a resonant burble that never settles");
    reveal_strlit("slow, sacred and wide");
    reveal_strlit("bright, transparent, faintly fragile");
    reveal_strlit("a wide smear that drifts off the end of the note");
    reveal_strlit("a pad that glows rather than shines");
    reveal_strlit("never sits in the same place twice");
    reveal_strlit("coastal fog with a pitch somewhere inside it");
    reveal_strlit("the mixing desk is the instrument");
    reveal_strlit("surf heard from a headland");
    reveal_strlit("a machine idling in the next room");
    reveal_strlit("a drone that builds itself while you hold the key");
    reveal_strlit("a struck spark");
    reveal_strlit("a tuned drum with the room taken out");
    reveal_strlit("a metallic ping bouncing down a corridor");
    reveal_strlit("pure character, no manners, and no filter at all");
    reveal_strlit("a narrow resonant peak, hunting for a pitch");
    reveal_strlit("the note arrives some time after the transient does");
}

/// Names are the handle the user carries back to the bank: no two presets
/// share one.
pub proof fn lemma_preset_names_unique()
    ensures
        forall|i: int, j: int|
            0 <= i < j < spec_preset_bank().len() ==> #[trigger] spec_preset_bank()[i].name@
                != #[trigger] spec_preset_bank()[j].name@,
{
    lemma_bank_text();
    reveal_strlit("First Bass");
    reveal_strlit("Sub & Sparkle");
    reveal_strlit("Acid Line");
    reveal_strlit("Reese");
    reveal_strlit("Anvil");
    reveal_strlit("Folded Lead");
    reveal_strlit("Hornet");
    reveal_strlit("Solo Flight");
    reveal_strlit("Telegraph");
    reveal_strlit("Pluck");
    reveal_strlit("Bell Jar");
    reveal_strlit("Tine");
    reveal_strlit("Coin Toss");
    reveal_strlit("Cathedral");
    reveal_strlit("Glass Pad");
    reveal_strlit("Detune Dream");
    reveal_strlit("Ember");
    reveal_strlit("Slow Weather");
    reveal_strlit("Noise Wash");
    reveal_strlit("Dub Echo");
    reveal_strlit("Static Ocean");
    reveal_strlit("Rotor");
    reveal_strlit("Long Room");
    reveal_strlit("Flint");
    reveal_strlit("Deadfall");
    reveal_strlit("Ricochet");
    reveal_strlit("Sour Mash");
    reveal_strlit("Wrong Number");
    reveal_strlit("Inside Out");
    assert("First Bass"@.len() != "Folded Lead"@.len());
    assert("First Bass"@[0] != "Noise Wash"@[0]);
    assert("First Bass"@.len() != "Flint"@.len());
    assert("First Bass"@[0] != "Inside Out"@[0]);
    assert("Sub & Sparkle"@.len() != "Solo Flight"@.len());
    assert("Sub & Sparkle"@.len() != "Slow Weather"@.len());
    assert("Sub & Sparkle"@.len() != "Static Ocean"@.len());
    assert("Sub & Sparkle"@.len() != "Sour Mash"@.len());
    assert("Acid Line"@.len() != "Anvil"@.len());
    assert("Acid Line"@[0] != "Telegraph"@[0]);
    assert("Acid Line"@[0] != "Coin Toss"@[0]);
    assert("Acid Line"@[0] != "Cathedral"@[0]);
    assert("Acid Line"@[0] != "Glass Pad"@[0]);
    assert("Acid Line"@[0] != "Long Room"@[0]);
    assert("Acid Line"@[0] != "Sour Mash"@[0]);
    assert("Reese"@[0] != "Anvil"@[0]);
    assert("Reese"@[0] != "Pluck"@[0]);
    assert("Reese"@[0] != "Ember"@[0]);
    assert("Reese"@[1] != "Rotor"@[1]);
    assert("Reese"@[0] != "Flint"@[0]);
    assert("Reese"@.len() != "Ricochet"@.len());
    assert("Anvil"@[0] != "Pluck"@[0]);
    assert("Anvil"@[0] != "Ember"@[0]);
    assert("Anvil"@[0] != "Rotor"@[0]);
    assert("Anvil"@[0] != "Flint"@[0]);
    assert("Folded Lead"@[0] != "Solo Flight"@[0]);
    assert("Folded Lead"@.len() != "Flint"@.len());
    assert("Solo Flight"@.len() != "Slow Weather"@.len());
    assert("Solo Flight"@.len() != "Static Ocean"@.len());
    assert("Solo Flight"@.len() != "Sour Mash"@.len());
    assert("Telegraph"@.len() != "Tine"@.len());
    assert("Telegraph"@[0] != "Coin Toss"@[0]);
    assert("Telegraph"@[0] != "Cathedral"@[0]);
    assert("Telegraph"@[0] != "Glass Pad"@[0]);
    assert("Telegraph"@[0] != "Long Room"@[0]);
    assert("Telegraph"@[0] != "Sour Mash"@[0]);
    assert("Pluck"@[0] != "Ember"@[0]);
    assert("Pluck"@[0] != "Rotor"@[0]);
    assert("Pluck"@[0] != "Flint"@[0]);
    assert("Bell Jar"@[0] != "Dub Echo"@[0]);
    assert("Bell Jar"@[0] != "Deadfall"@[0]);
    assert("Bell Jar"@[0] != "Ricochet"@[0]);
    assert("Coin Toss"@[1] != "Cathedral"@[1]);
    assert("Coin Toss"@[0] != "Glass Pad"@[0]);
    assert("Coin Toss"@[0] != "Long Room"@[0]);
    assert("Coin Toss"@[0] != "Sour Mash"@[0]);
    assert("Cathedral"@[0] != "Glass Pad"@[0]);
    assert("Cathedral"@[0] != "Long Room"@[0]);
    assert("Cathedral"@[0] != "Sour Mash"@[0]);
    assert("Glass Pad"@[0] != "Long Room"@[0]);
    assert("Glass Pad"@[0] != "Sour Mash"@[0]);
    assert("Detune Dream"@[0] != "Slow Weather"@[0]);
    assert("Detune Dream"@.len() != "Dub Echo"@.len());
    assert("Detune Dream"@[0] != "Static Ocean"@[0]);
    assert("Detune Dream"@.len() != "Deadfall"@.len());
    assert("Detune Dream"@[0] != "Wrong Number"@[0]);
    assert("Ember"@[0] != "Rotor"@[0]);
    assert("Ember"@[0] != "Flint"@[0]);
    assert("Slow Weather"@[1] != "Static Ocean"@[1]);
    assert("Slow Weather"@.len() != "Sour Mash"@.len());
    assert("Slow Weather"@[0] != "Wrong Number"@[0]);
    assert("Noise Wash"@[0] != "Inside Out"@[0]);
    assert("Dub Echo"@[1] != "Deadfall"@[1]);
    assert("Dub Echo"@[0] != "Ricochet"@[0]);
    assert("Static Ocean"@.len() != "Sour Mash"@.len());
    assert("Static Ocean"@[0] != "Wrong Number"@[0]);
    assert("Rotor"@[0] != "Flint"@[0]);
    assert("Rotor"@.len() != "Ricochet"@.len());
    assert("Long Room"@[0] != "Sour Mash"@[0]);
    assert("Deadfall"@[0] != "Ricochet"@[0]);
    let bank = spec_preset_bank();
    assert forall|i: int, j: int| 0 <= i < j < bank.len() implies #[trigger] bank[i].name@ != #[trigger] bank[j].name@ by {
        if i == 0 {
            if j == 1 {
                assert(bank[0].name@ != bank[1].name@);
            } else if j == 2 {
                assert(bank[0].name@ != bank[2].name@);
            } else if j == 3 {
                assert(bank[0].name@ != bank[3].name@);
            } else if j == 4 {
                assert(bank[0].name@ != bank[4].name@);
            } else if j == 5 {
                assert(bank[0].name@ != bank[5].name@);
            } else if j == 6 {
                assert(bank[0].name@ != bank[6].name@);
            } else if j == 7 {
                assert(bank[0].name@ != bank[7].name@);
            } else if j == 8 {
                assert(bank[0].name@ != bank[8].name@);
            } else if j == 9 {
                assert(bank[0].name@ != bank[9].name@);
            } else if j == 10 {
                assert(bank[0].name@ != bank[10].name@);
            } else if j == 11 {
                assert(bank[0].name@ != bank[11].name@);
            } else if j == 12 {
                assert(bank[0].name@ != bank[12].name@);
            } else if j == 13 {
                assert(bank[0].name@ != bank[13].name@);
            } else if j == 14 {
                assert(bank[0].name@ != bank[14].name@);
            } else if j == 15 {
                assert(bank[0].name@ != bank[15].name@);
            } else if j == 16 {
                assert(bank[0].name@ != bank[16].name@);
            } else if j == 17 {
                assert(bank[0].name@ != bank[17].name@);
            } else if j == 18 {
                assert(bank[0].name@ != bank[18].name@);
            } else if j == 19 {
                assert(bank[0].name@ != bank[19].name@);
            } else if j == 20 {
                assert(bank[0].name@ != bank[20].name@);
            } else if j == 21 {
                assert(bank[0].name@ != bank[21].name@);
            } else if j == 22 {
                assert(bank[0].name@ != bank[22].name@);
            } else if j == 23 {
                assert(bank[0].name@ != bank[23].name@);
            } else if j == 24 {
                assert(bank[0].name@ != bank[24].name@);
            } else if j == 25 {
                assert(bank[0].name@ != bank[25].name@);
            } else if j == 26 {
                assert(bank[0].name@ != bank[26].name@);
            } else if j == 27 {
                assert(bank[0].name@ != bank[27].name@);
            } else if j == 28 {
                assert(bank[0].name@ != bank[28].name@);
            }
        } else if i == 1 {
            if j == 2 {
                assert(bank[1].name@ != bank[2].name@);
            } else if j == 3 {
                assert(bank[1].name@ != bank[3].name@);
            } else if j == 4 {
                assert(bank[1].name@ != bank[4].name@);
            } else if j == 5 {
                assert(bank[1].name@ != bank[5].name@);
            } else if j == 6 {
                assert(bank[1].name@ != bank[6].name@);
            } else if j == 7 {
                assert(bank[1].name@ != bank[7].name@);
            } else if j == 8 {
                assert(bank[1].name@ != bank[8].name@);
            } else if j == 9 {
                assert(bank[1].name@ != bank[9].name@);
            } else if j == 10 {
                assert(bank[1].name@ != bank[10].name@);
            } else if j == 11 {
                assert(bank[1].name@ != bank[11].name@);
            } else if j == 12 {
                assert(bank[1].name@ != bank[12].name@);
            } else if j == 13 {
                assert(bank[1].name@ != bank[13].name@);
            } else if j == 14 {
                assert(bank[1].name@ != bank[14].name@);
            } else if j == 15 {
                assert(bank[1].name@ != bank[15].name@);
            } else if j == 16 {
                assert(bank[1].name@ != bank[16].name@);
            } else if j == 17 {
                assert(bank[1].name@ != bank[17].name@);
            } else if j == 18 {
                assert(bank[1].name@ != bank[18].name@);
            } else if j == 19 {
                assert(bank[1].name@ != bank[19].name@);
            } else if j == 20 {
                assert(bank[1].name@ != bank[20].name@);
            } else if j == 21 {
                assert(bank[1].name@ != bank[21].name@);
            } else if j == 22 {
                assert(bank[1].name@ != bank[22].name@);
            } else if j == 23 {
                assert(bank[1].name@ != bank[23].name@);
            } else if j == 24 {
                assert(bank[1].name@ != bank[24].name@);
            } else if j == 25 {
                assert(bank[1].name@ != bank[25].name@);
            } else if j == 26 {
                assert(bank[1].name@ != bank[26].name@);
            } else if j == 27 {
                assert(bank[1].name@ != bank[27].name@);
            } else if j == 28 {
                assert(bank[1].name@ != bank[28].name@);
            }
        } else if i == 2 {
            if j == 3 {
                assert(bank[2].name@ != bank[3].name@);
            } else if j == 4 {
                assert(bank[2].name@ != bank[4].name@);
            } else if j == 5 {
                assert(bank[2].name@ != bank[5].name@);
            } else if j == 6 {
                assert(bank[2].name@ != bank[6].name@);
            } else if j == 7 {
                assert(bank[2].name@ != bank[7].name@);
            } else if j == 8 {
                assert(bank[2].name@ != bank[8].name@);
            } else if j == 9 {
                assert(bank[2].name@ != bank[9].name@);
            } else if j == 10 {
                assert(bank[2].name@ != bank[10].name@);
            } else if j == 11 {
                assert(bank[2].name@ != bank[11].name@);
            } else if j == 12 {
                assert(bank[2].name@ != bank[12].name@);
            } else if j == 13 {
                assert(bank[2].name@ != bank[13].name@);
            } else if j == 14 {
                assert(bank[2].name@ != bank[14].name@);
            } else if j == 15 {
                assert(bank[2].name@ != bank[15].name@);
            } else if j == 16 {
                assert(bank[2].name@ != bank[16].name@);
            } else if j == 17 {
                assert(bank[2].name@ != bank[17].name@);
            } else if j == 18 {
                assert(bank[2].name@ != bank[18].name@);
            } else if j == 19 {
                assert(bank[2].name@ != bank[19].name@);
            } else if j == 20 {
                assert(bank[2].name@ != bank[20].name@);
            } else if j == 21 {
                assert(bank[2].name@ != bank[21].name@);
            } else if j == 22 {
                assert(bank[2].name@ != bank[22].name@);
            } else if j == 23 {
                assert(bank[2].name@ != bank[23].name@);
            } else if j == 24 {
                assert(bank[2].name@ != bank[24].name@);
            } else if j == 25 {
                assert(bank[2].name@ != bank[25].name@);
            } else if j == 26 {
                assert(bank[2].name@ != bank[26].name@);
            } else if j == 27 {
                assert(bank[2].name@ != bank[27].name@);
            } else if j == 28 {
                assert(bank[2].name@ != bank[28].name@);
            }
        } else if i == 3 {
            if j == 4 {
                assert(bank[3].name@ != bank[4].name@);
            } else if j == 5 {
                assert(bank[3].name@ != bank[5].name@);
            } else if j == 6 {
                assert(bank[3].name@ != bank[6].name@);
            } else if j == 7 {
                assert(bank[3].name@ != bank[7].name@);
            } else if j == 8 {
                assert(bank[3].name@ != bank[8].name@);
            } else if j == 9 {
                assert(bank[3].name@ != bank[9].name@);
            } else if j == 10 {
                assert(bank[3].name@ != bank[10].name@);
            } else if j == 11 {
                assert(bank[3].name@ != bank[11].name@);
            } else if j == 12 {
                assert(bank[3].name@ != bank[12].name@);
            } else if j == 13 {
                assert(bank[3].name@ != bank[13].name@);
            } else if j == 14 {
                assert(bank[3].name@ != bank[14].name@);
            } else if j == 15 {
                assert(bank[3].name@ != bank[15].name@);
            } else if j == 16 {
                assert(bank[3].name@ != bank[16].name@);
            } else if j == 17 {
                assert(bank[3].name@ != bank[17].name@);
            } else if j == 18 {
                assert(bank[3].name@ != bank[18].name@);
            } else if j == 19 {
                assert(bank[3].name@ != bank[19].name@);
            } else if j == 20 {
                assert(bank[3].name@ != bank[20].name@);
            } else if j == 21 {
                assert(bank[3].name@ != bank[21].name@);
            } else if j == 22 {
                assert(bank[3].name@ != bank[22].name@);
            } else if j == 23 {
                assert(bank[3].name@ != bank[23].name@);
            } else if j == 24 {
                assert(bank[3].name@ != bank[24].name@);
            } else if j == 25 {
                assert(bank[3].name@ != bank[25].name@);
            } else if j == 26 {
                assert(bank[3].name@ != bank[26].name@);
            } else if j == 27 {
                assert(bank[3].name@ != bank[27].name@);
            } else if j == 28 {
                assert(bank[3].name@ != bank[28].name@);
            }
        } else if i == 4 {
            if j == 5 {
                assert(bank[4].name@ != bank[5].name@);
            } else if j == 6 {
                assert(bank[4].name@ != bank[6].name@);
            } else if j == 7 {
                assert(bank[4].name@ != bank[7].name@);
            } else if j == 8 {
                assert(bank[4].name@ != bank[8].name@);
            } else if j == 9 {
                assert(bank[4].name@ != bank[9].name@);
            } else if j == 10 {
                assert(bank[4].name@ != bank[10].name@);
            } else if j == 11 {
                assert(bank[4].name@ != bank[11].name@);
            } else if j == 12 {
                assert(bank[4].name@ != bank[12].name@);
            } else if j == 13 {
                assert(bank[4].name@ != bank[13].name@);
            } else if j == 14 {
                assert(bank[4].name@ != bank[14].name@);
            } else if j == 15 {
                assert(bank[4].name@ != bank[15].name@);
            } else if j == 16 {
                assert(bank[4].name@ != bank[16].name@);
            } else if j == 17 {
                assert(bank[4].name@ != bank[17].name@);
            } else if j == 18 {
                assert(bank[4].name@ != bank[18].name@);
            } else if j == 19 {
                assert(bank[4].name@ != bank[19].name@);
            } else if j == 20 {
                assert(bank[4].name@ != bank[20].name@);
            } else if j == 21 {
                assert(bank[4].name@ != bank[21].name@);
            } else if j == 22 {
                assert(bank[4].name@ != bank[22].name@);
            } else if j == 23 {
                assert(bank[4].name@ != bank[23].name@);
            } else if j == 24 {
                assert(bank[4].name@ != bank[24].name@);
            } else if j == 25 {
                assert(bank[4].name@ != bank[25].name@);
            } else if j == 26 {
                assert(bank[4].name@ != bank[26].name@);
            } else if j == 27 {
                assert(bank[4].name@ != bank[27].name@);
            } else if j == 28 {
                assert(bank[4].name@ != bank[28].name@);
            }
        } else if i == 5 {
            if j == 6 {
                assert(bank[5].name@ != bank[6].name@);
            } else if j == 7 {
                assert(bank[5].name@ != bank[7].name@);
            } else if j == 8 {
                assert(bank[5].name@ != bank[8].name@);
            } else if j == 9 {
                assert(bank[5].name@ != bank[9].name@);
            } else if j == 10 {
                assert(bank[5].name@ != bank[10].name@);
            } else if j == 11 {
                assert(bank[5].name@ != bank[11].name@);
            } else if j == 12 {
                assert(bank[5].name@ != bank[12].name@);
            } else if j == 13 {
                assert(bank[5].name@ != bank[13].name@);
            } else if j == 14 {
                assert(bank[5].name@ != bank[14].name@);
            } else if j == 15 {
                assert(bank[5].name@ != bank[15].name@);
            } else if j == 16 {
                assert(bank[5].name@ != bank[16].name@);
            } else if j == 17 {
                assert(bank[5].name@ != bank[17].name@);
            } else if j == 18 {
                assert(bank[5].name@ != bank[18].name@);
            } else if j == 19 {
                assert(bank[5].name@ != bank[19].name@);
            } else if j == 20 {
                assert(bank[5].name@ != bank[20].name@);
            } else if j == 21 {
                assert(bank[5].name@ != bank[21].name@);
            } else if j == 22 {
                assert(bank[5].name@ != bank[22].name@);
            } else if j == 23 {
                assert(bank[5].name@ != bank[23].name@);
            } else if j == 24 {
                assert(bank[5].name@ != bank[24].name@);
            } else if j == 25 {
                assert(bank[5].name@ != bank[25].name@);
            } else if j == 26 {
                assert(bank[5].name@ != bank[26].name@);
            } else if j == 27 {
                assert(bank[5].name@ != bank[27].name@);
            } else if j == 28 {
                assert(bank[5].name@ != bank[28].name@);
            }
        } else if i == 6 {
            if j == 7 {
                assert(bank[6].name@ != bank[7].name@);
            } else if j == 8 {
                assert(bank[6].name@ != bank[8].name@);
            } else if j == 9 {
                assert(bank[6].name@ != bank[9].name@);
            } else if j == 10 {
                assert(bank[6].name@ != bank[10].name@);
            } else if j == 11 {
                assert(bank[6].name@ != bank[11].name@);
            } else if j == 12 {
                assert(bank[6].name@ != bank[12].name@);
            } else if j == 13 {
                assert(bank[6].name@ != bank[13].name@);
            } else if j == 14 {
                assert(bank[6].name@ != bank[14].name@);
            } else if j == 15 {
                assert(bank[6].name@ != bank[15].name@);
            } else if j == 16 {
                assert(bank[6].name@ != bank[16].name@);
            } else if j == 17 {
                assert(bank[6].name@ != bank[17].name@);
            } else if j == 18 {
                assert(bank[6].name@ != bank[18].name@);
            } else if j == 19 {
                assert(bank[6].name@ != bank[19].name@);
            } else if j == 20 {
                assert(bank[6].name@ != bank[20].name@);
            } else if j == 21 {
                assert(bank[6].name@ != bank[21].name@);
            } else if j == 22 {
                assert(bank[6].name@ != bank[22].name@);
            } else if j == 23 {
                assert(bank[6].name@ != bank[23].name@);
            } else if j == 24 {
                assert(bank[6].name@ != bank[24].name@);
            } else if j == 25 {
                assert(bank[6].name@ != bank[25].name@);
            } else if j == 26 {
                assert(bank[6].name@ != bank[26].name@);
            } else if j == 27 {
                assert(bank[6].name@ != bank[27].name@);
            } else if j == 28 {
                assert(bank[6].name@ != bank[28].name@);
            }
        } else if i == 7 {
            if j == 8 {
                assert(bank[7].name@ != bank[8].name@);
            } else if j == 9 {
                assert(bank[7].name@ != bank[9].name@);
            } else if j == 10 {
                assert(bank[7].name@ != bank[10].name@);
            } else if j == 11 {
                assert(bank[7].name@ != bank[11].name@);
            } else if j == 12 {
                assert(bank[7].name@ != bank[12].name@);
            } else if j == 13 {
                assert(bank[7].name@ != bank[13].name@);
            } else if j == 14 {
                assert(bank[7].name@ != bank[14].name@);
            } else if j == 15 {
                assert(bank[7].name@ != bank[15].name@);
            } else if j == 16 {
                assert(bank[7].name@ != bank[16].name@);
            } else if j == 17 {
                assert(bank[7].name@ != bank[17].name@);
            } else if j == 18 {
                assert(bank[7].name@ != bank[18].name@);
            } else if j == 19 {
                assert(bank[7].name@ != bank[19].name@);
            } else if j == 20 {
                assert(bank[7].name@ != bank[20].name@);
            } else if j == 21 {
                assert(bank[7].name@ != bank[21].name@);
            } else if j == 22 {
                assert(bank[7].name@ != bank[22].name@);
            } else if j == 23 {
                assert(bank[7].name@ != bank[23].name@);
            } else if j == 24 {
                assert(bank[7].name@ != bank[24].name@);
            } else if j == 25 {
                assert(bank[7].name@ != bank[25].name@);
            } else if j == 26 {
                assert(bank[7].name@ != bank[26].name@);
            } else if j == 27 {
                assert(bank[7].name@ != bank[27].name@);
            } else if j == 28 {
                assert(bank[7].name@ != bank[28].name@);
            }
        } else if i == 8 {
            if j == 9 {
                assert(bank[8].name@ != bank[9].name@);
            } else if j == 10 {
                assert(bank[8].name@ != bank[10].name@);
            } else if j == 11 {
                assert(bank[8].name@ != bank[11].name@);
            } else if j == 12 {
                assert(bank[8].name@ != bank[12].name@);
            } else if j == 13 {
                assert(bank[8].name@ != bank[13].name@);
            } else if j == 14 {
                assert(bank[8].name@ != bank[14].name@);
            } else if j == 15 {
                assert(bank[8].name@ != bank[15].name@);
            } else if j == 16 {
                assert(bank[8].name@ != bank[16].name@);
            } else if j == 17 {
                assert(bank[8].name@ != bank[17].name@);
            } else if j == 18 {
                assert(bank[8].name@ != bank[18].name@);
            } else if j == 19 {
                assert(bank[8].name@ != bank[19].name@);
            } else if j == 20 {
                assert(bank[8].name@ != bank[20].name@);
            } else if j == 21 {
                assert(bank[8].name@ != bank[21].name@);
            } else if j == 22 {
                assert(bank[8].name@ != bank[22].name@);
            } else if j == 23 {
                assert(bank[8].name@ != bank[23].name@);
            } else if j == 24 {
                assert(bank[8].name@ != bank[24].name@);
            } else if j == 25 {
                assert(bank[8].name@ != bank[25].name@);
            } else if j == 26 {
                assert(bank[8].name@ != bank[26].name@);
            } else if j == 27 {
                assert(bank[8].name@ != bank[27].name@);
            } else if j == 28 {
                assert(bank[8].name@ != bank[28].name@);
            }
        } else if i == 9 {
            if j == 10 {
                assert(bank[9].name@ != bank[10].name@);
            } else if j == 11 {
                assert(bank[9].name@ != bank[11].name@);
            } else if j == 12 {
                assert(bank[9].name@ != bank[12].name@);
            } else if j == 13 {
                assert(bank[9].name@ != bank[13].name@);
            } else if j == 14 {
                assert(bank[9].name@ != bank[14].name@);
            } else if j == 15 {
                assert(bank[9].name@ != bank[15].name@);
            } else if j == 16 {
                assert(bank[9].name@ != bank[16].name@);
            } else if j == 17 {
                assert(bank[9].name@ != bank[17].name@);
            } else if j == 18 {
                assert(bank[9].name@ != bank[18].name@);
            } else if j == 19 {
                assert(bank[9].name@ != bank[19].name@);
            } else if j == 20 {
                assert(bank[9].name@ != bank[20].name@);
            } else if j == 21 {
                assert(bank[9].name@ != bank[21].name@);
            } else if j == 22 {
                assert(bank[9].name@ != bank[22].name@);
            } else if j == 23 {
                assert(bank[9].name@ != bank[23].name@);
            } else if j == 24 {
                assert(bank[9].name@ != bank[24].name@);
            } else if j == 25 {
                assert(bank[9].name@ != bank[25].name@);
            } else if j == 26 {
                assert(bank[9].name@ != bank[26].name@);
            } else if j == 27 {
                assert(bank[9].name@ != bank[27].name@);
            } else if j == 28 {
                assert(bank[9].name@ != bank[28].name@);
            }
        } else if i == 10 {
            if j == 11 {
                assert(bank[10].name@ != bank[11].name@);
            } else if j == 12 {
                assert(bank[10].name@ != bank[12].name@);
            } else if j == 13 {
                assert(bank[10].name@ != bank[13].name@);
            } else if j == 14 {
                assert(bank[10].name@ != bank[14].name@);
            } else if j == 15 {
                assert(bank[10].name@ != bank[15].name@);
            } else if j == 16 {
                assert(bank[10].name@ != bank[16].name@);
            } else if j == 17 {
                assert(bank[10].name@ != bank[17].name@);
            } else if j == 18 {
                assert(bank[10].name@ != bank[18].name@);
            } else if j == 19 {
                assert(bank[10].name@ != bank[19].name@);
            } else if j == 20 {
                assert(bank[10].name@ != bank[20].name@);
            } else if j == 21 {
                assert(bank[10].name@ != bank[21].name@);
            } else if j == 22 {
                assert(bank[10].name@ != bank[22].name@);
            } else if j == 23 {
                assert(bank[10].name@ != bank[23].name@);
            } else if j == 24 {
                assert(bank[10].name@ != bank[24].name@);
            } else if j == 25 {
                assert(bank[10].name@ != bank[25].name@);
            } else if j == 26 {
                assert(bank[10].name@ != bank[26].name@);
            } else if j == 27 {
                assert(bank[10].name@ != bank[27].name@);
            } else if j == 28 {
                assert(bank[10].name@ != bank[28].name@);
            }
        } else if i == 11 {
            if j == 12 {
                assert(bank[11].name@ != bank[12].name@);
            } else if j == 13 {
                assert(bank[11].name@ != bank[13].name@);
            } else if j == 14 {
                assert(bank[11].name@ != bank[14].name@);
            } else if j == 15 {
                assert(bank[11].name@ != bank[15].name@);
            } else if j == 16 {
                assert(bank[11].name@ != bank[16].name@);
            } else if j == 17 {
                assert(bank[11].name@ != bank[17].name@);
            } else if j == 18 {
                assert(bank[11].name@ != bank[18].name@);
            } else if j == 19 {
                assert(bank[11].name@ != bank[19].name@);
            } else if j == 20 {
                assert(bank[11].name@ != bank[20].name@);
            } else if j == 21 {
                assert(bank[11].name@ != bank[21].name@);
            } else if j == 22 {
                assert(bank[11].name@ != bank[22].name@);
            } else if j == 23 {
                assert(bank[11].name@ != bank[23].name@);
            } else if j == 24 {
                assert(bank[11].name@ != bank[24].name@);
            } else if j == 25 {
                assert(bank[11].name@ != bank[25].name@);
            } else if j == 26 {
                assert(bank[11].name@ != bank[26].name@);
            } else if j == 27 {
                assert(bank[11].name@ != bank[27].name@);
            } else if j == 28 {
                assert(bank[11].name@ != bank[28].name@);
            }
        } else if i == 12 {
            if j == 13 {
                assert(bank[12].name@ != bank[13].name@);
            } else if j == 14 {
                assert(bank[12].name@ != bank[14].name@);
            } else if j == 15 {
                assert(bank[12].name@ != bank[15].name@);
            } else if j == 16 {
                assert(bank[12].name@ != bank[16].name@);
            } else if j == 17 {
                assert(bank[12].name@ != bank[17].name@);
            } else if j == 18 {
                assert(bank[12].name@ != bank[18].name@);
            } else if j == 19 {
                assert(bank[12].name@ != bank[19].name@);
            } else if j == 20 {
                assert(bank[12].name@ != bank[20].name@);
            } else if j == 21 {
                assert(bank[12].name@ != bank[21].name@);
            } else if j == 22 {
                assert(bank[12].name@ != bank[22].name@);
            } else if j == 23 {
                assert(bank[12].name@ != bank[23].name@);
            } else if j == 24 {
                assert(bank[12].name@ != bank[24].name@);
            } else if j == 25 {
                assert(bank[12].name@ != bank[25].name@);
            } else if j == 26 {
                assert(bank[12].name@ != bank[26].name@);
            } else if j == 27 {
                assert(bank[12].name@ != bank[27].name@);
            } else if j == 28 {
                assert(bank[12].name@ != bank[28].name@);
            }
        } else if i == 13 {
            if j == 14 {
                assert(bank[13].name@ != bank[14].name@);
            } else if j == 15 {
                assert(bank[13].name@ != bank[15].name@);
            } else if j == 16 {
                assert(bank[13].name@ != bank[16].name@);
            } else if j == 17 {
                assert(bank[13].name@ != bank[17].name@);
            } else if j == 18 {
                assert(bank[13].name@ != bank[18].name@);
            } else if j == 19 {
                assert(bank[13].name@ != bank[19].name@);
            } else if j == 20 {
                assert(bank[13].name@ != bank[20].name@);
            } else if j == 21 {
                assert(bank[13].name@ != bank[21].name@);
            } else if j == 22 {
                assert(bank[13].name@ != bank[22].name@);
            } else if j == 23 {
                assert(bank[13].name@ != bank[23].name@);
            } else if j == 24 {
                assert(bank[13].name@ != bank[24].name@);
            } else if j == 25 {
                assert(bank[13].name@ != bank[25].name@);
            } else if j == 26 {
                assert(bank[13].name@ != bank[26].name@);
            } else if j == 27 {
                assert(bank[13].name@ != bank[27].name@);
            } else if j == 28 {
                assert(bank[13].name@ != bank[28].name@);
            }
        } else if i == 14 {
            if j == 15 {
                assert(bank[14].name@ != bank[15].name@);
            } else if j == 16 {
                assert(bank[14].name@ != bank[16].name@);
            } else if j == 17 {
                assert(bank[14].name@ != bank[17].name@);
            } else if j == 18 {
                assert(bank[14].name@ != bank[18].name@);
            } else if j == 19 {
                assert(bank[14].name@ != bank[19].name@);
            } else if j == 20 {
                assert(bank[14].name@ != bank[20].name@);
            } else if j == 21 {
                assert(bank[14].name@ != bank[21].name@);
            } else if j == 22 {
                assert(bank[14].name@ != bank[22].name@);
            } else if j == 23 {
                assert(bank[14].name@ != bank[23].name@);
            } else if j == 24 {
                assert(bank[14].name@ != bank[24].name@);
            } else if j == 25 {
                assert(bank[14].name@ != bank[25].name@);
            } else if j == 26 {
                assert(bank[14].name@ != bank[26].name@);
            } else if j == 27 {
                assert(bank[14].name@ != bank[27].name@);
            } else if j == 28 {
                assert(bank[14].name@ != bank[28].name@);
            }
        } else if i == 15 {
            if j == 16 {
                assert(bank[15].name@ != bank[16].name@);
            } else if j == 17 {
                assert(bank[15].name@ != bank[17].name@);
            } else if j == 18 {
                assert(bank[15].name@ != bank[18].name@);
            } else if j == 19 {
                assert(bank[15].name@ != bank[19].name@);
            } else if j == 20 {
                assert(bank[15].name@ != bank[20].name@);
            } else if j == 21 {
                assert(bank[15].name@ != bank[21].name@);
            } else if j == 22 {
                assert(bank[15].name@ != bank[22].name@);
            } else if j == 23 {
                assert(bank[15].name@ != bank[23].name@);
            } else if j == 24 {
                assert(bank[15].name@ != bank[24].name@);
            } else if j == 25 {
                assert(bank[15].name@ != bank[25].name@);
            } else if j == 26 {
                assert(bank[15].name@ != bank[26].name@);
            } else if j == 27 {
                assert(bank[15].name@ != bank[27].name@);
            } else if j == 28 {
                assert(bank[15].name@ != bank[28].name@);
            }
        } else if i == 16 {
            if j == 17 {
                assert(bank[16].name@ != bank[17].name@);
            } else if j == 18 {
                assert(bank[16].name@ != bank[18].name@);
            } else if j == 19 {
                assert(bank[16].name@ != bank[19].name@);
            } else if j == 20 {
                assert(bank[16].name@ != bank[20].name@);
            } else if j == 21 {
                assert(bank[16].name@ != bank[21].name@);
            } else if j == 22 {
                assert(bank[16].name@ != bank[22].name@);
            } else if j == 23 {
                assert(bank[16].name@ != bank[23].name@);
            } else if j == 24 {
                assert(bank[16].name@ != bank[24].name@);
            } else if j == 25 {
                assert(bank[16].name@ != bank[25].name@);
            } else if j == 26 {
                assert(bank[16].name@ != bank[26].name@);
            } else if j == 27 {
                assert(bank[16].name@ != bank[27].name@);
            } else if j == 28 {
                assert(bank[16].name@ != bank[28].name@);
            }
        } else if i == 17 {
            if j == 18 {
                assert(bank[17].name@ != bank[18].name@);
            } else if j == 19 {
                assert(bank[17].name@ != bank[19].name@);
            } else if j == 20 {
                assert(bank[17].name@ != bank[20].name@);
            } else if j == 21 {
                assert(bank[17].name@ != bank[21].name@);
            } else if j == 22 {
                assert(bank[17].name@ != bank[22].name@);
            } else if j == 23 {
                assert(bank[17].name@ != bank[23].name@);
            } else if j == 24 {
                assert(bank[17].name@ != bank[24].name@);
            } else if j == 25 {
                assert(bank[17].name@ != bank[25].name@);
            } else if j == 26 {
                assert(bank[17].name@ != bank[26].name@);
            } else if j == 27 {
                assert(bank[17].name@ != bank[27].name@);
            } else if j == 28 {
                assert(bank[17].name@ != bank[28].name@);
            }
        } else if i == 18 {
            if j == 19 {
                assert(bank[18].name@ != bank[19].name@);
            } else if j == 20 {
                assert(bank[18].name@ != bank[20].name@);
            } else if j == 21 {
                assert(bank[18].name@ != bank[21].name@);
            } else if j == 22 {
                assert(bank[18].name@ != bank[22].name@);
            } else if j == 23 {
                assert(bank[18].name@ != bank[23].name@);
            } else if j == 24 {
                assert(bank[18].name@ != bank[24].name@);
            } else if j == 25 {
                assert(bank[18].name@ != bank[25].name@);
            } else if j == 26 {
                assert(bank[18].name@ != bank[26].name@);
            } else if j == 27 {
                assert(bank[18].name@ != bank[27].name@);
            } else if j == 28 {
                assert(bank[18].name@ != bank[28].name@);
            }
        } else if i == 19 {
            if j == 20 {
                assert(bank[19].name@ != bank[20].name@);
            } else if j == 21 {
                assert(bank[19].name@ != bank[21].name@);
            } else if j == 22 {
                assert(bank[19].name@ != bank[22].name@);
            } else if j == 23 {
                assert(bank[19].name@ != bank[23].name@);
            } else if j == 24 {
                assert(bank[19].name@ != bank[24].name@);
            } else if j == 25 {
                assert(bank[19].name@ != bank[25].name@);
            } else if j == 26 {
                assert(bank[19].name@ != bank[26].name@);
            } else if j == 27 {
                assert(bank[19].name@ != bank[27].name@);
            } else if j == 28 {
                assert(bank[19].name@ != bank[28].name@);
            }
        } else if i == 20 {
            if j == 21 {
                assert(bank[20].name@ != bank[21].name@);
            } else if j == 22 {
                assert(bank[20].name@ != bank[22].name@);
            } else if j == 23 {
                assert(bank[20].name@ != bank[23].name@);
            } else if j == 24 {
                assert(bank[20].name@ != bank[24].name@);
            } else if j == 25 {
                assert(bank[20].name@ != bank[25].name@);
            } else if j == 26 {
                assert(bank[20].name@ != bank[26].name@);
            } else if j == 27 {
                assert(bank[20].name@ != bank[27].name@);
            } else if j == 28 {
                assert(bank[20].name@ != bank[28].name@);
            }
        } else if i == 21 {
            if j == 22 {
                assert(bank[21].name@ != bank[22].name@);
            } else if j == 23 {
                assert(bank[21].name@ != bank[23].name@);
            } else if j == 24 {
                assert(bank[21].name@ != bank[24].name@);
            } else if j == 25 {
                assert(bank[21].name@ != bank[25].name@);
            } else if j == 26 {
                assert(bank[21].name@ != bank[26].name@);
            } else if j == 27 {
                assert(bank[21].name@ != bank[27].name@);
            } else if j == 28 {
                assert(bank[21].name@ != bank[28].name@);
            }
        } else if i == 22 {
            if j == 23 {
                assert(bank[22].name@ != bank[23].name@);
            } else if j == 24 {
                assert(bank[22].name@ != bank[24].name@);
            } else if j == 25 {
                assert(bank[22].name@ != bank[25].name@);
            } else if j == 26 {
                assert(bank[22].name@ != bank[26].name@);
            } else if j == 27 {
                assert(bank[22].name@ != bank[27].name@);
            } else if j == 28 {
                assert(bank[22].name@ != bank[28].name@);
            }
        } else if i == 23 {
            if j == 24 {
                assert(bank[23].name@ != bank[24].name@);
            } else if j == 25 {
                assert(bank[23].name@ != bank[25].name@);
            } else if j == 26 {
                assert(bank[23].name@ != bank[26].name@);
            } else if j == 27 {
                assert(bank[23].name@ != bank[27].name@);
            } else if j == 28 {
                assert(bank[23].name@ != bank[28].name@);
            }
        } else if i == 24 {
            if j == 25 {
                assert(bank[24].name@ != bank[25].name@);
            } else if j == 26 {
                assert(bank[24].name@ != bank[26].name@);
            } else if j == 27 {
                assert(bank[24].name@ != bank[27].name@);
            } else if j == 28 {
                assert(bank[24].name@ != bank[28].name@);
            }
        } else if i == 25 {
            if j == 26 {
                assert(bank[25].name@ != bank[26].name@);
            } else if j == 27 {
                assert(bank[25].name@ != bank[27].name@);
            } else if j == 28 {
                assert(bank[25].name@ != bank[28].name@);
            }
        } else if i == 26 {
            if j == 27 {
                assert(bank[26].name@ != bank[27].name@);
            } else if j == 28 {
                assert(bank[26].name@ != bank[28].name@);
            }
        } else if i == 27 {
            if j == 28 {
                assert(bank[27].name@ != bank[28].name@);
            }
        }
    }
}

/// Categories are what the browser groups by: every preset declares one of
/// the known categories, and carries copy.
#[verifier::rlimit(40)]
pub proof fn lemma_presets_categorized()
    ensures
        forall|i: int|
            0 <= i < spec_preset_bank().len() ==> spec_categories().contains(
                (#[trigger] spec_preset_bank()[i]).category@,
            ) && spec_preset_bank()[i].blurb@.len() > 0,
{
    lemma_bank_text();
    let bank = spec_preset_bank();
    let cats = spec_categories();
    assert forall|i: int| 0 <= i < bank.len() implies cats.contains((#[trigger] bank[i]).category@) && bank[i].blurb@.len() > 0 by {
        if i == 0 {
            assert(cats[0] == bank[0].category@);
            assert(cats.contains(bank[0].category@));
        } else if i == 1 {
            assert(cats[0] == bank[1].category@);
            assert(cats.contains(bank[1].category@));
        } else if i == 2 {
            assert(cats[0] == bank[2].category@);
            assert(cats.contains(bank[2].category@));
        } else if i == 3 {
            assert(cats[0] == bank[3].category@);
            assert(cats.contains(bank[3].category@));
        } else if i == 4 {
            assert(cats[0] == bank[4].category@);
            assert(cats.contains(bank[4].category@));
        } else if i == 5 {
            assert(cats[1] == bank[5].category@);
            assert(cats.contains(bank[5].category@));
        } else if i == 6 {
            assert(cats[1] == bank[6].category@);
            assert(cats.contains(bank[6].category@));
        } else if i == 7 {
            assert(cats[1] == bank[7].category@);
            assert(cats.contains(bank[7].category@));
        } else if i == 8 {
            assert(cats[1] == bank[8].category@);
            assert(cats.contains(bank[8].category@));
        } else if i == 9 {
            assert(cats[2] == bank[9].category@);
            assert(cats.contains(bank[9].category@));
        } else if i == 10 {
            assert(cats[2] == bank[10].category@);
            assert(cats.contains(bank[10].category@));
        } else if i == 11 {
            assert(cats[2] == bank[11].category@);
            assert(cats.contains(bank[11].category@));
        } else if i == 12 {
            assert(cats[2] == bank[12].category@);
            assert(cats.contains(bank[12].category@));
        } else if i == 13 {
            assert(cats[3] == bank[13].category@);
            assert(cats.contains(bank[13].category@));
        } else if i == 14 {
            assert(cats[3] == bank[14].category@);
            assert(cats.contains(bank[14].category@));
        } else if i == 15 {
            assert(cats[3] == bank[15].category@);
            assert(cats.contains(bank[15].category@));
        } else if i == 16 {
            assert(cats[3] == bank[16].category@);
            assert(cats.contains(bank[16].category@));
        } else if i == 17 {
            assert(cats[3] == bank[17].category@);
            assert(cats.contains(bank[17].category@));
        } else if i == 18 {
            assert(cats[4] == bank[18].category@);
            assert(cats.contains(bank[18].category@));
        } else if i == 19 {
            assert(cats[4] == bank[19].category@);
            assert(cats.contains(bank[19].category@));
        } else if i == 20 {
            assert(cats[4] == bank[20].category@);
            assert(cats.contains(bank[20].category@));
        } else if i == 21 {
            assert(cats[4] == bank[21].category@);
            assert(cats.contains(bank[21].category@));
        } else if i == 22 {
            assert(cats[4] == bank[22].category@);
            assert(cats.contains(bank[22].category@));
        } else if i == 23 {
            assert(cats[5] == bank[23].category@);
            assert(cats.contains(bank[23].category@));
        } else if i == 24 {
            assert(cats[5] == bank[24].category@);
            assert(cats.contains(bank[24].category@));
        } else if i == 25 {
            assert(cats[5] == bank[25].category@);
            assert(cats.contains(bank[25].category@));
        } else if i == 26 {
            assert(cats[6] == bank[26].category@);
            assert(cats.contains(bank[26].category@));
        } else if i == 27 {
            assert(cats[6] == bank[27].category@);
            assert(cats.contains(bank[27].category@));
        } else if i == 28 {
            assert(cats[6] == bank[28].category@);
            assert(cats.contains(bank[28].category@));
        }
    }
}

/// The warm start samples across the categories, so none is too thin to
/// sample: every category holds at least three presets.
#[verifier::rlimit(40)]
pub proof fn lemma_categories_stocked()
    ensures
        forall|c: int|
            #![trigger spec_categories()[c]]
            0 <= c < spec_categories().len() ==> exists|a: int, b: int, d: int|
                0 <= a < b < d < spec_preset_bank().len() && #[trigger] spec_preset_bank()[a].category@
                    == spec_categories()[c] && #[trigger] spec_preset_bank()[b].category@
                    == spec_categories()[c] && #[trigger] spec_preset_bank()[d].category@
                    == spec_categories()[c],
{
    lemma_bank_text();
    let bank = spec_preset_bank();
    let cats = spec_categories();
    assert forall|c: int| #![trigger cats[c]] 0 <= c < cats.len() implies exists|a: int, b: int, d: int| 0 <= a < b < d < bank.len() && #[trigger] bank[a].category@ == cats[c] && #[trigger] bank[b].category@ == cats[c] && #[trigger] bank[d].category@ == cats[c] by {
        if c == 0 {
            assert(bank[0].category@ == cats[0] && bank[1].category@ == cats[0] && bank[2].category@ == cats[0]);
        } else if c == 1 {
            assert(bank[5].category@ == cats[1] && bank[6].category@ == cats[1] && bank[7].category@ == cats[1]);
        } else if c == 2 {
            assert(bank[9].category@ == cats[2] && bank[10].category@ == cats[2] && bank[11].category@ == cats[2]);
        } else if c == 3 {
            assert(bank[13].category@ == cats[3] && bank[14].category@ == cats[3] && bank[15].category@ == cats[3]);
        } else if c == 4 {
            assert(bank[18].category@ == cats[4] && bank[19].category@ == cats[4] && bank[20].category@ == cats[4]);
        } else if c == 5 {
            assert(bank[23].category@ == cats[5] && bank[24].category@ == cats[5] && bank[25].category@ == cats[5]);
        } else if c == 6 {
            assert(bank[26].category@ == cats[6] && bank[27].category@ == cats[6] && bank[28].category@ == cats[6]);
        }
    }
}

} // verus!
