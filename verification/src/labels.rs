//! What the diff calls the values of categorical sites: the same categories
//! the rest of the library reads those indices back as.

use vstd::prelude::*;

use crate::describe::spec_filter_options;
use crate::diff::spec_display_label;
use crate::encoding::{
    lemma_encode_mod_frame, lemma_encode_node_frame, spec_encode_mod, spec_encode_node,
    spec_octave_index, spec_put,
};
use crate::genome::{lemma_layout, spec_child_key, spec_mod_key};
use crate::sexpr::spec_node_sexpr;
use crate::term::{AudioNode, NoiseColor, Param, Waveform};
use crate::trace::{is_plain, lemma_address_injective_forall, spec_address, spec_lookup, SiteValue};

verus! {

/// The diff names an index at a categorical site by the category that index
/// reads back as: a waveform by its port name, a noise color by its port
/// name, and a filter kind by the name the rack gives it.
pub proof fn law_labels_name_categories(i: usize)
    ensures
        i < 4 ==> spec_display_label("wave"@, SiteValue::Index(i)) == Waveform::spec_from_index(
            i as nat,
        ).spec_port_name(),
        i < 2 ==> spec_display_label("color"@, SiteValue::Index(i)) == NoiseColor::spec_from_index(
            i as nat,
        ).spec_port_name(),
        i < 4 ==> spec_display_label("fkind"@, SiteValue::Index(i))
            == spec_filter_options()[i as int],
{
    reveal_strlit("wave");
    reveal_strlit("color");
    reveal_strlit("fkind");
    reveal_strlit("oct");
    assert("wave"@.len() == 4 && "oct"@.len() == 3 && "color"@.len() == 5 && "fkind"@.len() == 5);
    assert("fkind"@[0] != "color"@[0]);
}


/// Whether `s` opens with `p`.
pub open spec fn starts_with(s: Seq<char>, p: Seq<char>) -> bool {
    p.len() <= s.len() && s.take(p.len() as int) == p
}

/// The diff's name for the index a vco records at its `#src` site is
/// the word its rendering opens with.
proof fn lemma_label_opens_vco(
    n: AudioNode,
    key: Seq<char>,
    t: Map<Seq<char>, SiteValue>,
    fmt: spec_fn(Param) -> Seq<char>,
)
    requires
        n is Vco,
        is_plain(key),
    ensures
        spec_lookup(spec_encode_node(n, key, t), spec_address(key, "src"@)) == Some(
            SiteValue::Index(0),
        ),
        starts_with(spec_node_sexpr(n, fmt), "("@ + spec_display_label("src"@, SiteValue::Index(0)) + " "@),
{
    lemma_layout(key);
    lemma_address_injective_forall(key);
    reveal_strlit("color");
    reveal_strlit("det");
    reveal_strlit("fkind");
    reveal_strlit("leaf");
    reveal_strlit("mdepth");
    reveal_strlit("mod");
    reveal_strlit("oct");
    reveal_strlit("op");
    reveal_strlit("src");
    reveal_strlit("vco");
    reveal_strlit("wave");
    reveal_strlit("(");
    reveal_strlit(" ");
    reveal_strlit("(vco ");
    match n {
        AudioNode::Vco { wave: v_wave, octave: v_octave, detune: v_detune, mod_depth: v_mod_depth, modulation: v_modulation } => {
            let e0 = spec_put(t, key, "leaf"@, SiteValue::Flag(true));
            let e0 = spec_put(e0, key, "src"@, SiteValue::Index(0));
            let e0 = spec_put(e0, key, "wave"@, SiteValue::Index(v_wave.spec_index() as usize));
            let e0 = spec_put(e0, key, "oct"@, SiteValue::Index(spec_octave_index(v_octave)));
            let e0 = spec_put(e0, key, "det"@, SiteValue::Real(v_detune));
            let e0 = spec_put(e0, key, "mdepth"@, SiteValue::Real(v_mod_depth));
            let km = spec_mod_key(key);
            lemma_encode_mod_frame(v_modulation, km, e0);
            let em = spec_encode_mod(v_modulation, km, e0);
            assert(spec_encode_node(n, key, t) == em);
            let a = spec_address(key, "src"@);
            assert("leaf"@.len() != "src"@.len());
            assert("wave"@.len() != "src"@.len());
            assert("oct"@[0] != "src"@[0]);
            assert("det"@[0] != "src"@[0]);
            assert("mdepth"@.len() != "src"@.len());
            assert(spec_lookup(e0, a) == Some(SiteValue::Index(0)));
            assert(spec_lookup(spec_encode_node(n, key, t), a) == Some(SiteValue::Index(0)));
            assert("src"@ != "oct"@ && "src"@ != "wave"@ && "src"@ != "color"@ && "src"@ != "fkind"@);
            assert(spec_display_label("src"@, SiteValue::Index(0)) == "vco"@);
            assert("("@ + "vco"@ + " "@ =~= "(vco "@);
            assert(spec_node_sexpr(n, fmt).take("(vco "@.len() as int) =~= "(vco "@);
        },
        _ => {},
    }
}

/// The diff's name for the index a supersaw records at its `#src` site is
/// the word its rendering opens with.
proof fn lemma_label_opens_supersaw(
    n: AudioNode,
    key: Seq<char>,
    t: Map<Seq<char>, SiteValue>,
    fmt: spec_fn(Param) -> Seq<char>,
)
    requires
        n is Supersaw,
        is_plain(key),
    ensures
        spec_lookup(spec_encode_node(n, key, t), spec_address(key, "src"@)) == Some(
            SiteValue::Index(1),
        ),
        starts_with(spec_node_sexpr(n, fmt), "("@ + spec_display_label("src"@, SiteValue::Index(1)) + " "@),
{
    lemma_layout(key);
    lemma_address_injective_forall(key);
    reveal_strlit("color");
    reveal_strlit("det");
    reveal_strlit("fkind");
    reveal_strlit("leaf");
    reveal_strlit("mdepth");
    reveal_strlit("mod");
    reveal_strlit("oct");
    reveal_strlit("op");
    reveal_strlit("smix");
    reveal_strlit("src");
    reveal_strlit("supersaw");
    reveal_strlit("wave");
    reveal_strlit("(");
    reveal_strlit(" ");
    reveal_strlit("(supersaw ");
    match n {
        AudioNode::Supersaw { octave: v_octave, detune: v_detune, mix: v_mix, mod_depth: v_mod_depth, modulation: v_modulation } => {
            let e0 = spec_put(t, key, "leaf"@, SiteValue::Flag(true));
            let e0 = spec_put(e0, key, "src"@, SiteValue::Index(1));
            let e0 = spec_put(e0, key, "oct"@, SiteValue::Index(spec_octave_index(v_octave)));
            let e0 = spec_put(e0, key, "det"@, SiteValue::Real(v_detune));
            let e0 = spec_put(e0, key, "smix"@, SiteValue::Real(v_mix));
            let e0 = spec_put(e0, key, "mdepth"@, SiteValue::Real(v_mod_depth));
            let km = spec_mod_key(key);
            lemma_encode_mod_frame(v_modulation, km, e0);
            let em = spec_encode_mod(v_modulation, km, e0);
            assert(spec_encode_node(n, key, t) == em);
            let a = spec_address(key, "src"@);
            assert("leaf"@.len() != "src"@.len());
            assert("oct"@[0] != "src"@[0]);
            assert("det"@[0] != "src"@[0]);
            assert("smix"@.len() != "src"@.len());
            assert("mdepth"@.len() != "src"@.len());
            assert(spec_lookup(e0, a) == Some(SiteValue::Index(1)));
            assert(spec_lookup(spec_encode_node(n, key, t), a) == Some(SiteValue::Index(1)));
            assert("src"@ != "oct"@ && "src"@ != "wave"@ && "src"@ != "color"@ && "src"@ != "fkind"@);
            assert(spec_display_label("src"@, SiteValue::Index(1)) == "supersaw"@);
            assert("("@ + "supersaw"@ + " "@ =~= "(supersaw "@);
            assert(spec_node_sexpr(n, fmt).take("(supersaw "@.len() as int) =~= "(supersaw "@);
        },
        _ => {},
    }
}

/// The diff's name for the index a noise records at its `#src` site is
/// the word its rendering opens with.
proof fn lemma_label_opens_noise(
    n: AudioNode,
    key: Seq<char>,
    t: Map<Seq<char>, SiteValue>,
    fmt: spec_fn(Param) -> Seq<char>,
)
    requires
        n is Noise,
        is_plain(key),
    ensures
        spec_lookup(spec_encode_node(n, key, t), spec_address(key, "src"@)) == Some(
            SiteValue::Index(2),
        ),
        starts_with(spec_node_sexpr(n, fmt), "("@ + spec_display_label("src"@, SiteValue::Index(2)) + " "@),
{
    lemma_layout(key);
    lemma_address_injective_forall(key);
    reveal_strlit("color");
    reveal_strlit("fkind");
    reveal_strlit("leaf");
    reveal_strlit("mod");
    reveal_strlit("noise");
    reveal_strlit("oct");
    reveal_strlit("op");
    reveal_strlit("src");
    reveal_strlit("wave");
    reveal_strlit("(");
    reveal_strlit(" ");
    reveal_strlit("(noise ");
    match n {
        AudioNode::Noise { color: v_color } => {
            let e0 = spec_put(t, key, "leaf"@, SiteValue::Flag(true));
            let e0 = spec_put(e0, key, "src"@, SiteValue::Index(2));
            let e0 = spec_put(e0, key, "color"@, SiteValue::Index(v_color.spec_index() as usize));
            assert(spec_encode_node(n, key, t) == e0);
            let a = spec_address(key, "src"@);
            assert("leaf"@.len() != "src"@.len());
            assert("color"@.len() != "src"@.len());
            assert(spec_lookup(e0, a) == Some(SiteValue::Index(2)));
            assert(spec_lookup(spec_encode_node(n, key, t), a) == Some(SiteValue::Index(2)));
            assert("src"@ != "oct"@ && "src"@ != "wave"@ && "src"@ != "color"@ && "src"@ != "fkind"@);
            assert(spec_display_label("src"@, SiteValue::Index(2)) == "noise"@);
            assert("("@ + "noise"@ + " "@ =~= "(noise "@);
            assert(spec_node_sexpr(n, fmt).take("(noise "@.len() as int) =~= "(noise "@);
        },
        _ => {},
    }
}

/// The diff's name for the index a mix records at its `#op` site is
/// the word its rendering opens with.
proof fn lemma_label_opens_mix(
    n: AudioNode,
    key: Seq<char>,
    t: Map<Seq<char>, SiteValue>,
    fmt: spec_fn(Param) -> Seq<char>,
)
    requires
        n is Mix,
        is_plain(key),
    ensures
        spec_lookup(spec_encode_node(n, key, t), spec_address(key, "op"@)) == Some(
            SiteValue::Index(0),
        ),
        starts_with(spec_node_sexpr(n, fmt), "("@ + spec_display_label("op"@, SiteValue::Index(0)) + " "@),
{
    lemma_layout(key);
    lemma_address_injective_forall(key);
    reveal_strlit("bal");
    reveal_strlit("color");
    reveal_strlit("fkind");
    reveal_strlit("leaf");
    reveal_strlit("mix");
    reveal_strlit("mod");
    reveal_strlit("oct");
    reveal_strlit("op");
    reveal_strlit("src");
    reveal_strlit("wave");
    reveal_strlit("(");
    reveal_strlit(" ");
    reveal_strlit("(mix ");
    match n {
        AudioNode::Mix { balance: v_balance, a: v_a, b: v_b } => {
            let e0 = spec_put(t, key, "leaf"@, SiteValue::Flag(false));
            let e0 = spec_put(e0, key, "op"@, SiteValue::Index(0));
            let e0 = spec_put(e0, key, "bal"@, SiteValue::Real(v_balance));
            let k0 = spec_child_key(key, 0);
            lemma_encode_node_frame(*v_a, k0, e0);
            let f0 = spec_encode_node(*v_a, k0, e0);
            let k1 = spec_child_key(key, 1);
            lemma_encode_node_frame(*v_b, k1, f0);
            let f1 = spec_encode_node(*v_b, k1, f0);
            assert(spec_encode_node(n, key, t) == f1);
            let a = spec_address(key, "op"@);
            assert("leaf"@.len() != "op"@.len());
            assert("bal"@.len() != "op"@.len());
            assert(spec_lookup(e0, a) == Some(SiteValue::Index(0)));
            assert(spec_lookup(spec_encode_node(n, key, t), a) == Some(SiteValue::Index(0)));
            assert("op"@ != "oct"@ && "op"@ != "wave"@ && "op"@ != "color"@ && "op"@ != "fkind"@);
            assert("op"@ != "src"@);
            assert(spec_display_label("op"@, SiteValue::Index(0)) == "mix"@);
            assert("("@ + "mix"@ + " "@ =~= "(mix "@);
            assert(spec_node_sexpr(n, fmt).take("(mix "@.len() as int) =~= "(mix "@);
        },
        _ => {},
    }
}

/// The diff's name for the index a filter records at its `#op` site is
/// the word its rendering opens with.
proof fn lemma_label_opens_filter(
    n: AudioNode,
    key: Seq<char>,
    t: Map<Seq<char>, SiteValue>,
    fmt: spec_fn(Param) -> Seq<char>,
)
    requires
        n is Filter,
        is_plain(key),
    ensures
        spec_lookup(spec_encode_node(n, key, t), spec_address(key, "op"@)) == Some(
            SiteValue::Index(1),
        ),
        starts_with(spec_node_sexpr(n, fmt), "("@ + spec_display_label("op"@, SiteValue::Index(1)) + " "@),
{
    lemma_layout(key);
    lemma_address_injective_forall(key);
    reveal_strlit("color");
    reveal_strlit("cut");
    reveal_strlit("filter");
    reveal_strlit("fkind");
    reveal_strlit("leaf");
    reveal_strlit("mdepth");
    reveal_strlit("mod");
    reveal_strlit("oct");
    reveal_strlit("op");
    reveal_strlit("res");
    reveal_strlit("src");
    reveal_strlit("wave");
    reveal_strlit("(");
    reveal_strlit(" ");
    reveal_strlit("(filter ");
    match n {
        AudioNode::Filter { kind: v_kind, cutoff: v_cutoff, resonance: v_resonance, mod_depth: v_mod_depth, input: v_input, modulation: v_modulation } => {
            let e0 = spec_put(t, key, "leaf"@, SiteValue::Flag(false));
            let e0 = spec_put(e0, key, "op"@, SiteValue::Index(1));
            let e0 = spec_put(e0, key, "fkind"@, SiteValue::Index(v_kind.spec_index() as usize));
            let e0 = spec_put(e0, key, "cut"@, SiteValue::Real(v_cutoff));
            let e0 = spec_put(e0, key, "res"@, SiteValue::Real(v_resonance));
            let e0 = spec_put(e0, key, "mdepth"@, SiteValue::Real(v_mod_depth));
            let km = spec_mod_key(key);
            lemma_encode_mod_frame(v_modulation, km, e0);
            let em = spec_encode_mod(v_modulation, km, e0);
            let k0 = spec_child_key(key, 0);
            lemma_encode_node_frame(*v_input, k0, em);
            let f0 = spec_encode_node(*v_input, k0, em);
            assert(spec_encode_node(n, key, t) == f0);
            let a = spec_address(key, "op"@);
            assert("leaf"@.len() != "op"@.len());
            assert("fkind"@.len() != "op"@.len());
            assert("cut"@.len() != "op"@.len());
            assert("res"@.len() != "op"@.len());
            assert("mdepth"@.len() != "op"@.len());
            assert(spec_lookup(e0, a) == Some(SiteValue::Index(1)));
            assert(spec_lookup(spec_encode_node(n, key, t), a) == Some(SiteValue::Index(1)));
            assert("op"@ != "oct"@ && "op"@ != "wave"@ && "op"@ != "color"@ && "op"@ != "fkind"@);
            assert("op"@ != "src"@);
            assert(spec_display_label("op"@, SiteValue::Index(1)) == "filter"@);
            assert("("@ + "filter"@ + " "@ =~= "(filter "@);
            assert(spec_node_sexpr(n, fmt).take("(filter "@.len() as int) =~= "(filter "@);
        },
        _ => {},
    }
}

/// The diff's name for the index a fold records at its `#op` site is
/// the word its rendering opens with.
proof fn lemma_label_opens_fold(
    n: AudioNode,
    key: Seq<char>,
    t: Map<Seq<char>, SiteValue>,
    fmt: spec_fn(Param) -> Seq<char>,
)
    requires
        n is Fold,
        is_plain(key),
    ensures
        spec_lookup(spec_encode_node(n, key, t), spec_address(key, "op"@)) == Some(
            SiteValue::Index(2),
        ),
        starts_with(spec_node_sexpr(n, fmt), "("@ + spec_display_label("op"@, SiteValue::Index(2)) + " "@),
{
    lemma_layout(key);
    lemma_address_injective_forall(key);
    reveal_strlit("color");
    reveal_strlit("fkind");
    reveal_strlit("fold");
    reveal_strlit("leaf");
    reveal_strlit("mdepth");
    reveal_strlit("mod");
    reveal_strlit("oct");
    reveal_strlit("op");
    reveal_strlit("src");
    reveal_strlit("thresh");
    reveal_strlit("wave");
    reveal_strlit("(");
    reveal_strlit(" ");
    reveal_strlit("(fold ");
    reveal_strlit("(fold t=");
    match n {
        AudioNode::Fold { threshold: v_threshold, mod_depth: v_mod_depth, input: v_input, modulation: v_modulation } => {
            let e0 = spec_put(t, key, "leaf"@, SiteValue::Flag(false));
            let e0 = spec_put(e0, key, "op"@, SiteValue::Index(2));
            let e0 = spec_put(e0, key, "thresh"@, SiteValue::Real(v_threshold));
            let e0 = spec_put(e0, key, "mdepth"@, SiteValue::Real(v_mod_depth));
            let km = spec_mod_key(key);
            lemma_encode_mod_frame(v_modulation, km, e0);
            let em = spec_encode_mod(v_modulation, km, e0);
            let k0 = spec_child_key(key, 0);
            lemma_encode_node_frame(*v_input, k0, em);
            let f0 = spec_encode_node(*v_input, k0, em);
            assert(spec_encode_node(n, key, t) == f0);
            let a = spec_address(key, "op"@);
            assert("leaf"@.len() != "op"@.len());
            assert("thresh"@.len() != "op"@.len());
            assert("mdepth"@.len() != "op"@.len());
            assert(spec_lookup(e0, a) == Some(SiteValue::Index(2)));
            assert(spec_lookup(spec_encode_node(n, key, t), a) == Some(SiteValue::Index(2)));
            assert("op"@ != "oct"@ && "op"@ != "wave"@ && "op"@ != "color"@ && "op"@ != "fkind"@);
            assert("op"@ != "src"@);
            assert(spec_display_label("op"@, SiteValue::Index(2)) == "fold"@);
            assert("("@ + "fold"@ + " "@ =~= "(fold "@);
            assert(spec_node_sexpr(n, fmt).take("(fold "@.len() as int) =~= "(fold "@);
        },
        _ => {},
    }
}

/// The diff's name for the index a delay records at its `#op` site is
/// the word its rendering opens with.
proof fn lemma_label_opens_delay(
    n: AudioNode,
    key: Seq<char>,
    t: Map<Seq<char>, SiteValue>,
    fmt: spec_fn(Param) -> Seq<char>,
)
    requires
        n is Delay,
        is_plain(key),
    ensures
        spec_lookup(spec_encode_node(n, key, t), spec_address(key, "op"@)) == Some(
            SiteValue::Index(3),
        ),
        starts_with(spec_node_sexpr(n, fmt), "("@ + spec_display_label("op"@, SiteValue::Index(3)) + " "@),
{
    lemma_layout(key);
    lemma_address_injective_forall(key);
    reveal_strlit("color");
    reveal_strlit("delay");
    reveal_strlit("dmix");
    reveal_strlit("fb");
    reveal_strlit("fkind");
    reveal_strlit("leaf");
    reveal_strlit("mdepth");
    reveal_strlit("mod");
    reveal_strlit("oct");
    reveal_strlit("op");
    reveal_strlit("src");
    reveal_strlit("time");
    reveal_strlit("wave");
    reveal_strlit("(");
    reveal_strlit(" ");
    reveal_strlit("(delay ");
    reveal_strlit("(delay t=");
    match n {
        AudioNode::Delay { time: v_time, feedback: v_feedback, mix: v_mix, mod_depth: v_mod_depth, input: v_input, modulation: v_modulation } => {
            let e0 = spec_put(t, key, "leaf"@, SiteValue::Flag(false));
            let e0 = spec_put(e0, key, "op"@, SiteValue::Index(3));
            let e0 = spec_put(e0, key, "time"@, SiteValue::Real(v_time));
            let e0 = spec_put(e0, key, "fb"@, SiteValue::Real(v_feedback));
            let e0 = spec_put(e0, key, "dmix"@, SiteValue::Real(v_mix));
            let e0 = spec_put(e0, key, "mdepth"@, SiteValue::Real(v_mod_depth));
            let km = spec_mod_key(key);
            lemma_encode_mod_frame(v_modulation, km, e0);
            let em = spec_encode_mod(v_modulation, km, e0);
            let k0 = spec_child_key(key, 0);
            lemma_encode_node_frame(*v_input, k0, em);
            let f0 = spec_encode_node(*v_input, k0, em);
            assert(spec_encode_node(n, key, t) == f0);
            let a = spec_address(key, "op"@);
            assert("leaf"@.len() != "op"@.len());
            assert("time"@.len() != "op"@.len());
            assert("fb"@[0] != "op"@[0]);
            assert("dmix"@.len() != "op"@.len());
            assert("mdepth"@.len() != "op"@.len());
            assert(spec_lookup(e0, a) == Some(SiteValue::Index(3)));
            assert(spec_lookup(spec_encode_node(n, key, t), a) == Some(SiteValue::Index(3)));
            assert("op"@ != "oct"@ && "op"@ != "wave"@ && "op"@ != "color"@ && "op"@ != "fkind"@);
            assert("op"@ != "src"@);
            assert(spec_display_label("op"@, SiteValue::Index(3)) == "delay"@);
            assert("("@ + "delay"@ + " "@ =~= "(delay "@);
            assert(spec_node_sexpr(n, fmt).take("(delay "@.len() as int) =~= "(delay "@);
        },
        _ => {},
    }
}

/// The diff's name for the index a chorus records at its `#op` site is
/// the word its rendering opens with.
proof fn lemma_label_opens_chorus(
    n: AudioNode,
    key: Seq<char>,
    t: Map<Seq<char>, SiteValue>,
    fmt: spec_fn(Param) -> Seq<char>,
)
    requires
        n is Chorus,
        is_plain(key),
    ensures
        spec_lookup(spec_encode_node(n, key, t), spec_address(key, "op"@)) == Some(
            SiteValue::Index(4),
        ),
        starts_with(spec_node_sexpr(n, fmt), "("@ + spec_display_label("op"@, SiteValue::Index(4)) + " "@),
{
    lemma_layout(key);
    lemma_address_injective_forall(key);
    reveal_strlit("cdepth");
    reveal_strlit("chorus");
    reveal_strlit("cmix");
    reveal_strlit("color");
    reveal_strlit("crate");
    reveal_strlit("fkind");
    reveal_strlit("leaf");
    reveal_strlit("mdepth");
    reveal_strlit("mod");
    reveal_strlit("oct");
    reveal_strlit("op");
    reveal_strlit("src");
    reveal_strlit("wave");
    reveal_strlit("(");
    reveal_strlit(" ");
    reveal_strlit("(chorus ");
    reveal_strlit("(chorus r=");
    match n {
        AudioNode::Chorus { rate: v_rate, depth: v_depth, mix: v_mix, mod_depth: v_mod_depth, input: v_input, modulation: v_modulation } => {
            let e0 = spec_put(t, key, "leaf"@, SiteValue::Flag(false));
            let e0 = spec_put(e0, key, "op"@, SiteValue::Index(4));
            let e0 = spec_put(e0, key, "crate"@, SiteValue::Real(v_rate));
            let e0 = spec_put(e0, key, "cdepth"@, SiteValue::Real(v_depth));
            let e0 = spec_put(e0, key, "cmix"@, SiteValue::Real(v_mix));
            let e0 = spec_put(e0, key, "mdepth"@, SiteValue::Real(v_mod_depth));
            let km = spec_mod_key(key);
            lemma_encode_mod_frame(v_modulation, km, e0);
            let em = spec_encode_mod(v_modulation, km, e0);
            let k0 = spec_child_key(key, 0);
            lemma_encode_node_frame(*v_input, k0, em);
            let f0 = spec_encode_node(*v_input, k0, em);
            assert(spec_encode_node(n, key, t) == f0);
            let a = spec_address(key, "op"@);
            assert("leaf"@.len() != "op"@.len());
            assert("crate"@.len() != "op"@.len());
            assert("cdepth"@.len() != "op"@.len());
            assert("cmix"@.len() != "op"@.len());
            assert("mdepth"@.len() != "op"@.len());
            assert(spec_lookup(e0, a) == Some(SiteValue::Index(4)));
            assert(spec_lookup(spec_encode_node(n, key, t), a) == Some(SiteValue::Index(4)));
            assert("op"@ != "oct"@ && "op"@ != "wave"@ && "op"@ != "color"@ && "op"@ != "fkind"@);
            assert("op"@ != "src"@);
            assert(spec_display_label("op"@, SiteValue::Index(4)) == "chorus"@);
            assert("("@ + "chorus"@ + " "@ =~= "(chorus "@);
            assert(spec_node_sexpr(n, fmt).take("(chorus "@.len() as int) =~= "(chorus "@);
        },
        _ => {},
    }
}

/// The diff's name for the index an audio node records at its `#src` or
/// `#op` site is the word its rendering opens with, for every source and
/// processor the diff names: the label reads the index as the production
/// the node was recorded from.
pub proof fn law_kind_labels_open_renderings(
    n: AudioNode,
    key: Seq<char>,
    t: Map<Seq<char>, SiteValue>,
    fmt: spec_fn(Param) -> Seq<char>,
)
    requires
        is_plain(key),
        n is Vco || n is Supersaw || n is Noise || n is Mix || n is Filter || n is Fold || n is Delay
            || n is Chorus,
    ensures
        ({
            let site = if n.spec_is_source() { "src"@ } else { "op"@ };
            spec_lookup(spec_encode_node(n, key, t), spec_address(key, site)) matches Some(v)
                && starts_with(spec_node_sexpr(n, fmt), "("@ + spec_display_label(site, v) + " "@)
        }),
{
    match n {
        AudioNode::Vco { .. } => lemma_label_opens_vco(n, key, t, fmt),
        AudioNode::Supersaw { .. } => lemma_label_opens_supersaw(n, key, t, fmt),
        AudioNode::Noise { .. } => lemma_label_opens_noise(n, key, t, fmt),
        AudioNode::Mix { .. } => lemma_label_opens_mix(n, key, t, fmt),
        AudioNode::Filter { .. } => lemma_label_opens_filter(n, key, t, fmt),
        AudioNode::Fold { .. } => lemma_label_opens_fold(n, key, t, fmt),
        AudioNode::Delay { .. } => lemma_label_opens_delay(n, key, t, fmt),
        AudioNode::Chorus { .. } => lemma_label_opens_chorus(n, key, t, fmt),
        _ => {},
    }
}

} // verus!
