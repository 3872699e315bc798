//! Turning knobs: a patch's trace with any of its knob values changed for
//! values of the same sort still reads back as a patch. So every knob the
//! rack shows can be turned, and repairing out-of-domain values always
//! rebuilds the patch.

use vstd::prelude::*;

use crate::describe::{
    knob_live, lemma_rack_addresses_live, lemma_rack_sites_plain, module_live, spec_describe,
};
use crate::edit::{
    lemma_small_index_reads, lemma_split_joined, set_param_reports, spec_edited, spec_enum_arity,
    spec_is_structural, spec_split_addr, EditError, ParamValue,
};
use crate::encoding::{
    lemma_encode_mod_frame, lemma_encode_node_frame, lemma_octave_round_trip, lemma_trace_readable,
    octave_overflows, octaves_encodable, read_flag, read_index, read_real, spec_decode_mod,
    spec_decode_node, spec_decode_processor, spec_decode_source,
    spec_decode_bitcrush, spec_decode_chorus, spec_decode_comp, spec_decode_delay, spec_decode_distortion, spec_decode_duck, spec_decode_eq, spec_decode_filter, spec_decode_flanger, spec_decode_fold, spec_decode_gate, spec_decode_granular, spec_decode_mix, spec_decode_phaser, spec_decode_reverb, spec_decode_ring_mod, spec_decode_shift, spec_decode_tremolo, spec_decode_vibrato, spec_decode_vocoder, spec_encode_amp, spec_encode_mod,
    spec_encode_node, spec_from_trace, spec_octave_index, spec_put, spec_to_trace,
};
use crate::domain::repaired;
use crate::genome::{below, lemma_layout, spec_child_key, spec_mod_key};
use crate::term::{AudioNode, ModNode, PatchTree};
use crate::trace::{
    is_plain, lemma_address_injective_forall, lemma_escape_plain, spec_address, spec_lookup,
    SiteValue,
};

verus! {

/// Whether `i` is a value a knob's index site can hold: the site is no
/// structural site, `i` lies within its categorical, and at the octave site
/// it reads back as an octave.
#[verifier::opaque]
pub open spec fn knob_index(site: Seq<char>, i: usize) -> bool {
    &&& !spec_is_structural(site)
    &&& spec_enum_arity(site) matches Some(n) && i < n
    &&& site == "oct"@ ==> !octave_overflows(i)
}

/// What a knob index implies: a site that is not structural, and an octave
/// index that reads back.
pub proof fn lemma_knob_index()
    ensures
        forall|site: Seq<char>, i: usize|
            #[trigger] knob_index(site, i) ==> !spec_is_structural(site) && (site == "oct"@
                ==> !octave_overflows(i)),
{
    reveal(knob_index);
}

/// Whether `x`, found where `y` was recorded at `site`, still reads back:
/// a continuous value for a continuous one, an index within its site's
/// categorical for a knob's index (one that reads back as an octave at the
/// octave site), and everything else unchanged.
pub open spec fn keeps_readable(x: Option<SiteValue>, y: Option<SiteValue>, site: Seq<char>) -> bool {
    match (x, y) {
        (Some(SiteValue::Real(_)), Some(SiteValue::Real(_))) => true,
        (Some(SiteValue::Index(i)), Some(SiteValue::Index(j))) => i == j || knob_index(site, i),
        _ => x == y,
    }
}

/// The site part of an address.
#[verifier::opaque]
pub open spec fn site_of(a: Seq<char>) -> Seq<char> {
    spec_split_addr(a).1
}

/// Whether `t` differs from the recording `u` below `key` only in knob
/// values that still read back.
pub open spec fn turned_below(
    t: Map<Seq<char>, SiteValue>,
    u: Map<Seq<char>, SiteValue>,
    key: Seq<char>,
) -> bool {
    forall|a: Seq<char>|
        #[trigger] below(a, key) ==> keeps_readable(
            spec_lookup(t, a),
            spec_lookup(u, a),
            site_of(a),
        )
}

/// At a plain key, a plain site's address is the key, a `#` and the site,
/// and splits back into them.
pub(crate) proof fn lemma_plain_address(key: Seq<char>, site: Seq<char>)
    requires
        is_plain(key),
        is_plain(site),
    ensures
        spec_address(key, site) == key + seq!['#'] + site,
        site_of(spec_address(key, site)) == site,
{
    reveal(site_of);
    lemma_escape_plain(key);
    lemma_escape_plain(site);
    lemma_split_joined(key, site);
}

/// Narrowing to a subterm's key keeps the trace turned there.
pub(crate) proof fn lemma_turned_narrow(
    t: Map<Seq<char>, SiteValue>,
    u: Map<Seq<char>, SiteValue>,
    v: Map<Seq<char>, SiteValue>,
    key: Seq<char>,
    sub: Seq<char>,
)
    requires
        turned_below(t, u, key),
        forall|a: Seq<char>| #[trigger] below(a, sub) ==> below(a, key),
        forall|a: Seq<char>| #[trigger] below(a, sub) ==> spec_lookup(u, a) == spec_lookup(v, a),
    ensures
        turned_below(t, v, sub),
{
}

/// A turned trace reads back a modulation term below a plain key, and that
/// term's `#mod` site reads.
pub proof fn lemma_turned_mod(
    t: Map<Seq<char>, SiteValue>,
    key: Seq<char>,
    m: ModNode,
    base: Map<Seq<char>, SiteValue>,

)
    requires
        t.dom().finite(),
        is_plain(key),
        turned_below(t, spec_encode_mod(m, key, base), key),
    ensures
        spec_decode_mod(t, key) is Value,
        read_index(t, key, "mod"@) is Some,
    decreases m,
{
    lemma_layout(key);
    lemma_address_injective_forall(key);
    lemma_rack_sites_plain();
    lemma_knob_index();
    reveal_strlit("mod");
    reveal_strlit("modop");
    reveal_strlit("pairop");
    lemma_plain_address(key, "mod"@);
    match m {
        ModNode::Empty => {
            assert(read_index(t, key, "mod"@) == Some(0usize));
        },
        ModNode::Lfo { wave: v_wave, rate: v_rate } => {
            reveal_strlit("wave");
            reveal_strlit("rate");
            assert("wave"@[0] != "rate"@[0]);
            assert(read_index(t, key, "mod"@) == Some(1usize));
            assert(read_index(t, key, "wave"@) is Some);
            assert(read_real(t, key, "rate"@) is Some);
        },
        ModNode::Env { attack: v_attack, decay: v_decay } => {
            reveal_strlit("att");
            reveal_strlit("dec");
            assert("mod"@[0] != "att"@[0]);
            assert("mod"@[0] != "dec"@[0]);
            assert("att"@[0] != "dec"@[0]);
            assert(read_index(t, key, "mod"@) == Some(2usize));
            assert(read_real(t, key, "att"@) is Some);
            assert(read_real(t, key, "dec"@) is Some);
        },
        ModNode::Rand { rate: v_rate, glide: v_glide } => {
            reveal_strlit("rate");
            reveal_strlit("glide");
            assert(read_index(t, key, "mod"@) == Some(3usize));
            assert(read_real(t, key, "rate"@) is Some);
            assert(read_real(t, key, "glide"@) is Some);
        },
        ModNode::Follow { sens: v_sens, release: v_release } => {
            reveal_strlit("sens");
            reveal_strlit("rel");
            assert("mod"@[0] != "rel"@[0]);
            assert(read_index(t, key, "mod"@) == Some(4usize));
            assert(read_real(t, key, "sens"@) is Some);
            assert(read_real(t, key, "rel"@) is Some);
        },
        ModNode::Euclid { rate: v_rate, steps: v_steps, pulses: v_pulses } => {
            reveal_strlit("erate");
            reveal_strlit("esteps");
            reveal_strlit("epulses");
            assert(read_index(t, key, "mod"@) == Some(5usize));
            assert(read_real(t, key, "erate"@) is Some);
            assert(read_real(t, key, "esteps"@) is Some);
            assert(read_real(t, key, "epulses"@) is Some);
        },
        ModNode::Op { kind: v_kind, p0: v_p0, p1: v_p1, input: v_input } => {
            reveal_strlit("qroot");
            reveal_strlit("qscale");
            reveal_strlit("rise");
            reveal_strlit("fall");
            reveal_strlit("rmode");
            reveal_strlit("hrate");
            lemma_plain_address(key, "modop"@);
            let sites = v_kind.spec_param_sites();
            let t2 = spec_put(base, key, "mod"@, SiteValue::Index(6));
            let t2 = spec_put(t2, key, "modop"@, SiteValue::Index(v_kind.spec_index() as usize));
            let t2 = spec_put(t2, key, sites[0], SiteValue::Real(v_p0));
            let t2 = if sites.len() > 1 {
                spec_put(t2, key, sites[1], SiteValue::Real(v_p1))
            } else {
                t2
            };
            let k0 = spec_child_key(key, 0);
            lemma_encode_mod_frame(*v_input, k0, t2);
            lemma_turned_narrow(t, spec_encode_mod(m, key, base), spec_encode_mod(*v_input, k0, t2), key, k0);
            lemma_turned_mod(t, k0, *v_input, t2);
            assert(read_index(t, key, "mod"@) == Some(6usize));
            assert(read_index(t, key, "modop"@) == Some(v_kind.spec_index() as usize));
            assert(read_real(t, key, sites[0]) is Some);
            if sites.len() > 1 {
                assert(read_real(t, key, sites[1]) is Some);
            }
        },
        ModNode::Pair { kind: v_kind, a: v_a, b: v_b } => {
            lemma_plain_address(key, "pairop"@);
            let t2 = spec_put(base, key, "mod"@, SiteValue::Index(7));
            let t2 = spec_put(t2, key, "pairop"@, SiteValue::Index(v_kind.spec_index() as usize));
            let k0 = spec_child_key(key, 0);
            let k1 = spec_child_key(key, 1);
            let t3 = spec_encode_mod(*v_a, k0, t2);
            lemma_encode_mod_frame(*v_a, k0, t2);
            lemma_encode_mod_frame(*v_b, k1, t3);
            lemma_turned_narrow(t, spec_encode_mod(m, key, base), spec_encode_mod(*v_a, k0, t2), key, k0);
            lemma_turned_narrow(t, spec_encode_mod(m, key, base), spec_encode_mod(*v_b, k1, t3), key, k1);
            lemma_turned_mod(t, k0, *v_a, t2);
            lemma_turned_mod(t, k1, *v_b, t3);
            assert(read_index(t, key, "mod"@) == Some(7usize));
            assert(read_index(t, key, "pairop"@) == Some(v_kind.spec_index() as usize));
        },
    }
}

/// A turned trace reads back a vco below a plain key.
#[verifier::rlimit(40)]
proof fn lemma_turned_vco(
    t: Map<Seq<char>, SiteValue>,
    key: Seq<char>,
    n: AudioNode,
    base: Map<Seq<char>, SiteValue>,

)
    requires
        n is Vco,
        t.dom().finite(),
        is_plain(key),
        octaves_encodable(n),
        turned_below(t, spec_encode_node(n, key, base), key),
    ensures
        spec_decode_node(t, key) is Value,
    decreases n, 0nat,
{
    lemma_layout(key);
    lemma_address_injective_forall(key);
    lemma_rack_sites_plain();
    lemma_knob_index();
    reveal_strlit("leaf");
    reveal_strlit("src");
    reveal_strlit("mod");
    reveal_strlit("wave");
    reveal_strlit("oct");
    reveal_strlit("det");
    reveal_strlit("mdepth");
    lemma_plain_address(key, "leaf"@);
    lemma_plain_address(key, "src"@);
    match n {
        AudioNode::Vco { wave: v_wave, octave: v_octave, detune: v_detune, mod_depth: v_mod_depth, modulation: v_modulation } => {
            lemma_octave_round_trip(v_octave);
            lemma_plain_address(key, "oct"@);
            let e0 = spec_put(base, key, "leaf"@, SiteValue::Flag(true));
            let e0 = spec_put(e0, key, "src"@, SiteValue::Index(0));
            let e0 = spec_put(e0, key, "wave"@, SiteValue::Index(v_wave.spec_index() as usize));
            let e0 = spec_put(e0, key, "oct"@, SiteValue::Index(spec_octave_index(v_octave)));
            let e0 = spec_put(e0, key, "det"@, SiteValue::Real(v_detune));
            let e0 = spec_put(e0, key, "mdepth"@, SiteValue::Real(v_mod_depth));
            let km = spec_mod_key(key);
            lemma_encode_mod_frame(v_modulation, km, e0);
            let em = spec_encode_mod(v_modulation, km, e0);
            lemma_turned_narrow(t, spec_encode_node(n, key, base), em, key, km);
            lemma_turned_mod(t, km, v_modulation, e0);
            assert("leaf"@[0] != "wave"@[0]);
            assert("src"@[0] != "oct"@[0]);
            assert("src"@[0] != "det"@[0]);
            assert("oct"@[0] != "det"@[0]);
            assert(read_flag(t, key, "leaf"@) == Some(true));
            assert(read_index(t, key, "src"@) == Some(0usize));
            assert(read_index(t, key, "wave"@) is Some);
            assert(read_index(t, key, "oct"@) is Some);
            assert(!octave_overflows(read_index(t, key, "oct"@).unwrap()));
            assert(read_real(t, key, "det"@) is Some);
            assert(read_real(t, key, "mdepth"@) is Some);
            assert(spec_decode_node(t, key) == spec_decode_source(t, key));
        },
        _ => {},
    }
}

/// A turned trace reads back a supersaw below a plain key.
#[verifier::rlimit(40)]
proof fn lemma_turned_supersaw(
    t: Map<Seq<char>, SiteValue>,
    key: Seq<char>,
    n: AudioNode,
    base: Map<Seq<char>, SiteValue>,

)
    requires
        n is Supersaw,
        t.dom().finite(),
        is_plain(key),
        octaves_encodable(n),
        turned_below(t, spec_encode_node(n, key, base), key),
    ensures
        spec_decode_node(t, key) is Value,
    decreases n, 0nat,
{
    lemma_layout(key);
    lemma_address_injective_forall(key);
    lemma_rack_sites_plain();
    lemma_knob_index();
    reveal_strlit("leaf");
    reveal_strlit("src");
    reveal_strlit("mod");
    reveal_strlit("oct");
    reveal_strlit("det");
    reveal_strlit("smix");
    reveal_strlit("mdepth");
    lemma_plain_address(key, "leaf"@);
    lemma_plain_address(key, "src"@);
    match n {
        AudioNode::Supersaw { octave: v_octave, detune: v_detune, mix: v_mix, mod_depth: v_mod_depth, modulation: v_modulation } => {
            lemma_octave_round_trip(v_octave);
            lemma_plain_address(key, "oct"@);
            let e0 = spec_put(base, key, "leaf"@, SiteValue::Flag(true));
            let e0 = spec_put(e0, key, "src"@, SiteValue::Index(1));
            let e0 = spec_put(e0, key, "oct"@, SiteValue::Index(spec_octave_index(v_octave)));
            let e0 = spec_put(e0, key, "det"@, SiteValue::Real(v_detune));
            let e0 = spec_put(e0, key, "smix"@, SiteValue::Real(v_mix));
            let e0 = spec_put(e0, key, "mdepth"@, SiteValue::Real(v_mod_depth));
            let km = spec_mod_key(key);
            lemma_encode_mod_frame(v_modulation, km, e0);
            let em = spec_encode_mod(v_modulation, km, e0);
            lemma_turned_narrow(t, spec_encode_node(n, key, base), em, key, km);
            lemma_turned_mod(t, km, v_modulation, e0);
            assert("leaf"@[0] != "smix"@[0]);
            assert("src"@[0] != "oct"@[0]);
            assert("src"@[0] != "det"@[0]);
            assert("oct"@[0] != "det"@[0]);
            assert(read_flag(t, key, "leaf"@) == Some(true));
            assert(read_index(t, key, "src"@) == Some(1usize));
            assert(read_index(t, key, "oct"@) is Some);
            assert(!octave_overflows(read_index(t, key, "oct"@).unwrap()));
            assert(read_real(t, key, "det"@) is Some);
            assert(read_real(t, key, "smix"@) is Some);
            assert(read_real(t, key, "mdepth"@) is Some);
            assert(spec_decode_node(t, key) == spec_decode_source(t, key));
        },
        _ => {},
    }
}

/// A turned trace reads back a noise below a plain key.
#[verifier::rlimit(40)]
proof fn lemma_turned_noise(
    t: Map<Seq<char>, SiteValue>,
    key: Seq<char>,
    n: AudioNode,
    base: Map<Seq<char>, SiteValue>,

)
    requires
        n is Noise,
        t.dom().finite(),
        is_plain(key),
        octaves_encodable(n),
        turned_below(t, spec_encode_node(n, key, base), key),
    ensures
        spec_decode_node(t, key) is Value,
    decreases n, 0nat,
{
    lemma_layout(key);
    lemma_address_injective_forall(key);
    lemma_rack_sites_plain();
    lemma_knob_index();
    reveal_strlit("leaf");
    reveal_strlit("src");
    reveal_strlit("mod");
    reveal_strlit("color");
    lemma_plain_address(key, "leaf"@);
    lemma_plain_address(key, "src"@);
    match n {
        AudioNode::Noise { color: v_color } => {
            let e0 = spec_put(base, key, "leaf"@, SiteValue::Flag(true));
            let e0 = spec_put(e0, key, "src"@, SiteValue::Index(2));
            let e0 = spec_put(e0, key, "color"@, SiteValue::Index(v_color.spec_index() as usize));
            assert(read_flag(t, key, "leaf"@) == Some(true));
            assert(read_index(t, key, "src"@) == Some(2usize));
            assert(read_index(t, key, "color"@) is Some);
            assert(spec_decode_node(t, key) == spec_decode_source(t, key));
        },
        _ => {},
    }
}

/// A turned trace reads back a wavetable below a plain key.
#[verifier::rlimit(40)]
proof fn lemma_turned_wavetable(
    t: Map<Seq<char>, SiteValue>,
    key: Seq<char>,
    n: AudioNode,
    base: Map<Seq<char>, SiteValue>,

)
    requires
        n is Wavetable,
        t.dom().finite(),
        is_plain(key),
        octaves_encodable(n),
        turned_below(t, spec_encode_node(n, key, base), key),
    ensures
        spec_decode_node(t, key) is Value,
    decreases n, 0nat,
{
    lemma_layout(key);
    lemma_address_injective_forall(key);
    lemma_rack_sites_plain();
    lemma_knob_index();
    reveal_strlit("leaf");
    reveal_strlit("src");
    reveal_strlit("mod");
    reveal_strlit("table");
    reveal_strlit("oct");
    reveal_strlit("morph");
    reveal_strlit("mdepth");
    lemma_plain_address(key, "leaf"@);
    lemma_plain_address(key, "src"@);
    match n {
        AudioNode::Wavetable { table: v_table, octave: v_octave, morph: v_morph, mod_depth: v_mod_depth, modulation: v_modulation } => {
            lemma_octave_round_trip(v_octave);
            lemma_plain_address(key, "oct"@);
            let e0 = spec_put(base, key, "leaf"@, SiteValue::Flag(true));
            let e0 = spec_put(e0, key, "src"@, SiteValue::Index(3));
            let e0 = spec_put(e0, key, "table"@, SiteValue::Index(v_table.spec_index() as usize));
            let e0 = spec_put(e0, key, "oct"@, SiteValue::Index(spec_octave_index(v_octave)));
            let e0 = spec_put(e0, key, "morph"@, SiteValue::Real(v_morph));
            let e0 = spec_put(e0, key, "mdepth"@, SiteValue::Real(v_mod_depth));
            let km = spec_mod_key(key);
            lemma_encode_mod_frame(v_modulation, km, e0);
            let em = spec_encode_mod(v_modulation, km, e0);
            lemma_turned_narrow(t, spec_encode_node(n, key, base), em, key, km);
            lemma_turned_mod(t, km, v_modulation, e0);
            assert("src"@[0] != "oct"@[0]);
            assert("table"@[0] != "morph"@[0]);
            assert(read_flag(t, key, "leaf"@) == Some(true));
            assert(read_index(t, key, "src"@) == Some(3usize));
            assert(read_index(t, key, "table"@) is Some);
            assert(read_index(t, key, "oct"@) is Some);
            assert(!octave_overflows(read_index(t, key, "oct"@).unwrap()));
            assert(read_real(t, key, "morph"@) is Some);
            assert(read_real(t, key, "mdepth"@) is Some);
            assert(spec_decode_node(t, key) == spec_decode_source(t, key));
        },
        _ => {},
    }
}

/// A turned trace reads back a pluck below a plain key.
#[verifier::rlimit(40)]
proof fn lemma_turned_pluck(
    t: Map<Seq<char>, SiteValue>,
    key: Seq<char>,
    n: AudioNode,
    base: Map<Seq<char>, SiteValue>,

)
    requires
        n is Pluck,
        t.dom().finite(),
        is_plain(key),
        octaves_encodable(n),
        turned_below(t, spec_encode_node(n, key, base), key),
    ensures
        spec_decode_node(t, key) is Value,
    decreases n, 0nat,
{
    lemma_layout(key);
    lemma_address_injective_forall(key);
    lemma_rack_sites_plain();
    lemma_knob_index();
    reveal_strlit("leaf");
    reveal_strlit("src");
    reveal_strlit("mod");
    reveal_strlit("oct");
    reveal_strlit("damp");
    reveal_strlit("bright");
    reveal_strlit("mdepth");
    lemma_plain_address(key, "leaf"@);
    lemma_plain_address(key, "src"@);
    match n {
        AudioNode::Pluck { octave: v_octave, damping: v_damping, brightness: v_brightness, mod_depth: v_mod_depth, modulation: v_modulation } => {
            lemma_octave_round_trip(v_octave);
            lemma_plain_address(key, "oct"@);
            let e0 = spec_put(base, key, "leaf"@, SiteValue::Flag(true));
            let e0 = spec_put(e0, key, "src"@, SiteValue::Index(4));
            let e0 = spec_put(e0, key, "oct"@, SiteValue::Index(spec_octave_index(v_octave)));
            let e0 = spec_put(e0, key, "damp"@, SiteValue::Real(v_damping));
            let e0 = spec_put(e0, key, "bright"@, SiteValue::Real(v_brightness));
            let e0 = spec_put(e0, key, "mdepth"@, SiteValue::Real(v_mod_depth));
            let km = spec_mod_key(key);
            lemma_encode_mod_frame(v_modulation, km, e0);
            let em = spec_encode_mod(v_modulation, km, e0);
            lemma_turned_narrow(t, spec_encode_node(n, key, base), em, key, km);
            lemma_turned_mod(t, km, v_modulation, e0);
            assert("leaf"@[0] != "damp"@[0]);
            assert("src"@[0] != "oct"@[0]);
            assert("bright"@[0] != "mdepth"@[0]);
            assert(read_flag(t, key, "leaf"@) == Some(true));
            assert(read_index(t, key, "src"@) == Some(4usize));
            assert(read_index(t, key, "oct"@) is Some);
            assert(!octave_overflows(read_index(t, key, "oct"@).unwrap()));
            assert(read_real(t, key, "damp"@) is Some);
            assert(read_real(t, key, "bright"@) is Some);
            assert(read_real(t, key, "mdepth"@) is Some);
            assert(spec_decode_node(t, key) == spec_decode_source(t, key));
        },
        _ => {},
    }
}

/// A turned trace reads back a formant below a plain key.
#[verifier::rlimit(40)]
proof fn lemma_turned_formant(
    t: Map<Seq<char>, SiteValue>,
    key: Seq<char>,
    n: AudioNode,
    base: Map<Seq<char>, SiteValue>,

)
    requires
        n is Formant,
        t.dom().finite(),
        is_plain(key),
        octaves_encodable(n),
        turned_below(t, spec_encode_node(n, key, base), key),
    ensures
        spec_decode_node(t, key) is Value,
    decreases n, 0nat,
{
    lemma_layout(key);
    lemma_address_injective_forall(key);
    lemma_rack_sites_plain();
    lemma_knob_index();
    reveal_strlit("leaf");
    reveal_strlit("src");
    reveal_strlit("mod");
    reveal_strlit("vowel");
    reveal_strlit("fshift");
    reveal_strlit("oct");
    reveal_strlit("mdepth");
    lemma_plain_address(key, "leaf"@);
    lemma_plain_address(key, "src"@);
    match n {
        AudioNode::Formant { vowel: v_vowel, shift: v_shift, octave: v_octave, mod_depth: v_mod_depth, modulation: v_modulation } => {
            lemma_octave_round_trip(v_octave);
            lemma_plain_address(key, "oct"@);
            let e0 = spec_put(base, key, "leaf"@, SiteValue::Flag(true));
            let e0 = spec_put(e0, key, "src"@, SiteValue::Index(5));
            let e0 = spec_put(e0, key, "vowel"@, SiteValue::Real(v_vowel));
            let e0 = spec_put(e0, key, "fshift"@, SiteValue::Real(v_shift));
            let e0 = spec_put(e0, key, "oct"@, SiteValue::Index(spec_octave_index(v_octave)));
            let e0 = spec_put(e0, key, "mdepth"@, SiteValue::Real(v_mod_depth));
            let km = spec_mod_key(key);
            lemma_encode_mod_frame(v_modulation, km, e0);
            let em = spec_encode_mod(v_modulation, km, e0);
            lemma_turned_narrow(t, spec_encode_node(n, key, base), em, key, km);
            lemma_turned_mod(t, km, v_modulation, e0);
            assert("src"@[0] != "oct"@[0]);
            assert("fshift"@[0] != "mdepth"@[0]);
            assert(read_flag(t, key, "leaf"@) == Some(true));
            assert(read_index(t, key, "src"@) == Some(5usize));
            assert(read_real(t, key, "vowel"@) is Some);
            assert(read_real(t, key, "fshift"@) is Some);
            assert(read_index(t, key, "oct"@) is Some);
            assert(!octave_overflows(read_index(t, key, "oct"@).unwrap()));
            assert(read_real(t, key, "mdepth"@) is Some);
            assert(spec_decode_node(t, key) == spec_decode_source(t, key));
        },
        _ => {},
    }
}

/// A turned trace reads back a mix below a plain key.
#[verifier::rlimit(40)]
proof fn lemma_turned_mix(
    t: Map<Seq<char>, SiteValue>,
    key: Seq<char>,
    n: AudioNode,
    base: Map<Seq<char>, SiteValue>,

)
    requires
        n is Mix,
        t.dom().finite(),
        is_plain(key),
        octaves_encodable(n),
        turned_below(t, spec_encode_node(n, key, base), key),
    ensures
        spec_decode_node(t, key) is Value,
    decreases n, 0nat,
{
    lemma_layout(key);
    lemma_address_injective_forall(key);
    lemma_rack_sites_plain();
    lemma_knob_index();
    reveal_strlit("leaf");
    reveal_strlit("op");
    reveal_strlit("mod");
    reveal_strlit("bal");
    lemma_plain_address(key, "leaf"@);
    lemma_plain_address(key, "op"@);
    match n {
        AudioNode::Mix { balance: v_balance, a: v_a, b: v_b } => {
            let e0 = spec_put(base, key, "leaf"@, SiteValue::Flag(false));
            let e0 = spec_put(e0, key, "op"@, SiteValue::Index(0));
            let e0 = spec_put(e0, key, "bal"@, SiteValue::Real(v_balance));
            let k0 = spec_child_key(key, 0);
            lemma_encode_node_frame(*v_a, k0, e0);
            let f0 = spec_encode_node(*v_a, k0, e0);
            let k1 = spec_child_key(key, 1);
            lemma_encode_node_frame(*v_b, k1, f0);
            let f1 = spec_encode_node(*v_b, k1, f0);
            lemma_turned_narrow(t, spec_encode_node(n, key, base), f0, key, k0);
            lemma_turned_node(t, k0, *v_a, e0);
            lemma_turned_narrow(t, spec_encode_node(n, key, base), f1, key, k1);
            lemma_turned_node(t, k1, *v_b, f0);
            assert(read_flag(t, key, "leaf"@) == Some(false));
            assert(read_index(t, key, "op"@) == Some(0usize));
            assert(read_real(t, key, "bal"@) is Some);
            assert(t.dom().contains(spec_address(key, "op"@)));
            assert(spec_decode_node(t, key) == spec_decode_processor(t, key));
            assert(spec_decode_processor(t, key) == spec_decode_mix(t, key));
        },
        _ => {},
    }
}

/// A turned trace reads back a filter below a plain key.
#[verifier::rlimit(40)]
proof fn lemma_turned_filter(
    t: Map<Seq<char>, SiteValue>,
    key: Seq<char>,
    n: AudioNode,
    base: Map<Seq<char>, SiteValue>,

)
    requires
        n is Filter,
        t.dom().finite(),
        is_plain(key),
        octaves_encodable(n),
        turned_below(t, spec_encode_node(n, key, base), key),
    ensures
        spec_decode_node(t, key) is Value,
    decreases n, 0nat,
{
    lemma_layout(key);
    lemma_address_injective_forall(key);
    lemma_rack_sites_plain();
    lemma_knob_index();
    reveal_strlit("leaf");
    reveal_strlit("op");
    reveal_strlit("mod");
    reveal_strlit("fkind");
    reveal_strlit("cut");
    reveal_strlit("res");
    reveal_strlit("mdepth");
    lemma_plain_address(key, "leaf"@);
    lemma_plain_address(key, "op"@);
    match n {
        AudioNode::Filter { kind: v_kind, cutoff: v_cutoff, resonance: v_resonance, mod_depth: v_mod_depth, input: v_input, modulation: v_modulation } => {
            let e0 = spec_put(base, key, "leaf"@, SiteValue::Flag(false));
            let e0 = spec_put(e0, key, "op"@, SiteValue::Index(1));
            let e0 = spec_put(e0, key, "fkind"@, SiteValue::Index(v_kind.spec_index() as usize));
            let e0 = spec_put(e0, key, "cut"@, SiteValue::Real(v_cutoff));
            let e0 = spec_put(e0, key, "res"@, SiteValue::Real(v_resonance));
            let e0 = spec_put(e0, key, "mdepth"@, SiteValue::Real(v_mod_depth));
            let km = spec_mod_key(key);
            lemma_encode_mod_frame(v_modulation, km, e0);
            let em = spec_encode_mod(v_modulation, km, e0);
            let k0 = spec_child_key(key, 0);
            lemma_encode_node_frame(*v_input, k0, em);
            let f0 = spec_encode_node(*v_input, k0, em);
            lemma_turned_narrow(t, spec_encode_node(n, key, base), em, key, km);
            lemma_turned_mod(t, km, v_modulation, e0);
            lemma_turned_narrow(t, spec_encode_node(n, key, base), f0, key, k0);
            lemma_turned_node(t, k0, *v_input, em);
            assert("cut"@[0] != "res"@[0]);
            assert(read_flag(t, key, "leaf"@) == Some(false));
            assert(read_index(t, key, "op"@) == Some(1usize));
            assert(read_index(t, key, "fkind"@) is Some);
            assert(read_real(t, key, "cut"@) is Some);
            assert(read_real(t, key, "res"@) is Some);
            assert(read_real(t, key, "mdepth"@) is Some);
            assert(t.dom().contains(spec_address(key, "op"@)));
            assert(spec_decode_node(t, key) == spec_decode_processor(t, key));
            assert(spec_decode_processor(t, key) == spec_decode_filter(t, key));
        },
        _ => {},
    }
}

/// A turned trace reads back a fold below a plain key.
#[verifier::rlimit(40)]
proof fn lemma_turned_fold(
    t: Map<Seq<char>, SiteValue>,
    key: Seq<char>,
    n: AudioNode,
    base: Map<Seq<char>, SiteValue>,

)
    requires
        n is Fold,
        t.dom().finite(),
        is_plain(key),
        octaves_encodable(n),
        turned_below(t, spec_encode_node(n, key, base), key),
    ensures
        spec_decode_node(t, key) is Value,
    decreases n, 0nat,
{
    lemma_layout(key);
    lemma_address_injective_forall(key);
    lemma_rack_sites_plain();
    lemma_knob_index();
    reveal_strlit("leaf");
    reveal_strlit("op");
    reveal_strlit("mod");
    reveal_strlit("thresh");
    reveal_strlit("mdepth");
    lemma_plain_address(key, "leaf"@);
    lemma_plain_address(key, "op"@);
    match n {
        AudioNode::Fold { threshold: v_threshold, mod_depth: v_mod_depth, input: v_input, modulation: v_modulation } => {
            let e0 = spec_put(base, key, "leaf"@, SiteValue::Flag(false));
            let e0 = spec_put(e0, key, "op"@, SiteValue::Index(2));
            let e0 = spec_put(e0, key, "thresh"@, SiteValue::Real(v_threshold));
            let e0 = spec_put(e0, key, "mdepth"@, SiteValue::Real(v_mod_depth));
            let km = spec_mod_key(key);
            lemma_encode_mod_frame(v_modulation, km, e0);
            let em = spec_encode_mod(v_modulation, km, e0);
            let k0 = spec_child_key(key, 0);
            lemma_encode_node_frame(*v_input, k0, em);
            let f0 = spec_encode_node(*v_input, k0, em);
            lemma_turned_narrow(t, spec_encode_node(n, key, base), em, key, km);
            lemma_turned_mod(t, km, v_modulation, e0);
            lemma_turned_narrow(t, spec_encode_node(n, key, base), f0, key, k0);
            lemma_turned_node(t, k0, *v_input, em);
            assert("thresh"@[0] != "mdepth"@[0]);
            assert(read_flag(t, key, "leaf"@) == Some(false));
            assert(read_index(t, key, "op"@) == Some(2usize));
            assert(read_real(t, key, "thresh"@) is Some);
            assert(read_real(t, key, "mdepth"@) is Some);
            assert(t.dom().contains(spec_address(key, "op"@)));
            assert(spec_decode_node(t, key) == spec_decode_processor(t, key));
            assert(spec_decode_processor(t, key) == spec_decode_fold(t, key));
        },
        _ => {},
    }
}

/// A turned trace reads back a delay below a plain key.
#[verifier::rlimit(40)]
proof fn lemma_turned_delay(
    t: Map<Seq<char>, SiteValue>,
    key: Seq<char>,
    n: AudioNode,
    base: Map<Seq<char>, SiteValue>,

)
    requires
        n is Delay,
        t.dom().finite(),
        is_plain(key),
        octaves_encodable(n),
        turned_below(t, spec_encode_node(n, key, base), key),
    ensures
        spec_decode_node(t, key) is Value,
    decreases n, 0nat,
{
    lemma_layout(key);
    lemma_address_injective_forall(key);
    lemma_rack_sites_plain();
    lemma_knob_index();
    reveal_strlit("leaf");
    reveal_strlit("op");
    reveal_strlit("mod");
    reveal_strlit("time");
    reveal_strlit("fb");
    reveal_strlit("dmix");
    reveal_strlit("mdepth");
    lemma_plain_address(key, "leaf"@);
    lemma_plain_address(key, "op"@);
    match n {
        AudioNode::Delay { time: v_time, feedback: v_feedback, mix: v_mix, mod_depth: v_mod_depth, input: v_input, modulation: v_modulation } => {
            let e0 = spec_put(base, key, "leaf"@, SiteValue::Flag(false));
            let e0 = spec_put(e0, key, "op"@, SiteValue::Index(3));
            let e0 = spec_put(e0, key, "time"@, SiteValue::Real(v_time));
            let e0 = spec_put(e0, key, "fb"@, SiteValue::Real(v_feedback));
            let e0 = spec_put(e0, key, "dmix"@, SiteValue::Real(v_mix));
            let e0 = spec_put(e0, key, "mdepth"@, SiteValue::Real(v_mod_depth));
            let km = spec_mod_key(key);
            lemma_encode_mod_frame(v_modulation, km, e0);
            let em = spec_encode_mod(v_modulation, km, e0);
            let k0 = spec_child_key(key, 0);
            lemma_encode_node_frame(*v_input, k0, em);
            let f0 = spec_encode_node(*v_input, k0, em);
            lemma_turned_narrow(t, spec_encode_node(n, key, base), em, key, km);
            lemma_turned_mod(t, km, v_modulation, e0);
            lemma_turned_narrow(t, spec_encode_node(n, key, base), f0, key, k0);
            lemma_turned_node(t, k0, *v_input, em);
            assert("leaf"@[0] != "time"@[0]);
            assert("leaf"@[0] != "dmix"@[0]);
            assert("op"@[0] != "fb"@[0]);
            assert("time"@[0] != "dmix"@[0]);
            assert(read_flag(t, key, "leaf"@) == Some(false));
            assert(read_index(t, key, "op"@) == Some(3usize));
            assert(read_real(t, key, "time"@) is Some);
            assert(read_real(t, key, "fb"@) is Some);
            assert(read_real(t, key, "dmix"@) is Some);
            assert(read_real(t, key, "mdepth"@) is Some);
            assert(t.dom().contains(spec_address(key, "op"@)));
            assert(spec_decode_node(t, key) == spec_decode_processor(t, key));
            assert(spec_decode_processor(t, key) == spec_decode_delay(t, key));
        },
        _ => {},
    }
}

/// A turned trace reads back a chorus below a plain key.
#[verifier::rlimit(40)]
proof fn lemma_turned_chorus(
    t: Map<Seq<char>, SiteValue>,
    key: Seq<char>,
    n: AudioNode,
    base: Map<Seq<char>, SiteValue>,

)
    requires
        n is Chorus,
        t.dom().finite(),
        is_plain(key),
        octaves_encodable(n),
        turned_below(t, spec_encode_node(n, key, base), key),
    ensures
        spec_decode_node(t, key) is Value,
    decreases n, 0nat,
{
    lemma_layout(key);
    lemma_address_injective_forall(key);
    lemma_rack_sites_plain();
    lemma_knob_index();
    reveal_strlit("leaf");
    reveal_strlit("op");
    reveal_strlit("mod");
    reveal_strlit("crate");
    reveal_strlit("cdepth");
    reveal_strlit("cmix");
    reveal_strlit("mdepth");
    lemma_plain_address(key, "leaf"@);
    lemma_plain_address(key, "op"@);
    match n {
        AudioNode::Chorus { rate: v_rate, depth: v_depth, mix: v_mix, mod_depth: v_mod_depth, input: v_input, modulation: v_modulation } => {
            let e0 = spec_put(base, key, "leaf"@, SiteValue::Flag(false));
            let e0 = spec_put(e0, key, "op"@, SiteValue::Index(4));
            let e0 = spec_put(e0, key, "crate"@, SiteValue::Real(v_rate));
            let e0 = spec_put(e0, key, "cdepth"@, SiteValue::Real(v_depth));
            let e0 = spec_put(e0, key, "cmix"@, SiteValue::Real(v_mix));
            let e0 = spec_put(e0, key, "mdepth"@, SiteValue::Real(v_mod_depth));
            let km = spec_mod_key(key);
            lemma_encode_mod_frame(v_modulation, km, e0);
            let em = spec_encode_mod(v_modulation, km, e0);
            let k0 = spec_child_key(key, 0);
            lemma_encode_node_frame(*v_input, k0, em);
            let f0 = spec_encode_node(*v_input, k0, em);
            lemma_turned_narrow(t, spec_encode_node(n, key, base), em, key, km);
            lemma_turned_mod(t, km, v_modulation, e0);
            lemma_turned_narrow(t, spec_encode_node(n, key, base), f0, key, k0);
            lemma_turned_node(t, k0, *v_input, em);
            assert("leaf"@[0] != "cmix"@[0]);
            assert("cdepth"@[0] != "mdepth"@[0]);
            assert(read_flag(t, key, "leaf"@) == Some(false));
            assert(read_index(t, key, "op"@) == Some(4usize));
            assert(read_real(t, key, "crate"@) is Some);
            assert(read_real(t, key, "cdepth"@) is Some);
            assert(read_real(t, key, "cmix"@) is Some);
            assert(read_real(t, key, "mdepth"@) is Some);
            assert(t.dom().contains(spec_address(key, "op"@)));
            assert(spec_decode_node(t, key) == spec_decode_processor(t, key));
            assert(spec_decode_processor(t, key) == spec_decode_chorus(t, key));
        },
        _ => {},
    }
}

/// A turned trace reads back a reverb below a plain key.
#[verifier::rlimit(40)]
proof fn lemma_turned_reverb(
    t: Map<Seq<char>, SiteValue>,
    key: Seq<char>,
    n: AudioNode,
    base: Map<Seq<char>, SiteValue>,

)
    requires
        n is Reverb,
        t.dom().finite(),
        is_plain(key),
        octaves_encodable(n),
        turned_below(t, spec_encode_node(n, key, base), key),
    ensures
        spec_decode_node(t, key) is Value,
    decreases n, 0nat,
{
    lemma_layout(key);
    lemma_address_injective_forall(key);
    lemma_rack_sites_plain();
    lemma_knob_index();
    reveal_strlit("leaf");
    reveal_strlit("op");
    reveal_strlit("mod");
    reveal_strlit("rsize");
    reveal_strlit("rdamp");
    reveal_strlit("rmix");
    reveal_strlit("mdepth");
    lemma_plain_address(key, "leaf"@);
    lemma_plain_address(key, "op"@);
    match n {
        AudioNode::Reverb { size: v_size, damp: v_damp, mix: v_mix, mod_depth: v_mod_depth, input: v_input, modulation: v_modulation } => {
            let e0 = spec_put(base, key, "leaf"@, SiteValue::Flag(false));
            let e0 = spec_put(e0, key, "op"@, SiteValue::Index(5));
            let e0 = spec_put(e0, key, "rsize"@, SiteValue::Real(v_size));
            let e0 = spec_put(e0, key, "rdamp"@, SiteValue::Real(v_damp));
            let e0 = spec_put(e0, key, "rmix"@, SiteValue::Real(v_mix));
            let e0 = spec_put(e0, key, "mdepth"@, SiteValue::Real(v_mod_depth));
            let km = spec_mod_key(key);
            lemma_encode_mod_frame(v_modulation, km, e0);
            let em = spec_encode_mod(v_modulation, km, e0);
            let k0 = spec_child_key(key, 0);
            lemma_encode_node_frame(*v_input, k0, em);
            let f0 = spec_encode_node(*v_input, k0, em);
            lemma_turned_narrow(t, spec_encode_node(n, key, base), em, key, km);
            lemma_turned_mod(t, km, v_modulation, e0);
            lemma_turned_narrow(t, spec_encode_node(n, key, base), f0, key, k0);
            lemma_turned_node(t, k0, *v_input, em);
            assert("leaf"@[0] != "rmix"@[0]);
            assert("rsize"@[1] != "rdamp"@[1]);
            assert(read_flag(t, key, "leaf"@) == Some(false));
            assert(read_index(t, key, "op"@) == Some(5usize));
            assert(read_real(t, key, "rsize"@) is Some);
            assert(read_real(t, key, "rdamp"@) is Some);
            assert(read_real(t, key, "rmix"@) is Some);
            assert(read_real(t, key, "mdepth"@) is Some);
            assert(t.dom().contains(spec_address(key, "op"@)));
            assert(spec_decode_node(t, key) == spec_decode_processor(t, key));
            assert(spec_decode_processor(t, key) == spec_decode_reverb(t, key));
        },
        _ => {},
    }
}

/// A turned trace reads back a distortion below a plain key.
#[verifier::rlimit(40)]
proof fn lemma_turned_distortion(
    t: Map<Seq<char>, SiteValue>,
    key: Seq<char>,
    n: AudioNode,
    base: Map<Seq<char>, SiteValue>,

)
    requires
        n is Distortion,
        t.dom().finite(),
        is_plain(key),
        octaves_encodable(n),
        turned_below(t, spec_encode_node(n, key, base), key),
    ensures
        spec_decode_node(t, key) is Value,
    decreases n, 0nat,
{
    lemma_layout(key);
    lemma_address_injective_forall(key);
    lemma_rack_sites_plain();
    lemma_knob_index();
    reveal_strlit("leaf");
    reveal_strlit("op");
    reveal_strlit("mod");
    reveal_strlit("drive");
    reveal_strlit("tone");
    reveal_strlit("dmode");
    reveal_strlit("mdepth");
    lemma_plain_address(key, "leaf"@);
    lemma_plain_address(key, "op"@);
    match n {
        AudioNode::Distortion { drive: v_drive, tone: v_tone, mode: v_mode, mod_depth: v_mod_depth, input: v_input, modulation: v_modulation } => {
            let e0 = spec_put(base, key, "leaf"@, SiteValue::Flag(false));
            let e0 = spec_put(e0, key, "op"@, SiteValue::Index(6));
            let e0 = spec_put(e0, key, "drive"@, SiteValue::Real(v_drive));
            let e0 = spec_put(e0, key, "tone"@, SiteValue::Real(v_tone));
            let e0 = spec_put(e0, key, "dmode"@, SiteValue::Index(v_mode.spec_index() as usize));
            let e0 = spec_put(e0, key, "mdepth"@, SiteValue::Real(v_mod_depth));
            let km = spec_mod_key(key);
            lemma_encode_mod_frame(v_modulation, km, e0);
            let em = spec_encode_mod(v_modulation, km, e0);
            let k0 = spec_child_key(key, 0);
            lemma_encode_node_frame(*v_input, k0, em);
            let f0 = spec_encode_node(*v_input, k0, em);
            lemma_turned_narrow(t, spec_encode_node(n, key, base), em, key, km);
            lemma_turned_mod(t, km, v_modulation, e0);
            lemma_turned_narrow(t, spec_encode_node(n, key, base), f0, key, k0);
            lemma_turned_node(t, k0, *v_input, em);
            assert("leaf"@[0] != "tone"@[0]);
            assert("drive"@[1] != "dmode"@[1]);
            assert(read_flag(t, key, "leaf"@) == Some(false));
            assert(read_index(t, key, "op"@) == Some(6usize));
            assert(read_real(t, key, "drive"@) is Some);
            assert(read_real(t, key, "tone"@) is Some);
            assert(read_index(t, key, "dmode"@) is Some);
            assert(read_real(t, key, "mdepth"@) is Some);
            assert(t.dom().contains(spec_address(key, "op"@)));
            assert(spec_decode_node(t, key) == spec_decode_processor(t, key));
            assert(spec_decode_processor(t, key) == spec_decode_distortion(t, key));
        },
        _ => {},
    }
}

/// A turned trace reads back a bitcrush below a plain key.
#[verifier::rlimit(40)]
proof fn lemma_turned_bitcrush(
    t: Map<Seq<char>, SiteValue>,
    key: Seq<char>,
    n: AudioNode,
    base: Map<Seq<char>, SiteValue>,

)
    requires
        n is Bitcrush,
        t.dom().finite(),
        is_plain(key),
        octaves_encodable(n),
        turned_below(t, spec_encode_node(n, key, base), key),
    ensures
        spec_decode_node(t, key) is Value,
    decreases n, 0nat,
{
    lemma_layout(key);
    lemma_address_injective_forall(key);
    lemma_rack_sites_plain();
    lemma_knob_index();
    reveal_strlit("leaf");
    reveal_strlit("op");
    reveal_strlit("mod");
    reveal_strlit("bits");
    reveal_strlit("dsamp");
    reveal_strlit("mdepth");
    lemma_plain_address(key, "leaf"@);
    lemma_plain_address(key, "op"@);
    match n {
        AudioNode::Bitcrush { bits: v_bits, downsample: v_downsample, mod_depth: v_mod_depth, input: v_input, modulation: v_modulation } => {
            let e0 = spec_put(base, key, "leaf"@, SiteValue::Flag(false));
            let e0 = spec_put(e0, key, "op"@, SiteValue::Index(7));
            let e0 = spec_put(e0, key, "bits"@, SiteValue::Real(v_bits));
            let e0 = spec_put(e0, key, "dsamp"@, SiteValue::Real(v_downsample));
            let e0 = spec_put(e0, key, "mdepth"@, SiteValue::Real(v_mod_depth));
            let km = spec_mod_key(key);
            lemma_encode_mod_frame(v_modulation, km, e0);
            let em = spec_encode_mod(v_modulation, km, e0);
            let k0 = spec_child_key(key, 0);
            lemma_encode_node_frame(*v_input, k0, em);
            let f0 = spec_encode_node(*v_input, k0, em);
            lemma_turned_narrow(t, spec_encode_node(n, key, base), em, key, km);
            lemma_turned_mod(t, km, v_modulation, e0);
            lemma_turned_narrow(t, spec_encode_node(n, key, base), f0, key, k0);
            lemma_turned_node(t, k0, *v_input, em);
            assert("leaf"@[0] != "bits"@[0]);
            assert(read_flag(t, key, "leaf"@) == Some(false));
            assert(read_index(t, key, "op"@) == Some(7usize));
            assert(read_real(t, key, "bits"@) is Some);
            assert(read_real(t, key, "dsamp"@) is Some);
            assert(read_real(t, key, "mdepth"@) is Some);
            assert(t.dom().contains(spec_address(key, "op"@)));
            assert(spec_decode_node(t, key) == spec_decode_processor(t, key));
            assert(spec_decode_processor(t, key) == spec_decode_bitcrush(t, key));
        },
        _ => {},
    }
}

/// A turned trace reads back a phaser below a plain key.
#[verifier::rlimit(40)]
proof fn lemma_turned_phaser(
    t: Map<Seq<char>, SiteValue>,
    key: Seq<char>,
    n: AudioNode,
    base: Map<Seq<char>, SiteValue>,

)
    requires
        n is Phaser,
        t.dom().finite(),
        is_plain(key),
        octaves_encodable(n),
        turned_below(t, spec_encode_node(n, key, base), key),
    ensures
        spec_decode_node(t, key) is Value,
    decreases n, 0nat,
{
    lemma_layout(key);
    lemma_address_injective_forall(key);
    lemma_rack_sites_plain();
    lemma_knob_index();
    reveal_strlit("leaf");
    reveal_strlit("op");
    reveal_strlit("mod");
    reveal_strlit("prate");
    reveal_strlit("pdepth");
    reveal_strlit("pfb");
    reveal_strlit("mdepth");
    lemma_plain_address(key, "leaf"@);
    lemma_plain_address(key, "op"@);
    match n {
        AudioNode::Phaser { rate: v_rate, depth: v_depth, feedback: v_feedback, mod_depth: v_mod_depth, input: v_input, modulation: v_modulation } => {
            let e0 = spec_put(base, key, "leaf"@, SiteValue::Flag(false));
            let e0 = spec_put(e0, key, "op"@, SiteValue::Index(8));
            let e0 = spec_put(e0, key, "prate"@, SiteValue::Real(v_rate));
            let e0 = spec_put(e0, key, "pdepth"@, SiteValue::Real(v_depth));
            let e0 = spec_put(e0, key, "pfb"@, SiteValue::Real(v_feedback));
            let e0 = spec_put(e0, key, "mdepth"@, SiteValue::Real(v_mod_depth));
            let km = spec_mod_key(key);
            lemma_encode_mod_frame(v_modulation, km, e0);
            let em = spec_encode_mod(v_modulation, km, e0);
            let k0 = spec_child_key(key, 0);
            lemma_encode_node_frame(*v_input, k0, em);
            let f0 = spec_encode_node(*v_input, k0, em);
            lemma_turned_narrow(t, spec_encode_node(n, key, base), em, key, km);
            lemma_turned_mod(t, km, v_modulation, e0);
            lemma_turned_narrow(t, spec_encode_node(n, key, base), f0, key, k0);
            lemma_turned_node(t, k0, *v_input, em);
            assert("pdepth"@[0] != "mdepth"@[0]);
            assert(read_flag(t, key, "leaf"@) == Some(false));
            assert(read_index(t, key, "op"@) == Some(8usize));
            assert(read_real(t, key, "prate"@) is Some);
            assert(read_real(t, key, "pdepth"@) is Some);
            assert(read_real(t, key, "pfb"@) is Some);
            assert(read_real(t, key, "mdepth"@) is Some);
            assert(t.dom().contains(spec_address(key, "op"@)));
            assert(spec_decode_node(t, key) == spec_decode_processor(t, key));
            assert(spec_decode_processor(t, key) == spec_decode_phaser(t, key));
        },
        _ => {},
    }
}

/// A turned trace reads back a ring mod below a plain key.
#[verifier::rlimit(40)]
proof fn lemma_turned_ring_mod(
    t: Map<Seq<char>, SiteValue>,
    key: Seq<char>,
    n: AudioNode,
    base: Map<Seq<char>, SiteValue>,

)
    requires
        n is RingMod,
        t.dom().finite(),
        is_plain(key),
        octaves_encodable(n),
        turned_below(t, spec_encode_node(n, key, base), key),
    ensures
        spec_decode_node(t, key) is Value,
    decreases n, 0nat,
{
    lemma_layout(key);
    lemma_address_injective_forall(key);
    lemma_rack_sites_plain();
    lemma_knob_index();
    reveal_strlit("leaf");
    reveal_strlit("op");
    reveal_strlit("mod");
    reveal_strlit("rgmix");
    lemma_plain_address(key, "leaf"@);
    lemma_plain_address(key, "op"@);
    match n {
        AudioNode::RingMod { mix: v_mix, a: v_a, b: v_b } => {
            let e0 = spec_put(base, key, "leaf"@, SiteValue::Flag(false));
            let e0 = spec_put(e0, key, "op"@, SiteValue::Index(9));
            let e0 = spec_put(e0, key, "rgmix"@, SiteValue::Real(v_mix));
            let k0 = spec_child_key(key, 0);
            lemma_encode_node_frame(*v_a, k0, e0);
            let f0 = spec_encode_node(*v_a, k0, e0);
            let k1 = spec_child_key(key, 1);
            lemma_encode_node_frame(*v_b, k1, f0);
            let f1 = spec_encode_node(*v_b, k1, f0);
            lemma_turned_narrow(t, spec_encode_node(n, key, base), f0, key, k0);
            lemma_turned_node(t, k0, *v_a, e0);
            lemma_turned_narrow(t, spec_encode_node(n, key, base), f1, key, k1);
            lemma_turned_node(t, k1, *v_b, f0);
            assert(read_flag(t, key, "leaf"@) == Some(false));
            assert(read_index(t, key, "op"@) == Some(9usize));
            assert(read_real(t, key, "rgmix"@) is Some);
            assert(t.dom().contains(spec_address(key, "op"@)));
            assert(spec_decode_node(t, key) == spec_decode_processor(t, key));
            assert(spec_decode_processor(t, key) == spec_decode_ring_mod(t, key));
        },
        _ => {},
    }
}

/// A turned trace reads back a flanger below a plain key.
#[verifier::rlimit(40)]
proof fn lemma_turned_flanger(
    t: Map<Seq<char>, SiteValue>,
    key: Seq<char>,
    n: AudioNode,
    base: Map<Seq<char>, SiteValue>,

)
    requires
        n is Flanger,
        t.dom().finite(),
        is_plain(key),
        octaves_encodable(n),
        turned_below(t, spec_encode_node(n, key, base), key),
    ensures
        spec_decode_node(t, key) is Value,
    decreases n, 0nat,
{
    lemma_layout(key);
    lemma_address_injective_forall(key);
    lemma_rack_sites_plain();
    lemma_knob_index();
    reveal_strlit("leaf");
    reveal_strlit("op");
    reveal_strlit("mod");
    reveal_strlit("frate");
    reveal_strlit("fdepth");
    reveal_strlit("ffb");
    reveal_strlit("mdepth");
    lemma_plain_address(key, "leaf"@);
    lemma_plain_address(key, "op"@);
    match n {
        AudioNode::Flanger { rate: v_rate, depth: v_depth, feedback: v_feedback, mod_depth: v_mod_depth, input: v_input, modulation: v_modulation } => {
            let e0 = spec_put(base, key, "leaf"@, SiteValue::Flag(false));
            let e0 = spec_put(e0, key, "op"@, SiteValue::Index(10));
            let e0 = spec_put(e0, key, "frate"@, SiteValue::Real(v_rate));
            let e0 = spec_put(e0, key, "fdepth"@, SiteValue::Real(v_depth));
            let e0 = spec_put(e0, key, "ffb"@, SiteValue::Real(v_feedback));
            let e0 = spec_put(e0, key, "mdepth"@, SiteValue::Real(v_mod_depth));
            let km = spec_mod_key(key);
            lemma_encode_mod_frame(v_modulation, km, e0);
            let em = spec_encode_mod(v_modulation, km, e0);
            let k0 = spec_child_key(key, 0);
            lemma_encode_node_frame(*v_input, k0, em);
            let f0 = spec_encode_node(*v_input, k0, em);
            lemma_turned_narrow(t, spec_encode_node(n, key, base), em, key, km);
            lemma_turned_mod(t, km, v_modulation, e0);
            lemma_turned_narrow(t, spec_encode_node(n, key, base), f0, key, k0);
            lemma_turned_node(t, k0, *v_input, em);
            assert("fdepth"@[0] != "mdepth"@[0]);
            assert(read_flag(t, key, "leaf"@) == Some(false));
            assert(read_index(t, key, "op"@) == Some(10usize));
            assert(read_real(t, key, "frate"@) is Some);
            assert(read_real(t, key, "fdepth"@) is Some);
            assert(read_real(t, key, "ffb"@) is Some);
            assert(read_real(t, key, "mdepth"@) is Some);
            assert(t.dom().contains(spec_address(key, "op"@)));
            assert(spec_decode_node(t, key) == spec_decode_processor(t, key));
            assert(spec_decode_processor(t, key) == spec_decode_flanger(t, key));
        },
        _ => {},
    }
}

/// A turned trace reads back a tremolo below a plain key.
#[verifier::rlimit(40)]
proof fn lemma_turned_tremolo(
    t: Map<Seq<char>, SiteValue>,
    key: Seq<char>,
    n: AudioNode,
    base: Map<Seq<char>, SiteValue>,

)
    requires
        n is Tremolo,
        t.dom().finite(),
        is_plain(key),
        octaves_encodable(n),
        turned_below(t, spec_encode_node(n, key, base), key),
    ensures
        spec_decode_node(t, key) is Value,
    decreases n, 0nat,
{
    lemma_layout(key);
    lemma_address_injective_forall(key);
    lemma_rack_sites_plain();
    lemma_knob_index();
    reveal_strlit("leaf");
    reveal_strlit("op");
    reveal_strlit("mod");
    reveal_strlit("trate");
    reveal_strlit("tdepth");
    reveal_strlit("tshape");
    reveal_strlit("mdepth");
    lemma_plain_address(key, "leaf"@);
    lemma_plain_address(key, "op"@);
    match n {
        AudioNode::Tremolo { rate: v_rate, depth: v_depth, shape: v_shape, mod_depth: v_mod_depth, input: v_input, modulation: v_modulation } => {
            let e0 = spec_put(base, key, "leaf"@, SiteValue::Flag(false));
            let e0 = spec_put(e0, key, "op"@, SiteValue::Index(11));
            let e0 = spec_put(e0, key, "trate"@, SiteValue::Real(v_rate));
            let e0 = spec_put(e0, key, "tdepth"@, SiteValue::Real(v_depth));
            let e0 = spec_put(e0, key, "tshape"@, SiteValue::Real(v_shape));
            let e0 = spec_put(e0, key, "mdepth"@, SiteValue::Real(v_mod_depth));
            let km = spec_mod_key(key);
            lemma_encode_mod_frame(v_modulation, km, e0);
            let em = spec_encode_mod(v_modulation, km, e0);
            let k0 = spec_child_key(key, 0);
            lemma_encode_node_frame(*v_input, k0, em);
            let f0 = spec_encode_node(*v_input, k0, em);
            lemma_turned_narrow(t, spec_encode_node(n, key, base), em, key, km);
            lemma_turned_mod(t, km, v_modulation, e0);
            lemma_turned_narrow(t, spec_encode_node(n, key, base), f0, key, k0);
            lemma_turned_node(t, k0, *v_input, em);
            assert("tdepth"@[1] != "tshape"@[1]);
            assert("tdepth"@[0] != "mdepth"@[0]);
            assert("tshape"@[0] != "mdepth"@[0]);
            assert(read_flag(t, key, "leaf"@) == Some(false));
            assert(read_index(t, key, "op"@) == Some(11usize));
            assert(read_real(t, key, "trate"@) is Some);
            assert(read_real(t, key, "tdepth"@) is Some);
            assert(read_real(t, key, "tshape"@) is Some);
            assert(read_real(t, key, "mdepth"@) is Some);
            assert(t.dom().contains(spec_address(key, "op"@)));
            assert(spec_decode_node(t, key) == spec_decode_processor(t, key));
            assert(spec_decode_processor(t, key) == spec_decode_tremolo(t, key));
        },
        _ => {},
    }
}

/// A turned trace reads back a vibrato below a plain key.
#[verifier::rlimit(40)]
proof fn lemma_turned_vibrato(
    t: Map<Seq<char>, SiteValue>,
    key: Seq<char>,
    n: AudioNode,
    base: Map<Seq<char>, SiteValue>,

)
    requires
        n is Vibrato,
        t.dom().finite(),
        is_plain(key),
        octaves_encodable(n),
        turned_below(t, spec_encode_node(n, key, base), key),
    ensures
        spec_decode_node(t, key) is Value,
    decreases n, 0nat,
{
    lemma_layout(key);
    lemma_address_injective_forall(key);
    lemma_rack_sites_plain();
    lemma_knob_index();
    reveal_strlit("leaf");
    reveal_strlit("op");
    reveal_strlit("mod");
    reveal_strlit("vrate");
    reveal_strlit("vdepth");
    reveal_strlit("vmix");
    reveal_strlit("mdepth");
    lemma_plain_address(key, "leaf"@);
    lemma_plain_address(key, "op"@);
    match n {
        AudioNode::Vibrato { rate: v_rate, depth: v_depth, mix: v_mix, mod_depth: v_mod_depth, input: v_input, modulation: v_modulation } => {
            let e0 = spec_put(base, key, "leaf"@, SiteValue::Flag(false));
            let e0 = spec_put(e0, key, "op"@, SiteValue::Index(12));
            let e0 = spec_put(e0, key, "vrate"@, SiteValue::Real(v_rate));
            let e0 = spec_put(e0, key, "vdepth"@, SiteValue::Real(v_depth));
            let e0 = spec_put(e0, key, "vmix"@, SiteValue::Real(v_mix));
            let e0 = spec_put(e0, key, "mdepth"@, SiteValue::Real(v_mod_depth));
            let km = spec_mod_key(key);
            lemma_encode_mod_frame(v_modulation, km, e0);
            let em = spec_encode_mod(v_modulation, km, e0);
            let k0 = spec_child_key(key, 0);
            lemma_encode_node_frame(*v_input, k0, em);
            let f0 = spec_encode_node(*v_input, k0, em);
            lemma_turned_narrow(t, spec_encode_node(n, key, base), em, key, km);
            lemma_turned_mod(t, km, v_modulation, e0);
            lemma_turned_narrow(t, spec_encode_node(n, key, base), f0, key, k0);
            lemma_turned_node(t, k0, *v_input, em);
            assert("leaf"@[0] != "vmix"@[0]);
            assert("vdepth"@[0] != "mdepth"@[0]);
            assert(read_flag(t, key, "leaf"@) == Some(false));
            assert(read_index(t, key, "op"@) == Some(12usize));
            assert(read_real(t, key, "vrate"@) is Some);
            assert(read_real(t, key, "vdepth"@) is Some);
            assert(read_real(t, key, "vmix"@) is Some);
            assert(read_real(t, key, "mdepth"@) is Some);
            assert(t.dom().contains(spec_address(key, "op"@)));
            assert(spec_decode_node(t, key) == spec_decode_processor(t, key));
            assert(spec_decode_processor(t, key) == spec_decode_vibrato(t, key));
        },
        _ => {},
    }
}

/// A turned trace reads back a eq below a plain key.
#[verifier::rlimit(40)]
proof fn lemma_turned_eq(
    t: Map<Seq<char>, SiteValue>,
    key: Seq<char>,
    n: AudioNode,
    base: Map<Seq<char>, SiteValue>,

)
    requires
        n is Eq,
        t.dom().finite(),
        is_plain(key),
        octaves_encodable(n),
        turned_below(t, spec_encode_node(n, key, base), key),
    ensures
        spec_decode_node(t, key) is Value,
    decreases n, 0nat,
{
    lemma_layout(key);
    lemma_address_injective_forall(key);
    lemma_rack_sites_plain();
    lemma_knob_index();
    reveal_strlit("leaf");
    reveal_strlit("op");
    reveal_strlit("mod");
    reveal_strlit("low");
    reveal_strlit("mid");
    reveal_strlit("high");
    reveal_strlit("mdepth");
    lemma_plain_address(key, "leaf"@);
    lemma_plain_address(key, "op"@);
    match n {
        AudioNode::Eq { low: v_low, mid: v_mid, high: v_high, mod_depth: v_mod_depth, input: v_input, modulation: v_modulation } => {
            let e0 = spec_put(base, key, "leaf"@, SiteValue::Flag(false));
            let e0 = spec_put(e0, key, "op"@, SiteValue::Index(13));
            let e0 = spec_put(e0, key, "low"@, SiteValue::Real(v_low));
            let e0 = spec_put(e0, key, "mid"@, SiteValue::Real(v_mid));
            let e0 = spec_put(e0, key, "high"@, SiteValue::Real(v_high));
            let e0 = spec_put(e0, key, "mdepth"@, SiteValue::Real(v_mod_depth));
            let km = spec_mod_key(key);
            lemma_encode_mod_frame(v_modulation, km, e0);
            let em = spec_encode_mod(v_modulation, km, e0);
            let k0 = spec_child_key(key, 0);
            lemma_encode_node_frame(*v_input, k0, em);
            let f0 = spec_encode_node(*v_input, k0, em);
            lemma_turned_narrow(t, spec_encode_node(n, key, base), em, key, km);
            lemma_turned_mod(t, km, v_modulation, e0);
            lemma_turned_narrow(t, spec_encode_node(n, key, base), f0, key, k0);
            lemma_turned_node(t, k0, *v_input, em);
            assert("leaf"@[0] != "high"@[0]);
            assert("low"@[0] != "mid"@[0]);
            assert(read_flag(t, key, "leaf"@) == Some(false));
            assert(read_index(t, key, "op"@) == Some(13usize));
            assert(read_real(t, key, "low"@) is Some);
            assert(read_real(t, key, "mid"@) is Some);
            assert(read_real(t, key, "high"@) is Some);
            assert(read_real(t, key, "mdepth"@) is Some);
            assert(t.dom().contains(spec_address(key, "op"@)));
            assert(spec_decode_node(t, key) == spec_decode_processor(t, key));
            assert(spec_decode_processor(t, key) == spec_decode_eq(t, key));
        },
        _ => {},
    }
}

/// A turned trace reads back a granular below a plain key.
#[verifier::rlimit(40)]
proof fn lemma_turned_granular(
    t: Map<Seq<char>, SiteValue>,
    key: Seq<char>,
    n: AudioNode,
    base: Map<Seq<char>, SiteValue>,

)
    requires
        n is Granular,
        t.dom().finite(),
        is_plain(key),
        octaves_encodable(n),
        turned_below(t, spec_encode_node(n, key, base), key),
    ensures
        spec_decode_node(t, key) is Value,
    decreases n, 0nat,
{
    lemma_layout(key);
    lemma_address_injective_forall(key);
    lemma_rack_sites_plain();
    lemma_knob_index();
    reveal_strlit("leaf");
    reveal_strlit("op");
    reveal_strlit("mod");
    reveal_strlit("gpos");
    reveal_strlit("gsize");
    reveal_strlit("gdens");
    reveal_strlit("mdepth");
    lemma_plain_address(key, "leaf"@);
    lemma_plain_address(key, "op"@);
    match n {
        AudioNode::Granular { position: v_position, size: v_size, density: v_density, mod_depth: v_mod_depth, input: v_input, modulation: v_modulation } => {
            let e0 = spec_put(base, key, "leaf"@, SiteValue::Flag(false));
            let e0 = spec_put(e0, key, "op"@, SiteValue::Index(14));
            let e0 = spec_put(e0, key, "gpos"@, SiteValue::Real(v_position));
            let e0 = spec_put(e0, key, "gsize"@, SiteValue::Real(v_size));
            let e0 = spec_put(e0, key, "gdens"@, SiteValue::Real(v_density));
            let e0 = spec_put(e0, key, "mdepth"@, SiteValue::Real(v_mod_depth));
            let km = spec_mod_key(key);
            lemma_encode_mod_frame(v_modulation, km, e0);
            let em = spec_encode_mod(v_modulation, km, e0);
            let k0 = spec_child_key(key, 0);
            lemma_encode_node_frame(*v_input, k0, em);
            let f0 = spec_encode_node(*v_input, k0, em);
            lemma_turned_narrow(t, spec_encode_node(n, key, base), em, key, km);
            lemma_turned_mod(t, km, v_modulation, e0);
            lemma_turned_narrow(t, spec_encode_node(n, key, base), f0, key, k0);
            lemma_turned_node(t, k0, *v_input, em);
            assert("leaf"@[0] != "gpos"@[0]);
            assert("gsize"@[1] != "gdens"@[1]);
            assert(read_flag(t, key, "leaf"@) == Some(false));
            assert(read_index(t, key, "op"@) == Some(14usize));
            assert(read_real(t, key, "gpos"@) is Some);
            assert(read_real(t, key, "gsize"@) is Some);
            assert(read_real(t, key, "gdens"@) is Some);
            assert(read_real(t, key, "mdepth"@) is Some);
            assert(t.dom().contains(spec_address(key, "op"@)));
            assert(spec_decode_node(t, key) == spec_decode_processor(t, key));
            assert(spec_decode_processor(t, key) == spec_decode_granular(t, key));
        },
        _ => {},
    }
}

/// A turned trace reads back a shift below a plain key.
#[verifier::rlimit(40)]
proof fn lemma_turned_shift(
    t: Map<Seq<char>, SiteValue>,
    key: Seq<char>,
    n: AudioNode,
    base: Map<Seq<char>, SiteValue>,

)
    requires
        n is Shift,
        t.dom().finite(),
        is_plain(key),
        octaves_encodable(n),
        turned_below(t, spec_encode_node(n, key, base), key),
    ensures
        spec_decode_node(t, key) is Value,
    decreases n, 0nat,
{
    lemma_layout(key);
    lemma_address_injective_forall(key);
    lemma_rack_sites_plain();
    lemma_knob_index();
    reveal_strlit("leaf");
    reveal_strlit("op");
    reveal_strlit("mod");
    reveal_strlit("semis");
    reveal_strlit("window");
    reveal_strlit("smix");
    reveal_strlit("mdepth");
    lemma_plain_address(key, "leaf"@);
    lemma_plain_address(key, "op"@);
    match n {
        AudioNode::Shift { semis: v_semis, window: v_window, mix: v_mix, mod_depth: v_mod_depth, input: v_input, modulation: v_modulation } => {
            let e0 = spec_put(base, key, "leaf"@, SiteValue::Flag(false));
            let e0 = spec_put(e0, key, "op"@, SiteValue::Index(15));
            let e0 = spec_put(e0, key, "semis"@, SiteValue::Real(v_semis));
            let e0 = spec_put(e0, key, "window"@, SiteValue::Real(v_window));
            let e0 = spec_put(e0, key, "smix"@, SiteValue::Real(v_mix));
            let e0 = spec_put(e0, key, "mdepth"@, SiteValue::Real(v_mod_depth));
            let km = spec_mod_key(key);
            lemma_encode_mod_frame(v_modulation, km, e0);
            let em = spec_encode_mod(v_modulation, km, e0);
            let k0 = spec_child_key(key, 0);
            lemma_encode_node_frame(*v_input, k0, em);
            let f0 = spec_encode_node(*v_input, k0, em);
            lemma_turned_narrow(t, spec_encode_node(n, key, base), em, key, km);
            lemma_turned_mod(t, km, v_modulation, e0);
            lemma_turned_narrow(t, spec_encode_node(n, key, base), f0, key, k0);
            lemma_turned_node(t, k0, *v_input, em);
            assert("leaf"@[0] != "smix"@[0]);
            assert("window"@[0] != "mdepth"@[0]);
            assert(read_flag(t, key, "leaf"@) == Some(false));
            assert(read_index(t, key, "op"@) == Some(15usize));
            assert(read_real(t, key, "semis"@) is Some);
            assert(read_real(t, key, "window"@) is Some);
            assert(read_real(t, key, "smix"@) is Some);
            assert(read_real(t, key, "mdepth"@) is Some);
            assert(t.dom().contains(spec_address(key, "op"@)));
            assert(spec_decode_node(t, key) == spec_decode_processor(t, key));
            assert(spec_decode_processor(t, key) == spec_decode_shift(t, key));
        },
        _ => {},
    }
}

/// A turned trace reads back a comp below a plain key.
#[verifier::rlimit(40)]
proof fn lemma_turned_comp(
    t: Map<Seq<char>, SiteValue>,
    key: Seq<char>,
    n: AudioNode,
    base: Map<Seq<char>, SiteValue>,

)
    requires
        n is Comp,
        t.dom().finite(),
        is_plain(key),
        octaves_encodable(n),
        turned_below(t, spec_encode_node(n, key, base), key),
    ensures
        spec_decode_node(t, key) is Value,
    decreases n, 0nat,
{
    lemma_layout(key);
    lemma_address_injective_forall(key);
    lemma_rack_sites_plain();
    lemma_knob_index();
    reveal_strlit("leaf");
    reveal_strlit("op");
    reveal_strlit("mod");
    reveal_strlit("thresh");
    reveal_strlit("ratio");
    reveal_strlit("makeup");
    reveal_strlit("mdepth");
    lemma_plain_address(key, "leaf"@);
    lemma_plain_address(key, "op"@);
    match n {
        AudioNode::Comp { threshold: v_threshold, ratio: v_ratio, makeup: v_makeup, mod_depth: v_mod_depth, input: v_input, sidechain: v_sidechain, modulation: v_modulation } => {
            let e0 = spec_put(base, key, "leaf"@, SiteValue::Flag(false));
            let e0 = spec_put(e0, key, "op"@, SiteValue::Index(16));
            let e0 = spec_put(e0, key, "thresh"@, SiteValue::Real(v_threshold));
            let e0 = spec_put(e0, key, "ratio"@, SiteValue::Real(v_ratio));
            let e0 = spec_put(e0, key, "makeup"@, SiteValue::Real(v_makeup));
            let e0 = spec_put(e0, key, "mdepth"@, SiteValue::Real(v_mod_depth));
            let km = spec_mod_key(key);
            lemma_encode_mod_frame(v_modulation, km, e0);
            let em = spec_encode_mod(v_modulation, km, e0);
            let k0 = spec_child_key(key, 0);
            lemma_encode_node_frame(*v_input, k0, em);
            let f0 = spec_encode_node(*v_input, k0, em);
            let k1 = spec_child_key(key, 1);
            lemma_encode_node_frame(*v_sidechain, k1, f0);
            let f1 = spec_encode_node(*v_sidechain, k1, f0);
            lemma_turned_narrow(t, spec_encode_node(n, key, base), em, key, km);
            lemma_turned_mod(t, km, v_modulation, e0);
            lemma_turned_narrow(t, spec_encode_node(n, key, base), f0, key, k0);
            lemma_turned_node(t, k0, *v_input, em);
            lemma_turned_narrow(t, spec_encode_node(n, key, base), f1, key, k1);
            lemma_turned_node(t, k1, *v_sidechain, f0);
            assert("thresh"@[0] != "makeup"@[0]);
            assert("thresh"@[0] != "mdepth"@[0]);
            assert("makeup"@[1] != "mdepth"@[1]);
            assert(read_flag(t, key, "leaf"@) == Some(false));
            assert(read_index(t, key, "op"@) == Some(16usize));
            assert(read_real(t, key, "thresh"@) is Some);
            assert(read_real(t, key, "ratio"@) is Some);
            assert(read_real(t, key, "makeup"@) is Some);
            assert(read_real(t, key, "mdepth"@) is Some);
            assert(t.dom().contains(spec_address(key, "op"@)));
            assert(spec_decode_node(t, key) == spec_decode_processor(t, key));
            assert(spec_decode_processor(t, key) == spec_decode_comp(t, key));
        },
        _ => {},
    }
}

/// A turned trace reads back a duck below a plain key.
#[verifier::rlimit(40)]
proof fn lemma_turned_duck(
    t: Map<Seq<char>, SiteValue>,
    key: Seq<char>,
    n: AudioNode,
    base: Map<Seq<char>, SiteValue>,

)
    requires
        n is Duck,
        t.dom().finite(),
        is_plain(key),
        octaves_encodable(n),
        turned_below(t, spec_encode_node(n, key, base), key),
    ensures
        spec_decode_node(t, key) is Value,
    decreases n, 0nat,
{
    lemma_layout(key);
    lemma_address_injective_forall(key);
    lemma_rack_sites_plain();
    lemma_knob_index();
    reveal_strlit("leaf");
    reveal_strlit("op");
    reveal_strlit("mod");
    reveal_strlit("amount");
    reveal_strlit("dthresh");
    reveal_strlit("drel");
    reveal_strlit("mdepth");
    lemma_plain_address(key, "leaf"@);
    lemma_plain_address(key, "op"@);
    match n {
        AudioNode::Duck { amount: v_amount, threshold: v_threshold, release: v_release, mod_depth: v_mod_depth, input: v_input, key: v_key, modulation: v_modulation } => {
            let e0 = spec_put(base, key, "leaf"@, SiteValue::Flag(false));
            let e0 = spec_put(e0, key, "op"@, SiteValue::Index(17));
            let e0 = spec_put(e0, key, "amount"@, SiteValue::Real(v_amount));
            let e0 = spec_put(e0, key, "dthresh"@, SiteValue::Real(v_threshold));
            let e0 = spec_put(e0, key, "drel"@, SiteValue::Real(v_release));
            let e0 = spec_put(e0, key, "mdepth"@, SiteValue::Real(v_mod_depth));
            let km = spec_mod_key(key);
            lemma_encode_mod_frame(v_modulation, km, e0);
            let em = spec_encode_mod(v_modulation, km, e0);
            let k0 = spec_child_key(key, 0);
            lemma_encode_node_frame(*v_input, k0, em);
            let f0 = spec_encode_node(*v_input, k0, em);
            let k1 = spec_child_key(key, 1);
            lemma_encode_node_frame(*v_key, k1, f0);
            let f1 = spec_encode_node(*v_key, k1, f0);
            lemma_turned_narrow(t, spec_encode_node(n, key, base), em, key, km);
            lemma_turned_mod(t, km, v_modulation, e0);
            lemma_turned_narrow(t, spec_encode_node(n, key, base), f0, key, k0);
            lemma_turned_node(t, k0, *v_input, em);
            lemma_turned_narrow(t, spec_encode_node(n, key, base), f1, key, k1);
            lemma_turned_node(t, k1, *v_key, f0);
            assert("leaf"@[0] != "drel"@[0]);
            assert("amount"@[0] != "mdepth"@[0]);
            assert(read_flag(t, key, "leaf"@) == Some(false));
            assert(read_index(t, key, "op"@) == Some(17usize));
            assert(read_real(t, key, "amount"@) is Some);
            assert(read_real(t, key, "dthresh"@) is Some);
            assert(read_real(t, key, "drel"@) is Some);
            assert(read_real(t, key, "mdepth"@) is Some);
            assert(t.dom().contains(spec_address(key, "op"@)));
            assert(spec_decode_node(t, key) == spec_decode_processor(t, key));
            assert(spec_decode_processor(t, key) == spec_decode_duck(t, key));
        },
        _ => {},
    }
}

/// A turned trace reads back a gate below a plain key.
#[verifier::rlimit(40)]
proof fn lemma_turned_gate(
    t: Map<Seq<char>, SiteValue>,
    key: Seq<char>,
    n: AudioNode,
    base: Map<Seq<char>, SiteValue>,

)
    requires
        n is Gate,
        t.dom().finite(),
        is_plain(key),
        octaves_encodable(n),
        turned_below(t, spec_encode_node(n, key, base), key),
    ensures
        spec_decode_node(t, key) is Value,
    decreases n, 0nat,
{
    lemma_layout(key);
    lemma_address_injective_forall(key);
    lemma_rack_sites_plain();
    lemma_knob_index();
    reveal_strlit("leaf");
    reveal_strlit("op");
    reveal_strlit("mod");
    reveal_strlit("gthresh");
    reveal_strlit("range");
    reveal_strlit("grel");
    reveal_strlit("mdepth");
    lemma_plain_address(key, "leaf"@);
    lemma_plain_address(key, "op"@);
    match n {
        AudioNode::Gate { threshold: v_threshold, range: v_range, release: v_release, mod_depth: v_mod_depth, input: v_input, sidechain: v_sidechain, modulation: v_modulation } => {
            let e0 = spec_put(base, key, "leaf"@, SiteValue::Flag(false));
            let e0 = spec_put(e0, key, "op"@, SiteValue::Index(18));
            let e0 = spec_put(e0, key, "gthresh"@, SiteValue::Real(v_threshold));
            let e0 = spec_put(e0, key, "range"@, SiteValue::Real(v_range));
            let e0 = spec_put(e0, key, "grel"@, SiteValue::Real(v_release));
            let e0 = spec_put(e0, key, "mdepth"@, SiteValue::Real(v_mod_depth));
            let km = spec_mod_key(key);
            lemma_encode_mod_frame(v_modulation, km, e0);
            let em = spec_encode_mod(v_modulation, km, e0);
            let k0 = spec_child_key(key, 0);
            lemma_encode_node_frame(*v_input, k0, em);
            let f0 = spec_encode_node(*v_input, k0, em);
            let k1 = spec_child_key(key, 1);
            lemma_encode_node_frame(*v_sidechain, k1, f0);
            let f1 = spec_encode_node(*v_sidechain, k1, f0);
            lemma_turned_narrow(t, spec_encode_node(n, key, base), em, key, km);
            lemma_turned_mod(t, km, v_modulation, e0);
            lemma_turned_narrow(t, spec_encode_node(n, key, base), f0, key, k0);
            lemma_turned_node(t, k0, *v_input, em);
            lemma_turned_narrow(t, spec_encode_node(n, key, base), f1, key, k1);
            lemma_turned_node(t, k1, *v_sidechain, f0);
            assert("leaf"@[0] != "grel"@[0]);
            assert(read_flag(t, key, "leaf"@) == Some(false));
            assert(read_index(t, key, "op"@) == Some(18usize));
            assert(read_real(t, key, "gthresh"@) is Some);
            assert(read_real(t, key, "range"@) is Some);
            assert(read_real(t, key, "grel"@) is Some);
            assert(read_real(t, key, "mdepth"@) is Some);
            assert(t.dom().contains(spec_address(key, "op"@)));
            assert(spec_decode_node(t, key) == spec_decode_processor(t, key));
            assert(spec_decode_processor(t, key) == spec_decode_gate(t, key));
        },
        _ => {},
    }
}

/// A turned trace reads back a vocoder below a plain key.
#[verifier::rlimit(40)]
proof fn lemma_turned_vocoder(
    t: Map<Seq<char>, SiteValue>,
    key: Seq<char>,
    n: AudioNode,
    base: Map<Seq<char>, SiteValue>,

)
    requires
        n is Vocoder,
        t.dom().finite(),
        is_plain(key),
        octaves_encodable(n),
        turned_below(t, spec_encode_node(n, key, base), key),
    ensures
        spec_decode_node(t, key) is Value,
    decreases n, 0nat,
{
    lemma_layout(key);
    lemma_address_injective_forall(key);
    lemma_rack_sites_plain();
    lemma_knob_index();
    reveal_strlit("leaf");
    reveal_strlit("op");
    reveal_strlit("mod");
    reveal_strlit("bands");
    reveal_strlit("vatt");
    reveal_strlit("vrel");
    reveal_strlit("mdepth");
    lemma_plain_address(key, "leaf"@);
    lemma_plain_address(key, "op"@);
    match n {
        AudioNode::Vocoder { bands: v_bands, attack: v_attack, release: v_release, mod_depth: v_mod_depth, carrier: v_carrier, modulator: v_modulator, modulation: v_modulation } => {
            let e0 = spec_put(base, key, "leaf"@, SiteValue::Flag(false));
            let e0 = spec_put(e0, key, "op"@, SiteValue::Index(19));
            let e0 = spec_put(e0, key, "bands"@, SiteValue::Real(v_bands));
            let e0 = spec_put(e0, key, "vatt"@, SiteValue::Real(v_attack));
            let e0 = spec_put(e0, key, "vrel"@, SiteValue::Real(v_release));
            let e0 = spec_put(e0, key, "mdepth"@, SiteValue::Real(v_mod_depth));
            let km = spec_mod_key(key);
            lemma_encode_mod_frame(v_modulation, km, e0);
            let em = spec_encode_mod(v_modulation, km, e0);
            let k0 = spec_child_key(key, 0);
            lemma_encode_node_frame(*v_carrier, k0, em);
            let f0 = spec_encode_node(*v_carrier, k0, em);
            let k1 = spec_child_key(key, 1);
            lemma_encode_node_frame(*v_modulator, k1, f0);
            let f1 = spec_encode_node(*v_modulator, k1, f0);
            lemma_turned_narrow(t, spec_encode_node(n, key, base), em, key, km);
            lemma_turned_mod(t, km, v_modulation, e0);
            lemma_turned_narrow(t, spec_encode_node(n, key, base), f0, key, k0);
            lemma_turned_node(t, k0, *v_carrier, em);
            lemma_turned_narrow(t, spec_encode_node(n, key, base), f1, key, k1);
            lemma_turned_node(t, k1, *v_modulator, f0);
            assert("leaf"@[0] != "vatt"@[0]);
            assert("leaf"@[0] != "vrel"@[0]);
            assert("vatt"@[1] != "vrel"@[1]);
            assert(read_flag(t, key, "leaf"@) == Some(false));
            assert(read_index(t, key, "op"@) == Some(19usize));
            assert(read_real(t, key, "bands"@) is Some);
            assert(read_real(t, key, "vatt"@) is Some);
            assert(read_real(t, key, "vrel"@) is Some);
            assert(read_real(t, key, "mdepth"@) is Some);
            assert(t.dom().contains(spec_address(key, "op"@)));
            assert(spec_decode_node(t, key) == spec_decode_processor(t, key));
            assert(spec_decode_processor(t, key) == spec_decode_vocoder(t, key));
        },
        _ => {},
    }
}

/// A turned trace reads back an audio term below a plain key.
pub proof fn lemma_turned_node(
    t: Map<Seq<char>, SiteValue>,
    key: Seq<char>,
    n: AudioNode,
    base: Map<Seq<char>, SiteValue>,

)
    requires
        t.dom().finite(),
        is_plain(key),
        octaves_encodable(n),
        turned_below(t, spec_encode_node(n, key, base), key),
    ensures
        spec_decode_node(t, key) is Value,
    decreases n, 1nat,
{
    match n {
        AudioNode::Vco { .. } => lemma_turned_vco(t, key, n, base),
        AudioNode::Supersaw { .. } => lemma_turned_supersaw(t, key, n, base),
        AudioNode::Noise { .. } => lemma_turned_noise(t, key, n, base),
        AudioNode::Wavetable { .. } => lemma_turned_wavetable(t, key, n, base),
        AudioNode::Pluck { .. } => lemma_turned_pluck(t, key, n, base),
        AudioNode::Formant { .. } => lemma_turned_formant(t, key, n, base),
        AudioNode::Mix { .. } => lemma_turned_mix(t, key, n, base),
        AudioNode::Filter { .. } => lemma_turned_filter(t, key, n, base),
        AudioNode::Fold { .. } => lemma_turned_fold(t, key, n, base),
        AudioNode::Delay { .. } => lemma_turned_delay(t, key, n, base),
        AudioNode::Chorus { .. } => lemma_turned_chorus(t, key, n, base),
        AudioNode::Reverb { .. } => lemma_turned_reverb(t, key, n, base),
        AudioNode::Distortion { .. } => lemma_turned_distortion(t, key, n, base),
        AudioNode::Bitcrush { .. } => lemma_turned_bitcrush(t, key, n, base),
        AudioNode::Phaser { .. } => lemma_turned_phaser(t, key, n, base),
        AudioNode::RingMod { .. } => lemma_turned_ring_mod(t, key, n, base),
        AudioNode::Flanger { .. } => lemma_turned_flanger(t, key, n, base),
        AudioNode::Tremolo { .. } => lemma_turned_tremolo(t, key, n, base),
        AudioNode::Vibrato { .. } => lemma_turned_vibrato(t, key, n, base),
        AudioNode::Eq { .. } => lemma_turned_eq(t, key, n, base),
        AudioNode::Granular { .. } => lemma_turned_granular(t, key, n, base),
        AudioNode::Shift { .. } => lemma_turned_shift(t, key, n, base),
        AudioNode::Comp { .. } => lemma_turned_comp(t, key, n, base),
        AudioNode::Duck { .. } => lemma_turned_duck(t, key, n, base),
        AudioNode::Gate { .. } => lemma_turned_gate(t, key, n, base),
        AudioNode::Vocoder { .. } => lemma_turned_vocoder(t, key, n, base),
    }
}


/// A patch's trace with knob values changed for ones that still read back
/// reads back as a patch.
#[verifier::rlimit(80)]
proof fn lemma_turned_trace(tree: PatchTree, t2: Map<Seq<char>, SiteValue>)
    requires
        octaves_encodable(tree.root),
        t2.dom().finite(),
        turned_below(t2, spec_to_trace(tree), "node"@),
        forall|a: Seq<char>|
            !below(a, "node"@) ==> keeps_readable(
                #[trigger] spec_lookup(t2, a),
                spec_lookup(spec_to_trace(tree), a),
                site_of(a),
            ),
    ensures
        spec_from_trace(t2) is Value,
{
    let t = spec_to_trace(tree);
    let base = spec_encode_amp(tree.amp, Map::empty());
    reveal_strlit("node");
    reveal_strlit("amp");
    assert("node"@ =~= seq!['n', 'o', 'd', 'e']);
    assert("amp"@ =~= seq!['a', 'm', 'p']);
    assert(is_plain("node"@));
    assert(is_plain("amp"@));
    lemma_turned_node(t2, "node"@, tree.root, base);
    lemma_encode_node_frame(tree.root, "node"@, base);
    lemma_rack_sites_plain();
    lemma_address_injective_forall("amp"@);
    lemma_escape_plain("amp"@);
    reveal_strlit("attack");
    reveal_strlit("decay");
    reveal_strlit("sustain");
    reveal_strlit("release");
    assert("sustain"@[0] != "release"@[0]);
    assert forall|s: Seq<char>| !below(#[trigger] spec_address("amp"@, s), "node"@) by {
        let a = spec_address("amp"@, s);
        assert(a[0] == 'a');
        if a.len() > 4 {
            assert(a.take(4)[0] != "node"@[0]);
        }
    }
    assert(spec_lookup(t, spec_address("amp"@, "attack"@)) == Some(SiteValue::Real(tree.amp.attack)));
    assert(spec_lookup(t, spec_address("amp"@, "decay"@)) == Some(SiteValue::Real(tree.amp.decay)));
    assert(spec_lookup(t, spec_address("amp"@, "sustain"@)) == Some(SiteValue::Real(tree.amp.sustain)));
    assert(spec_lookup(t, spec_address("amp"@, "release"@)) == Some(SiteValue::Real(tree.amp.release)));
    assert(read_real(t2, "amp"@, "attack"@) is Some);
    assert(read_real(t2, "amp"@, "decay"@) is Some);
    assert(read_real(t2, "amp"@, "sustain"@) is Some);
    assert(read_real(t2, "amp"@, "release"@) is Some);
}

/// Every knob of a patch's rack can be turned: an edit at its address to a
/// value of its own sort — a level for a continuous knob, an index for a
/// selector — is accepted, and the edited trace reads back as a patch.
pub proof fn lemma_rack_knobs_turn(
    tree: PatchTree,
    i: int,
    j: int,
    v: ParamValue,
    r: Result<PatchTree, EditError>,
)
    requires
        octaves_encodable(tree.root),
        0 <= i < spec_describe(tree).modules.len(),
        0 <= j < spec_describe(tree).modules[i].knobs.len(),
        (spec_describe(tree).modules[i].knobs[j].kind is Continuous) == (v is Continuous),
        set_param_reports(r, tree, spec_describe(tree).modules[i].knobs[j].addr, v),
    ensures
        r is Ok,
{
    let d = spec_describe(tree);
    let k = d.modules[i].knobs[j];
    let e = k.addr;
    let site = spec_split_addr(e).1;
    let t = spec_to_trace(tree);
    lemma_rack_addresses_live(tree);
    assert(module_live(d.modules[i], t));
    assert(knob_live(k, t));
    lemma_trace_readable(tree);
    let nv = spec_edited(t[e], site, v).unwrap();
    match v {
        ParamValue::Index(x) => {
            if site == "oct"@ {
                reveal_strlit("oct");
                lemma_small_index_reads(if x < 4 { x } else { 4 });
            }
        },
        _ => {},
    }
    let t2 = t.insert(e, nv);
    assert(site_of(e) == site) by {
        reveal(site_of);
    }
    assert(keeps_readable(spec_lookup(t2, e), spec_lookup(t, e), site_of(e))) by {
        reveal(knob_index);
    }
    assert forall|a: Seq<char>| #[trigger] below(a, "node"@) implies keeps_readable(
        spec_lookup(t2, a),
        spec_lookup(t, a),
        site_of(a),
    ) by {
        if a != e {
            assert(spec_lookup(t2, a) == spec_lookup(t, a));
        }
    }
    assert forall|a: Seq<char>| !below(a, "node"@) implies keeps_readable(
        #[trigger] spec_lookup(t2, a),
        spec_lookup(t, a),
        site_of(a),
    ) by {
        if a != e {
            assert(spec_lookup(t2, a) == spec_lookup(t, a));
        }
    }
    lemma_turned_trace(tree, t2);
}

/// Repairing a patch's out-of-domain values always rebuilds it: only knob
/// values change, and each for one of the same sort, so the repaired trace
/// reads back as a patch.
pub proof fn lemma_repair_rebuilds(tree: PatchTree)
    requires
        octaves_encodable(tree.root),
    ensures
        spec_from_trace(repaired(spec_to_trace(tree))) is Value,
{
    let t = spec_to_trace(tree);
    let t2 = repaired(t);
    lemma_trace_readable(tree);
    assert(t2.dom() =~= t.dom());
    assert forall|a: Seq<char>| #[trigger] below(a, "node"@) implies keeps_readable(
        spec_lookup(t2, a),
        spec_lookup(t, a),
        site_of(a),
    ) by {}
    assert forall|a: Seq<char>| !below(a, "node"@) implies keeps_readable(
        #[trigger] spec_lookup(t2, a),
        spec_lookup(t, a),
        site_of(a),
    ) by {}
    lemma_turned_trace(tree, t2);
}

} // verus!
