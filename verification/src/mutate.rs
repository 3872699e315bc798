//! User-driven structural edits: create, delete, replace, and rewire nodes
//! in a patch tree.
//!
//! Because the genome is a typed tree, rewiring is a small vocabulary of
//! operations that are type-safe by construction: replace a node, insert a
//! node into a wire, delete or splice a node, change a modulation source,
//! swap a binary node's inputs, or install an explicit fragment. Nodes are
//! addressed by their trace key (`node`, `node/0`, `node/0/1`).

use vstd::prelude::*;
use vstd::string::StringExecFns;

use crate::term::{
    lemma_normalized_canonical, AudioNode, DriveMode, FilterKind, ModNode, ModOp, NoiseColor, PairOp, Param, PatchTree,
    TableShape, Waveform,
};
use crate::domain::{repaired, violations};
use crate::encoding::{
    idle_knobs_zero, idle_knobs_zero_node, lemma_trace_round_trip, octaves_encodable,
    spec_from_trace, spec_to_trace, Decoded,
};
use crate::repair::lemma_repair_leaves_nothing;
use crate::turning::lemma_repair_rebuilds;
use crate::text::{chars_of, decimal, parse_usize, seq_lt, spec_decimal, spec_parse_usize};
use crate::trace::spec_lookup;

verus! {

/// Hard ceiling on the number of audio nodes in a hand-built patch.
pub const MAX_SIZE: usize = 24;

/// Maximum tree depth for hand-built patches.
pub const MAX_DEPTH: usize = 9;

/// Maximum nesting depth of a hand-built modulation term.
pub const MAX_MOD_DEPTH: usize = 4;

/// 0.0
pub const P000: Param = 0x0000_0000_0000_0000;
/// 0.2
pub const P020: Param = 0x3fc9_9999_9999_999a;
/// 0.25
pub const P025: Param = 0x3fd0_0000_0000_0000;
/// 0.3
pub const P030: Param = 0x3fd3_3333_3333_3333;
/// 0.35
pub const P035: Param = 0x3fd6_6666_6666_6666;
/// 0.4
pub const P040: Param = 0x3fd9_9999_9999_999a;
/// 0.45
pub const P045: Param = 0x3fdc_cccc_cccc_cccd;
/// 0.5
pub const P050: Param = 0x3fe0_0000_0000_0000;
/// 0.55
pub const P055: Param = 0x3fe1_9999_9999_999a;
/// 0.6
pub const P060: Param = 0x3fe3_3333_3333_3333;
/// 0.62
pub const P062: Param = 0x3fe3_d70a_3d70_a3d7;
/// 0.7
pub const P070: Param = 0x3fe6_6666_6666_6666;
/// 1.0
pub const P100: Param = 0x3ff0_0000_0000_0000;
/// 2.5 / 7, the minor-scale setting of the quantizer's scale knob.
pub const MINOR: Param = 0x3fd6_db6d_b6db_6db7;

/// The buildable node palette (everything the grammar can express).
#[derive(Clone, Copy, Debug, PartialEq, Eq, Structural)]
pub enum NodeKind {
    /// Band-limited oscillator.
    Vco,
    /// Seven-voice detuned saw stack.
    Supersaw,
    /// Noise source.
    Noise,
    /// Equal-power crossfade.
    Mix,
    /// SVF / ladder filter.
    Filter,
    /// Wavefolder.
    Fold,
    /// Delay line.
    Delay,
    /// Chorus.
    Chorus,
    /// Algorithmic reverb.
    Reverb,
    /// Morphing wavetable oscillator.
    Wavetable,
    /// Karplus-Strong plucked string.
    Pluck,
    /// Waveshaping distortion.
    Distortion,
    /// Bit / sample-rate crusher.
    Bitcrush,
    /// Swept allpass phaser.
    Phaser,
    /// Ring modulator, crossfaded against its carrier.
    RingMod,
    /// Formant (vocal-tract) oscillator.
    Formant,
    /// Swept comb flanger.
    Flanger,
    /// Amplitude tremolo.
    Tremolo,
    /// Pitch vibrato.
    Vibrato,
    /// Three-band tone control.
    Eq,
    /// Granular re-reader.
    Granular,
    /// Grain pitch shifter.
    Shift,
    /// Sidechain compressor.
    Comp,
    /// Sidechain ducker.
    Duck,
    /// Keyed noise gate.
    Gate,
    /// Carrier/modulator vocoder.
    Vocoder,
}

impl NodeKind {
    /// Whether this is a source (leaf) kind.
    pub open spec fn spec_is_source(self) -> bool {
        ||| self == NodeKind::Vco
        ||| self == NodeKind::Supersaw
        ||| self == NodeKind::Noise
        ||| self == NodeKind::Wavetable
        ||| self == NodeKind::Pluck
        ||| self == NodeKind::Formant
    }

    /// Is this a source (leaf) kind?
    pub fn is_source(self) -> (r: bool)
        ensures
            r == self.spec_is_source(),
    {
        match self {
            NodeKind::Vco
            | NodeKind::Supersaw
            | NodeKind::Noise
            | NodeKind::Wavetable
            | NodeKind::Pluck
            | NodeKind::Formant => true,
            _ => false,
        }
    }
}

/// A modulation choice for [`StructOp::SetMod`].
///
/// The first six are sources: they replace whatever is in the slot. The ten
/// below them are shapers, and setting one wraps the slot's current term
/// rather than discarding it.
#[derive(Clone, Copy, Debug, PartialEq, Eq, Structural)]
pub enum ModKind {
    /// No modulation.
    Empty,
    /// LFO.
    Lfo,
    /// Attack/decay envelope.
    Env,
    /// Sample-and-hold random source.
    Rand,
    /// Envelope follower on the owning module's own input.
    Follow,
    /// Clocked euclidean gate pattern.
    Euclid,
    /// Wrap the slot in a scale quantizer.
    Quantize,
    /// Wrap the slot in a slew limiter.
    Slew,
    /// Wrap the slot in a rectifier.
    Rectify,
    /// Wrap the slot in a clocked sample-and-hold.
    Hold,
    /// Combine the slot with a second modulator, taking the lower.
    Min,
    /// Combine, taking the higher.
    Max,
    /// Combine by gate AND.
    And,
    /// Combine by gate OR.
    Or,
    /// Combine by gate XOR.
    Xor,
    /// Combine by switching between them.
    Switch,
}

impl ModKind {
    /// The unary CV processor this kind wraps the slot in, if any.
    pub open spec fn spec_as_op(self) -> Option<ModOp> {
        match self {
            ModKind::Quantize => Some(ModOp::Quantize),
            ModKind::Slew => Some(ModOp::Slew),
            ModKind::Rectify => Some(ModOp::Rectify),
            ModKind::Hold => Some(ModOp::Hold),
            _ => None,
        }
    }

    /// The binary CV combiner this kind wraps the slot in, if any.
    pub open spec fn spec_as_pair(self) -> Option<PairOp> {
        match self {
            ModKind::Min => Some(PairOp::Min),
            ModKind::Max => Some(PairOp::Max),
            ModKind::And => Some(PairOp::And),
            ModKind::Or => Some(PairOp::Or),
            ModKind::Xor => Some(PairOp::Xor),
            ModKind::Switch => Some(PairOp::Switch),
            _ => None,
        }
    }

    /// The unary CV processor this kind wraps the slot in, if any.
    pub fn as_op(self) -> (r: Option<ModOp>)
        ensures
            r == self.spec_as_op(),
    {
        match self {
            ModKind::Quantize => Some(ModOp::Quantize),
            ModKind::Slew => Some(ModOp::Slew),
            ModKind::Rectify => Some(ModOp::Rectify),
            ModKind::Hold => Some(ModOp::Hold),
            _ => None,
        }
    }

    /// The binary CV combiner this kind wraps the slot in, if any.
    pub fn as_pair(self) -> (r: Option<PairOp>)
        ensures
            r == self.spec_as_pair(),
    {
        match self {
            ModKind::Min => Some(PairOp::Min),
            ModKind::Max => Some(PairOp::Max),
            ModKind::And => Some(PairOp::And),
            ModKind::Or => Some(PairOp::Or),
            ModKind::Xor => Some(PairOp::Xor),
            ModKind::Switch => Some(PairOp::Switch),
            _ => None,
        }
    }
}

/// One structural edit.
#[derive(Debug, PartialEq, Eq)]
pub enum StructOp {
    /// Replace the node at `key` with a `kind` (subtrees preserved where the
    /// sorts allow; replacing a source with a processor wraps the source).
    Replace {
        /// Node key.
        key: String,
        /// New kind.
        kind: NodeKind,
    },
    /// Insert a processor or mixer between the node at `key` and its parent.
    Insert {
        /// Node key.
        key: String,
        /// Inserted kind (must not be a source).
        kind: NodeKind,
    },
    /// Delete the node at `key`, splicing its primary input up; deleting one
    /// branch of a binary node collapses the node to the other branch.
    Delete {
        /// Node key.
        key: String,
    },
    /// Set the modulation slot of the module at `key`: a source kind replaces
    /// the slot's term, a shaper wraps it.
    SetMod {
        /// Node key.
        key: String,
        /// New modulation kind.
        kind: ModKind,
    },
    /// Swap the two audio inputs of the binary node at `key`.
    SwapMix {
        /// Node key.
        key: String,
    },
    /// Replace the subtree at `key` with an explicit fragment.
    ReplaceTree {
        /// Node key.
        key: String,
        /// The fragment to install.
        node: AudioNode,
    },
    /// Insert an explicit processor or mixer fragment into the wire at `key`;
    /// the old subtree becomes the fragment's primary input.
    InsertTree {
        /// Node key.
        key: String,
        /// The fragment to graft in (must not be a source).
        node: AudioNode,
    },
    /// Install an explicit modulation fragment on the module at `key`.
    SetModTree {
        /// Node key.
        key: String,
        /// The modulation term.
        m: ModNode,
    },
}

/// Why a structural edit was rejected.
#[derive(Debug, PartialEq, Eq)]
pub enum StructError {
    /// No node at that key.
    NoSuchNode(String),
    /// The operation does not apply to this node kind.
    Invalid(String),
    /// The edit would exceed the size/depth ceilings (`MAX_SIZE`, `MAX_DEPTH`).
    TooBig(usize, usize),
    /// The edit would stack more CV processors on one cable than the realtime
    /// voice is willing to carry.
    ModTooDeep(usize),
}

/// The distinct reasons an edit can be refused.
#[derive(Clone, Copy, Debug, PartialEq, Eq, Structural)]
pub enum Fault {
    /// The key does not parse, or addresses no node.
    NoSuchNode,
    /// `Insert` of a source kind.
    SourceInsert,
    /// `Delete` of a source that is not a binary node's branch.
    LoneSource,
    /// A modulation edit on a node without a slot.
    NoModSlot,
    /// `SwapMix` on a node with fewer than two inputs.
    NoSwap,
    /// `InsertTree` with a source fragment.
    SourceGraft,
    /// The result exceeds the size or depth ceiling.
    TooBig,
    /// The result carries a modulation chain deeper than the ceiling.
    ModTooDeep,
}

/// The human-readable reason attached to an `Invalid` refusal.
pub open spec fn fault_message(f: Fault) -> Seq<char> {
    match f {
        Fault::SourceInsert => "sources cannot be inserted into a wire \u{2014} use replace, or insert a mix"@,
        Fault::LoneSource => "a lone source cannot be deleted \u{2014} replace it instead"@,
        Fault::NoModSlot => "mixers and ring modulators have no modulation slot"@,
        Fault::NoSwap => "this module has only one input \u{2014} there is nothing to swap"@,
        Fault::SourceGraft => "a source has no input to splice into"@,
        _ => Seq::empty(),
    }
}

impl StructError {
    /// Whether this error is how `f` is reported for an edit at `key`.
    pub open spec fn reports(self, f: Fault, key: Seq<char>) -> bool {
        match f {
            Fault::NoSuchNode => self matches StructError::NoSuchNode(k) && k@ == key,
            Fault::TooBig => self == StructError::TooBig(MAX_SIZE, MAX_DEPTH),
            Fault::ModTooDeep => self == StructError::ModTooDeep(MAX_MOD_DEPTH),
            _ => self matches StructError::Invalid(msg) && msg@ == fault_message(f),
        }
    }

    /// The error's display text.
    pub open spec fn spec_message(self) -> Seq<char> {
        match self {
            StructError::NoSuchNode(k) => "no node at "@ + k@,
            StructError::Invalid(msg) => msg@,
            StructError::TooBig(n, d) => "patch would exceed limits ("@ + spec_decimal(n as nat)
                + " nodes max, depth "@ + spec_decimal(d as nat) + ")"@,
            StructError::ModTooDeep(d) => "modulation chain would exceed depth "@ + spec_decimal(
                d as nat,
            ),
        }
    }

    /// The error's display text.
    pub fn message(&self) -> (r: String)
        ensures
            r@ == self.spec_message(),
    {
        match self {
            StructError::NoSuchNode(k) => String::from_str("no node at ").concat(k.as_str()),
            StructError::Invalid(msg) => msg.clone(),
            StructError::TooBig(n, d) => {
                let a = String::from_str("patch would exceed limits (").concat(
                    decimal(*n).as_str(),
                );
                let b = a.concat(" nodes max, depth ").concat(decimal(*d).as_str());
                b.concat(")")
            },
            StructError::ModTooDeep(d) => String::from_str(
                "modulation chain would exceed depth ",
            ).concat(decimal(*d).as_str()),
        }
    }
}

/// The key an edit addresses.
pub open spec fn op_key(op: StructOp) -> Seq<char> {
    match op {
        StructOp::Replace { key, .. } => key@,
        StructOp::Insert { key, .. } => key@,
        StructOp::Delete { key } => key@,
        StructOp::SetMod { key, .. } => key@,
        StructOp::SwapMix { key } => key@,
        StructOp::ReplaceTree { key, .. } => key@,
        StructOp::InsertTree { key, .. } => key@,
        StructOp::SetModTree { key, .. } => key@,
    }
}

// ---------------------------------------------------------------------------
// Node keys
// ---------------------------------------------------------------------------

/// The position of the first `c` in `t`, if any.
pub open spec fn spec_find(t: Seq<char>, c: char) -> Option<nat>
    decreases t.len(),
{
    if t.len() == 0 {
        None
    } else if t[0] == c {
        Some(0)
    } else {
        match spec_find(t.drop_first(), c) {
            Some(j) => Some(j + 1),
            None => None,
        }
    }
}

/// The `/`-separated child indices of a key's path part; every field must
/// parse as an index.
pub open spec fn spec_parse_fields(t: Seq<char>) -> Option<Seq<usize>>
    decreases t.len(),
{
    match spec_find(t, '/') {
        None => match spec_parse_usize(t) {
            Some(v) => Some(seq![v]),
            None => None,
        },
        Some(j) => if j < t.len() {
            match (spec_parse_usize(t.take(j as int)), spec_parse_fields(t.skip(j + 1 as int))) {
                (Some(v), Some(rest)) => Some(seq![v] + rest),
                _ => None,
            }
        } else {
            None
        },
    }
}

/// A node key (`node`, `node/0`, `node/0/1`) as a child-index path.
pub open spec fn spec_parse_key(s: Seq<char>) -> Option<Seq<usize>> {
    if s.len() >= 4 && s[0] == 'n' && s[1] == 'o' && s[2] == 'd' && s[3] == 'e' {
        if s.len() == 4 {
            Some(Seq::empty())
        } else if s[4] == '/' {
            spec_parse_fields(s.skip(5))
        } else {
            None
        }
    } else {
        None
    }
}

proof fn lemma_find_at(t: Seq<char>, c: char, j: int)
    requires
        0 <= j < t.len(),
        t[j] == c,
        forall|k: int| 0 <= k < j ==> t[k] != c,
    ensures
        spec_find(t, c) == Some(j as nat),
    decreases j,
{
    if j > 0 {
        lemma_find_at(t.drop_first(), c, j - 1);
    }
}

proof fn lemma_find_none(t: Seq<char>, c: char)
    requires
        forall|k: int| 0 <= k < t.len() ==> t[k] != c,
    ensures
        spec_find(t, c) is None,
    decreases t.len(),
{
    if t.len() > 0 {
        lemma_find_none(t.drop_first(), c);
    }
}

/// The fields of `cs[start..]`, parsed as child indices.
fn parse_fields(cs: &Vec<char>, start: usize) -> (r: Option<Vec<usize>>)
    requires
        start <= cs@.len(),
    ensures
        match r {
            Some(v) => spec_parse_fields(cs@.skip(start as int)) == Some(v@),
            None => spec_parse_fields(cs@.skip(start as int)) is None,
        },
    decreases cs@.len() - start,
{
    let ghost t = cs@.skip(start as int);
    let mut j = start;
    while j < cs.len() && cs[j] != '/'
        invariant
            start <= j <= cs@.len(),
            t == cs@.skip(start as int),
            forall|k: int| start <= k < j ==> cs@[k] != '/',
        decreases cs@.len() - j,
    {
        j = j + 1;
    }
    let head = parse_usize(cs, start, j);
    assert(cs@.subrange(start as int, j as int) =~= t.take(j - start));
    if j == cs.len() {
        proof {
            lemma_find_none(t, '/');
            assert(t.take(j - start) =~= t);
        }
        match head {
            Some(v) => Some(vec![v]),
            None => None,
        }
    } else {
        proof {
            lemma_find_at(t, '/', j - start);
            assert(t.skip(j - start + 1) =~= cs@.skip(j + 1));
        }
        match head {
            None => None,
            Some(v) => match parse_fields(cs, j + 1) {
                None => None,
                Some(rest) => {
                    let mut out = rest;
                    out.insert(0, v);
                    assert(out@ =~= seq![v] + rest@);
                    Some(out)
                },
            },
        }
    }
}

/// Parse a node key (`node`, `node/0`, `node/0/1`) into a child-index path.
pub fn parse_key(key: &str) -> (r: Option<Vec<usize>>)
    ensures
        match r {
            Some(v) => spec_parse_key(key@) == Some(v@),
            None => spec_parse_key(key@) is None,
        },
{
    let cs = chars_of(key);
    if !(cs.len() >= 4 && cs[0] == 'n' && cs[1] == 'o' && cs[2] == 'd' && cs[3] == 'e') {
        return None;
    }
    if cs.len() == 4 {
        return Some(Vec::new());
    }
    if cs[4] != '/' {
        return None;
    }
    parse_fields(&cs, 5)
}



// ---------------------------------------------------------------------------
// Default nodes
// ---------------------------------------------------------------------------

/// The grammar's fallback source: a plain saw at the given octave.
pub open spec fn spec_saw_vco(octave: i8) -> AudioNode {
    AudioNode::Vco {
        wave: Waveform::Saw,
        octave,
        detune: P050,
        mod_depth: P030,
        modulation: ModNode::Empty,
    }
}

/// The default key/sidechain branch for the compressor, ducker and gate: a
/// pluck an octave down, the one palette source with a sharp transient and a
/// decay.
pub open spec fn spec_pluck_key() -> AudioNode {
    AudioNode::Pluck {
        octave: -1i8,
        damping: P040,
        brightness: P070,
        mod_depth: P030,
        modulation: ModNode::Empty,
    }
}

/// The input a freshly placed processor wraps: the given subtree, or a saw.
pub open spec fn spec_or_saw(input: Option<AudioNode>) -> AudioNode {
    match input {
        Some(n) => n,
        None => spec_saw_vco(0),
    }
}

/// A hand-placed node of `kind`, with knobs chosen so the module audibly does
/// something the instant it lands. Processors and mixers take `input` (or a
/// saw) as their primary input; the vocoder brings its own carrier.
pub open spec fn spec_default_node(kind: NodeKind, input: Option<AudioNode>) -> AudioNode {
    match kind {
        NodeKind::Vco => spec_saw_vco(0),
        NodeKind::Supersaw => AudioNode::Supersaw {
            octave: 0,
            detune: P035,
            mix: P050,
            mod_depth: P030,
            modulation: ModNode::Empty,
        },
        NodeKind::Noise => AudioNode::Noise {
            color: NoiseColor::White,
        },
        NodeKind::Mix => AudioNode::Mix {
            balance: P050,
            a: Box::new(spec_or_saw(input)),
            b: Box::new(AudioNode::Vco { wave: Waveform::Triangle, octave: 0, detune: P050, mod_depth: P030, modulation: ModNode::Empty }),
        },
        NodeKind::Filter => AudioNode::Filter {
            kind: FilterKind::SvfLp,
            cutoff: P060,
            resonance: P030,
            mod_depth: P030,
            input: Box::new(spec_or_saw(input)),
            modulation: ModNode::Empty,
        },
        NodeKind::Fold => AudioNode::Fold {
            threshold: P050,
            mod_depth: P030,
            input: Box::new(spec_or_saw(input)),
            modulation: ModNode::Empty,
        },
        NodeKind::Delay => AudioNode::Delay {
            time: P035,
            feedback: P035,
            mix: P035,
            mod_depth: P030,
            input: Box::new(spec_or_saw(input)),
            modulation: ModNode::Empty,
        },
        NodeKind::Chorus => AudioNode::Chorus {
            rate: P030,
            depth: P040,
            mix: P035,
            mod_depth: P030,
            input: Box::new(spec_or_saw(input)),
            modulation: ModNode::Empty,
        },
        NodeKind::Reverb => AudioNode::Reverb {
            size: P050,
            damp: P050,
            mix: P030,
            mod_depth: P030,
            input: Box::new(spec_or_saw(input)),
            modulation: ModNode::Empty,
        },
        NodeKind::Wavetable => AudioNode::Wavetable {
            table: TableShape::Saw,
            octave: 0,
            morph: P035,
            mod_depth: P030,
            modulation: ModNode::Empty,
        },
        NodeKind::Pluck => AudioNode::Pluck {
            octave: 0,
            damping: P045,
            brightness: P060,
            mod_depth: P030,
            modulation: ModNode::Empty,
        },
        NodeKind::Distortion => AudioNode::Distortion {
            drive: P045,
            tone: P050,
            mode: DriveMode::Soft,
            mod_depth: P030,
            input: Box::new(spec_or_saw(input)),
            modulation: ModNode::Empty,
        },
        NodeKind::Bitcrush => AudioNode::Bitcrush {
            bits: P055,
            downsample: P030,
            mod_depth: P030,
            input: Box::new(spec_or_saw(input)),
            modulation: ModNode::Empty,
        },
        NodeKind::Phaser => AudioNode::Phaser {
            rate: P030,
            depth: P060,
            feedback: P050,
            mod_depth: P030,
            input: Box::new(spec_or_saw(input)),
            modulation: ModNode::Empty,
        },
        NodeKind::RingMod => AudioNode::RingMod {
            mix: P050,
            a: Box::new(spec_or_saw(input)),
            b: Box::new(AudioNode::Vco { wave: Waveform::Sine, octave: 1, detune: P050, mod_depth: P030, modulation: ModNode::Empty }),
        },
        NodeKind::Formant => AudioNode::Formant {
            vowel: P030,
            shift: P050,
            octave: 0,
            mod_depth: P030,
            modulation: ModNode::Empty,
        },
        NodeKind::Flanger => AudioNode::Flanger {
            rate: P035,
            depth: P060,
            feedback: P062,
            mod_depth: P030,
            input: Box::new(spec_or_saw(input)),
            modulation: ModNode::Empty,
        },
        NodeKind::Tremolo => AudioNode::Tremolo {
            rate: P040,
            depth: P050,
            shape: P000,
            mod_depth: P030,
            input: Box::new(spec_or_saw(input)),
            modulation: ModNode::Empty,
        },
        NodeKind::Vibrato => AudioNode::Vibrato {
            rate: P045,
            depth: P025,
            mix: P100,
            mod_depth: P030,
            input: Box::new(spec_or_saw(input)),
            modulation: ModNode::Empty,
        },
        NodeKind::Eq => AudioNode::Eq {
            low: P050,
            mid: P050,
            high: P050,
            mod_depth: P030,
            input: Box::new(spec_or_saw(input)),
            modulation: ModNode::Empty,
        },
        NodeKind::Granular => AudioNode::Granular {
            position: P050,
            size: P040,
            density: P060,
            mod_depth: P030,
            input: Box::new(spec_or_saw(input)),
            modulation: ModNode::Empty,
        },
        NodeKind::Shift => AudioNode::Shift {
            semis: P062,
            window: P050,
            mix: P050,
            mod_depth: P030,
            input: Box::new(spec_or_saw(input)),
            modulation: ModNode::Empty,
        },
        NodeKind::Comp => AudioNode::Comp {
            threshold: P030,
            ratio: P050,
            makeup: P040,
            mod_depth: P030,
            input: Box::new(spec_or_saw(input)),
            sidechain: Box::new(spec_pluck_key()),
            modulation: ModNode::Empty,
        },
        NodeKind::Duck => AudioNode::Duck {
            amount: P070,
            threshold: P040,
            release: P035,
            mod_depth: P030,
            input: Box::new(spec_or_saw(input)),
            key: Box::new(spec_pluck_key()),
            modulation: ModNode::Empty,
        },
        NodeKind::Gate => AudioNode::Gate {
            threshold: P045,
            range: P070,
            release: P030,
            mod_depth: P030,
            input: Box::new(spec_or_saw(input)),
            sidechain: Box::new(spec_pluck_key()),
            modulation: ModNode::Empty,
        },
        NodeKind::Vocoder => AudioNode::Vocoder {
            bands: P060,
            attack: P025,
            release: P030,
            mod_depth: P030,
            carrier: Box::new(AudioNode::Supersaw { octave: 0, detune: P045, mix: P060, mod_depth: P030, modulation: ModNode::Empty }),
            modulator: Box::new(AudioNode::Formant { vowel: P030, shift: P050, octave: 0, mod_depth: P030, modulation: ModNode::Empty }),
            modulation: ModNode::Empty,
        },
    }
}

fn saw_vco(octave: i8) -> (r: AudioNode)
    ensures
        r == spec_saw_vco(octave),
{
    AudioNode::Vco {
        wave: Waveform::Saw,
        octave,
        detune: P050,
        mod_depth: P030,
        modulation: ModNode::Empty,
    }
}

fn pluck_key() -> (r: AudioNode)
    ensures
        r == spec_pluck_key(),
{
    AudioNode::Pluck {
        octave: -1i8,
        damping: P040,
        brightness: P070,
        mod_depth: P030,
        modulation: ModNode::Empty,
    }
}

fn or_saw(input: Option<AudioNode>) -> (r: AudioNode)
    ensures
        r == spec_or_saw(input),
{
    match input {
        Some(n) => n,
        None => saw_vco(0),
    }
}

fn default_node(kind: NodeKind, input: Option<AudioNode>) -> (r: AudioNode)
    ensures
        r == spec_default_node(kind, input),
{
    match kind {
        NodeKind::Vco => saw_vco(0),
        NodeKind::Supersaw => AudioNode::Supersaw {
            octave: 0,
            detune: P035,
            mix: P050,
            mod_depth: P030,
            modulation: ModNode::Empty,
        },
        NodeKind::Noise => AudioNode::Noise {
            color: NoiseColor::White,
        },
        NodeKind::Mix => AudioNode::Mix {
            balance: P050,
            a: Box::new(or_saw(input)),
            b: Box::new(AudioNode::Vco { wave: Waveform::Triangle, octave: 0, detune: P050, mod_depth: P030, modulation: ModNode::Empty }),
        },
        NodeKind::Filter => AudioNode::Filter {
            kind: FilterKind::SvfLp,
            cutoff: P060,
            resonance: P030,
            mod_depth: P030,
            input: Box::new(or_saw(input)),
            modulation: ModNode::Empty,
        },
        NodeKind::Fold => AudioNode::Fold {
            threshold: P050,
            mod_depth: P030,
            input: Box::new(or_saw(input)),
            modulation: ModNode::Empty,
        },
        NodeKind::Delay => AudioNode::Delay {
            time: P035,
            feedback: P035,
            mix: P035,
            mod_depth: P030,
            input: Box::new(or_saw(input)),
            modulation: ModNode::Empty,
        },
        NodeKind::Chorus => AudioNode::Chorus {
            rate: P030,
            depth: P040,
            mix: P035,
            mod_depth: P030,
            input: Box::new(or_saw(input)),
            modulation: ModNode::Empty,
        },
        NodeKind::Reverb => AudioNode::Reverb {
            size: P050,
            damp: P050,
            mix: P030,
            mod_depth: P030,
            input: Box::new(or_saw(input)),
            modulation: ModNode::Empty,
        },
        NodeKind::Wavetable => AudioNode::Wavetable {
            table: TableShape::Saw,
            octave: 0,
            morph: P035,
            mod_depth: P030,
            modulation: ModNode::Empty,
        },
        NodeKind::Pluck => AudioNode::Pluck {
            octave: 0,
            damping: P045,
            brightness: P060,
            mod_depth: P030,
            modulation: ModNode::Empty,
        },
        NodeKind::Distortion => AudioNode::Distortion {
            drive: P045,
            tone: P050,
            mode: DriveMode::Soft,
            mod_depth: P030,
            input: Box::new(or_saw(input)),
            modulation: ModNode::Empty,
        },
        NodeKind::Bitcrush => AudioNode::Bitcrush {
            bits: P055,
            downsample: P030,
            mod_depth: P030,
            input: Box::new(or_saw(input)),
            modulation: ModNode::Empty,
        },
        NodeKind::Phaser => AudioNode::Phaser {
            rate: P030,
            depth: P060,
            feedback: P050,
            mod_depth: P030,
            input: Box::new(or_saw(input)),
            modulation: ModNode::Empty,
        },
        NodeKind::RingMod => AudioNode::RingMod {
            mix: P050,
            a: Box::new(or_saw(input)),
            b: Box::new(AudioNode::Vco { wave: Waveform::Sine, octave: 1, detune: P050, mod_depth: P030, modulation: ModNode::Empty }),
        },
        NodeKind::Formant => AudioNode::Formant {
            vowel: P030,
            shift: P050,
            octave: 0,
            mod_depth: P030,
            modulation: ModNode::Empty,
        },
        NodeKind::Flanger => AudioNode::Flanger {
            rate: P035,
            depth: P060,
            feedback: P062,
            mod_depth: P030,
            input: Box::new(or_saw(input)),
            modulation: ModNode::Empty,
        },
        NodeKind::Tremolo => AudioNode::Tremolo {
            rate: P040,
            depth: P050,
            shape: P000,
            mod_depth: P030,
            input: Box::new(or_saw(input)),
            modulation: ModNode::Empty,
        },
        NodeKind::Vibrato => AudioNode::Vibrato {
            rate: P045,
            depth: P025,
            mix: P100,
            mod_depth: P030,
            input: Box::new(or_saw(input)),
            modulation: ModNode::Empty,
        },
        NodeKind::Eq => AudioNode::Eq {
            low: P050,
            mid: P050,
            high: P050,
            mod_depth: P030,
            input: Box::new(or_saw(input)),
            modulation: ModNode::Empty,
        },
        NodeKind::Granular => AudioNode::Granular {
            position: P050,
            size: P040,
            density: P060,
            mod_depth: P030,
            input: Box::new(or_saw(input)),
            modulation: ModNode::Empty,
        },
        NodeKind::Shift => AudioNode::Shift {
            semis: P062,
            window: P050,
            mix: P050,
            mod_depth: P030,
            input: Box::new(or_saw(input)),
            modulation: ModNode::Empty,
        },
        NodeKind::Comp => AudioNode::Comp {
            threshold: P030,
            ratio: P050,
            makeup: P040,
            mod_depth: P030,
            input: Box::new(or_saw(input)),
            sidechain: Box::new(pluck_key()),
            modulation: ModNode::Empty,
        },
        NodeKind::Duck => AudioNode::Duck {
            amount: P070,
            threshold: P040,
            release: P035,
            mod_depth: P030,
            input: Box::new(or_saw(input)),
            key: Box::new(pluck_key()),
            modulation: ModNode::Empty,
        },
        NodeKind::Gate => AudioNode::Gate {
            threshold: P045,
            range: P070,
            release: P030,
            mod_depth: P030,
            input: Box::new(or_saw(input)),
            sidechain: Box::new(pluck_key()),
            modulation: ModNode::Empty,
        },
        NodeKind::Vocoder => AudioNode::Vocoder {
            bands: P060,
            attack: P025,
            release: P030,
            mod_depth: P030,
            carrier: Box::new(AudioNode::Supersaw { octave: 0, detune: P045, mix: P060, mod_depth: P030, modulation: ModNode::Empty }),
            modulator: Box::new(AudioNode::Formant { vowel: P030, shift: P050, octave: 0, mod_depth: P030, modulation: ModNode::Empty }),
            modulation: ModNode::Empty,
        },
    }
}

/// Default knob values for a hand-placed CV processor, as `(p0, p1)`.
pub open spec fn spec_default_op_params(kind: ModOp) -> (Param, Param) {
    match kind {
        ModOp::Quantize => (P000, MINOR),
        ModOp::Slew => (P020, P020),
        ModOp::Rectify => (P000, P000),
        ModOp::Hold => (P050, P000),
    }
}

fn default_op_params(kind: ModOp) -> (r: (Param, Param))
    ensures
        r == spec_default_op_params(kind),
{
    match kind {
        ModOp::Quantize => (P000, MINOR),
        ModOp::Slew => (P020, P020),
        ModOp::Rectify => (P000, P000),
        ModOp::Hold => (P050, P000),
    }
}

/// The second branch a hand-placed combiner gets: a euclidean gate for the
/// logic ops and the switch, a slow triangle LFO for min and max.
pub open spec fn spec_default_pair_b(kind: PairOp) -> ModNode {
    if kind.spec_is_gate() || kind == PairOp::Switch {
        ModNode::Euclid { rate: P050, steps: P050, pulses: P040 }
    } else {
        ModNode::Lfo { wave: Waveform::Triangle, rate: P030 }
    }
}

fn default_pair_b(kind: PairOp) -> (r: ModNode)
    ensures
        r == spec_default_pair_b(kind),
{
    if kind.is_gate() || kind == PairOp::Switch {
        ModNode::Euclid { rate: P050, steps: P050, pulses: P040 }
    } else {
        ModNode::Lfo { wave: Waveform::Triangle, rate: P030 }
    }
}

/// The default random source a shaper gets when placed on an empty slot.
pub open spec fn spec_default_rand() -> ModNode {
    ModNode::Rand { rate: P040, glide: P000 }
}

/// What `SetMod` leaves in a slot that held `existing`: a source kind
/// replaces it, a shaper wraps it (wrapping a default S&H when the slot was
/// empty), and `Empty` clears it.
pub open spec fn spec_set_mod(existing: ModNode, kind: ModKind) -> ModNode {
    let inner = if existing is Empty {
        spec_default_rand()
    } else {
        existing
    };
    match kind.spec_as_op() {
        Some(op) => ModNode::Op {
            kind: op,
            p0: spec_default_op_params(op).0,
            p1: spec_default_op_params(op).1,
            input: Box::new(inner),
        },
        None => match kind.spec_as_pair() {
            Some(pair) => ModNode::Pair {
                kind: pair,
                a: Box::new(inner),
                b: Box::new(spec_default_pair_b(pair)),
            },
            None => match kind {
                ModKind::Lfo => ModNode::Lfo { wave: Waveform::Triangle, rate: P040 },
                ModKind::Env => ModNode::Env { attack: P020, decay: P050 },
                ModKind::Rand => spec_default_rand(),
                ModKind::Follow => ModNode::Follow { sens: P050, release: P040 },
                ModKind::Euclid => ModNode::Euclid { rate: P050, steps: P050, pulses: P040 },
                _ => ModNode::Empty,
            },
        },
    }
}

fn set_mod(existing: ModNode, kind: ModKind) -> (r: ModNode)
    ensures
        r == spec_set_mod(existing, kind),
{
    let inner = match existing {
        ModNode::Empty => ModNode::Rand { rate: P040, glide: P000 },
        existing => existing,
    };
    if let Some(op) = kind.as_op() {
        let (p0, p1) = default_op_params(op);
        ModNode::Op { kind: op, p0, p1, input: Box::new(inner) }
    } else if let Some(pair) = kind.as_pair() {
        ModNode::Pair { kind: pair, a: Box::new(inner), b: Box::new(default_pair_b(pair)) }
    } else {
        match kind {
            ModKind::Lfo => ModNode::Lfo { wave: Waveform::Triangle, rate: P040 },
            ModKind::Env => ModNode::Env { attack: P020, decay: P050 },
            ModKind::Rand => ModNode::Rand { rate: P040, glide: P000 },
            ModKind::Follow => ModNode::Follow { sens: P050, release: P040 },
            ModKind::Euclid => ModNode::Euclid { rate: P050, steps: P050, pulses: P040 },
            _ => ModNode::Empty,
        }
    }
}

// ---------------------------------------------------------------------------
// The edit vocabulary
// ---------------------------------------------------------------------------

/// Graft `old` into `frag`'s primary input slot; a binary fragment keeps its
/// own `/1` branch. A source has no input to splice into.
pub open spec fn spec_graft(frag: AudioNode, old: AudioNode) -> Result<AudioNode, Fault> {
    if frag.spec_is_source() {
        Err(Fault::SourceGraft)
    } else {
        Ok(frag.spec_with_child(0, old))
    }
}

fn graft(frag: AudioNode, old: AudioNode) -> (r: Result<AudioNode, StructError>)
    ensures
        match spec_graft(frag, old) {
            Ok(n) => r == Ok::<AudioNode, StructError>(n),
            Err(f) => r matches Err(e) && e.reports(f, Seq::empty()),
        },
{
    if frag.is_source() {
        Err(StructError::Invalid(String::from_str("a source has no input to splice into")))
    } else {
        Ok(frag.with_child(0, old))
    }
}

/// A binary node with its two inputs exchanged; a mix also takes the
/// mirrored balance `mirrored`, so the crossfade follows its sides.
pub open spec fn spec_swapped(n: AudioNode, mirrored: Param) -> AudioNode {
    let m = match n {
        AudioNode::Mix { a, b, .. } => AudioNode::Mix { balance: mirrored, a, b },
        _ => n,
    };
    match (n.spec_child(0), n.spec_child(1)) {
        (Some(c0), Some(c1)) => m.spec_with_child(0, c1).spec_with_child(1, c0),
        _ => m,
    }
}

/// The ceilings every hand-built patch has to respect.
pub open spec fn spec_check_ceilings(tree: PatchTree) -> Result<(), Fault> {
    if tree.root.spec_size() > MAX_SIZE || tree.root.spec_depth() > MAX_DEPTH {
        Err(Fault::TooBig)
    } else if tree.root.spec_max_mod_depth() > MAX_MOD_DEPTH {
        Err(Fault::ModTooDeep)
    } else {
        Ok(())
    }
}

/// An edited tree, if it respects the ceilings.
pub open spec fn spec_finish(tree: PatchTree) -> Result<PatchTree, Fault> {
    match spec_check_ceilings(tree) {
        Ok(_) => Ok(tree),
        Err(f) => Err(f),
    }
}

/// The tree with the node at `path` replaced by `n`.
pub open spec fn spec_put(tree: PatchTree, path: Seq<usize>, n: AudioNode) -> PatchTree {
    PatchTree { amp: tree.amp, root: tree.root.spec_replace_at(path, n) }
}

/// What an edit makes of the node `old` it addresses (every edit but
/// `Delete`, which may act on the parent instead).
pub open spec fn spec_rewrite(old: AudioNode, op: StructOp, mirrored: Param) -> Result<
    AudioNode,
    Fault,
> {
    match op {
        StructOp::Replace { kind, .. } => Ok(
            if kind.spec_is_source() {
                spec_default_node(kind, None)
            } else {
                match old.spec_child(0) {
                    Some(i) => spec_default_node(kind, Some(i)),
                    None => spec_default_node(kind, Some(old)),
                }
            },
        ),
        StructOp::Insert { kind, .. } => Ok(spec_default_node(kind, Some(old))),
        StructOp::SetMod { kind, .. } => match old.spec_slot() {
            Some(m) => Ok(old.spec_with_slot(spec_set_mod(m, kind))),
            None => Err(Fault::NoModSlot),
        },
        StructOp::SwapMix { .. } => if old.spec_is_binary() {
            Ok(spec_swapped(old, mirrored))
        } else {
            Err(Fault::NoSwap)
        },
        StructOp::ReplaceTree { node, .. } => Ok(node),
        StructOp::InsertTree { node, .. } => spec_graft(node, old),
        StructOp::SetModTree { m, .. } => match old.spec_slot() {
            Some(_) => Ok(old.spec_with_slot(m.spec_normalized())),
            None => Err(Fault::NoModSlot),
        },
        StructOp::Delete { .. } => Ok(old),
    }
}

/// `Delete` once the parent (if any) is known not to be binary: splice the
/// node's primary input up.
pub open spec fn spec_splice(tree: PatchTree, path: Seq<usize>) -> Result<PatchTree, Fault> {
    match tree.root.spec_node_at(path) {
        None => Err(Fault::NoSuchNode),
        Some(old) => match old.spec_child(0) {
            Some(input) => spec_finish(spec_put(tree, path, input)),
            None => Err(Fault::LoneSource),
        },
    }
}

/// `Delete` at a parsed path: a branch of a binary node collapses the node to
/// its other branch; anything else is spliced out.
pub open spec fn spec_delete(tree: PatchTree, path: Seq<usize>) -> Result<PatchTree, Fault> {
    if path.len() > 0 {
        match tree.root.spec_node_at(path.drop_last()) {
            None => Err(Fault::NoSuchNode),
            Some(parent) => if parent.spec_is_binary() {
                let keep = if path.last() == 0 {
                    parent.spec_child(1)
                } else {
                    parent.spec_child(0)
                };
                match keep {
                    Some(k) => spec_finish(spec_put(tree, path.drop_last(), k)),
                    None => spec_splice(tree, path),
                }
            } else {
                spec_splice(tree, path)
            },
        }
    } else {
        spec_splice(tree, path)
    }
}

/// The result of applying `op` to `tree`; `mirrored` is the mirrored balance
/// a swapped mix takes (it is read only when `op` swaps a mix).
pub open spec fn spec_apply(tree: PatchTree, op: StructOp, mirrored: Param) -> Result<
    PatchTree,
    Fault,
> {
    if op matches StructOp::Insert { kind, .. } && kind.spec_is_source() {
        Err(Fault::SourceInsert)
    } else {
        match spec_parse_key(op_key(op)) {
            None => Err(Fault::NoSuchNode),
            Some(path) => if op is Delete {
                spec_delete(tree, path)
            } else {
                match tree.root.spec_node_at(path) {
                    None => Err(Fault::NoSuchNode),
                    Some(old) => match spec_rewrite(old, op, mirrored) {
                        Ok(n) => spec_finish(spec_put(tree, path, n)),
                        Err(f) => Err(f),
                    },
                }
            },
        }
    }
}

/// The balance of the mix that `op` swaps, when it swaps one.
pub open spec fn spec_swap_balance(tree: PatchTree, op: StructOp) -> Option<Param> {
    if op is SwapMix {
        match spec_parse_key(op_key(op)) {
            Some(path) => match tree.root.spec_node_at(path) {
                Some(AudioNode::Mix { balance, .. }) => Some(balance),
                _ => None,
            },
            None => None,
        }
    } else {
        None
    }
}

/// Whether `r` is how the outcome `s` of an edit at `key` is returned.
pub open spec fn reports_outcome(
    r: Result<PatchTree, StructError>,
    s: Result<PatchTree, Fault>,
    key: Seq<char>,
) -> bool {
    match s {
        Ok(t) => r == Ok::<PatchTree, StructError>(t),
        Err(f) => r matches Err(e) && e.reports(f, key),
    }
}

fn no_such_node(key: &String) -> (e: StructError)
    ensures
        e.reports(Fault::NoSuchNode, key@),
{
    StructError::NoSuchNode(key.clone())
}

fn check_ceilings(tree: &PatchTree) -> (r: Result<(), StructError>)
    ensures
        match spec_check_ceilings(*tree) {
            Ok(_) => r is Ok,
            Err(f) => r matches Err(e) && e.reports(f, Seq::empty()),
        },
{
    if tree.root.fits_size(MAX_SIZE).is_none() || !tree.root.depth_within(MAX_DEPTH) {
        return Err(StructError::TooBig(MAX_SIZE, MAX_DEPTH));
    }
    if !tree.root.mod_depth_within(MAX_MOD_DEPTH) {
        return Err(StructError::ModTooDeep(MAX_MOD_DEPTH));
    }
    Ok(())
}

fn finish(tree: PatchTree, key: &String) -> (r: Result<PatchTree, StructError>)
    ensures
        reports_outcome(r, spec_finish(tree), key@),
{
    match check_ceilings(&tree) {
        Ok(_) => Ok(tree),
        Err(e) => Err(e),
    }
}

fn put(tree: &PatchTree, path: &Vec<usize>, n: AudioNode) -> (r: PatchTree)
    requires
        tree.root.spec_node_at(path@) is Some,
    ensures
        r == spec_put(*tree, path@, n),
{
    assert(path@.skip(0) =~= path@);
    PatchTree { amp: tree.amp, root: tree.root.duplicate().replace_at(path, 0, n) }
}

/// The fragment an edit carries in, if any, has octave offsets the encoding
/// can record.
pub open spec fn fragments_encodable(op: StructOp) -> bool {
    match op {
        StructOp::ReplaceTree { node, .. } => octaves_encodable(node),
        StructOp::InsertTree { node, .. } => octaves_encodable(node),
        _ => true,
    }
}

/// A tree with its out-of-domain continuous values repaired: itself when it
/// has none, otherwise the tree its repaired trace reads back as.
pub open spec fn spec_repaired_tree(t: PatchTree) -> PatchTree {
    if violations(spec_to_trace(t)) == Set::<Seq<char>>::empty() {
        t
    } else {
        match spec_from_trace(repaired(spec_to_trace(t))) {
            Decoded::Value(p) => p,
            _ => t,
        }
    }
}

/// What applying `op` returns: the edit, with the values of the tree it
/// makes repaired, so that no out-of-domain value is ever seated.
pub open spec fn spec_struct_op(tree: PatchTree, op: StructOp, mirrored: Param) -> Result<
    PatchTree,
    Fault,
> {
    match spec_apply(tree, op, mirrored) {
        Ok(t) => Ok(spec_repaired_tree(t)),
        Err(f) => Err(f),
    }
}

/// Apply a structural edit, returning the new tree with every out-of-domain
/// continuous value pulled back into `[0, 1]`: an explicit fragment is
/// adopted as given, but cannot seat a corrupt value.
///
/// `mirror` maps a mix's balance to the balance its mirror image takes; it is
/// called once, and only when `op` swaps the inputs of a mix, so that the
/// crossfade follows its two sides.
pub fn apply_struct_op(tree: &PatchTree, op: &StructOp, mirror: impl Fn(Param) -> Param) -> (r:
    Result<PatchTree, StructError>)
    requires
        forall|b: Param| call_requires(mirror, (b,)),
        octaves_encodable(tree.root),
        fragments_encodable(*op),
    ensures
        match spec_swap_balance(*tree, *op) {
            Some(b) => exists|mb: Param|
                #[trigger] call_ensures(mirror, (b,), mb) && reports_outcome(
                    r,
                    spec_struct_op(*tree, *op, mb),
                    op_key(*op),
                ),
            None => reports_outcome(r, spec_struct_op(*tree, *op, 0), op_key(*op)),
        },
{
    let e = edit(tree, op, mirror);
    match e {
        Ok(t) => {
            let mut t = t;
            proof {
                match spec_swap_balance(*tree, *op) {
                    Some(b) => {
                        let mb = choose|mb: Param|
                            #[trigger] call_ensures(mirror, (b,), mb) && reports_outcome(
                                e,
                                spec_apply(*tree, *op, mb),
                                op_key(*op),
                            );
                        lemma_apply_encodable(*tree, *op, mb);
                    },
                    None => {
                        lemma_apply_encodable(*tree, *op, 0);
                    },
                }
            }
            let ghost t0 = t;
            let fixed = t.clamp_domains();
            proof {
                crate::encoding::lemma_trace_readable(t0);
                let vs = violations(spec_to_trace(t0));
                assert(vs.finite()) by {
                    assert(vs.subset_of(spec_to_trace(t0).dom()));
                    vstd::set_lib::lemma_set_subset_finite(spec_to_trace(t0).dom(), vs);
                }
                if fixed == 0 {
                    vs.lemma_len0_is_empty();
                } else {
                    assert(vs != Set::<Seq<char>>::empty());
                }
                assert(t == spec_repaired_tree(t0));
            }
            Ok(t)
        },
        Err(err) => Err(err),
    }
}

/// The edit itself, before its values are repaired.
fn edit(tree: &PatchTree, op: &StructOp, mirror: impl Fn(Param) -> Param) -> (r:
    Result<PatchTree, StructError>)
    requires
        forall|b: Param| call_requires(mirror, (b,)),
    ensures
        match spec_swap_balance(*tree, *op) {
            Some(b) => exists|mb: Param|
                #[trigger] call_ensures(mirror, (b,), mb) && reports_outcome(
                    r,
                    spec_apply(*tree, *op, mb),
                    op_key(*op),
                ),
            None => reports_outcome(r, spec_apply(*tree, *op, 0), op_key(*op)),
        },
{
    let key = match op {
        StructOp::Replace { key, .. } => key,
        StructOp::Insert { key, .. } => key,
        StructOp::Delete { key } => key,
        StructOp::SetMod { key, .. } => key,
        StructOp::SwapMix { key } => key,
        StructOp::ReplaceTree { key, .. } => key,
        StructOp::InsertTree { key, .. } => key,
        StructOp::SetModTree { key, .. } => key,
    };
    assert(key@ == op_key(*op));
    if let StructOp::Insert { kind, .. } = op {
        if kind.is_source() {
            return Err(
                StructError::Invalid(
                    String::from_str(
                        "sources cannot be inserted into a wire \u{2014} use replace, or insert a mix",
                    ),
                ),
            );
        }
    }
    let path = match parse_key(key.as_str()) {
        Some(p) => p,
        None => return Err(no_such_node(key)),
    };
    if let StructOp::Delete { .. } = op {
        return delete_at(tree, &path, key);
    }
    let old = match tree.root.node_at(&path, 0) {
        Some(n) => n,
        None => {
            assert(path@.skip(0) =~= path@);
            return Err(no_such_node(key));
        },
    };
    assert(path@.skip(0) =~= path@);
    let ghost mut seen: Param = 0;
    let new_node = match op {
        StructOp::Replace { kind, .. } => {
            if kind.is_source() {
                default_node(*kind, None)
            } else {
                match old.child(0) {
                    Some(i) => default_node(*kind, Some(i.duplicate())),
                    None => default_node(*kind, Some(old.duplicate())),
                }
            }
        },
        StructOp::Insert { kind, .. } => default_node(*kind, Some(old.duplicate())),
        StructOp::SetMod { kind, .. } => match old.slot() {
            Some(m) => old.duplicate().with_slot(set_mod(m.duplicate(), *kind)),
            None => {
                return Err(
                    StructError::Invalid(
                        String::from_str("mixers and ring modulators have no modulation slot"),
                    ),
                );
            },
        },
        StructOp::SwapMix { .. } => {
            if !old.is_binary() {
                return Err(
                    StructError::Invalid(
                        String::from_str(
                            "this module has only one input \u{2014} there is nothing to swap",
                        ),
                    ),
                );
            }
            let c0 = old.child(0).unwrap().duplicate();
            let c1 = old.child(1).unwrap().duplicate();
            let mirrored = match old {
                AudioNode::Mix { balance, a, b } => {
                    let mb = mirror(*balance);
                    proof {
                        seen = mb;
                    }
                    AudioNode::Mix { balance: mb, a: Box::new((**a).duplicate()), b: Box::new((**b).duplicate()) }
                },
                _ => old.duplicate(),
            };
            mirrored.with_child(0, c1).with_child(1, c0)
        },
        StructOp::ReplaceTree { node, .. } => node.duplicate(),
        StructOp::InsertTree { node, .. } => match graft(node.duplicate(), old.duplicate()) {
            Ok(n) => n,
            Err(e) => {
                return Err(e);
            },
        },
        StructOp::SetModTree { m, .. } => match old.slot() {
            Some(_) => old.duplicate().with_slot(m.duplicate().normalized()),
            None => {
                return Err(
                    StructError::Invalid(
                        String::from_str("mixers and ring modulators have no modulation slot"),
                    ),
                );
            },
        },
        StructOp::Delete { .. } => old.duplicate(),
    };
    assert(spec_rewrite(*old, *op, seen) == Ok::<AudioNode, Fault>(new_node));
    assert(spec_swap_balance(*tree, *op) is None ==> spec_rewrite(*old, *op, seen) == spec_rewrite(
        *old,
        *op,
        0,
    ));
    let r = finish(put(tree, &path, new_node), key);
    proof {
        assert(spec_parse_key(op_key(*op)) == Some(path@));
        assert(tree.root.spec_node_at(path@) == Some(*old));
        assert(!(op is Delete));
        assert(spec_apply(*tree, *op, seen) == spec_finish(spec_put(*tree, path@, new_node)));
        match spec_swap_balance(*tree, *op) {
            Some(b) => {
                assert(call_ensures(mirror, (b,), seen));
            },
            None => {
                assert(spec_apply(*tree, *op, 0) == spec_apply(*tree, *op, seen));
            },
        }
    }
    r
}

fn delete_at(tree: &PatchTree, path: &Vec<usize>, key: &String) -> (r: Result<
    PatchTree,
    StructError,
>)
    ensures
        reports_outcome(r, spec_delete(*tree, path@), key@),
{
    if path.len() > 0 {
        let last = path[path.len() - 1];
        let mut parent_path = path.clone();
        parent_path.pop();
        assert(parent_path@ =~= path@.drop_last());
        assert(parent_path@.skip(0) =~= parent_path@);
        let parent = match tree.root.node_at(&parent_path, 0) {
            Some(p) => p,
            None => return Err(no_such_node(key)),
        };
        if parent.is_binary() {
            let keep = if last == 0 {
                parent.child(1)
            } else {
                parent.child(0)
            };
            if let Some(k) = keep {
                return finish(put(tree, &parent_path, k.duplicate()), key);
            }
        }
    }
    assert(path@.skip(0) =~= path@);
    let old = match tree.root.node_at(path, 0) {
        Some(n) => n,
        None => return Err(no_such_node(key)),
    };
    match old.child(0) {
        Some(input) => finish(put(tree, path, input.duplicate()), key),
        None => Err(
            StructError::Invalid(
                String::from_str("a lone source cannot be deleted \u{2014} replace it instead"),
            ),
        ),
    }
}

/// The refusal text for an out-of-domain continuous value at address `a`.
pub open spec fn out_of_range_message(a: Seq<char>) -> Seq<char> {
    "value out of range at "@ + a
}

/// Whether `a` is the first, in address order, of the addresses of `t` that
/// hold an out-of-domain value.
pub open spec fn first_violation(t: Map<Seq<char>, crate::trace::SiteValue>, a: Seq<char>) -> bool {
    &&& violations(t).contains(a)
    &&& forall|b: Seq<char>| #[trigger] violations(t).contains(b) && b != a ==> seq_lt(a, b)
}

/// Every ceiling a hand-built patch has to respect, in one callable place:
/// the same ceilings [`apply_struct_op`] enforces on its way out, reported
/// as the refusal's display text. A tree within the ceilings is refused too
/// when a continuous value lies outside `[0, 1]`, and the refusal names the
/// first such address.
pub fn validate_tree(tree: &PatchTree) -> (r: Result<(), String>)
    requires
        octaves_encodable(tree.root),
    ensures
        match spec_check_ceilings(*tree) {
            Ok(_) => if violations(spec_to_trace(*tree)) == Set::<Seq<char>>::empty() {
                r is Ok
            } else {
                r matches Err(s) && exists|a: Seq<char>|
                    first_violation(spec_to_trace(*tree), a) && s@ == out_of_range_message(a)
            },
            Err(Fault::TooBig) => r matches Err(s) && s@ == StructError::TooBig(
                MAX_SIZE,
                MAX_DEPTH,
            ).spec_message(),
            Err(_) => r matches Err(s) && s@ == StructError::ModTooDeep(
                MAX_MOD_DEPTH,
            ).spec_message(),
        },
{
    match check_ceilings(tree) {
        Ok(_) => {
            let v = tree.domain_violations();
            let ghost t = spec_to_trace(*tree);
            if v.len() == 0 {
                proof {
                    assert forall|a: Seq<char>| !violations(t).contains(a) by {
                        if violations(t).contains(a) {
                            assert(exists|i: int| 0 <= i < v@.len() && v@[i].0@ == a);
                        }
                    }
                    assert(violations(t) =~= Set::<Seq<char>>::empty());
                }
                Ok(())
            } else {
                let first = v[0].0.as_str();
                proof {
                    let a = v@[0].0@;
                    assert(spec_lookup(t, a) == Some(crate::trace::SiteValue::Real(v@[0].1)));
                    assert(violations(t).contains(a));
                    assert forall|b: Seq<char>| #[trigger] violations(t).contains(b) && b != a implies seq_lt(a, b) by {
                        let i = choose|i: int| 0 <= i < v@.len() && v@[i].0@ == b;
                        assert(i != 0);
                    }
                    assert(first_violation(t, a));
                    assert(violations(t) != Set::<Seq<char>>::empty());
                }
                let msg = String::from_str("value out of range at ").concat(first);
                proof {
                    let a = v@[0].0@;
                    assert(msg@ == out_of_range_message(a));
                    assert(first_violation(t, a));
                }
                Err(msg)
            }
        },
        Err(e) => Err(e.message()),
    }
}

/// An encodable node's inputs are encodable, and putting an encodable node
/// in as an input, or any term in its modulation slot, keeps it encodable.
proof fn lemma_encodable_parts(n: AudioNode, i: nat, c: AudioNode, m: ModNode)
    requires
        octaves_encodable(n),
    ensures
        n.spec_child(i) matches Some(x) ==> octaves_encodable(x),
        octaves_encodable(c) ==> octaves_encodable(n.spec_with_child(i, c)),
        octaves_encodable(n.spec_with_slot(m)),
{
}

/// Replacing a node of an encodable tree by an encodable node keeps the tree
/// encodable, and every node of an encodable tree is encodable.
proof fn lemma_encodable_replace(n: AudioNode, path: Seq<usize>, c: AudioNode)
    requires
        octaves_encodable(n),
    ensures
        octaves_encodable(c) ==> octaves_encodable(n.spec_replace_at(path, c)),
        n.spec_node_at(path) matches Some(x) ==> octaves_encodable(x),
    decreases path.len(),
{
    if path.len() > 0 {
        match n.spec_child(path[0] as nat) {
            Some(ch) => {
                lemma_encodable_parts(
                    n,
                    path[0] as nat,
                    ch.spec_replace_at(path.drop_first(), c),
                    ModNode::Empty,
                );
                lemma_encodable_replace(ch, path.drop_first(), c);
            },
            None => {},
        }
    }
}

/// A default node is encodable when its input is.
proof fn lemma_encodable_default(kind: NodeKind, input: Option<AudioNode>)
    requires
        input matches Some(i) ==> octaves_encodable(i),
    ensures
        octaves_encodable(spec_default_node(kind, input)),
{
    reveal_with_fuel(octaves_encodable, 3);
}

/// What an edit makes of an encodable node, with an encodable fragment, is
/// encodable.
proof fn lemma_encodable_rewrite(old: AudioNode, op: StructOp, mirrored: Param)
    requires
        octaves_encodable(old),
        fragments_encodable(op),
    ensures
        spec_rewrite(old, op, mirrored) matches Ok(n) ==> octaves_encodable(n),
{
    match op {
        StructOp::Replace { kind, .. } => {
            lemma_encodable_default(kind, None);
            lemma_encodable_default(kind, Some(old));
            lemma_encodable_parts(old, 0, old, ModNode::Empty);
            match old.spec_child(0) {
                Some(i) => lemma_encodable_default(kind, Some(i)),
                None => {},
            }
        },
        StructOp::Insert { kind, .. } => lemma_encodable_default(kind, Some(old)),
        StructOp::SetMod { kind, .. } => match old.spec_slot() {
            Some(m) => lemma_encodable_parts(old, 0, old, spec_set_mod(m, kind)),
            None => {},
        },
        StructOp::SetModTree { m, .. } => lemma_encodable_parts(old, 0, old, m.spec_normalized()),
        StructOp::SwapMix { .. } => {
            let mm = match old {
                AudioNode::Mix { a, b, .. } => AudioNode::Mix { balance: mirrored, a, b },
                _ => old,
            };
            assert(octaves_encodable(mm));
            lemma_encodable_parts(old, 0, old, ModNode::Empty);
            lemma_encodable_parts(old, 1, old, ModNode::Empty);
            match (old.spec_child(0), old.spec_child(1)) {
                (Some(c0), Some(c1)) => {
                    lemma_encodable_parts(mm, 0, c1, ModNode::Empty);
                    lemma_encodable_parts(mm.spec_with_child(0, c1), 1, c0, ModNode::Empty);
                },
                _ => {},
            }
        },
        StructOp::InsertTree { node, .. } => lemma_encodable_parts(node, 0, old, ModNode::Empty),
        _ => {},
    }
}

/// Every edit of a tree whose octave offsets the encoding can record, with a
/// fragment of which the same holds, makes such a tree.
pub proof fn lemma_apply_encodable(tree: PatchTree, op: StructOp, mirrored: Param)
    requires
        octaves_encodable(tree.root),
        fragments_encodable(op),
    ensures
        spec_apply(tree, op, mirrored) matches Ok(t) ==> octaves_encodable(t.root),
{
    match spec_parse_key(op_key(op)) {
        None => {},
        Some(path) => {
            lemma_encodable_replace(tree.root, path, tree.root);
            if path.len() > 0 {
                lemma_encodable_replace(tree.root, path.drop_last(), tree.root);
                match tree.root.spec_node_at(path.drop_last()) {
                    Some(parent) => {
                        lemma_encodable_parts(parent, 0, parent, ModNode::Empty);
                        lemma_encodable_parts(parent, 1, parent, ModNode::Empty);
                        match parent.spec_child(0) {
                            Some(k) => lemma_encodable_replace(tree.root, path.drop_last(), k),
                            None => {},
                        }
                        match parent.spec_child(1) {
                            Some(k) => lemma_encodable_replace(tree.root, path.drop_last(), k),
                            None => {},
                        }
                    },
                    None => {},
                }
            }
            match tree.root.spec_node_at(path) {
                Some(old) => {
                    lemma_encodable_parts(old, 0, old, ModNode::Empty);
                    match old.spec_child(0) {
                        Some(input) => lemma_encodable_replace(tree.root, path, input),
                        None => {},
                    }
                    lemma_encodable_rewrite(old, op, mirrored);
                    match spec_rewrite(old, op, mirrored) {
                        Ok(n) => lemma_encodable_replace(tree.root, path, n),
                        Err(_) => {},
                    }
                },
                None => {},
            }
        },
    }
}

/// The fragments an edit carries in leave their unrecorded knobs zero.
pub open spec fn fragments_idle(op: StructOp) -> bool {
    match op {
        StructOp::ReplaceTree { node, .. } => idle_knobs_zero_node(node),
        StructOp::InsertTree { node, .. } => idle_knobs_zero_node(node),
        _ => true,
    }
}

/// A canonical modulation term leaves its unrecorded knobs zero.
proof fn lemma_canonical_idle(m: ModNode)
    requires
        m.is_canonical(),
    ensures
        idle_knobs_zero(m),
    decreases m,
{
    match m {
        ModNode::Op { input, .. } => lemma_canonical_idle(*input),
        ModNode::Pair { a, b, .. } => {
            lemma_canonical_idle(*a);
            lemma_canonical_idle(*b);
        },
        _ => {},
    }
}

/// An idle node's inputs are idle, and putting an idle node in as an input,
/// or an idle term in its modulation slot, keeps it idle.
proof fn lemma_idle_parts(n: AudioNode, i: nat, c: AudioNode, m: ModNode)
    requires
        idle_knobs_zero_node(n),
    ensures
        n.spec_child(i) matches Some(x) ==> idle_knobs_zero_node(x),
        idle_knobs_zero_node(c) ==> idle_knobs_zero_node(n.spec_with_child(i, c)),
        idle_knobs_zero(m) ==> idle_knobs_zero_node(n.spec_with_slot(m)),
        n.spec_slot() matches Some(x) ==> idle_knobs_zero(x),
{
}

/// Replacing a node of an idle tree by an idle node keeps the tree idle,
/// and every node of an idle tree is idle.
proof fn lemma_idle_replace(n: AudioNode, path: Seq<usize>, c: AudioNode)
    requires
        idle_knobs_zero_node(n),
    ensures
        idle_knobs_zero_node(c) ==> idle_knobs_zero_node(n.spec_replace_at(path, c)),
        n.spec_node_at(path) matches Some(x) ==> idle_knobs_zero_node(x),
    decreases path.len(),
{
    if path.len() > 0 {
        match n.spec_child(path[0] as nat) {
            Some(ch) => {
                lemma_idle_parts(
                    n,
                    path[0] as nat,
                    ch.spec_replace_at(path.drop_first(), c),
                    ModNode::Empty,
                );
                lemma_idle_replace(ch, path.drop_first(), c);
            },
            None => {},
        }
    }
}

/// A default node is idle when its input is.
proof fn lemma_idle_default(kind: NodeKind, input: Option<AudioNode>)
    requires
        input matches Some(i) ==> idle_knobs_zero_node(i),
    ensures
        idle_knobs_zero_node(spec_default_node(kind, input)),
{
    reveal_with_fuel(idle_knobs_zero_node, 3);
}

/// What an edit makes of an idle node, with an idle fragment, is idle.
proof fn lemma_idle_rewrite(old: AudioNode, op: StructOp, mirrored: Param)
    requires
        idle_knobs_zero_node(old),
        fragments_idle(op),
    ensures
        spec_rewrite(old, op, mirrored) matches Ok(n) ==> idle_knobs_zero_node(n),
{
    match op {
        StructOp::Replace { kind, .. } => {
            lemma_idle_default(kind, None);
            lemma_idle_default(kind, Some(old));
            lemma_idle_parts(old, 0, old, ModNode::Empty);
            match old.spec_child(0) {
                Some(i) => lemma_idle_default(kind, Some(i)),
                None => {},
            }
        },
        StructOp::Insert { kind, .. } => lemma_idle_default(kind, Some(old)),
        StructOp::SetMod { kind, .. } => match old.spec_slot() {
            Some(m) => {
                lemma_idle_parts(old, 0, old, spec_set_mod(m, kind));
                reveal_with_fuel(idle_knobs_zero, 2);
                assert(idle_knobs_zero(spec_set_mod(m, kind)));
            },
            None => {},
        },
        StructOp::SetModTree { m, .. } => {
            lemma_normalized_canonical(m);
            lemma_canonical_idle(m.spec_normalized());
            lemma_idle_parts(old, 0, old, m.spec_normalized());
        },
        StructOp::SwapMix { .. } => {
            let mm = match old {
                AudioNode::Mix { a, b, .. } => AudioNode::Mix { balance: mirrored, a, b },
                _ => old,
            };
            assert(idle_knobs_zero_node(mm));
            lemma_idle_parts(old, 0, old, ModNode::Empty);
            lemma_idle_parts(old, 1, old, ModNode::Empty);
            match (old.spec_child(0), old.spec_child(1)) {
                (Some(c0), Some(c1)) => {
                    lemma_idle_parts(mm, 0, c1, ModNode::Empty);
                    lemma_idle_parts(mm.spec_with_child(0, c1), 1, c0, ModNode::Empty);
                },
                _ => {},
            }
        },
        StructOp::InsertTree { node, .. } => lemma_idle_parts(node, 0, old, ModNode::Empty),
        _ => {},
    }
}

/// Every edit of an idle tree, with an idle fragment, makes an idle tree.
proof fn lemma_apply_idle(tree: PatchTree, op: StructOp, mirrored: Param)
    requires
        idle_knobs_zero_node(tree.root),
        fragments_idle(op),
    ensures
        spec_apply(tree, op, mirrored) matches Ok(t) ==> idle_knobs_zero_node(t.root),
{
    match spec_parse_key(op_key(op)) {
        None => {},
        Some(path) => {
            lemma_idle_replace(tree.root, path, tree.root);
            if path.len() > 0 {
                lemma_idle_replace(tree.root, path.drop_last(), tree.root);
                match tree.root.spec_node_at(path.drop_last()) {
                    Some(parent) => {
                        lemma_idle_parts(parent, 0, parent, ModNode::Empty);
                        lemma_idle_parts(parent, 1, parent, ModNode::Empty);
                        match parent.spec_child(0) {
                            Some(k) => lemma_idle_replace(tree.root, path.drop_last(), k),
                            None => {},
                        }
                        match parent.spec_child(1) {
                            Some(k) => lemma_idle_replace(tree.root, path.drop_last(), k),
                            None => {},
                        }
                    },
                    None => {},
                }
            }
            match tree.root.spec_node_at(path) {
                Some(old) => {
                    lemma_idle_parts(old, 0, old, ModNode::Empty);
                    match old.spec_child(0) {
                        Some(input) => lemma_idle_replace(tree.root, path, input),
                        None => {},
                    }
                    lemma_idle_rewrite(old, op, mirrored);
                    match spec_rewrite(old, op, mirrored) {
                        Ok(n) => lemma_idle_replace(tree.root, path, n),
                        Err(_) => {},
                    }
                },
                None => {},
            }
        },
    }
}

/// An edit whose tree has no out-of-domain value is returned as made: the
/// repair that `apply_struct_op` runs on its way out changes nothing then.
pub proof fn law_clean_edits_are_returned_as_made(tree: PatchTree, op: StructOp, mirrored: Param)
    requires
        spec_apply(tree, op, mirrored) matches Ok(t) && violations(spec_to_trace(t))
            == Set::<Seq<char>>::empty(),
    ensures
        spec_struct_op(tree, op, mirrored) == spec_apply(tree, op, mirrored),
{
}

/// No edit seats an out-of-domain value: every tree `apply_struct_op`
/// returns has all its continuous values in `[0, 1]`, whatever the
/// fragment it was handed.
pub proof fn law_edits_seat_no_violation(tree: PatchTree, op: StructOp, mirrored: Param)
    requires
        octaves_encodable(tree.root),
        fragments_encodable(op),
    ensures
        spec_struct_op(tree, op, mirrored) matches Ok(r) ==> violations(spec_to_trace(r))
            == Set::<Seq<char>>::empty(),
{
    lemma_apply_encodable(tree, op, mirrored);
    match spec_apply(tree, op, mirrored) {
        Ok(t) => {
            lemma_repair_leaves_nothing(t);
            lemma_repair_rebuilds(t);
        },
        Err(_) => {},
    }
}

/// Edits keep a patch inside the grammar: an edit of a tree that its trace
/// reads back as itself, with a fragment of which the same holds, makes a
/// tree that its trace reads back as itself.
pub proof fn law_edits_keep_round_trips(tree: PatchTree, op: StructOp, mirrored: Param)
    requires
        octaves_encodable(tree.root),
        idle_knobs_zero_node(tree.root),
        fragments_encodable(op),
        fragments_idle(op),
    ensures
        spec_apply(tree, op, mirrored) matches Ok(t) ==> {
            &&& octaves_encodable(t.root)
            &&& idle_knobs_zero_node(t.root)
            &&& spec_from_trace(spec_to_trace(t)) == Decoded::Value(t)
        },
{
    lemma_apply_encodable(tree, op, mirrored);
    lemma_apply_idle(tree, op, mirrored);
    match spec_apply(tree, op, mirrored) {
        Ok(t) => lemma_trace_round_trip(t),
        Err(_) => {},
    }
}

// ---------------------------------------------------------------------------
// Laws of the edit vocabulary
// ---------------------------------------------------------------------------
//
// These speak of the edit as made (`spec_apply`); `apply_struct_op` returns
// it as made whenever no value in it needs repair
// (`law_clean_edits_are_returned_as_made`).

/// A placed processor or mixer wraps its input as `/0`: it is the default
/// node with that one child replaced. The vocoder, which brings its own
/// carrier, is the exception.
pub proof fn lemma_default_node_wraps(kind: NodeKind, input: AudioNode)
    requires
        !kind.spec_is_source(),
        kind != NodeKind::Vocoder,
    ensures
        spec_default_node(kind, None).spec_child(0) is Some,
        spec_default_node(kind, Some(input)) == spec_default_node(kind, None).spec_with_child(
            0,
            input,
        ),
{
}

/// Every edit that succeeds returns a tree inside the hand-built ceilings,
/// and leaves the amplitude envelope alone.
pub proof fn law_edits_respect_ceilings(tree: PatchTree, op: StructOp, mirrored: Param)
    ensures
        spec_apply(tree, op, mirrored) matches Ok(r) ==> {
            &&& spec_check_ceilings(r) is Ok
            &&& r.root.spec_size() <= MAX_SIZE
            &&& r.root.spec_depth() <= MAX_DEPTH
            &&& r.root.spec_max_mod_depth() <= MAX_MOD_DEPTH
            &&& r.amp == tree.amp
        },
{
}

/// `validate_tree` refuses exactly what the edit vocabulary refuses on its
/// way out: an edit whose rewrite succeeded is refused for the ceilings iff
/// its unchecked result is refused by the same check `validate_tree` runs.
pub proof fn law_validate_agrees_with_edits(tree: PatchTree, op: StructOp, mirrored: Param)
    requires
        !(op is Delete),
        !(op matches StructOp::Insert { kind, .. } && kind.spec_is_source()),
        spec_parse_key(op_key(op)) is Some,
        tree.root.spec_node_at(spec_parse_key(op_key(op)).unwrap()) is Some,
        spec_rewrite(
            tree.root.spec_node_at(spec_parse_key(op_key(op)).unwrap()).unwrap(),
            op,
            mirrored,
        ) is Ok,
    ensures
        ({
            let path = spec_parse_key(op_key(op)).unwrap();
            let old = tree.root.spec_node_at(path).unwrap();
            let unchecked = spec_put(tree, path, spec_rewrite(old, op, mirrored).unwrap());
            &&& spec_apply(tree, op, mirrored) is Ok <==> spec_check_ceilings(unchecked) is Ok
            &&& spec_apply(tree, op, mirrored) == Err::<PatchTree, Fault>(Fault::TooBig)
                <==> spec_check_ceilings(unchecked) == Err::<(), Fault>(Fault::TooBig)
            &&& spec_apply(tree, op, mirrored) == Err::<PatchTree, Fault>(Fault::ModTooDeep)
                <==> spec_check_ceilings(unchecked) == Err::<(), Fault>(Fault::ModTooDeep)
        }),
{
}

/// Swapping a binary node's inputs exchanges them: after a successful swap
/// the node at the key has the old `/1` at `/0` and the old `/0` at `/1`.
pub proof fn law_swap_exchanges(tree: PatchTree, key: String, mirrored: Param)
    requires
        spec_apply(tree, StructOp::SwapMix { key }, mirrored) is Ok,
    ensures
        ({
            let path = spec_parse_key(key@).unwrap();
            let old = tree.root.spec_node_at(path).unwrap();
            let new = spec_apply(tree, StructOp::SwapMix { key }, mirrored).unwrap().root.spec_node_at(
                path,
            ).unwrap();
            &&& old.spec_is_binary()
            &&& new.spec_child(0) == old.spec_child(1)
            &&& new.spec_child(1) == old.spec_child(0)
            &&& new.spec_slot() == old.spec_slot()
        }),
{
    let op = StructOp::SwapMix { key };
    let path = spec_parse_key(key@).unwrap();
    let old = tree.root.spec_node_at(path).unwrap();
    let c0 = old.spec_child(0).unwrap();
    let c1 = old.spec_child(1).unwrap();
    let m = match old {
        AudioNode::Mix { a, b, .. } => AudioNode::Mix { balance: mirrored, a, b },
        _ => old,
    };
    let s = spec_swapped(old, mirrored);
    m.lemma_with_child(0, c1);
    m.spec_with_child(0, c1).lemma_with_child(1, c0);
    tree.root.lemma_node_at_replace(path, s);
}

/// Swapping the same binary node twice gives the tree back, provided the
/// second swap hands a mix its original balance (the mirror is an
/// involution on the balances it meets).
pub proof fn law_swap_twice(tree: PatchTree, key: String, m1: Param, m2: Param)
    requires
        spec_apply(tree, StructOp::SwapMix { key }, m1) is Ok,
        spec_swap_balance(tree, StructOp::SwapMix { key }) matches Some(b) ==> m2 == b,
    ensures
        spec_apply(
            spec_apply(tree, StructOp::SwapMix { key }, m1).unwrap(),
            StructOp::SwapMix { key },
            m2,
        ) == Ok::<PatchTree, Fault>(tree),
{
    let op = StructOp::SwapMix { key };
    let path = spec_parse_key(key@).unwrap();
    let old = tree.root.spec_node_at(path).unwrap();
    let c0 = old.spec_child(0).unwrap();
    let c1 = old.spec_child(1).unwrap();
    let m = match old {
        AudioNode::Mix { a, b, .. } => AudioNode::Mix { balance: m1, a, b },
        _ => old,
    };
    let s = spec_swapped(old, m1);
    m.lemma_with_child(0, c1);
    m.spec_with_child(0, c1).lemma_with_child(1, c0);
    tree.root.lemma_node_at_replace(path, s);
    let t1 = spec_apply(tree, op, m1).unwrap();
    assert(t1 == spec_put(tree, path, s));
    // The second swap.
    let m_again = match s {
        AudioNode::Mix { a, b, .. } => AudioNode::Mix { balance: m2, a, b },
        _ => s,
    };
    m_again.lemma_with_child(0, c0);
    m_again.spec_with_child(0, c0).lemma_with_child(1, c1);
    m.lemma_with_child_commute(0, 1, c1, c0);
    old.lemma_with_child(0, c1);
    old.lemma_with_child(1, c0);
    assert(spec_swapped(s, m2) == old);
    tree.root.lemma_replace_twice(path, s, old);
    tree.root.lemma_replace_same(path);
    assert(spec_put(t1, path, old) == tree);
    tree.root.lemma_replace_measures(path, s, old);
    tree.root.lemma_replace_measures(path, old, s);
}

/// Deleting what was just inserted gives the tree back: `Insert` followed by
/// `Delete` at the same key is the identity, wherever the key's parent is not
/// a binary node (whose branches `Delete` collapses instead). The vocoder,
/// which does not keep the wire it is inserted into, is the exception.
pub proof fn law_delete_undoes_insert(tree: PatchTree, key: String, kind: NodeKind, m: Param)
    requires
        kind != NodeKind::Vocoder,
        spec_apply(tree, StructOp::Insert { key, kind }, m) is Ok,
        ({
            let path = spec_parse_key(key@).unwrap();
            path.len() > 0 ==> !tree.root.spec_node_at(path.drop_last()).unwrap().spec_is_binary()
        }),
    ensures
        spec_apply(
            spec_apply(tree, StructOp::Insert { key, kind }, m).unwrap(),
            StructOp::Delete { key },
            m,
        ) == Ok::<PatchTree, Fault>(tree),
{
    let path = spec_parse_key(key@).unwrap();
    let old = tree.root.spec_node_at(path).unwrap();
    let new = spec_default_node(kind, Some(old));
    lemma_default_node_wraps(kind, old);
    let d = spec_default_node(kind, None);
    d.lemma_with_child(0, old);
    d.lemma_with_child_measures(0, old, old);
    let t1 = spec_put(tree, path, new);
    assert(spec_apply(tree, StructOp::Insert { key, kind }, m).unwrap() == t1);
    tree.root.lemma_node_at_replace(path, new);
    if path.len() > 0 {
        tree.root.lemma_parent_after_replace(path, new);
        let parent = tree.root.spec_node_at(path.drop_last()).unwrap();
        tree.root.lemma_parent_after_replace(path, old);
        tree.root.lemma_replace_same(path);
        parent.lemma_with_child(path.last() as nat, new);
    }
    tree.root.lemma_replace_twice(path, new, old);
    tree.root.lemma_replace_same(path);
    assert(spec_put(t1, path, old) == tree);
    tree.root.lemma_replace_measures(path, old, new);
}

/// Deleting one branch of a binary node collapses the node to the other
/// branch: after a successful delete at `<parent>/i` the parent's place
/// holds its other branch.
pub proof fn law_delete_branch_keeps_sibling(tree: PatchTree, key: String, m: Param)
    requires
        spec_apply(tree, StructOp::Delete { key }, m) is Ok,
        spec_parse_key(key@) is Some,
        ({
            let path = spec_parse_key(key@).unwrap();
            &&& path.len() > 0
            &&& path.last() == 0 || path.last() == 1
            &&& tree.root.spec_node_at(path.drop_last()) is Some
            &&& tree.root.spec_node_at(path.drop_last()).unwrap().spec_is_binary()
        }),
    ensures
        ({
            let path = spec_parse_key(key@).unwrap();
            let parent = tree.root.spec_node_at(path.drop_last()).unwrap();
            let sibling = parent.spec_child((1 - path.last()) as nat);
            sibling is Some && spec_apply(
                tree,
                StructOp::Delete { key },
                m,
            ).unwrap().root.spec_node_at(path.drop_last()) == sibling
        }),
{
    let path = spec_parse_key(key@).unwrap();
    let parent_path = path.drop_last();
    let parent = tree.root.spec_node_at(parent_path).unwrap();
    let keep = if path.last() == 0 {
        parent.spec_child(1)
    } else {
        parent.spec_child(0)
    };
    tree.root.lemma_node_at_replace(parent_path, keep.unwrap());
}

/// Installing an explicit modulation fragment installs its canonical form.
pub proof fn law_set_mod_tree_is_canonical(tree: PatchTree, key: String, frag: ModNode, m: Param)
    requires
        spec_apply(tree, StructOp::SetModTree { key, m: frag }, m) is Ok,
    ensures
        ({
            let path = spec_parse_key(key@).unwrap();
            let slot = spec_apply(
                tree,
                StructOp::SetModTree { key, m: frag },
                m,
            ).unwrap().root.spec_node_at(path).unwrap().spec_slot();
            &&& slot == Some(frag.spec_normalized())
            &&& slot.unwrap().is_canonical()
        }),
{
    let path = spec_parse_key(key@).unwrap();
    let old = tree.root.spec_node_at(path).unwrap();
    let new = old.spec_with_slot(frag.spec_normalized());
    tree.root.lemma_node_at_replace(path, new);
    crate::term::lemma_normalized_canonical(frag);
    assert(new.spec_slot() == Some(frag.spec_normalized()));
}


/// The kind of module an audio node is.
pub open spec fn spec_kind_of(n: AudioNode) -> NodeKind {
    match n {
        AudioNode::Vco { .. } => NodeKind::Vco,
        AudioNode::Supersaw { .. } => NodeKind::Supersaw,
        AudioNode::Noise { .. } => NodeKind::Noise,
        AudioNode::Mix { .. } => NodeKind::Mix,
        AudioNode::Filter { .. } => NodeKind::Filter,
        AudioNode::Fold { .. } => NodeKind::Fold,
        AudioNode::Delay { .. } => NodeKind::Delay,
        AudioNode::Chorus { .. } => NodeKind::Chorus,
        AudioNode::Reverb { .. } => NodeKind::Reverb,
        AudioNode::Wavetable { .. } => NodeKind::Wavetable,
        AudioNode::Pluck { .. } => NodeKind::Pluck,
        AudioNode::Distortion { .. } => NodeKind::Distortion,
        AudioNode::Bitcrush { .. } => NodeKind::Bitcrush,
        AudioNode::Phaser { .. } => NodeKind::Phaser,
        AudioNode::RingMod { .. } => NodeKind::RingMod,
        AudioNode::Formant { .. } => NodeKind::Formant,
        AudioNode::Flanger { .. } => NodeKind::Flanger,
        AudioNode::Tremolo { .. } => NodeKind::Tremolo,
        AudioNode::Vibrato { .. } => NodeKind::Vibrato,
        AudioNode::Eq { .. } => NodeKind::Eq,
        AudioNode::Granular { .. } => NodeKind::Granular,
        AudioNode::Shift { .. } => NodeKind::Shift,
        AudioNode::Comp { .. } => NodeKind::Comp,
        AudioNode::Duck { .. } => NodeKind::Duck,
        AudioNode::Gate { .. } => NodeKind::Gate,
        AudioNode::Vocoder { .. } => NodeKind::Vocoder,
    }
}

/// A placed node is of the kind asked for: the default node of every kind,
/// on any input, is a node of that kind.
pub proof fn law_default_node_has_its_kind(kind: NodeKind, input: Option<AudioNode>)
    ensures
        spec_kind_of(spec_default_node(kind, input)) == kind,
{
}

/// `Replace` and `Insert` leave a node of the kind asked for at the key they
/// address.
pub proof fn law_placed_node_has_its_kind(tree: PatchTree, op: StructOp, mirrored: Param)
    requires
        op is Replace || op is Insert,
        spec_apply(tree, op, mirrored) is Ok,
    ensures
        ({
            let kind = match op {
                StructOp::Replace { kind, .. } => kind,
                StructOp::Insert { kind, .. } => kind,
                _ => NodeKind::Vco,
            };
            let path = spec_parse_key(op_key(op)).unwrap();
            spec_apply(tree, op, mirrored).unwrap().root.spec_node_at(path) matches Some(n)
                && spec_kind_of(n) == kind
        }),
{
    let path = spec_parse_key(op_key(op)).unwrap();
    let old = tree.root.spec_node_at(path).unwrap();
    let n = spec_rewrite(old, op, mirrored).unwrap();
    tree.root.lemma_node_at_replace(path, n);
    match op {
        StructOp::Replace { kind, .. } => {
            law_default_node_has_its_kind(kind, None);
            law_default_node_has_its_kind(kind, Some(old));
            match old.spec_child(0) {
                Some(i) => law_default_node_has_its_kind(kind, Some(i)),
                None => {},
            }
        },
        StructOp::Insert { kind, .. } => law_default_node_has_its_kind(kind, Some(old)),
        _ => {},
    }
}

} // verus!
