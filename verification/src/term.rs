//! The categorical palette of the patch term: waveforms, noise colours,
//! filter kinds, wavetable shapes, drive modes and the two CV-operator
//! families.
//!
//! Every enum here has a fixed *categorical-site index order*: the position a
//! value takes in the trace site that selects it. `index` and `from_index`
//! are the two directions of that order, and `from_index` reads an
//! out-of-range index modulo the table length rather than failing.

use vstd::prelude::*;
use vstd::string::StringExecFns;

use crate::text::{decimal, join, spec_decimal, spec_join, str_views};

verus! {

/// Oscillator / LFO waveform. Index order matches the trace-site categorical
/// and the output-port table.
#[derive(Clone, Copy, Debug, PartialEq, Eq, Structural)]
pub enum Waveform {
    /// Sine
    Sine,
    /// Triangle
    Triangle,
    /// Sawtooth
    Saw,
    /// Square
    Square,
}

impl Waveform {
    /// Number of waveforms.
    pub open spec fn count() -> nat {
        4
    }

    /// Categorical-site index of this waveform.
    pub open spec fn spec_index(self) -> nat {
        match self {
            Waveform::Sine => 0,
            Waveform::Triangle => 1,
            Waveform::Saw => 2,
            Waveform::Square => 3,
        }
    }

    /// The waveform at a categorical-site index, read modulo the table.
    pub open spec fn spec_from_index(i: nat) -> Waveform {
        let j = i % 4;
        if j == 0 {
            Waveform::Sine
        } else if j == 1 {
            Waveform::Triangle
        } else if j == 2 {
            Waveform::Saw
        } else {
            Waveform::Square
        }
    }

    /// The output-port name on `Vco` / `Lfo` for this waveform.
    pub open spec fn spec_port_name(self) -> Seq<char> {
        match self {
            Waveform::Sine => "sin"@,
            Waveform::Triangle => "tri"@,
            Waveform::Saw => "saw"@,
            Waveform::Square => "sqr"@,
        }
    }

    /// Categorical-site index of this waveform.
    pub fn index(self) -> (r: usize)
        ensures
            r == self.spec_index(),
    {
        match self {
            Waveform::Sine => 0,
            Waveform::Triangle => 1,
            Waveform::Saw => 2,
            Waveform::Square => 3,
        }
    }

    /// Waveform from a categorical-site index (wrapping).
    pub fn from_index(i: usize) -> (r: Waveform)
        ensures
            r == Waveform::spec_from_index(i as nat),
    {
        let j = i % 4;
        if j == 0 {
            Waveform::Sine
        } else if j == 1 {
            Waveform::Triangle
        } else if j == 2 {
            Waveform::Saw
        } else {
            Waveform::Square
        }
    }

    /// The output-port name on `Vco` / `Lfo` for this waveform.
    pub fn port_name(self) -> (r: &'static str)
        ensures
            r@ == self.spec_port_name(),
    {
        match self {
            Waveform::Sine => "sin",
            Waveform::Triangle => "tri",
            Waveform::Saw => "saw",
            Waveform::Square => "sqr",
        }
    }
}

/// Noise color; maps to the noise generator's output ports.
#[derive(Clone, Copy, Debug, PartialEq, Eq, Structural)]
pub enum NoiseColor {
    /// White noise (flat spectrum).
    White,
    /// Pink noise (1/f spectrum).
    Pink,
}

impl NoiseColor {
    /// Number of colours.
    pub open spec fn count() -> nat {
        2
    }

    /// Categorical-site index.
    pub open spec fn spec_index(self) -> nat {
        match self {
            NoiseColor::White => 0,
            NoiseColor::Pink => 1,
        }
    }

    /// The colour at a categorical-site index, read modulo the table.
    pub open spec fn spec_from_index(i: nat) -> NoiseColor {
        if i % 2 == 0 {
            NoiseColor::White
        } else {
            NoiseColor::Pink
        }
    }

    /// The output-port name on the noise generator.
    pub open spec fn spec_port_name(self) -> Seq<char> {
        match self {
            NoiseColor::White => "white"@,
            NoiseColor::Pink => "pink"@,
        }
    }

    /// Categorical-site index.
    pub fn index(self) -> (r: usize)
        ensures
            r == self.spec_index(),
    {
        match self {
            NoiseColor::White => 0,
            NoiseColor::Pink => 1,
        }
    }

    /// From a categorical-site index (wrapping).
    pub fn from_index(i: usize) -> (r: NoiseColor)
        ensures
            r == NoiseColor::spec_from_index(i as nat),
    {
        if i % 2 == 0 {
            NoiseColor::White
        } else {
            NoiseColor::Pink
        }
    }

    /// The output-port name on the noise generator.
    pub fn port_name(self) -> (r: &'static str)
        ensures
            r@ == self.spec_port_name(),
    {
        match self {
            NoiseColor::White => "white",
            NoiseColor::Pink => "pink",
        }
    }
}

/// Filter kind: three state-variable responses plus the diode ladder.
#[derive(Clone, Copy, Debug, PartialEq, Eq, Structural)]
pub enum FilterKind {
    /// State-variable lowpass.
    SvfLp,
    /// State-variable bandpass.
    SvfBp,
    /// State-variable highpass.
    SvfHp,
    /// Diode ladder lowpass.
    Ladder,
}

impl FilterKind {
    /// Number of filter kinds.
    pub open spec fn count() -> nat {
        4
    }

    /// Categorical-site index.
    pub open spec fn spec_index(self) -> nat {
        match self {
            FilterKind::SvfLp => 0,
            FilterKind::SvfBp => 1,
            FilterKind::SvfHp => 2,
            FilterKind::Ladder => 3,
        }
    }

    /// The kind at a categorical-site index, read modulo the table.
    pub open spec fn spec_from_index(i: nat) -> FilterKind {
        let j = i % 4;
        if j == 0 {
            FilterKind::SvfLp
        } else if j == 1 {
            FilterKind::SvfBp
        } else if j == 2 {
            FilterKind::SvfHp
        } else {
            FilterKind::Ladder
        }
    }

    /// Categorical-site index.
    pub fn index(self) -> (r: usize)
        ensures
            r == self.spec_index(),
    {
        match self {
            FilterKind::SvfLp => 0,
            FilterKind::SvfBp => 1,
            FilterKind::SvfHp => 2,
            FilterKind::Ladder => 3,
        }
    }

    /// From a categorical-site index (wrapping).
    pub fn from_index(i: usize) -> (r: FilterKind)
        ensures
            r == FilterKind::spec_from_index(i as nat),
    {
        let j = i % 4;
        if j == 0 {
            FilterKind::SvfLp
        } else if j == 1 {
            FilterKind::SvfBp
        } else if j == 2 {
            FilterKind::SvfHp
        } else {
            FilterKind::Ladder
        }
    }
}

/// Wavetable shape. Index order matches the trace-site categorical and the
/// wavetable module's own table order, which the `table` CV selects into.
#[derive(Clone, Copy, Debug, PartialEq, Eq, Structural)]
pub enum TableShape {
    /// Pure sine.
    Sine,
    /// Triangle.
    Tri,
    /// Sawtooth.
    Saw,
    /// Square.
    Square,
    /// 25% pulse.
    Pulse25,
    /// 12.5% pulse.
    Pulse12,
    /// Vowel "ah" formant stack.
    FormantA,
    /// Vowel "oh" formant stack.
    FormantO,
}

impl TableShape {
    /// Number of shapes.
    pub open spec fn count() -> nat {
        8
    }

    /// Categorical-site index.
    pub open spec fn spec_index(self) -> nat {
        match self {
            TableShape::Sine => 0,
            TableShape::Tri => 1,
            TableShape::Saw => 2,
            TableShape::Square => 3,
            TableShape::Pulse25 => 4,
            TableShape::Pulse12 => 5,
            TableShape::FormantA => 6,
            TableShape::FormantO => 7,
        }
    }

    /// The shape at a categorical-site index, read modulo the table.
    pub open spec fn spec_from_index(i: nat) -> TableShape {
        let j = i % 8;
        if j == 0 {
            TableShape::Sine
        } else if j == 1 {
            TableShape::Tri
        } else if j == 2 {
            TableShape::Saw
        } else if j == 3 {
            TableShape::Square
        } else if j == 4 {
            TableShape::Pulse25
        } else if j == 5 {
            TableShape::Pulse12
        } else if j == 6 {
            TableShape::FormantA
        } else {
            TableShape::FormantO
        }
    }

    /// Silkscreen label; also the s-expression tag.
    pub open spec fn spec_label(self) -> Seq<char> {
        match self {
            TableShape::Sine => "sine"@,
            TableShape::Tri => "tri"@,
            TableShape::Saw => "saw"@,
            TableShape::Square => "square"@,
            TableShape::Pulse25 => "pulse 25"@,
            TableShape::Pulse12 => "pulse 12"@,
            TableShape::FormantA => "formant a"@,
            TableShape::FormantO => "formant o"@,
        }
    }

    /// Categorical-site index.
    pub fn index(self) -> (r: usize)
        ensures
            r == self.spec_index(),
    {
        match self {
            TableShape::Sine => 0,
            TableShape::Tri => 1,
            TableShape::Saw => 2,
            TableShape::Square => 3,
            TableShape::Pulse25 => 4,
            TableShape::Pulse12 => 5,
            TableShape::FormantA => 6,
            TableShape::FormantO => 7,
        }
    }

    /// From a categorical-site index (wrapping).
    pub fn from_index(i: usize) -> (r: TableShape)
        ensures
            r == TableShape::spec_from_index(i as nat),
    {
        let j = i % 8;
        if j == 0 {
            TableShape::Sine
        } else if j == 1 {
            TableShape::Tri
        } else if j == 2 {
            TableShape::Saw
        } else if j == 3 {
            TableShape::Square
        } else if j == 4 {
            TableShape::Pulse25
        } else if j == 5 {
            TableShape::Pulse12
        } else if j == 6 {
            TableShape::FormantA
        } else {
            TableShape::FormantO
        }
    }

    /// Silkscreen label; also the s-expression tag.
    pub fn label(self) -> (r: &'static str)
        ensures
            r@ == self.spec_label(),
    {
        match self {
            TableShape::Sine => "sine",
            TableShape::Tri => "tri",
            TableShape::Saw => "saw",
            TableShape::Square => "square",
            TableShape::Pulse25 => "pulse 25",
            TableShape::Pulse12 => "pulse 12",
            TableShape::FormantA => "formant a",
            TableShape::FormantO => "formant o",
        }
    }
}

/// Distortion shaping curve. The foldback curve is deliberately absent: the
/// wavefolder already is that module.
#[derive(Clone, Copy, Debug, PartialEq, Eq, Structural)]
pub enum DriveMode {
    /// Bounded `tanh`, symmetric and warm.
    Soft,
    /// Hard clip, symmetric and brittle.
    Hard,
    /// Asymmetric tube curve; the only member that rectifies.
    Tube,
}

impl DriveMode {
    /// Number of modes.
    pub open spec fn count() -> nat {
        3
    }

    /// Categorical-site index.
    pub open spec fn spec_index(self) -> nat {
        match self {
            DriveMode::Soft => 0,
            DriveMode::Hard => 1,
            DriveMode::Tube => 2,
        }
    }

    /// The mode at a categorical-site index, read modulo the table.
    pub open spec fn spec_from_index(i: nat) -> DriveMode {
        let j = i % 3;
        if j == 0 {
            DriveMode::Soft
        } else if j == 1 {
            DriveMode::Hard
        } else {
            DriveMode::Tube
        }
    }

    /// Silkscreen label; also the s-expression tag.
    pub open spec fn spec_label(self) -> Seq<char> {
        match self {
            DriveMode::Soft => "soft"@,
            DriveMode::Hard => "hard"@,
            DriveMode::Tube => "tube"@,
        }
    }

    /// Categorical-site index.
    pub fn index(self) -> (r: usize)
        ensures
            r == self.spec_index(),
    {
        match self {
            DriveMode::Soft => 0,
            DriveMode::Hard => 1,
            DriveMode::Tube => 2,
        }
    }

    /// From a categorical-site index (wrapping).
    pub fn from_index(i: usize) -> (r: DriveMode)
        ensures
            r == DriveMode::spec_from_index(i as nat),
    {
        let j = i % 3;
        if j == 0 {
            DriveMode::Soft
        } else if j == 1 {
            DriveMode::Hard
        } else {
            DriveMode::Tube
        }
    }

    /// Silkscreen label; also the s-expression tag.
    pub fn label(self) -> (r: &'static str)
        ensures
            r@ == self.spec_label(),
    {
        match self {
            DriveMode::Soft => "soft",
            DriveMode::Hard => "hard",
            DriveMode::Tube => "tube",
        }
    }
}

/// A unary CV processor: something that sits between a modulator and its
/// destination. Index order matches the `#modop` categorical.
#[derive(Clone, Copy, Debug, PartialEq, Eq, Structural)]
pub enum ModOp {
    /// Snap the incoming CV to a musical scale.
    Quantize,
    /// Rate-limit it, with separate up and down times.
    Slew,
    /// Fold it into one polarity.
    Rectify,
    /// Sample it on an internal clock.
    Hold,
}

impl ModOp {
    /// Number of processors.
    pub open spec fn count() -> nat {
        4
    }

    /// Categorical-site index.
    pub open spec fn spec_index(self) -> nat {
        match self {
            ModOp::Quantize => 0,
            ModOp::Slew => 1,
            ModOp::Rectify => 2,
            ModOp::Hold => 3,
        }
    }

    /// The processor at a categorical-site index, read modulo the table.
    pub open spec fn spec_from_index(i: nat) -> ModOp {
        let j = i % 4;
        if j == 0 {
            ModOp::Quantize
        } else if j == 1 {
            ModOp::Slew
        } else if j == 2 {
            ModOp::Rectify
        } else {
            ModOp::Hold
        }
    }

    /// Silkscreen title, and the rack-module kind tag.
    pub open spec fn spec_label(self) -> Seq<char> {
        match self {
            ModOp::Quantize => "quantize"@,
            ModOp::Slew => "slew"@,
            ModOp::Rectify => "rectify"@,
            ModOp::Hold => "hold"@,
        }
    }

    /// The continuous trace sites this op owns, in `(p0, p1)` order.
    pub open spec fn spec_param_sites(self) -> Seq<Seq<char>> {
        match self {
            ModOp::Quantize => seq!["qroot"@, "qscale"@],
            ModOp::Slew => seq!["rise"@, "fall"@],
            ModOp::Rectify => seq!["rmode"@],
            ModOp::Hold => seq!["hrate"@],
        }
    }

    /// Whether the op reads its second knob `p1`.
    pub open spec fn takes_two(self) -> bool {
        self.spec_param_sites().len() > 1
    }

    /// Categorical-site index.
    pub fn index(self) -> (r: usize)
        ensures
            r == self.spec_index(),
    {
        match self {
            ModOp::Quantize => 0,
            ModOp::Slew => 1,
            ModOp::Rectify => 2,
            ModOp::Hold => 3,
        }
    }

    /// From a categorical-site index (wrapping).
    pub fn from_index(i: usize) -> (r: ModOp)
        ensures
            r == ModOp::spec_from_index(i as nat),
    {
        let j = i % 4;
        if j == 0 {
            ModOp::Quantize
        } else if j == 1 {
            ModOp::Slew
        } else if j == 2 {
            ModOp::Rectify
        } else {
            ModOp::Hold
        }
    }

    /// Silkscreen title, and the rack-module kind tag.
    pub fn label(self) -> (r: &'static str)
        ensures
            r@ == self.spec_label(),
    {
        match self {
            ModOp::Quantize => "quantize",
            ModOp::Slew => "slew",
            ModOp::Rectify => "rectify",
            ModOp::Hold => "hold",
        }
    }

    /// The continuous trace sites this op owns, in `(p0, p1)` order.
    ///
    /// Two ops carry one parameter rather than two, and the unused `p1` is not
    /// a trace site; it is pinned to zero by [`crate::term::ModNode::normalized`].
    pub fn param_sites(self) -> (r: &'static [&'static str])
        ensures
            r@.len() == self.spec_param_sites().len(),
            forall|i: int| 0 <= i < r@.len() ==> #[trigger] r@[i]@ == self.spec_param_sites()[i],
    {
        match self {
            ModOp::Quantize => &["qroot", "qscale"],
            ModOp::Slew => &["rise", "fall"],
            ModOp::Rectify => &["rmode"],
            ModOp::Hold => &["hrate"],
        }
    }

    /// How many continuous sites this op owns (one or two).
    pub fn param_count(self) -> (r: usize)
        ensures
            r == self.spec_param_sites().len(),
    {
        match self {
            ModOp::Quantize => 2,
            ModOp::Slew => 2,
            ModOp::Rectify => 1,
            ModOp::Hold => 1,
        }
    }
}

/// A binary CV combiner over two modulation terms. Index order matches the
/// `#pairop` categorical.
#[derive(Clone, Copy, Debug, PartialEq, Eq, Structural)]
pub enum PairOp {
    /// Lower of the two.
    Min,
    /// Higher of the two.
    Max,
    /// Gate AND.
    And,
    /// Gate OR.
    Or,
    /// Gate XOR.
    Xor,
    /// `b` while `b` is above the switching threshold, `a` otherwise.
    Switch,
}

impl PairOp {
    /// Number of combiners.
    pub open spec fn count() -> nat {
        6
    }

    /// Categorical-site index.
    pub open spec fn spec_index(self) -> nat {
        match self {
            PairOp::Min => 0,
            PairOp::Max => 1,
            PairOp::And => 2,
            PairOp::Or => 3,
            PairOp::Xor => 4,
            PairOp::Switch => 5,
        }
    }

    /// The combiner at a categorical-site index, read modulo the table.
    pub open spec fn spec_from_index(i: nat) -> PairOp {
        let j = i % 6;
        if j == 0 {
            PairOp::Min
        } else if j == 1 {
            PairOp::Max
        } else if j == 2 {
            PairOp::And
        } else if j == 3 {
            PairOp::Or
        } else if j == 4 {
            PairOp::Xor
        } else {
            PairOp::Switch
        }
    }

    /// Silkscreen title, and the rack-module kind tag.
    pub open spec fn spec_label(self) -> Seq<char> {
        match self {
            PairOp::Min => "min"@,
            PairOp::Max => "max"@,
            PairOp::And => "and"@,
            PairOp::Or => "or"@,
            PairOp::Xor => "xor"@,
            PairOp::Switch => "switch"@,
        }
    }

    /// Whether this op emits a gate rather than passing one of its inputs'
    /// own voltage range through.
    pub open spec fn spec_is_gate(self) -> bool {
        self == PairOp::And || self == PairOp::Or || self == PairOp::Xor
    }

    /// Categorical-site index.
    pub fn index(self) -> (r: usize)
        ensures
            r == self.spec_index(),
    {
        match self {
            PairOp::Min => 0,
            PairOp::Max => 1,
            PairOp::And => 2,
            PairOp::Or => 3,
            PairOp::Xor => 4,
            PairOp::Switch => 5,
        }
    }

    /// From a categorical-site index (wrapping).
    pub fn from_index(i: usize) -> (r: PairOp)
        ensures
            r == PairOp::spec_from_index(i as nat),
    {
        let j = i % 6;
        if j == 0 {
            PairOp::Min
        } else if j == 1 {
            PairOp::Max
        } else if j == 2 {
            PairOp::And
        } else if j == 3 {
            PairOp::Or
        } else if j == 4 {
            PairOp::Xor
        } else {
            PairOp::Switch
        }
    }

    /// Silkscreen title, and the rack-module kind tag.
    pub fn label(self) -> (r: &'static str)
        ensures
            r@ == self.spec_label(),
    {
        match self {
            PairOp::Min => "min",
            PairOp::Max => "max",
            PairOp::And => "and",
            PairOp::Or => "or",
            PairOp::Xor => "xor",
            PairOp::Switch => "switch",
        }
    }

    /// Whether this op emits a 0-5 V gate rather than passing its inputs'
    /// own voltage range through.
    pub fn is_gate(self) -> (r: bool)
        ensures
            r == self.spec_is_gate(),
    {
        match self {
            PairOp::And | PairOp::Or | PairOp::Xor => true,
            _ => false,
        }
    }
}

/// Reading a value's own index back through `from_index` returns the value,
/// for every categorical of the palette.
pub proof fn lemma_index_round_trip(
    w: Waveform,
    c: NoiseColor,
    f: FilterKind,
    t: TableShape,
    d: DriveMode,
    m: ModOp,
    p: PairOp,
)
    ensures
        Waveform::spec_from_index(w.spec_index()) == w,
        NoiseColor::spec_from_index(c.spec_index()) == c,
        FilterKind::spec_from_index(f.spec_index()) == f,
        TableShape::spec_from_index(t.spec_index()) == t,
        DriveMode::spec_from_index(d.spec_index()) == d,
        ModOp::spec_from_index(m.spec_index()) == m,
        PairOp::spec_from_index(p.spec_index()) == p,
{
}

/// Every index names a value, and that value's own index is the input read
/// modulo the table length: the index order is a bijection onto
/// `0..count()`.
pub proof fn lemma_from_index_wraps(i: nat)
    ensures
        Waveform::spec_from_index(i).spec_index() == i % Waveform::count(),
        NoiseColor::spec_from_index(i).spec_index() == i % NoiseColor::count(),
        FilterKind::spec_from_index(i).spec_index() == i % FilterKind::count(),
        TableShape::spec_from_index(i).spec_index() == i % TableShape::count(),
        DriveMode::spec_from_index(i).spec_index() == i % DriveMode::count(),
        ModOp::spec_from_index(i).spec_index() == i % ModOp::count(),
        PairOp::spec_from_index(i).spec_index() == i % PairOp::count(),
{
}

/// A normalized continuous parameter, held as the bit pattern of its IEEE-754
/// `f64` value (`f64::to_bits`). The grammar never computes with these
/// values; it stores, copies and compares them.
pub type Param = u64;

/// The larger of two naturals.
pub open spec fn max_nat(a: nat, b: nat) -> nat {
    if a >= b {
        a
    } else {
        b
    }
}

/// A modulation-slot term: what drives a processor's mod input.
///
/// Modulation is a recursive sort: [`ModNode::Op`] wraps one modulation term
/// in a CV processor and [`ModNode::Pair`] combines two.
#[derive(Debug, PartialEq, Eq)]
pub enum ModNode {
    /// No modulation attached.
    Empty,
    /// A low-frequency oscillator.
    Lfo {
        /// LFO waveform.
        wave: Waveform,
        /// Normalized rate.
        rate: Param,
    },
    /// An attack/decay envelope retriggered by the note gate.
    Env {
        /// Normalized attack time.
        attack: Param,
        /// Normalized decay time.
        decay: Param,
    },
    /// A random stepped source (noise sampled-and-held on an internal clock).
    Rand {
        /// Normalized clock rate.
        rate: Param,
        /// Normalized slew between steps (0 = hard steps).
        glide: Param,
    },
    /// An envelope follower riding the owning module's own input.
    Follow {
        /// Normalized sensitivity.
        sens: Param,
        /// Normalized release time.
        release: Param,
    },
    /// A clocked euclidean gate pattern.
    Euclid {
        /// Normalized clock rate.
        rate: Param,
        /// Normalized step count.
        steps: Param,
        /// Normalized pulse density.
        pulses: Param,
    },
    /// A unary CV processor wrapping another modulation term. The ops that
    /// take one parameter keep `p1` at zero.
    Op {
        /// Which processor.
        kind: ModOp,
        /// First continuous parameter.
        p0: Param,
        /// Second continuous parameter (zero on one-parameter ops).
        p1: Param,
        /// The modulation term being processed.
        input: Box<ModNode>,
    },
    /// A binary CV combiner over two modulation terms.
    Pair {
        /// Which combiner.
        kind: PairOp,
        /// First input.
        a: Box<ModNode>,
        /// Second input; on [`PairOp::Switch`] it is also the control.
        b: Box<ModNode>,
    },
}

impl ModNode {
    /// A structurally equal copy of this term.
    pub fn duplicate(&self) -> (r: ModNode)
        ensures
            r == *self,
        decreases self,
    {
        match self {
            ModNode::Empty => ModNode::Empty,
            ModNode::Lfo { wave, rate } => ModNode::Lfo { wave: *wave, rate: *rate },
            ModNode::Env { attack, decay } => ModNode::Env { attack: *attack, decay: *decay },
            ModNode::Rand { rate, glide } => ModNode::Rand { rate: *rate, glide: *glide },
            ModNode::Follow { sens, release } => ModNode::Follow {
                sens: *sens,
                release: *release,
            },
            ModNode::Euclid { rate, steps, pulses } => ModNode::Euclid {
                rate: *rate,
                steps: *steps,
                pulses: *pulses,
            },
            ModNode::Op { kind, p0, p1, input } => ModNode::Op {
                kind: *kind,
                p0: *p0,
                p1: *p1,
                input: Box::new((**input).duplicate()),
            },
            ModNode::Pair { kind, a, b } => ModNode::Pair {
                kind: *kind,
                a: Box::new((**a).duplicate()),
                b: Box::new((**b).duplicate()),
            },
        }
    }

    /// Number of probabilistic-choice sites this mod term occupies.
    pub open spec fn spec_site_count(self) -> nat
        decreases self,
    {
        match self {
            ModNode::Empty => 1,
            ModNode::Lfo { .. } => 3,
            ModNode::Env { .. } => 3,
            ModNode::Rand { .. } => 3,
            ModNode::Follow { .. } => 3,
            ModNode::Euclid { .. } => 4,
            ModNode::Op { kind, input, .. } => 2 + kind.spec_param_sites().len()
                + input.spec_site_count(),
            ModNode::Pair { a, b, .. } => 2 + a.spec_site_count() + b.spec_site_count(),
        }
    }

    /// Nesting depth: an empty slot is 0, a leaf is 1, and every processor
    /// above one adds a level.
    pub open spec fn spec_depth(self) -> nat
        decreases self,
    {
        match self {
            ModNode::Empty => 0,
            ModNode::Op { input, .. } => 1 + input.spec_depth(),
            ModNode::Pair { a, b, .. } => 1 + max_nat(a.spec_depth(), b.spec_depth()),
            _ => 1,
        }
    }

    /// Number of nodes in this modulation term (an empty slot is 0).
    pub open spec fn spec_size(self) -> nat
        decreases self,
    {
        match self {
            ModNode::Empty => 0,
            ModNode::Op { input, .. } => 1 + input.spec_size(),
            ModNode::Pair { a, b, .. } => 1 + a.spec_size() + b.spec_size(),
            _ => 1,
        }
    }

    /// The canonical form of a hand-built modulation term: a processor over
    /// nothing is nothing, a pair with one empty branch is its other branch,
    /// and an unused `p1` is pinned to zero.
    pub open spec fn spec_normalized(self) -> ModNode
        decreases self,
    {
        match self {
            ModNode::Op { kind, p0, p1, input } => {
                let inner = input.spec_normalized();
                if inner is Empty {
                    ModNode::Empty
                } else {
                    ModNode::Op {
                        kind,
                        p0,
                        p1: if kind.takes_two() {
                            p1
                        } else {
                            0
                        },
                        input: Box::new(inner),
                    }
                }
            },
            ModNode::Pair { kind, a, b } => {
                let na = a.spec_normalized();
                let nb = b.spec_normalized();
                if na is Empty && nb is Empty {
                    ModNode::Empty
                } else if nb is Empty {
                    na
                } else if na is Empty {
                    nb
                } else {
                    ModNode::Pair { kind, a: Box::new(na), b: Box::new(nb) }
                }
            },
            _ => self,
        }
    }

    /// Whether this term is in canonical form: no processor or combiner has
    /// an empty input anywhere, and one-parameter ops carry `p1 == 0`.
    pub open spec fn is_canonical(self) -> bool
        decreases self,
    {
        match self {
            ModNode::Op { kind, p1, input, .. } => {
                &&& !(*input is Empty)
                &&& (kind.takes_two() || p1 == 0)
                &&& input.is_canonical()
            },
            ModNode::Pair { a, b, .. } => {
                &&& !(*a is Empty)
                &&& !(*b is Empty)
                &&& a.is_canonical()
                &&& b.is_canonical()
            },
            _ => true,
        }
    }

    /// Depth is never more than size.
    pub proof fn lemma_depth_le_size(self)
        ensures
            self.spec_depth() <= self.spec_size(),
        decreases self,
    {
        match self {
            ModNode::Op { input, .. } => input.lemma_depth_le_size(),
            ModNode::Pair { a, b, .. } => {
                a.lemma_depth_le_size();
                b.lemma_depth_le_size();
            },
            _ => {},
        }
    }

    /// Number of probabilistic-choice sites this mod term occupies.
    pub fn site_count(&self) -> (r: usize)
        requires
            self.spec_site_count() <= usize::MAX,
        ensures
            r == self.spec_site_count(),
        decreases self,
    {
        match self {
            ModNode::Empty => 1,
            ModNode::Lfo { .. } => 3,
            ModNode::Env { .. } => 3,
            ModNode::Rand { .. } => 3,
            ModNode::Follow { .. } => 3,
            ModNode::Euclid { .. } => 4,
            ModNode::Op { kind, input, .. } => 2 + kind.param_count() + input.site_count(),
            ModNode::Pair { a, b, .. } => 2 + a.site_count() + b.site_count(),
        }
    }

    /// Nesting depth of this modulation term: an empty slot is 0, a leaf is 1,
    /// and every processor above one adds a level.
    pub fn depth(&self) -> (r: usize)
        requires
            self.spec_size() <= usize::MAX,
        ensures
            r == self.spec_depth(),
        decreases self,
    {
        proof {
            self.lemma_depth_le_size();
        }
        match self {
            ModNode::Empty => 0,
            ModNode::Op { input, .. } => 1 + input.depth(),
            ModNode::Pair { a, b, .. } => {
                proof {
                    a.lemma_depth_le_size();
                    b.lemma_depth_le_size();
                }
                let (da, db) = (a.depth(), b.depth());
                1 + if da >= db {
                    da
                } else {
                    db
                }
            },
            _ => 1,
        }
    }

    /// Number of nodes in this modulation term (an empty slot is 0).
    pub fn size(&self) -> (r: usize)
        requires
            self.spec_size() <= usize::MAX,
        ensures
            r == self.spec_size(),
        decreases self,
    {
        match self {
            ModNode::Empty => 0,
            ModNode::Op { input, .. } => 1 + input.size(),
            ModNode::Pair { a, b, .. } => 1 + a.size() + b.size(),
            _ => 1,
        }
    }

    /// Whether the nesting depth is at most `limit`; unlike [`ModNode::depth`]
    /// it needs no bound on the term's size.
    pub fn depth_within(&self, limit: usize) -> (r: bool)
        ensures
            r == (self.spec_depth() <= limit),
        decreases self,
    {
        match self {
            ModNode::Empty => true,
            ModNode::Op { input, .. } => limit >= 1 && input.depth_within(limit - 1),
            ModNode::Pair { a, b, .. } => limit >= 1 && a.depth_within(limit - 1)
                && b.depth_within(limit - 1),
            _ => limit >= 1,
        }
    }

    /// The canonical form of a hand-built modulation term.
    ///
    /// A processor over nothing is nothing; a pair with one empty input
    /// collapses to the other side; the unused `p1` of a one-parameter op is
    /// pinned to zero, so the term survives its own trace round-trip.
    pub fn normalized(self) -> (r: ModNode)
        ensures
            r == self.spec_normalized(),
        decreases self,
    {
        match self {
            ModNode::Op { kind, p0, p1, input } => {
                let inner = (*input).normalized();
                match inner {
                    ModNode::Empty => ModNode::Empty,
                    inner => ModNode::Op {
                        kind,
                        p0,
                        p1: if kind.param_count() > 1 {
                            p1
                        } else {
                            0
                        },
                        input: Box::new(inner),
                    },
                }
            },
            ModNode::Pair { kind, a, b } => {
                let na = (*a).normalized();
                let nb = (*b).normalized();
                match (na, nb) {
                    (ModNode::Empty, ModNode::Empty) => ModNode::Empty,
                    (na, ModNode::Empty) => na,
                    (ModNode::Empty, nb) => nb,
                    (na, nb) => ModNode::Pair { kind, a: Box::new(na), b: Box::new(nb) },
                }
            },
            leaf => leaf,
        }
    }
}

impl Clone for ModNode {
    fn clone(&self) -> (r: Self)
        ensures
            r == *self,
    {
        self.duplicate()
    }
}

impl Default for ModNode {
    /// The empty slot.
    fn default() -> (r: Self)
        ensures
            r == ModNode::Empty,
    {
        ModNode::Empty
    }
}

/// The normal form is canonical, and a canonical term is its own normal form.
pub proof fn lemma_normalized_canonical(m: ModNode)
    ensures
        m.spec_normalized().is_canonical(),
        m.is_canonical() ==> m.spec_normalized() == m,
    decreases m,
{
    match m {
        ModNode::Op { input, .. } => lemma_normalized_canonical(*input),
        ModNode::Pair { a, b, .. } => {
            lemma_normalized_canonical(*a);
            lemma_normalized_canonical(*b);
        },
        _ => {},
    }
}

/// Normalizing is idempotent: a normalized term is already canonical.
pub proof fn lemma_normalized_idempotent(m: ModNode)
    ensures
        m.spec_normalized().spec_normalized() == m.spec_normalized(),
{
    lemma_normalized_canonical(m);
    lemma_normalized_canonical(m.spec_normalized());
}

/// Normalizing never deepens or grows a term.
pub proof fn lemma_normalized_shrinks(m: ModNode)
    ensures
        m.spec_normalized().spec_depth() <= m.spec_depth(),
        m.spec_normalized().spec_size() <= m.spec_size(),
    decreases m,
{
    match m {
        ModNode::Op { input, .. } => lemma_normalized_shrinks(*input),
        ModNode::Pair { a, b, .. } => {
            lemma_normalized_shrinks(*a);
            lemma_normalized_shrinks(*b);
        },
        _ => {},
    }
}

/// An audio-sort term: sources at the leaves, processors and mixers above.
///
/// Every continuous parameter is a [`Param`]. Child order is `/0` for the
/// signal that is heard and `/1` for the second branch of a binary node.
#[derive(Debug, PartialEq, Eq)]
pub enum AudioNode {
    /// Band-limited analog-style oscillator; its modulation slot lands on pitch.
    Vco {
        /// Output waveform.
        wave: Waveform,
        /// Octave offset, -2..=+2.
        octave: i8,
        /// Normalized detune.
        detune: Param,
        /// Normalized modulation depth (cable attenuation).
        mod_depth: Param,
        /// Modulation source for this module's modulated parameter.
        modulation: ModNode,
    },
    /// Seven-voice detuned saw stack with sub oscillator; slot lands on pitch.
    Supersaw {
        /// Octave offset, -2..=+2.
        octave: i8,
        /// Normalized detune.
        detune: Param,
        /// Normalized wet/dry or blend amount.
        mix: Param,
        /// Normalized modulation depth (cable attenuation).
        mod_depth: Param,
        /// Modulation source for this module's modulated parameter.
        modulation: ModNode,
    },
    /// Noise source.
    Noise {
        /// Noise color.
        color: NoiseColor,
    },
    /// Morphing wavetable oscillator; slot lands on the morph.
    Wavetable {
        /// Base table.
        table: TableShape,
        /// Octave offset, -2..=+2.
        octave: i8,
        /// Normalized morph toward the next table.
        morph: Param,
        /// Normalized modulation depth (cable attenuation).
        mod_depth: Param,
        /// Modulation source for this module's modulated parameter.
        modulation: ModNode,
    },
    /// Karplus-Strong plucked string, retriggered by the note gate.
    Pluck {
        /// Octave offset, -2..=+2.
        octave: i8,
        /// Normalized loop damping.
        damping: Param,
        /// Normalized excitation brightness.
        brightness: Param,
        /// Normalized modulation depth (cable attenuation).
        mod_depth: Param,
        /// Modulation source for this module's modulated parameter.
        modulation: ModNode,
    },
    /// Formant (vocal-tract) oscillator with a continuous vowel position.
    Formant {
        /// Normalized vowel position across A/E/I/O/U.
        vowel: Param,
        /// Normalized formant shift (0.5 is no shift).
        shift: Param,
        /// Octave offset, -2..=+2.
        octave: i8,
        /// Normalized modulation depth (cable attenuation).
        mod_depth: Param,
        /// Modulation source for this module's modulated parameter.
        modulation: ModNode,
    },
    /// Equal-power crossfade of two audio terms (0 = all `a`, 1 = all `b`).
    Mix {
        /// Normalized balance (0 = all `a`, 1 = all `b`).
        balance: Param,
        /// First input (`/0`).
        a: Box<AudioNode>,
        /// Second input (`/1`).
        b: Box<AudioNode>,
    },
    /// A filter over an audio term, with a cutoff modulation slot.
    Filter {
        /// Which filter.
        kind: FilterKind,
        /// Normalized cutoff.
        cutoff: Param,
        /// Normalized resonance.
        resonance: Param,
        /// Normalized modulation depth (cable attenuation).
        mod_depth: Param,
        /// Audio input (`/0`).
        input: Box<AudioNode>,
        /// Modulation source for this module's modulated parameter.
        modulation: ModNode,
    },
    /// Wavefolder over an audio term, with a threshold modulation slot.
    Fold {
        /// Normalized threshold.
        threshold: Param,
        /// Normalized modulation depth (cable attenuation).
        mod_depth: Param,
        /// Audio input (`/0`).
        input: Box<AudioNode>,
        /// Modulation source for this module's modulated parameter.
        modulation: ModNode,
    },
    /// Delay line over an audio term, with a delay-time modulation slot.
    Delay {
        /// Normalized delay time.
        time: Param,
        /// Normalized feedback.
        feedback: Param,
        /// Normalized wet/dry or blend amount.
        mix: Param,
        /// Normalized modulation depth (cable attenuation).
        mod_depth: Param,
        /// Audio input (`/0`).
        input: Box<AudioNode>,
        /// Modulation source for this module's modulated parameter.
        modulation: ModNode,
    },
    /// Chorus over an audio term, with a depth modulation slot.
    Chorus {
        /// Normalized rate.
        rate: Param,
        /// Normalized depth.
        depth: Param,
        /// Normalized wet/dry or blend amount.
        mix: Param,
        /// Normalized modulation depth (cable attenuation).
        mod_depth: Param,
        /// Audio input (`/0`).
        input: Box<AudioNode>,
        /// Modulation source for this module's modulated parameter.
        modulation: ModNode,
    },
    /// Algorithmic reverb over an audio term, with a size modulation slot.
    Reverb {
        /// Normalized size.
        size: Param,
        /// Normalized damping.
        damp: Param,
        /// Normalized wet/dry or blend amount.
        mix: Param,
        /// Normalized modulation depth (cable attenuation).
        mod_depth: Param,
        /// Audio input (`/0`).
        input: Box<AudioNode>,
        /// Modulation source for this module's modulated parameter.
        modulation: ModNode,
    },
    /// Waveshaping distortion over an audio term.
    Distortion {
        /// Normalized drive.
        drive: Param,
        /// Normalized tone.
        tone: Param,
        /// Shaping curve.
        mode: DriveMode,
        /// Normalized modulation depth (cable attenuation).
        mod_depth: Param,
        /// Audio input (`/0`).
        input: Box<AudioNode>,
        /// Modulation source for this module's modulated parameter.
        modulation: ModNode,
    },
    /// Bit-depth and sample-rate reduction over an audio term.
    Bitcrush {
        /// Normalized bit depth.
        bits: Param,
        /// Normalized sample-rate reduction.
        downsample: Param,
        /// Normalized modulation depth (cable attenuation).
        mod_depth: Param,
        /// Audio input (`/0`).
        input: Box<AudioNode>,
        /// Modulation source for this module's modulated parameter.
        modulation: ModNode,
    },
    /// Swept allpass phaser over an audio term.
    Phaser {
        /// Normalized rate.
        rate: Param,
        /// Normalized depth.
        depth: Param,
        /// Normalized feedback.
        feedback: Param,
        /// Normalized modulation depth (cable attenuation).
        mod_depth: Param,
        /// Audio input (`/0`).
        input: Box<AudioNode>,
        /// Modulation source for this module's modulated parameter.
        modulation: ModNode,
    },
    /// Flanging comb over an audio term.
    Flanger {
        /// Normalized rate.
        rate: Param,
        /// Normalized depth.
        depth: Param,
        /// Normalized feedback.
        feedback: Param,
        /// Normalized modulation depth (cable attenuation).
        mod_depth: Param,
        /// Audio input (`/0`).
        input: Box<AudioNode>,
        /// Modulation source for this module's modulated parameter.
        modulation: ModNode,
    },
    /// Amplitude modulation over an audio term.
    Tremolo {
        /// Normalized rate.
        rate: Param,
        /// Normalized depth.
        depth: Param,
        /// Normalized waveform blend (0 = sine, 1 = triangle).
        shape: Param,
        /// Normalized modulation depth (cable attenuation).
        mod_depth: Param,
        /// Audio input (`/0`).
        input: Box<AudioNode>,
        /// Modulation source for this module's modulated parameter.
        modulation: ModNode,
    },
    /// Pitch wobble over an audio term (a modulated delay read).
    Vibrato {
        /// Normalized rate.
        rate: Param,
        /// Normalized depth.
        depth: Param,
        /// Normalized wet/dry or blend amount.
        mix: Param,
        /// Normalized modulation depth (cable attenuation).
        mod_depth: Param,
        /// Audio input (`/0`).
        input: Box<AudioNode>,
        /// Modulation source for this module's modulated parameter.
        modulation: ModNode,
    },
    /// Three-band tone control over an audio term.
    Eq {
        /// Normalized low-shelf gain (0.5 is 0 dB).
        low: Param,
        /// Normalized mid-bell gain (0.5 is 0 dB).
        mid: Param,
        /// Normalized high-shelf gain (0.5 is 0 dB).
        high: Param,
        /// Normalized modulation depth (cable attenuation).
        mod_depth: Param,
        /// Audio input (`/0`).
        input: Box<AudioNode>,
        /// Modulation source for this module's modulated parameter.
        modulation: ModNode,
    },
    /// Granular re-reading of an audio term.
    Granular {
        /// Normalized playback position in the grain buffer.
        position: Param,
        /// Normalized size.
        size: Param,
        /// Normalized grain density.
        density: Param,
        /// Normalized modulation depth (cable attenuation).
        mod_depth: Param,
        /// Audio input (`/0`).
        input: Box<AudioNode>,
        /// Modulation source for this module's modulated parameter.
        modulation: ModNode,
    },
    /// Ring modulation of two audio terms, crossfaded against the dry carrier.
    RingMod {
        /// Normalized wet/dry or blend amount.
        mix: Param,
        /// First input (`/0`).
        a: Box<AudioNode>,
        /// Second input (`/1`).
        b: Box<AudioNode>,
    },
    /// Grain-based pitch shifter over an audio term.
    Shift {
        /// Normalized transposition (0.5 is unison).
        semis: Param,
        /// Normalized grain window.
        window: Param,
        /// Normalized wet/dry or blend amount.
        mix: Param,
        /// Normalized modulation depth (cable attenuation).
        mod_depth: Param,
        /// Audio input (`/0`).
        input: Box<AudioNode>,
        /// Modulation source for this module's modulated parameter.
        modulation: ModNode,
    },
    /// Compressor whose detector listens to a second audio term (`/1`).
    Comp {
        /// Normalized threshold.
        threshold: Param,
        /// Normalized ratio.
        ratio: Param,
        /// Normalized makeup gain.
        makeup: Param,
        /// Normalized modulation depth (cable attenuation).
        mod_depth: Param,
        /// Audio input (`/0`).
        input: Box<AudioNode>,
        /// The signal the detector listens to (`/1`).
        sidechain: Box<AudioNode>,
        /// Modulation source for this module's modulated parameter.
        modulation: ModNode,
    },
    /// Ducker: a key signal (`/1`) pulls the main signal down.
    Duck {
        /// Normalized duck depth.
        amount: Param,
        /// Normalized threshold.
        threshold: Param,
        /// Normalized release time.
        release: Param,
        /// Normalized modulation depth (cable attenuation).
        mod_depth: Param,
        /// Audio input (`/0`).
        input: Box<AudioNode>,
        /// The key that ducks the input (`/1`).
        key: Box<AudioNode>,
        /// Modulation source for this module's modulated parameter.
        modulation: ModNode,
    },
    /// Noise gate keyed by a second audio term (`/1`).
    Gate {
        /// Normalized threshold.
        threshold: Param,
        /// Normalized gate range.
        range: Param,
        /// Normalized release time.
        release: Param,
        /// Normalized modulation depth (cable attenuation).
        mod_depth: Param,
        /// Audio input (`/0`).
        input: Box<AudioNode>,
        /// The signal the detector listens to (`/1`).
        sidechain: Box<AudioNode>,
        /// Modulation source for this module's modulated parameter.
        modulation: ModNode,
    },
    /// Vocoder: the modulator's (`/1`) band envelopes imposed on the carrier.
    Vocoder {
        /// Normalized band count.
        bands: Param,
        /// Normalized envelope attack.
        attack: Param,
        /// Normalized release time.
        release: Param,
        /// Normalized modulation depth (cable attenuation).
        mod_depth: Param,
        /// The signal that is spectrally shaped (`/0`).
        carrier: Box<AudioNode>,
        /// The signal whose spectrum is measured (`/1`).
        modulator: Box<AudioNode>,
        /// Modulation source for this module's modulated parameter.
        modulation: ModNode,
    },
}

impl AudioNode {
    /// A structurally equal copy of this term.
    pub fn duplicate(&self) -> (r: AudioNode)
        ensures
            r == *self,
        decreases self,
    {
        match self {
            AudioNode::Vco { wave, octave, detune, mod_depth, modulation } => AudioNode::Vco {
                wave: *wave,
                octave: *octave,
                detune: *detune,
                mod_depth: *mod_depth,
                modulation: modulation.duplicate(),
            },
            AudioNode::Supersaw { octave, detune, mix, mod_depth, modulation } => AudioNode::Supersaw {
                octave: *octave,
                detune: *detune,
                mix: *mix,
                mod_depth: *mod_depth,
                modulation: modulation.duplicate(),
            },
            AudioNode::Noise { color } => AudioNode::Noise {
                color: *color,
            },
            AudioNode::Wavetable { table, octave, morph, mod_depth, modulation } => AudioNode::Wavetable {
                table: *table,
                octave: *octave,
                morph: *morph,
                mod_depth: *mod_depth,
                modulation: modulation.duplicate(),
            },
            AudioNode::Pluck { octave, damping, brightness, mod_depth, modulation } => AudioNode::Pluck {
                octave: *octave,
                damping: *damping,
                brightness: *brightness,
                mod_depth: *mod_depth,
                modulation: modulation.duplicate(),
            },
            AudioNode::Formant { vowel, shift, octave, mod_depth, modulation } => AudioNode::Formant {
                vowel: *vowel,
                shift: *shift,
                octave: *octave,
                mod_depth: *mod_depth,
                modulation: modulation.duplicate(),
            },
            AudioNode::Mix { balance, a, b } => AudioNode::Mix {
                balance: *balance,
                a: Box::new((**a).duplicate()),
                b: Box::new((**b).duplicate()),
            },
            AudioNode::Filter { kind, cutoff, resonance, mod_depth, input, modulation } => AudioNode::Filter {
                kind: *kind,
                cutoff: *cutoff,
                resonance: *resonance,
                mod_depth: *mod_depth,
                input: Box::new((**input).duplicate()),
                modulation: modulation.duplicate(),
            },
            AudioNode::Fold { threshold, mod_depth, input, modulation } => AudioNode::Fold {
                threshold: *threshold,
                mod_depth: *mod_depth,
                input: Box::new((**input).duplicate()),
                modulation: modulation.duplicate(),
            },
            AudioNode::Delay { time, feedback, mix, mod_depth, input, modulation } => AudioNode::Delay {
                time: *time,
                feedback: *feedback,
                mix: *mix,
                mod_depth: *mod_depth,
                input: Box::new((**input).duplicate()),
                modulation: modulation.duplicate(),
            },
            AudioNode::Chorus { rate, depth, mix, mod_depth, input, modulation } => AudioNode::Chorus {
                rate: *rate,
                depth: *depth,
                mix: *mix,
                mod_depth: *mod_depth,
                input: Box::new((**input).duplicate()),
                modulation: modulation.duplicate(),
            },
            AudioNode::Reverb { size, damp, mix, mod_depth, input, modulation } => AudioNode::Reverb {
                size: *size,
                damp: *damp,
                mix: *mix,
                mod_depth: *mod_depth,
                input: Box::new((**input).duplicate()),
                modulation: modulation.duplicate(),
            },
            AudioNode::Distortion { drive, tone, mode, mod_depth, input, modulation } => AudioNode::Distortion {
                drive: *drive,
                tone: *tone,
                mode: *mode,
                mod_depth: *mod_depth,
                input: Box::new((**input).duplicate()),
                modulation: modulation.duplicate(),
            },
            AudioNode::Bitcrush { bits, downsample, mod_depth, input, modulation } => AudioNode::Bitcrush {
                bits: *bits,
                downsample: *downsample,
                mod_depth: *mod_depth,
                input: Box::new((**input).duplicate()),
                modulation: modulation.duplicate(),
            },
            AudioNode::Phaser { rate, depth, feedback, mod_depth, input, modulation } => AudioNode::Phaser {
                rate: *rate,
                depth: *depth,
                feedback: *feedback,
                mod_depth: *mod_depth,
                input: Box::new((**input).duplicate()),
                modulation: modulation.duplicate(),
            },
            AudioNode::Flanger { rate, depth, feedback, mod_depth, input, modulation } => AudioNode::Flanger {
                rate: *rate,
                depth: *depth,
                feedback: *feedback,
                mod_depth: *mod_depth,
                input: Box::new((**input).duplicate()),
                modulation: modulation.duplicate(),
            },
            AudioNode::Tremolo { rate, depth, shape, mod_depth, input, modulation } => AudioNode::Tremolo {
                rate: *rate,
                depth: *depth,
                shape: *shape,
                mod_depth: *mod_depth,
                input: Box::new((**input).duplicate()),
                modulation: modulation.duplicate(),
            },
            AudioNode::Vibrato { rate, depth, mix, mod_depth, input, modulation } => AudioNode::Vibrato {
                rate: *rate,
                depth: *depth,
                mix: *mix,
                mod_depth: *mod_depth,
                input: Box::new((**input).duplicate()),
                modulation: modulation.duplicate(),
            },
            AudioNode::Eq { low, mid, high, mod_depth, input, modulation } => AudioNode::Eq {
                low: *low,
                mid: *mid,
                high: *high,
                mod_depth: *mod_depth,
                input: Box::new((**input).duplicate()),
                modulation: modulation.duplicate(),
            },
            AudioNode::Granular { position, size, density, mod_depth, input, modulation } => AudioNode::Granular {
                position: *position,
                size: *size,
                density: *density,
                mod_depth: *mod_depth,
                input: Box::new((**input).duplicate()),
                modulation: modulation.duplicate(),
            },
            AudioNode::RingMod { mix, a, b } => AudioNode::RingMod {
                mix: *mix,
                a: Box::new((**a).duplicate()),
                b: Box::new((**b).duplicate()),
            },
            AudioNode::Shift { semis, window, mix, mod_depth, input, modulation } => AudioNode::Shift {
                semis: *semis,
                window: *window,
                mix: *mix,
                mod_depth: *mod_depth,
                input: Box::new((**input).duplicate()),
                modulation: modulation.duplicate(),
            },
            AudioNode::Comp { threshold, ratio, makeup, mod_depth, input, sidechain, modulation } => AudioNode::Comp {
                threshold: *threshold,
                ratio: *ratio,
                makeup: *makeup,
                mod_depth: *mod_depth,
                input: Box::new((**input).duplicate()),
                sidechain: Box::new((**sidechain).duplicate()),
                modulation: modulation.duplicate(),
            },
            AudioNode::Duck { amount, threshold, release, mod_depth, input, key, modulation } => AudioNode::Duck {
                amount: *amount,
                threshold: *threshold,
                release: *release,
                mod_depth: *mod_depth,
                input: Box::new((**input).duplicate()),
                key: Box::new((**key).duplicate()),
                modulation: modulation.duplicate(),
            },
            AudioNode::Gate { threshold, range, release, mod_depth, input, sidechain, modulation } => AudioNode::Gate {
                threshold: *threshold,
                range: *range,
                release: *release,
                mod_depth: *mod_depth,
                input: Box::new((**input).duplicate()),
                sidechain: Box::new((**sidechain).duplicate()),
                modulation: modulation.duplicate(),
            },
            AudioNode::Vocoder { bands, attack, release, mod_depth, carrier, modulator, modulation } => AudioNode::Vocoder {
                bands: *bands,
                attack: *attack,
                release: *release,
                mod_depth: *mod_depth,
                carrier: Box::new((**carrier).duplicate()),
                modulator: Box::new((**modulator).duplicate()),
                modulation: modulation.duplicate(),
            },
        }
    }

    /// Tree depth (a source leaf is depth 1).
    pub open spec fn spec_depth(self) -> nat
        decreases self,
    {
        match self {
            AudioNode::Vco { .. }
            | AudioNode::Supersaw { .. }
            | AudioNode::Noise { .. }
            | AudioNode::Wavetable { .. }
            | AudioNode::Pluck { .. }
            | AudioNode::Formant { .. } => 1,
            AudioNode::Mix { a, b, .. }
            | AudioNode::RingMod { a, b, .. } => 1 + max_nat(a.spec_depth(), b.spec_depth()),
            AudioNode::Comp { input, sidechain: other, .. }
            | AudioNode::Duck { input, key: other, .. }
            | AudioNode::Gate { input, sidechain: other, .. }
            | AudioNode::Vocoder { carrier: input, modulator: other, .. } => 1 + max_nat(input.spec_depth(), other.spec_depth()),
            AudioNode::Filter { input, .. }
            | AudioNode::Fold { input, .. }
            | AudioNode::Delay { input, .. }
            | AudioNode::Chorus { input, .. }
            | AudioNode::Reverb { input, .. }
            | AudioNode::Distortion { input, .. }
            | AudioNode::Bitcrush { input, .. }
            | AudioNode::Phaser { input, .. }
            | AudioNode::Flanger { input, .. }
            | AudioNode::Tremolo { input, .. }
            | AudioNode::Vibrato { input, .. }
            | AudioNode::Eq { input, .. }
            | AudioNode::Granular { input, .. }
            | AudioNode::Shift { input, .. } => 1 + input.spec_depth(),
        }
    }

    /// Number of audio nodes in the tree.
    pub open spec fn spec_size(self) -> nat
        decreases self,
    {
        match self {
            AudioNode::Vco { .. }
            | AudioNode::Supersaw { .. }
            | AudioNode::Noise { .. }
            | AudioNode::Wavetable { .. }
            | AudioNode::Pluck { .. }
            | AudioNode::Formant { .. } => 1,
            AudioNode::Mix { a, b, .. }
            | AudioNode::RingMod { a, b, .. } => 1 + a.spec_size() + b.spec_size(),
            AudioNode::Comp { input, sidechain: other, .. }
            | AudioNode::Duck { input, key: other, .. }
            | AudioNode::Gate { input, sidechain: other, .. }
            | AudioNode::Vocoder { carrier: input, modulator: other, .. } => 1 + input.spec_size() + other.spec_size(),
            AudioNode::Filter { input, .. }
            | AudioNode::Fold { input, .. }
            | AudioNode::Delay { input, .. }
            | AudioNode::Chorus { input, .. }
            | AudioNode::Reverb { input, .. }
            | AudioNode::Distortion { input, .. }
            | AudioNode::Bitcrush { input, .. }
            | AudioNode::Phaser { input, .. }
            | AudioNode::Flanger { input, .. }
            | AudioNode::Tremolo { input, .. }
            | AudioNode::Vibrato { input, .. }
            | AudioNode::Eq { input, .. }
            | AudioNode::Granular { input, .. }
            | AudioNode::Shift { input, .. } => 1 + input.spec_size(),
        }
    }

    /// Number of probabilistic-choice sites in this subtree: the structural
    /// `#leaf` and `#src`/`#op` sites, the module's own knobs, its modulation
    /// subterm and its audio subterms.
    pub open spec fn spec_site_count(self) -> nat
        decreases self,
    {
        match self {
            AudioNode::Vco { modulation, .. } => 2 + 4 + modulation.spec_site_count(),
            AudioNode::Supersaw { modulation, .. } => 2 + 4 + modulation.spec_site_count(),
            AudioNode::Noise { .. } => 2 + 1,
            AudioNode::Wavetable { modulation, .. } => 2 + 4 + modulation.spec_site_count(),
            AudioNode::Pluck { modulation, .. } => 2 + 4 + modulation.spec_site_count(),
            AudioNode::Formant { modulation, .. } => 2 + 4 + modulation.spec_site_count(),
            AudioNode::Mix { a, b, .. } => 2 + 1 + a.spec_site_count() + b.spec_site_count(),
            AudioNode::Filter { input, modulation, .. } => 2 + 4 + input.spec_site_count() + modulation.spec_site_count(),
            AudioNode::Fold { input, modulation, .. } => 2 + 2 + input.spec_site_count() + modulation.spec_site_count(),
            AudioNode::Delay { input, modulation, .. } => 2 + 4 + input.spec_site_count() + modulation.spec_site_count(),
            AudioNode::Chorus { input, modulation, .. } => 2 + 4 + input.spec_site_count() + modulation.spec_site_count(),
            AudioNode::Reverb { input, modulation, .. } => 2 + 4 + input.spec_site_count() + modulation.spec_site_count(),
            AudioNode::Distortion { input, modulation, .. } => 2 + 4 + input.spec_site_count() + modulation.spec_site_count(),
            AudioNode::Bitcrush { input, modulation, .. } => 2 + 3 + input.spec_site_count() + modulation.spec_site_count(),
            AudioNode::Phaser { input, modulation, .. } => 2 + 4 + input.spec_site_count() + modulation.spec_site_count(),
            AudioNode::Flanger { input, modulation, .. } => 2 + 4 + input.spec_site_count() + modulation.spec_site_count(),
            AudioNode::Tremolo { input, modulation, .. } => 2 + 4 + input.spec_site_count() + modulation.spec_site_count(),
            AudioNode::Vibrato { input, modulation, .. } => 2 + 4 + input.spec_site_count() + modulation.spec_site_count(),
            AudioNode::Eq { input, modulation, .. } => 2 + 4 + input.spec_site_count() + modulation.spec_site_count(),
            AudioNode::Granular { input, modulation, .. } => 2 + 4 + input.spec_site_count() + modulation.spec_site_count(),
            AudioNode::RingMod { a, b, .. } => 2 + 1 + a.spec_site_count() + b.spec_site_count(),
            AudioNode::Shift { input, modulation, .. } => 2 + 4 + input.spec_site_count() + modulation.spec_site_count(),
            AudioNode::Comp { input, sidechain, modulation, .. } => 2 + 4 + input.spec_site_count() + sidechain.spec_site_count() + modulation.spec_site_count(),
            AudioNode::Duck { input, key, modulation, .. } => 2 + 4 + input.spec_site_count() + key.spec_site_count() + modulation.spec_site_count(),
            AudioNode::Gate { input, sidechain, modulation, .. } => 2 + 4 + input.spec_site_count() + sidechain.spec_site_count() + modulation.spec_site_count(),
            AudioNode::Vocoder { carrier, modulator, modulation, .. } => 2 + 4 + carrier.spec_site_count() + modulator.spec_site_count() + modulation.spec_site_count(),
        }
    }

    /// Whether this node is a source (a leaf of the audio tree).
    pub open spec fn spec_is_source(self) -> bool {
        self is Vco || self is Supersaw || self is Noise || self is Wavetable || self is Pluck || self is Formant
    }

    /// Whether this node has two audio inputs.
    pub open spec fn spec_is_binary(self) -> bool {
        self is Mix || self is RingMod || self is Comp || self is Duck || self is Gate || self is Vocoder
    }

    /// The audio child at index `i`: `/0` for every processor, `/1` for the
    /// second branch of a binary node.
    pub open spec fn spec_child(self, i: nat) -> Option<AudioNode> {
        match self {
            AudioNode::Vco { .. }
            | AudioNode::Supersaw { .. }
            | AudioNode::Noise { .. }
            | AudioNode::Wavetable { .. }
            | AudioNode::Pluck { .. }
            | AudioNode::Formant { .. } => None,
            AudioNode::Mix { a, b, .. }
            | AudioNode::RingMod { a, b, .. } => if i == 0 { Some(*a) } else if i == 1 { Some(*b) } else { None },
            AudioNode::Comp { input, sidechain: other, .. }
            | AudioNode::Duck { input, key: other, .. }
            | AudioNode::Gate { input, sidechain: other, .. }
            | AudioNode::Vocoder { carrier: input, modulator: other, .. } => if i == 0 { Some(*input) } else if i == 1 { Some(*other) } else { None },
            AudioNode::Filter { input, .. }
            | AudioNode::Fold { input, .. }
            | AudioNode::Delay { input, .. }
            | AudioNode::Chorus { input, .. }
            | AudioNode::Reverb { input, .. }
            | AudioNode::Distortion { input, .. }
            | AudioNode::Bitcrush { input, .. }
            | AudioNode::Phaser { input, .. }
            | AudioNode::Flanger { input, .. }
            | AudioNode::Tremolo { input, .. }
            | AudioNode::Vibrato { input, .. }
            | AudioNode::Eq { input, .. }
            | AudioNode::Granular { input, .. }
            | AudioNode::Shift { input, .. } => if i == 0 { Some(*input) } else { None },
        }
    }

    /// This node with its child at index `i` replaced by `c` (unchanged when
    /// there is no such child).
    pub open spec fn spec_with_child(self, i: nat, c: AudioNode) -> AudioNode {
        match self {
            AudioNode::Mix { balance, a, b } => {
                if i == 0 {
                    AudioNode::Mix { balance, a: Box::new(c), b }
                } else if i == 1 {
                    AudioNode::Mix { balance, a, b: Box::new(c) }
                } else {
                    AudioNode::Mix { balance, a, b }
                }
            },
            AudioNode::Filter { kind, cutoff, resonance, mod_depth, input, modulation } => {
                if i == 0 {
                    AudioNode::Filter { kind, cutoff, resonance, mod_depth, input: Box::new(c), modulation }
                } else {
                    AudioNode::Filter { kind, cutoff, resonance, mod_depth, input, modulation }
                }
            },
            AudioNode::Fold { threshold, mod_depth, input, modulation } => {
                if i == 0 {
                    AudioNode::Fold { threshold, mod_depth, input: Box::new(c), modulation }
                } else {
                    AudioNode::Fold { threshold, mod_depth, input, modulation }
                }
            },
            AudioNode::Delay { time, feedback, mix, mod_depth, input, modulation } => {
                if i == 0 {
                    AudioNode::Delay { time, feedback, mix, mod_depth, input: Box::new(c), modulation }
                } else {
                    AudioNode::Delay { time, feedback, mix, mod_depth, input, modulation }
                }
            },
            AudioNode::Chorus { rate, depth, mix, mod_depth, input, modulation } => {
                if i == 0 {
                    AudioNode::Chorus { rate, depth, mix, mod_depth, input: Box::new(c), modulation }
                } else {
                    AudioNode::Chorus { rate, depth, mix, mod_depth, input, modulation }
                }
            },
            AudioNode::Reverb { size, damp, mix, mod_depth, input, modulation } => {
                if i == 0 {
                    AudioNode::Reverb { size, damp, mix, mod_depth, input: Box::new(c), modulation }
                } else {
                    AudioNode::Reverb { size, damp, mix, mod_depth, input, modulation }
                }
            },
            AudioNode::Distortion { drive, tone, mode, mod_depth, input, modulation } => {
                if i == 0 {
                    AudioNode::Distortion { drive, tone, mode, mod_depth, input: Box::new(c), modulation }
                } else {
                    AudioNode::Distortion { drive, tone, mode, mod_depth, input, modulation }
                }
            },
            AudioNode::Bitcrush { bits, downsample, mod_depth, input, modulation } => {
                if i == 0 {
                    AudioNode::Bitcrush { bits, downsample, mod_depth, input: Box::new(c), modulation }
                } else {
                    AudioNode::Bitcrush { bits, downsample, mod_depth, input, modulation }
                }
            },
            AudioNode::Phaser { rate, depth, feedback, mod_depth, input, modulation } => {
                if i == 0 {
                    AudioNode::Phaser { rate, depth, feedback, mod_depth, input: Box::new(c), modulation }
                } else {
                    AudioNode::Phaser { rate, depth, feedback, mod_depth, input, modulation }
                }
            },
            AudioNode::Flanger { rate, depth, feedback, mod_depth, input, modulation } => {
                if i == 0 {
                    AudioNode::Flanger { rate, depth, feedback, mod_depth, input: Box::new(c), modulation }
                } else {
                    AudioNode::Flanger { rate, depth, feedback, mod_depth, input, modulation }
                }
            },
            AudioNode::Tremolo { rate, depth, shape, mod_depth, input, modulation } => {
                if i == 0 {
                    AudioNode::Tremolo { rate, depth, shape, mod_depth, input: Box::new(c), modulation }
                } else {
                    AudioNode::Tremolo { rate, depth, shape, mod_depth, input, modulation }
                }
            },
            AudioNode::Vibrato { rate, depth, mix, mod_depth, input, modulation } => {
                if i == 0 {
                    AudioNode::Vibrato { rate, depth, mix, mod_depth, input: Box::new(c), modulation }
                } else {
                    AudioNode::Vibrato { rate, depth, mix, mod_depth, input, modulation }
                }
            },
            AudioNode::Eq { low, mid, high, mod_depth, input, modulation } => {
                if i == 0 {
                    AudioNode::Eq { low, mid, high, mod_depth, input: Box::new(c), modulation }
                } else {
                    AudioNode::Eq { low, mid, high, mod_depth, input, modulation }
                }
            },
            AudioNode::Granular { position, size, density, mod_depth, input, modulation } => {
                if i == 0 {
                    AudioNode::Granular { position, size, density, mod_depth, input: Box::new(c), modulation }
                } else {
                    AudioNode::Granular { position, size, density, mod_depth, input, modulation }
                }
            },
            AudioNode::RingMod { mix, a, b } => {
                if i == 0 {
                    AudioNode::RingMod { mix, a: Box::new(c), b }
                } else if i == 1 {
                    AudioNode::RingMod { mix, a, b: Box::new(c) }
                } else {
                    AudioNode::RingMod { mix, a, b }
                }
            },
            AudioNode::Shift { semis, window, mix, mod_depth, input, modulation } => {
                if i == 0 {
                    AudioNode::Shift { semis, window, mix, mod_depth, input: Box::new(c), modulation }
                } else {
                    AudioNode::Shift { semis, window, mix, mod_depth, input, modulation }
                }
            },
            AudioNode::Comp { threshold, ratio, makeup, mod_depth, input, sidechain, modulation } => {
                if i == 0 {
                    AudioNode::Comp { threshold, ratio, makeup, mod_depth, input: Box::new(c), sidechain, modulation }
                } else if i == 1 {
                    AudioNode::Comp { threshold, ratio, makeup, mod_depth, input, sidechain: Box::new(c), modulation }
                } else {
                    AudioNode::Comp { threshold, ratio, makeup, mod_depth, input, sidechain, modulation }
                }
            },
            AudioNode::Duck { amount, threshold, release, mod_depth, input, key, modulation } => {
                if i == 0 {
                    AudioNode::Duck { amount, threshold, release, mod_depth, input: Box::new(c), key, modulation }
                } else if i == 1 {
                    AudioNode::Duck { amount, threshold, release, mod_depth, input, key: Box::new(c), modulation }
                } else {
                    AudioNode::Duck { amount, threshold, release, mod_depth, input, key, modulation }
                }
            },
            AudioNode::Gate { threshold, range, release, mod_depth, input, sidechain, modulation } => {
                if i == 0 {
                    AudioNode::Gate { threshold, range, release, mod_depth, input: Box::new(c), sidechain, modulation }
                } else if i == 1 {
                    AudioNode::Gate { threshold, range, release, mod_depth, input, sidechain: Box::new(c), modulation }
                } else {
                    AudioNode::Gate { threshold, range, release, mod_depth, input, sidechain, modulation }
                }
            },
            AudioNode::Vocoder { bands, attack, release, mod_depth, carrier, modulator, modulation } => {
                if i == 0 {
                    AudioNode::Vocoder { bands, attack, release, mod_depth, carrier: Box::new(c), modulator, modulation }
                } else if i == 1 {
                    AudioNode::Vocoder { bands, attack, release, mod_depth, carrier, modulator: Box::new(c), modulation }
                } else {
                    AudioNode::Vocoder { bands, attack, release, mod_depth, carrier, modulator, modulation }
                }
            },
            _ => self,
        }
    }

    /// The modulation slot of this node; the two slotless binaries (mix and
    /// ring mod) and the noise source have none.
    pub open spec fn spec_slot(self) -> Option<ModNode> {
        match self {
            AudioNode::Vco { modulation, .. }
            | AudioNode::Supersaw { modulation, .. }
            | AudioNode::Wavetable { modulation, .. }
            | AudioNode::Pluck { modulation, .. }
            | AudioNode::Formant { modulation, .. }
            | AudioNode::Filter { modulation, .. }
            | AudioNode::Fold { modulation, .. }
            | AudioNode::Delay { modulation, .. }
            | AudioNode::Chorus { modulation, .. }
            | AudioNode::Reverb { modulation, .. }
            | AudioNode::Distortion { modulation, .. }
            | AudioNode::Bitcrush { modulation, .. }
            | AudioNode::Phaser { modulation, .. }
            | AudioNode::Flanger { modulation, .. }
            | AudioNode::Tremolo { modulation, .. }
            | AudioNode::Vibrato { modulation, .. }
            | AudioNode::Eq { modulation, .. }
            | AudioNode::Granular { modulation, .. }
            | AudioNode::Shift { modulation, .. }
            | AudioNode::Comp { modulation, .. }
            | AudioNode::Duck { modulation, .. }
            | AudioNode::Gate { modulation, .. }
            | AudioNode::Vocoder { modulation, .. } => Some(modulation),
            _ => None,
        }
    }

    /// This node with its modulation slot set to `m` (unchanged when it has
    /// no slot).
    pub open spec fn spec_with_slot(self, m: ModNode) -> AudioNode {
        match self {
            AudioNode::Vco { wave, octave, detune, mod_depth, modulation } => AudioNode::Vco { wave, octave, detune, mod_depth, modulation: m },
            AudioNode::Supersaw { octave, detune, mix, mod_depth, modulation } => AudioNode::Supersaw { octave, detune, mix, mod_depth, modulation: m },
            AudioNode::Wavetable { table, octave, morph, mod_depth, modulation } => AudioNode::Wavetable { table, octave, morph, mod_depth, modulation: m },
            AudioNode::Pluck { octave, damping, brightness, mod_depth, modulation } => AudioNode::Pluck { octave, damping, brightness, mod_depth, modulation: m },
            AudioNode::Formant { vowel, shift, octave, mod_depth, modulation } => AudioNode::Formant { vowel, shift, octave, mod_depth, modulation: m },
            AudioNode::Filter { kind, cutoff, resonance, mod_depth, input, modulation } => AudioNode::Filter { kind, cutoff, resonance, mod_depth, input, modulation: m },
            AudioNode::Fold { threshold, mod_depth, input, modulation } => AudioNode::Fold { threshold, mod_depth, input, modulation: m },
            AudioNode::Delay { time, feedback, mix, mod_depth, input, modulation } => AudioNode::Delay { time, feedback, mix, mod_depth, input, modulation: m },
            AudioNode::Chorus { rate, depth, mix, mod_depth, input, modulation } => AudioNode::Chorus { rate, depth, mix, mod_depth, input, modulation: m },
            AudioNode::Reverb { size, damp, mix, mod_depth, input, modulation } => AudioNode::Reverb { size, damp, mix, mod_depth, input, modulation: m },
            AudioNode::Distortion { drive, tone, mode, mod_depth, input, modulation } => AudioNode::Distortion { drive, tone, mode, mod_depth, input, modulation: m },
            AudioNode::Bitcrush { bits, downsample, mod_depth, input, modulation } => AudioNode::Bitcrush { bits, downsample, mod_depth, input, modulation: m },
            AudioNode::Phaser { rate, depth, feedback, mod_depth, input, modulation } => AudioNode::Phaser { rate, depth, feedback, mod_depth, input, modulation: m },
            AudioNode::Flanger { rate, depth, feedback, mod_depth, input, modulation } => AudioNode::Flanger { rate, depth, feedback, mod_depth, input, modulation: m },
            AudioNode::Tremolo { rate, depth, shape, mod_depth, input, modulation } => AudioNode::Tremolo { rate, depth, shape, mod_depth, input, modulation: m },
            AudioNode::Vibrato { rate, depth, mix, mod_depth, input, modulation } => AudioNode::Vibrato { rate, depth, mix, mod_depth, input, modulation: m },
            AudioNode::Eq { low, mid, high, mod_depth, input, modulation } => AudioNode::Eq { low, mid, high, mod_depth, input, modulation: m },
            AudioNode::Granular { position, size, density, mod_depth, input, modulation } => AudioNode::Granular { position, size, density, mod_depth, input, modulation: m },
            AudioNode::Shift { semis, window, mix, mod_depth, input, modulation } => AudioNode::Shift { semis, window, mix, mod_depth, input, modulation: m },
            AudioNode::Comp { threshold, ratio, makeup, mod_depth, input, sidechain, modulation } => AudioNode::Comp { threshold, ratio, makeup, mod_depth, input, sidechain, modulation: m },
            AudioNode::Duck { amount, threshold, release, mod_depth, input, key, modulation } => AudioNode::Duck { amount, threshold, release, mod_depth, input, key, modulation: m },
            AudioNode::Gate { threshold, range, release, mod_depth, input, sidechain, modulation } => AudioNode::Gate { threshold, range, release, mod_depth, input, sidechain, modulation: m },
            AudioNode::Vocoder { bands, attack, release, mod_depth, carrier, modulator, modulation } => AudioNode::Vocoder { bands, attack, release, mod_depth, carrier, modulator, modulation: m },
            _ => self,
        }
    }

    /// The deepest modulation chain anywhere in this subtree.
    pub open spec fn spec_max_mod_depth(self) -> nat
        decreases self,
    {
        let own = match self.spec_slot() {
            Some(m) => m.spec_depth(),
            None => 0,
        };
        match self {
            AudioNode::Vco { .. }
            | AudioNode::Supersaw { .. }
            | AudioNode::Noise { .. }
            | AudioNode::Wavetable { .. }
            | AudioNode::Pluck { .. }
            | AudioNode::Formant { .. } => own,
            AudioNode::Mix { a, b, .. }
            | AudioNode::RingMod { a, b, .. } => max_nat(own, max_nat(a.spec_max_mod_depth(), b.spec_max_mod_depth())),
            AudioNode::Comp { input, sidechain: other, .. }
            | AudioNode::Duck { input, key: other, .. }
            | AudioNode::Gate { input, sidechain: other, .. }
            | AudioNode::Vocoder { carrier: input, modulator: other, .. } => max_nat(own, max_nat(input.spec_max_mod_depth(), other.spec_max_mod_depth())),
            AudioNode::Filter { input, .. }
            | AudioNode::Fold { input, .. }
            | AudioNode::Delay { input, .. }
            | AudioNode::Chorus { input, .. }
            | AudioNode::Reverb { input, .. }
            | AudioNode::Distortion { input, .. }
            | AudioNode::Bitcrush { input, .. }
            | AudioNode::Phaser { input, .. }
            | AudioNode::Flanger { input, .. }
            | AudioNode::Tremolo { input, .. }
            | AudioNode::Vibrato { input, .. }
            | AudioNode::Eq { input, .. }
            | AudioNode::Granular { input, .. }
            | AudioNode::Shift { input, .. } => max_nat(own, input.spec_max_mod_depth()),
        }
    }

    /// Tree depth (a source leaf is depth 1).
    pub fn depth(&self) -> (r: usize)
        requires
            self.spec_size() <= usize::MAX,
        ensures
            r == self.spec_depth(),
        decreases self,
    {
        proof {
            self.lemma_depth_le_size();
        }
        match self {
            AudioNode::Vco { .. }
            | AudioNode::Supersaw { .. }
            | AudioNode::Noise { .. }
            | AudioNode::Wavetable { .. }
            | AudioNode::Pluck { .. }
            | AudioNode::Formant { .. } => 1,
            AudioNode::Mix { a, b, .. }
            | AudioNode::RingMod { a, b, .. } => {
                proof {
                    a.lemma_depth_le_size();
                    b.lemma_depth_le_size();
                }
                let (da, db) = (a.depth(), b.depth());
                1 + if da >= db { da } else { db }
            },
            AudioNode::Comp { input, sidechain: other, .. }
            | AudioNode::Duck { input, key: other, .. }
            | AudioNode::Gate { input, sidechain: other, .. }
            | AudioNode::Vocoder { carrier: input, modulator: other, .. } => {
                proof {
                    input.lemma_depth_le_size();
                    other.lemma_depth_le_size();
                }
                let (di, dother) = (input.depth(), other.depth());
                1 + if di >= dother { di } else { dother }
            },
            AudioNode::Filter { input, .. }
            | AudioNode::Fold { input, .. }
            | AudioNode::Delay { input, .. }
            | AudioNode::Chorus { input, .. }
            | AudioNode::Reverb { input, .. }
            | AudioNode::Distortion { input, .. }
            | AudioNode::Bitcrush { input, .. }
            | AudioNode::Phaser { input, .. }
            | AudioNode::Flanger { input, .. }
            | AudioNode::Tremolo { input, .. }
            | AudioNode::Vibrato { input, .. }
            | AudioNode::Eq { input, .. }
            | AudioNode::Granular { input, .. }
            | AudioNode::Shift { input, .. } => 1 + input.depth(),
        }
    }

    /// Number of audio nodes in the tree.
    pub fn size(&self) -> (r: usize)
        requires
            self.spec_size() <= usize::MAX,
        ensures
            r == self.spec_size(),
        decreases self,
    {
        match self {
            AudioNode::Vco { .. }
            | AudioNode::Supersaw { .. }
            | AudioNode::Noise { .. }
            | AudioNode::Wavetable { .. }
            | AudioNode::Pluck { .. }
            | AudioNode::Formant { .. } => 1,
            AudioNode::Mix { a, b, .. }
            | AudioNode::RingMod { a, b, .. } => 1 + a.size() + b.size(),
            AudioNode::Comp { input, sidechain: other, .. }
            | AudioNode::Duck { input, key: other, .. }
            | AudioNode::Gate { input, sidechain: other, .. }
            | AudioNode::Vocoder { carrier: input, modulator: other, .. } => 1 + input.size() + other.size(),
            AudioNode::Filter { input, .. }
            | AudioNode::Fold { input, .. }
            | AudioNode::Delay { input, .. }
            | AudioNode::Chorus { input, .. }
            | AudioNode::Reverb { input, .. }
            | AudioNode::Distortion { input, .. }
            | AudioNode::Bitcrush { input, .. }
            | AudioNode::Phaser { input, .. }
            | AudioNode::Flanger { input, .. }
            | AudioNode::Tremolo { input, .. }
            | AudioNode::Vibrato { input, .. }
            | AudioNode::Eq { input, .. }
            | AudioNode::Granular { input, .. }
            | AudioNode::Shift { input, .. } => 1 + input.size(),
        }
    }

    /// Number of probabilistic-choice sites in this subtree (including the
    /// structural `#leaf`/`#src`/`#op` sites and any modulation subterm).
    pub fn site_count(&self) -> (r: usize)
        requires
            self.spec_site_count() <= usize::MAX,
        ensures
            r == self.spec_site_count(),
        decreases self,
    {
        match self {
            AudioNode::Vco { modulation, .. } => 2 + 4 + modulation.site_count(),
            AudioNode::Supersaw { modulation, .. } => 2 + 4 + modulation.site_count(),
            AudioNode::Noise { .. } => 2 + 1,
            AudioNode::Wavetable { modulation, .. } => 2 + 4 + modulation.site_count(),
            AudioNode::Pluck { modulation, .. } => 2 + 4 + modulation.site_count(),
            AudioNode::Formant { modulation, .. } => 2 + 4 + modulation.site_count(),
            AudioNode::Mix { a, b, .. } => 2 + 1 + a.site_count() + b.site_count(),
            AudioNode::Filter { input, modulation, .. } => 2 + 4 + input.site_count() + modulation.site_count(),
            AudioNode::Fold { input, modulation, .. } => 2 + 2 + input.site_count() + modulation.site_count(),
            AudioNode::Delay { input, modulation, .. } => 2 + 4 + input.site_count() + modulation.site_count(),
            AudioNode::Chorus { input, modulation, .. } => 2 + 4 + input.site_count() + modulation.site_count(),
            AudioNode::Reverb { input, modulation, .. } => 2 + 4 + input.site_count() + modulation.site_count(),
            AudioNode::Distortion { input, modulation, .. } => 2 + 4 + input.site_count() + modulation.site_count(),
            AudioNode::Bitcrush { input, modulation, .. } => 2 + 3 + input.site_count() + modulation.site_count(),
            AudioNode::Phaser { input, modulation, .. } => 2 + 4 + input.site_count() + modulation.site_count(),
            AudioNode::Flanger { input, modulation, .. } => 2 + 4 + input.site_count() + modulation.site_count(),
            AudioNode::Tremolo { input, modulation, .. } => 2 + 4 + input.site_count() + modulation.site_count(),
            AudioNode::Vibrato { input, modulation, .. } => 2 + 4 + input.site_count() + modulation.site_count(),
            AudioNode::Eq { input, modulation, .. } => 2 + 4 + input.site_count() + modulation.site_count(),
            AudioNode::Granular { input, modulation, .. } => 2 + 4 + input.site_count() + modulation.site_count(),
            AudioNode::RingMod { a, b, .. } => 2 + 1 + a.site_count() + b.site_count(),
            AudioNode::Shift { input, modulation, .. } => 2 + 4 + input.site_count() + modulation.site_count(),
            AudioNode::Comp { input, sidechain, modulation, .. } => 2 + 4 + input.site_count() + sidechain.site_count() + modulation.site_count(),
            AudioNode::Duck { input, key, modulation, .. } => 2 + 4 + input.site_count() + key.site_count() + modulation.site_count(),
            AudioNode::Gate { input, sidechain, modulation, .. } => 2 + 4 + input.site_count() + sidechain.site_count() + modulation.site_count(),
            AudioNode::Vocoder { carrier, modulator, modulation, .. } => 2 + 4 + carrier.site_count() + modulator.site_count() + modulation.site_count(),
        }
    }
}
impl AudioNode {
    /// Depth is never more than size, and a tree has at least one node.
    pub proof fn lemma_depth_le_size(self)
        ensures
            1 <= self.spec_depth() <= self.spec_size(),
        decreases self,
    {
        match self {
            AudioNode::Vco { .. }
            | AudioNode::Supersaw { .. }
            | AudioNode::Noise { .. }
            | AudioNode::Wavetable { .. }
            | AudioNode::Pluck { .. }
            | AudioNode::Formant { .. } => {},
            AudioNode::Mix { a, b, .. }
            | AudioNode::RingMod { a, b, .. } => {
                a.lemma_depth_le_size();
                b.lemma_depth_le_size();
            },
            AudioNode::Comp { input, sidechain: other, .. }
            | AudioNode::Duck { input, key: other, .. }
            | AudioNode::Gate { input, sidechain: other, .. }
            | AudioNode::Vocoder { carrier: input, modulator: other, .. } => {
                input.lemma_depth_le_size();
                other.lemma_depth_le_size();
            },
            AudioNode::Filter { input, .. }
            | AudioNode::Fold { input, .. }
            | AudioNode::Delay { input, .. }
            | AudioNode::Chorus { input, .. }
            | AudioNode::Reverb { input, .. }
            | AudioNode::Distortion { input, .. }
            | AudioNode::Bitcrush { input, .. }
            | AudioNode::Phaser { input, .. }
            | AudioNode::Flanger { input, .. }
            | AudioNode::Tremolo { input, .. }
            | AudioNode::Vibrato { input, .. }
            | AudioNode::Eq { input, .. }
            | AudioNode::Granular { input, .. }
            | AudioNode::Shift { input, .. } => input.lemma_depth_le_size(),
        }
    }
}

impl Clone for AudioNode {
    fn clone(&self) -> (r: Self)
        ensures
            r == *self,
    {
        self.duplicate()
    }
}


/// The mandatory amplitude envelope on every voice (ADSR, normalized).
#[derive(Clone, Copy, Debug, PartialEq, Eq)]
pub struct AmpEnv {
    /// Normalized attack.
    pub attack: Param,
    /// Normalized decay.
    pub decay: Param,
    /// Normalized sustain level.
    pub sustain: Param,
    /// Normalized release.
    pub release: Param,
}

/// A complete patch genome: an audio term wrapped in the mandatory voice
/// stage (amp envelope, VCA, limiter, stereo out).
#[derive(Debug, PartialEq, Eq)]
pub struct PatchTree {
    /// Amplitude envelope parameters.
    pub amp: AmpEnv,
    /// The evolved audio-term tree.
    pub root: AudioNode,
}

impl Clone for PatchTree {
    fn clone(&self) -> (r: Self)
        ensures
            r == *self,
    {
        PatchTree { amp: self.amp, root: self.root.duplicate() }
    }
}

impl PatchTree {
    /// Total probabilistic-choice sites (amp envelope + tree).
    pub open spec fn spec_site_count(self) -> nat {
        4 + self.root.spec_site_count()
    }

    /// Total probabilistic-choice sites (amp envelope + tree).
    pub fn site_count(&self) -> (r: usize)
        requires
            self.spec_site_count() <= usize::MAX,
        ensures
            r == self.spec_site_count(),
    {
        4 + self.root.site_count()
    }
}


impl AudioNode {
    /// The node at a child-index path (the empty path is this node).
    pub open spec fn spec_node_at(self, path: Seq<usize>) -> Option<AudioNode>
        decreases path.len(),
    {
        if path.len() == 0 {
            Some(self)
        } else {
            match self.spec_child(path[0] as nat) {
                Some(c) => c.spec_node_at(path.drop_first()),
                None => None,
            }
        }
    }

    /// This tree with the node at `path` replaced by `n` (unchanged when the
    /// path addresses no node).
    pub open spec fn spec_replace_at(self, path: Seq<usize>, n: AudioNode) -> AudioNode
        decreases path.len(),
    {
        if path.len() == 0 {
            n
        } else {
            match self.spec_child(path[0] as nat) {
                Some(c) => self.spec_with_child(path[0] as nat, c.spec_replace_at(path.drop_first(), n)),
                None => self,
            }
        }
    }

    /// The node at `path[from..]`.
    pub fn node_at(&self, path: &Vec<usize>, from: usize) -> (r: Option<&AudioNode>)
        requires
            from <= path@.len(),
        ensures
            match r {
                Some(n) => self.spec_node_at(path@.skip(from as int)) == Some(*n),
                None => self.spec_node_at(path@.skip(from as int)) is None,
            },
        decreases path@.len() - from,
    {
        if from == path.len() {
            assert(path@.skip(from as int) =~= Seq::<usize>::empty());
            return Some(self);
        }
        assert(path@.skip(from as int).drop_first() =~= path@.skip(from + 1));
        match self.child(path[from]) {
            Some(c) => c.node_at(path, from + 1),
            None => None,
        }
    }

    /// This tree with the node at `path[from..]` replaced by `n`.
    pub fn replace_at(self, path: &Vec<usize>, from: usize, n: AudioNode) -> (r: AudioNode)
        requires
            from <= path@.len(),
        ensures
            r == self.spec_replace_at(path@.skip(from as int), n),
        decreases path@.len() - from,
    {
        if from == path.len() {
            assert(path@.skip(from as int) =~= Seq::<usize>::empty());
            return n;
        }
        assert(path@.skip(from as int).drop_first() =~= path@.skip(from + 1));
        let i = path[from];
        let inner = match self.child(i) {
            Some(c) => c.duplicate(),
            None => return self,
        };
        let replaced = inner.replace_at(path, from + 1, n);
        self.with_child(i, replaced)
    }
}

impl AudioNode {
    /// `Some(budget - size)` when the tree has at most `budget` nodes, `None`
    /// otherwise; needs no bound on the tree's size.
    pub fn fits_size(&self, budget: usize) -> (r: Option<usize>)
        ensures
            r == (if self.spec_size() <= budget {
                Some((budget - self.spec_size()) as usize)
            } else {
                None
            }),
        decreases self,
    {
        if budget == 0 {
            proof {
                self.lemma_depth_le_size();
            }
            return None;
        }
        match self {
            AudioNode::Vco { .. }
            | AudioNode::Supersaw { .. }
            | AudioNode::Noise { .. }
            | AudioNode::Wavetable { .. }
            | AudioNode::Pluck { .. }
            | AudioNode::Formant { .. } => Some(budget - 1),
            AudioNode::Mix { a, b, .. }
            | AudioNode::RingMod { a, b, .. } => match a.fits_size(budget - 1) {
                Some(rest) => b.fits_size(rest),
                None => None,
            },
            AudioNode::Comp { input, sidechain: other, .. }
            | AudioNode::Duck { input, key: other, .. }
            | AudioNode::Gate { input, sidechain: other, .. }
            | AudioNode::Vocoder { carrier: input, modulator: other, .. } => match input.fits_size(budget - 1) {
                Some(rest) => other.fits_size(rest),
                None => None,
            },
            AudioNode::Filter { input, .. }
            | AudioNode::Fold { input, .. }
            | AudioNode::Delay { input, .. }
            | AudioNode::Chorus { input, .. }
            | AudioNode::Reverb { input, .. }
            | AudioNode::Distortion { input, .. }
            | AudioNode::Bitcrush { input, .. }
            | AudioNode::Phaser { input, .. }
            | AudioNode::Flanger { input, .. }
            | AudioNode::Tremolo { input, .. }
            | AudioNode::Vibrato { input, .. }
            | AudioNode::Eq { input, .. }
            | AudioNode::Granular { input, .. }
            | AudioNode::Shift { input, .. } => input.fits_size(budget - 1),
        }
    }

    /// Whether the tree depth is at most `limit`.
    pub fn depth_within(&self, limit: usize) -> (r: bool)
        ensures
            r == (self.spec_depth() <= limit),
        decreases self,
    {
        match self {
            AudioNode::Vco { .. }
            | AudioNode::Supersaw { .. }
            | AudioNode::Noise { .. }
            | AudioNode::Wavetable { .. }
            | AudioNode::Pluck { .. }
            | AudioNode::Formant { .. } => limit >= 1,
            AudioNode::Mix { a, b, .. }
            | AudioNode::RingMod { a, b, .. } => limit >= 1 && a.depth_within(limit - 1) && b.depth_within(limit - 1),
            AudioNode::Comp { input, sidechain: other, .. }
            | AudioNode::Duck { input, key: other, .. }
            | AudioNode::Gate { input, sidechain: other, .. }
            | AudioNode::Vocoder { carrier: input, modulator: other, .. } => limit >= 1 && input.depth_within(limit - 1) && other.depth_within(limit - 1),
            AudioNode::Filter { input, .. }
            | AudioNode::Fold { input, .. }
            | AudioNode::Delay { input, .. }
            | AudioNode::Chorus { input, .. }
            | AudioNode::Reverb { input, .. }
            | AudioNode::Distortion { input, .. }
            | AudioNode::Bitcrush { input, .. }
            | AudioNode::Phaser { input, .. }
            | AudioNode::Flanger { input, .. }
            | AudioNode::Tremolo { input, .. }
            | AudioNode::Vibrato { input, .. }
            | AudioNode::Eq { input, .. }
            | AudioNode::Granular { input, .. }
            | AudioNode::Shift { input, .. } => limit >= 1 && input.depth_within(limit - 1),
        }
    }

    /// Whether every modulation chain in the subtree is at most `limit` deep.
    pub fn mod_depth_within(&self, limit: usize) -> (r: bool)
        ensures
            r == (self.spec_max_mod_depth() <= limit),
        decreases self,
    {
        let own = match self.slot() {
            Some(m) => m.depth_within(limit),
            None => true,
        };
        own && match self {
            AudioNode::Vco { .. }
            | AudioNode::Supersaw { .. }
            | AudioNode::Noise { .. }
            | AudioNode::Wavetable { .. }
            | AudioNode::Pluck { .. }
            | AudioNode::Formant { .. } => true,
            AudioNode::Mix { a, b, .. }
            | AudioNode::RingMod { a, b, .. } => a.mod_depth_within(limit) && b.mod_depth_within(limit),
            AudioNode::Comp { input, sidechain: other, .. }
            | AudioNode::Duck { input, key: other, .. }
            | AudioNode::Gate { input, sidechain: other, .. }
            | AudioNode::Vocoder { carrier: input, modulator: other, .. } => input.mod_depth_within(limit) && other.mod_depth_within(limit),
            AudioNode::Filter { input, .. }
            | AudioNode::Fold { input, .. }
            | AudioNode::Delay { input, .. }
            | AudioNode::Chorus { input, .. }
            | AudioNode::Reverb { input, .. }
            | AudioNode::Distortion { input, .. }
            | AudioNode::Bitcrush { input, .. }
            | AudioNode::Phaser { input, .. }
            | AudioNode::Flanger { input, .. }
            | AudioNode::Tremolo { input, .. }
            | AudioNode::Vibrato { input, .. }
            | AudioNode::Eq { input, .. }
            | AudioNode::Granular { input, .. }
            | AudioNode::Shift { input, .. } => input.mod_depth_within(limit),
        }
    }

    /// The audio child at index `i` (`/0` or `/1`).
    pub fn child(&self, i: usize) -> (r: Option<&AudioNode>)
        ensures
            match r {
                Some(c) => self.spec_child(i as nat) == Some(*c),
                None => self.spec_child(i as nat) is None,
            },
    {
        match self {
            AudioNode::Vco { .. }
            | AudioNode::Supersaw { .. }
            | AudioNode::Noise { .. }
            | AudioNode::Wavetable { .. }
            | AudioNode::Pluck { .. }
            | AudioNode::Formant { .. } => None,
            AudioNode::Mix { a, b, .. }
            | AudioNode::RingMod { a, b, .. } => if i == 0 {
                Some(&**a)
            } else if i == 1 {
                Some(&**b)
            } else {
                None
            },
            AudioNode::Comp { input, sidechain: other, .. }
            | AudioNode::Duck { input, key: other, .. }
            | AudioNode::Gate { input, sidechain: other, .. }
            | AudioNode::Vocoder { carrier: input, modulator: other, .. } => if i == 0 {
                Some(&**input)
            } else if i == 1 {
                Some(&**other)
            } else {
                None
            },
            AudioNode::Filter { input, .. }
            | AudioNode::Fold { input, .. }
            | AudioNode::Delay { input, .. }
            | AudioNode::Chorus { input, .. }
            | AudioNode::Reverb { input, .. }
            | AudioNode::Distortion { input, .. }
            | AudioNode::Bitcrush { input, .. }
            | AudioNode::Phaser { input, .. }
            | AudioNode::Flanger { input, .. }
            | AudioNode::Tremolo { input, .. }
            | AudioNode::Vibrato { input, .. }
            | AudioNode::Eq { input, .. }
            | AudioNode::Granular { input, .. }
            | AudioNode::Shift { input, .. } => if i == 0 {
                Some(&**input)
            } else {
                None
            },
        }
    }

    /// The modulation slot, for every node that owns one.
    pub fn slot(&self) -> (r: Option<&ModNode>)
        ensures
            match r {
                Some(m) => self.spec_slot() == Some(*m),
                None => self.spec_slot() is None,
            },
    {
        match self {
            AudioNode::Vco { modulation, .. }
            | AudioNode::Supersaw { modulation, .. }
            | AudioNode::Wavetable { modulation, .. }
            | AudioNode::Pluck { modulation, .. }
            | AudioNode::Formant { modulation, .. }
            | AudioNode::Filter { modulation, .. }
            | AudioNode::Fold { modulation, .. }
            | AudioNode::Delay { modulation, .. }
            | AudioNode::Chorus { modulation, .. }
            | AudioNode::Reverb { modulation, .. }
            | AudioNode::Distortion { modulation, .. }
            | AudioNode::Bitcrush { modulation, .. }
            | AudioNode::Phaser { modulation, .. }
            | AudioNode::Flanger { modulation, .. }
            | AudioNode::Tremolo { modulation, .. }
            | AudioNode::Vibrato { modulation, .. }
            | AudioNode::Eq { modulation, .. }
            | AudioNode::Granular { modulation, .. }
            | AudioNode::Shift { modulation, .. }
            | AudioNode::Comp { modulation, .. }
            | AudioNode::Duck { modulation, .. }
            | AudioNode::Gate { modulation, .. }
            | AudioNode::Vocoder { modulation, .. } => Some(modulation),
            _ => None,
        }
    }

    /// Whether this node is a source (a leaf of the audio tree).
    pub fn is_source(&self) -> (r: bool)
        ensures
            r == self.spec_is_source(),
    {
        match self {
            AudioNode::Vco { .. }
            | AudioNode::Supersaw { .. }
            | AudioNode::Noise { .. }
            | AudioNode::Wavetable { .. }
            | AudioNode::Pluck { .. }
            | AudioNode::Formant { .. } => true,
            _ => false,
        }
    }

    /// Whether this node has two audio inputs.
    pub fn is_binary(&self) -> (r: bool)
        ensures
            r == self.spec_is_binary(),
    {
        match self {
            AudioNode::Mix { a, b, .. }
            | AudioNode::RingMod { a, b, .. } => true,
            AudioNode::Comp { input, sidechain: other, .. }
            | AudioNode::Duck { input, key: other, .. }
            | AudioNode::Gate { input, sidechain: other, .. }
            | AudioNode::Vocoder { carrier: input, modulator: other, .. } => true,
            _ => false,
        }
    }

    /// This node with its child at index `i` replaced by `c` (unchanged when
    /// there is no such child).
    pub fn with_child(self, i: usize, c: AudioNode) -> (r: AudioNode)
        ensures
            r == self.spec_with_child(i as nat, c),
    {
        match self {
            AudioNode::Mix { balance, a, b } => {
                if i == 0 {
                    AudioNode::Mix { balance, a: Box::new(c), b }
                } else if i == 1 {
                    AudioNode::Mix { balance, a, b: Box::new(c) }
                } else {
                    AudioNode::Mix { balance, a, b }
                }
            },
            AudioNode::Filter { kind, cutoff, resonance, mod_depth, input, modulation } => {
                if i == 0 {
                    AudioNode::Filter { kind, cutoff, resonance, mod_depth, input: Box::new(c), modulation }
                } else {
                    AudioNode::Filter { kind, cutoff, resonance, mod_depth, input, modulation }
                }
            },
            AudioNode::Fold { threshold, mod_depth, input, modulation } => {
                if i == 0 {
                    AudioNode::Fold { threshold, mod_depth, input: Box::new(c), modulation }
                } else {
                    AudioNode::Fold { threshold, mod_depth, input, modulation }
                }
            },
            AudioNode::Delay { time, feedback, mix, mod_depth, input, modulation } => {
                if i == 0 {
                    AudioNode::Delay { time, feedback, mix, mod_depth, input: Box::new(c), modulation }
                } else {
                    AudioNode::Delay { time, feedback, mix, mod_depth, input, modulation }
                }
            },
            AudioNode::Chorus { rate, depth, mix, mod_depth, input, modulation } => {
                if i == 0 {
                    AudioNode::Chorus { rate, depth, mix, mod_depth, input: Box::new(c), modulation }
                } else {
                    AudioNode::Chorus { rate, depth, mix, mod_depth, input, modulation }
                }
            },
            AudioNode::Reverb { size, damp, mix, mod_depth, input, modulation } => {
                if i == 0 {
                    AudioNode::Reverb { size, damp, mix, mod_depth, input: Box::new(c), modulation }
                } else {
                    AudioNode::Reverb { size, damp, mix, mod_depth, input, modulation }
                }
            },
            AudioNode::Distortion { drive, tone, mode, mod_depth, input, modulation } => {
                if i == 0 {
                    AudioNode::Distortion { drive, tone, mode, mod_depth, input: Box::new(c), modulation }
                } else {
                    AudioNode::Distortion { drive, tone, mode, mod_depth, input, modulation }
                }
            },
            AudioNode::Bitcrush { bits, downsample, mod_depth, input, modulation } => {
                if i == 0 {
                    AudioNode::Bitcrush { bits, downsample, mod_depth, input: Box::new(c), modulation }
                } else {
                    AudioNode::Bitcrush { bits, downsample, mod_depth, input, modulation }
                }
            },
            AudioNode::Phaser { rate, depth, feedback, mod_depth, input, modulation } => {
                if i == 0 {
                    AudioNode::Phaser { rate, depth, feedback, mod_depth, input: Box::new(c), modulation }
                } else {
                    AudioNode::Phaser { rate, depth, feedback, mod_depth, input, modulation }
                }
            },
            AudioNode::Flanger { rate, depth, feedback, mod_depth, input, modulation } => {
                if i == 0 {
                    AudioNode::Flanger { rate, depth, feedback, mod_depth, input: Box::new(c), modulation }
                } else {
                    AudioNode::Flanger { rate, depth, feedback, mod_depth, input, modulation }
                }
            },
            AudioNode::Tremolo { rate, depth, shape, mod_depth, input, modulation } => {
                if i == 0 {
                    AudioNode::Tremolo { rate, depth, shape, mod_depth, input: Box::new(c), modulation }
                } else {
                    AudioNode::Tremolo { rate, depth, shape, mod_depth, input, modulation }
                }
            },
            AudioNode::Vibrato { rate, depth, mix, mod_depth, input, modulation } => {
                if i == 0 {
                    AudioNode::Vibrato { rate, depth, mix, mod_depth, input: Box::new(c), modulation }
                } else {
                    AudioNode::Vibrato { rate, depth, mix, mod_depth, input, modulation }
                }
            },
            AudioNode::Eq { low, mid, high, mod_depth, input, modulation } => {
                if i == 0 {
                    AudioNode::Eq { low, mid, high, mod_depth, input: Box::new(c), modulation }
                } else {
                    AudioNode::Eq { low, mid, high, mod_depth, input, modulation }
                }
            },
            AudioNode::Granular { position, size, density, mod_depth, input, modulation } => {
                if i == 0 {
                    AudioNode::Granular { position, size, density, mod_depth, input: Box::new(c), modulation }
                } else {
                    AudioNode::Granular { position, size, density, mod_depth, input, modulation }
                }
            },
            AudioNode::RingMod { mix, a, b } => {
                if i == 0 {
                    AudioNode::RingMod { mix, a: Box::new(c), b }
                } else if i == 1 {
                    AudioNode::RingMod { mix, a, b: Box::new(c) }
                } else {
                    AudioNode::RingMod { mix, a, b }
                }
            },
            AudioNode::Shift { semis, window, mix, mod_depth, input, modulation } => {
                if i == 0 {
                    AudioNode::Shift { semis, window, mix, mod_depth, input: Box::new(c), modulation }
                } else {
                    AudioNode::Shift { semis, window, mix, mod_depth, input, modulation }
                }
            },
            AudioNode::Comp { threshold, ratio, makeup, mod_depth, input, sidechain, modulation } => {
                if i == 0 {
                    AudioNode::Comp { threshold, ratio, makeup, mod_depth, input: Box::new(c), sidechain, modulation }
                } else if i == 1 {
                    AudioNode::Comp { threshold, ratio, makeup, mod_depth, input, sidechain: Box::new(c), modulation }
                } else {
                    AudioNode::Comp { threshold, ratio, makeup, mod_depth, input, sidechain, modulation }
                }
            },
            AudioNode::Duck { amount, threshold, release, mod_depth, input, key, modulation } => {
                if i == 0 {
                    AudioNode::Duck { amount, threshold, release, mod_depth, input: Box::new(c), key, modulation }
                } else if i == 1 {
                    AudioNode::Duck { amount, threshold, release, mod_depth, input, key: Box::new(c), modulation }
                } else {
                    AudioNode::Duck { amount, threshold, release, mod_depth, input, key, modulation }
                }
            },
            AudioNode::Gate { threshold, range, release, mod_depth, input, sidechain, modulation } => {
                if i == 0 {
                    AudioNode::Gate { threshold, range, release, mod_depth, input: Box::new(c), sidechain, modulation }
                } else if i == 1 {
                    AudioNode::Gate { threshold, range, release, mod_depth, input, sidechain: Box::new(c), modulation }
                } else {
                    AudioNode::Gate { threshold, range, release, mod_depth, input, sidechain, modulation }
                }
            },
            AudioNode::Vocoder { bands, attack, release, mod_depth, carrier, modulator, modulation } => {
                if i == 0 {
                    AudioNode::Vocoder { bands, attack, release, mod_depth, carrier: Box::new(c), modulator, modulation }
                } else if i == 1 {
                    AudioNode::Vocoder { bands, attack, release, mod_depth, carrier, modulator: Box::new(c), modulation }
                } else {
                    AudioNode::Vocoder { bands, attack, release, mod_depth, carrier, modulator, modulation }
                }
            },
            other => other,
        }
    }

    /// This node with its modulation slot set to `m` (unchanged when it has
    /// no slot).
    pub fn with_slot(self, m: ModNode) -> (r: AudioNode)
        ensures
            r == self.spec_with_slot(m),
    {
        match self {
            AudioNode::Vco { wave, octave, detune, mod_depth, modulation } => AudioNode::Vco { wave, octave, detune, mod_depth, modulation: m },
            AudioNode::Supersaw { octave, detune, mix, mod_depth, modulation } => AudioNode::Supersaw { octave, detune, mix, mod_depth, modulation: m },
            AudioNode::Wavetable { table, octave, morph, mod_depth, modulation } => AudioNode::Wavetable { table, octave, morph, mod_depth, modulation: m },
            AudioNode::Pluck { octave, damping, brightness, mod_depth, modulation } => AudioNode::Pluck { octave, damping, brightness, mod_depth, modulation: m },
            AudioNode::Formant { vowel, shift, octave, mod_depth, modulation } => AudioNode::Formant { vowel, shift, octave, mod_depth, modulation: m },
            AudioNode::Filter { kind, cutoff, resonance, mod_depth, input, modulation } => AudioNode::Filter { kind, cutoff, resonance, mod_depth, input, modulation: m },
            AudioNode::Fold { threshold, mod_depth, input, modulation } => AudioNode::Fold { threshold, mod_depth, input, modulation: m },
            AudioNode::Delay { time, feedback, mix, mod_depth, input, modulation } => AudioNode::Delay { time, feedback, mix, mod_depth, input, modulation: m },
            AudioNode::Chorus { rate, depth, mix, mod_depth, input, modulation } => AudioNode::Chorus { rate, depth, mix, mod_depth, input, modulation: m },
            AudioNode::Reverb { size, damp, mix, mod_depth, input, modulation } => AudioNode::Reverb { size, damp, mix, mod_depth, input, modulation: m },
            AudioNode::Distortion { drive, tone, mode, mod_depth, input, modulation } => AudioNode::Distortion { drive, tone, mode, mod_depth, input, modulation: m },
            AudioNode::Bitcrush { bits, downsample, mod_depth, input, modulation } => AudioNode::Bitcrush { bits, downsample, mod_depth, input, modulation: m },
            AudioNode::Phaser { rate, depth, feedback, mod_depth, input, modulation } => AudioNode::Phaser { rate, depth, feedback, mod_depth, input, modulation: m },
            AudioNode::Flanger { rate, depth, feedback, mod_depth, input, modulation } => AudioNode::Flanger { rate, depth, feedback, mod_depth, input, modulation: m },
            AudioNode::Tremolo { rate, depth, shape, mod_depth, input, modulation } => AudioNode::Tremolo { rate, depth, shape, mod_depth, input, modulation: m },
            AudioNode::Vibrato { rate, depth, mix, mod_depth, input, modulation } => AudioNode::Vibrato { rate, depth, mix, mod_depth, input, modulation: m },
            AudioNode::Eq { low, mid, high, mod_depth, input, modulation } => AudioNode::Eq { low, mid, high, mod_depth, input, modulation: m },
            AudioNode::Granular { position, size, density, mod_depth, input, modulation } => AudioNode::Granular { position, size, density, mod_depth, input, modulation: m },
            AudioNode::Shift { semis, window, mix, mod_depth, input, modulation } => AudioNode::Shift { semis, window, mix, mod_depth, input, modulation: m },
            AudioNode::Comp { threshold, ratio, makeup, mod_depth, input, sidechain, modulation } => AudioNode::Comp { threshold, ratio, makeup, mod_depth, input, sidechain, modulation: m },
            AudioNode::Duck { amount, threshold, release, mod_depth, input, key, modulation } => AudioNode::Duck { amount, threshold, release, mod_depth, input, key, modulation: m },
            AudioNode::Gate { threshold, range, release, mod_depth, input, sidechain, modulation } => AudioNode::Gate { threshold, range, release, mod_depth, input, sidechain, modulation: m },
            AudioNode::Vocoder { bands, attack, release, mod_depth, carrier, modulator, modulation } => AudioNode::Vocoder { bands, attack, release, mod_depth, carrier, modulator, modulation: m },
            other => other,
        }
    }
}



impl AudioNode {
    /// What replacing one child changes: that child, and nothing else that
    /// the edit vocabulary reads.
    pub proof fn lemma_with_child(self, i: nat, c: AudioNode)
        requires
            self.spec_child(i) is Some,
        ensures
            self.spec_with_child(i, c).spec_child(i) == Some(c),
            forall|j: nat| j != i ==> #[trigger] self.spec_with_child(i, c).spec_child(j)
                == self.spec_child(j),
            self.spec_with_child(i, c).spec_slot() == self.spec_slot(),
            self.spec_with_child(i, c).spec_is_binary() == self.spec_is_binary(),
            self.spec_with_child(i, c).spec_is_source() == self.spec_is_source(),
            self.spec_with_child(i, self.spec_child(i).unwrap()) == self,
            forall|d: AudioNode| #[trigger]
                self.spec_with_child(i, c).spec_with_child(i, d) == self.spec_with_child(i, d),
    {
    }

    /// Replacing two different children commutes.
    pub proof fn lemma_with_child_commute(self, i: nat, j: nat, a: AudioNode, b: AudioNode)
        requires
            self.spec_child(i) is Some,
            self.spec_child(j) is Some,
            i != j,
        ensures
            self.spec_with_child(i, a).spec_with_child(j, b) == self.spec_with_child(
                j,
                b,
            ).spec_with_child(i, a),
    {
    }

    /// How replacing a child moves the tree's measures: the node count moves
    /// by the difference of the two children's, and depth and the deepest
    /// modulation chain can only grow with the child's.
    pub proof fn lemma_with_child_measures(self, i: nat, a: AudioNode, b: AudioNode)
        requires
            self.spec_child(i) is Some,
        ensures
            self.spec_with_child(i, a).spec_size() + b.spec_size() == self.spec_with_child(
                i,
                b,
            ).spec_size() + a.spec_size(),
            self.spec_with_child(i, a).spec_size() > a.spec_size(),
            self.spec_with_child(i, a).spec_depth() > a.spec_depth(),
            self.spec_with_child(i, a).spec_max_mod_depth() >= a.spec_max_mod_depth(),
            a.spec_depth() <= b.spec_depth() ==> self.spec_with_child(i, a).spec_depth()
                <= self.spec_with_child(i, b).spec_depth(),
            a.spec_max_mod_depth() <= b.spec_max_mod_depth() ==> self.spec_with_child(
                i,
                a,
            ).spec_max_mod_depth() <= self.spec_with_child(i, b).spec_max_mod_depth(),
    {
    }
}


impl AudioNode {
    /// After replacing the node at `path`, the node at `path` is the new one.
    pub proof fn lemma_node_at_replace(self, path: Seq<usize>, n: AudioNode)
        requires
            self.spec_node_at(path) is Some,
        ensures
            self.spec_replace_at(path, n).spec_node_at(path) == Some(n),
        decreases path.len(),
    {
        if path.len() > 0 {
            let c = self.spec_child(path[0] as nat).unwrap();
            self.lemma_with_child(path[0] as nat, c.spec_replace_at(path.drop_first(), n));
            c.lemma_node_at_replace(path.drop_first(), n);
        }
    }

    /// Putting back the node that is already at `path` changes nothing.
    pub proof fn lemma_replace_same(self, path: Seq<usize>)
        requires
            self.spec_node_at(path) is Some,
        ensures
            self.spec_replace_at(path, self.spec_node_at(path).unwrap()) == self,
        decreases path.len(),
    {
        if path.len() > 0 {
            let c = self.spec_child(path[0] as nat).unwrap();
            c.lemma_replace_same(path.drop_first());
            self.lemma_with_child(path[0] as nat, c);
        }
    }

    /// A second replacement at the same path overrides the first.
    pub proof fn lemma_replace_twice(self, path: Seq<usize>, a: AudioNode, b: AudioNode)
        requires
            self.spec_node_at(path) is Some,
        ensures
            self.spec_replace_at(path, a).spec_replace_at(path, b) == self.spec_replace_at(path, b),
        decreases path.len(),
    {
        if path.len() > 0 {
            let i = path[0] as nat;
            let c = self.spec_child(i).unwrap();
            let ca = c.spec_replace_at(path.drop_first(), a);
            self.lemma_with_child(i, ca);
            c.lemma_replace_twice(path.drop_first(), a, b);
        }
    }

    /// Replacing the node at `path` moves the tree's measures the way
    /// replacing a child does: the node count by the difference, depth and
    /// the deepest modulation chain monotonically.
    pub proof fn lemma_replace_measures(self, path: Seq<usize>, a: AudioNode, b: AudioNode)
        requires
            self.spec_node_at(path) is Some,
        ensures
            self.spec_replace_at(path, a).spec_size() + b.spec_size() == self.spec_replace_at(
                path,
                b,
            ).spec_size() + a.spec_size(),
            a.spec_depth() <= b.spec_depth() ==> self.spec_replace_at(path, a).spec_depth()
                <= self.spec_replace_at(path, b).spec_depth(),
            a.spec_max_mod_depth() <= b.spec_max_mod_depth() ==> self.spec_replace_at(
                path,
                a,
            ).spec_max_mod_depth() <= self.spec_replace_at(path, b).spec_max_mod_depth(),
        decreases path.len(),
    {
        if path.len() > 0 {
            let i = path[0] as nat;
            let c = self.spec_child(i).unwrap();
            c.lemma_replace_measures(path.drop_first(), a, b);
            self.lemma_with_child_measures(
                i,
                c.spec_replace_at(path.drop_first(), a),
                c.spec_replace_at(path.drop_first(), b),
            );
        }
    }
}


impl AudioNode {
    /// Replacing the node at a non-empty `path` replaces that child of the
    /// node at the parent path.
    pub proof fn lemma_parent_after_replace(self, path: Seq<usize>, n: AudioNode)
        requires
            path.len() > 0,
            self.spec_node_at(path) is Some,
        ensures
            self.spec_node_at(path.drop_last()) is Some,
            self.spec_node_at(path.drop_last()).unwrap().spec_child(path.last() as nat)
                == self.spec_node_at(path),
            self.spec_replace_at(path, n).spec_node_at(path.drop_last()) == Some(
                self.spec_node_at(path.drop_last()).unwrap().spec_with_child(
                    path.last() as nat,
                    n,
                ),
            ),
        decreases path.len(),
    {
        let i = path[0] as nat;
        let c = self.spec_child(i).unwrap();
        if path.len() == 1 {
            assert(path.drop_last() =~= Seq::<usize>::empty());
            assert(path.drop_first() =~= Seq::<usize>::empty());
        } else {
            let rest = path.drop_first();
            assert(rest.drop_last() =~= path.drop_last().drop_first());
            assert(rest.last() == path.last());
            c.lemma_parent_after_replace(rest, n);
            self.lemma_with_child(i, c.spec_replace_at(rest, n));
        }
    }
}

impl AudioNode {
    /// The short tag this node contributes to a patch's spine signature.
    pub open spec fn spec_tag(self) -> Seq<char> {
        match self {
            AudioNode::Vco { wave, .. } => wave.spec_port_name(),
            AudioNode::Wavetable { table, .. } => match table {
                TableShape::Sine => "wsin"@,
                TableShape::Tri => "wtri"@,
                TableShape::Saw => "wsaw"@,
                TableShape::Square => "wsqr"@,
                TableShape::Pulse25 | TableShape::Pulse12 => "wpul"@,
                TableShape::FormantA | TableShape::FormantO => "wfmt"@,
            },
            AudioNode::Filter { kind, .. } => match kind {
                FilterKind::Ladder => "ladr"@,
                FilterKind::SvfLp => "lp"@,
                FilterKind::SvfBp => "bp"@,
                FilterKind::SvfHp => "hp"@,
            },
            AudioNode::Distortion { mode, .. } => match mode {
                DriveMode::Soft => "drv"@,
                DriveMode::Hard => "clip"@,
                DriveMode::Tube => "tube"@,
            },
            AudioNode::Supersaw { .. } => "ssaw"@,
            AudioNode::Noise { .. } => "noiz"@,
            AudioNode::Pluck { .. } => "plk"@,
            AudioNode::Formant { .. } => "vox"@,
            AudioNode::Mix { .. } => "mix"@,
            AudioNode::Fold { .. } => "fold"@,
            AudioNode::Delay { .. } => "dly"@,
            AudioNode::Chorus { .. } => "cho"@,
            AudioNode::Reverb { .. } => "rvb"@,
            AudioNode::Bitcrush { .. } => "crsh"@,
            AudioNode::Phaser { .. } => "phsr"@,
            AudioNode::Flanger { .. } => "flng"@,
            AudioNode::Tremolo { .. } => "trem"@,
            AudioNode::Vibrato { .. } => "vib"@,
            AudioNode::Eq { .. } => "eq"@,
            AudioNode::Granular { .. } => "gran"@,
            AudioNode::RingMod { .. } => "ring"@,
            AudioNode::Shift { .. } => "shft"@,
            AudioNode::Comp { .. } => "comp"@,
            AudioNode::Duck { .. } => "duck"@,
            AudioNode::Gate { .. } => "gate"@,
            AudioNode::Vocoder { .. } => "voc"@,
        }
    }

    /// The tags along the main signal spine, source first: `/0` is followed
    /// at every node and the side branches are skipped.
    pub open spec fn spec_spine(self) -> Seq<Seq<char>>
        decreases self,
    {
        match self {
            AudioNode::Vco { .. }
            | AudioNode::Supersaw { .. }
            | AudioNode::Noise { .. }
            | AudioNode::Wavetable { .. }
            | AudioNode::Pluck { .. }
            | AudioNode::Formant { .. } => seq![self.spec_tag()],
            AudioNode::Mix { a, .. } | AudioNode::RingMod { a, .. } => a.spec_spine().push(self.spec_tag()),
            AudioNode::Comp { input, .. }
            | AudioNode::Duck { input, .. }
            | AudioNode::Gate { input, .. }
            | AudioNode::Vocoder { carrier: input, .. } => input.spec_spine().push(self.spec_tag()),
            AudioNode::Filter { input, .. }
            | AudioNode::Fold { input, .. }
            | AudioNode::Delay { input, .. }
            | AudioNode::Chorus { input, .. }
            | AudioNode::Reverb { input, .. }
            | AudioNode::Distortion { input, .. }
            | AudioNode::Bitcrush { input, .. }
            | AudioNode::Phaser { input, .. }
            | AudioNode::Flanger { input, .. }
            | AudioNode::Tremolo { input, .. }
            | AudioNode::Vibrato { input, .. }
            | AudioNode::Eq { input, .. }
            | AudioNode::Granular { input, .. }
            | AudioNode::Shift { input, .. } => input.spec_spine().push(self.spec_tag()),
        }
    }

    /// The short tag this node contributes to a patch's spine signature.
    pub fn tag(&self) -> (r: &'static str)
        ensures
            r@ == self.spec_tag(),
    {
        match self {
            AudioNode::Vco { wave, .. } => wave.port_name(),
            AudioNode::Wavetable { table, .. } => match table {
                TableShape::Sine => "wsin",
                TableShape::Tri => "wtri",
                TableShape::Saw => "wsaw",
                TableShape::Square => "wsqr",
                TableShape::Pulse25 | TableShape::Pulse12 => "wpul",
                TableShape::FormantA | TableShape::FormantO => "wfmt",
            },
            AudioNode::Filter { kind, .. } => match kind {
                FilterKind::Ladder => "ladr",
                FilterKind::SvfLp => "lp",
                FilterKind::SvfBp => "bp",
                FilterKind::SvfHp => "hp",
            },
            AudioNode::Distortion { mode, .. } => match mode {
                DriveMode::Soft => "drv",
                DriveMode::Hard => "clip",
                DriveMode::Tube => "tube",
            },
            AudioNode::Supersaw { .. } => "ssaw",
            AudioNode::Noise { .. } => "noiz",
            AudioNode::Pluck { .. } => "plk",
            AudioNode::Formant { .. } => "vox",
            AudioNode::Mix { .. } => "mix",
            AudioNode::Fold { .. } => "fold",
            AudioNode::Delay { .. } => "dly",
            AudioNode::Chorus { .. } => "cho",
            AudioNode::Reverb { .. } => "rvb",
            AudioNode::Bitcrush { .. } => "crsh",
            AudioNode::Phaser { .. } => "phsr",
            AudioNode::Flanger { .. } => "flng",
            AudioNode::Tremolo { .. } => "trem",
            AudioNode::Vibrato { .. } => "vib",
            AudioNode::Eq { .. } => "eq",
            AudioNode::Granular { .. } => "gran",
            AudioNode::RingMod { .. } => "ring",
            AudioNode::Shift { .. } => "shft",
            AudioNode::Comp { .. } => "comp",
            AudioNode::Duck { .. } => "duck",
            AudioNode::Gate { .. } => "gate",
            AudioNode::Vocoder { .. } => "voc",
        }
    }

    /// Push the spine tags of this subtree onto `out`, source first.
    pub fn spine_tags(&self, out: &mut Vec<&'static str>)
        ensures
            str_views(final(out)@) == str_views(old(out)@) + self.spec_spine(),
        decreases self,
    {
        match self {
            AudioNode::Vco { .. }
            | AudioNode::Supersaw { .. }
            | AudioNode::Noise { .. }
            | AudioNode::Wavetable { .. }
            | AudioNode::Pluck { .. }
            | AudioNode::Formant { .. } => {},
            AudioNode::Mix { a, .. } | AudioNode::RingMod { a, .. } => a.spine_tags(out),
            AudioNode::Comp { input, .. }
            | AudioNode::Duck { input, .. }
            | AudioNode::Gate { input, .. }
            | AudioNode::Vocoder { carrier: input, .. } => input.spine_tags(out),
            AudioNode::Filter { input, .. }
            | AudioNode::Fold { input, .. }
            | AudioNode::Delay { input, .. }
            | AudioNode::Chorus { input, .. }
            | AudioNode::Reverb { input, .. }
            | AudioNode::Distortion { input, .. }
            | AudioNode::Bitcrush { input, .. }
            | AudioNode::Phaser { input, .. }
            | AudioNode::Flanger { input, .. }
            | AudioNode::Tremolo { input, .. }
            | AudioNode::Vibrato { input, .. }
            | AudioNode::Eq { input, .. }
            | AudioNode::Granular { input, .. }
            | AudioNode::Shift { input, .. } => input.spine_tags(out),
        }
        let ghost before = str_views(out@);
        out.push(self.tag());
        assert(str_views(out@) =~= before.push(self.spec_tag()));
        assert(str_views(out@) =~= str_views(old(out)@) + self.spec_spine());
    }
}


impl PatchTree {
    /// The short human-readable signature along the main signal spine
    /// (`saw·ladr·dly`); past four tags it keeps the last four and counts the
    /// rest (`2+·lp·fold·dly·rvb`).
    pub open spec fn spec_signature(self) -> Seq<char> {
        let tags = self.root.spec_spine();
        if tags.len() > 4 {
            spec_decimal((tags.len() - 4) as nat) + "+\u{b7}"@ + spec_join(
                tags.skip(tags.len() - 4),
                "\u{b7}"@,
            )
        } else {
            spec_join(tags, "\u{b7}"@)
        }
    }

    /// Short human-readable signature along the main signal spine
    /// (`saw·ladr·dly`), the default display name for unnamed patches.
    pub fn signature(&self) -> (r: String)
        ensures
            r@ == self.spec_signature(),
    {
        let mut tags: Vec<&'static str> = Vec::new();
        self.root.spine_tags(&mut tags);
        assert(str_views(tags@) =~= self.root.spec_spine());
        if tags.len() > 4 {
            let skipped = tags.len() - 4;
            let mut tail: Vec<&'static str> = Vec::new();
            let mut i = skipped;
            while i < tags.len()
                invariant
                    skipped <= i <= tags@.len(),
                    tail@ == tags@.subrange(skipped as int, i as int),
                decreases tags@.len() - i,
            {
                tail.push(tags[i]);
                i = i + 1;
                assert(tail@ =~= tags@.subrange(skipped as int, i as int));
            }
            assert(str_views(tail@) =~= str_views(tags@).skip(skipped as int));
            decimal(skipped).concat("+\u{b7}").concat(join(&tail, "\u{b7}").as_str())
        } else {
            join(&tags, "\u{b7}")
        }
    }
}


/// The spine follows the primary input: a source's spine is its own tag,
/// and every other node's is its first input's (`/0`) spine followed by its
/// own tag, so the second branch of a two-input node never enters it.
pub proof fn law_spine_follows_first_input(n: AudioNode)
    ensures
        n.spec_is_source() ==> n.spec_spine() == seq![n.spec_tag()],
        !n.spec_is_source() ==> (n.spec_child(0) matches Some(c) && n.spec_spine() == c.spec_spine().push(
            n.spec_tag(),
        )),
{
}

} // verus!
