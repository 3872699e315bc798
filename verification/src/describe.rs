//! Rack description: a patch as modules, knobs and wires for a front end.
//!
//! Every knob carries the trace address of the choice site it displays
//! (`node/0#cut`, `amp#attack`, ...) — the same addresses the grammar samples
//! and the encoding records — so the panel is a direct view of the genome:
//! turning a knob is an edit at that address, and locking a knob is a
//! constraint on it.

use vstd::prelude::*;
use vstd::string::StringExecFns;

use crate::edit::{lemma_split_joined, spec_enum_arity, spec_is_structural, spec_split_addr};
use crate::encoding::{
    lemma_encode_mod_frame, lemma_encode_node_frame, read_flag, read_index, read_real,
    spec_encode_amp, spec_encode_mod, spec_encode_node, spec_octave_at, spec_octave_index, spec_put,
    spec_to_trace,
};
use crate::genome::{below, child_key, lemma_layout, mod_key, spec_child_key, spec_mod_key};
use crate::trace::{
    is_plain, lemma_address_injective_forall, lemma_escape_plain, spec_address, spec_lookup,
    SiteValue,
};
use crate::term::{
    AmpEnv, AudioNode, DriveMode, FilterKind, ModNode, ModOp, NoiseColor, Param, PatchTree,
    TableShape, Waveform,
};

verus! {

/// What kind of control a knob is.
#[derive(Debug, PartialEq, Eq)]
pub enum KnobKind {
    /// Continuous parameter, normalized to `[0, 1]`.
    Continuous,
    /// A small enum selector; the knob's value is the index.
    Enum {
        /// Display names, in categorical index order.
        options: Vec<String>,
    },
    /// Octave selector: index `0..=4`, displayed as `-2..=+2`.
    Octave,
}

/// A patch cable between two modules.
#[derive(Debug, PartialEq, Eq)]
pub struct Wire {
    /// Source module key.
    pub from: String,
    /// Destination module key.
    pub to: String,
    /// `"audio"` or `"mod"`.
    pub kind: String,
}

/// The views of a list of strings.
pub open spec fn string_views(v: Seq<String>) -> Seq<Seq<char>> {
    v.map_values(|s: String| s@)
}

/// Display names for the waveform categorical, in index order.
pub fn waveform_options() -> (r: Vec<String>)
    ensures
        string_views(r@) == spec_waveform_options(),
{
    let mut out: Vec<String> = Vec::new();
    let mut i: usize = 0;
    while i < 4
        invariant
            i <= 4,
            out@.len() == i,
            forall|k: int|
                0 <= k < i ==> #[trigger] out@[k]@ == Waveform::spec_from_index(
                    k as nat,
                ).spec_port_name(),
        decreases 4 - i,
    {
        out.push(String::from_str(Waveform::from_index(i).port_name()));
        i = i + 1;
    }
    assert(string_views(out@) =~= spec_waveform_options());
    out
}

/// Display names for the noise-color categorical, in index order.
pub fn noise_options() -> (r: Vec<String>)
    ensures
        string_views(r@) == spec_noise_options(),
{
    let mut out: Vec<String> = Vec::new();
    let mut i: usize = 0;
    while i < 2
        invariant
            i <= 2,
            out@.len() == i,
            forall|k: int|
                0 <= k < i ==> #[trigger] out@[k]@ == NoiseColor::spec_from_index(
                    k as nat,
                ).spec_port_name(),
        decreases 2 - i,
    {
        out.push(String::from_str(NoiseColor::from_index(i).port_name()));
        i = i + 1;
    }
    assert(string_views(out@) =~= spec_noise_options());
    out
}

/// Display names for the filter-kind categorical, in index order.
pub open spec fn spec_filter_options() -> Seq<Seq<char>> {
    seq!["svf lp"@, "svf bp"@, "svf hp"@, "ladder"@]
}

/// Display names for the filter-kind categorical, in index order.
pub fn filter_options() -> (r: Vec<String>)
    ensures
        string_views(r@) == spec_filter_options(),
{
    let r = vec![
        String::from_str("svf lp"),
        String::from_str("svf bp"),
        String::from_str("svf hp"),
        String::from_str("ladder"),
    ];
    assert(string_views(r@) =~= spec_filter_options());
    r
}

/// Display names for the wavetable categorical, in index order.
pub fn table_options() -> (r: Vec<String>)
    ensures
        string_views(r@) == spec_table_options(),
{
    let mut out: Vec<String> = Vec::new();
    let mut i: usize = 0;
    while i < 8
        invariant
            i <= 8,
            out@.len() == i,
            forall|k: int|
                0 <= k < i ==> #[trigger] out@[k]@ == TableShape::spec_from_index(
                    k as nat,
                ).spec_label(),
        decreases 8 - i,
    {
        out.push(String::from_str(TableShape::from_index(i).label()));
        i = i + 1;
    }
    assert(string_views(out@) =~= spec_table_options());
    out
}

/// Display names for the distortion-mode categorical, in index order.
pub fn drive_mode_options() -> (r: Vec<String>)
    ensures
        string_views(r@) == spec_drive_mode_options(),
{
    let mut out: Vec<String> = Vec::new();
    let mut i: usize = 0;
    while i < 3
        invariant
            i <= 3,
            out@.len() == i,
            forall|k: int|
                0 <= k < i ==> #[trigger] out@[k]@ == DriveMode::spec_from_index(
                    k as nat,
                ).spec_label(),
        decreases 3 - i,
    {
        out.push(String::from_str(DriveMode::from_index(i).label()));
        i = i + 1;
    }
    assert(string_views(out@) =~= spec_drive_mode_options());
    out
}

/// Display names for the waveform categorical, in index order.
pub open spec fn spec_waveform_options() -> Seq<Seq<char>> {
    Seq::new(4, |i: int| Waveform::spec_from_index(i as nat).spec_port_name())
}

/// Display names for the noise-color categorical, in index order.
pub open spec fn spec_noise_options() -> Seq<Seq<char>> {
    Seq::new(2, |i: int| NoiseColor::spec_from_index(i as nat).spec_port_name())
}

/// Display names for the wavetable categorical, in index order.
pub open spec fn spec_table_options() -> Seq<Seq<char>> {
    Seq::new(8, |i: int| TableShape::spec_from_index(i as nat).spec_label())
}

/// Display names for the distortion-mode categorical, in index order.
pub open spec fn spec_drive_mode_options() -> Seq<Seq<char>> {
    Seq::new(3, |i: int| DriveMode::spec_from_index(i as nat).spec_label())
}

/// The three knobs whose faceplate names the cell their continuous value
/// falls in.
#[derive(Clone, Copy, Debug, PartialEq, Eq, Structural)]
pub enum Selector {
    /// The quantizer's root note.
    QuantRoot,
    /// The quantizer's scale.
    QuantScale,
    /// The rectifier's polarity.
    RectMode,
}

/// Root-note names for the quantizer's `root` port.
pub open spec fn spec_quant_roots() -> Seq<Seq<char>> {
    seq!["C"@, "C#"@, "D"@, "D#"@, "E"@, "F"@, "F#"@, "G"@, "G#"@, "A"@, "A#"@, "B"@]
}

/// The scales the quantizer selects between, in its own index order.
pub open spec fn spec_quant_scales() -> Seq<Seq<char>> {
    seq![
        "chromatic"@,
        "major"@,
        "minor"@,
        "penta major"@,
        "penta minor"@,
        "dorian"@,
        "blues"@,
    ]
}

/// Rectifier polarities, in the order `rmode` selects them.
pub open spec fn spec_rect_modes() -> Seq<Seq<char>> {
    seq!["full"@, "positive"@, "negative"@]
}

/// The names a selector's cells carry.
pub open spec fn spec_cell_names(s: Selector) -> Seq<Seq<char>> {
    match s {
        Selector::QuantRoot => spec_quant_roots(),
        Selector::QuantScale => spec_quant_scales(),
        Selector::RectMode => spec_rect_modes(),
    }
}

/// The names a selector's cells carry.
pub fn cell_names(s: Selector) -> (r: &'static [&'static str])
    ensures
        r@.len() == spec_cell_names(s).len(),
        forall|i: int| 0 <= i < r@.len() ==> #[trigger] r@[i]@ == spec_cell_names(s)[i],
{
    match s {
        Selector::QuantRoot => &["C", "C#", "D", "D#", "E", "F", "F#", "G", "G#", "A", "A#", "B"],
        Selector::QuantScale => &[
            "chromatic",
            "major",
            "minor",
            "penta major",
            "penta minor",
            "dorian",
            "blues",
        ],
        Selector::RectMode => &["full", "positive", "negative"],
    }
}

/// The value a knob shows: a continuous level, or the index of an enum or
/// octave selector.
#[derive(Clone, Copy, Debug, PartialEq, Eq, Structural)]
pub enum KnobValue {
    /// A continuous value, as the bit pattern of its `f64`.
    Level(Param),
    /// A selector's index.
    Step(i64),
}

/// One knob on a module faceplate.
#[derive(Debug, PartialEq, Eq)]
pub struct Knob {
    /// Full trace address (`key#site`).
    pub addr: String,
    /// Silkscreen label.
    pub label: String,
    /// Current value.
    pub value: KnobValue,
    /// Control kind.
    pub kind: KnobKind,
}

/// One module faceplate in the rack.
#[derive(Debug, PartialEq, Eq)]
pub struct RackModule {
    /// Trace key of the node (`node`, `node/0`, `node/0/m`, `amp`).
    pub key: String,
    /// Machine kind tag (`vco`, `filter`, `lfo`, `amp`, ...).
    pub kind: String,
    /// Silkscreen title.
    pub title: String,
    /// Distance from the root (root = 0); layout hint for column placement.
    pub column: usize,
    /// True for modulation-sort modules.
    pub is_mod: bool,
    /// The knobs, in faceplate order.
    pub knobs: Vec<Knob>,
    /// Structural choice addresses owned by this module (`#leaf`, `#src`,
    /// `#op`, `#mod`, `#modop`, `#pairop`, and any empty modulation slot it
    /// guards).
    pub structural_addrs: Vec<String>,
}

/// The full rack view of one patch.
#[derive(Debug, PartialEq, Eq)]
pub struct RackDescription {
    /// Modules, root-first depth-first.
    pub modules: Vec<RackModule>,
    /// Patch cables.
    pub wires: Vec<Wire>,
}

/// What a knob's label says: fixed text, or a prefix and the name of the
/// cell a selector puts the knob's value in.
pub enum LabelSpec {
    /// Fixed text.
    Fixed(Seq<char>),
    /// `prefix` followed by the name of the selector's cell for `value`.
    Selected(Seq<char>, Selector, Param),
}

/// A knob's kind, with an enum's option names as text.
pub enum KindSpec {
    /// Continuous.
    Continuous,
    /// An enum selector with these option names.
    Enum(Seq<Seq<char>>),
    /// An octave selector.
    Octave,
}

/// What a knob shows.
pub struct KnobSpec {
    /// Its address.
    pub addr: Seq<char>,
    /// Its label.
    pub label: LabelSpec,
    /// Its value.
    pub value: KnobValue,
    /// Its kind.
    pub kind: KindSpec,
}

/// What a module shows.
pub struct ModuleSpec {
    /// Its key.
    pub key: Seq<char>,
    /// Its kind tag.
    pub kind: Seq<char>,
    /// Its title.
    pub title: Seq<char>,
    /// Its column.
    pub column: int,
    /// Whether it is a modulation module.
    pub is_mod: bool,
    /// Its knobs.
    pub knobs: Seq<KnobSpec>,
    /// Its structural addresses.
    pub structural: Seq<Seq<char>>,
}

/// What a cable connects.
pub struct WireSpec {
    /// Source key.
    pub from: Seq<char>,
    /// Destination key.
    pub to: Seq<char>,
    /// `audio` or `mod`.
    pub kind: Seq<char>,
}

/// What a part of the rack shows: its modules and its cables, in order.
pub struct RackSpec {
    /// The modules.
    pub modules: Seq<ModuleSpec>,
    /// The cables.
    pub wires: Seq<WireSpec>,
}

/// One rack part followed by another.
pub open spec fn join(a: RackSpec, b: RackSpec) -> RackSpec {
    RackSpec { modules: a.modules + b.modules, wires: a.wires + b.wires }
}

/// The empty rack part.
pub open spec fn nothing() -> RackSpec {
    RackSpec { modules: Seq::empty(), wires: Seq::empty() }
}

/// Whether a knob shows what its description says; a selected label names
/// the cell one call of `cell` gave, the last cell for an index past the end.
pub open spec fn knob_meets<F: Fn(Selector, Param) -> usize>(k: Knob, s: KnobSpec, cell: F) -> bool {
    &&& k.addr@ == s.addr
    &&& k.value == s.value
    &&& match (k.kind, s.kind) {
        (KnobKind::Continuous, KindSpec::Continuous) => true,
        (KnobKind::Enum { options }, KindSpec::Enum(names)) => string_views(options@) == names,
        (KnobKind::Octave, KindSpec::Octave) => true,
        _ => false,
    }
    &&& match s.label {
        LabelSpec::Fixed(text) => k.label@ == text,
        LabelSpec::Selected(prefix, sel, v) => exists|r: usize|
            #[trigger] call_ensures(cell, (sel, v), r) && k.label@ == prefix + spec_cell_names(
                sel,
            )[if r < spec_cell_names(sel).len() {
                r as int
            } else {
                spec_cell_names(sel).len() - 1
            }],
    }
}

/// Whether each knob of a list shows what the description at its place says.
pub open spec fn all_meet<F: Fn(Selector, Param) -> usize>(
    ks: Seq<Knob>,
    ss: Seq<KnobSpec>,
    cell: F,
) -> bool {
    &&& ks.len() == ss.len()
    &&& forall|i: int| 0 <= i < ss.len() ==> knob_meets(#[trigger] ks[i], ss[i], cell)
}

/// Whether a module shows what its description says.
pub open spec fn module_meets<F: Fn(Selector, Param) -> usize>(
    m: RackModule,
    s: ModuleSpec,
    cell: F,
) -> bool {
    &&& m.key@ == s.key
    &&& m.kind@ == s.kind
    &&& m.title@ == s.title
    &&& m.column == s.column
    &&& m.is_mod == s.is_mod
    &&& all_meet(m.knobs@, s.knobs, cell)
    &&& string_views(m.structural_addrs@) == s.structural
}

/// Whether a cable connects what its description says.
pub open spec fn wire_meets(w: Wire, s: WireSpec) -> bool {
    w.from@ == s.from && w.to@ == s.to && w.kind@ == s.kind
}

/// Whether `(nm, nw)` is `(om, ow)` followed by what `d` describes.
pub open spec fn extends<F: Fn(Selector, Param) -> usize>(
    om: Seq<RackModule>,
    nm: Seq<RackModule>,
    ow: Seq<Wire>,
    nw: Seq<Wire>,
    d: RackSpec,
    cell: F,
) -> bool {
    &&& nm.len() == om.len() + d.modules.len()
    &&& forall|i: int| 0 <= i < om.len() ==> nm[i] == om[i]
    &&& forall|j: int|
        0 <= j < d.modules.len() ==> module_meets(#[trigger] nm[om.len() + j], d.modules[j], cell)
    &&& nw.len() == ow.len() + d.wires.len()
    &&& forall|i: int| 0 <= i < ow.len() ==> nw[i] == ow[i]
    &&& forall|j: int| 0 <= j < d.wires.len() ==> wire_meets(#[trigger] nw[ow.len() + j], d.wires[j])
}

/// Extending by one part and then another extends by both.
proof fn lemma_extends_chain<F: Fn(Selector, Param) -> usize>(
    m0: Seq<RackModule>,
    m1: Seq<RackModule>,
    m2: Seq<RackModule>,
    w0: Seq<Wire>,
    w1: Seq<Wire>,
    w2: Seq<Wire>,
    d1: RackSpec,
    d2: RackSpec,
    cell: F,
)
    requires
        extends(m0, m1, w0, w1, d1, cell),
        extends(m1, m2, w1, w2, d2, cell),
    ensures
        extends(m0, m2, w0, w2, join(d1, d2), cell),
{
    let d = join(d1, d2);
    assert forall|j: int| 0 <= j < d.modules.len() implies module_meets(
        #[trigger] m2[m0.len() + j],
        d.modules[j],
        cell,
    ) by {
        if j < d1.modules.len() {
            assert(m2[m0.len() + j] == m1[m0.len() + j]);
        } else {
            let k = j - d1.modules.len();
            assert(m2[m0.len() + j] == m2[m1.len() + k]);
        }
    }
    assert forall|j: int| 0 <= j < d.wires.len() implies wire_meets(
        #[trigger] w2[w0.len() + j],
        d.wires[j],
    ) by {
        if j < d1.wires.len() {
            assert(w2[w0.len() + j] == w1[w0.len() + j]);
        } else {
            let k = j - d1.wires.len();
            assert(w2[w0.len() + j] == w2[w1.len() + k]);
        }
    }
}

/// Extending by nothing leaves the rack as it is.
proof fn lemma_extends_nothing<F: Fn(Selector, Param) -> usize>(
    m: Seq<RackModule>,
    w: Seq<Wire>,
    cell: F,
)
    ensures
        extends(m, m, w, w, nothing(), cell),
{
}

/// Append a module that shows what `s` describes.
fn push_module<F: Fn(Selector, Param) -> usize>(
    out: &mut RackDescription,
    m: RackModule,
    Ghost(s): Ghost<ModuleSpec>,
    Ghost(cell): Ghost<F>,
)
    requires
        module_meets(m, s, cell),
    ensures
        extends(
            old(out).modules@,
            final(out).modules@,
            old(out).wires@,
            final(out).wires@,
            RackSpec { modules: seq![s], wires: Seq::empty() },
            cell,
        ),
{
    out.modules.push(m);
}

/// Append a cable from `from` to `to` of `kind`.
fn push_wire<F: Fn(Selector, Param) -> usize>(
    out: &mut RackDescription,
    from: String,
    to: String,
    kind: &str,
    Ghost(cell): Ghost<F>,
)
    ensures
        extends(
            old(out).modules@,
            final(out).modules@,
            old(out).wires@,
            final(out).wires@,
            RackSpec {
                modules: Seq::empty(),
                wires: seq![WireSpec { from: from@, to: to@, kind: kind@ }],
            },
            cell,
        ),
{
    out.wires.push(Wire { from, to, kind: String::from_str(kind) });
}

/// The address of `site` on the faceplate of the module at `key`.
fn knob_address(key: &str, site: &str) -> (r: String)
    ensures
        r@ == key@ + "#"@ + site@,
{
    String::from_str(key).concat("#").concat(site)
}

/// A continuous knob.
fn knob_c(key: &str, site: &str, label: &str, value: Param) -> (k: Knob)
    ensures
        k.addr@ == key@ + "#"@ + site@,
        k.label@ == label@,
        k.value == KnobValue::Level(value),
        k.kind is Continuous,
{
    Knob {
        addr: knob_address(key, site),
        label: String::from_str(label),
        value: KnobValue::Level(value),
        kind: KnobKind::Continuous,
    }
}

/// An enum knob showing `index` of `options`.
fn knob_e(key: &str, site: &str, label: &str, index: usize, options: Vec<String>) -> (k: Knob)
    requires
        index < 16,
    ensures
        k.addr@ == key@ + "#"@ + site@,
        k.label@ == label@,
        k.value == KnobValue::Step(index as i64),
        k.kind == (KnobKind::Enum { options }),
{
    Knob {
        addr: knob_address(key, site),
        label: String::from_str(label),
        value: KnobValue::Step(index as i64),
        kind: KnobKind::Enum { options },
    }
}

/// The octave knob.
fn knob_oct(key: &str, octave: i8) -> (k: Knob)
    ensures
        k.addr@ == key@ + "#"@ + "oct"@,
        k.label@ == "octave"@,
        k.value == KnobValue::Step((octave + 2) as i64),
        k.kind is Octave,
{
    Knob {
        addr: knob_address(key, "oct"),
        label: String::from_str("octave"),
        value: KnobValue::Step(octave as i64 + 2),
        kind: KnobKind::Octave,
    }
}

/// A knob whose label names the cell `cell` puts its value in.
fn knob_selected<F: Fn(Selector, Param) -> usize>(
    key: &str,
    site: &str,
    prefix: &str,
    sel: Selector,
    value: Param,
    cell: &F,
) -> (k: Knob)
    requires
        forall|s: Selector, b: Param| call_requires(*cell, (s, b)),
    ensures
        knob_meets(
            k,
            KnobSpec {
                addr: key@ + "#"@ + site@,
                label: LabelSpec::Selected(prefix@, sel, value),
                value: KnobValue::Level(value),
                kind: KindSpec::Continuous,
            },
            *cell,
        ),
{
    let r = cell(sel, value);
    let names = cell_names(sel);
    let i = if r < names.len() {
        r
    } else {
        names.len() - 1
    };
    Knob {
        addr: knob_address(key, site),
        label: String::from_str(prefix).concat(names[i]),
        value: KnobValue::Level(value),
        kind: KnobKind::Continuous,
    }
}


/// A continuous knob showing `v` under a fixed label.
pub open spec fn level(key: Seq<char>, site: Seq<char>, label: Seq<char>, v: Param) -> KnobSpec {
    KnobSpec {
        addr: key + "#"@ + site,
        label: LabelSpec::Fixed(label),
        value: KnobValue::Level(v),
        kind: KindSpec::Continuous,
    }
}

/// An enum knob showing option `index` of `options`.
pub open spec fn choice(
    key: Seq<char>,
    site: Seq<char>,
    label: Seq<char>,
    index: nat,
    options: Seq<Seq<char>>,
) -> KnobSpec {
    KnobSpec {
        addr: key + "#"@ + site,
        label: LabelSpec::Fixed(label),
        value: KnobValue::Step(index as i64),
        kind: KindSpec::Enum(options),
    }
}

/// The octave knob: it shows the offset shifted up by two, so `-2..=+2`
/// reads `0..=4`.
pub open spec fn octave_knob(key: Seq<char>, octave: i8) -> KnobSpec {
    KnobSpec {
        addr: key + "#"@ + "oct"@,
        label: LabelSpec::Fixed("octave"@),
        value: KnobValue::Step((octave + 2) as i64),
        kind: KindSpec::Octave,
    }
}

/// A continuous knob whose label names the cell its value selects.
pub open spec fn selected(
    key: Seq<char>,
    site: Seq<char>,
    prefix: Seq<char>,
    sel: Selector,
    v: Param,
) -> KnobSpec {
    KnobSpec {
        addr: key + "#"@ + site,
        label: LabelSpec::Selected(prefix, sel, v),
        value: KnobValue::Level(v),
        kind: KindSpec::Continuous,
    }
}

/// A cable.
pub open spec fn wire(from: Seq<char>, to: Seq<char>, kind: Seq<char>) -> WireSpec {
    WireSpec { from, to, kind }
}

/// Cables of `kind` from the first `n` children of `key` into `key`.
pub open spec fn inputs_to(key: Seq<char>, n: nat, kind: Seq<char>) -> Seq<WireSpec> {
    Seq::new(n, |i: int| wire(spec_child_key(key, i as nat), key, kind))
}

/// The structural addresses an audio module owns: `#leaf`, its `#src` or
/// `#op` tag, and the `#mod` site of its slot when that slot is empty.
pub open spec fn owned_sites(key: Seq<char>, tag: Seq<char>, slot: Option<ModNode>) -> Seq<Seq<char>> {
    let own = seq![key + "#"@ + "leaf"@, key + "#"@ + tag];
    if slot == Some(ModNode::Empty) {
        own.push(spec_mod_key(key) + "#"@ + "mod"@)
    } else {
        own
    }
}

/// An audio module at `key`, the cables from its `inputs` children, and
/// what its modulation slot holds, if it has one.
pub open spec fn head(
    key: Seq<char>,
    column: int,
    kind: Seq<char>,
    title: Seq<char>,
    knobs: Seq<KnobSpec>,
    tag: Seq<char>,
    inputs: nat,
    slot: Option<ModNode>,
) -> RackSpec {
    let module = ModuleSpec {
        key,
        kind,
        title,
        column,
        is_mod: false,
        knobs,
        structural: owned_sites(key, tag, slot),
    };
    join(
        RackSpec { modules: seq![module], wires: inputs_to(key, inputs, "audio"@) },
        match slot {
            Some(m) => spec_describe_mod(m, spec_mod_key(key), key, column + 1),
            None => nothing(),
        },
    )
}

/// A modulation module at `key` feeding `parent`, with the cables from its
/// `inputs` subterms; `tag` names the site that says which processor it is.
pub open spec fn mod_head(
    key: Seq<char>,
    parent: Seq<char>,
    column: int,
    kind: Seq<char>,
    title: Seq<char>,
    knobs: Seq<KnobSpec>,
    tag: Option<Seq<char>>,
    inputs: nat,
) -> RackSpec {
    let own = seq![key + "#"@ + "mod"@];
    let module = ModuleSpec {
        key,
        kind,
        title,
        column,
        is_mod: true,
        knobs,
        structural: match tag {
            Some(t) => own.push(key + "#"@ + t),
            None => own,
        },
    };
    RackSpec {
        modules: seq![module],
        wires: seq![wire(key, parent, "mod"@)] + inputs_to(key, inputs, "mod"@),
    }
}

/// The knobs of a CV processor.
pub open spec fn op_knobs(kind: ModOp, key: Seq<char>, p0: Param, p1: Param) -> Seq<KnobSpec> {
    match kind {
        ModOp::Quantize => seq![
            selected(key, "qroot"@, "root · "@, Selector::QuantRoot, p0),
            selected(key, "qscale"@, "scale · "@, Selector::QuantScale, p1),
        ],
        ModOp::Slew => seq![level(key, "rise"@, "rise"@, p0), level(key, "fall"@, "fall"@, p1)],
        ModOp::Rectify => seq![selected(key, "rmode"@, "mode · "@, Selector::RectMode, p0)],
        ModOp::Hold => seq![level(key, "hrate"@, "rate"@, p0)],
    }
}

/// Whether a rack shows what `d` describes, module for module and cable for
/// cable.
pub open spec fn shows<F: Fn(Selector, Param) -> usize>(
    r: RackDescription,
    d: RackSpec,
    cell: F,
) -> bool {
    extends(Seq::empty(), r.modules@, Seq::empty(), r.wires@, d, cell)
}

/// A module with the given faceplate.
fn make_module<F: Fn(Selector, Param) -> usize>(
    key: &str,
    kind: &str,
    title: &str,
    column: usize,
    is_mod: bool,
    knobs: Vec<Knob>,
    structural: Vec<String>,
    Ghost(ks): Ghost<Seq<KnobSpec>>,
    Ghost(cell): Ghost<F>,
) -> (m: RackModule)
    requires
        all_meet(knobs@, ks, cell),
    ensures
        module_meets(
            m,
            ModuleSpec {
                key: key@,
                kind: kind@,
                title: title@,
                column: column as int,
                is_mod,
                knobs: ks,
                structural: string_views(structural@),
            },
            cell,
        ),
{
    RackModule {
        key: String::from_str(key),
        kind: String::from_str(kind),
        title: String::from_str(title),
        column,
        is_mod,
        knobs,
        structural_addrs: structural,
    }
}

/// Append the cables of `kind` from the first `n` children of `key`.
fn push_inputs<F: Fn(Selector, Param) -> usize>(
    out: &mut RackDescription,
    key: &str,
    n: usize,
    kind: &str,
    Ghost(cell): Ghost<F>,
)
    ensures
        extends(
            old(out).modules@,
            final(out).modules@,
            old(out).wires@,
            final(out).wires@,
            RackSpec { modules: Seq::empty(), wires: inputs_to(key@, n as nat, kind@) },
            cell,
        ),
{
    let ghost m0 = out.modules@;
    let ghost w0 = out.wires@;
    let mut i: usize = 0;
    proof {
        assert(inputs_to(key@, 0, kind@) =~= Seq::empty());
        lemma_extends_nothing(m0, w0, cell);
    }
    while i < n
        invariant
            i <= n,
            extends(
                m0,
                out.modules@,
                w0,
                out.wires@,
                RackSpec { modules: Seq::empty(), wires: inputs_to(key@, i as nat, kind@) },
                cell,
            ),
        decreases n - i,
    {
        let ghost m1 = out.modules@;
        let ghost w1 = out.wires@;
        let from = child_key(key, i);
        push_wire::<F>(out, from, String::from_str(key), kind, Ghost(cell));
        proof {
            let before = RackSpec { modules: Seq::empty(), wires: inputs_to(key@, i as nat, kind@) };
            let one = RackSpec {
                modules: Seq::empty(),
                wires: seq![WireSpec { from: spec_child_key(key@, i as nat), to: key@, kind: kind@ }],
            };
            lemma_extends_chain(m0, m1, out.modules@, w0, w1, out.wires@, before, one, cell);
            assert(join(before, one).modules =~= Seq::<ModuleSpec>::empty());
            assert(join(before, one).wires =~= inputs_to(key@, (i + 1) as nat, kind@));
        }
        i = i + 1;
    }
}

/// Append an audio module, the cables from its `inputs` children, and its
/// modulation slot.
fn push_head<F: Fn(Selector, Param) -> usize>(
    out: &mut RackDescription,
    key: &str,
    column: usize,
    kind: &str,
    title: &str,
    knobs: Vec<Knob>,
    tag: &str,
    inputs: usize,
    slot: Option<&ModNode>,
    Ghost(ks): Ghost<Seq<KnobSpec>>,
    cell: &F,
)
    requires
        all_meet(knobs@, ks, *cell),
        forall|s: Selector, b: Param| call_requires(*cell, (s, b)),
        slot matches Some(m) ==> column + 1 + m.spec_site_count() <= usize::MAX,
    ensures
        extends(
            old(out).modules@,
            final(out).modules@,
            old(out).wires@,
            final(out).wires@,
            head(
                key@,
                column as int,
                kind@,
                title@,
                ks,
                tag@,
                inputs as nat,
                match slot {
                    Some(m) => Some(*m),
                    None => None,
                },
            ),
            *cell,
        ),
{
    let ghost gslot = match slot {
        Some(m) => Some(*m),
        None => None,
    };
    let ghost m0 = out.modules@;
    let ghost w0 = out.wires@;
    let mut structural = vec![knob_address(key, "leaf"), knob_address(key, tag)];
    if let Some(ModNode::Empty) = slot {
        let mk = mod_key(key);
        structural.push(knob_address(mk.as_str(), "mod"));
    }
    proof {
        reveal_strlit("mod");
        assert(string_views(structural@) =~= owned_sites(key@, tag@, gslot));
    }
    let module = make_module::<F>(key, kind, title, column, false, knobs, structural, Ghost(ks), Ghost(*cell));
    let ghost ms = ModuleSpec {
        key: key@,
        kind: kind@,
        title: title@,
        column: column as int,
        is_mod: false,
        knobs: ks,
        structural: owned_sites(key@, tag@, gslot),
    };
    push_module::<F>(out, module, Ghost(ms), Ghost(*cell));
    let ghost m1 = out.modules@;
    let ghost w1 = out.wires@;
    push_inputs::<F>(out, key, inputs, "audio", Ghost(*cell));
    let ghost m2 = out.modules@;
    let ghost w2 = out.wires@;
    let ghost d1 = RackSpec { modules: seq![ms], wires: Seq::empty() };
    let ghost d2 = RackSpec { modules: Seq::empty(), wires: inputs_to(key@, inputs as nat, "audio"@) };
    proof {
        lemma_extends_chain(m0, m1, m2, w0, w1, w2, d1, d2, *cell);
        assert(join(d1, d2).modules =~= seq![ms]);
        assert(join(d1, d2).wires =~= inputs_to(key@, inputs as nat, "audio"@));
    }
    let ghost d12 = RackSpec { modules: seq![ms], wires: inputs_to(key@, inputs as nat, "audio"@) };
    match slot {
        Some(m) => {
            let mk = mod_key(key);
            describe_mod(m, mk.as_str(), key, column + 1, out, cell);
            proof {
                lemma_extends_chain(
                    m0,
                    m2,
                    out.modules@,
                    w0,
                    w2,
                    out.wires@,
                    d12,
                    spec_describe_mod(*m, spec_mod_key(key@), key@, column + 1),
                    *cell,
                );
            }
        },
        None => {
            proof {
                lemma_extends_nothing(m2, w2, *cell);
                lemma_extends_chain(m0, m2, m2, w0, w2, w2, d12, nothing(), *cell);
                assert(join(d12, nothing()).modules =~= d12.modules);
                assert(join(d12, nothing()).wires =~= d12.wires);
            }
        },
    }
}

/// Append a modulation module feeding `parent` and the cables from its
/// `inputs` subterms.
fn push_mod_head<F: Fn(Selector, Param) -> usize>(
    out: &mut RackDescription,
    key: &str,
    parent: &str,
    column: usize,
    kind: &str,
    title: &str,
    knobs: Vec<Knob>,
    tag: Option<&str>,
    inputs: usize,
    Ghost(ks): Ghost<Seq<KnobSpec>>,
    cell: &F,
)
    requires
        all_meet(knobs@, ks, *cell),
    ensures
        extends(
            old(out).modules@,
            final(out).modules@,
            old(out).wires@,
            final(out).wires@,
            mod_head(
                key@,
                parent@,
                column as int,
                kind@,
                title@,
                ks,
                match tag {
                    Some(t) => Some(t@),
                    None => None,
                },
                inputs as nat,
            ),
            *cell,
        ),
{
    let ghost gtag = match tag {
        Some(t) => Some(t@),
        None => None,
    };
    let ghost m0 = out.modules@;
    let ghost w0 = out.wires@;
    let mut structural = vec![knob_address(key, "mod")];
    if let Some(t) = tag {
        structural.push(knob_address(key, t));
    }
    let ghost own = seq![key@ + "#"@ + "mod"@];
    let ghost sites = match gtag {
        Some(t) => own.push(key@ + "#"@ + t),
        None => own,
    };
    proof {
        assert(string_views(structural@) =~= sites);
    }
    let module = make_module::<F>(key, kind, title, column, true, knobs, structural, Ghost(ks), Ghost(*cell));
    let ghost ms = ModuleSpec {
        key: key@,
        kind: kind@,
        title: title@,
        column: column as int,
        is_mod: true,
        knobs: ks,
        structural: sites,
    };
    push_module::<F>(out, module, Ghost(ms), Ghost(*cell));
    let ghost m1 = out.modules@;
    let ghost w1 = out.wires@;
    push_wire::<F>(out, String::from_str(key), String::from_str(parent), "mod", Ghost(*cell));
    let ghost m2 = out.modules@;
    let ghost w2 = out.wires@;
    push_inputs::<F>(out, key, inputs, "mod", Ghost(*cell));
    proof {
        let d1 = RackSpec { modules: seq![ms], wires: Seq::empty() };
        let d2 = RackSpec { modules: Seq::empty(), wires: seq![wire(key@, parent@, "mod"@)] };
        let d3 = RackSpec { modules: Seq::empty(), wires: inputs_to(key@, inputs as nat, "mod"@) };
        lemma_extends_chain(m0, m1, m2, w0, w1, w2, d1, d2, *cell);
        lemma_extends_chain(m0, m2, out.modules@, w0, w2, out.wires@, join(d1, d2), d3, *cell);
        let target = mod_head(key@, parent@, column as int, kind@, title@, ks, gtag, inputs as nat);
        assert(join(join(d1, d2), d3).modules =~= target.modules);
        assert(join(join(d1, d2), d3).wires =~= target.wires);
    }
}

/// What the modulation term `m` at `key`, feeding `parent`, shows: its
/// module, a `mod` cable into `parent`, and below a processor the cables
/// from its subterms and the subterms themselves, one column further out.
/// An empty slot shows nothing.
pub open spec fn spec_describe_mod(m: ModNode, key: Seq<char>, parent: Seq<char>, column: int) -> RackSpec
    decreases m,
{
    match m {
        ModNode::Empty => nothing(),
        ModNode::Lfo { wave, rate } => mod_head(
            key,
            parent,
            column,
            "lfo"@,
            "lfo"@,
            seq![choice(key, "wave"@, "wave"@, (wave).spec_index(), spec_waveform_options()), level(key, "rate"@, "rate"@, rate)],
            None,
            0,
        ),
        ModNode::Env { attack, decay } => mod_head(
            key,
            parent,
            column,
            "modenv"@,
            "mod env"@,
            seq![level(key, "att"@, "attack"@, attack), level(key, "dec"@, "decay"@, decay)],
            None,
            0,
        ),
        ModNode::Rand { rate, glide } => mod_head(
            key,
            parent,
            column,
            "rand"@,
            "s&h rand"@,
            seq![level(key, "rate"@, "rate"@, rate), level(key, "glide"@, "glide"@, glide)],
            None,
            0,
        ),
        ModNode::Follow { sens, release } => mod_head(
            key,
            parent,
            column,
            "follow"@,
            "follower"@,
            seq![level(key, "sens"@, "sens"@, sens), level(key, "rel"@, "release"@, release)],
            None,
            0,
        ),
        ModNode::Euclid { rate, steps, pulses } => mod_head(
            key,
            parent,
            column,
            "euclid"@,
            "euclid"@,
            seq![level(key, "erate"@, "rate"@, rate), level(key, "esteps"@, "steps"@, steps), level(key, "epulses"@, "pulses"@, pulses)],
            None,
            0,
        ),
        ModNode::Op { kind, p0, p1, input } => join(
            mod_head(
                key,
                parent,
                column,
                kind.spec_label(),
                kind.spec_label(),
                op_knobs(kind, key, p0, p1),
                Some("modop"@),
                1,
            ),
            spec_describe_mod(*input, spec_child_key(key, 0), key, column + 1),
        ),
        ModNode::Pair { kind, a, b } => join(
            join(
                mod_head(
                    key,
                    parent,
                    column,
                    kind.spec_label(),
                    kind.spec_label(),
                    Seq::empty(),
                    Some("pairop"@),
                    2,
                ),
                spec_describe_mod(*a, spec_child_key(key, 0), key, column + 1),
            ),
            spec_describe_mod(*b, spec_child_key(key, 1), key, column + 1),
        ),
    }
}


/// What the audio node `n` at `key` shows: its module, the cables from its
/// inputs, what its modulation slot holds, and then its inputs in order, one
/// column further out.
pub open spec fn spec_describe_node(n: AudioNode, key: Seq<char>, column: int) -> RackSpec
    decreases n,
{
    match n {
        AudioNode::Vco { wave, octave, detune, mod_depth, modulation } => head(
                key,
                column,
                "vco"@,
                "vco"@,
                seq![choice(key, "wave"@, "wave"@, (wave).spec_index(), spec_waveform_options()), octave_knob(key, octave), level(key, "det"@, "detune"@, detune), level(key, "mdepth"@, "mod depth"@, mod_depth)],
                "src"@,
                0,
                Some(modulation),
            ),
        AudioNode::Supersaw { octave, detune, mix, mod_depth, modulation } => head(
                key,
                column,
                "supersaw"@,
                "supersaw"@,
                seq![octave_knob(key, octave), level(key, "det"@, "detune"@, detune), level(key, "smix"@, "mix"@, mix), level(key, "mdepth"@, "mod depth"@, mod_depth)],
                "src"@,
                0,
                Some(modulation),
            ),
        AudioNode::Noise { color } => head(
                key,
                column,
                "noise"@,
                "noise"@,
                seq![choice(key, "color"@, "color"@, (color).spec_index(), spec_noise_options())],
                "src"@,
                0,
                None,
            ),
        AudioNode::Wavetable { table, octave, morph, mod_depth, modulation } => head(
                key,
                column,
                "wavetable"@,
                "wavetable"@,
                seq![choice(key, "table"@, "table"@, (table).spec_index(), spec_table_options()), octave_knob(key, octave), level(key, "morph"@, "morph"@, morph), level(key, "mdepth"@, "mod depth"@, mod_depth)],
                "src"@,
                0,
                Some(modulation),
            ),
        AudioNode::Pluck { octave, damping, brightness, mod_depth, modulation } => head(
                key,
                column,
                "pluck"@,
                "pluck"@,
                seq![octave_knob(key, octave), level(key, "damp"@, "decay"@, damping), level(key, "bright"@, "brightness"@, brightness), level(key, "mdepth"@, "mod depth"@, mod_depth)],
                "src"@,
                0,
                Some(modulation),
            ),
        AudioNode::Formant { vowel, shift, octave, mod_depth, modulation } => head(
                key,
                column,
                "formant"@,
                "formant"@,
                seq![level(key, "vowel"@, "vowel"@, vowel), level(key, "fshift"@, "shift"@, shift), octave_knob(key, octave), level(key, "mdepth"@, "mod depth"@, mod_depth)],
                "src"@,
                0,
                Some(modulation),
            ),
        AudioNode::Mix { balance, a, b } => join(
            join(
            head(
                key,
                column,
                "mix"@,
                "mix"@,
                seq![level(key, "bal"@, "balance"@, balance)],
                "op"@,
                2,
                None,
            ),
            spec_describe_node(*a, spec_child_key(key, 0), column + 1),
        ),
            spec_describe_node(*b, spec_child_key(key, 1), column + 1),
        ),
        AudioNode::Filter { kind, cutoff, resonance, mod_depth, input, modulation } => join(
            head(
                key,
                column,
                "filter"@,
                if kind == FilterKind::Ladder { "ladder"@ } else { "filter"@ },
                seq![choice(key, "fkind"@, "mode"@, (kind).spec_index(), spec_filter_options()), level(key, "cut"@, "cutoff"@, cutoff), level(key, "res"@, "resonance"@, resonance), level(key, "mdepth"@, "mod depth"@, mod_depth)],
                "op"@,
                1,
                Some(modulation),
            ),
            spec_describe_node(*input, spec_child_key(key, 0), column + 1),
        ),
        AudioNode::Fold { threshold, mod_depth, input, modulation } => join(
            head(
                key,
                column,
                "fold"@,
                "wavefolder"@,
                seq![level(key, "thresh"@, "fold"@, threshold), level(key, "mdepth"@, "mod depth"@, mod_depth)],
                "op"@,
                1,
                Some(modulation),
            ),
            spec_describe_node(*input, spec_child_key(key, 0), column + 1),
        ),
        AudioNode::Delay { time, feedback, mix, mod_depth, input, modulation } => join(
            head(
                key,
                column,
                "delay"@,
                "delay"@,
                seq![level(key, "time"@, "time"@, time), level(key, "fb"@, "feedback"@, feedback), level(key, "dmix"@, "mix"@, mix), level(key, "mdepth"@, "mod depth"@, mod_depth)],
                "op"@,
                1,
                Some(modulation),
            ),
            spec_describe_node(*input, spec_child_key(key, 0), column + 1),
        ),
        AudioNode::Chorus { rate, depth, mix, mod_depth, input, modulation } => join(
            head(
                key,
                column,
                "chorus"@,
                "chorus"@,
                seq![level(key, "crate"@, "rate"@, rate), level(key, "cdepth"@, "depth"@, depth), level(key, "cmix"@, "mix"@, mix), level(key, "mdepth"@, "mod depth"@, mod_depth)],
                "op"@,
                1,
                Some(modulation),
            ),
            spec_describe_node(*input, spec_child_key(key, 0), column + 1),
        ),
        AudioNode::Reverb { size, damp, mix, mod_depth, input, modulation } => join(
            head(
                key,
                column,
                "reverb"@,
                "reverb"@,
                seq![level(key, "rsize"@, "size"@, size), level(key, "rdamp"@, "damp"@, damp), level(key, "rmix"@, "mix"@, mix), level(key, "mdepth"@, "mod depth"@, mod_depth)],
                "op"@,
                1,
                Some(modulation),
            ),
            spec_describe_node(*input, spec_child_key(key, 0), column + 1),
        ),
        AudioNode::Distortion { drive, tone, mode, mod_depth, input, modulation } => join(
            head(
                key,
                column,
                "distortion"@,
                "distortion"@,
                seq![level(key, "drive"@, "drive"@, drive), level(key, "tone"@, "tone"@, tone), choice(key, "dmode"@, "mode"@, (mode).spec_index(), spec_drive_mode_options()), level(key, "mdepth"@, "mod depth"@, mod_depth)],
                "op"@,
                1,
                Some(modulation),
            ),
            spec_describe_node(*input, spec_child_key(key, 0), column + 1),
        ),
        AudioNode::Bitcrush { bits, downsample, mod_depth, input, modulation } => join(
            head(
                key,
                column,
                "bitcrush"@,
                "bitcrush"@,
                seq![level(key, "bits"@, "bits"@, bits), level(key, "dsamp"@, "rate"@, downsample), level(key, "mdepth"@, "mod depth"@, mod_depth)],
                "op"@,
                1,
                Some(modulation),
            ),
            spec_describe_node(*input, spec_child_key(key, 0), column + 1),
        ),
        AudioNode::Phaser { rate, depth, feedback, mod_depth, input, modulation } => join(
            head(
                key,
                column,
                "phaser"@,
                "phaser"@,
                seq![level(key, "prate"@, "rate"@, rate), level(key, "pdepth"@, "depth"@, depth), level(key, "pfb"@, "feedback"@, feedback), level(key, "mdepth"@, "mod depth"@, mod_depth)],
                "op"@,
                1,
                Some(modulation),
            ),
            spec_describe_node(*input, spec_child_key(key, 0), column + 1),
        ),
        AudioNode::RingMod { mix, a, b } => join(
            join(
            head(
                key,
                column,
                "ringmod"@,
                "ring mod"@,
                seq![level(key, "rgmix"@, "mix"@, mix)],
                "op"@,
                2,
                None,
            ),
            spec_describe_node(*a, spec_child_key(key, 0), column + 1),
        ),
            spec_describe_node(*b, spec_child_key(key, 1), column + 1),
        ),
        AudioNode::Flanger { rate, depth, feedback, mod_depth, input, modulation } => join(
            head(
                key,
                column,
                "flanger"@,
                "flanger"@,
                seq![level(key, "frate"@, "rate"@, rate), level(key, "fdepth"@, "depth"@, depth), level(key, "ffb"@, "feedback"@, feedback), level(key, "mdepth"@, "mod depth"@, mod_depth)],
                "op"@,
                1,
                Some(modulation),
            ),
            spec_describe_node(*input, spec_child_key(key, 0), column + 1),
        ),
        AudioNode::Tremolo { rate, depth, shape, mod_depth, input, modulation } => join(
            head(
                key,
                column,
                "tremolo"@,
                "tremolo"@,
                seq![level(key, "trate"@, "rate"@, rate), level(key, "tdepth"@, "depth"@, depth), level(key, "tshape"@, "shape"@, shape), level(key, "mdepth"@, "mod depth"@, mod_depth)],
                "op"@,
                1,
                Some(modulation),
            ),
            spec_describe_node(*input, spec_child_key(key, 0), column + 1),
        ),
        AudioNode::Vibrato { rate, depth, mix, mod_depth, input, modulation } => join(
            head(
                key,
                column,
                "vibrato"@,
                "vibrato"@,
                seq![level(key, "vrate"@, "rate"@, rate), level(key, "vdepth"@, "depth"@, depth), level(key, "vmix"@, "mix"@, mix), level(key, "mdepth"@, "mod depth"@, mod_depth)],
                "op"@,
                1,
                Some(modulation),
            ),
            spec_describe_node(*input, spec_child_key(key, 0), column + 1),
        ),
        AudioNode::Eq { low, mid, high, mod_depth, input, modulation } => join(
            head(
                key,
                column,
                "eq"@,
                "eq"@,
                seq![level(key, "low"@, "low"@, low), level(key, "mid"@, "mid"@, mid), level(key, "high"@, "high"@, high), level(key, "mdepth"@, "mod depth"@, mod_depth)],
                "op"@,
                1,
                Some(modulation),
            ),
            spec_describe_node(*input, spec_child_key(key, 0), column + 1),
        ),
        AudioNode::Granular { position, size, density, mod_depth, input, modulation } => join(
            head(
                key,
                column,
                "granular"@,
                "granular"@,
                seq![level(key, "gpos"@, "position"@, position), level(key, "gsize"@, "size"@, size), level(key, "gdens"@, "density"@, density), level(key, "mdepth"@, "mod depth"@, mod_depth)],
                "op"@,
                1,
                Some(modulation),
            ),
            spec_describe_node(*input, spec_child_key(key, 0), column + 1),
        ),
        AudioNode::Shift { semis, window, mix, mod_depth, input, modulation } => join(
            head(
                key,
                column,
                "shift"@,
                "pitch shift"@,
                seq![level(key, "semis"@, "shift"@, semis), level(key, "window"@, "window"@, window), level(key, "smix"@, "mix"@, mix), level(key, "mdepth"@, "mod depth"@, mod_depth)],
                "op"@,
                1,
                Some(modulation),
            ),
            spec_describe_node(*input, spec_child_key(key, 0), column + 1),
        ),
        AudioNode::Comp { threshold, ratio, makeup, mod_depth, input, sidechain, modulation } => join(
            join(
            head(
                key,
                column,
                "comp"@,
                "compressor"@,
                seq![level(key, "thresh"@, "threshold"@, threshold), level(key, "ratio"@, "ratio"@, ratio), level(key, "makeup"@, "makeup"@, makeup), level(key, "mdepth"@, "mod depth"@, mod_depth)],
                "op"@,
                2,
                Some(modulation),
            ),
            spec_describe_node(*input, spec_child_key(key, 0), column + 1),
        ),
            spec_describe_node(*sidechain, spec_child_key(key, 1), column + 1),
        ),
        AudioNode::Duck { amount, threshold, release, mod_depth, input, key: key_input, modulation } => join(
            join(
            head(
                key,
                column,
                "duck"@,
                "ducker"@,
                seq![level(key, "amount"@, "amount"@, amount), level(key, "dthresh"@, "threshold"@, threshold), level(key, "drel"@, "release"@, release), level(key, "mdepth"@, "mod depth"@, mod_depth)],
                "op"@,
                2,
                Some(modulation),
            ),
            spec_describe_node(*input, spec_child_key(key, 0), column + 1),
        ),
            spec_describe_node(*key_input, spec_child_key(key, 1), column + 1),
        ),
        AudioNode::Gate { threshold, range, release, mod_depth, input, sidechain, modulation } => join(
            join(
            head(
                key,
                column,
                "gate"@,
                "gate"@,
                seq![level(key, "gthresh"@, "threshold"@, threshold), level(key, "range"@, "range"@, range), level(key, "grel"@, "release"@, release), level(key, "mdepth"@, "mod depth"@, mod_depth)],
                "op"@,
                2,
                Some(modulation),
            ),
            spec_describe_node(*input, spec_child_key(key, 0), column + 1),
        ),
            spec_describe_node(*sidechain, spec_child_key(key, 1), column + 1),
        ),
        AudioNode::Vocoder { bands, attack, release, mod_depth, carrier, modulator, modulation } => join(
            join(
            head(
                key,
                column,
                "vocoder"@,
                "vocoder"@,
                seq![level(key, "bands"@, "bands"@, bands), level(key, "vatt"@, "attack"@, attack), level(key, "vrel"@, "release"@, release), level(key, "mdepth"@, "mod depth"@, mod_depth)],
                "op"@,
                2,
                Some(modulation),
            ),
            spec_describe_node(*carrier, spec_child_key(key, 0), column + 1),
        ),
            spec_describe_node(*modulator, spec_child_key(key, 1), column + 1),
        ),
    }
}


/// Describe a modulation term as a chain of modules feeding `parent`.
fn describe_mod<F: Fn(Selector, Param) -> usize>(
    m: &ModNode,
    key: &str,
    parent: &str,
    column: usize,
    out: &mut RackDescription,
    cell: &F,
)
    requires
        forall|s: Selector, b: Param| call_requires(*cell, (s, b)),
        column + m.spec_site_count() <= usize::MAX,
    ensures
        extends(
            old(out).modules@,
            final(out).modules@,
            old(out).wires@,
            final(out).wires@,
            spec_describe_mod(*m, key@, parent@, column as int),
            *cell,
        ),
    decreases m,
{
    let ghost m0 = out.modules@;
    let ghost w0 = out.wires@;
    match m {
        ModNode::Empty => {
            proof {
                lemma_extends_nothing(m0, w0, *cell);
            }
        },
        ModNode::Lfo { wave, rate } => {
            let k0 = knob_e(key, "wave", "wave", wave.index(), waveform_options());
            let k1 = knob_c(key, "rate", "rate", *rate);
            let ghost ks = seq![choice(key@, "wave"@, "wave"@, (*wave).spec_index(), spec_waveform_options()), level(key@, "rate"@, "rate"@, *rate)];
            let knobs = vec![k0, k1];
            proof {
                assert forall|i: int| 0 <= i < ks.len() implies knob_meets(#[trigger] knobs@[i], ks[i], *cell) by {
                    if i == 0 {} else {}
                }
            }
            push_mod_head(out, key, parent, column, "lfo", "lfo", knobs, None, 0, Ghost(ks), cell);
        },
        ModNode::Env { attack, decay } => {
            let k0 = knob_c(key, "att", "attack", *attack);
            let k1 = knob_c(key, "dec", "decay", *decay);
            let ghost ks = seq![level(key@, "att"@, "attack"@, *attack), level(key@, "dec"@, "decay"@, *decay)];
            let knobs = vec![k0, k1];
            proof {
                assert forall|i: int| 0 <= i < ks.len() implies knob_meets(#[trigger] knobs@[i], ks[i], *cell) by {
                    if i == 0 {} else {}
                }
            }
            push_mod_head(out, key, parent, column, "modenv", "mod env", knobs, None, 0, Ghost(ks), cell);
        },
        ModNode::Rand { rate, glide } => {
            let k0 = knob_c(key, "rate", "rate", *rate);
            let k1 = knob_c(key, "glide", "glide", *glide);
            let ghost ks = seq![level(key@, "rate"@, "rate"@, *rate), level(key@, "glide"@, "glide"@, *glide)];
            let knobs = vec![k0, k1];
            proof {
                assert forall|i: int| 0 <= i < ks.len() implies knob_meets(#[trigger] knobs@[i], ks[i], *cell) by {
                    if i == 0 {} else {}
                }
            }
            push_mod_head(out, key, parent, column, "rand", "s&h rand", knobs, None, 0, Ghost(ks), cell);
        },
        ModNode::Follow { sens, release } => {
            let k0 = knob_c(key, "sens", "sens", *sens);
            let k1 = knob_c(key, "rel", "release", *release);
            let ghost ks = seq![level(key@, "sens"@, "sens"@, *sens), level(key@, "rel"@, "release"@, *release)];
            let knobs = vec![k0, k1];
            proof {
                assert forall|i: int| 0 <= i < ks.len() implies knob_meets(#[trigger] knobs@[i], ks[i], *cell) by {
                    if i == 0 {} else {}
                }
            }
            push_mod_head(out, key, parent, column, "follow", "follower", knobs, None, 0, Ghost(ks), cell);
        },
        ModNode::Euclid { rate, steps, pulses } => {
            let k0 = knob_c(key, "erate", "rate", *rate);
            let k1 = knob_c(key, "esteps", "steps", *steps);
            let k2 = knob_c(key, "epulses", "pulses", *pulses);
            let ghost ks = seq![level(key@, "erate"@, "rate"@, *rate), level(key@, "esteps"@, "steps"@, *steps), level(key@, "epulses"@, "pulses"@, *pulses)];
            let knobs = vec![k0, k1, k2];
            proof {
                assert forall|i: int| 0 <= i < ks.len() implies knob_meets(#[trigger] knobs@[i], ks[i], *cell) by {
                    if i == 0 {} else if i == 1 {} else {}
                }
            }
            push_mod_head(out, key, parent, column, "euclid", "euclid", knobs, None, 0, Ghost(ks), cell);
        },
        ModNode::Op { kind, p0, p1, input } => {
            let knobs = make_op_knobs(*kind, key, *p0, *p1, cell);
            let label = kind.label();
            push_mod_head(
                out,
                key,
                parent,
                column,
                label,
                label,
                knobs,
                Some("modop"),
                1,
                Ghost(op_knobs(*kind, key@, *p0, *p1)),
                cell,
            );
            let ghost m1 = out.modules@;
            let ghost w1 = out.wires@;
            let child = child_key(key, 0);
            describe_mod(input, child.as_str(), key, column + 1, out, cell);
            proof {
                lemma_extends_chain(
                    m0,
                    m1,
                    out.modules@,
                    w0,
                    w1,
                    out.wires@,
                    mod_head(
                        key@,
                        parent@,
                        column as int,
                        kind.spec_label(),
                        kind.spec_label(),
                        op_knobs(*kind, key@, *p0, *p1),
                        Some("modop"@),
                        1,
                    ),
                    spec_describe_mod(**input, spec_child_key(key@, 0), key@, column + 1),
                    *cell,
                );
            }
        },
        ModNode::Pair { kind, a, b } => {
            let label = kind.label();
            let knobs: Vec<Knob> = Vec::new();
            proof {
                assert(all_meet(knobs@, Seq::<KnobSpec>::empty(), *cell));
            }
            push_mod_head(
                out,
                key,
                parent,
                column,
                label,
                label,
                knobs,
                Some("pairop"),
                2,
                Ghost(Seq::empty()),
                cell,
            );
            let ghost h = mod_head(
                key@,
                parent@,
                column as int,
                kind.spec_label(),
                kind.spec_label(),
                Seq::empty(),
                Some("pairop"@),
                2,
            );
            let ghost m1 = out.modules@;
            let ghost w1 = out.wires@;
            let ka = child_key(key, 0);
            describe_mod(a, ka.as_str(), key, column + 1, out, cell);
            let ghost da = spec_describe_mod(**a, spec_child_key(key@, 0), key@, column + 1);
            proof {
                lemma_extends_chain(m0, m1, out.modules@, w0, w1, out.wires@, h, da, *cell);
            }
            let ghost m2 = out.modules@;
            let ghost w2 = out.wires@;
            let kb = child_key(key, 1);
            describe_mod(b, kb.as_str(), key, column + 1, out, cell);
            proof {
                lemma_extends_chain(
                    m0,
                    m2,
                    out.modules@,
                    w0,
                    w2,
                    out.wires@,
                    join(h, da),
                    spec_describe_mod(**b, spec_child_key(key@, 1), key@, column + 1),
                    *cell,
                );
            }
        },
    }
}


/// Describe an audio node and everything below it, root-first depth-first.
#[verifier::rlimit(60)]
fn describe_node<F: Fn(Selector, Param) -> usize>(
    n: &AudioNode,
    key: &str,
    column: usize,
    out: &mut RackDescription,
    cell: &F,
)
    requires
        forall|s: Selector, b: Param| call_requires(*cell, (s, b)),
        column + n.spec_site_count() <= usize::MAX,
    ensures
        extends(
            old(out).modules@,
            final(out).modules@,
            old(out).wires@,
            final(out).wires@,
            spec_describe_node(*n, key@, column as int),
            *cell,
        ),
    decreases n,
{
    let ghost m0 = out.modules@;
    let ghost w0 = out.wires@;
    match n {
        AudioNode::Vco { wave, octave, detune, mod_depth, modulation } => {
            let k0 = knob_e(key, "wave", "wave", wave.index(), waveform_options());
            let k1 = knob_oct(key, *octave);
            let k2 = knob_c(key, "det", "detune", *detune);
            let k3 = knob_c(key, "mdepth", "mod depth", *mod_depth);
            let ghost ks = seq![choice(key@, "wave"@, "wave"@, (*wave).spec_index(), spec_waveform_options()), octave_knob(key@, *octave), level(key@, "det"@, "detune"@, *detune), level(key@, "mdepth"@, "mod depth"@, *mod_depth)];
            let knobs = vec![k0, k1, k2, k3];
            proof {
                assert forall|i: int| 0 <= i < ks.len() implies knob_meets(#[trigger] knobs@[i], ks[i], *cell) by {
                    if i == 0 {} else if i == 1 {} else if i == 2 {} else {}
                }
            }
            push_head(out, key, column, "vco", "vco", knobs, "src", 0, Some(modulation), Ghost(ks), cell);
        },
        AudioNode::Supersaw { octave, detune, mix, mod_depth, modulation } => {
            let k0 = knob_oct(key, *octave);
            let k1 = knob_c(key, "det", "detune", *detune);
            let k2 = knob_c(key, "smix", "mix", *mix);
            let k3 = knob_c(key, "mdepth", "mod depth", *mod_depth);
            let ghost ks = seq![octave_knob(key@, *octave), level(key@, "det"@, "detune"@, *detune), level(key@, "smix"@, "mix"@, *mix), level(key@, "mdepth"@, "mod depth"@, *mod_depth)];
            let knobs = vec![k0, k1, k2, k3];
            proof {
                assert forall|i: int| 0 <= i < ks.len() implies knob_meets(#[trigger] knobs@[i], ks[i], *cell) by {
                    if i == 0 {} else if i == 1 {} else if i == 2 {} else {}
                }
            }
            push_head(out, key, column, "supersaw", "supersaw", knobs, "src", 0, Some(modulation), Ghost(ks), cell);
        },
        AudioNode::Noise { color } => {
            let k0 = knob_e(key, "color", "color", color.index(), noise_options());
            let ghost ks = seq![choice(key@, "color"@, "color"@, (*color).spec_index(), spec_noise_options())];
            let knobs = vec![k0];
            proof {
                assert forall|i: int| 0 <= i < ks.len() implies knob_meets(#[trigger] knobs@[i], ks[i], *cell) by {
                    {}
                }
            }
            push_head(out, key, column, "noise", "noise", knobs, "src", 0, None, Ghost(ks), cell);
        },
        AudioNode::Wavetable { table, octave, morph, mod_depth, modulation } => {
            let k0 = knob_e(key, "table", "table", table.index(), table_options());
            let k1 = knob_oct(key, *octave);
            let k2 = knob_c(key, "morph", "morph", *morph);
            let k3 = knob_c(key, "mdepth", "mod depth", *mod_depth);
            let ghost ks = seq![choice(key@, "table"@, "table"@, (*table).spec_index(), spec_table_options()), octave_knob(key@, *octave), level(key@, "morph"@, "morph"@, *morph), level(key@, "mdepth"@, "mod depth"@, *mod_depth)];
            let knobs = vec![k0, k1, k2, k3];
            proof {
                assert forall|i: int| 0 <= i < ks.len() implies knob_meets(#[trigger] knobs@[i], ks[i], *cell) by {
                    if i == 0 {} else if i == 1 {} else if i == 2 {} else {}
                }
            }
            push_head(out, key, column, "wavetable", "wavetable", knobs, "src", 0, Some(modulation), Ghost(ks), cell);
        },
        AudioNode::Pluck { octave, damping, brightness, mod_depth, modulation } => {
            let k0 = knob_oct(key, *octave);
            let k1 = knob_c(key, "damp", "decay", *damping);
            let k2 = knob_c(key, "bright", "brightness", *brightness);
            let k3 = knob_c(key, "mdepth", "mod depth", *mod_depth);
            let ghost ks = seq![octave_knob(key@, *octave), level(key@, "damp"@, "decay"@, *damping), level(key@, "bright"@, "brightness"@, *brightness), level(key@, "mdepth"@, "mod depth"@, *mod_depth)];
            let knobs = vec![k0, k1, k2, k3];
            proof {
                assert forall|i: int| 0 <= i < ks.len() implies knob_meets(#[trigger] knobs@[i], ks[i], *cell) by {
                    if i == 0 {} else if i == 1 {} else if i == 2 {} else {}
                }
            }
            push_head(out, key, column, "pluck", "pluck", knobs, "src", 0, Some(modulation), Ghost(ks), cell);
        },
        AudioNode::Formant { vowel, shift, octave, mod_depth, modulation } => {
            let k0 = knob_c(key, "vowel", "vowel", *vowel);
            let k1 = knob_c(key, "fshift", "shift", *shift);
            let k2 = knob_oct(key, *octave);
            let k3 = knob_c(key, "mdepth", "mod depth", *mod_depth);
            let ghost ks = seq![level(key@, "vowel"@, "vowel"@, *vowel), level(key@, "fshift"@, "shift"@, *shift), octave_knob(key@, *octave), level(key@, "mdepth"@, "mod depth"@, *mod_depth)];
            let knobs = vec![k0, k1, k2, k3];
            proof {
                assert forall|i: int| 0 <= i < ks.len() implies knob_meets(#[trigger] knobs@[i], ks[i], *cell) by {
                    if i == 0 {} else if i == 1 {} else if i == 2 {} else {}
                }
            }
            push_head(out, key, column, "formant", "formant", knobs, "src", 0, Some(modulation), Ghost(ks), cell);
        },
        AudioNode::Mix { balance, a, b } => {
            let k0 = knob_c(key, "bal", "balance", *balance);
            let ghost ks = seq![level(key@, "bal"@, "balance"@, *balance)];
            let knobs = vec![k0];
            proof {
                assert forall|i: int| 0 <= i < ks.len() implies knob_meets(#[trigger] knobs@[i], ks[i], *cell) by {
                    {}
                }
            }
            push_head(out, key, column, "mix", "mix", knobs, "op", 2, None, Ghost(ks), cell);
            let ghost d = head(key@, column as int, "mix"@, "mix"@, ks, "op"@, 2, None);
            let ghost mm = out.modules@;
            let ghost ww = out.wires@;
            let ck = child_key(key, 0);
            describe_node(a, ck.as_str(), column + 1, out, cell);
            let ghost dc = spec_describe_node(**a, spec_child_key(key@, 0), column + 1);
            proof {
                lemma_extends_chain(m0, mm, out.modules@, w0, ww, out.wires@, d, dc, *cell);
            }
            let ghost d = join(d, dc);
            let ghost mm = out.modules@;
            let ghost ww = out.wires@;
            let ck = child_key(key, 1);
            describe_node(b, ck.as_str(), column + 1, out, cell);
            let ghost dc = spec_describe_node(**b, spec_child_key(key@, 1), column + 1);
            proof {
                lemma_extends_chain(m0, mm, out.modules@, w0, ww, out.wires@, d, dc, *cell);
            }
            let ghost d = join(d, dc);
        },
        AudioNode::Filter { kind, cutoff, resonance, mod_depth, input, modulation } => {
            let k0 = knob_e(key, "fkind", "mode", kind.index(), filter_options());
            let k1 = knob_c(key, "cut", "cutoff", *cutoff);
            let k2 = knob_c(key, "res", "resonance", *resonance);
            let k3 = knob_c(key, "mdepth", "mod depth", *mod_depth);
            let ghost ks = seq![choice(key@, "fkind"@, "mode"@, (*kind).spec_index(), spec_filter_options()), level(key@, "cut"@, "cutoff"@, *cutoff), level(key@, "res"@, "resonance"@, *resonance), level(key@, "mdepth"@, "mod depth"@, *mod_depth)];
            let knobs = vec![k0, k1, k2, k3];
            proof {
                assert forall|i: int| 0 <= i < ks.len() implies knob_meets(#[trigger] knobs@[i], ks[i], *cell) by {
                    if i == 0 {} else if i == 1 {} else if i == 2 {} else {}
                }
            }
            let title = match kind {
                FilterKind::Ladder => "ladder",
                _ => "filter",
            };
            push_head(out, key, column, "filter", title, knobs, "op", 1, Some(modulation), Ghost(ks), cell);
            let ghost d = head(key@, column as int, "filter"@, title@, ks, "op"@, 1, Some(*modulation));
            let ghost mm = out.modules@;
            let ghost ww = out.wires@;
            let ck = child_key(key, 0);
            describe_node(input, ck.as_str(), column + 1, out, cell);
            let ghost dc = spec_describe_node(**input, spec_child_key(key@, 0), column + 1);
            proof {
                lemma_extends_chain(m0, mm, out.modules@, w0, ww, out.wires@, d, dc, *cell);
            }
            let ghost d = join(d, dc);
        },
        AudioNode::Fold { threshold, mod_depth, input, modulation } => {
            let k0 = knob_c(key, "thresh", "fold", *threshold);
            let k1 = knob_c(key, "mdepth", "mod depth", *mod_depth);
            let ghost ks = seq![level(key@, "thresh"@, "fold"@, *threshold), level(key@, "mdepth"@, "mod depth"@, *mod_depth)];
            let knobs = vec![k0, k1];
            proof {
                assert forall|i: int| 0 <= i < ks.len() implies knob_meets(#[trigger] knobs@[i], ks[i], *cell) by {
                    if i == 0 {} else {}
                }
            }
            push_head(out, key, column, "fold", "wavefolder", knobs, "op", 1, Some(modulation), Ghost(ks), cell);
            let ghost d = head(key@, column as int, "fold"@, "wavefolder"@, ks, "op"@, 1, Some(*modulation));
            let ghost mm = out.modules@;
            let ghost ww = out.wires@;
            let ck = child_key(key, 0);
            describe_node(input, ck.as_str(), column + 1, out, cell);
            let ghost dc = spec_describe_node(**input, spec_child_key(key@, 0), column + 1);
            proof {
                lemma_extends_chain(m0, mm, out.modules@, w0, ww, out.wires@, d, dc, *cell);
            }
            let ghost d = join(d, dc);
        },
        AudioNode::Delay { time, feedback, mix, mod_depth, input, modulation } => {
            let k0 = knob_c(key, "time", "time", *time);
            let k1 = knob_c(key, "fb", "feedback", *feedback);
            let k2 = knob_c(key, "dmix", "mix", *mix);
            let k3 = knob_c(key, "mdepth", "mod depth", *mod_depth);
            let ghost ks = seq![level(key@, "time"@, "time"@, *time), level(key@, "fb"@, "feedback"@, *feedback), level(key@, "dmix"@, "mix"@, *mix), level(key@, "mdepth"@, "mod depth"@, *mod_depth)];
            let knobs = vec![k0, k1, k2, k3];
            proof {
                assert forall|i: int| 0 <= i < ks.len() implies knob_meets(#[trigger] knobs@[i], ks[i], *cell) by {
                    if i == 0 {} else if i == 1 {} else if i == 2 {} else {}
                }
            }
            push_head(out, key, column, "delay", "delay", knobs, "op", 1, Some(modulation), Ghost(ks), cell);
            let ghost d = head(key@, column as int, "delay"@, "delay"@, ks, "op"@, 1, Some(*modulation));
            let ghost mm = out.modules@;
            let ghost ww = out.wires@;
            let ck = child_key(key, 0);
            describe_node(input, ck.as_str(), column + 1, out, cell);
            let ghost dc = spec_describe_node(**input, spec_child_key(key@, 0), column + 1);
            proof {
                lemma_extends_chain(m0, mm, out.modules@, w0, ww, out.wires@, d, dc, *cell);
            }
            let ghost d = join(d, dc);
        },
        AudioNode::Chorus { rate, depth, mix, mod_depth, input, modulation } => {
            let k0 = knob_c(key, "crate", "rate", *rate);
            let k1 = knob_c(key, "cdepth", "depth", *depth);
            let k2 = knob_c(key, "cmix", "mix", *mix);
            let k3 = knob_c(key, "mdepth", "mod depth", *mod_depth);
            let ghost ks = seq![level(key@, "crate"@, "rate"@, *rate), level(key@, "cdepth"@, "depth"@, *depth), level(key@, "cmix"@, "mix"@, *mix), level(key@, "mdepth"@, "mod depth"@, *mod_depth)];
            let knobs = vec![k0, k1, k2, k3];
            proof {
                assert forall|i: int| 0 <= i < ks.len() implies knob_meets(#[trigger] knobs@[i], ks[i], *cell) by {
                    if i == 0 {} else if i == 1 {} else if i == 2 {} else {}
                }
            }
            push_head(out, key, column, "chorus", "chorus", knobs, "op", 1, Some(modulation), Ghost(ks), cell);
            let ghost d = head(key@, column as int, "chorus"@, "chorus"@, ks, "op"@, 1, Some(*modulation));
            let ghost mm = out.modules@;
            let ghost ww = out.wires@;
            let ck = child_key(key, 0);
            describe_node(input, ck.as_str(), column + 1, out, cell);
            let ghost dc = spec_describe_node(**input, spec_child_key(key@, 0), column + 1);
            proof {
                lemma_extends_chain(m0, mm, out.modules@, w0, ww, out.wires@, d, dc, *cell);
            }
            let ghost d = join(d, dc);
        },
        AudioNode::Reverb { size, damp, mix, mod_depth, input, modulation } => {
            let k0 = knob_c(key, "rsize", "size", *size);
            let k1 = knob_c(key, "rdamp", "damp", *damp);
            let k2 = knob_c(key, "rmix", "mix", *mix);
            let k3 = knob_c(key, "mdepth", "mod depth", *mod_depth);
            let ghost ks = seq![level(key@, "rsize"@, "size"@, *size), level(key@, "rdamp"@, "damp"@, *damp), level(key@, "rmix"@, "mix"@, *mix), level(key@, "mdepth"@, "mod depth"@, *mod_depth)];
            let knobs = vec![k0, k1, k2, k3];
            proof {
                assert forall|i: int| 0 <= i < ks.len() implies knob_meets(#[trigger] knobs@[i], ks[i], *cell) by {
                    if i == 0 {} else if i == 1 {} else if i == 2 {} else {}
                }
            }
            push_head(out, key, column, "reverb", "reverb", knobs, "op", 1, Some(modulation), Ghost(ks), cell);
            let ghost d = head(key@, column as int, "reverb"@, "reverb"@, ks, "op"@, 1, Some(*modulation));
            let ghost mm = out.modules@;
            let ghost ww = out.wires@;
            let ck = child_key(key, 0);
            describe_node(input, ck.as_str(), column + 1, out, cell);
            let ghost dc = spec_describe_node(**input, spec_child_key(key@, 0), column + 1);
            proof {
                lemma_extends_chain(m0, mm, out.modules@, w0, ww, out.wires@, d, dc, *cell);
            }
            let ghost d = join(d, dc);
        },
        AudioNode::Distortion { drive, tone, mode, mod_depth, input, modulation } => {
            let k0 = knob_c(key, "drive", "drive", *drive);
            let k1 = knob_c(key, "tone", "tone", *tone);
            let k2 = knob_e(key, "dmode", "mode", mode.index(), drive_mode_options());
            let k3 = knob_c(key, "mdepth", "mod depth", *mod_depth);
            let ghost ks = seq![level(key@, "drive"@, "drive"@, *drive), level(key@, "tone"@, "tone"@, *tone), choice(key@, "dmode"@, "mode"@, (*mode).spec_index(), spec_drive_mode_options()), level(key@, "mdepth"@, "mod depth"@, *mod_depth)];
            let knobs = vec![k0, k1, k2, k3];
            proof {
                assert forall|i: int| 0 <= i < ks.len() implies knob_meets(#[trigger] knobs@[i], ks[i], *cell) by {
                    if i == 0 {} else if i == 1 {} else if i == 2 {} else {}
                }
            }
            push_head(out, key, column, "distortion", "distortion", knobs, "op", 1, Some(modulation), Ghost(ks), cell);
            let ghost d = head(key@, column as int, "distortion"@, "distortion"@, ks, "op"@, 1, Some(*modulation));
            let ghost mm = out.modules@;
            let ghost ww = out.wires@;
            let ck = child_key(key, 0);
            describe_node(input, ck.as_str(), column + 1, out, cell);
            let ghost dc = spec_describe_node(**input, spec_child_key(key@, 0), column + 1);
            proof {
                lemma_extends_chain(m0, mm, out.modules@, w0, ww, out.wires@, d, dc, *cell);
            }
            let ghost d = join(d, dc);
        },
        AudioNode::Bitcrush { bits, downsample, mod_depth, input, modulation } => {
            let k0 = knob_c(key, "bits", "bits", *bits);
            let k1 = knob_c(key, "dsamp", "rate", *downsample);
            let k2 = knob_c(key, "mdepth", "mod depth", *mod_depth);
            let ghost ks = seq![level(key@, "bits"@, "bits"@, *bits), level(key@, "dsamp"@, "rate"@, *downsample), level(key@, "mdepth"@, "mod depth"@, *mod_depth)];
            let knobs = vec![k0, k1, k2];
            proof {
                assert forall|i: int| 0 <= i < ks.len() implies knob_meets(#[trigger] knobs@[i], ks[i], *cell) by {
                    if i == 0 {} else if i == 1 {} else {}
                }
            }
            push_head(out, key, column, "bitcrush", "bitcrush", knobs, "op", 1, Some(modulation), Ghost(ks), cell);
            let ghost d = head(key@, column as int, "bitcrush"@, "bitcrush"@, ks, "op"@, 1, Some(*modulation));
            let ghost mm = out.modules@;
            let ghost ww = out.wires@;
            let ck = child_key(key, 0);
            describe_node(input, ck.as_str(), column + 1, out, cell);
            let ghost dc = spec_describe_node(**input, spec_child_key(key@, 0), column + 1);
            proof {
                lemma_extends_chain(m0, mm, out.modules@, w0, ww, out.wires@, d, dc, *cell);
            }
            let ghost d = join(d, dc);
        },
        AudioNode::Phaser { rate, depth, feedback, mod_depth, input, modulation } => {
            let k0 = knob_c(key, "prate", "rate", *rate);
            let k1 = knob_c(key, "pdepth", "depth", *depth);
            let k2 = knob_c(key, "pfb", "feedback", *feedback);
            let k3 = knob_c(key, "mdepth", "mod depth", *mod_depth);
            let ghost ks = seq![level(key@, "prate"@, "rate"@, *rate), level(key@, "pdepth"@, "depth"@, *depth), level(key@, "pfb"@, "feedback"@, *feedback), level(key@, "mdepth"@, "mod depth"@, *mod_depth)];
            let knobs = vec![k0, k1, k2, k3];
            proof {
                assert forall|i: int| 0 <= i < ks.len() implies knob_meets(#[trigger] knobs@[i], ks[i], *cell) by {
                    if i == 0 {} else if i == 1 {} else if i == 2 {} else {}
                }
            }
            push_head(out, key, column, "phaser", "phaser", knobs, "op", 1, Some(modulation), Ghost(ks), cell);
            let ghost d = head(key@, column as int, "phaser"@, "phaser"@, ks, "op"@, 1, Some(*modulation));
            let ghost mm = out.modules@;
            let ghost ww = out.wires@;
            let ck = child_key(key, 0);
            describe_node(input, ck.as_str(), column + 1, out, cell);
            let ghost dc = spec_describe_node(**input, spec_child_key(key@, 0), column + 1);
            proof {
                lemma_extends_chain(m0, mm, out.modules@, w0, ww, out.wires@, d, dc, *cell);
            }
            let ghost d = join(d, dc);
        },
        AudioNode::RingMod { mix, a, b } => {
            let k0 = knob_c(key, "rgmix", "mix", *mix);
            let ghost ks = seq![level(key@, "rgmix"@, "mix"@, *mix)];
            let knobs = vec![k0];
            proof {
                assert forall|i: int| 0 <= i < ks.len() implies knob_meets(#[trigger] knobs@[i], ks[i], *cell) by {
                    {}
                }
            }
            push_head(out, key, column, "ringmod", "ring mod", knobs, "op", 2, None, Ghost(ks), cell);
            let ghost d = head(key@, column as int, "ringmod"@, "ring mod"@, ks, "op"@, 2, None);
            let ghost mm = out.modules@;
            let ghost ww = out.wires@;
            let ck = child_key(key, 0);
            describe_node(a, ck.as_str(), column + 1, out, cell);
            let ghost dc = spec_describe_node(**a, spec_child_key(key@, 0), column + 1);
            proof {
                lemma_extends_chain(m0, mm, out.modules@, w0, ww, out.wires@, d, dc, *cell);
            }
            let ghost d = join(d, dc);
            let ghost mm = out.modules@;
            let ghost ww = out.wires@;
            let ck = child_key(key, 1);
            describe_node(b, ck.as_str(), column + 1, out, cell);
            let ghost dc = spec_describe_node(**b, spec_child_key(key@, 1), column + 1);
            proof {
                lemma_extends_chain(m0, mm, out.modules@, w0, ww, out.wires@, d, dc, *cell);
            }
            let ghost d = join(d, dc);
        },
        AudioNode::Flanger { rate, depth, feedback, mod_depth, input, modulation } => {
            let k0 = knob_c(key, "frate", "rate", *rate);
            let k1 = knob_c(key, "fdepth", "depth", *depth);
            let k2 = knob_c(key, "ffb", "feedback", *feedback);
            let k3 = knob_c(key, "mdepth", "mod depth", *mod_depth);
            let ghost ks = seq![level(key@, "frate"@, "rate"@, *rate), level(key@, "fdepth"@, "depth"@, *depth), level(key@, "ffb"@, "feedback"@, *feedback), level(key@, "mdepth"@, "mod depth"@, *mod_depth)];
            let knobs = vec![k0, k1, k2, k3];
            proof {
                assert forall|i: int| 0 <= i < ks.len() implies knob_meets(#[trigger] knobs@[i], ks[i], *cell) by {
                    if i == 0 {} else if i == 1 {} else if i == 2 {} else {}
                }
            }
            push_head(out, key, column, "flanger", "flanger", knobs, "op", 1, Some(modulation), Ghost(ks), cell);
            let ghost d = head(key@, column as int, "flanger"@, "flanger"@, ks, "op"@, 1, Some(*modulation));
            let ghost mm = out.modules@;
            let ghost ww = out.wires@;
            let ck = child_key(key, 0);
            describe_node(input, ck.as_str(), column + 1, out, cell);
            let ghost dc = spec_describe_node(**input, spec_child_key(key@, 0), column + 1);
            proof {
                lemma_extends_chain(m0, mm, out.modules@, w0, ww, out.wires@, d, dc, *cell);
            }
            let ghost d = join(d, dc);
        },
        AudioNode::Tremolo { rate, depth, shape, mod_depth, input, modulation } => {
            let k0 = knob_c(key, "trate", "rate", *rate);
            let k1 = knob_c(key, "tdepth", "depth", *depth);
            let k2 = knob_c(key, "tshape", "shape", *shape);
            let k3 = knob_c(key, "mdepth", "mod depth", *mod_depth);
            let ghost ks = seq![level(key@, "trate"@, "rate"@, *rate), level(key@, "tdepth"@, "depth"@, *depth), level(key@, "tshape"@, "shape"@, *shape), level(key@, "mdepth"@, "mod depth"@, *mod_depth)];
            let knobs = vec![k0, k1, k2, k3];
            proof {
                assert forall|i: int| 0 <= i < ks.len() implies knob_meets(#[trigger] knobs@[i], ks[i], *cell) by {
                    if i == 0 {} else if i == 1 {} else if i == 2 {} else {}
                }
            }
            push_head(out, key, column, "tremolo", "tremolo", knobs, "op", 1, Some(modulation), Ghost(ks), cell);
            let ghost d = head(key@, column as int, "tremolo"@, "tremolo"@, ks, "op"@, 1, Some(*modulation));
            let ghost mm = out.modules@;
            let ghost ww = out.wires@;
            let ck = child_key(key, 0);
            describe_node(input, ck.as_str(), column + 1, out, cell);
            let ghost dc = spec_describe_node(**input, spec_child_key(key@, 0), column + 1);
            proof {
                lemma_extends_chain(m0, mm, out.modules@, w0, ww, out.wires@, d, dc, *cell);
            }
            let ghost d = join(d, dc);
        },
        AudioNode::Vibrato { rate, depth, mix, mod_depth, input, modulation } => {
            let k0 = knob_c(key, "vrate", "rate", *rate);
            let k1 = knob_c(key, "vdepth", "depth", *depth);
            let k2 = knob_c(key, "vmix", "mix", *mix);
            let k3 = knob_c(key, "mdepth", "mod depth", *mod_depth);
            let ghost ks = seq![level(key@, "vrate"@, "rate"@, *rate), level(key@, "vdepth"@, "depth"@, *depth), level(key@, "vmix"@, "mix"@, *mix), level(key@, "mdepth"@, "mod depth"@, *mod_depth)];
            let knobs = vec![k0, k1, k2, k3];
            proof {
                assert forall|i: int| 0 <= i < ks.len() implies knob_meets(#[trigger] knobs@[i], ks[i], *cell) by {
                    if i == 0 {} else if i == 1 {} else if i == 2 {} else {}
                }
            }
            push_head(out, key, column, "vibrato", "vibrato", knobs, "op", 1, Some(modulation), Ghost(ks), cell);
            let ghost d = head(key@, column as int, "vibrato"@, "vibrato"@, ks, "op"@, 1, Some(*modulation));
            let ghost mm = out.modules@;
            let ghost ww = out.wires@;
            let ck = child_key(key, 0);
            describe_node(input, ck.as_str(), column + 1, out, cell);
            let ghost dc = spec_describe_node(**input, spec_child_key(key@, 0), column + 1);
            proof {
                lemma_extends_chain(m0, mm, out.modules@, w0, ww, out.wires@, d, dc, *cell);
            }
            let ghost d = join(d, dc);
        },
        AudioNode::Eq { low, mid, high, mod_depth, input, modulation } => {
            let k0 = knob_c(key, "low", "low", *low);
            let k1 = knob_c(key, "mid", "mid", *mid);
            let k2 = knob_c(key, "high", "high", *high);
            let k3 = knob_c(key, "mdepth", "mod depth", *mod_depth);
            let ghost ks = seq![level(key@, "low"@, "low"@, *low), level(key@, "mid"@, "mid"@, *mid), level(key@, "high"@, "high"@, *high), level(key@, "mdepth"@, "mod depth"@, *mod_depth)];
            let knobs = vec![k0, k1, k2, k3];
            proof {
                assert forall|i: int| 0 <= i < ks.len() implies knob_meets(#[trigger] knobs@[i], ks[i], *cell) by {
                    if i == 0 {} else if i == 1 {} else if i == 2 {} else {}
                }
            }
            push_head(out, key, column, "eq", "eq", knobs, "op", 1, Some(modulation), Ghost(ks), cell);
            let ghost d = head(key@, column as int, "eq"@, "eq"@, ks, "op"@, 1, Some(*modulation));
            let ghost mm = out.modules@;
            let ghost ww = out.wires@;
            let ck = child_key(key, 0);
            describe_node(input, ck.as_str(), column + 1, out, cell);
            let ghost dc = spec_describe_node(**input, spec_child_key(key@, 0), column + 1);
            proof {
                lemma_extends_chain(m0, mm, out.modules@, w0, ww, out.wires@, d, dc, *cell);
            }
            let ghost d = join(d, dc);
        },
        AudioNode::Granular { position, size, density, mod_depth, input, modulation } => {
            let k0 = knob_c(key, "gpos", "position", *position);
            let k1 = knob_c(key, "gsize", "size", *size);
            let k2 = knob_c(key, "gdens", "density", *density);
            let k3 = knob_c(key, "mdepth", "mod depth", *mod_depth);
            let ghost ks = seq![level(key@, "gpos"@, "position"@, *position), level(key@, "gsize"@, "size"@, *size), level(key@, "gdens"@, "density"@, *density), level(key@, "mdepth"@, "mod depth"@, *mod_depth)];
            let knobs = vec![k0, k1, k2, k3];
            proof {
                assert forall|i: int| 0 <= i < ks.len() implies knob_meets(#[trigger] knobs@[i], ks[i], *cell) by {
                    if i == 0 {} else if i == 1 {} else if i == 2 {} else {}
                }
            }
            push_head(out, key, column, "granular", "granular", knobs, "op", 1, Some(modulation), Ghost(ks), cell);
            let ghost d = head(key@, column as int, "granular"@, "granular"@, ks, "op"@, 1, Some(*modulation));
            let ghost mm = out.modules@;
            let ghost ww = out.wires@;
            let ck = child_key(key, 0);
            describe_node(input, ck.as_str(), column + 1, out, cell);
            let ghost dc = spec_describe_node(**input, spec_child_key(key@, 0), column + 1);
            proof {
                lemma_extends_chain(m0, mm, out.modules@, w0, ww, out.wires@, d, dc, *cell);
            }
            let ghost d = join(d, dc);
        },
        AudioNode::Shift { semis, window, mix, mod_depth, input, modulation } => {
            let k0 = knob_c(key, "semis", "shift", *semis);
            let k1 = knob_c(key, "window", "window", *window);
            let k2 = knob_c(key, "smix", "mix", *mix);
            let k3 = knob_c(key, "mdepth", "mod depth", *mod_depth);
            let ghost ks = seq![level(key@, "semis"@, "shift"@, *semis), level(key@, "window"@, "window"@, *window), level(key@, "smix"@, "mix"@, *mix), level(key@, "mdepth"@, "mod depth"@, *mod_depth)];
            let knobs = vec![k0, k1, k2, k3];
            proof {
                assert forall|i: int| 0 <= i < ks.len() implies knob_meets(#[trigger] knobs@[i], ks[i], *cell) by {
                    if i == 0 {} else if i == 1 {} else if i == 2 {} else {}
                }
            }
            push_head(out, key, column, "shift", "pitch shift", knobs, "op", 1, Some(modulation), Ghost(ks), cell);
            let ghost d = head(key@, column as int, "shift"@, "pitch shift"@, ks, "op"@, 1, Some(*modulation));
            let ghost mm = out.modules@;
            let ghost ww = out.wires@;
            let ck = child_key(key, 0);
            describe_node(input, ck.as_str(), column + 1, out, cell);
            let ghost dc = spec_describe_node(**input, spec_child_key(key@, 0), column + 1);
            proof {
                lemma_extends_chain(m0, mm, out.modules@, w0, ww, out.wires@, d, dc, *cell);
            }
            let ghost d = join(d, dc);
        },
        AudioNode::Comp { threshold, ratio, makeup, mod_depth, input, sidechain, modulation } => {
            let k0 = knob_c(key, "thresh", "threshold", *threshold);
            let k1 = knob_c(key, "ratio", "ratio", *ratio);
            let k2 = knob_c(key, "makeup", "makeup", *makeup);
            let k3 = knob_c(key, "mdepth", "mod depth", *mod_depth);
            let ghost ks = seq![level(key@, "thresh"@, "threshold"@, *threshold), level(key@, "ratio"@, "ratio"@, *ratio), level(key@, "makeup"@, "makeup"@, *makeup), level(key@, "mdepth"@, "mod depth"@, *mod_depth)];
            let knobs = vec![k0, k1, k2, k3];
            proof {
                assert forall|i: int| 0 <= i < ks.len() implies knob_meets(#[trigger] knobs@[i], ks[i], *cell) by {
                    if i == 0 {} else if i == 1 {} else if i == 2 {} else {}
                }
            }
            push_head(out, key, column, "comp", "compressor", knobs, "op", 2, Some(modulation), Ghost(ks), cell);
            let ghost d = head(key@, column as int, "comp"@, "compressor"@, ks, "op"@, 2, Some(*modulation));
            let ghost mm = out.modules@;
            let ghost ww = out.wires@;
            let ck = child_key(key, 0);
            describe_node(input, ck.as_str(), column + 1, out, cell);
            let ghost dc = spec_describe_node(**input, spec_child_key(key@, 0), column + 1);
            proof {
                lemma_extends_chain(m0, mm, out.modules@, w0, ww, out.wires@, d, dc, *cell);
            }
            let ghost d = join(d, dc);
            let ghost mm = out.modules@;
            let ghost ww = out.wires@;
            let ck = child_key(key, 1);
            describe_node(sidechain, ck.as_str(), column + 1, out, cell);
            let ghost dc = spec_describe_node(**sidechain, spec_child_key(key@, 1), column + 1);
            proof {
                lemma_extends_chain(m0, mm, out.modules@, w0, ww, out.wires@, d, dc, *cell);
            }
            let ghost d = join(d, dc);
        },
        AudioNode::Duck { amount, threshold, release, mod_depth, input, key: key_input, modulation } => {
            let k0 = knob_c(key, "amount", "amount", *amount);
            let k1 = knob_c(key, "dthresh", "threshold", *threshold);
            let k2 = knob_c(key, "drel", "release", *release);
            let k3 = knob_c(key, "mdepth", "mod depth", *mod_depth);
            let ghost ks = seq![level(key@, "amount"@, "amount"@, *amount), level(key@, "dthresh"@, "threshold"@, *threshold), level(key@, "drel"@, "release"@, *release), level(key@, "mdepth"@, "mod depth"@, *mod_depth)];
            let knobs = vec![k0, k1, k2, k3];
            proof {
                assert forall|i: int| 0 <= i < ks.len() implies knob_meets(#[trigger] knobs@[i], ks[i], *cell) by {
                    if i == 0 {} else if i == 1 {} else if i == 2 {} else {}
                }
            }
            push_head(out, key, column, "duck", "ducker", knobs, "op", 2, Some(modulation), Ghost(ks), cell);
            let ghost d = head(key@, column as int, "duck"@, "ducker"@, ks, "op"@, 2, Some(*modulation));
            let ghost mm = out.modules@;
            let ghost ww = out.wires@;
            let ck = child_key(key, 0);
            describe_node(input, ck.as_str(), column + 1, out, cell);
            let ghost dc = spec_describe_node(**input, spec_child_key(key@, 0), column + 1);
            proof {
                lemma_extends_chain(m0, mm, out.modules@, w0, ww, out.wires@, d, dc, *cell);
            }
            let ghost d = join(d, dc);
            let ghost mm = out.modules@;
            let ghost ww = out.wires@;
            let ck = child_key(key, 1);
            describe_node(key_input, ck.as_str(), column + 1, out, cell);
            let ghost dc = spec_describe_node(**key_input, spec_child_key(key@, 1), column + 1);
            proof {
                lemma_extends_chain(m0, mm, out.modules@, w0, ww, out.wires@, d, dc, *cell);
            }
            let ghost d = join(d, dc);
        },
        AudioNode::Gate { threshold, range, release, mod_depth, input, sidechain, modulation } => {
            let k0 = knob_c(key, "gthresh", "threshold", *threshold);
            let k1 = knob_c(key, "range", "range", *range);
            let k2 = knob_c(key, "grel", "release", *release);
            let k3 = knob_c(key, "mdepth", "mod depth", *mod_depth);
            let ghost ks = seq![level(key@, "gthresh"@, "threshold"@, *threshold), level(key@, "range"@, "range"@, *range), level(key@, "grel"@, "release"@, *release), level(key@, "mdepth"@, "mod depth"@, *mod_depth)];
            let knobs = vec![k0, k1, k2, k3];
            proof {
                assert forall|i: int| 0 <= i < ks.len() implies knob_meets(#[trigger] knobs@[i], ks[i], *cell) by {
                    if i == 0 {} else if i == 1 {} else if i == 2 {} else {}
                }
            }
            push_head(out, key, column, "gate", "gate", knobs, "op", 2, Some(modulation), Ghost(ks), cell);
            let ghost d = head(key@, column as int, "gate"@, "gate"@, ks, "op"@, 2, Some(*modulation));
            let ghost mm = out.modules@;
            let ghost ww = out.wires@;
            let ck = child_key(key, 0);
            describe_node(input, ck.as_str(), column + 1, out, cell);
            let ghost dc = spec_describe_node(**input, spec_child_key(key@, 0), column + 1);
            proof {
                lemma_extends_chain(m0, mm, out.modules@, w0, ww, out.wires@, d, dc, *cell);
            }
            let ghost d = join(d, dc);
            let ghost mm = out.modules@;
            let ghost ww = out.wires@;
            let ck = child_key(key, 1);
            describe_node(sidechain, ck.as_str(), column + 1, out, cell);
            let ghost dc = spec_describe_node(**sidechain, spec_child_key(key@, 1), column + 1);
            proof {
                lemma_extends_chain(m0, mm, out.modules@, w0, ww, out.wires@, d, dc, *cell);
            }
            let ghost d = join(d, dc);
        },
        AudioNode::Vocoder { bands, attack, release, mod_depth, carrier, modulator, modulation } => {
            let k0 = knob_c(key, "bands", "bands", *bands);
            let k1 = knob_c(key, "vatt", "attack", *attack);
            let k2 = knob_c(key, "vrel", "release", *release);
            let k3 = knob_c(key, "mdepth", "mod depth", *mod_depth);
            let ghost ks = seq![level(key@, "bands"@, "bands"@, *bands), level(key@, "vatt"@, "attack"@, *attack), level(key@, "vrel"@, "release"@, *release), level(key@, "mdepth"@, "mod depth"@, *mod_depth)];
            let knobs = vec![k0, k1, k2, k3];
            proof {
                assert forall|i: int| 0 <= i < ks.len() implies knob_meets(#[trigger] knobs@[i], ks[i], *cell) by {
                    if i == 0 {} else if i == 1 {} else if i == 2 {} else {}
                }
            }
            push_head(out, key, column, "vocoder", "vocoder", knobs, "op", 2, Some(modulation), Ghost(ks), cell);
            let ghost d = head(key@, column as int, "vocoder"@, "vocoder"@, ks, "op"@, 2, Some(*modulation));
            let ghost mm = out.modules@;
            let ghost ww = out.wires@;
            let ck = child_key(key, 0);
            describe_node(carrier, ck.as_str(), column + 1, out, cell);
            let ghost dc = spec_describe_node(**carrier, spec_child_key(key@, 0), column + 1);
            proof {
                lemma_extends_chain(m0, mm, out.modules@, w0, ww, out.wires@, d, dc, *cell);
            }
            let ghost d = join(d, dc);
            let ghost mm = out.modules@;
            let ghost ww = out.wires@;
            let ck = child_key(key, 1);
            describe_node(modulator, ck.as_str(), column + 1, out, cell);
            let ghost dc = spec_describe_node(**modulator, spec_child_key(key@, 1), column + 1);
            proof {
                lemma_extends_chain(m0, mm, out.modules@, w0, ww, out.wires@, d, dc, *cell);
            }
            let ghost d = join(d, dc);
        },
    }
}

/// The knobs of a CV processor: the quantizer and the rectifier name the cell
/// their value selects.
fn make_op_knobs<F: Fn(Selector, Param) -> usize>(
    kind: ModOp,
    key: &str,
    p0: Param,
    p1: Param,
    cell: &F,
) -> (knobs: Vec<Knob>)
    requires
        forall|s: Selector, b: Param| call_requires(*cell, (s, b)),
    ensures
        all_meet(knobs@, op_knobs(kind, key@, p0, p1), *cell),
{
    let ghost ks = op_knobs(kind, key@, p0, p1);
    match kind {
        ModOp::Quantize => {
            let k0 = knob_selected(key, "qroot", "root · ", Selector::QuantRoot, p0, cell);
            let k1 = knob_selected(key, "qscale", "scale · ", Selector::QuantScale, p1, cell);
            let knobs = vec![k0, k1];
            proof {
                assert forall|i: int| 0 <= i < ks.len() implies knob_meets(
                    #[trigger] knobs@[i],
                    ks[i],
                    *cell,
                ) by {
                    if i == 0 {
                    } else {
                    }
                }
            }
            knobs
        },
        ModOp::Slew => {
            let k0 = knob_c(key, "rise", "rise", p0);
            let k1 = knob_c(key, "fall", "fall", p1);
            let knobs = vec![k0, k1];
            proof {
                assert forall|i: int| 0 <= i < ks.len() implies knob_meets(
                    #[trigger] knobs@[i],
                    ks[i],
                    *cell,
                ) by {
                    if i == 0 {
                    } else {
                    }
                }
            }
            knobs
        },
        ModOp::Rectify => {
            let k0 = knob_selected(key, "rmode", "mode · ", Selector::RectMode, p0, cell);
            let knobs = vec![k0];
            knobs
        },
        ModOp::Hold => {
            let k0 = knob_c(key, "hrate", "rate", p0);
            let knobs = vec![k0];
            knobs
        },
    }
}

/// The amp stage's faceplate.
pub open spec fn amp_module(amp: AmpEnv) -> ModuleSpec {
    ModuleSpec {
        key: "amp"@,
        kind: "amp"@,
        title: "env / out"@,
        column: 0,
        is_mod: false,
        knobs: seq![
            level("amp"@, "attack"@, "attack"@, amp.attack),
            level("amp"@, "decay"@, "decay"@, amp.decay),
            level("amp"@, "sustain"@, "sustain"@, amp.sustain),
            level("amp"@, "release"@, "release"@, amp.release),
        ],
        structural: Seq::empty(),
    }
}

/// What a patch shows: the amp stage at column 0 with the audio root wired
/// into it, then the audio tree from column 1.
pub open spec fn spec_describe(tree: PatchTree) -> RackSpec {
    join(
        RackSpec { modules: seq![amp_module(tree.amp)], wires: seq![wire("node"@, "amp"@, "audio"@)] },
        spec_describe_node(tree.root, "node"@, 1),
    )
}

/// Describe a patch as a rack of modules, knobs, and wires.
///
/// The amp/VCA stage (mandatory on every voice) appears as an `amp` module at
/// column 0 with the audio root wired into it. The labels of the quantizer's
/// and the rectifier's selectors name the cell `cell` puts their value in.
pub fn describe<F: Fn(Selector, Param) -> usize>(tree: &PatchTree, cell: F) -> (r: RackDescription)
    requires
        tree.spec_site_count() <= usize::MAX,
        forall|s: Selector, b: Param| call_requires(cell, (s, b)),
    ensures
        shows(r, spec_describe(*tree), cell),
{
    let mut out = RackDescription { modules: Vec::new(), wires: Vec::new() };
    let k0 = knob_c("amp", "attack", "attack", tree.amp.attack);
    let k1 = knob_c("amp", "decay", "decay", tree.amp.decay);
    let k2 = knob_c("amp", "sustain", "sustain", tree.amp.sustain);
    let k3 = knob_c("amp", "release", "release", tree.amp.release);
    let ghost ms = amp_module(tree.amp);
    let ghost ks = ms.knobs;
    let knobs = vec![k0, k1, k2, k3];
    proof {
        assert forall|i: int| 0 <= i < ks.len() implies knob_meets(
            #[trigger] knobs@[i],
            ks[i],
            cell,
        ) by {
            if i == 0 {
            } else if i == 1 {
            } else if i == 2 {
            } else {
            }
        }
    }
    let structural: Vec<String> = Vec::new();
    proof {
        assert(string_views(structural@) =~= Seq::<Seq<char>>::empty());
    }
    let amp = make_module::<F>("amp", "amp", "env / out", 0, false, knobs, structural, Ghost(ks), Ghost(cell));
    let ghost m0 = out.modules@;
    let ghost w0 = out.wires@;
    push_module::<F>(&mut out, amp, Ghost(ms), Ghost(cell));
    let ghost m1 = out.modules@;
    let ghost w1 = out.wires@;
    push_wire::<F>(&mut out, String::from_str("node"), String::from_str("amp"), "audio", Ghost(cell));
    let ghost m2 = out.modules@;
    let ghost w2 = out.wires@;
    let ghost d1 = RackSpec { modules: seq![ms], wires: Seq::empty() };
    let ghost d2 = RackSpec { modules: Seq::empty(), wires: seq![wire("node"@, "amp"@, "audio"@)] };
    proof {
        lemma_extends_chain(m0, m1, m2, w0, w1, w2, d1, d2, cell);
    }
    describe_node(&tree.root, "node", 1, &mut out, &cell);
    proof {
        let dn = spec_describe_node(tree.root, "node"@, 1);
        lemma_extends_chain(m0, m2, out.modules@, w0, w2, out.wires@, join(d1, d2), dn, cell);
        let head = RackSpec { modules: seq![ms], wires: seq![wire("node"@, "amp"@, "audio"@)] };
        assert(join(d1, d2).modules =~= head.modules);
        assert(join(d1, d2).wires =~= head.wires);
        assert(m0 =~= Seq::<RackModule>::empty());
        assert(w0 =~= Seq::<Wire>::empty());
    }
    out
}


/// Whether a knob sits on a site of `t` of its own sort — a continuous knob
/// on a continuous site, a selector on an index site of a categorical — that
/// is no structural site, and shows the value recorded there: a continuous
/// knob the level, a selector the index, and the octave knob the octave the
/// index reads back as, shifted up by two.
pub open spec fn knob_live(k: KnobSpec, t: Map<Seq<char>, SiteValue>) -> bool {
    &&& !spec_is_structural(spec_split_addr(k.addr).1)
    &&& (!(k.kind is Continuous) ==> spec_enum_arity(spec_split_addr(k.addr).1) is Some)
    &&& match k.kind {
        KindSpec::Continuous => k.value matches KnobValue::Level(b) && spec_lookup(t, k.addr)
            == Some(SiteValue::Real(b)),
        KindSpec::Octave => k.value matches KnobValue::Step(s) && spec_lookup(t, k.addr) matches Some(
            SiteValue::Index(i),
        ) && s == spec_octave_at(i) + 2,
        _ => k.value matches KnobValue::Step(s) && spec_lookup(t, k.addr) matches Some(
            SiteValue::Index(i),
        ) && s == i,
    }
}

/// Every octave offset reads back from the index it is recorded as.
proof fn lemma_octave_index_reads_back(octave: i8)
    ensures
        spec_octave_at(spec_octave_index(octave)) == octave,
{
    assert((((((octave + 2) as usize) as i8) - 2) as i8) == octave) by (bit_vector);
}

/// Whether a module's knobs and structural addresses all sit on sites of
/// `t`.
pub open spec fn module_live(m: ModuleSpec, t: Map<Seq<char>, SiteValue>) -> bool {
    &&& forall|j: int| 0 <= j < m.knobs.len() ==> knob_live(#[trigger] m.knobs[j], t)
    &&& forall|j: int| 0 <= j < m.structural.len() ==> spec_lookup(t, #[trigger] m.structural[j]) is Some
}

/// Whether every module of a rack part is live in `t`.
pub open spec fn rack_live(d: RackSpec, t: Map<Seq<char>, SiteValue>) -> bool {
    forall|i: int| 0 <= i < d.modules.len() ==> module_live(#[trigger] d.modules[i], t)
}

/// Two live parts make a live whole.
proof fn lemma_join_live(a: RackSpec, b: RackSpec, t: Map<Seq<char>, SiteValue>)
    requires
        rack_live(a, t),
        rack_live(b, t),
    ensures
        rack_live(join(a, b), t),
{
    assert forall|i: int| 0 <= i < join(a, b).modules.len() implies module_live(
        #[trigger] join(a, b).modules[i],
        t,
    ) by {
        if i < a.modules.len() {
            assert(join(a, b).modules[i] == a.modules[i]);
        } else {
            assert(join(a, b).modules[i] == b.modules[i - a.modules.len()]);
        }
    }
}

/// The site names the rack addresses are plain, and its knob sites are no
/// structural sites.
pub(crate) proof fn lemma_rack_sites_plain()
    ensures
        is_plain("amount"@),
        is_plain("att"@),
        is_plain("attack"@),
        is_plain("bal"@),
        is_plain("bands"@),
        is_plain("bits"@),
        is_plain("bright"@),
        is_plain("cdepth"@),
        is_plain("cmix"@),
        is_plain("color"@),
        is_plain("crate"@),
        is_plain("cut"@),
        is_plain("damp"@),
        is_plain("dec"@),
        is_plain("decay"@),
        is_plain("det"@),
        is_plain("dmix"@),
        is_plain("dmode"@),
        is_plain("drel"@),
        is_plain("drive"@),
        is_plain("dsamp"@),
        is_plain("dthresh"@),
        is_plain("epulses"@),
        is_plain("erate"@),
        is_plain("esteps"@),
        is_plain("fall"@),
        is_plain("fb"@),
        is_plain("fdepth"@),
        is_plain("ffb"@),
        is_plain("fkind"@),
        is_plain("frate"@),
        is_plain("fshift"@),
        is_plain("gdens"@),
        is_plain("glide"@),
        is_plain("gpos"@),
        is_plain("grel"@),
        is_plain("gsize"@),
        is_plain("gthresh"@),
        is_plain("high"@),
        is_plain("hrate"@),
        is_plain("leaf"@),
        is_plain("low"@),
        is_plain("makeup"@),
        is_plain("mdepth"@),
        is_plain("mid"@),
        is_plain("mod"@),
        is_plain("modop"@),
        is_plain("morph"@),
        is_plain("oct"@),
        is_plain("op"@),
        is_plain("pairop"@),
        is_plain("pdepth"@),
        is_plain("pfb"@),
        is_plain("prate"@),
        is_plain("qroot"@),
        is_plain("qscale"@),
        is_plain("range"@),
        is_plain("rate"@),
        is_plain("ratio"@),
        is_plain("rdamp"@),
        is_plain("rel"@),
        is_plain("release"@),
        is_plain("res"@),
        is_plain("rgmix"@),
        is_plain("rise"@),
        is_plain("rmix"@),
        is_plain("rmode"@),
        is_plain("rsize"@),
        is_plain("semis"@),
        is_plain("sens"@),
        is_plain("smix"@),
        is_plain("src"@),
        is_plain("sustain"@),
        is_plain("table"@),
        is_plain("tdepth"@),
        is_plain("thresh"@),
        is_plain("time"@),
        is_plain("tone"@),
        is_plain("trate"@),
        is_plain("tshape"@),
        is_plain("vatt"@),
        is_plain("vdepth"@),
        is_plain("vmix"@),
        is_plain("vowel"@),
        is_plain("vrate"@),
        is_plain("vrel"@),
        is_plain("wave"@),
        is_plain("window"@),
        !spec_is_structural("amount"@),
        !spec_is_structural("att"@),
        !spec_is_structural("attack"@),
        !spec_is_structural("bal"@),
        !spec_is_structural("bands"@),
        !spec_is_structural("bits"@),
        !spec_is_structural("bright"@),
        !spec_is_structural("cdepth"@),
        !spec_is_structural("cmix"@),
        !spec_is_structural("color"@),
        !spec_is_structural("crate"@),
        !spec_is_structural("cut"@),
        !spec_is_structural("damp"@),
        !spec_is_structural("dec"@),
        !spec_is_structural("decay"@),
        !spec_is_structural("det"@),
        !spec_is_structural("dmix"@),
        !spec_is_structural("dmode"@),
        !spec_is_structural("drel"@),
        !spec_is_structural("drive"@),
        !spec_is_structural("dsamp"@),
        !spec_is_structural("dthresh"@),
        !spec_is_structural("epulses"@),
        !spec_is_structural("erate"@),
        !spec_is_structural("esteps"@),
        !spec_is_structural("fall"@),
        !spec_is_structural("fb"@),
        !spec_is_structural("fdepth"@),
        !spec_is_structural("ffb"@),
        !spec_is_structural("fkind"@),
        !spec_is_structural("frate"@),
        !spec_is_structural("fshift"@),
        !spec_is_structural("gdens"@),
        !spec_is_structural("glide"@),
        !spec_is_structural("gpos"@),
        !spec_is_structural("grel"@),
        !spec_is_structural("gsize"@),
        !spec_is_structural("gthresh"@),
        !spec_is_structural("high"@),
        !spec_is_structural("hrate"@),
        !spec_is_structural("low"@),
        !spec_is_structural("makeup"@),
        !spec_is_structural("mdepth"@),
        !spec_is_structural("mid"@),
        !spec_is_structural("morph"@),
        !spec_is_structural("oct"@),
        !spec_is_structural("pdepth"@),
        !spec_is_structural("pfb"@),
        !spec_is_structural("prate"@),
        !spec_is_structural("qroot"@),
        !spec_is_structural("qscale"@),
        !spec_is_structural("range"@),
        !spec_is_structural("rate"@),
        !spec_is_structural("ratio"@),
        !spec_is_structural("rdamp"@),
        !spec_is_structural("rel"@),
        !spec_is_structural("release"@),
        !spec_is_structural("res"@),
        !spec_is_structural("rgmix"@),
        !spec_is_structural("rise"@),
        !spec_is_structural("rmix"@),
        !spec_is_structural("rmode"@),
        !spec_is_structural("rsize"@),
        !spec_is_structural("semis"@),
        !spec_is_structural("sens"@),
        !spec_is_structural("smix"@),
        !spec_is_structural("sustain"@),
        !spec_is_structural("table"@),
        !spec_is_structural("tdepth"@),
        !spec_is_structural("thresh"@),
        !spec_is_structural("time"@),
        !spec_is_structural("tone"@),
        !spec_is_structural("trate"@),
        !spec_is_structural("tshape"@),
        !spec_is_structural("vatt"@),
        !spec_is_structural("vdepth"@),
        !spec_is_structural("vmix"@),
        !spec_is_structural("vowel"@),
        !spec_is_structural("vrate"@),
        !spec_is_structural("vrel"@),
        !spec_is_structural("wave"@),
        !spec_is_structural("window"@),
        spec_enum_arity("wave"@) == Some(4usize),
        spec_enum_arity("color"@) == Some(2usize),
        spec_enum_arity("fkind"@) == Some(4usize),
        spec_enum_arity("oct"@) == Some(5usize),
        spec_enum_arity("table"@) == Some(8usize),
        spec_enum_arity("dmode"@) == Some(3usize),
{
    reveal_strlit("leaf");
    reveal_strlit("src");
    reveal_strlit("op");
    reveal_strlit("mod");
    reveal_strlit("modop");
    reveal_strlit("pairop");
    reveal_strlit("amount");
    assert("amount"@ =~= seq!['a', 'm', 'o', 'u', 'n', 't']);
    reveal_strlit("att");
    assert("att"@ =~= seq!['a', 't', 't']);
    reveal_strlit("attack");
    assert("attack"@ =~= seq!['a', 't', 't', 'a', 'c', 'k']);
    reveal_strlit("bal");
    assert("bal"@ =~= seq!['b', 'a', 'l']);
    reveal_strlit("bands");
    assert("bands"@ =~= seq!['b', 'a', 'n', 'd', 's']);
    reveal_strlit("bits");
    assert("bits"@ =~= seq!['b', 'i', 't', 's']);
    reveal_strlit("bright");
    assert("bright"@ =~= seq!['b', 'r', 'i', 'g', 'h', 't']);
    reveal_strlit("cdepth");
    assert("cdepth"@ =~= seq!['c', 'd', 'e', 'p', 't', 'h']);
    reveal_strlit("cmix");
    assert("cmix"@ =~= seq!['c', 'm', 'i', 'x']);
    reveal_strlit("color");
    assert("color"@ =~= seq!['c', 'o', 'l', 'o', 'r']);
    reveal_strlit("crate");
    assert("crate"@ =~= seq!['c', 'r', 'a', 't', 'e']);
    reveal_strlit("cut");
    assert("cut"@ =~= seq!['c', 'u', 't']);
    reveal_strlit("damp");
    assert("damp"@ =~= seq!['d', 'a', 'm', 'p']);
    reveal_strlit("dec");
    assert("dec"@ =~= seq!['d', 'e', 'c']);
    reveal_strlit("decay");
    assert("decay"@ =~= seq!['d', 'e', 'c', 'a', 'y']);
    reveal_strlit("det");
    assert("det"@ =~= seq!['d', 'e', 't']);
    reveal_strlit("dmix");
    assert("dmix"@ =~= seq!['d', 'm', 'i', 'x']);
    reveal_strlit("dmode");
    assert("dmode"@ =~= seq!['d', 'm', 'o', 'd', 'e']);
    reveal_strlit("drel");
    assert("drel"@ =~= seq!['d', 'r', 'e', 'l']);
    reveal_strlit("drive");
    assert("drive"@ =~= seq!['d', 'r', 'i', 'v', 'e']);
    reveal_strlit("dsamp");
    assert("dsamp"@ =~= seq!['d', 's', 'a', 'm', 'p']);
    reveal_strlit("dthresh");
    assert("dthresh"@ =~= seq!['d', 't', 'h', 'r', 'e', 's', 'h']);
    reveal_strlit("epulses");
    assert("epulses"@ =~= seq!['e', 'p', 'u', 'l', 's', 'e', 's']);
    reveal_strlit("erate");
    assert("erate"@ =~= seq!['e', 'r', 'a', 't', 'e']);
    reveal_strlit("esteps");
    assert("esteps"@ =~= seq!['e', 's', 't', 'e', 'p', 's']);
    reveal_strlit("fall");
    assert("fall"@ =~= seq!['f', 'a', 'l', 'l']);
    reveal_strlit("fb");
    assert("fb"@ =~= seq!['f', 'b']);
    reveal_strlit("fdepth");
    assert("fdepth"@ =~= seq!['f', 'd', 'e', 'p', 't', 'h']);
    reveal_strlit("ffb");
    assert("ffb"@ =~= seq!['f', 'f', 'b']);
    reveal_strlit("fkind");
    assert("fkind"@ =~= seq!['f', 'k', 'i', 'n', 'd']);
    reveal_strlit("frate");
    assert("frate"@ =~= seq!['f', 'r', 'a', 't', 'e']);
    reveal_strlit("fshift");
    assert("fshift"@ =~= seq!['f', 's', 'h', 'i', 'f', 't']);
    reveal_strlit("gdens");
    assert("gdens"@ =~= seq!['g', 'd', 'e', 'n', 's']);
    reveal_strlit("glide");
    assert("glide"@ =~= seq!['g', 'l', 'i', 'd', 'e']);
    reveal_strlit("gpos");
    assert("gpos"@ =~= seq!['g', 'p', 'o', 's']);
    reveal_strlit("grel");
    assert("grel"@ =~= seq!['g', 'r', 'e', 'l']);
    reveal_strlit("gsize");
    assert("gsize"@ =~= seq!['g', 's', 'i', 'z', 'e']);
    reveal_strlit("gthresh");
    assert("gthresh"@ =~= seq!['g', 't', 'h', 'r', 'e', 's', 'h']);
    reveal_strlit("high");
    assert("high"@ =~= seq!['h', 'i', 'g', 'h']);
    reveal_strlit("hrate");
    assert("hrate"@ =~= seq!['h', 'r', 'a', 't', 'e']);
    reveal_strlit("leaf");
    assert("leaf"@ =~= seq!['l', 'e', 'a', 'f']);
    reveal_strlit("low");
    assert("low"@ =~= seq!['l', 'o', 'w']);
    reveal_strlit("makeup");
    assert("makeup"@ =~= seq!['m', 'a', 'k', 'e', 'u', 'p']);
    reveal_strlit("mdepth");
    assert("mdepth"@ =~= seq!['m', 'd', 'e', 'p', 't', 'h']);
    reveal_strlit("mid");
    assert("mid"@ =~= seq!['m', 'i', 'd']);
    reveal_strlit("mod");
    assert("mod"@ =~= seq!['m', 'o', 'd']);
    reveal_strlit("modop");
    assert("modop"@ =~= seq!['m', 'o', 'd', 'o', 'p']);
    reveal_strlit("morph");
    assert("morph"@ =~= seq!['m', 'o', 'r', 'p', 'h']);
    reveal_strlit("oct");
    assert("oct"@ =~= seq!['o', 'c', 't']);
    reveal_strlit("op");
    assert("op"@ =~= seq!['o', 'p']);
    reveal_strlit("pairop");
    assert("pairop"@ =~= seq!['p', 'a', 'i', 'r', 'o', 'p']);
    reveal_strlit("pdepth");
    assert("pdepth"@ =~= seq!['p', 'd', 'e', 'p', 't', 'h']);
    reveal_strlit("pfb");
    assert("pfb"@ =~= seq!['p', 'f', 'b']);
    reveal_strlit("prate");
    assert("prate"@ =~= seq!['p', 'r', 'a', 't', 'e']);
    reveal_strlit("qroot");
    assert("qroot"@ =~= seq!['q', 'r', 'o', 'o', 't']);
    reveal_strlit("qscale");
    assert("qscale"@ =~= seq!['q', 's', 'c', 'a', 'l', 'e']);
    reveal_strlit("range");
    assert("range"@ =~= seq!['r', 'a', 'n', 'g', 'e']);
    reveal_strlit("rate");
    assert("rate"@ =~= seq!['r', 'a', 't', 'e']);
    reveal_strlit("ratio");
    assert("ratio"@ =~= seq!['r', 'a', 't', 'i', 'o']);
    reveal_strlit("rdamp");
    assert("rdamp"@ =~= seq!['r', 'd', 'a', 'm', 'p']);
    reveal_strlit("rel");
    assert("rel"@ =~= seq!['r', 'e', 'l']);
    reveal_strlit("release");
    assert("release"@ =~= seq!['r', 'e', 'l', 'e', 'a', 's', 'e']);
    reveal_strlit("res");
    assert("res"@ =~= seq!['r', 'e', 's']);
    reveal_strlit("rgmix");
    assert("rgmix"@ =~= seq!['r', 'g', 'm', 'i', 'x']);
    reveal_strlit("rise");
    assert("rise"@ =~= seq!['r', 'i', 's', 'e']);
    reveal_strlit("rmix");
    assert("rmix"@ =~= seq!['r', 'm', 'i', 'x']);
    reveal_strlit("rmode");
    assert("rmode"@ =~= seq!['r', 'm', 'o', 'd', 'e']);
    reveal_strlit("rsize");
    assert("rsize"@ =~= seq!['r', 's', 'i', 'z', 'e']);
    reveal_strlit("semis");
    assert("semis"@ =~= seq!['s', 'e', 'm', 'i', 's']);
    reveal_strlit("sens");
    assert("sens"@ =~= seq!['s', 'e', 'n', 's']);
    reveal_strlit("smix");
    assert("smix"@ =~= seq!['s', 'm', 'i', 'x']);
    reveal_strlit("src");
    assert("src"@ =~= seq!['s', 'r', 'c']);
    reveal_strlit("sustain");
    assert("sustain"@ =~= seq!['s', 'u', 's', 't', 'a', 'i', 'n']);
    reveal_strlit("table");
    assert("table"@ =~= seq!['t', 'a', 'b', 'l', 'e']);
    reveal_strlit("tdepth");
    assert("tdepth"@ =~= seq!['t', 'd', 'e', 'p', 't', 'h']);
    reveal_strlit("thresh");
    assert("thresh"@ =~= seq!['t', 'h', 'r', 'e', 's', 'h']);
    reveal_strlit("time");
    assert("time"@ =~= seq!['t', 'i', 'm', 'e']);
    reveal_strlit("tone");
    assert("tone"@ =~= seq!['t', 'o', 'n', 'e']);
    reveal_strlit("trate");
    assert("trate"@ =~= seq!['t', 'r', 'a', 't', 'e']);
    reveal_strlit("tshape");
    assert("tshape"@ =~= seq!['t', 's', 'h', 'a', 'p', 'e']);
    reveal_strlit("vatt");
    assert("vatt"@ =~= seq!['v', 'a', 't', 't']);
    reveal_strlit("vdepth");
    assert("vdepth"@ =~= seq!['v', 'd', 'e', 'p', 't', 'h']);
    reveal_strlit("vmix");
    assert("vmix"@ =~= seq!['v', 'm', 'i', 'x']);
    reveal_strlit("vowel");
    assert("vowel"@ =~= seq!['v', 'o', 'w', 'e', 'l']);
    reveal_strlit("vrate");
    assert("vrate"@ =~= seq!['v', 'r', 'a', 't', 'e']);
    reveal_strlit("vrel");
    assert("vrel"@ =~= seq!['v', 'r', 'e', 'l']);
    reveal_strlit("wave");
    assert("wave"@ =~= seq!['w', 'a', 'v', 'e']);
    reveal_strlit("window");
    assert("window"@ =~= seq!['w', 'i', 'n', 'd', 'o', 'w']);
    assert("color"@.len() != "wave"@.len());
    assert("fkind"@.len() != "wave"@.len());
    assert("fkind"@[0] != "color"@[0]);
    assert("oct"@.len() != "wave"@.len());
    assert("oct"@.len() != "color"@.len());
    assert("oct"@.len() != "fkind"@.len());
    assert("table"@.len() != "wave"@.len());
    assert("table"@[0] != "color"@[0]);
    assert("table"@[0] != "fkind"@[0]);
    assert("table"@.len() != "oct"@.len());
    assert("dmode"@.len() != "wave"@.len());
    assert("dmode"@[0] != "color"@[0]);
    assert("dmode"@[0] != "fkind"@[0]);
    assert("dmode"@.len() != "oct"@.len());
    assert("dmode"@[0] != "table"@[0]);
    assert("amount"@[0] != "pairop"@[0]);
    assert("att"@[0] != "src"@[0]);
    assert("att"@[0] != "mod"@[0]);
    assert("attack"@[0] != "pairop"@[0]);
    assert("bal"@[0] != "src"@[0]);
    assert("bal"@[0] != "mod"@[0]);
    assert("bands"@[0] != "modop"@[0]);
    assert("bits"@[0] != "leaf"@[0]);
    assert("bright"@[0] != "pairop"@[0]);
    assert("cdepth"@[0] != "pairop"@[0]);
    assert("cmix"@[0] != "leaf"@[0]);
    assert("color"@[0] != "modop"@[0]);
    assert("crate"@[0] != "modop"@[0]);
    assert("cut"@[0] != "src"@[0]);
    assert("cut"@[0] != "mod"@[0]);
    assert("damp"@[0] != "leaf"@[0]);
    assert("dec"@[0] != "src"@[0]);
    assert("dec"@[0] != "mod"@[0]);
    assert("decay"@[0] != "modop"@[0]);
    assert("det"@[0] != "src"@[0]);
    assert("det"@[0] != "mod"@[0]);
    assert("dmix"@[0] != "leaf"@[0]);
    assert("dmode"@[0] != "modop"@[0]);
    assert("drel"@[0] != "leaf"@[0]);
    assert("drive"@[0] != "modop"@[0]);
    assert("dsamp"@[0] != "modop"@[0]);
    assert("erate"@[0] != "modop"@[0]);
    assert("esteps"@[0] != "pairop"@[0]);
    assert("fall"@[0] != "leaf"@[0]);
    assert("fb"@[0] != "op"@[0]);
    assert("fdepth"@[0] != "pairop"@[0]);
    assert("ffb"@[0] != "src"@[0]);
    assert("ffb"@[0] != "mod"@[0]);
    assert("fkind"@[0] != "modop"@[0]);
    assert("frate"@[0] != "modop"@[0]);
    assert("fshift"@[0] != "pairop"@[0]);
    assert("gdens"@[0] != "modop"@[0]);
    assert("glide"@[0] != "modop"@[0]);
    assert("gpos"@[0] != "leaf"@[0]);
    assert("grel"@[0] != "leaf"@[0]);
    assert("gsize"@[0] != "modop"@[0]);
    assert("high"@[0] != "leaf"@[0]);
    assert("hrate"@[0] != "modop"@[0]);
    assert("low"@[0] != "src"@[0]);
    assert("low"@[0] != "mod"@[0]);
    assert("makeup"@[0] != "pairop"@[0]);
    assert("mdepth"@[0] != "pairop"@[0]);
    assert("mid"@[0] != "src"@[0]);
    assert("mid"@[1] != "mod"@[1]);
    assert("morph"@[2] != "modop"@[2]);
    assert("oct"@[0] != "src"@[0]);
    assert("oct"@[0] != "mod"@[0]);
    assert("pdepth"@[1] != "pairop"@[1]);
    assert("pfb"@[0] != "src"@[0]);
    assert("pfb"@[0] != "mod"@[0]);
    assert("prate"@[0] != "modop"@[0]);
    assert("qroot"@[0] != "modop"@[0]);
    assert("qscale"@[0] != "pairop"@[0]);
    assert("range"@[0] != "modop"@[0]);
    assert("rate"@[0] != "leaf"@[0]);
    assert("ratio"@[0] != "modop"@[0]);
    assert("rdamp"@[0] != "modop"@[0]);
    assert("rel"@[0] != "src"@[0]);
    assert("rel"@[0] != "mod"@[0]);
    assert("res"@[0] != "src"@[0]);
    assert("res"@[0] != "mod"@[0]);
    assert("rgmix"@[0] != "modop"@[0]);
    assert("rise"@[0] != "leaf"@[0]);
    assert("rmix"@[0] != "leaf"@[0]);
    assert("rmode"@[0] != "modop"@[0]);
    assert("rsize"@[0] != "modop"@[0]);
    assert("semis"@[0] != "modop"@[0]);
    assert("sens"@[0] != "leaf"@[0]);
    assert("smix"@[0] != "leaf"@[0]);
    assert("table"@[0] != "modop"@[0]);
    assert("tdepth"@[0] != "pairop"@[0]);
    assert("thresh"@[0] != "pairop"@[0]);
    assert("time"@[0] != "leaf"@[0]);
    assert("tone"@[0] != "leaf"@[0]);
    assert("trate"@[0] != "modop"@[0]);
    assert("tshape"@[0] != "pairop"@[0]);
    assert("vatt"@[0] != "leaf"@[0]);
    assert("vdepth"@[0] != "pairop"@[0]);
    assert("vmix"@[0] != "leaf"@[0]);
    assert("vowel"@[0] != "modop"@[0]);
    assert("vrate"@[0] != "modop"@[0]);
    assert("vrel"@[0] != "leaf"@[0]);
    assert("wave"@[0] != "leaf"@[0]);
    assert("window"@[0] != "pairop"@[0]);
}

/// At a plain key, a plain site's knob address is its trace address.
proof fn lemma_knob_address(key: Seq<char>, site: Seq<char>)
    requires
        is_plain(key),
        is_plain(site),
    ensures
        key + "#"@ + site == spec_address(key, site),
        spec_split_addr(key + "#"@ + site).1 == site,
{
    reveal_strlit("#");
    lemma_escape_plain(key);
    lemma_escape_plain(site);
    assert("#"@ =~= seq!['#']);
    lemma_split_joined(key, site);
}

/// A modulation module is live when its knobs and its own sites are.
proof fn lemma_mod_head_live(
    key: Seq<char>,
    parent: Seq<char>,
    column: int,
    kind: Seq<char>,
    title: Seq<char>,
    knobs: Seq<KnobSpec>,
    tag: Option<Seq<char>>,
    inputs: nat,
    t: Map<Seq<char>, SiteValue>,
)
    requires
        forall|j: int| 0 <= j < knobs.len() ==> knob_live(#[trigger] knobs[j], t),
        spec_lookup(t, key + "#"@ + "mod"@) is Some,
        tag matches Some(g) ==> spec_lookup(t, key + "#"@ + g) is Some,
    ensures
        rack_live(mod_head(key, parent, column, kind, title, knobs, tag, inputs), t),
{
    let d = mod_head(key, parent, column, kind, title, knobs, tag, inputs);
    let m = d.modules[0];
    assert forall|j: int| 0 <= j < m.structural.len() implies spec_lookup(
        t,
        #[trigger] m.structural[j],
    ) is Some by {
        if j == 0 {
        } else {
        }
    }
    assert(module_live(m, t));
}

/// An audio module is live when its knobs, its own sites, an empty slot's
/// site and what its slot holds are.
proof fn lemma_head_live(
    key: Seq<char>,
    column: int,
    kind: Seq<char>,
    title: Seq<char>,
    knobs: Seq<KnobSpec>,
    tag: Seq<char>,
    inputs: nat,
    slot: Option<ModNode>,
    t: Map<Seq<char>, SiteValue>,
)
    requires
        forall|j: int| 0 <= j < knobs.len() ==> knob_live(#[trigger] knobs[j], t),
        spec_lookup(t, key + "#"@ + "leaf"@) is Some,
        spec_lookup(t, key + "#"@ + tag) is Some,
        slot == Some(ModNode::Empty) ==> spec_lookup(t, spec_mod_key(key) + "#"@ + "mod"@) is Some,
        slot matches Some(m) ==> rack_live(spec_describe_mod(m, spec_mod_key(key), key, column + 1), t),
    ensures
        rack_live(head(key, column, kind, title, knobs, tag, inputs, slot), t),
{
    let ms = ModuleSpec {
        key,
        kind,
        title,
        column,
        is_mod: false,
        knobs,
        structural: owned_sites(key, tag, slot),
    };
    let own = RackSpec { modules: seq![ms], wires: inputs_to(key, inputs, "audio"@) };
    assert forall|j: int| 0 <= j < ms.structural.len() implies spec_lookup(
        t,
        #[trigger] ms.structural[j],
    ) is Some by {
        if j == 0 {
        } else if j == 1 {
        } else {
        }
    }
    assert(module_live(ms, t));
    assert(rack_live(own, t));
    match slot {
        Some(m) => lemma_join_live(own, spec_describe_mod(m, spec_mod_key(key), key, column + 1), t),
        None => lemma_join_live(own, nothing(), t),
    }
}


/// Every module a recorded modulation term shows is live in a trace that
/// agrees with the recording below its key, and so is the term's `#mod`
/// site.
#[verifier::rlimit(60)]
proof fn lemma_mod_live(
    t: Map<Seq<char>, SiteValue>,
    key: Seq<char>,
    m: ModNode,
    base: Map<Seq<char>, SiteValue>,
    parent: Seq<char>,
    column: int,
)
    requires
        is_plain(key),
        forall|a: Seq<char>|
            #[trigger] below(a, key) ==> spec_lookup(t, a) == spec_lookup(
                spec_encode_mod(m, key, base),
                a,
            ),
    ensures
        rack_live(spec_describe_mod(m, key, parent, column), t),
        spec_lookup(t, key + "#"@ + "mod"@) is Some,
    decreases m,
{
    lemma_layout(key);
    lemma_address_injective_forall(key);
    lemma_rack_sites_plain();
    lemma_knob_address(key, "mod"@);
    reveal_strlit("mod");
    match m {
        ModNode::Empty => {
            lemma_join_live(nothing(), nothing(), t);
        },
        ModNode::Lfo { wave: v_wave, rate: v_rate } => {
            reveal_strlit("wave");
            lemma_knob_address(key, "wave"@);
            reveal_strlit("rate");
            lemma_knob_address(key, "rate"@);
            assert("wave"@[0] != "rate"@[0]);
            assert(read_index(t, key, "wave"@) == Some(v_wave.spec_index() as usize));
            assert(read_real(t, key, "rate"@) == Some(v_rate));
            let ks = seq![choice(key, "wave"@, "wave"@, v_wave.spec_index(), spec_waveform_options()), level(key, "rate"@, "rate"@, v_rate)];
            assert forall|j: int| 0 <= j < ks.len() implies knob_live(#[trigger] ks[j], t) by {
                if j == 0 {} else {}
            }
            lemma_mod_head_live(key, parent, column, "lfo"@, "lfo"@, ks, None, 0, t);
        },
        ModNode::Env { attack: v_attack, decay: v_decay } => {
            reveal_strlit("att");
            lemma_knob_address(key, "att"@);
            reveal_strlit("dec");
            lemma_knob_address(key, "dec"@);
            assert("mod"@[0] != "att"@[0]);
            assert("mod"@[0] != "dec"@[0]);
            assert("att"@[0] != "dec"@[0]);
            assert(read_real(t, key, "att"@) == Some(v_attack));
            assert(read_real(t, key, "dec"@) == Some(v_decay));
            let ks = seq![level(key, "att"@, "attack"@, v_attack), level(key, "dec"@, "decay"@, v_decay)];
            assert forall|j: int| 0 <= j < ks.len() implies knob_live(#[trigger] ks[j], t) by {
                if j == 0 {} else {}
            }
            lemma_mod_head_live(key, parent, column, "modenv"@, "mod env"@, ks, None, 0, t);
        },
        ModNode::Rand { rate: v_rate, glide: v_glide } => {
            reveal_strlit("rate");
            lemma_knob_address(key, "rate"@);
            reveal_strlit("glide");
            lemma_knob_address(key, "glide"@);
            assert(read_real(t, key, "rate"@) == Some(v_rate));
            assert(read_real(t, key, "glide"@) == Some(v_glide));
            let ks = seq![level(key, "rate"@, "rate"@, v_rate), level(key, "glide"@, "glide"@, v_glide)];
            assert forall|j: int| 0 <= j < ks.len() implies knob_live(#[trigger] ks[j], t) by {
                if j == 0 {} else {}
            }
            lemma_mod_head_live(key, parent, column, "rand"@, "s&h rand"@, ks, None, 0, t);
        },
        ModNode::Follow { sens: v_sens, release: v_release } => {
            reveal_strlit("sens");
            lemma_knob_address(key, "sens"@);
            reveal_strlit("rel");
            lemma_knob_address(key, "rel"@);
            assert("mod"@[0] != "rel"@[0]);
            assert(read_real(t, key, "sens"@) == Some(v_sens));
            assert(read_real(t, key, "rel"@) == Some(v_release));
            let ks = seq![level(key, "sens"@, "sens"@, v_sens), level(key, "rel"@, "release"@, v_release)];
            assert forall|j: int| 0 <= j < ks.len() implies knob_live(#[trigger] ks[j], t) by {
                if j == 0 {} else {}
            }
            lemma_mod_head_live(key, parent, column, "follow"@, "follower"@, ks, None, 0, t);
        },
        ModNode::Euclid { rate: v_rate, steps: v_steps, pulses: v_pulses } => {
            reveal_strlit("erate");
            lemma_knob_address(key, "erate"@);
            reveal_strlit("esteps");
            lemma_knob_address(key, "esteps"@);
            reveal_strlit("epulses");
            lemma_knob_address(key, "epulses"@);
            assert(read_real(t, key, "erate"@) == Some(v_rate));
            assert(read_real(t, key, "esteps"@) == Some(v_steps));
            assert(read_real(t, key, "epulses"@) == Some(v_pulses));
            let ks = seq![level(key, "erate"@, "rate"@, v_rate), level(key, "esteps"@, "steps"@, v_steps), level(key, "epulses"@, "pulses"@, v_pulses)];
            assert forall|j: int| 0 <= j < ks.len() implies knob_live(#[trigger] ks[j], t) by {
                if j == 0 {} else if j == 1 {} else {}
            }
            lemma_mod_head_live(key, parent, column, "euclid"@, "euclid"@, ks, None, 0, t);
        },
        ModNode::Op { kind: v_kind, p0: v_p0, p1: v_p1, input: v_input } => {
            reveal_strlit("modop");
            reveal_strlit("qroot");
            reveal_strlit("qscale");
            reveal_strlit("rise");
            reveal_strlit("fall");
            reveal_strlit("rmode");
            reveal_strlit("hrate");
            lemma_knob_address(key, "modop"@);
            lemma_knob_address(key, "qroot"@);
            lemma_knob_address(key, "qscale"@);
            lemma_knob_address(key, "rise"@);
            lemma_knob_address(key, "fall"@);
            lemma_knob_address(key, "rmode"@);
            lemma_knob_address(key, "hrate"@);
            let sites = v_kind.spec_param_sites();
            let e = spec_put(base, key, "mod"@, SiteValue::Index(6));
            let e = spec_put(e, key, "modop"@, SiteValue::Index(v_kind.spec_index() as usize));
            let e = spec_put(e, key, sites[0], SiteValue::Real(v_p0));
            let e = if sites.len() > 1 {
                spec_put(e, key, sites[1], SiteValue::Real(v_p1))
            } else {
                e
            };
            let k0 = spec_child_key(key, 0);
            lemma_encode_mod_frame(*v_input, k0, e);
            assert forall|a: Seq<char>| #[trigger] below(a, k0) implies spec_lookup(t, a) == spec_lookup(
                spec_encode_mod(*v_input, k0, e),
                a,
            ) by {}
            lemma_mod_live(t, k0, *v_input, e, key, column + 1);
            assert(read_index(t, key, "modop"@) == Some(v_kind.spec_index() as usize));
            assert(read_real(t, key, sites[0]) == Some(v_p0));
            let ks = op_knobs(v_kind, key, v_p0, v_p1);
            match v_kind {
                ModOp::Quantize => {
                    assert(read_real(t, key, sites[1]) == Some(v_p1));
                    assert forall|j: int| 0 <= j < ks.len() implies knob_live(#[trigger] ks[j], t) by {
                        if j == 0 {
                        } else {
                        }
                    }
                },
                ModOp::Slew => {
                    assert(read_real(t, key, sites[1]) == Some(v_p1));
                    assert forall|j: int| 0 <= j < ks.len() implies knob_live(#[trigger] ks[j], t) by {
                        if j == 0 {
                        } else {
                        }
                    }
                },
                _ => {
                    assert forall|j: int| 0 <= j < ks.len() implies knob_live(#[trigger] ks[j], t) by {}
                },
            }
            let h = mod_head(
                key,
                parent,
                column,
                v_kind.spec_label(),
                v_kind.spec_label(),
                ks,
                Some("modop"@),
                1,
            );
            lemma_mod_head_live(
                key,
                parent,
                column,
                v_kind.spec_label(),
                v_kind.spec_label(),
                ks,
                Some("modop"@),
                1,
                t,
            );
            lemma_join_live(h, spec_describe_mod(*v_input, k0, key, column + 1), t);
        },
        ModNode::Pair { kind: v_kind, a: v_a, b: v_b } => {
            reveal_strlit("pairop");
            lemma_knob_address(key, "pairop"@);
            let e = spec_put(base, key, "mod"@, SiteValue::Index(7));
            let e = spec_put(e, key, "pairop"@, SiteValue::Index(v_kind.spec_index() as usize));
            let k0 = spec_child_key(key, 0);
            let k1 = spec_child_key(key, 1);
            let e0 = spec_encode_mod(*v_a, k0, e);
            lemma_encode_mod_frame(*v_a, k0, e);
            lemma_encode_mod_frame(*v_b, k1, e0);
            assert forall|a: Seq<char>| #[trigger] below(a, k0) implies spec_lookup(t, a) == spec_lookup(
                spec_encode_mod(*v_a, k0, e),
                a,
            ) by {}
            assert forall|a: Seq<char>| #[trigger] below(a, k1) implies spec_lookup(t, a) == spec_lookup(
                spec_encode_mod(*v_b, k1, e0),
                a,
            ) by {}
            lemma_mod_live(t, k0, *v_a, e, key, column + 1);
            lemma_mod_live(t, k1, *v_b, e0, key, column + 1);
            assert(read_index(t, key, "pairop"@) == Some(v_kind.spec_index() as usize));
            let h = mod_head(
                key,
                parent,
                column,
                v_kind.spec_label(),
                v_kind.spec_label(),
                Seq::empty(),
                Some("pairop"@),
                2,
            );
            lemma_mod_head_live(
                key,
                parent,
                column,
                v_kind.spec_label(),
                v_kind.spec_label(),
                Seq::empty(),
                Some("pairop"@),
                2,
                t,
            );
            let da = spec_describe_mod(*v_a, k0, key, column + 1);
            lemma_join_live(h, da, t);
            lemma_join_live(join(h, da), spec_describe_mod(*v_b, k1, key, column + 1), t);
        },
    }
}


/// What a recorded vco shows is live in a trace that agrees with the
/// recording below its key.
#[verifier::rlimit(40)]
proof fn lemma_live_vco(
    t: Map<Seq<char>, SiteValue>,
    key: Seq<char>,
    n: AudioNode,
    base: Map<Seq<char>, SiteValue>,
    column: int,
)
    requires
        n is Vco,
        is_plain(key),
        forall|a: Seq<char>|
            #[trigger] below(a, key) ==> spec_lookup(t, a) == spec_lookup(
                spec_encode_node(n, key, base),
                a,
            ),
    ensures
        rack_live(spec_describe_node(n, key, column), t),
    decreases n, 0nat,
{
    lemma_layout(key);
    lemma_address_injective_forall(key);
    lemma_rack_sites_plain();
    reveal_strlit("leaf");
    lemma_knob_address(key, "leaf"@);
    reveal_strlit("src");
    lemma_knob_address(key, "src"@);
    reveal_strlit("wave");
    lemma_knob_address(key, "wave"@);
    reveal_strlit("oct");
    lemma_knob_address(key, "oct"@);
    reveal_strlit("det");
    lemma_knob_address(key, "det"@);
    reveal_strlit("mdepth");
    lemma_knob_address(key, "mdepth"@);
    match n {
AudioNode::Vco { wave: v_wave, octave: v_octave, detune: v_detune, mod_depth: v_mod_depth, modulation: v_modulation } => {
            let e = spec_put(base, key, "leaf"@, SiteValue::Flag(true));
            let e = spec_put(e, key, "src"@, SiteValue::Index(0));
            let e = spec_put(e, key, "wave"@, SiteValue::Index(v_wave.spec_index() as usize));
            let e = spec_put(e, key, "oct"@, SiteValue::Index(spec_octave_index(v_octave)));
            let e = spec_put(e, key, "det"@, SiteValue::Real(v_detune));
            let e = spec_put(e, key, "mdepth"@, SiteValue::Real(v_mod_depth));
            let km = spec_mod_key(key);
            lemma_encode_mod_frame(v_modulation, km, e);
            let em = spec_encode_mod(v_modulation, km, e);
            assert forall|a: Seq<char>| #[trigger] below(a, km) implies spec_lookup(t, a) == spec_lookup(em, a) by {}
            lemma_mod_live(t, km, v_modulation, e, key, column + 1);
            assert("leaf"@[0] != "wave"@[0]);
            assert("src"@[0] != "oct"@[0]);
            assert("src"@[0] != "det"@[0]);
            assert("oct"@[0] != "det"@[0]);
            assert(read_flag(t, key, "leaf"@) is Some);
            assert(read_index(t, key, "src"@) is Some);
            assert(read_index(t, key, "wave"@) is Some);
            assert(read_index(t, key, "oct"@) is Some);
            assert(read_real(t, key, "det"@) == Some(v_detune));
            assert(read_real(t, key, "mdepth"@) == Some(v_mod_depth));
            lemma_octave_index_reads_back(v_octave);
            let ks = seq![choice(key, "wave"@, "wave"@, v_wave.spec_index(), spec_waveform_options()), octave_knob(key, v_octave), level(key, "det"@, "detune"@, v_detune), level(key, "mdepth"@, "mod depth"@, v_mod_depth)];
            assert forall|j: int| 0 <= j < ks.len() implies knob_live(#[trigger] ks[j], t) by {
                if j == 0 {} else if j == 1 {} else if j == 2 {} else {}
            }
            let h = head(key, column, "vco"@, "vco"@, ks, "src"@, 0, Some(v_modulation));
            lemma_head_live(key, column, "vco"@, "vco"@, ks, "src"@, 0, Some(v_modulation), t);
        },
        _ => {},
    }
}


/// What a recorded supersaw shows is live in a trace that agrees with the
/// recording below its key.
#[verifier::rlimit(40)]
proof fn lemma_live_supersaw(
    t: Map<Seq<char>, SiteValue>,
    key: Seq<char>,
    n: AudioNode,
    base: Map<Seq<char>, SiteValue>,
    column: int,
)
    requires
        n is Supersaw,
        is_plain(key),
        forall|a: Seq<char>|
            #[trigger] below(a, key) ==> spec_lookup(t, a) == spec_lookup(
                spec_encode_node(n, key, base),
                a,
            ),
    ensures
        rack_live(spec_describe_node(n, key, column), t),
    decreases n, 0nat,
{
    lemma_layout(key);
    lemma_address_injective_forall(key);
    lemma_rack_sites_plain();
    reveal_strlit("leaf");
    lemma_knob_address(key, "leaf"@);
    reveal_strlit("src");
    lemma_knob_address(key, "src"@);
    reveal_strlit("oct");
    lemma_knob_address(key, "oct"@);
    reveal_strlit("det");
    lemma_knob_address(key, "det"@);
    reveal_strlit("smix");
    lemma_knob_address(key, "smix"@);
    reveal_strlit("mdepth");
    lemma_knob_address(key, "mdepth"@);
    match n {
AudioNode::Supersaw { octave: v_octave, detune: v_detune, mix: v_mix, mod_depth: v_mod_depth, modulation: v_modulation } => {
            let e = spec_put(base, key, "leaf"@, SiteValue::Flag(true));
            let e = spec_put(e, key, "src"@, SiteValue::Index(1));
            let e = spec_put(e, key, "oct"@, SiteValue::Index(spec_octave_index(v_octave)));
            let e = spec_put(e, key, "det"@, SiteValue::Real(v_detune));
            let e = spec_put(e, key, "smix"@, SiteValue::Real(v_mix));
            let e = spec_put(e, key, "mdepth"@, SiteValue::Real(v_mod_depth));
            let km = spec_mod_key(key);
            lemma_encode_mod_frame(v_modulation, km, e);
            let em = spec_encode_mod(v_modulation, km, e);
            assert forall|a: Seq<char>| #[trigger] below(a, km) implies spec_lookup(t, a) == spec_lookup(em, a) by {}
            lemma_mod_live(t, km, v_modulation, e, key, column + 1);
            assert("leaf"@[0] != "smix"@[0]);
            assert("src"@[0] != "oct"@[0]);
            assert("src"@[0] != "det"@[0]);
            assert("oct"@[0] != "det"@[0]);
            assert(read_flag(t, key, "leaf"@) is Some);
            assert(read_index(t, key, "src"@) is Some);
            assert(read_index(t, key, "oct"@) is Some);
            assert(read_real(t, key, "det"@) == Some(v_detune));
            assert(read_real(t, key, "smix"@) == Some(v_mix));
            assert(read_real(t, key, "mdepth"@) == Some(v_mod_depth));
            lemma_octave_index_reads_back(v_octave);
            let ks = seq![octave_knob(key, v_octave), level(key, "det"@, "detune"@, v_detune), level(key, "smix"@, "mix"@, v_mix), level(key, "mdepth"@, "mod depth"@, v_mod_depth)];
            assert forall|j: int| 0 <= j < ks.len() implies knob_live(#[trigger] ks[j], t) by {
                if j == 0 {} else if j == 1 {} else if j == 2 {} else {}
            }
            let h = head(key, column, "supersaw"@, "supersaw"@, ks, "src"@, 0, Some(v_modulation));
            lemma_head_live(key, column, "supersaw"@, "supersaw"@, ks, "src"@, 0, Some(v_modulation), t);
        },
        _ => {},
    }
}


/// What a recorded noise shows is live in a trace that agrees with the
/// recording below its key.
#[verifier::rlimit(40)]
proof fn lemma_live_noise(
    t: Map<Seq<char>, SiteValue>,
    key: Seq<char>,
    n: AudioNode,
    base: Map<Seq<char>, SiteValue>,
    column: int,
)
    requires
        n is Noise,
        is_plain(key),
        forall|a: Seq<char>|
            #[trigger] below(a, key) ==> spec_lookup(t, a) == spec_lookup(
                spec_encode_node(n, key, base),
                a,
            ),
    ensures
        rack_live(spec_describe_node(n, key, column), t),
    decreases n, 0nat,
{
    lemma_layout(key);
    lemma_address_injective_forall(key);
    lemma_rack_sites_plain();
    reveal_strlit("leaf");
    lemma_knob_address(key, "leaf"@);
    reveal_strlit("src");
    lemma_knob_address(key, "src"@);
    reveal_strlit("color");
    lemma_knob_address(key, "color"@);
    match n {
AudioNode::Noise { color: v_color } => {
            let e = spec_put(base, key, "leaf"@, SiteValue::Flag(true));
            let e = spec_put(e, key, "src"@, SiteValue::Index(2));
            let e = spec_put(e, key, "color"@, SiteValue::Index(v_color.spec_index() as usize));
            assert(read_flag(t, key, "leaf"@) is Some);
            assert(read_index(t, key, "src"@) is Some);
            assert(read_index(t, key, "color"@) is Some);
            let ks = seq![choice(key, "color"@, "color"@, v_color.spec_index(), spec_noise_options())];
            assert forall|j: int| 0 <= j < ks.len() implies knob_live(#[trigger] ks[j], t) by {
                {}
            }
            let h = head(key, column, "noise"@, "noise"@, ks, "src"@, 0, None);
            lemma_head_live(key, column, "noise"@, "noise"@, ks, "src"@, 0, None, t);
        },
        _ => {},
    }
}


/// What a recorded wavetable shows is live in a trace that agrees with the
/// recording below its key.
#[verifier::rlimit(40)]
proof fn lemma_live_wavetable(
    t: Map<Seq<char>, SiteValue>,
    key: Seq<char>,
    n: AudioNode,
    base: Map<Seq<char>, SiteValue>,
    column: int,
)
    requires
        n is Wavetable,
        is_plain(key),
        forall|a: Seq<char>|
            #[trigger] below(a, key) ==> spec_lookup(t, a) == spec_lookup(
                spec_encode_node(n, key, base),
                a,
            ),
    ensures
        rack_live(spec_describe_node(n, key, column), t),
    decreases n, 0nat,
{
    lemma_layout(key);
    lemma_address_injective_forall(key);
    lemma_rack_sites_plain();
    reveal_strlit("leaf");
    lemma_knob_address(key, "leaf"@);
    reveal_strlit("src");
    lemma_knob_address(key, "src"@);
    reveal_strlit("table");
    lemma_knob_address(key, "table"@);
    reveal_strlit("oct");
    lemma_knob_address(key, "oct"@);
    reveal_strlit("morph");
    lemma_knob_address(key, "morph"@);
    reveal_strlit("mdepth");
    lemma_knob_address(key, "mdepth"@);
    match n {
AudioNode::Wavetable { table: v_table, octave: v_octave, morph: v_morph, mod_depth: v_mod_depth, modulation: v_modulation } => {
            let e = spec_put(base, key, "leaf"@, SiteValue::Flag(true));
            let e = spec_put(e, key, "src"@, SiteValue::Index(3));
            let e = spec_put(e, key, "table"@, SiteValue::Index(v_table.spec_index() as usize));
            let e = spec_put(e, key, "oct"@, SiteValue::Index(spec_octave_index(v_octave)));
            let e = spec_put(e, key, "morph"@, SiteValue::Real(v_morph));
            let e = spec_put(e, key, "mdepth"@, SiteValue::Real(v_mod_depth));
            let km = spec_mod_key(key);
            lemma_encode_mod_frame(v_modulation, km, e);
            let em = spec_encode_mod(v_modulation, km, e);
            assert forall|a: Seq<char>| #[trigger] below(a, km) implies spec_lookup(t, a) == spec_lookup(em, a) by {}
            lemma_mod_live(t, km, v_modulation, e, key, column + 1);
            assert("src"@[0] != "oct"@[0]);
            assert("table"@[0] != "morph"@[0]);
            assert(read_flag(t, key, "leaf"@) is Some);
            assert(read_index(t, key, "src"@) is Some);
            assert(read_index(t, key, "table"@) is Some);
            assert(read_index(t, key, "oct"@) is Some);
            assert(read_real(t, key, "morph"@) == Some(v_morph));
            assert(read_real(t, key, "mdepth"@) == Some(v_mod_depth));
            lemma_octave_index_reads_back(v_octave);
            let ks = seq![choice(key, "table"@, "table"@, v_table.spec_index(), spec_table_options()), octave_knob(key, v_octave), level(key, "morph"@, "morph"@, v_morph), level(key, "mdepth"@, "mod depth"@, v_mod_depth)];
            assert forall|j: int| 0 <= j < ks.len() implies knob_live(#[trigger] ks[j], t) by {
                if j == 0 {} else if j == 1 {} else if j == 2 {} else {}
            }
            let h = head(key, column, "wavetable"@, "wavetable"@, ks, "src"@, 0, Some(v_modulation));
            lemma_head_live(key, column, "wavetable"@, "wavetable"@, ks, "src"@, 0, Some(v_modulation), t);
        },
        _ => {},
    }
}


/// What a recorded pluck shows is live in a trace that agrees with the
/// recording below its key.
#[verifier::rlimit(40)]
proof fn lemma_live_pluck(
    t: Map<Seq<char>, SiteValue>,
    key: Seq<char>,
    n: AudioNode,
    base: Map<Seq<char>, SiteValue>,
    column: int,
)
    requires
        n is Pluck,
        is_plain(key),
        forall|a: Seq<char>|
            #[trigger] below(a, key) ==> spec_lookup(t, a) == spec_lookup(
                spec_encode_node(n, key, base),
                a,
            ),
    ensures
        rack_live(spec_describe_node(n, key, column), t),
    decreases n, 0nat,
{
    lemma_layout(key);
    lemma_address_injective_forall(key);
    lemma_rack_sites_plain();
    reveal_strlit("leaf");
    lemma_knob_address(key, "leaf"@);
    reveal_strlit("src");
    lemma_knob_address(key, "src"@);
    reveal_strlit("oct");
    lemma_knob_address(key, "oct"@);
    reveal_strlit("damp");
    lemma_knob_address(key, "damp"@);
    reveal_strlit("bright");
    lemma_knob_address(key, "bright"@);
    reveal_strlit("mdepth");
    lemma_knob_address(key, "mdepth"@);
    match n {
AudioNode::Pluck { octave: v_octave, damping: v_damping, brightness: v_brightness, mod_depth: v_mod_depth, modulation: v_modulation } => {
            let e = spec_put(base, key, "leaf"@, SiteValue::Flag(true));
            let e = spec_put(e, key, "src"@, SiteValue::Index(4));
            let e = spec_put(e, key, "oct"@, SiteValue::Index(spec_octave_index(v_octave)));
            let e = spec_put(e, key, "damp"@, SiteValue::Real(v_damping));
            let e = spec_put(e, key, "bright"@, SiteValue::Real(v_brightness));
            let e = spec_put(e, key, "mdepth"@, SiteValue::Real(v_mod_depth));
            let km = spec_mod_key(key);
            lemma_encode_mod_frame(v_modulation, km, e);
            let em = spec_encode_mod(v_modulation, km, e);
            assert forall|a: Seq<char>| #[trigger] below(a, km) implies spec_lookup(t, a) == spec_lookup(em, a) by {}
            lemma_mod_live(t, km, v_modulation, e, key, column + 1);
            assert("leaf"@[0] != "damp"@[0]);
            assert("src"@[0] != "oct"@[0]);
            assert("bright"@[0] != "mdepth"@[0]);
            assert(read_flag(t, key, "leaf"@) is Some);
            assert(read_index(t, key, "src"@) is Some);
            assert(read_index(t, key, "oct"@) is Some);
            assert(read_real(t, key, "damp"@) == Some(v_damping));
            assert(read_real(t, key, "bright"@) == Some(v_brightness));
            assert(read_real(t, key, "mdepth"@) == Some(v_mod_depth));
            lemma_octave_index_reads_back(v_octave);
            let ks = seq![octave_knob(key, v_octave), level(key, "damp"@, "decay"@, v_damping), level(key, "bright"@, "brightness"@, v_brightness), level(key, "mdepth"@, "mod depth"@, v_mod_depth)];
            assert forall|j: int| 0 <= j < ks.len() implies knob_live(#[trigger] ks[j], t) by {
                if j == 0 {} else if j == 1 {} else if j == 2 {} else {}
            }
            let h = head(key, column, "pluck"@, "pluck"@, ks, "src"@, 0, Some(v_modulation));
            lemma_head_live(key, column, "pluck"@, "pluck"@, ks, "src"@, 0, Some(v_modulation), t);
        },
        _ => {},
    }
}


/// What a recorded formant shows is live in a trace that agrees with the
/// recording below its key.
#[verifier::rlimit(40)]
proof fn lemma_live_formant(
    t: Map<Seq<char>, SiteValue>,
    key: Seq<char>,
    n: AudioNode,
    base: Map<Seq<char>, SiteValue>,
    column: int,
)
    requires
        n is Formant,
        is_plain(key),
        forall|a: Seq<char>|
            #[trigger] below(a, key) ==> spec_lookup(t, a) == spec_lookup(
                spec_encode_node(n, key, base),
                a,
            ),
    ensures
        rack_live(spec_describe_node(n, key, column), t),
    decreases n, 0nat,
{
    lemma_layout(key);
    lemma_address_injective_forall(key);
    lemma_rack_sites_plain();
    reveal_strlit("leaf");
    lemma_knob_address(key, "leaf"@);
    reveal_strlit("src");
    lemma_knob_address(key, "src"@);
    reveal_strlit("vowel");
    lemma_knob_address(key, "vowel"@);
    reveal_strlit("fshift");
    lemma_knob_address(key, "fshift"@);
    reveal_strlit("oct");
    lemma_knob_address(key, "oct"@);
    reveal_strlit("mdepth");
    lemma_knob_address(key, "mdepth"@);
    match n {
AudioNode::Formant { vowel: v_vowel, shift: v_shift, octave: v_octave, mod_depth: v_mod_depth, modulation: v_modulation } => {
            let e = spec_put(base, key, "leaf"@, SiteValue::Flag(true));
            let e = spec_put(e, key, "src"@, SiteValue::Index(5));
            let e = spec_put(e, key, "vowel"@, SiteValue::Real(v_vowel));
            let e = spec_put(e, key, "fshift"@, SiteValue::Real(v_shift));
            let e = spec_put(e, key, "oct"@, SiteValue::Index(spec_octave_index(v_octave)));
            let e = spec_put(e, key, "mdepth"@, SiteValue::Real(v_mod_depth));
            let km = spec_mod_key(key);
            lemma_encode_mod_frame(v_modulation, km, e);
            let em = spec_encode_mod(v_modulation, km, e);
            assert forall|a: Seq<char>| #[trigger] below(a, km) implies spec_lookup(t, a) == spec_lookup(em, a) by {}
            lemma_mod_live(t, km, v_modulation, e, key, column + 1);
            assert("src"@[0] != "oct"@[0]);
            assert("fshift"@[0] != "mdepth"@[0]);
            assert(read_flag(t, key, "leaf"@) is Some);
            assert(read_index(t, key, "src"@) is Some);
            assert(read_real(t, key, "vowel"@) == Some(v_vowel));
            assert(read_real(t, key, "fshift"@) == Some(v_shift));
            assert(read_index(t, key, "oct"@) is Some);
            assert(read_real(t, key, "mdepth"@) == Some(v_mod_depth));
            lemma_octave_index_reads_back(v_octave);
            let ks = seq![level(key, "vowel"@, "vowel"@, v_vowel), level(key, "fshift"@, "shift"@, v_shift), octave_knob(key, v_octave), level(key, "mdepth"@, "mod depth"@, v_mod_depth)];
            assert forall|j: int| 0 <= j < ks.len() implies knob_live(#[trigger] ks[j], t) by {
                if j == 0 {} else if j == 1 {} else if j == 2 {} else {}
            }
            let h = head(key, column, "formant"@, "formant"@, ks, "src"@, 0, Some(v_modulation));
            lemma_head_live(key, column, "formant"@, "formant"@, ks, "src"@, 0, Some(v_modulation), t);
        },
        _ => {},
    }
}


/// What a recorded mix shows is live in a trace that agrees with the
/// recording below its key.
#[verifier::rlimit(40)]
proof fn lemma_live_mix(
    t: Map<Seq<char>, SiteValue>,
    key: Seq<char>,
    n: AudioNode,
    base: Map<Seq<char>, SiteValue>,
    column: int,
)
    requires
        n is Mix,
        is_plain(key),
        forall|a: Seq<char>|
            #[trigger] below(a, key) ==> spec_lookup(t, a) == spec_lookup(
                spec_encode_node(n, key, base),
                a,
            ),
    ensures
        rack_live(spec_describe_node(n, key, column), t),
    decreases n, 0nat,
{
    lemma_layout(key);
    lemma_address_injective_forall(key);
    lemma_rack_sites_plain();
    reveal_strlit("leaf");
    lemma_knob_address(key, "leaf"@);
    reveal_strlit("op");
    lemma_knob_address(key, "op"@);
    reveal_strlit("bal");
    lemma_knob_address(key, "bal"@);
    match n {
AudioNode::Mix { balance: v_balance, a: v_a, b: v_b } => {
            let e = spec_put(base, key, "leaf"@, SiteValue::Flag(false));
            let e = spec_put(e, key, "op"@, SiteValue::Index(0));
            let e = spec_put(e, key, "bal"@, SiteValue::Real(v_balance));
            let k0 = spec_child_key(key, 0);
            lemma_encode_node_frame(*v_a, k0, e);
            let e0 = spec_encode_node(*v_a, k0, e);
            let k1 = spec_child_key(key, 1);
            lemma_encode_node_frame(*v_b, k1, e0);
            let e1 = spec_encode_node(*v_b, k1, e0);
            assert forall|a: Seq<char>| #[trigger] below(a, k0) implies spec_lookup(t, a) == spec_lookup(e0, a) by {}
            lemma_node_live(t, k0, *v_a, e, column + 1);
            assert forall|a: Seq<char>| #[trigger] below(a, k1) implies spec_lookup(t, a) == spec_lookup(e1, a) by {}
            lemma_node_live(t, k1, *v_b, e0, column + 1);
            assert(read_flag(t, key, "leaf"@) is Some);
            assert(read_index(t, key, "op"@) is Some);
            assert(read_real(t, key, "bal"@) == Some(v_balance));
            let ks = seq![level(key, "bal"@, "balance"@, v_balance)];
            assert forall|j: int| 0 <= j < ks.len() implies knob_live(#[trigger] ks[j], t) by {
                {}
            }
            let h = head(key, column, "mix"@, "mix"@, ks, "op"@, 2, None);
            lemma_head_live(key, column, "mix"@, "mix"@, ks, "op"@, 2, None, t);
            let d0 = spec_describe_node(*v_a, k0, column + 1);
            lemma_join_live(h, d0, t);
            let d1 = spec_describe_node(*v_b, k1, column + 1);
            lemma_join_live(join(h, d0), d1, t);
        },
        _ => {},
    }
}


/// What a recorded filter shows is live in a trace that agrees with the
/// recording below its key.
#[verifier::rlimit(40)]
proof fn lemma_live_filter(
    t: Map<Seq<char>, SiteValue>,
    key: Seq<char>,
    n: AudioNode,
    base: Map<Seq<char>, SiteValue>,
    column: int,
)
    requires
        n is Filter,
        is_plain(key),
        forall|a: Seq<char>|
            #[trigger] below(a, key) ==> spec_lookup(t, a) == spec_lookup(
                spec_encode_node(n, key, base),
                a,
            ),
    ensures
        rack_live(spec_describe_node(n, key, column), t),
    decreases n, 0nat,
{
    lemma_layout(key);
    lemma_address_injective_forall(key);
    lemma_rack_sites_plain();
    reveal_strlit("leaf");
    lemma_knob_address(key, "leaf"@);
    reveal_strlit("op");
    lemma_knob_address(key, "op"@);
    reveal_strlit("fkind");
    lemma_knob_address(key, "fkind"@);
    reveal_strlit("cut");
    lemma_knob_address(key, "cut"@);
    reveal_strlit("res");
    lemma_knob_address(key, "res"@);
    reveal_strlit("mdepth");
    lemma_knob_address(key, "mdepth"@);
    match n {
AudioNode::Filter { kind: v_kind, cutoff: v_cutoff, resonance: v_resonance, mod_depth: v_mod_depth, input: v_input, modulation: v_modulation } => {
            let e = spec_put(base, key, "leaf"@, SiteValue::Flag(false));
            let e = spec_put(e, key, "op"@, SiteValue::Index(1));
            let e = spec_put(e, key, "fkind"@, SiteValue::Index(v_kind.spec_index() as usize));
            let e = spec_put(e, key, "cut"@, SiteValue::Real(v_cutoff));
            let e = spec_put(e, key, "res"@, SiteValue::Real(v_resonance));
            let e = spec_put(e, key, "mdepth"@, SiteValue::Real(v_mod_depth));
            let km = spec_mod_key(key);
            lemma_encode_mod_frame(v_modulation, km, e);
            let em = spec_encode_mod(v_modulation, km, e);
            let k0 = spec_child_key(key, 0);
            lemma_encode_node_frame(*v_input, k0, em);
            let e0 = spec_encode_node(*v_input, k0, em);
            assert forall|a: Seq<char>| #[trigger] below(a, km) implies spec_lookup(t, a) == spec_lookup(em, a) by {}
            lemma_mod_live(t, km, v_modulation, e, key, column + 1);
            assert forall|a: Seq<char>| #[trigger] below(a, k0) implies spec_lookup(t, a) == spec_lookup(e0, a) by {}
            lemma_node_live(t, k0, *v_input, em, column + 1);
            assert("cut"@[0] != "res"@[0]);
            assert(read_flag(t, key, "leaf"@) is Some);
            assert(read_index(t, key, "op"@) is Some);
            assert(read_index(t, key, "fkind"@) is Some);
            assert(read_real(t, key, "cut"@) == Some(v_cutoff));
            assert(read_real(t, key, "res"@) == Some(v_resonance));
            assert(read_real(t, key, "mdepth"@) == Some(v_mod_depth));
            let ks = seq![choice(key, "fkind"@, "mode"@, v_kind.spec_index(), spec_filter_options()), level(key, "cut"@, "cutoff"@, v_cutoff), level(key, "res"@, "resonance"@, v_resonance), level(key, "mdepth"@, "mod depth"@, v_mod_depth)];
            assert forall|j: int| 0 <= j < ks.len() implies knob_live(#[trigger] ks[j], t) by {
                if j == 0 {} else if j == 1 {} else if j == 2 {} else {}
            }
            let h = head(key, column, "filter"@, if v_kind == FilterKind::Ladder { "ladder"@ } else { "filter"@ }, ks, "op"@, 1, Some(v_modulation));
            lemma_head_live(key, column, "filter"@, if v_kind == FilterKind::Ladder { "ladder"@ } else { "filter"@ }, ks, "op"@, 1, Some(v_modulation), t);
            let d0 = spec_describe_node(*v_input, k0, column + 1);
            lemma_join_live(h, d0, t);
        },
        _ => {},
    }
}


/// What a recorded fold shows is live in a trace that agrees with the
/// recording below its key.
#[verifier::rlimit(40)]
proof fn lemma_live_fold(
    t: Map<Seq<char>, SiteValue>,
    key: Seq<char>,
    n: AudioNode,
    base: Map<Seq<char>, SiteValue>,
    column: int,
)
    requires
        n is Fold,
        is_plain(key),
        forall|a: Seq<char>|
            #[trigger] below(a, key) ==> spec_lookup(t, a) == spec_lookup(
                spec_encode_node(n, key, base),
                a,
            ),
    ensures
        rack_live(spec_describe_node(n, key, column), t),
    decreases n, 0nat,
{
    lemma_layout(key);
    lemma_address_injective_forall(key);
    lemma_rack_sites_plain();
    reveal_strlit("leaf");
    lemma_knob_address(key, "leaf"@);
    reveal_strlit("op");
    lemma_knob_address(key, "op"@);
    reveal_strlit("thresh");
    lemma_knob_address(key, "thresh"@);
    reveal_strlit("mdepth");
    lemma_knob_address(key, "mdepth"@);
    match n {
AudioNode::Fold { threshold: v_threshold, mod_depth: v_mod_depth, input: v_input, modulation: v_modulation } => {
            let e = spec_put(base, key, "leaf"@, SiteValue::Flag(false));
            let e = spec_put(e, key, "op"@, SiteValue::Index(2));
            let e = spec_put(e, key, "thresh"@, SiteValue::Real(v_threshold));
            let e = spec_put(e, key, "mdepth"@, SiteValue::Real(v_mod_depth));
            let km = spec_mod_key(key);
            lemma_encode_mod_frame(v_modulation, km, e);
            let em = spec_encode_mod(v_modulation, km, e);
            let k0 = spec_child_key(key, 0);
            lemma_encode_node_frame(*v_input, k0, em);
            let e0 = spec_encode_node(*v_input, k0, em);
            assert forall|a: Seq<char>| #[trigger] below(a, km) implies spec_lookup(t, a) == spec_lookup(em, a) by {}
            lemma_mod_live(t, km, v_modulation, e, key, column + 1);
            assert forall|a: Seq<char>| #[trigger] below(a, k0) implies spec_lookup(t, a) == spec_lookup(e0, a) by {}
            lemma_node_live(t, k0, *v_input, em, column + 1);
            assert("thresh"@[0] != "mdepth"@[0]);
            assert(read_flag(t, key, "leaf"@) is Some);
            assert(read_index(t, key, "op"@) is Some);
            assert(read_real(t, key, "thresh"@) == Some(v_threshold));
            assert(read_real(t, key, "mdepth"@) == Some(v_mod_depth));
            let ks = seq![level(key, "thresh"@, "fold"@, v_threshold), level(key, "mdepth"@, "mod depth"@, v_mod_depth)];
            assert forall|j: int| 0 <= j < ks.len() implies knob_live(#[trigger] ks[j], t) by {
                if j == 0 {} else {}
            }
            let h = head(key, column, "fold"@, "wavefolder"@, ks, "op"@, 1, Some(v_modulation));
            lemma_head_live(key, column, "fold"@, "wavefolder"@, ks, "op"@, 1, Some(v_modulation), t);
            let d0 = spec_describe_node(*v_input, k0, column + 1);
            lemma_join_live(h, d0, t);
        },
        _ => {},
    }
}


/// What a recorded delay shows is live in a trace that agrees with the
/// recording below its key.
#[verifier::rlimit(40)]
proof fn lemma_live_delay(
    t: Map<Seq<char>, SiteValue>,
    key: Seq<char>,
    n: AudioNode,
    base: Map<Seq<char>, SiteValue>,
    column: int,
)
    requires
        n is Delay,
        is_plain(key),
        forall|a: Seq<char>|
            #[trigger] below(a, key) ==> spec_lookup(t, a) == spec_lookup(
                spec_encode_node(n, key, base),
                a,
            ),
    ensures
        rack_live(spec_describe_node(n, key, column), t),
    decreases n, 0nat,
{
    lemma_layout(key);
    lemma_address_injective_forall(key);
    lemma_rack_sites_plain();
    reveal_strlit("leaf");
    lemma_knob_address(key, "leaf"@);
    reveal_strlit("op");
    lemma_knob_address(key, "op"@);
    reveal_strlit("time");
    lemma_knob_address(key, "time"@);
    reveal_strlit("fb");
    lemma_knob_address(key, "fb"@);
    reveal_strlit("dmix");
    lemma_knob_address(key, "dmix"@);
    reveal_strlit("mdepth");
    lemma_knob_address(key, "mdepth"@);
    match n {
AudioNode::Delay { time: v_time, feedback: v_feedback, mix: v_mix, mod_depth: v_mod_depth, input: v_input, modulation: v_modulation } => {
            let e = spec_put(base, key, "leaf"@, SiteValue::Flag(false));
            let e = spec_put(e, key, "op"@, SiteValue::Index(3));
            let e = spec_put(e, key, "time"@, SiteValue::Real(v_time));
            let e = spec_put(e, key, "fb"@, SiteValue::Real(v_feedback));
            let e = spec_put(e, key, "dmix"@, SiteValue::Real(v_mix));
            let e = spec_put(e, key, "mdepth"@, SiteValue::Real(v_mod_depth));
            let km = spec_mod_key(key);
            lemma_encode_mod_frame(v_modulation, km, e);
            let em = spec_encode_mod(v_modulation, km, e);
            let k0 = spec_child_key(key, 0);
            lemma_encode_node_frame(*v_input, k0, em);
            let e0 = spec_encode_node(*v_input, k0, em);
            assert forall|a: Seq<char>| #[trigger] below(a, km) implies spec_lookup(t, a) == spec_lookup(em, a) by {}
            lemma_mod_live(t, km, v_modulation, e, key, column + 1);
            assert forall|a: Seq<char>| #[trigger] below(a, k0) implies spec_lookup(t, a) == spec_lookup(e0, a) by {}
            lemma_node_live(t, k0, *v_input, em, column + 1);
            assert("leaf"@[0] != "time"@[0]);
            assert("leaf"@[0] != "dmix"@[0]);
            assert("op"@[0] != "fb"@[0]);
            assert("time"@[0] != "dmix"@[0]);
            assert(read_flag(t, key, "leaf"@) is Some);
            assert(read_index(t, key, "op"@) is Some);
            assert(read_real(t, key, "time"@) == Some(v_time));
            assert(read_real(t, key, "fb"@) == Some(v_feedback));
            assert(read_real(t, key, "dmix"@) == Some(v_mix));
            assert(read_real(t, key, "mdepth"@) == Some(v_mod_depth));
            let ks = seq![level(key, "time"@, "time"@, v_time), level(key, "fb"@, "feedback"@, v_feedback), level(key, "dmix"@, "mix"@, v_mix), level(key, "mdepth"@, "mod depth"@, v_mod_depth)];
            assert forall|j: int| 0 <= j < ks.len() implies knob_live(#[trigger] ks[j], t) by {
                if j == 0 {} else if j == 1 {} else if j == 2 {} else {}
            }
            let h = head(key, column, "delay"@, "delay"@, ks, "op"@, 1, Some(v_modulation));
            lemma_head_live(key, column, "delay"@, "delay"@, ks, "op"@, 1, Some(v_modulation), t);
            let d0 = spec_describe_node(*v_input, k0, column + 1);
            lemma_join_live(h, d0, t);
        },
        _ => {},
    }
}


/// What a recorded chorus shows is live in a trace that agrees with the
/// recording below its key.
#[verifier::rlimit(40)]
proof fn lemma_live_chorus(
    t: Map<Seq<char>, SiteValue>,
    key: Seq<char>,
    n: AudioNode,
    base: Map<Seq<char>, SiteValue>,
    column: int,
)
    requires
        n is Chorus,
        is_plain(key),
        forall|a: Seq<char>|
            #[trigger] below(a, key) ==> spec_lookup(t, a) == spec_lookup(
                spec_encode_node(n, key, base),
                a,
            ),
    ensures
        rack_live(spec_describe_node(n, key, column), t),
    decreases n, 0nat,
{
    lemma_layout(key);
    lemma_address_injective_forall(key);
    lemma_rack_sites_plain();
    reveal_strlit("leaf");
    lemma_knob_address(key, "leaf"@);
    reveal_strlit("op");
    lemma_knob_address(key, "op"@);
    reveal_strlit("crate");
    lemma_knob_address(key, "crate"@);
    reveal_strlit("cdepth");
    lemma_knob_address(key, "cdepth"@);
    reveal_strlit("cmix");
    lemma_knob_address(key, "cmix"@);
    reveal_strlit("mdepth");
    lemma_knob_address(key, "mdepth"@);
    match n {
AudioNode::Chorus { rate: v_rate, depth: v_depth, mix: v_mix, mod_depth: v_mod_depth, input: v_input, modulation: v_modulation } => {
            let e = spec_put(base, key, "leaf"@, SiteValue::Flag(false));
            let e = spec_put(e, key, "op"@, SiteValue::Index(4));
            let e = spec_put(e, key, "crate"@, SiteValue::Real(v_rate));
            let e = spec_put(e, key, "cdepth"@, SiteValue::Real(v_depth));
            let e = spec_put(e, key, "cmix"@, SiteValue::Real(v_mix));
            let e = spec_put(e, key, "mdepth"@, SiteValue::Real(v_mod_depth));
            let km = spec_mod_key(key);
            lemma_encode_mod_frame(v_modulation, km, e);
            let em = spec_encode_mod(v_modulation, km, e);
            let k0 = spec_child_key(key, 0);
            lemma_encode_node_frame(*v_input, k0, em);
            let e0 = spec_encode_node(*v_input, k0, em);
            assert forall|a: Seq<char>| #[trigger] below(a, km) implies spec_lookup(t, a) == spec_lookup(em, a) by {}
            lemma_mod_live(t, km, v_modulation, e, key, column + 1);
            assert forall|a: Seq<char>| #[trigger] below(a, k0) implies spec_lookup(t, a) == spec_lookup(e0, a) by {}
            lemma_node_live(t, k0, *v_input, em, column + 1);
            assert("leaf"@[0] != "cmix"@[0]);
            assert("cdepth"@[0] != "mdepth"@[0]);
            assert(read_flag(t, key, "leaf"@) is Some);
            assert(read_index(t, key, "op"@) is Some);
            assert(read_real(t, key, "crate"@) == Some(v_rate));
            assert(read_real(t, key, "cdepth"@) == Some(v_depth));
            assert(read_real(t, key, "cmix"@) == Some(v_mix));
            assert(read_real(t, key, "mdepth"@) == Some(v_mod_depth));
            let ks = seq![level(key, "crate"@, "rate"@, v_rate), level(key, "cdepth"@, "depth"@, v_depth), level(key, "cmix"@, "mix"@, v_mix), level(key, "mdepth"@, "mod depth"@, v_mod_depth)];
            assert forall|j: int| 0 <= j < ks.len() implies knob_live(#[trigger] ks[j], t) by {
                if j == 0 {} else if j == 1 {} else if j == 2 {} else {}
            }
            let h = head(key, column, "chorus"@, "chorus"@, ks, "op"@, 1, Some(v_modulation));
            lemma_head_live(key, column, "chorus"@, "chorus"@, ks, "op"@, 1, Some(v_modulation), t);
            let d0 = spec_describe_node(*v_input, k0, column + 1);
            lemma_join_live(h, d0, t);
        },
        _ => {},
    }
}


/// What a recorded reverb shows is live in a trace that agrees with the
/// recording below its key.
#[verifier::rlimit(40)]
proof fn lemma_live_reverb(
    t: Map<Seq<char>, SiteValue>,
    key: Seq<char>,
    n: AudioNode,
    base: Map<Seq<char>, SiteValue>,
    column: int,
)
    requires
        n is Reverb,
        is_plain(key),
        forall|a: Seq<char>|
            #[trigger] below(a, key) ==> spec_lookup(t, a) == spec_lookup(
                spec_encode_node(n, key, base),
                a,
            ),
    ensures
        rack_live(spec_describe_node(n, key, column), t),
    decreases n, 0nat,
{
    lemma_layout(key);
    lemma_address_injective_forall(key);
    lemma_rack_sites_plain();
    reveal_strlit("leaf");
    lemma_knob_address(key, "leaf"@);
    reveal_strlit("op");
    lemma_knob_address(key, "op"@);
    reveal_strlit("rsize");
    lemma_knob_address(key, "rsize"@);
    reveal_strlit("rdamp");
    lemma_knob_address(key, "rdamp"@);
    reveal_strlit("rmix");
    lemma_knob_address(key, "rmix"@);
    reveal_strlit("mdepth");
    lemma_knob_address(key, "mdepth"@);
    match n {
AudioNode::Reverb { size: v_size, damp: v_damp, mix: v_mix, mod_depth: v_mod_depth, input: v_input, modulation: v_modulation } => {
            let e = spec_put(base, key, "leaf"@, SiteValue::Flag(false));
            let e = spec_put(e, key, "op"@, SiteValue::Index(5));
            let e = spec_put(e, key, "rsize"@, SiteValue::Real(v_size));
            let e = spec_put(e, key, "rdamp"@, SiteValue::Real(v_damp));
            let e = spec_put(e, key, "rmix"@, SiteValue::Real(v_mix));
            let e = spec_put(e, key, "mdepth"@, SiteValue::Real(v_mod_depth));
            let km = spec_mod_key(key);
            lemma_encode_mod_frame(v_modulation, km, e);
            let em = spec_encode_mod(v_modulation, km, e);
            let k0 = spec_child_key(key, 0);
            lemma_encode_node_frame(*v_input, k0, em);
            let e0 = spec_encode_node(*v_input, k0, em);
            assert forall|a: Seq<char>| #[trigger] below(a, km) implies spec_lookup(t, a) == spec_lookup(em, a) by {}
            lemma_mod_live(t, km, v_modulation, e, key, column + 1);
            assert forall|a: Seq<char>| #[trigger] below(a, k0) implies spec_lookup(t, a) == spec_lookup(e0, a) by {}
            lemma_node_live(t, k0, *v_input, em, column + 1);
            assert("leaf"@[0] != "rmix"@[0]);
            assert("rsize"@[1] != "rdamp"@[1]);
            assert(read_flag(t, key, "leaf"@) is Some);
            assert(read_index(t, key, "op"@) is Some);
            assert(read_real(t, key, "rsize"@) == Some(v_size));
            assert(read_real(t, key, "rdamp"@) == Some(v_damp));
            assert(read_real(t, key, "rmix"@) == Some(v_mix));
            assert(read_real(t, key, "mdepth"@) == Some(v_mod_depth));
            let ks = seq![level(key, "rsize"@, "size"@, v_size), level(key, "rdamp"@, "damp"@, v_damp), level(key, "rmix"@, "mix"@, v_mix), level(key, "mdepth"@, "mod depth"@, v_mod_depth)];
            assert forall|j: int| 0 <= j < ks.len() implies knob_live(#[trigger] ks[j], t) by {
                if j == 0 {} else if j == 1 {} else if j == 2 {} else {}
            }
            let h = head(key, column, "reverb"@, "reverb"@, ks, "op"@, 1, Some(v_modulation));
            lemma_head_live(key, column, "reverb"@, "reverb"@, ks, "op"@, 1, Some(v_modulation), t);
            let d0 = spec_describe_node(*v_input, k0, column + 1);
            lemma_join_live(h, d0, t);
        },
        _ => {},
    }
}


/// What a recorded distortion shows is live in a trace that agrees with the
/// recording below its key.
#[verifier::rlimit(40)]
proof fn lemma_live_distortion(
    t: Map<Seq<char>, SiteValue>,
    key: Seq<char>,
    n: AudioNode,
    base: Map<Seq<char>, SiteValue>,
    column: int,
)
    requires
        n is Distortion,
        is_plain(key),
        forall|a: Seq<char>|
            #[trigger] below(a, key) ==> spec_lookup(t, a) == spec_lookup(
                spec_encode_node(n, key, base),
                a,
            ),
    ensures
        rack_live(spec_describe_node(n, key, column), t),
    decreases n, 0nat,
{
    lemma_layout(key);
    lemma_address_injective_forall(key);
    lemma_rack_sites_plain();
    reveal_strlit("leaf");
    lemma_knob_address(key, "leaf"@);
    reveal_strlit("op");
    lemma_knob_address(key, "op"@);
    reveal_strlit("drive");
    lemma_knob_address(key, "drive"@);
    reveal_strlit("tone");
    lemma_knob_address(key, "tone"@);
    reveal_strlit("dmode");
    lemma_knob_address(key, "dmode"@);
    reveal_strlit("mdepth");
    lemma_knob_address(key, "mdepth"@);
    match n {
AudioNode::Distortion { drive: v_drive, tone: v_tone, mode: v_mode, mod_depth: v_mod_depth, input: v_input, modulation: v_modulation } => {
            let e = spec_put(base, key, "leaf"@, SiteValue::Flag(false));
            let e = spec_put(e, key, "op"@, SiteValue::Index(6));
            let e = spec_put(e, key, "drive"@, SiteValue::Real(v_drive));
            let e = spec_put(e, key, "tone"@, SiteValue::Real(v_tone));
            let e = spec_put(e, key, "dmode"@, SiteValue::Index(v_mode.spec_index() as usize));
            let e = spec_put(e, key, "mdepth"@, SiteValue::Real(v_mod_depth));
            let km = spec_mod_key(key);
            lemma_encode_mod_frame(v_modulation, km, e);
            let em = spec_encode_mod(v_modulation, km, e);
            let k0 = spec_child_key(key, 0);
            lemma_encode_node_frame(*v_input, k0, em);
            let e0 = spec_encode_node(*v_input, k0, em);
            assert forall|a: Seq<char>| #[trigger] below(a, km) implies spec_lookup(t, a) == spec_lookup(em, a) by {}
            lemma_mod_live(t, km, v_modulation, e, key, column + 1);
            assert forall|a: Seq<char>| #[trigger] below(a, k0) implies spec_lookup(t, a) == spec_lookup(e0, a) by {}
            lemma_node_live(t, k0, *v_input, em, column + 1);
            assert("leaf"@[0] != "tone"@[0]);
            assert("drive"@[1] != "dmode"@[1]);
            assert(read_flag(t, key, "leaf"@) is Some);
            assert(read_index(t, key, "op"@) is Some);
            assert(read_real(t, key, "drive"@) == Some(v_drive));
            assert(read_real(t, key, "tone"@) == Some(v_tone));
            assert(read_index(t, key, "dmode"@) is Some);
            assert(read_real(t, key, "mdepth"@) == Some(v_mod_depth));
            let ks = seq![level(key, "drive"@, "drive"@, v_drive), level(key, "tone"@, "tone"@, v_tone), choice(key, "dmode"@, "mode"@, v_mode.spec_index(), spec_drive_mode_options()), level(key, "mdepth"@, "mod depth"@, v_mod_depth)];
            assert forall|j: int| 0 <= j < ks.len() implies knob_live(#[trigger] ks[j], t) by {
                if j == 0 {} else if j == 1 {} else if j == 2 {} else {}
            }
            let h = head(key, column, "distortion"@, "distortion"@, ks, "op"@, 1, Some(v_modulation));
            lemma_head_live(key, column, "distortion"@, "distortion"@, ks, "op"@, 1, Some(v_modulation), t);
            let d0 = spec_describe_node(*v_input, k0, column + 1);
            lemma_join_live(h, d0, t);
        },
        _ => {},
    }
}


/// What a recorded bitcrush shows is live in a trace that agrees with the
/// recording below its key.
#[verifier::rlimit(40)]
proof fn lemma_live_bitcrush(
    t: Map<Seq<char>, SiteValue>,
    key: Seq<char>,
    n: AudioNode,
    base: Map<Seq<char>, SiteValue>,
    column: int,
)
    requires
        n is Bitcrush,
        is_plain(key),
        forall|a: Seq<char>|
            #[trigger] below(a, key) ==> spec_lookup(t, a) == spec_lookup(
                spec_encode_node(n, key, base),
                a,
            ),
    ensures
        rack_live(spec_describe_node(n, key, column), t),
    decreases n, 0nat,
{
    lemma_layout(key);
    lemma_address_injective_forall(key);
    lemma_rack_sites_plain();
    reveal_strlit("leaf");
    lemma_knob_address(key, "leaf"@);
    reveal_strlit("op");
    lemma_knob_address(key, "op"@);
    reveal_strlit("bits");
    lemma_knob_address(key, "bits"@);
    reveal_strlit("dsamp");
    lemma_knob_address(key, "dsamp"@);
    reveal_strlit("mdepth");
    lemma_knob_address(key, "mdepth"@);
    match n {
AudioNode::Bitcrush { bits: v_bits, downsample: v_downsample, mod_depth: v_mod_depth, input: v_input, modulation: v_modulation } => {
            let e = spec_put(base, key, "leaf"@, SiteValue::Flag(false));
            let e = spec_put(e, key, "op"@, SiteValue::Index(7));
            let e = spec_put(e, key, "bits"@, SiteValue::Real(v_bits));
            let e = spec_put(e, key, "dsamp"@, SiteValue::Real(v_downsample));
            let e = spec_put(e, key, "mdepth"@, SiteValue::Real(v_mod_depth));
            let km = spec_mod_key(key);
            lemma_encode_mod_frame(v_modulation, km, e);
            let em = spec_encode_mod(v_modulation, km, e);
            let k0 = spec_child_key(key, 0);
            lemma_encode_node_frame(*v_input, k0, em);
            let e0 = spec_encode_node(*v_input, k0, em);
            assert forall|a: Seq<char>| #[trigger] below(a, km) implies spec_lookup(t, a) == spec_lookup(em, a) by {}
            lemma_mod_live(t, km, v_modulation, e, key, column + 1);
            assert forall|a: Seq<char>| #[trigger] below(a, k0) implies spec_lookup(t, a) == spec_lookup(e0, a) by {}
            lemma_node_live(t, k0, *v_input, em, column + 1);
            assert("leaf"@[0] != "bits"@[0]);
            assert(read_flag(t, key, "leaf"@) is Some);
            assert(read_index(t, key, "op"@) is Some);
            assert(read_real(t, key, "bits"@) == Some(v_bits));
            assert(read_real(t, key, "dsamp"@) == Some(v_downsample));
            assert(read_real(t, key, "mdepth"@) == Some(v_mod_depth));
            let ks = seq![level(key, "bits"@, "bits"@, v_bits), level(key, "dsamp"@, "rate"@, v_downsample), level(key, "mdepth"@, "mod depth"@, v_mod_depth)];
            assert forall|j: int| 0 <= j < ks.len() implies knob_live(#[trigger] ks[j], t) by {
                if j == 0 {} else if j == 1 {} else {}
            }
            let h = head(key, column, "bitcrush"@, "bitcrush"@, ks, "op"@, 1, Some(v_modulation));
            lemma_head_live(key, column, "bitcrush"@, "bitcrush"@, ks, "op"@, 1, Some(v_modulation), t);
            let d0 = spec_describe_node(*v_input, k0, column + 1);
            lemma_join_live(h, d0, t);
        },
        _ => {},
    }
}


/// What a recorded phaser shows is live in a trace that agrees with the
/// recording below its key.
#[verifier::rlimit(40)]
proof fn lemma_live_phaser(
    t: Map<Seq<char>, SiteValue>,
    key: Seq<char>,
    n: AudioNode,
    base: Map<Seq<char>, SiteValue>,
    column: int,
)
    requires
        n is Phaser,
        is_plain(key),
        forall|a: Seq<char>|
            #[trigger] below(a, key) ==> spec_lookup(t, a) == spec_lookup(
                spec_encode_node(n, key, base),
                a,
            ),
    ensures
        rack_live(spec_describe_node(n, key, column), t),
    decreases n, 0nat,
{
    lemma_layout(key);
    lemma_address_injective_forall(key);
    lemma_rack_sites_plain();
    reveal_strlit("leaf");
    lemma_knob_address(key, "leaf"@);
    reveal_strlit("op");
    lemma_knob_address(key, "op"@);
    reveal_strlit("prate");
    lemma_knob_address(key, "prate"@);
    reveal_strlit("pdepth");
    lemma_knob_address(key, "pdepth"@);
    reveal_strlit("pfb");
    lemma_knob_address(key, "pfb"@);
    reveal_strlit("mdepth");
    lemma_knob_address(key, "mdepth"@);
    match n {
AudioNode::Phaser { rate: v_rate, depth: v_depth, feedback: v_feedback, mod_depth: v_mod_depth, input: v_input, modulation: v_modulation } => {
            let e = spec_put(base, key, "leaf"@, SiteValue::Flag(false));
            let e = spec_put(e, key, "op"@, SiteValue::Index(8));
            let e = spec_put(e, key, "prate"@, SiteValue::Real(v_rate));
            let e = spec_put(e, key, "pdepth"@, SiteValue::Real(v_depth));
            let e = spec_put(e, key, "pfb"@, SiteValue::Real(v_feedback));
            let e = spec_put(e, key, "mdepth"@, SiteValue::Real(v_mod_depth));
            let km = spec_mod_key(key);
            lemma_encode_mod_frame(v_modulation, km, e);
            let em = spec_encode_mod(v_modulation, km, e);
            let k0 = spec_child_key(key, 0);
            lemma_encode_node_frame(*v_input, k0, em);
            let e0 = spec_encode_node(*v_input, k0, em);
            assert forall|a: Seq<char>| #[trigger] below(a, km) implies spec_lookup(t, a) == spec_lookup(em, a) by {}
            lemma_mod_live(t, km, v_modulation, e, key, column + 1);
            assert forall|a: Seq<char>| #[trigger] below(a, k0) implies spec_lookup(t, a) == spec_lookup(e0, a) by {}
            lemma_node_live(t, k0, *v_input, em, column + 1);
            assert("pdepth"@[0] != "mdepth"@[0]);
            assert(read_flag(t, key, "leaf"@) is Some);
            assert(read_index(t, key, "op"@) is Some);
            assert(read_real(t, key, "prate"@) == Some(v_rate));
            assert(read_real(t, key, "pdepth"@) == Some(v_depth));
            assert(read_real(t, key, "pfb"@) == Some(v_feedback));
            assert(read_real(t, key, "mdepth"@) == Some(v_mod_depth));
            let ks = seq![level(key, "prate"@, "rate"@, v_rate), level(key, "pdepth"@, "depth"@, v_depth), level(key, "pfb"@, "feedback"@, v_feedback), level(key, "mdepth"@, "mod depth"@, v_mod_depth)];
            assert forall|j: int| 0 <= j < ks.len() implies knob_live(#[trigger] ks[j], t) by {
                if j == 0 {} else if j == 1 {} else if j == 2 {} else {}
            }
            let h = head(key, column, "phaser"@, "phaser"@, ks, "op"@, 1, Some(v_modulation));
            lemma_head_live(key, column, "phaser"@, "phaser"@, ks, "op"@, 1, Some(v_modulation), t);
            let d0 = spec_describe_node(*v_input, k0, column + 1);
            lemma_join_live(h, d0, t);
        },
        _ => {},
    }
}


/// What a recorded ring mod shows is live in a trace that agrees with the
/// recording below its key.
#[verifier::rlimit(40)]
proof fn lemma_live_ring_mod(
    t: Map<Seq<char>, SiteValue>,
    key: Seq<char>,
    n: AudioNode,
    base: Map<Seq<char>, SiteValue>,
    column: int,
)
    requires
        n is RingMod,
        is_plain(key),
        forall|a: Seq<char>|
            #[trigger] below(a, key) ==> spec_lookup(t, a) == spec_lookup(
                spec_encode_node(n, key, base),
                a,
            ),
    ensures
        rack_live(spec_describe_node(n, key, column), t),
    decreases n, 0nat,
{
    lemma_layout(key);
    lemma_address_injective_forall(key);
    lemma_rack_sites_plain();
    reveal_strlit("leaf");
    lemma_knob_address(key, "leaf"@);
    reveal_strlit("op");
    lemma_knob_address(key, "op"@);
    reveal_strlit("rgmix");
    lemma_knob_address(key, "rgmix"@);
    match n {
AudioNode::RingMod { mix: v_mix, a: v_a, b: v_b } => {
            let e = spec_put(base, key, "leaf"@, SiteValue::Flag(false));
            let e = spec_put(e, key, "op"@, SiteValue::Index(9));
            let e = spec_put(e, key, "rgmix"@, SiteValue::Real(v_mix));
            let k0 = spec_child_key(key, 0);
            lemma_encode_node_frame(*v_a, k0, e);
            let e0 = spec_encode_node(*v_a, k0, e);
            let k1 = spec_child_key(key, 1);
            lemma_encode_node_frame(*v_b, k1, e0);
            let e1 = spec_encode_node(*v_b, k1, e0);
            assert forall|a: Seq<char>| #[trigger] below(a, k0) implies spec_lookup(t, a) == spec_lookup(e0, a) by {}
            lemma_node_live(t, k0, *v_a, e, column + 1);
            assert forall|a: Seq<char>| #[trigger] below(a, k1) implies spec_lookup(t, a) == spec_lookup(e1, a) by {}
            lemma_node_live(t, k1, *v_b, e0, column + 1);
            assert(read_flag(t, key, "leaf"@) is Some);
            assert(read_index(t, key, "op"@) is Some);
            assert(read_real(t, key, "rgmix"@) == Some(v_mix));
            let ks = seq![level(key, "rgmix"@, "mix"@, v_mix)];
            assert forall|j: int| 0 <= j < ks.len() implies knob_live(#[trigger] ks[j], t) by {
                {}
            }
            let h = head(key, column, "ringmod"@, "ring mod"@, ks, "op"@, 2, None);
            lemma_head_live(key, column, "ringmod"@, "ring mod"@, ks, "op"@, 2, None, t);
            let d0 = spec_describe_node(*v_a, k0, column + 1);
            lemma_join_live(h, d0, t);
            let d1 = spec_describe_node(*v_b, k1, column + 1);
            lemma_join_live(join(h, d0), d1, t);
        },
        _ => {},
    }
}


/// What a recorded flanger shows is live in a trace that agrees with the
/// recording below its key.
#[verifier::rlimit(40)]
proof fn lemma_live_flanger(
    t: Map<Seq<char>, SiteValue>,
    key: Seq<char>,
    n: AudioNode,
    base: Map<Seq<char>, SiteValue>,
    column: int,
)
    requires
        n is Flanger,
        is_plain(key),
        forall|a: Seq<char>|
            #[trigger] below(a, key) ==> spec_lookup(t, a) == spec_lookup(
                spec_encode_node(n, key, base),
                a,
            ),
    ensures
        rack_live(spec_describe_node(n, key, column), t),
    decreases n, 0nat,
{
    lemma_layout(key);
    lemma_address_injective_forall(key);
    lemma_rack_sites_plain();
    reveal_strlit("leaf");
    lemma_knob_address(key, "leaf"@);
    reveal_strlit("op");
    lemma_knob_address(key, "op"@);
    reveal_strlit("frate");
    lemma_knob_address(key, "frate"@);
    reveal_strlit("fdepth");
    lemma_knob_address(key, "fdepth"@);
    reveal_strlit("ffb");
    lemma_knob_address(key, "ffb"@);
    reveal_strlit("mdepth");
    lemma_knob_address(key, "mdepth"@);
    match n {
AudioNode::Flanger { rate: v_rate, depth: v_depth, feedback: v_feedback, mod_depth: v_mod_depth, input: v_input, modulation: v_modulation } => {
            let e = spec_put(base, key, "leaf"@, SiteValue::Flag(false));
            let e = spec_put(e, key, "op"@, SiteValue::Index(10));
            let e = spec_put(e, key, "frate"@, SiteValue::Real(v_rate));
            let e = spec_put(e, key, "fdepth"@, SiteValue::Real(v_depth));
            let e = spec_put(e, key, "ffb"@, SiteValue::Real(v_feedback));
            let e = spec_put(e, key, "mdepth"@, SiteValue::Real(v_mod_depth));
            let km = spec_mod_key(key);
            lemma_encode_mod_frame(v_modulation, km, e);
            let em = spec_encode_mod(v_modulation, km, e);
            let k0 = spec_child_key(key, 0);
            lemma_encode_node_frame(*v_input, k0, em);
            let e0 = spec_encode_node(*v_input, k0, em);
            assert forall|a: Seq<char>| #[trigger] below(a, km) implies spec_lookup(t, a) == spec_lookup(em, a) by {}
            lemma_mod_live(t, km, v_modulation, e, key, column + 1);
            assert forall|a: Seq<char>| #[trigger] below(a, k0) implies spec_lookup(t, a) == spec_lookup(e0, a) by {}
            lemma_node_live(t, k0, *v_input, em, column + 1);
            assert("fdepth"@[0] != "mdepth"@[0]);
            assert(read_flag(t, key, "leaf"@) is Some);
            assert(read_index(t, key, "op"@) is Some);
            assert(read_real(t, key, "frate"@) == Some(v_rate));
            assert(read_real(t, key, "fdepth"@) == Some(v_depth));
            assert(read_real(t, key, "ffb"@) == Some(v_feedback));
            assert(read_real(t, key, "mdepth"@) == Some(v_mod_depth));
            let ks = seq![level(key, "frate"@, "rate"@, v_rate), level(key, "fdepth"@, "depth"@, v_depth), level(key, "ffb"@, "feedback"@, v_feedback), level(key, "mdepth"@, "mod depth"@, v_mod_depth)];
            assert forall|j: int| 0 <= j < ks.len() implies knob_live(#[trigger] ks[j], t) by {
                if j == 0 {} else if j == 1 {} else if j == 2 {} else {}
            }
            let h = head(key, column, "flanger"@, "flanger"@, ks, "op"@, 1, Some(v_modulation));
            lemma_head_live(key, column, "flanger"@, "flanger"@, ks, "op"@, 1, Some(v_modulation), t);
            let d0 = spec_describe_node(*v_input, k0, column + 1);
            lemma_join_live(h, d0, t);
        },
        _ => {},
    }
}


/// What a recorded tremolo shows is live in a trace that agrees with the
/// recording below its key.
#[verifier::rlimit(40)]
proof fn lemma_live_tremolo(
    t: Map<Seq<char>, SiteValue>,
    key: Seq<char>,
    n: AudioNode,
    base: Map<Seq<char>, SiteValue>,
    column: int,
)
    requires
        n is Tremolo,
        is_plain(key),
        forall|a: Seq<char>|
            #[trigger] below(a, key) ==> spec_lookup(t, a) == spec_lookup(
                spec_encode_node(n, key, base),
                a,
            ),
    ensures
        rack_live(spec_describe_node(n, key, column), t),
    decreases n, 0nat,
{
    lemma_layout(key);
    lemma_address_injective_forall(key);
    lemma_rack_sites_plain();
    reveal_strlit("leaf");
    lemma_knob_address(key, "leaf"@);
    reveal_strlit("op");
    lemma_knob_address(key, "op"@);
    reveal_strlit("trate");
    lemma_knob_address(key, "trate"@);
    reveal_strlit("tdepth");
    lemma_knob_address(key, "tdepth"@);
    reveal_strlit("tshape");
    lemma_knob_address(key, "tshape"@);
    reveal_strlit("mdepth");
    lemma_knob_address(key, "mdepth"@);
    match n {
AudioNode::Tremolo { rate: v_rate, depth: v_depth, shape: v_shape, mod_depth: v_mod_depth, input: v_input, modulation: v_modulation } => {
            let e = spec_put(base, key, "leaf"@, SiteValue::Flag(false));
            let e = spec_put(e, key, "op"@, SiteValue::Index(11));
            let e = spec_put(e, key, "trate"@, SiteValue::Real(v_rate));
            let e = spec_put(e, key, "tdepth"@, SiteValue::Real(v_depth));
            let e = spec_put(e, key, "tshape"@, SiteValue::Real(v_shape));
            let e = spec_put(e, key, "mdepth"@, SiteValue::Real(v_mod_depth));
            let km = spec_mod_key(key);
            lemma_encode_mod_frame(v_modulation, km, e);
            let em = spec_encode_mod(v_modulation, km, e);
            let k0 = spec_child_key(key, 0);
            lemma_encode_node_frame(*v_input, k0, em);
            let e0 = spec_encode_node(*v_input, k0, em);
            assert forall|a: Seq<char>| #[trigger] below(a, km) implies spec_lookup(t, a) == spec_lookup(em, a) by {}
            lemma_mod_live(t, km, v_modulation, e, key, column + 1);
            assert forall|a: Seq<char>| #[trigger] below(a, k0) implies spec_lookup(t, a) == spec_lookup(e0, a) by {}
            lemma_node_live(t, k0, *v_input, em, column + 1);
            assert("tdepth"@[1] != "tshape"@[1]);
            assert("tdepth"@[0] != "mdepth"@[0]);
            assert("tshape"@[0] != "mdepth"@[0]);
            assert(read_flag(t, key, "leaf"@) is Some);
            assert(read_index(t, key, "op"@) is Some);
            assert(read_real(t, key, "trate"@) == Some(v_rate));
            assert(read_real(t, key, "tdepth"@) == Some(v_depth));
            assert(read_real(t, key, "tshape"@) == Some(v_shape));
            assert(read_real(t, key, "mdepth"@) == Some(v_mod_depth));
            let ks = seq![level(key, "trate"@, "rate"@, v_rate), level(key, "tdepth"@, "depth"@, v_depth), level(key, "tshape"@, "shape"@, v_shape), level(key, "mdepth"@, "mod depth"@, v_mod_depth)];
            assert forall|j: int| 0 <= j < ks.len() implies knob_live(#[trigger] ks[j], t) by {
                if j == 0 {} else if j == 1 {} else if j == 2 {} else {}
            }
            let h = head(key, column, "tremolo"@, "tremolo"@, ks, "op"@, 1, Some(v_modulation));
            lemma_head_live(key, column, "tremolo"@, "tremolo"@, ks, "op"@, 1, Some(v_modulation), t);
            let d0 = spec_describe_node(*v_input, k0, column + 1);
            lemma_join_live(h, d0, t);
        },
        _ => {},
    }
}


/// What a recorded vibrato shows is live in a trace that agrees with the
/// recording below its key.
#[verifier::rlimit(40)]
proof fn lemma_live_vibrato(
    t: Map<Seq<char>, SiteValue>,
    key: Seq<char>,
    n: AudioNode,
    base: Map<Seq<char>, SiteValue>,
    column: int,
)
    requires
        n is Vibrato,
        is_plain(key),
        forall|a: Seq<char>|
            #[trigger] below(a, key) ==> spec_lookup(t, a) == spec_lookup(
                spec_encode_node(n, key, base),
                a,
            ),
    ensures
        rack_live(spec_describe_node(n, key, column), t),
    decreases n, 0nat,
{
    lemma_layout(key);
    lemma_address_injective_forall(key);
    lemma_rack_sites_plain();
    reveal_strlit("leaf");
    lemma_knob_address(key, "leaf"@);
    reveal_strlit("op");
    lemma_knob_address(key, "op"@);
    reveal_strlit("vrate");
    lemma_knob_address(key, "vrate"@);
    reveal_strlit("vdepth");
    lemma_knob_address(key, "vdepth"@);
    reveal_strlit("vmix");
    lemma_knob_address(key, "vmix"@);
    reveal_strlit("mdepth");
    lemma_knob_address(key, "mdepth"@);
    match n {
AudioNode::Vibrato { rate: v_rate, depth: v_depth, mix: v_mix, mod_depth: v_mod_depth, input: v_input, modulation: v_modulation } => {
            let e = spec_put(base, key, "leaf"@, SiteValue::Flag(false));
            let e = spec_put(e, key, "op"@, SiteValue::Index(12));
            let e = spec_put(e, key, "vrate"@, SiteValue::Real(v_rate));
            let e = spec_put(e, key, "vdepth"@, SiteValue::Real(v_depth));
            let e = spec_put(e, key, "vmix"@, SiteValue::Real(v_mix));
            let e = spec_put(e, key, "mdepth"@, SiteValue::Real(v_mod_depth));
            let km = spec_mod_key(key);
            lemma_encode_mod_frame(v_modulation, km, e);
            let em = spec_encode_mod(v_modulation, km, e);
            let k0 = spec_child_key(key, 0);
            lemma_encode_node_frame(*v_input, k0, em);
            let e0 = spec_encode_node(*v_input, k0, em);
            assert forall|a: Seq<char>| #[trigger] below(a, km) implies spec_lookup(t, a) == spec_lookup(em, a) by {}
            lemma_mod_live(t, km, v_modulation, e, key, column + 1);
            assert forall|a: Seq<char>| #[trigger] below(a, k0) implies spec_lookup(t, a) == spec_lookup(e0, a) by {}
            lemma_node_live(t, k0, *v_input, em, column + 1);
            assert("leaf"@[0] != "vmix"@[0]);
            assert("vdepth"@[0] != "mdepth"@[0]);
            assert(read_flag(t, key, "leaf"@) is Some);
            assert(read_index(t, key, "op"@) is Some);
            assert(read_real(t, key, "vrate"@) == Some(v_rate));
            assert(read_real(t, key, "vdepth"@) == Some(v_depth));
            assert(read_real(t, key, "vmix"@) == Some(v_mix));
            assert(read_real(t, key, "mdepth"@) == Some(v_mod_depth));
            let ks = seq![level(key, "vrate"@, "rate"@, v_rate), level(key, "vdepth"@, "depth"@, v_depth), level(key, "vmix"@, "mix"@, v_mix), level(key, "mdepth"@, "mod depth"@, v_mod_depth)];
            assert forall|j: int| 0 <= j < ks.len() implies knob_live(#[trigger] ks[j], t) by {
                if j == 0 {} else if j == 1 {} else if j == 2 {} else {}
            }
            let h = head(key, column, "vibrato"@, "vibrato"@, ks, "op"@, 1, Some(v_modulation));
            lemma_head_live(key, column, "vibrato"@, "vibrato"@, ks, "op"@, 1, Some(v_modulation), t);
            let d0 = spec_describe_node(*v_input, k0, column + 1);
            lemma_join_live(h, d0, t);
        },
        _ => {},
    }
}


/// What a recorded eq shows is live in a trace that agrees with the
/// recording below its key.
#[verifier::rlimit(40)]
proof fn lemma_live_eq(
    t: Map<Seq<char>, SiteValue>,
    key: Seq<char>,
    n: AudioNode,
    base: Map<Seq<char>, SiteValue>,
    column: int,
)
    requires
        n is Eq,
        is_plain(key),
        forall|a: Seq<char>|
            #[trigger] below(a, key) ==> spec_lookup(t, a) == spec_lookup(
                spec_encode_node(n, key, base),
                a,
            ),
    ensures
        rack_live(spec_describe_node(n, key, column), t),
    decreases n, 0nat,
{
    lemma_layout(key);
    lemma_address_injective_forall(key);
    lemma_rack_sites_plain();
    reveal_strlit("leaf");
    lemma_knob_address(key, "leaf"@);
    reveal_strlit("op");
    lemma_knob_address(key, "op"@);
    reveal_strlit("low");
    lemma_knob_address(key, "low"@);
    reveal_strlit("mid");
    lemma_knob_address(key, "mid"@);
    reveal_strlit("high");
    lemma_knob_address(key, "high"@);
    reveal_strlit("mdepth");
    lemma_knob_address(key, "mdepth"@);
    match n {
AudioNode::Eq { low: v_low, mid: v_mid, high: v_high, mod_depth: v_mod_depth, input: v_input, modulation: v_modulation } => {
            let e = spec_put(base, key, "leaf"@, SiteValue::Flag(false));
            let e = spec_put(e, key, "op"@, SiteValue::Index(13));
            let e = spec_put(e, key, "low"@, SiteValue::Real(v_low));
            let e = spec_put(e, key, "mid"@, SiteValue::Real(v_mid));
            let e = spec_put(e, key, "high"@, SiteValue::Real(v_high));
            let e = spec_put(e, key, "mdepth"@, SiteValue::Real(v_mod_depth));
            let km = spec_mod_key(key);
            lemma_encode_mod_frame(v_modulation, km, e);
            let em = spec_encode_mod(v_modulation, km, e);
            let k0 = spec_child_key(key, 0);
            lemma_encode_node_frame(*v_input, k0, em);
            let e0 = spec_encode_node(*v_input, k0, em);
            assert forall|a: Seq<char>| #[trigger] below(a, km) implies spec_lookup(t, a) == spec_lookup(em, a) by {}
            lemma_mod_live(t, km, v_modulation, e, key, column + 1);
            assert forall|a: Seq<char>| #[trigger] below(a, k0) implies spec_lookup(t, a) == spec_lookup(e0, a) by {}
            lemma_node_live(t, k0, *v_input, em, column + 1);
            assert("leaf"@[0] != "high"@[0]);
            assert("low"@[0] != "mid"@[0]);
            assert(read_flag(t, key, "leaf"@) is Some);
            assert(read_index(t, key, "op"@) is Some);
            assert(read_real(t, key, "low"@) == Some(v_low));
            assert(read_real(t, key, "mid"@) == Some(v_mid));
            assert(read_real(t, key, "high"@) == Some(v_high));
            assert(read_real(t, key, "mdepth"@) == Some(v_mod_depth));
            let ks = seq![level(key, "low"@, "low"@, v_low), level(key, "mid"@, "mid"@, v_mid), level(key, "high"@, "high"@, v_high), level(key, "mdepth"@, "mod depth"@, v_mod_depth)];
            assert forall|j: int| 0 <= j < ks.len() implies knob_live(#[trigger] ks[j], t) by {
                if j == 0 {} else if j == 1 {} else if j == 2 {} else {}
            }
            let h = head(key, column, "eq"@, "eq"@, ks, "op"@, 1, Some(v_modulation));
            lemma_head_live(key, column, "eq"@, "eq"@, ks, "op"@, 1, Some(v_modulation), t);
            let d0 = spec_describe_node(*v_input, k0, column + 1);
            lemma_join_live(h, d0, t);
        },
        _ => {},
    }
}


/// What a recorded granular shows is live in a trace that agrees with the
/// recording below its key.
#[verifier::rlimit(40)]
proof fn lemma_live_granular(
    t: Map<Seq<char>, SiteValue>,
    key: Seq<char>,
    n: AudioNode,
    base: Map<Seq<char>, SiteValue>,
    column: int,
)
    requires
        n is Granular,
        is_plain(key),
        forall|a: Seq<char>|
            #[trigger] below(a, key) ==> spec_lookup(t, a) == spec_lookup(
                spec_encode_node(n, key, base),
                a,
            ),
    ensures
        rack_live(spec_describe_node(n, key, column), t),
    decreases n, 0nat,
{
    lemma_layout(key);
    lemma_address_injective_forall(key);
    lemma_rack_sites_plain();
    reveal_strlit("leaf");
    lemma_knob_address(key, "leaf"@);
    reveal_strlit("op");
    lemma_knob_address(key, "op"@);
    reveal_strlit("gpos");
    lemma_knob_address(key, "gpos"@);
    reveal_strlit("gsize");
    lemma_knob_address(key, "gsize"@);
    reveal_strlit("gdens");
    lemma_knob_address(key, "gdens"@);
    reveal_strlit("mdepth");
    lemma_knob_address(key, "mdepth"@);
    match n {
AudioNode::Granular { position: v_position, size: v_size, density: v_density, mod_depth: v_mod_depth, input: v_input, modulation: v_modulation } => {
            let e = spec_put(base, key, "leaf"@, SiteValue::Flag(false));
            let e = spec_put(e, key, "op"@, SiteValue::Index(14));
            let e = spec_put(e, key, "gpos"@, SiteValue::Real(v_position));
            let e = spec_put(e, key, "gsize"@, SiteValue::Real(v_size));
            let e = spec_put(e, key, "gdens"@, SiteValue::Real(v_density));
            let e = spec_put(e, key, "mdepth"@, SiteValue::Real(v_mod_depth));
            let km = spec_mod_key(key);
            lemma_encode_mod_frame(v_modulation, km, e);
            let em = spec_encode_mod(v_modulation, km, e);
            let k0 = spec_child_key(key, 0);
            lemma_encode_node_frame(*v_input, k0, em);
            let e0 = spec_encode_node(*v_input, k0, em);
            assert forall|a: Seq<char>| #[trigger] below(a, km) implies spec_lookup(t, a) == spec_lookup(em, a) by {}
            lemma_mod_live(t, km, v_modulation, e, key, column + 1);
            assert forall|a: Seq<char>| #[trigger] below(a, k0) implies spec_lookup(t, a) == spec_lookup(e0, a) by {}
            lemma_node_live(t, k0, *v_input, em, column + 1);
            assert("leaf"@[0] != "gpos"@[0]);
            assert("gsize"@[1] != "gdens"@[1]);
            assert(read_flag(t, key, "leaf"@) is Some);
            assert(read_index(t, key, "op"@) is Some);
            assert(read_real(t, key, "gpos"@) == Some(v_position));
            assert(read_real(t, key, "gsize"@) == Some(v_size));
            assert(read_real(t, key, "gdens"@) == Some(v_density));
            assert(read_real(t, key, "mdepth"@) == Some(v_mod_depth));
            let ks = seq![level(key, "gpos"@, "position"@, v_position), level(key, "gsize"@, "size"@, v_size), level(key, "gdens"@, "density"@, v_density), level(key, "mdepth"@, "mod depth"@, v_mod_depth)];
            assert forall|j: int| 0 <= j < ks.len() implies knob_live(#[trigger] ks[j], t) by {
                if j == 0 {} else if j == 1 {} else if j == 2 {} else {}
            }
            let h = head(key, column, "granular"@, "granular"@, ks, "op"@, 1, Some(v_modulation));
            lemma_head_live(key, column, "granular"@, "granular"@, ks, "op"@, 1, Some(v_modulation), t);
            let d0 = spec_describe_node(*v_input, k0, column + 1);
            lemma_join_live(h, d0, t);
        },
        _ => {},
    }
}


/// What a recorded shift shows is live in a trace that agrees with the
/// recording below its key.
#[verifier::rlimit(40)]
proof fn lemma_live_shift(
    t: Map<Seq<char>, SiteValue>,
    key: Seq<char>,
    n: AudioNode,
    base: Map<Seq<char>, SiteValue>,
    column: int,
)
    requires
        n is Shift,
        is_plain(key),
        forall|a: Seq<char>|
            #[trigger] below(a, key) ==> spec_lookup(t, a) == spec_lookup(
                spec_encode_node(n, key, base),
                a,
            ),
    ensures
        rack_live(spec_describe_node(n, key, column), t),
    decreases n, 0nat,
{
    lemma_layout(key);
    lemma_address_injective_forall(key);
    lemma_rack_sites_plain();
    reveal_strlit("leaf");
    lemma_knob_address(key, "leaf"@);
    reveal_strlit("op");
    lemma_knob_address(key, "op"@);
    reveal_strlit("semis");
    lemma_knob_address(key, "semis"@);
    reveal_strlit("window");
    lemma_knob_address(key, "window"@);
    reveal_strlit("smix");
    lemma_knob_address(key, "smix"@);
    reveal_strlit("mdepth");
    lemma_knob_address(key, "mdepth"@);
    match n {
AudioNode::Shift { semis: v_semis, window: v_window, mix: v_mix, mod_depth: v_mod_depth, input: v_input, modulation: v_modulation } => {
            let e = spec_put(base, key, "leaf"@, SiteValue::Flag(false));
            let e = spec_put(e, key, "op"@, SiteValue::Index(15));
            let e = spec_put(e, key, "semis"@, SiteValue::Real(v_semis));
            let e = spec_put(e, key, "window"@, SiteValue::Real(v_window));
            let e = spec_put(e, key, "smix"@, SiteValue::Real(v_mix));
            let e = spec_put(e, key, "mdepth"@, SiteValue::Real(v_mod_depth));
            let km = spec_mod_key(key);
            lemma_encode_mod_frame(v_modulation, km, e);
            let em = spec_encode_mod(v_modulation, km, e);
            let k0 = spec_child_key(key, 0);
            lemma_encode_node_frame(*v_input, k0, em);
            let e0 = spec_encode_node(*v_input, k0, em);
            assert forall|a: Seq<char>| #[trigger] below(a, km) implies spec_lookup(t, a) == spec_lookup(em, a) by {}
            lemma_mod_live(t, km, v_modulation, e, key, column + 1);
            assert forall|a: Seq<char>| #[trigger] below(a, k0) implies spec_lookup(t, a) == spec_lookup(e0, a) by {}
            lemma_node_live(t, k0, *v_input, em, column + 1);
            assert("leaf"@[0] != "smix"@[0]);
            assert("window"@[0] != "mdepth"@[0]);
            assert(read_flag(t, key, "leaf"@) is Some);
            assert(read_index(t, key, "op"@) is Some);
            assert(read_real(t, key, "semis"@) == Some(v_semis));
            assert(read_real(t, key, "window"@) == Some(v_window));
            assert(read_real(t, key, "smix"@) == Some(v_mix));
            assert(read_real(t, key, "mdepth"@) == Some(v_mod_depth));
            let ks = seq![level(key, "semis"@, "shift"@, v_semis), level(key, "window"@, "window"@, v_window), level(key, "smix"@, "mix"@, v_mix), level(key, "mdepth"@, "mod depth"@, v_mod_depth)];
            assert forall|j: int| 0 <= j < ks.len() implies knob_live(#[trigger] ks[j], t) by {
                if j == 0 {} else if j == 1 {} else if j == 2 {} else {}
            }
            let h = head(key, column, "shift"@, "pitch shift"@, ks, "op"@, 1, Some(v_modulation));
            lemma_head_live(key, column, "shift"@, "pitch shift"@, ks, "op"@, 1, Some(v_modulation), t);
            let d0 = spec_describe_node(*v_input, k0, column + 1);
            lemma_join_live(h, d0, t);
        },
        _ => {},
    }
}


/// What a recorded comp shows is live in a trace that agrees with the
/// recording below its key.
#[verifier::rlimit(40)]
proof fn lemma_live_comp(
    t: Map<Seq<char>, SiteValue>,
    key: Seq<char>,
    n: AudioNode,
    base: Map<Seq<char>, SiteValue>,
    column: int,
)
    requires
        n is Comp,
        is_plain(key),
        forall|a: Seq<char>|
            #[trigger] below(a, key) ==> spec_lookup(t, a) == spec_lookup(
                spec_encode_node(n, key, base),
                a,
            ),
    ensures
        rack_live(spec_describe_node(n, key, column), t),
    decreases n, 0nat,
{
    lemma_layout(key);
    lemma_address_injective_forall(key);
    lemma_rack_sites_plain();
    reveal_strlit("leaf");
    lemma_knob_address(key, "leaf"@);
    reveal_strlit("op");
    lemma_knob_address(key, "op"@);
    reveal_strlit("thresh");
    lemma_knob_address(key, "thresh"@);
    reveal_strlit("ratio");
    lemma_knob_address(key, "ratio"@);
    reveal_strlit("makeup");
    lemma_knob_address(key, "makeup"@);
    reveal_strlit("mdepth");
    lemma_knob_address(key, "mdepth"@);
    match n {
AudioNode::Comp { threshold: v_threshold, ratio: v_ratio, makeup: v_makeup, mod_depth: v_mod_depth, input: v_input, sidechain: v_sidechain, modulation: v_modulation } => {
            let e = spec_put(base, key, "leaf"@, SiteValue::Flag(false));
            let e = spec_put(e, key, "op"@, SiteValue::Index(16));
            let e = spec_put(e, key, "thresh"@, SiteValue::Real(v_threshold));
            let e = spec_put(e, key, "ratio"@, SiteValue::Real(v_ratio));
            let e = spec_put(e, key, "makeup"@, SiteValue::Real(v_makeup));
            let e = spec_put(e, key, "mdepth"@, SiteValue::Real(v_mod_depth));
            let km = spec_mod_key(key);
            lemma_encode_mod_frame(v_modulation, km, e);
            let em = spec_encode_mod(v_modulation, km, e);
            let k0 = spec_child_key(key, 0);
            lemma_encode_node_frame(*v_input, k0, em);
            let e0 = spec_encode_node(*v_input, k0, em);
            let k1 = spec_child_key(key, 1);
            lemma_encode_node_frame(*v_sidechain, k1, e0);
            let e1 = spec_encode_node(*v_sidechain, k1, e0);
            assert forall|a: Seq<char>| #[trigger] below(a, km) implies spec_lookup(t, a) == spec_lookup(em, a) by {}
            lemma_mod_live(t, km, v_modulation, e, key, column + 1);
            assert forall|a: Seq<char>| #[trigger] below(a, k0) implies spec_lookup(t, a) == spec_lookup(e0, a) by {}
            lemma_node_live(t, k0, *v_input, em, column + 1);
            assert forall|a: Seq<char>| #[trigger] below(a, k1) implies spec_lookup(t, a) == spec_lookup(e1, a) by {}
            lemma_node_live(t, k1, *v_sidechain, e0, column + 1);
            assert("thresh"@[0] != "makeup"@[0]);
            assert("thresh"@[0] != "mdepth"@[0]);
            assert("makeup"@[1] != "mdepth"@[1]);
            assert(read_flag(t, key, "leaf"@) is Some);
            assert(read_index(t, key, "op"@) is Some);
            assert(read_real(t, key, "thresh"@) == Some(v_threshold));
            assert(read_real(t, key, "ratio"@) == Some(v_ratio));
            assert(read_real(t, key, "makeup"@) == Some(v_makeup));
            assert(read_real(t, key, "mdepth"@) == Some(v_mod_depth));
            let ks = seq![level(key, "thresh"@, "threshold"@, v_threshold), level(key, "ratio"@, "ratio"@, v_ratio), level(key, "makeup"@, "makeup"@, v_makeup), level(key, "mdepth"@, "mod depth"@, v_mod_depth)];
            assert forall|j: int| 0 <= j < ks.len() implies knob_live(#[trigger] ks[j], t) by {
                if j == 0 {} else if j == 1 {} else if j == 2 {} else {}
            }
            let h = head(key, column, "comp"@, "compressor"@, ks, "op"@, 2, Some(v_modulation));
            lemma_head_live(key, column, "comp"@, "compressor"@, ks, "op"@, 2, Some(v_modulation), t);
            let d0 = spec_describe_node(*v_input, k0, column + 1);
            lemma_join_live(h, d0, t);
            let d1 = spec_describe_node(*v_sidechain, k1, column + 1);
            lemma_join_live(join(h, d0), d1, t);
        },
        _ => {},
    }
}


/// What a recorded duck shows is live in a trace that agrees with the
/// recording below its key.
#[verifier::rlimit(40)]
proof fn lemma_live_duck(
    t: Map<Seq<char>, SiteValue>,
    key: Seq<char>,
    n: AudioNode,
    base: Map<Seq<char>, SiteValue>,
    column: int,
)
    requires
        n is Duck,
        is_plain(key),
        forall|a: Seq<char>|
            #[trigger] below(a, key) ==> spec_lookup(t, a) == spec_lookup(
                spec_encode_node(n, key, base),
                a,
            ),
    ensures
        rack_live(spec_describe_node(n, key, column), t),
    decreases n, 0nat,
{
    lemma_layout(key);
    lemma_address_injective_forall(key);
    lemma_rack_sites_plain();
    reveal_strlit("leaf");
    lemma_knob_address(key, "leaf"@);
    reveal_strlit("op");
    lemma_knob_address(key, "op"@);
    reveal_strlit("amount");
    lemma_knob_address(key, "amount"@);
    reveal_strlit("dthresh");
    lemma_knob_address(key, "dthresh"@);
    reveal_strlit("drel");
    lemma_knob_address(key, "drel"@);
    reveal_strlit("mdepth");
    lemma_knob_address(key, "mdepth"@);
    match n {
AudioNode::Duck { amount: v_amount, threshold: v_threshold, release: v_release, mod_depth: v_mod_depth, input: v_input, key: v_key, modulation: v_modulation } => {
            let e = spec_put(base, key, "leaf"@, SiteValue::Flag(false));
            let e = spec_put(e, key, "op"@, SiteValue::Index(17));
            let e = spec_put(e, key, "amount"@, SiteValue::Real(v_amount));
            let e = spec_put(e, key, "dthresh"@, SiteValue::Real(v_threshold));
            let e = spec_put(e, key, "drel"@, SiteValue::Real(v_release));
            let e = spec_put(e, key, "mdepth"@, SiteValue::Real(v_mod_depth));
            let km = spec_mod_key(key);
            lemma_encode_mod_frame(v_modulation, km, e);
            let em = spec_encode_mod(v_modulation, km, e);
            let k0 = spec_child_key(key, 0);
            lemma_encode_node_frame(*v_input, k0, em);
            let e0 = spec_encode_node(*v_input, k0, em);
            let k1 = spec_child_key(key, 1);
            lemma_encode_node_frame(*v_key, k1, e0);
            let e1 = spec_encode_node(*v_key, k1, e0);
            assert forall|a: Seq<char>| #[trigger] below(a, km) implies spec_lookup(t, a) == spec_lookup(em, a) by {}
            lemma_mod_live(t, km, v_modulation, e, key, column + 1);
            assert forall|a: Seq<char>| #[trigger] below(a, k0) implies spec_lookup(t, a) == spec_lookup(e0, a) by {}
            lemma_node_live(t, k0, *v_input, em, column + 1);
            assert forall|a: Seq<char>| #[trigger] below(a, k1) implies spec_lookup(t, a) == spec_lookup(e1, a) by {}
            lemma_node_live(t, k1, *v_key, e0, column + 1);
            assert("leaf"@[0] != "drel"@[0]);
            assert("amount"@[0] != "mdepth"@[0]);
            assert(read_flag(t, key, "leaf"@) is Some);
            assert(read_index(t, key, "op"@) is Some);
            assert(read_real(t, key, "amount"@) == Some(v_amount));
            assert(read_real(t, key, "dthresh"@) == Some(v_threshold));
            assert(read_real(t, key, "drel"@) == Some(v_release));
            assert(read_real(t, key, "mdepth"@) == Some(v_mod_depth));
            let ks = seq![level(key, "amount"@, "amount"@, v_amount), level(key, "dthresh"@, "threshold"@, v_threshold), level(key, "drel"@, "release"@, v_release), level(key, "mdepth"@, "mod depth"@, v_mod_depth)];
            assert forall|j: int| 0 <= j < ks.len() implies knob_live(#[trigger] ks[j], t) by {
                if j == 0 {} else if j == 1 {} else if j == 2 {} else {}
            }
            let h = head(key, column, "duck"@, "ducker"@, ks, "op"@, 2, Some(v_modulation));
            lemma_head_live(key, column, "duck"@, "ducker"@, ks, "op"@, 2, Some(v_modulation), t);
            let d0 = spec_describe_node(*v_input, k0, column + 1);
            lemma_join_live(h, d0, t);
            let d1 = spec_describe_node(*v_key, k1, column + 1);
            lemma_join_live(join(h, d0), d1, t);
        },
        _ => {},
    }
}


/// What a recorded gate shows is live in a trace that agrees with the
/// recording below its key.
#[verifier::rlimit(40)]
proof fn lemma_live_gate(
    t: Map<Seq<char>, SiteValue>,
    key: Seq<char>,
    n: AudioNode,
    base: Map<Seq<char>, SiteValue>,
    column: int,
)
    requires
        n is Gate,
        is_plain(key),
        forall|a: Seq<char>|
            #[trigger] below(a, key) ==> spec_lookup(t, a) == spec_lookup(
                spec_encode_node(n, key, base),
                a,
            ),
    ensures
        rack_live(spec_describe_node(n, key, column), t),
    decreases n, 0nat,
{
    lemma_layout(key);
    lemma_address_injective_forall(key);
    lemma_rack_sites_plain();
    reveal_strlit("leaf");
    lemma_knob_address(key, "leaf"@);
    reveal_strlit("op");
    lemma_knob_address(key, "op"@);
    reveal_strlit("gthresh");
    lemma_knob_address(key, "gthresh"@);
    reveal_strlit("range");
    lemma_knob_address(key, "range"@);
    reveal_strlit("grel");
    lemma_knob_address(key, "grel"@);
    reveal_strlit("mdepth");
    lemma_knob_address(key, "mdepth"@);
    match n {
AudioNode::Gate { threshold: v_threshold, range: v_range, release: v_release, mod_depth: v_mod_depth, input: v_input, sidechain: v_sidechain, modulation: v_modulation } => {
            let e = spec_put(base, key, "leaf"@, SiteValue::Flag(false));
            let e = spec_put(e, key, "op"@, SiteValue::Index(18));
            let e = spec_put(e, key, "gthresh"@, SiteValue::Real(v_threshold));
            let e = spec_put(e, key, "range"@, SiteValue::Real(v_range));
            let e = spec_put(e, key, "grel"@, SiteValue::Real(v_release));
            let e = spec_put(e, key, "mdepth"@, SiteValue::Real(v_mod_depth));
            let km = spec_mod_key(key);
            lemma_encode_mod_frame(v_modulation, km, e);
            let em = spec_encode_mod(v_modulation, km, e);
            let k0 = spec_child_key(key, 0);
            lemma_encode_node_frame(*v_input, k0, em);
            let e0 = spec_encode_node(*v_input, k0, em);
            let k1 = spec_child_key(key, 1);
            lemma_encode_node_frame(*v_sidechain, k1, e0);
            let e1 = spec_encode_node(*v_sidechain, k1, e0);
            assert forall|a: Seq<char>| #[trigger] below(a, km) implies spec_lookup(t, a) == spec_lookup(em, a) by {}
            lemma_mod_live(t, km, v_modulation, e, key, column + 1);
            assert forall|a: Seq<char>| #[trigger] below(a, k0) implies spec_lookup(t, a) == spec_lookup(e0, a) by {}
            lemma_node_live(t, k0, *v_input, em, column + 1);
            assert forall|a: Seq<char>| #[trigger] below(a, k1) implies spec_lookup(t, a) == spec_lookup(e1, a) by {}
            lemma_node_live(t, k1, *v_sidechain, e0, column + 1);
            assert("leaf"@[0] != "grel"@[0]);
            assert(read_flag(t, key, "leaf"@) is Some);
            assert(read_index(t, key, "op"@) is Some);
            assert(read_real(t, key, "gthresh"@) == Some(v_threshold));
            assert(read_real(t, key, "range"@) == Some(v_range));
            assert(read_real(t, key, "grel"@) == Some(v_release));
            assert(read_real(t, key, "mdepth"@) == Some(v_mod_depth));
            let ks = seq![level(key, "gthresh"@, "threshold"@, v_threshold), level(key, "range"@, "range"@, v_range), level(key, "grel"@, "release"@, v_release), level(key, "mdepth"@, "mod depth"@, v_mod_depth)];
            assert forall|j: int| 0 <= j < ks.len() implies knob_live(#[trigger] ks[j], t) by {
                if j == 0 {} else if j == 1 {} else if j == 2 {} else {}
            }
            let h = head(key, column, "gate"@, "gate"@, ks, "op"@, 2, Some(v_modulation));
            lemma_head_live(key, column, "gate"@, "gate"@, ks, "op"@, 2, Some(v_modulation), t);
            let d0 = spec_describe_node(*v_input, k0, column + 1);
            lemma_join_live(h, d0, t);
            let d1 = spec_describe_node(*v_sidechain, k1, column + 1);
            lemma_join_live(join(h, d0), d1, t);
        },
        _ => {},
    }
}


/// What a recorded vocoder shows is live in a trace that agrees with the
/// recording below its key.
#[verifier::rlimit(40)]
proof fn lemma_live_vocoder(
    t: Map<Seq<char>, SiteValue>,
    key: Seq<char>,
    n: AudioNode,
    base: Map<Seq<char>, SiteValue>,
    column: int,
)
    requires
        n is Vocoder,
        is_plain(key),
        forall|a: Seq<char>|
            #[trigger] below(a, key) ==> spec_lookup(t, a) == spec_lookup(
                spec_encode_node(n, key, base),
                a,
            ),
    ensures
        rack_live(spec_describe_node(n, key, column), t),
    decreases n, 0nat,
{
    lemma_layout(key);
    lemma_address_injective_forall(key);
    lemma_rack_sites_plain();
    reveal_strlit("leaf");
    lemma_knob_address(key, "leaf"@);
    reveal_strlit("op");
    lemma_knob_address(key, "op"@);
    reveal_strlit("bands");
    lemma_knob_address(key, "bands"@);
    reveal_strlit("vatt");
    lemma_knob_address(key, "vatt"@);
    reveal_strlit("vrel");
    lemma_knob_address(key, "vrel"@);
    reveal_strlit("mdepth");
    lemma_knob_address(key, "mdepth"@);
    match n {
AudioNode::Vocoder { bands: v_bands, attack: v_attack, release: v_release, mod_depth: v_mod_depth, carrier: v_carrier, modulator: v_modulator, modulation: v_modulation } => {
            let e = spec_put(base, key, "leaf"@, SiteValue::Flag(false));
            let e = spec_put(e, key, "op"@, SiteValue::Index(19));
            let e = spec_put(e, key, "bands"@, SiteValue::Real(v_bands));
            let e = spec_put(e, key, "vatt"@, SiteValue::Real(v_attack));
            let e = spec_put(e, key, "vrel"@, SiteValue::Real(v_release));
            let e = spec_put(e, key, "mdepth"@, SiteValue::Real(v_mod_depth));
            let km = spec_mod_key(key);
            lemma_encode_mod_frame(v_modulation, km, e);
            let em = spec_encode_mod(v_modulation, km, e);
            let k0 = spec_child_key(key, 0);
            lemma_encode_node_frame(*v_carrier, k0, em);
            let e0 = spec_encode_node(*v_carrier, k0, em);
            let k1 = spec_child_key(key, 1);
            lemma_encode_node_frame(*v_modulator, k1, e0);
            let e1 = spec_encode_node(*v_modulator, k1, e0);
            assert forall|a: Seq<char>| #[trigger] below(a, km) implies spec_lookup(t, a) == spec_lookup(em, a) by {}
            lemma_mod_live(t, km, v_modulation, e, key, column + 1);
            assert forall|a: Seq<char>| #[trigger] below(a, k0) implies spec_lookup(t, a) == spec_lookup(e0, a) by {}
            lemma_node_live(t, k0, *v_carrier, em, column + 1);
            assert forall|a: Seq<char>| #[trigger] below(a, k1) implies spec_lookup(t, a) == spec_lookup(e1, a) by {}
            lemma_node_live(t, k1, *v_modulator, e0, column + 1);
            assert("leaf"@[0] != "vatt"@[0]);
            assert("leaf"@[0] != "vrel"@[0]);
            assert("vatt"@[1] != "vrel"@[1]);
            assert(read_flag(t, key, "leaf"@) is Some);
            assert(read_index(t, key, "op"@) is Some);
            assert(read_real(t, key, "bands"@) == Some(v_bands));
            assert(read_real(t, key, "vatt"@) == Some(v_attack));
            assert(read_real(t, key, "vrel"@) == Some(v_release));
            assert(read_real(t, key, "mdepth"@) == Some(v_mod_depth));
            let ks = seq![level(key, "bands"@, "bands"@, v_bands), level(key, "vatt"@, "attack"@, v_attack), level(key, "vrel"@, "release"@, v_release), level(key, "mdepth"@, "mod depth"@, v_mod_depth)];
            assert forall|j: int| 0 <= j < ks.len() implies knob_live(#[trigger] ks[j], t) by {
                if j == 0 {} else if j == 1 {} else if j == 2 {} else {}
            }
            let h = head(key, column, "vocoder"@, "vocoder"@, ks, "op"@, 2, Some(v_modulation));
            lemma_head_live(key, column, "vocoder"@, "vocoder"@, ks, "op"@, 2, Some(v_modulation), t);
            let d0 = spec_describe_node(*v_carrier, k0, column + 1);
            lemma_join_live(h, d0, t);
            let d1 = spec_describe_node(*v_modulator, k1, column + 1);
            lemma_join_live(join(h, d0), d1, t);
        },
        _ => {},
    }
}


/// Every module a recorded audio term shows is live in a trace that agrees
/// with the recording below its key.
proof fn lemma_node_live(
    t: Map<Seq<char>, SiteValue>,
    key: Seq<char>,
    n: AudioNode,
    base: Map<Seq<char>, SiteValue>,
    column: int,
)
    requires
        is_plain(key),
        forall|a: Seq<char>|
            #[trigger] below(a, key) ==> spec_lookup(t, a) == spec_lookup(
                spec_encode_node(n, key, base),
                a,
            ),
    ensures
        rack_live(spec_describe_node(n, key, column), t),
    decreases n, 1nat,
{
    match n {
        AudioNode::Vco { .. } => lemma_live_vco(t, key, n, base, column),
        AudioNode::Supersaw { .. } => lemma_live_supersaw(t, key, n, base, column),
        AudioNode::Noise { .. } => lemma_live_noise(t, key, n, base, column),
        AudioNode::Wavetable { .. } => lemma_live_wavetable(t, key, n, base, column),
        AudioNode::Pluck { .. } => lemma_live_pluck(t, key, n, base, column),
        AudioNode::Formant { .. } => lemma_live_formant(t, key, n, base, column),
        AudioNode::Mix { .. } => lemma_live_mix(t, key, n, base, column),
        AudioNode::Filter { .. } => lemma_live_filter(t, key, n, base, column),
        AudioNode::Fold { .. } => lemma_live_fold(t, key, n, base, column),
        AudioNode::Delay { .. } => lemma_live_delay(t, key, n, base, column),
        AudioNode::Chorus { .. } => lemma_live_chorus(t, key, n, base, column),
        AudioNode::Reverb { .. } => lemma_live_reverb(t, key, n, base, column),
        AudioNode::Distortion { .. } => lemma_live_distortion(t, key, n, base, column),
        AudioNode::Bitcrush { .. } => lemma_live_bitcrush(t, key, n, base, column),
        AudioNode::Phaser { .. } => lemma_live_phaser(t, key, n, base, column),
        AudioNode::RingMod { .. } => lemma_live_ring_mod(t, key, n, base, column),
        AudioNode::Flanger { .. } => lemma_live_flanger(t, key, n, base, column),
        AudioNode::Tremolo { .. } => lemma_live_tremolo(t, key, n, base, column),
        AudioNode::Vibrato { .. } => lemma_live_vibrato(t, key, n, base, column),
        AudioNode::Eq { .. } => lemma_live_eq(t, key, n, base, column),
        AudioNode::Granular { .. } => lemma_live_granular(t, key, n, base, column),
        AudioNode::Shift { .. } => lemma_live_shift(t, key, n, base, column),
        AudioNode::Comp { .. } => lemma_live_comp(t, key, n, base, column),
        AudioNode::Duck { .. } => lemma_live_duck(t, key, n, base, column),
        AudioNode::Gate { .. } => lemma_live_gate(t, key, n, base, column),
        AudioNode::Vocoder { .. } => lemma_live_vocoder(t, key, n, base, column),
    }
}

/// Every knob of a patch's rack sits on a site of the patch's trace — a
/// continuous knob on a continuous site, a selector on an index site — and
/// shows the value recorded there (the octave knob the octave that index
/// reads back as, shifted up by two), and every structural address the rack
/// lists is a site of the trace, so the panel cannot drift from the genome.
pub proof fn lemma_rack_addresses_live(tree: PatchTree)
    ensures
        rack_live(spec_describe(tree), spec_to_trace(tree)),
{
    let t = spec_to_trace(tree);
    let base = spec_encode_amp(tree.amp, Map::empty());
    reveal_strlit("node");
    reveal_strlit("amp");
    assert("node"@ =~= seq!['n', 'o', 'd', 'e']);
    assert("amp"@ =~= seq!['a', 'm', 'p']);
    assert(is_plain("node"@));
    assert(is_plain("amp"@));
    lemma_node_live(t, "node"@, tree.root, base, 1);
    lemma_encode_node_frame(tree.root, "node"@, base);
    lemma_rack_sites_plain();
    lemma_address_injective_forall("amp"@);
    lemma_escape_plain("amp"@);
    reveal_strlit("attack");
    reveal_strlit("decay");
    reveal_strlit("sustain");
    reveal_strlit("release");
    lemma_knob_address("amp"@, "attack"@);
    lemma_knob_address("amp"@, "decay"@);
    lemma_knob_address("amp"@, "sustain"@);
    lemma_knob_address("amp"@, "release"@);
    assert("sustain"@[0] != "release"@[0]);
    assert forall|s: Seq<char>| !below(#[trigger] spec_address("amp"@, s), "node"@) by {
        let a = spec_address("amp"@, s);
        assert(a[0] == 'a');
        if a.len() > 4 {
            assert(a.take(4)[0] != "node"@[0]);
        }
    }
    assert(read_real(t, "amp"@, "attack"@) == Some(tree.amp.attack));
    assert(read_real(t, "amp"@, "decay"@) == Some(tree.amp.decay));
    assert(read_real(t, "amp"@, "sustain"@) == Some(tree.amp.sustain));
    assert(read_real(t, "amp"@, "release"@) == Some(tree.amp.release));
    let ms = amp_module(tree.amp);
    assert forall|j: int| 0 <= j < ms.knobs.len() implies knob_live(#[trigger] ms.knobs[j], t) by {
        if j == 0 {
        } else if j == 1 {
        } else if j == 2 {
        } else {
        }
    }
    assert(module_live(ms, t));
    let own = RackSpec { modules: seq![ms], wires: seq![wire("node"@, "amp"@, "audio"@)] };
    assert(rack_live(own, t));
    lemma_join_live(own, spec_describe_node(tree.root, "node"@, 1), t);
}

} // verus!
