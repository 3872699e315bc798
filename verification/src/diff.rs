//! Structural/parameter diff between two patch trees, in trace-address
//! terms: what an edit or an evolution step actually did, as knob moves,
//! module swaps, and added or removed subtrees.

use vstd::prelude::*;
use vstd::string::StringExecFns;

use crate::edit::{spec_split_addr, split_addr};
use crate::encoding::{
    lemma_trace_readable, octave_overflows, octaves_encodable, octaves_readable, spec_to_trace,
};
use crate::term::{Param, PatchTree};
use crate::text::{decimal, decimal_u64, lemma_seq_lt_order, seq_lt, spec_decimal, str_eq, str_lt};
use crate::trace::{distinct_addresses, spec_lookup, SiteValue};

verus! {

/// One changed choice site.
#[derive(Debug, PartialEq, Eq)]
pub struct DiffEntry {
    /// Full trace address (`key#site`).
    pub addr: String,
    /// Display value before (`None` if the site was added).
    pub before: Option<String>,
    /// Display value after (`None` if the site was removed).
    pub after: Option<String>,
}

/// The magnitude of the `f64` with bit pattern `b`: its bits without the sign.
pub open spec fn magnitude(b: Param) -> u64 {
    if b >= 0x8000_0000_0000_0000 {
        (b - 0x8000_0000_0000_0000) as u64
    } else {
        b
    }
}

/// Whether two `f64` bit patterns compare equal as numbers: neither is a
/// NaN, and they are the same pattern or both zeros.
pub open spec fn spec_reals_equal(a: Param, b: Param) -> bool {
    &&& magnitude(a) <= 0x7ff0_0000_0000_0000
    &&& magnitude(b) <= 0x7ff0_0000_0000_0000
    &&& (a == b || (magnitude(a) == 0 && magnitude(b) == 0))
}

/// Whether two recorded values are equal, continuous ones compared as
/// numbers.
pub open spec fn spec_same_choice(x: SiteValue, y: SiteValue) -> bool {
    match (x, y) {
        (SiteValue::Real(a), SiteValue::Real(b)) => spec_reals_equal(a, b),
        _ => x == y,
    }
}

/// Whether two recorded values are equal, continuous ones compared as
/// numbers.
fn same_choice(x: SiteValue, y: SiteValue) -> (r: bool)
    ensures
        r == spec_same_choice(x, y),
{
    match (x, y) {
        (SiteValue::Real(a), SiteValue::Real(b)) => {
            let ma = if a >= 0x8000_0000_0000_0000 {
                a - 0x8000_0000_0000_0000
            } else {
                a
            };
            let mb = if b >= 0x8000_0000_0000_0000 {
                b - 0x8000_0000_0000_0000
            } else {
                b
            };
            ma <= 0x7ff0_0000_0000_0000 && mb <= 0x7ff0_0000_0000_0000 && (a == b || (ma == 0 && mb
                == 0))
        },
        _ => x == y,
    }
}

/// Whether the choice at `a` differs between two traces.
pub open spec fn changed(ta: Map<Seq<char>, SiteValue>, tb: Map<Seq<char>, SiteValue>, a: Seq<char>) -> bool {
    match (spec_lookup(ta, a), spec_lookup(tb, a)) {
        (Some(x), Some(y)) => !spec_same_choice(x, y),
        (None, None) => false,
        _ => true,
    }
}

/// The names the diff gives a categorical site's indices, where it names
/// them.
pub open spec fn spec_site_names(site: Seq<char>) -> Seq<Seq<char>> {
    if site == "wave"@ {
        seq!["sin"@, "tri"@, "saw"@, "sqr"@]
    } else if site == "color"@ {
        seq!["white"@, "pink"@]
    } else if site == "fkind"@ {
        seq!["svf lp"@, "svf bp"@, "svf hp"@, "ladder"@]
    } else if site == "src"@ {
        seq!["vco"@, "supersaw"@, "noise"@]
    } else if site == "op"@ {
        seq!["mix"@, "filter"@, "fold"@, "delay"@, "chorus"@]
    } else if site == "mod"@ {
        seq!["no mod"@, "lfo"@, "mod env"@]
    } else {
        Seq::empty()
    }
}

/// The names the diff gives a categorical site's indices, where it names
/// them.
fn site_names(site: &str) -> (r: &'static [&'static str])
    ensures
        r@.len() == spec_site_names(site@).len(),
        forall|i: int| 0 <= i < r@.len() ==> #[trigger] r@[i]@ == spec_site_names(site@)[i],
{
    if str_eq(site, "wave") {
        &["sin", "tri", "saw", "sqr"]
    } else if str_eq(site, "color") {
        &["white", "pink"]
    } else if str_eq(site, "fkind") {
        &["svf lp", "svf bp", "svf hp", "ladder"]
    } else if str_eq(site, "src") {
        &["vco", "supersaw", "noise"]
    } else if str_eq(site, "op") {
        &["mix", "filter", "fold", "delay", "chorus"]
    } else if str_eq(site, "mod") {
        &["no mod", "lfo", "mod env"]
    } else {
        &[]
    }
}

/// An integer with its sign always written: `+1`, `-2`, `+0`.
pub open spec fn spec_signed(x: int) -> Seq<char> {
    if x >= 0 {
        "+"@ + spec_decimal(x as nat)
    } else {
        "-"@ + spec_decimal((-x) as nat)
    }
}

/// An integer written with a sign only when negative.
pub open spec fn spec_debug_int(x: int) -> Seq<char> {
    if x >= 0 {
        spec_decimal(x as nat)
    } else {
        "-"@ + spec_decimal((-x) as nat)
    }
}

/// How the diff shows a recorded value other than a continuous one: a leaf
/// flag as `source` or `processor`, an octave index as its signed offset, a
/// named categorical as its name, any other index as its number, and the
/// other integer kinds as their variant around their number.
pub open spec fn spec_display_label(site: Seq<char>, v: SiteValue) -> Seq<char> {
    match v {
        SiteValue::Flag(b) => if b {
            "source"@
        } else {
            "processor"@
        },
        SiteValue::Index(i) => {
            let names = spec_site_names(site);
            if site == "oct"@ {
                spec_signed((i as i8) - 2)
            } else if i < names.len() {
                names[i as int]
            } else {
                spec_decimal(i as nat)
            }
        },
        SiteValue::Signed(x) => "I64("@ + spec_debug_int(x as int) + ")"@,
        SiteValue::Count(x) => "U64("@ + spec_decimal(x as nat) + ")"@,
        SiteValue::Real(_) => Seq::empty(),
    }
}

/// An octave offset with its sign always written.
fn signed_octave(o: i16) -> (r: String)
    requires
        -128 <= o <= 127,
    ensures
        r@ == spec_signed(o as int),
{
    if o >= 0 {
        String::from_str("+").concat(decimal(o as usize).as_str())
    } else {
        String::from_str("-").concat(decimal((0 - o) as usize).as_str())
    }
}

/// A signed integer written with a sign only when negative.
fn debug_int(x: i64) -> (r: String)
    ensures
        r@ == spec_debug_int(x as int),
{
    if x >= 0 {
        decimal_u64(x as u64)
    } else {
        String::from_str("-").concat(decimal_u64((0 - (x as i128)) as u64).as_str())
    }
}

/// How the diff shows a recorded value other than a continuous one.
pub fn display_label(site: &str, v: SiteValue) -> (r: String)
    requires
        !(v is Real),
        site@ == "oct"@ ==> match v {
            SiteValue::Index(i) => !octave_overflows(i),
            _ => true,
        },
    ensures
        r@ == spec_display_label(site@, v),
{
    match v {
        SiteValue::Flag(b) => if b {
            String::from_str("source")
        } else {
            String::from_str("processor")
        },
        SiteValue::Index(i) => {
            if str_eq(site, "oct") {
                let o = i as i8;
                signed_octave(o as i16 - 2)
            } else {
                let names = site_names(site);
                if i < names.len() {
                    String::from_str(names[i])
                } else {
                    decimal(i)
                }
            }
        },
        SiteValue::Signed(x) => String::from_str("I64(").concat(debug_int(x).as_str()).concat(")"),
        SiteValue::Count(x) => String::from_str("U64(").concat(decimal_u64(x).as_str()).concat(")"),
        SiteValue::Real(_) => String::new(),
    }
}

/// Whether `text` shows `v` at `site`: continuous values as the formatter
/// renders them, every other value as its label, and an absent value as no
/// text.
pub open spec fn shows<F: Fn(Param) -> String>(
    text: Option<String>,
    v: Option<SiteValue>,
    site: Seq<char>,
    format_real: F,
) -> bool {
    match (text, v) {
        (None, None) => true,
        (Some(s), Some(SiteValue::Real(b))) => call_ensures(format_real, (b,), s),
        (Some(s), Some(x)) => s@ == spec_display_label(site, x),
        _ => false,
    }
}

/// Whether `e` reports a changed site of `ta` against `tb` faithfully.
pub open spec fn reports_change<F: Fn(Param) -> String>(
    e: DiffEntry,
    ta: Map<Seq<char>, SiteValue>,
    tb: Map<Seq<char>, SiteValue>,
    format_real: F,
) -> bool {
    let site = spec_split_addr(e.addr@).1;
    &&& changed(ta, tb, e.addr@)
    &&& shows(e.before, spec_lookup(ta, e.addr@), site, format_real)
    &&& shows(e.after, spec_lookup(tb, e.addr@), site, format_real)
}

/// Entries in strictly increasing address order.
pub open spec fn sorted_by_address(s: Seq<DiffEntry>) -> bool {
    forall|i: int, j: int| 0 <= i < j < s.len() ==> seq_lt(s[i].addr@, s[j].addr@)
}

/// Whether `s` is the diff of `ta` against `tb`: one entry for every changed
/// address and for nothing else, each faithful, in address order.
pub open spec fn is_diff<F: Fn(Param) -> String>(
    s: Seq<DiffEntry>,
    ta: Map<Seq<char>, SiteValue>,
    tb: Map<Seq<char>, SiteValue>,
    format_real: F,
) -> bool {
    &&& sorted_by_address(s)
    &&& forall|i: int| 0 <= i < s.len() ==> reports_change(#[trigger] s[i], ta, tb, format_real)
    &&& forall|a: Seq<char>|
        changed(ta, tb, a) ==> exists|i: int| 0 <= i < s.len() && #[trigger] s[i].addr@ == a
}

/// Show a recorded value at `site`.
fn display<F: Fn(Param) -> String>(site: &str, v: SiteValue, format_real: &F) -> (r: String)
    requires
        forall|b: Param| call_requires(*format_real, (b,)),
        site@ == "oct"@ ==> match v {
            SiteValue::Index(i) => !octave_overflows(i),
            _ => true,
        },
    ensures
        shows(Some(r), Some(v), site@, *format_real),
{
    match v {
        SiteValue::Real(b) => format_real(b),
        _ => display_label(site, v),
    }
}

/// Insert `e` into address-sorted `out` at its place.
fn insert_sorted(out: &mut Vec<DiffEntry>, e: DiffEntry)
    requires
        sorted_by_address(old(out)@),
        forall|k: int| 0 <= k < old(out)@.len() ==> old(out)@[k].addr@ != e.addr@,
    ensures
        sorted_by_address(final(out)@),
        exists|p: int| 0 <= p <= old(out)@.len() && final(out)@ == old(out)@.insert(p, e),
{
    let mut p: usize = 0;
    while p < out.len() && str_lt(out[p].addr.as_str(), e.addr.as_str())
        invariant
            p <= out@.len(),
            forall|k: int| 0 <= k < p ==> seq_lt(#[trigger] out@[k].addr@, e.addr@),
        decreases out@.len() - p,
    {
        p = p + 1;
    }
    let ghost before = out@;
    proof {
        if p < before.len() {
            lemma_seq_lt_order(before[p as int].addr@, e.addr@, e.addr@);
            assert forall|k: int| p <= k < before.len() implies seq_lt(
                e.addr@,
                #[trigger] before[k].addr@,
            ) by {
                if k > p {
                    lemma_seq_lt_order(e.addr@, before[p as int].addr@, before[k].addr@);
                }
            }
        }
    }
    out.insert(p, e);
    proof {
        before.insert_ensures(p as int, e);
        let after = out@;
        assert forall|i: int, j: int| 0 <= i < j < after.len() implies seq_lt(
            after[i].addr@,
            after[j].addr@,
        ) by {
            if j < p {
            } else if j == p {
            } else if i < p {
                assert(after[j] == before[j - 1]);
                lemma_seq_lt_order(after[i].addr@, e.addr@, after[j].addr@);
            } else if i == p {
                assert(after[j] == before[j - 1]);
            } else {
                assert(after[i] == before[i - 1]);
                assert(after[j] == before[j - 1]);
            }
        }
    }
}

/// Diff two trees by their canonical trace encodings.
///
/// Entries come in address order; a structural move shows up as a cluster of
/// removed and added sites under the rewritten keys. Continuous values are
/// shown as `format_real` renders them.
#[verifier::rlimit(50)]
pub fn tree_diff<F: Fn(Param) -> String>(before: &PatchTree, after: &PatchTree, format_real: F) -> (r:
    Vec<DiffEntry>)
    requires
        octaves_encodable(before.root),
        octaves_encodable(after.root),
        forall|b: Param| call_requires(format_real, (b,)),
    ensures
        is_diff(r@, spec_to_trace(*before), spec_to_trace(*after), format_real),
{
    let ta = before.to_trace();
    let tb = after.to_trace();
    let ghost ma = ta.choices();
    let ghost mb = tb.choices();
    proof {
        lemma_trace_readable(*before);
        lemma_trace_readable(*after);
    }
    let ea = ta.entries();
    let eb = tb.entries();
    let mut out: Vec<DiffEntry> = Vec::new();
    let mut i: usize = 0;
    while i < ea.len()
        invariant
            i <= ea@.len(),
            ma == spec_to_trace(*before),
            mb == spec_to_trace(*after),
            octaves_readable(ma),
            octaves_readable(mb),
            forall|b: Param| call_requires(format_real, (b,)),
            ta.choices() == ma,
            tb.choices() == mb,
            distinct_addresses(ea@),
            forall|k: int| 0 <= k < ea@.len() ==> #[trigger] spec_lookup(ma, ea@[k].0@) == Some(ea@[k].1),
            sorted_by_address(out@),
            forall|k: int| 0 <= k < out@.len() ==> reports_change(#[trigger] out@[k], ma, mb, format_real),
            forall|k: int|
                #![trigger out@[k]]
                0 <= k < out@.len() ==> exists|j: int| 0 <= j < i && #[trigger] ea@[j].0@ == out@[k].addr@,
            forall|j: int|
                0 <= j < i && changed(ma, mb, #[trigger] ea@[j].0@) ==> exists|k: int|
                    0 <= k < out@.len() && out@[k].addr@ == ea@[j].0@,
        decreases ea@.len() - i,
    {
        let a = &ea[i].0;
        let va = ea[i].1;
        let (_, site) = split_addr(a.as_str());
        let vb = tb.get(a.as_str());
        let keep = match vb {
            Some(y) => !same_choice(va, y),
            None => true,
        };
        if keep {
            proof {
                assert(spec_lookup(ma, ea@[i as int].0@) == Some(va));
                assert(ma.dom().contains(a@));
            }
            let shown_a = display(site, va, &format_real);
            let shown_b = match vb {
                Some(y) => {
                    proof {
                        assert(mb.dom().contains(a@));
                    }
                    Some(display(site, y, &format_real))
                },
                None => None,
            };
            let e = DiffEntry { addr: a.clone(), before: Some(shown_a), after: shown_b };
            let ghost old_out = out@;
            proof {
                assert forall|k: int| 0 <= k < old_out.len() implies old_out[k].addr@ != e.addr@ by {
                    let j = choose|j: int| 0 <= j < i && #[trigger] ea@[j].0@ == old_out[k].addr@;
                }
            }
            insert_sorted(&mut out, e);
            proof {
                let p = choose|p: int| 0 <= p <= old_out.len() && out@ == old_out.insert(p, e);
                old_out.insert_ensures(p, e);
                assert forall|k: int| #![trigger out@[k]] 0 <= k < out@.len() implies exists|j: int|
                    0 <= j < i + 1 && #[trigger] ea@[j].0@ == out@[k].addr@ by {
                    if k < p {
                        let j = choose|j: int| 0 <= j < i && #[trigger] ea@[j].0@ == old_out[k].addr@;
                    } else if k > p {
                        let j = choose|j: int|
                            0 <= j < i && #[trigger] ea@[j].0@ == old_out[k - 1].addr@;
                    }
                }
                assert forall|j: int|
                    0 <= j < i + 1 && changed(ma, mb, #[trigger] ea@[j].0@) implies exists|k: int|
                    0 <= k < out@.len() && out@[k].addr@ == ea@[j].0@ by {
                    if j < i {
                        let k = choose|k: int| 0 <= k < old_out.len() && old_out[k].addr@ == ea@[j].0@;
                        if k < p {
                            assert(out@[k] == old_out[k]);
                        } else {
                            assert(out@[k + 1] == old_out[k]);
                        }
                    } else {
                        assert(out@[p] == e);
                    }
                }
                assert forall|k: int| 0 <= k < out@.len() implies reports_change(
                    #[trigger] out@[k],
                    ma,
                    mb,
                    format_real,
                ) by {
                    if k < p {
                        assert(out@[k] == old_out[k]);
                    } else if k > p {
                        assert(out@[k] == old_out[k - 1]);
                    }
                }
            }
        } else {
            proof {
                assert(!changed(ma, mb, ea@[i as int].0@));
            }
        }
        i = i + 1;
    }
    let mut j: usize = 0;
    while j < eb.len()
        invariant
            j <= eb@.len(),
            ma == spec_to_trace(*before),
            mb == spec_to_trace(*after),
            octaves_readable(mb),
            forall|b: Param| call_requires(format_real, (b,)),
            ta.choices() == ma,
            tb.choices() == mb,
            distinct_addresses(eb@),
            forall|k: int| 0 <= k < eb@.len() ==> #[trigger] spec_lookup(mb, eb@[k].0@) == Some(eb@[k].1),
            forall|a: Seq<char>|
                ma.dom().contains(a) ==> exists|k: int| 0 <= k < ea@.len() && #[trigger] ea@[k].0@ == a,
            forall|a: Seq<char>|
                mb.dom().contains(a) ==> exists|k: int| 0 <= k < eb@.len() && #[trigger] eb@[k].0@ == a,
            forall|k: int| 0 <= k < ea@.len() ==> #[trigger] spec_lookup(ma, ea@[k].0@) == Some(ea@[k].1),
            sorted_by_address(out@),
            forall|k: int| 0 <= k < out@.len() ==> reports_change(#[trigger] out@[k], ma, mb, format_real),
            forall|k: int|
                #![trigger out@[k]]
                0 <= k < out@.len() ==> ma.dom().contains(out@[k].addr@) || exists|l: int|
                    0 <= l < j && #[trigger] eb@[l].0@ == out@[k].addr@,
            forall|l: int|
                0 <= l < ea@.len() && changed(ma, mb, #[trigger] ea@[l].0@) ==> exists|k: int|
                    0 <= k < out@.len() && out@[k].addr@ == ea@[l].0@,
            forall|l: int|
                0 <= l < j && !ma.dom().contains(#[trigger] eb@[l].0@) ==> exists|k: int|
                    0 <= k < out@.len() && out@[k].addr@ == eb@[l].0@,
        decreases eb@.len() - j,
    {
        let a = &eb[j].0;
        let vb = eb[j].1;
        if ta.get(a.as_str()).is_none() {
            let (_, site) = split_addr(a.as_str());
            proof {
                assert(spec_lookup(mb, eb@[j as int].0@) == Some(vb));
                assert(mb.dom().contains(a@));
            }
            let shown_b = display(site, vb, &format_real);
            let e = DiffEntry { addr: a.clone(), before: None, after: Some(shown_b) };
            let ghost old_out = out@;
            proof {
                assert forall|k: int| 0 <= k < old_out.len() implies old_out[k].addr@ != e.addr@ by {
                    if !ma.dom().contains(old_out[k].addr@) {
                        let l = choose|l: int| 0 <= l < j && #[trigger] eb@[l].0@ == old_out[k].addr@;
                    }
                }
            }
            insert_sorted(&mut out, e);
            proof {
                let p = choose|p: int| 0 <= p <= old_out.len() && out@ == old_out.insert(p, e);
                old_out.insert_ensures(p, e);
                assert forall|k: int| #![trigger out@[k]] 0 <= k < out@.len() implies ma.dom().contains(
                    out@[k].addr@,
                ) || exists|l: int| 0 <= l < j + 1 && #[trigger] eb@[l].0@ == out@[k].addr@ by {
                    if k < p {
                        assert(out@[k] == old_out[k]);
                        if !ma.dom().contains(old_out[k].addr@) {
                            let l = choose|l: int|
                                0 <= l < j && #[trigger] eb@[l].0@ == old_out[k].addr@;
                        }
                    } else if k > p {
                        assert(out@[k] == old_out[k - 1]);
                        if !ma.dom().contains(old_out[k - 1].addr@) {
                            let l = choose|l: int|
                                0 <= l < j && #[trigger] eb@[l].0@ == old_out[k - 1].addr@;
                        }
                    } else {
                        assert(eb@[j as int].0@ == out@[k].addr@);
                    }
                }
                assert forall|l: int|
                    0 <= l < ea@.len() && changed(ma, mb, #[trigger] ea@[l].0@) implies exists|k: int|
                    0 <= k < out@.len() && out@[k].addr@ == ea@[l].0@ by {
                    let k = choose|k: int| 0 <= k < old_out.len() && old_out[k].addr@ == ea@[l].0@;
                    if k < p {
                        assert(out@[k] == old_out[k]);
                    } else {
                        assert(out@[k + 1] == old_out[k]);
                    }
                }
                assert forall|l: int|
                    0 <= l < j + 1 && !ma.dom().contains(#[trigger] eb@[l].0@) implies exists|k: int|
                    0 <= k < out@.len() && out@[k].addr@ == eb@[l].0@ by {
                    if l < j {
                        let k = choose|k: int| 0 <= k < old_out.len() && old_out[k].addr@ == eb@[l].0@;
                        if k < p {
                            assert(out@[k] == old_out[k]);
                        } else {
                            assert(out@[k + 1] == old_out[k]);
                        }
                    } else {
                        assert(out@[p] == e);
                    }
                }
                assert forall|k: int| 0 <= k < out@.len() implies reports_change(
                    #[trigger] out@[k],
                    ma,
                    mb,
                    format_real,
                ) by {
                    if k < p {
                        assert(out@[k] == old_out[k]);
                    } else if k > p {
                        assert(out@[k] == old_out[k - 1]);
                    }
                }
            }
        }
        j = j + 1;
    }
    proof {
        assert forall|a: Seq<char>| changed(ma, mb, a) implies exists|i: int|
            0 <= i < out@.len() && #[trigger] out@[i].addr@ == a by {
            if ma.dom().contains(a) {
                let l = choose|l: int| 0 <= l < ea@.len() && #[trigger] ea@[l].0@ == a;
            } else {
                assert(mb.dom().contains(a));
                let l = choose|l: int| 0 <= l < eb@.len() && #[trigger] eb@[l].0@ == a;
            }
        }
    }
    out
}


/// Diffing a patch against itself reports nothing, as long as no continuous
/// value in it is NaN: NaN compares unequal to itself, so a NaN site is
/// reported as changed.
pub proof fn lemma_identity_diff_is_empty<F: Fn(Param) -> String>(
    s: Seq<DiffEntry>,
    p: PatchTree,
    format_real: F,
)
    requires
        is_diff(s, spec_to_trace(p), spec_to_trace(p), format_real),
        forall|a: Seq<char>, b: Param|
            spec_lookup(spec_to_trace(p), a) == Some(SiteValue::Real(b)) ==> magnitude(b)
                <= 0x7ff0_0000_0000_0000,
    ensures
        s.len() == 0,
{
    if s.len() > 0 {
        assert(reports_change(s[0], spec_to_trace(p), spec_to_trace(p), format_real));
    }
}


} // verus!
