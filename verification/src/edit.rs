//! Address-based knob edits: turning a panel knob is a write at a trace
//! address, so hand edits and proposals move through the same encoding and
//! cannot drift from the grammar.

use vstd::prelude::*;
use vstd::string::StrSliceExecFns;
use vstd::string::StringExecFns;

use crate::encoding::{
    decoded_as, lemma_from_trace_no_overflow, lemma_insert_readable, lemma_trace_readable,
    octave_overflows, octaves_encodable, spec_from_trace, spec_to_trace, Decoded, TraceError,
};
use crate::mutate::P100;
use crate::term::{Param, PatchTree};
use crate::text::{chars_of, str_eq};
use crate::trace::SiteValue;

verus! {

/// Why a knob edit was rejected.
#[derive(Debug, PartialEq, Eq)]
pub enum EditError {
    /// The address does not exist in this patch.
    UnknownAddress(String),
    /// The address is a structural choice (`#leaf`/`#src`/`#op`/`#mod`/
    /// `#modop`/`#pairop`); structure changes do not go through knob edits.
    StructuralAddress(String),
    /// Value kind does not match the site (continuous vs. enum).
    KindMismatch(String),
    /// The edited trace failed to decode.
    Decode(String),
}

impl EditError {
    /// The error's display text.
    pub open spec fn spec_message(self) -> Seq<char> {
        match self {
            EditError::UnknownAddress(a) => "no such address in patch: "@ + a@,
            EditError::StructuralAddress(a) => "address "@ + a@
                + " is structural; knobs cannot rewire the patch"@,
            EditError::KindMismatch(a) => "value kind mismatch at "@ + a@,
            EditError::Decode(e) => "edited patch failed to decode: "@ + e@,
        }
    }

    /// The error's display text.
    pub fn message(&self) -> (r: String)
        ensures
            r@ == self.spec_message(),
    {
        match self {
            EditError::UnknownAddress(a) => String::from_str("no such address in patch: ").concat(
                a.as_str(),
            ),
            EditError::StructuralAddress(a) => String::from_str("address ").concat(a.as_str()).concat(
                " is structural; knobs cannot rewire the patch",
            ),
            EditError::KindMismatch(a) => String::from_str("value kind mismatch at ").concat(
                a.as_str(),
            ),
            EditError::Decode(e) => String::from_str("edited patch failed to decode: ").concat(
                e.as_str(),
            ),
        }
    }
}

/// Category count for enum sites, by site name.
pub open spec fn spec_enum_arity(site: Seq<char>) -> Option<usize> {
    if site == "wave"@ {
        Some(4)
    } else if site == "color"@ {
        Some(2)
    } else if site == "fkind"@ {
        Some(4)
    } else if site == "oct"@ {
        Some(5)
    } else if site == "table"@ {
        Some(8)
    } else if site == "dmode"@ {
        Some(3)
    } else {
        None
    }
}

/// The structural sites: which production fires, not a knob on it.
pub open spec fn spec_is_structural(site: Seq<char>) -> bool {
    ||| site == "leaf"@
    ||| site == "src"@
    ||| site == "op"@
    ||| site == "mod"@
    ||| site == "modop"@
    ||| site == "pairop"@
}

/// Category count for enum sites, by site name.
pub fn enum_arity(site: &str) -> (r: Option<usize>)
    ensures
        r == spec_enum_arity(site@),
{
    if str_eq(site, "wave") {
        Some(4)
    } else if str_eq(site, "color") {
        Some(2)
    } else if str_eq(site, "fkind") {
        Some(4)
    } else if str_eq(site, "oct") {
        Some(5)
    } else if str_eq(site, "table") {
        Some(8)
    } else if str_eq(site, "dmode") {
        Some(3)
    } else {
        None
    }
}

/// Whether a site is structural. `modop` and `pairop` are structural for
/// the same reason `op` is: which processor sits in a chain is a production,
/// not a knob.
pub fn is_structural(site: &str) -> (r: bool)
    ensures
        r == spec_is_structural(site@),
{
    str_eq(site, "leaf") || str_eq(site, "src") || str_eq(site, "op") || str_eq(site, "mod")
        || str_eq(site, "modop") || str_eq(site, "pairop")
}

/// The position of the last `c` in `s`, if any.
pub open spec fn spec_rfind(s: Seq<char>, c: char) -> Option<nat>
    decreases s.len(),
{
    if s.len() == 0 {
        None
    } else if s.last() == c {
        Some((s.len() - 1) as nat)
    } else {
        spec_rfind(s.drop_last(), c)
    }
}

/// A full address split at its last `#` into key and site; an address with
/// no `#` is all key.
pub open spec fn spec_split_addr(s: Seq<char>) -> (Seq<char>, Seq<char>) {
    match spec_rfind(s, '#') {
        Some(j) => (s.take(j as int), s.skip(j + 1 as int)),
        None => (s, Seq::empty()),
    }
}

proof fn lemma_rfind_at(s: Seq<char>, c: char, j: int)
    requires
        0 <= j < s.len(),
        s[j] == c,
        forall|k: int| j < k < s.len() ==> s[k] != c,
    ensures
        spec_rfind(s, c) == Some(j as nat),
    decreases s.len(),
{
    if j < s.len() - 1 {
        lemma_rfind_at(s.drop_last(), c, j);
    }
}

proof fn lemma_rfind_none(s: Seq<char>, c: char)
    requires
        forall|k: int| 0 <= k < s.len() ==> s[k] != c,
    ensures
        spec_rfind(s, c) is None,
    decreases s.len(),
{
    if s.len() > 0 {
        lemma_rfind_none(s.drop_last(), c);
    }
}

proof fn lemma_rfind_in_range(s: Seq<char>, c: char)
    ensures
        spec_rfind(s, c) matches Some(j) ==> j < s.len() && s[j as int] == c && forall|k: int|
            j < k < s.len() ==> s[k] != c,
    decreases s.len(),
{
    if s.len() > 0 && s.last() != c {
        let d = s.drop_last();
        lemma_rfind_in_range(d, c);
        if let Some(j) = spec_rfind(d, c) {
            assert forall|k: int| j < k < s.len() implies s[k] != c by {
                if k < s.len() - 1 {
                    assert(s[k] == d[k]);
                }
            }
        }
    }
}

/// A key, a `#` and a site with no `#` of its own split back into that key
/// and that site.
pub proof fn lemma_split_joined(key: Seq<char>, site: Seq<char>)
    requires
        forall|k: int| 0 <= k < site.len() ==> site[k] != '#',
    ensures
        spec_split_addr(key + seq!['#'] + site) == (key, site),
{
    let a = key + seq!['#'] + site;
    lemma_rfind_at(a, '#', key.len() as int);
    assert(a.take(key.len() as int) =~= key);
    assert(a.skip(key.len() + 1int) =~= site);
}

/// Split a full address string (`key#site`) into its key and site.
pub fn split_addr(addr: &str) -> (r: (&str, &str))
    ensures
        (r.0@, r.1@) == spec_split_addr(addr@),
{
    let cs = chars_of(addr);
    let n = cs.len();
    let mut j = n;
    while j > 0 && cs[j - 1] != '#'
        invariant
            j <= n == cs@.len(),
            cs@ == addr@,
            forall|k: int| j <= k < n ==> cs@[k] != '#',
        decreases j,
    {
        j = j - 1;
    }
    if j == 0 {
        proof {
            lemma_rfind_none(addr@, '#');
            reveal_strlit("");
        }
        (addr, "")
    } else {
        proof {
            lemma_rfind_at(addr@, '#', j - 1);
        }
        (addr.substring_char(0, j - 1), addr.substring_char(j, n))
    }
}

/// Splitting loses nothing: the key, a `#` and the site make the address
/// back, and the site holds no `#` of its own.
pub proof fn lemma_split_addr_round_trip(addr: Seq<char>)
    ensures
        spec_rfind(addr, '#') is Some ==> spec_split_addr(addr).0.push('#') + spec_split_addr(
            addr,
        ).1 == addr,
        forall|k: int|
            0 <= k < spec_split_addr(addr).1.len() ==> spec_split_addr(addr).1[k] != '#',
    decreases addr.len(),
{
    if addr.len() > 0 {
        lemma_split_addr_round_trip(addr.drop_last());
        if addr.last() == '#' {
            let j = addr.len() - 1;
            assert(addr.take(j).push('#') + addr.skip(j + 1) =~= addr);
        } else {
            match spec_rfind(addr.drop_last(), '#') {
                Some(j) => {
                    let d = addr.drop_last();
                    lemma_rfind_in_range(d, '#');
                    assert(d.take(j as int) =~= addr.take(j as int));
                    assert(addr.skip(j + 1 as int) =~= d.skip(j + 1 as int).push(addr.last()));
                    assert(addr.take(j as int).push('#') + addr.skip(j + 1 as int) =~= (d.take(
                        j as int,
                    ).push('#') + d.skip(j + 1 as int)).push(addr.last()));
                },
                None => {},
            }
        }
    }
}

/// A knob-edit value.
#[derive(Clone, Copy, Debug, PartialEq, Eq, Structural)]
pub enum ParamValue {
    /// A continuous value, as the bit pattern of its `f64`; clamped to
    /// `[0, 1]`.
    Continuous(Param),
    /// An enum or octave selector index, clamped to the site's category
    /// count.
    Index(usize),
}

/// `x.clamp(0.0, 1.0)` for the `f64` whose bit pattern is `b`. Non-negative
/// IEEE-754 values order as their bit patterns do, so: a NaN stays itself,
/// negative zero stays itself, any other negative value becomes `0.0`, and
/// anything above `1.0` becomes `1.0`.
pub open spec fn spec_clamp_unit(b: Param) -> Param {
    let magnitude = if b >= 0x8000_0000_0000_0000 {
        (b - 0x8000_0000_0000_0000) as u64
    } else {
        b
    };
    if magnitude > 0x7ff0_0000_0000_0000 {
        b
    } else if b >= 0x8000_0000_0000_0000 {
        if magnitude == 0 {
            b
        } else {
            0
        }
    } else if b > P100 {
        P100
    } else {
        b
    }
}

/// `x.clamp(0.0, 1.0)` for the `f64` whose bit pattern is `b`.
pub fn clamp_unit(b: Param) -> (r: Param)
    ensures
        r == spec_clamp_unit(b),
{
    let magnitude = if b >= 0x8000_0000_0000_0000 {
        b - 0x8000_0000_0000_0000
    } else {
        b
    };
    if magnitude > 0x7ff0_0000_0000_0000 {
        b
    } else if b >= 0x8000_0000_0000_0000 {
        if magnitude == 0 {
            b
        } else {
            0
        }
    } else if b > P100 {
        P100
    } else {
        b
    }
}

/// The value an edit writes over `old` at `site`, or `None` where the edit's
/// kind does not match the site's.
pub open spec fn spec_edited(old: SiteValue, site: Seq<char>, v: ParamValue) -> Option<SiteValue> {
    match (old, v) {
        (SiteValue::Real(_), ParamValue::Continuous(x)) => Some(SiteValue::Real(spec_clamp_unit(x))),
        (SiteValue::Index(_), ParamValue::Index(i)) => {
            let cap: usize = match spec_enum_arity(site) {
                Some(n) => if n == 0 {
                    0
                } else {
                    (n - 1) as usize
                },
                None => (usize::MAX - 1) as usize,
            };
            Some(SiteValue::Index(if i < cap { i } else { cap }))
        },
        _ => None,
    }
}

/// The display text of the runtime's genome error for a refused decoding.
pub open spec fn spec_genome_error_text(e: TraceError) -> Seq<char> {
    match e {
        TraceError::MissingAddress(a) => "Missing address in trace: "@ + a@,
        TraceError::InvalidStructure(m) => "Invalid genome structure: "@ + m@,
    }
}

/// The display text of the runtime's genome error for a refused decoding.
///
/// Converts to `fugue_evo::error::GenomeError` and renders it with its
/// `Display`, which its `#[error(..)]` attributes define as
/// `Missing address in trace: {0}` and `Invalid genome structure: {0}`.
#[verifier::external_body]
fn genome_error_text(e: &TraceError) -> (r: String)
    ensures
        r@ == spec_genome_error_text(*e),
{
    let g = match e {
        TraceError::MissingAddress(a) => fugue_evo::error::GenomeError::MissingAddress(
            a.clone(),
        ),
        TraceError::InvalidStructure(m) => fugue_evo::error::GenomeError::InvalidStructure(
            m.clone(),
        ),
    };
    g.to_string()
}

/// Whether `r` is what editing `addr` of `tree` to `value` gives: structural
/// sites and absent addresses are refused, a value of the wrong kind is
/// refused, and otherwise the edited trace is read back.
pub open spec fn set_param_reports(
    r: Result<PatchTree, EditError>,
    tree: PatchTree,
    addr: Seq<char>,
    value: ParamValue,
) -> bool {
    let site = spec_split_addr(addr).1;
    let t = spec_to_trace(tree);
    if spec_is_structural(site) {
        r matches Err(EditError::StructuralAddress(a)) && a@ == addr
    } else if !t.dom().contains(addr) {
        r matches Err(EditError::UnknownAddress(a)) && a@ == addr
    } else {
        match spec_edited(t[addr], site, value) {
            None => r matches Err(EditError::KindMismatch(a)) && a@ == addr,
            Some(v) => match spec_from_trace(t.insert(addr, v)) {
                Decoded::Value(p) => r == Ok::<PatchTree, EditError>(p),
                Decoded::Missing(a) => r matches Err(EditError::Decode(m)) && m@
                    == "Missing address in trace: "@ + a,
                Decoded::OutOfRange(msg) => r matches Err(EditError::Decode(m)) && m@
                    == "Invalid genome structure: "@ + msg,
                Decoded::Overflow => false,
            },
        }
    }
}

/// A clamped octave index reads back.
pub(crate) proof fn lemma_small_index_reads(i: usize)
    requires
        i <= 4,
    ensures
        !octave_overflows(i),
{
    assert((i as i8) >= 0) by (bit_vector)
        requires
            i <= 4,
    ;
}

/// A copy of `tree` with the choice at `addr` set to `value`.
///
/// Continuous values are clamped to `[0, 1]`; enum indices are clamped to the
/// site's arity. Structural sites are refused: restructuring is not a knob
/// gesture.
pub fn set_param(tree: &PatchTree, addr: &str, value: ParamValue) -> (r: Result<PatchTree, EditError>)
    requires
        octaves_encodable(tree.root),
    ensures
        set_param_reports(r, *tree, addr@, value),
{
    let (_, site) = split_addr(addr);
    if is_structural(site) {
        return Err(EditError::StructuralAddress(String::from_str(addr)));
    }
    let mut trace = tree.to_trace();
    let old = match trace.get(addr) {
        Some(v) => v,
        None => return Err(EditError::UnknownAddress(String::from_str(addr))),
    };
    let edited = match (old, value) {
        (SiteValue::Real(_), ParamValue::Continuous(x)) => SiteValue::Real(clamp_unit(x)),
        (SiteValue::Index(_), ParamValue::Index(i)) => {
            let cap = match enum_arity(site) {
                Some(n) => if n == 0 {
                    0
                } else {
                    n - 1
                },
                None => usize::MAX - 1,
            };
            SiteValue::Index(
                if i < cap {
                    i
                } else {
                    cap
                },
            )
        },
        _ => return Err(EditError::KindMismatch(String::from_str(addr))),
    };
    proof {
        lemma_trace_readable(*tree);
        if site@ == "oct"@ {
            reveal_strlit("oct");
            reveal_strlit("wave");
            reveal_strlit("color");
            reveal_strlit("fkind");
            assert("oct"@ =~= seq!['o', 'c', 't']);
            assert("wave"@.len() == 4 && "color"@.len() == 5 && "fkind"@.len() == 5);
            assert(spec_enum_arity(site@) == Some(5usize));
            if let SiteValue::Index(j) = edited {
                lemma_small_index_reads(j);
            }
        }
        lemma_insert_readable(trace.choices(), addr@, edited);
    }
    trace.insert(String::from_str(addr), edited);
    proof {
        trace.lemma_finite();
        lemma_from_trace_no_overflow(trace.choices());
    }
    match PatchTree::try_from_trace(&trace) {
        Some(Ok(p)) => Ok(p),
        Some(Err(e)) => Err(EditError::Decode(genome_error_text(&e))),
        None => {
            assert(false);
            Err(EditError::Decode(String::new()))
        },
    }
}

} // verus!
