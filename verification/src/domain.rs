//! Parameter domains: every continuous site of the grammar is drawn from
//! `[0, 1]`, so a value outside it has no prior mass and is a corruption
//! rather than an unusual patch. The check reads the trace, which enumerates
//! exactly the continuous sites; the repair pulls each one back in.

use vstd::prelude::*;
use vstd::string::StringExecFns;

use crate::diff::magnitude;
use crate::edit::{clamp_unit, spec_clamp_unit};
use crate::encoding::{
    lemma_from_trace_no_overflow, lemma_trace_readable, octaves_encodable, octaves_readable,
    spec_from_trace, spec_to_trace, Decoded,
};
use crate::mutate::{P050, P100};
use crate::term::{Param, PatchTree};
use crate::text::{lemma_seq_lt_order, seq_lt, str_lt};
use crate::trace::{distinct_addresses, spec_lookup, SiteTrace, SiteValue};
use crate::repair::lemma_repair_leaves_nothing;
use crate::turning::lemma_repair_rebuilds;

verus! {

/// Whether the `f64` with bit pattern `b` is a legal continuous value: finite
/// and within `[0, 1]`. A non-negative value is at most one exactly when its
/// bits are at most those of `1.0`; negative zero is zero.
pub open spec fn spec_in_domain(b: Param) -> bool {
    b <= P100 || b == 0x8000_0000_0000_0000
}

/// Is `b` a legal value for a continuous site?
pub fn in_domain(b: Param) -> (r: bool)
    ensures
        r == spec_in_domain(b),
{
    b <= P100 || b == 0x8000_0000_0000_0000
}

/// A continuous site holding an illegal value.
pub open spec fn is_violation(v: SiteValue) -> bool {
    v matches SiteValue::Real(b) && !spec_in_domain(b)
}

/// The legal value an illegal one is pulled back to: a NaN, which carries no
/// direction, to the middle of the range, anything else to its clamp.
pub open spec fn spec_repair(b: Param) -> Param {
    if magnitude(b) > 0x7ff0_0000_0000_0000 {
        P050
    } else {
        spec_clamp_unit(b)
    }
}

/// The recorded value after repair: illegal continuous values are pulled
/// back, everything else stays.
pub open spec fn repaired_value(v: SiteValue) -> SiteValue {
    match v {
        SiteValue::Real(b) => if spec_in_domain(b) {
            v
        } else {
            SiteValue::Real(spec_repair(b))
        },
        _ => v,
    }
}

/// A trace with every illegal continuous value repaired.
pub open spec fn repaired(t: Map<Seq<char>, SiteValue>) -> Map<Seq<char>, SiteValue> {
    Map::new(|a: Seq<char>| t.dom().contains(a), |a: Seq<char>| repaired_value(t[a]))
}

/// The addresses of a trace that hold illegal values.
pub open spec fn violations(t: Map<Seq<char>, SiteValue>) -> Set<Seq<char>> {
    t.dom().filter(|a: Seq<char>| is_violation(t[a]))
}

/// Pairs in strictly increasing address order.
pub open spec fn sorted_pairs(s: Seq<(String, Param)>) -> bool {
    forall|i: int, j: int| 0 <= i < j < s.len() ==> seq_lt(s[i].0@, s[j].0@)
}

/// Insert `e` into address-sorted `out` at its place.
fn insert_pair_sorted(out: &mut Vec<(String, Param)>, e: (String, Param))
    requires
        sorted_pairs(old(out)@),
        forall|k: int| 0 <= k < old(out)@.len() ==> old(out)@[k].0@ != e.0@,
    ensures
        sorted_pairs(final(out)@),
        exists|p: int| 0 <= p <= old(out)@.len() && final(out)@ == old(out)@.insert(p, e),
{
    let mut p: usize = 0;
    while p < out.len() && str_lt(out[p].0.as_str(), e.0.as_str())
        invariant
            p <= out@.len(),
            forall|k: int| 0 <= k < p ==> seq_lt(#[trigger] out@[k].0@, e.0@),
        decreases out@.len() - p,
    {
        p = p + 1;
    }
    let ghost before = out@;
    proof {
        if p < before.len() {
            lemma_seq_lt_order(before[p as int].0@, e.0@, e.0@);
            assert forall|k: int| p <= k < before.len() implies seq_lt(
                e.0@,
                #[trigger] before[k].0@,
            ) by {
                if k > p {
                    lemma_seq_lt_order(e.0@, before[p as int].0@, before[k].0@);
                }
            }
        }
    }
    out.insert(p, e);
    proof {
        before.insert_ensures(p as int, e);
        let after = out@;
        assert forall|i: int, j: int| 0 <= i < j < after.len() implies seq_lt(
            after[i].0@,
            after[j].0@,
        ) by {
            if j < p {
            } else if j == p {
            } else if i < p {
                assert(after[j] == before[j - 1]);
                lemma_seq_lt_order(after[i].0@, e.0@, after[j].0@);
            } else if i == p {
                assert(after[j] == before[j - 1]);
            } else {
                assert(after[i] == before[i - 1]);
                assert(after[j] == before[j - 1]);
            }
        }
    }
}

impl PatchTree {
    /// Every continuous site of this term that sits outside `[0, 1]`, as
    /// `(trace address, value)`, in address order.
    pub fn domain_violations(&self) -> (r: Vec<(String, Param)>)
        requires
            octaves_encodable(self.root),
        ensures
            sorted_pairs(r@),
            forall|i: int|
                0 <= i < r@.len() ==> #[trigger] spec_lookup(spec_to_trace(*self), r@[i].0@)
                    == Some(SiteValue::Real(r@[i].1)) && !spec_in_domain(r@[i].1),
            forall|a: Seq<char>|
                #[trigger] violations(spec_to_trace(*self)).contains(a) ==> exists|i: int|
                    0 <= i < r@.len() && r@[i].0@ == a,
    {
        let trace = self.to_trace();
        let ghost t = trace.choices();
        let entries = trace.entries();
        let mut out: Vec<(String, Param)> = Vec::new();
        let mut i: usize = 0;
        while i < entries.len()
            invariant
                i <= entries@.len(),
                t == spec_to_trace(*self),
                distinct_addresses(entries@),
                forall|k: int|
                    0 <= k < entries@.len() ==> #[trigger] spec_lookup(t, entries@[k].0@) == Some(
                        entries@[k].1,
                    ),
                sorted_pairs(out@),
                forall|k: int|
                    0 <= k < out@.len() ==> #[trigger] spec_lookup(t, out@[k].0@) == Some(
                        SiteValue::Real(out@[k].1),
                    ) && !spec_in_domain(out@[k].1),
                forall|k: int|
                    #![trigger out@[k]]
                    0 <= k < out@.len() ==> exists|j: int|
                        0 <= j < i && #[trigger] entries@[j].0@ == out@[k].0@,
                forall|j: int|
                    0 <= j < i && is_violation(#[trigger] entries@[j].1) ==> exists|k: int|
                        0 <= k < out@.len() && out@[k].0@ == entries@[j].0@,
            decreases entries@.len() - i,
        {
            if let SiteValue::Real(b) = entries[i].1 {
                if !in_domain(b) {
                    let e = (entries[i].0.clone(), b);
                    let ghost old_out = out@;
                    proof {
                        assert forall|k: int| 0 <= k < old_out.len() implies old_out[k].0@
                            != e.0@ by {
                            let j = choose|j: int|
                                0 <= j < i && #[trigger] entries@[j].0@ == old_out[k].0@;
                        }
                        assert(spec_lookup(t, entries@[i as int].0@) == Some(entries@[i as int].1));
                    }
                    insert_pair_sorted(&mut out, e);
                    proof {
                        let p = choose|p: int| 0 <= p <= old_out.len() && out@ == old_out.insert(p, e);
                        old_out.insert_ensures(p, e);
                        assert forall|k: int| #![trigger out@[k]] 0 <= k < out@.len() implies exists|j: int|
                            0 <= j < i + 1 && #[trigger] entries@[j].0@ == out@[k].0@ by {
                            if k < p {
                                let j = choose|j: int|
                                    0 <= j < i && #[trigger] entries@[j].0@ == old_out[k].0@;
                            } else if k > p {
                                let j = choose|j: int|
                                    0 <= j < i && #[trigger] entries@[j].0@ == old_out[k - 1].0@;
                            }
                        }
                        assert forall|j: int|
                            0 <= j < i + 1 && is_violation(#[trigger] entries@[j].1) implies exists|k: int|
                            0 <= k < out@.len() && out@[k].0@ == entries@[j].0@ by {
                            if j < i {
                                let k = choose|k: int|
                                    0 <= k < old_out.len() && old_out[k].0@ == entries@[j].0@;
                                if k < p {
                                    assert(out@[k] == old_out[k]);
                                } else {
                                    assert(out@[k + 1] == old_out[k]);
                                }
                            } else {
                                assert(out@[p] == e);
                            }
                        }
                        assert forall|k: int| 0 <= k < out@.len() implies #[trigger] spec_lookup(
                            t,
                            out@[k].0@,
                        ) == Some(SiteValue::Real(out@[k].1)) && !spec_in_domain(out@[k].1) by {
                            if k < p {
                                assert(out@[k] == old_out[k]);
                            } else if k > p {
                                assert(out@[k] == old_out[k - 1]);
                            }
                        }
                    }
                }
            }
            i = i + 1;
        }
        proof {
            assert forall|a: Seq<char>| #[trigger] violations(t).contains(a) implies exists|i: int|
                0 <= i < out@.len() && out@[i].0@ == a by {
                let j = choose|j: int| 0 <= j < entries@.len() && #[trigger] entries@[j].0@ == a;
                assert(spec_lookup(t, entries@[j].0@) == Some(entries@[j].1));
            }
        }
        out
    }

    /// Pull every out-of-domain continuous site back into `[0, 1]`, and say
    /// how many were repaired (zero: the term was already clean, and nothing
    /// was rebuilt). A NaN lands in the middle of the range. Only knob values
    /// change, so the repaired trace always reads back and the term is
    /// rebuilt from it, and the rebuilt term has nothing left to repair.
    pub fn clamp_domains(&mut self) -> (fixed: usize)
        requires
            octaves_encodable(old(self).root),
        ensures
            fixed == violations(spec_to_trace(*old(self))).len(),
            fixed == 0 ==> *final(self) == *old(self),
            fixed > 0 ==> spec_from_trace(repaired(spec_to_trace(*old(self)))) == Decoded::Value(
                *final(self),
            ),
            violations(spec_to_trace(*final(self))) == Set::<Seq<char>>::empty(),
    {
        let trace = self.to_trace();
        let ghost t = trace.choices();
        proof {
            lemma_trace_readable(*self);
        }
        let entries = trace.entries();
        let mut rep = SiteTrace::new();
        let mut fixed: usize = 0;
        let ghost mut seen: Set<Seq<char>> = Set::empty();
        let mut i: usize = 0;
        while i < entries.len()
            invariant
                i <= entries@.len(),
                t == spec_to_trace(*old(self)),
                *self == *old(self),
                t.dom().finite(),
                distinct_addresses(entries@),
                forall|k: int|
                    0 <= k < entries@.len() ==> #[trigger] spec_lookup(t, entries@[k].0@) == Some(
                        entries@[k].1,
                    ),
                forall|a: Seq<char>|
                    t.dom().contains(a) ==> exists|k: int|
                        0 <= k < entries@.len() && #[trigger] entries@[k].0@ == a,
                forall|k: int|
                    0 <= k < i ==> #[trigger] spec_lookup(rep.choices(), entries@[k].0@) == Some(
                        repaired_value(entries@[k].1),
                    ),
                forall|a: Seq<char>|
                    rep.choices().dom().contains(a) ==> exists|k: int|
                        0 <= k < i && #[trigger] entries@[k].0@ == a,
                seen.finite(),
                seen.len() == fixed,
                fixed <= i,
                forall|a: Seq<char>|
                    seen.contains(a) <==> exists|k: int|
                        0 <= k < i && #[trigger] entries@[k].0@ == a && is_violation(entries@[k].1),
            decreases entries@.len() - i,
        {
            let a = entries[i].0.clone();
            let v = entries[i].1;
            let nv = match v {
                SiteValue::Real(b) => if in_domain(b) {
                    v
                } else {
                    let magnitude = if b >= 0x8000_0000_0000_0000 {
                        b - 0x8000_0000_0000_0000
                    } else {
                        b
                    };
                    let r = if magnitude > 0x7ff0_0000_0000_0000 {
                        P050
                    } else {
                        clamp_unit(b)
                    };
                    SiteValue::Real(r)
                },
                _ => v,
            };
            let violation = match v {
                SiteValue::Real(b) => !in_domain(b),
                _ => false,
            };
            proof {
                assert forall|k: int| 0 <= k < i implies entries@[k].0@ != a@ by {}
                if violation {
                    assert(!seen.contains(a@)) by {
                        if seen.contains(a@) {
                            let k = choose|k: int|
                                0 <= k < i && #[trigger] entries@[k].0@ == a@ && is_violation(
                                    entries@[k].1,
                                );
                        }
                    }
                    seen = seen.insert(a@);
                }
            }
            let ghost old_rep = rep.choices();
            rep.insert(a, nv);
            proof {
                assert forall|k: int| 0 <= k < i + 1 implies #[trigger] spec_lookup(
                    rep.choices(),
                    entries@[k].0@,
                ) == Some(repaired_value(entries@[k].1)) by {
                    if k < i {
                        assert(spec_lookup(old_rep, entries@[k].0@) == Some(
                            repaired_value(entries@[k].1),
                        ));
                    }
                }
                assert forall|b: Seq<char>| rep.choices().dom().contains(b) implies exists|k: int|
                    0 <= k < i + 1 && #[trigger] entries@[k].0@ == b by {
                    if b != entries@[i as int].0@ {
                        assert(old_rep.dom().contains(b));
                    }
                }
            }
            if violation {
                fixed = fixed + 1;
            }
            i = i + 1;
        }
        proof {
            let want = repaired(t);
            assert forall|a: Seq<char>| #[trigger] rep.choices().dom().contains(a) <==> want.dom().contains(a) by {
                if t.dom().contains(a) {
                    let k = choose|k: int| 0 <= k < entries@.len() && #[trigger] entries@[k].0@ == a;
                    assert(spec_lookup(rep.choices(), entries@[k].0@) is Some);
                }
                if rep.choices().dom().contains(a) {
                    let k = choose|k: int| 0 <= k < i && #[trigger] entries@[k].0@ == a;
                    assert(spec_lookup(t, entries@[k].0@) is Some);
                }
            }
            assert forall|a: Seq<char>| #[trigger] rep.choices().dom().contains(a) implies rep.choices()[a] == want[a] by {
                let k = choose|k: int| 0 <= k < i && #[trigger] entries@[k].0@ == a;
                assert(spec_lookup(t, entries@[k].0@) == Some(entries@[k].1));
                assert(spec_lookup(rep.choices(), entries@[k].0@) == Some(repaired_value(entries@[k].1)));
            }
            assert(rep.choices() =~= want);
            assert forall|a: Seq<char>| #[trigger] seen.contains(a) <==> violations(t).contains(a) by {
                if violations(t).contains(a) {
                    let k = choose|k: int| 0 <= k < entries@.len() && #[trigger] entries@[k].0@ == a;
                    assert(spec_lookup(t, entries@[k].0@) == Some(entries@[k].1));
                }
                if seen.contains(a) {
                    let k = choose|k: int|
                        0 <= k < i && #[trigger] entries@[k].0@ == a && is_violation(entries@[k].1);
                    assert(spec_lookup(t, entries@[k].0@) == Some(entries@[k].1));
                }
            }
            assert(seen =~= violations(t));
        }
        if fixed == 0 {
            proof {
                violations(t).lemma_len0_is_empty();
            }
            return 0;
        }
        proof {
            rep.lemma_finite();
            assert(octaves_readable(rep.choices())) by {
                assert forall|a: Seq<char>|
                    #[trigger] rep.choices().dom().contains(a) implies rep.choices()[a] == repaired_value(
                    t[a],
                ) by {}
            }
            lemma_from_trace_no_overflow(rep.choices());
            lemma_repair_rebuilds(*self);
            lemma_repair_leaves_nothing(*self);
        }
        match PatchTree::from_trace(&rep) {
            Ok(p) => {
                *self = p;
            },
            Err(_) => {},
        }
        fixed
    }
}

} // verus!
