//! A recorded set of choices: one typed value per trace address.
//!
//! An address is a node key and a site name joined by `#`, exactly as the
//! probabilistic-programming runtime spells `addr!(key, site)`. The trace is
//! kept as a list of distinct addresses; its meaning is the map from each
//! address to the value recorded there, and inserting at an address that is
//! already present overwrites it.

use vstd::prelude::*;

use crate::term::Param;
use crate::text::str_eq;

verus! {

/// One recorded choice, by the type its distribution returns.
#[derive(Clone, Copy, Debug, PartialEq, Eq, Structural)]
pub enum SiteValue {
    /// A continuous draw, as the bit pattern of its `f64`.
    Real(Param),
    /// A signed integer draw.
    Signed(i64),
    /// A count draw.
    Count(u64),
    /// A categorical draw.
    Index(usize),
    /// A Bernoulli draw.
    Flag(bool),
}

/// One address segment with the separator escaped: `\` becomes `\\` and `#`
/// becomes `\#`; every other character stands for itself.
pub open spec fn spec_escape(s: Seq<char>) -> Seq<char>
    decreases s.len(),
{
    if s.len() == 0 {
        Seq::empty()
    } else {
        let c = s[0];
        let head = if c == '\\' {
            seq!['\\', '\\']
        } else if c == '#' {
            seq!['\\', '#']
        } else {
            seq![c]
        };
        head + spec_escape(s.drop_first())
    }
}

/// The address of `site` under `key`: both segments escaped, joined by `#`.
pub open spec fn spec_address(key: Seq<char>, site: Seq<char>) -> Seq<char> {
    spec_escape(key) + seq!['#'] + spec_escape(site)
}

/// The address of `site` under `key`.
///
/// Calls `fugue::core::address::make_indexed`, the function that
/// `fugue::addr!(key, site)` expands to. The contract claims what its source
/// shows: each segment is escaped (`\` to `\\`, `#` to `\#`) and the two are
/// joined by `#`.
#[verifier::external_body]
pub(crate) fn site_address(key: &str, site: &str) -> (r: String)
    ensures
        r@ == spec_address(key@, site@),
{
    fugue::core::address::make_indexed(key, site)
}

/// A segment that escaping leaves as it is: no `#` and no `\`.
pub open spec fn is_plain(s: Seq<char>) -> bool {
    forall|i: int| 0 <= i < s.len() ==> s[i] != '#' && s[i] != '\\'
}

/// Escaping leaves a plain segment as it is.
pub proof fn lemma_escape_plain(s: Seq<char>)
    requires
        is_plain(s),
    ensures
        spec_escape(s) == s,
    decreases s.len(),
{
    if s.len() > 0 {
        assert(is_plain(s.drop_first()));
        lemma_escape_plain(s.drop_first());
        assert(seq![s[0]] + s.drop_first() =~= s);
    }
}

/// Escaping never produces an empty segment from a non-empty one, and its
/// first character tells a special character from a plain one.
proof fn lemma_escape_head(s: Seq<char>)
    requires
        s.len() > 0,
    ensures
        spec_escape(s).len() > 0,
        (s[0] == '\\' || s[0] == '#') ==> spec_escape(s).len() >= 2 && spec_escape(s)[0] == '\\'
            && spec_escape(s)[1] == s[0] && spec_escape(s).skip(2) == spec_escape(s.drop_first()),
        (s[0] != '\\' && s[0] != '#') ==> spec_escape(s)[0] == s[0] && spec_escape(s).skip(1)
            == spec_escape(s.drop_first()),
{
    let t = spec_escape(s.drop_first());
    if s[0] == '\\' {
        assert((seq!['\\', '\\'] + t).skip(2) =~= t);
    } else if s[0] == '#' {
        assert((seq!['\\', '#'] + t).skip(2) =~= t);
    } else {
        assert((seq![s[0]] + t).skip(1) =~= t);
    }
}

/// Escaping is injective: two segments with the same escape are equal.
pub proof fn lemma_escape_injective(a: Seq<char>, b: Seq<char>)
    requires
        spec_escape(a) == spec_escape(b),
    ensures
        a == b,
    decreases a.len(),
{
    if a.len() == 0 {
        if b.len() > 0 {
            lemma_escape_head(b);
        }
        assert(a =~= b);
    } else {
        lemma_escape_head(a);
        if b.len() == 0 {
            assert(spec_escape(b).len() == 0);
        } else {
            lemma_escape_head(b);
            lemma_escape_injective(a.drop_first(), b.drop_first());
            assert(a =~= seq![a[0]] + a.drop_first());
            assert(b =~= seq![b[0]] + b.drop_first());
        }
    }
}

/// Two sites under one key have the same address only if they are the same
/// site.
pub proof fn lemma_address_injective(key: Seq<char>, s1: Seq<char>, s2: Seq<char>)
    requires
        spec_address(key, s1) == spec_address(key, s2),
    ensures
        s1 == s2,
{
    let n = spec_escape(key).len() + 1;
    assert(spec_address(key, s1).skip(n as int) =~= spec_escape(s1));
    assert(spec_address(key, s2).skip(n as int) =~= spec_escape(s2));
    lemma_escape_injective(s1, s2);
}

/// Sites under one key have equal addresses only if they are equal.
pub proof fn lemma_address_injective_forall(key: Seq<char>)
    ensures
        forall|s1: Seq<char>, s2: Seq<char>|
            #![trigger spec_address(key, s1), spec_address(key, s2)]
            spec_address(key, s1) == spec_address(key, s2) ==> s1 == s2,
{
    assert forall|s1: Seq<char>, s2: Seq<char>|
        #![trigger spec_address(key, s1), spec_address(key, s2)]
        spec_address(key, s1) == spec_address(key, s2) implies s1 == s2 by {
        lemma_address_injective(key, s1, s2);
    }
}

/// What a map records at `a`, if anything.
pub open spec fn spec_lookup(m: Map<Seq<char>, SiteValue>, a: Seq<char>) -> Option<SiteValue> {
    if m.dom().contains(a) {
        Some(m[a])
    } else {
        None
    }
}

/// The map a list of entries spells, later entries overriding earlier ones.
pub open spec fn entries_map(s: Seq<(String, SiteValue)>) -> Map<Seq<char>, SiteValue>
    decreases s.len(),
{
    if s.len() == 0 {
        Map::empty()
    } else {
        entries_map(s.drop_last()).insert(s.last().0@, s.last().1)
    }
}

/// No address occurs twice in the list.
pub open spec fn distinct_addresses(s: Seq<(String, SiteValue)>) -> bool {
    forall|i: int, j: int| 0 <= i < j < s.len() ==> s[i].0@ != s[j].0@
}

/// An address is in the spelled map exactly when some entry carries it.
proof fn lemma_entries_dom(s: Seq<(String, SiteValue)>, a: Seq<char>)
    ensures
        entries_map(s).dom().contains(a) <==> exists|i: int| 0 <= i < s.len() && s[i].0@ == a,
        entries_map(s).dom().finite(),
        entries_map(s).dom().len() <= s.len(),
    decreases s.len(),
{
    if s.len() > 0 {
        let p = s.drop_last();
        lemma_entries_dom(p, a);
        if entries_map(s).dom().contains(a) && a != s.last().0@ {
            let i = choose|i: int| 0 <= i < p.len() && p[i].0@ == a;
            assert(s[i] == p[i]);
        }
        if exists|i: int| 0 <= i < s.len() && s[i].0@ == a {
            let i = choose|i: int| 0 <= i < s.len() && s[i].0@ == a;
            if i < s.len() - 1 {
                assert(p[i] == s[i]);
            }
        }
    }
}

/// In a list of distinct addresses, an entry's value is what the map records.
proof fn lemma_entries_at(s: Seq<(String, SiteValue)>, i: int)
    requires
        distinct_addresses(s),
        0 <= i < s.len(),
    ensures
        entries_map(s).dom().contains(s[i].0@),
        entries_map(s)[s[i].0@] == s[i].1,
    decreases s.len(),
{
    let p = s.drop_last();
    if i < s.len() - 1 {
        assert(p[i] == s[i]);
        lemma_entries_at(p, i);
        assert(s[i].0@ != s.last().0@);
    }
}

/// Overwriting the value of an entry overwrites it in the map.
proof fn lemma_entries_update(s: Seq<(String, SiteValue)>, i: int, e: (String, SiteValue))
    requires
        distinct_addresses(s),
        0 <= i < s.len(),
        e.0@ == s[i].0@,
    ensures
        entries_map(s.update(i, e)) == entries_map(s).insert(e.0@, e.1),
    decreases s.len(),
{
    let u = s.update(i, e);
    if i == s.len() - 1 {
        assert(u.drop_last() =~= s.drop_last());
        assert(entries_map(s).insert(e.0@, e.1) =~= entries_map(s.drop_last()).insert(e.0@, e.1));
    } else {
        let p = s.drop_last();
        assert(u.drop_last() =~= p.update(i, e));
        lemma_entries_update(p, i, e);
        assert(s.last().0@ != e.0@);
        assert(entries_map(u) =~= entries_map(s).insert(e.0@, e.1));
    }
}

/// In a list of distinct addresses, the map has one address per entry.
proof fn lemma_entries_len(s: Seq<(String, SiteValue)>)
    requires
        distinct_addresses(s),
    ensures
        entries_map(s).dom().len() == s.len(),
    decreases s.len(),
{
    if s.len() > 0 {
        let p = s.drop_last();
        lemma_entries_len(p);
        lemma_entries_dom(p, s.last().0@);
        if entries_map(p).dom().contains(s.last().0@) {
            let i = choose|i: int| 0 <= i < p.len() && p[i].0@ == s.last().0@;
            assert(s[i] == p[i]);
        }
    }
}

/// A set of recorded choices, one value per address.
pub struct SiteTrace {
    entries: Vec<(String, SiteValue)>,
}

impl SiteTrace {
    #[verifier::type_invariant]
    spec fn well_formed(self) -> bool {
        distinct_addresses(self.entries@)
    }

    /// The recorded choices, by address.
    pub closed spec fn choices(self) -> Map<Seq<char>, SiteValue> {
        entries_map(self.entries@)
    }

    /// A trace records finitely many choices.
    pub proof fn lemma_finite(self)
        ensures
            self.choices().dom().finite(),
    {
        if self.entries@.len() > 0 {
            lemma_entries_dom(self.entries@, self.entries@[0].0@);
        } else {
            assert(self.choices() =~= Map::empty());
        }
    }

    /// The trace that records nothing.
    pub fn new() -> (t: SiteTrace)
        ensures
            t.choices() == Map::<Seq<char>, SiteValue>::empty(),
    {
        SiteTrace { entries: Vec::new() }
    }

    /// How many choices are recorded.
    pub fn len(&self) -> (n: usize)
        ensures
            n == self.choices().dom().len(),
    {
        proof {
            use_type_invariant(self);
            lemma_entries_len(self.entries@);
        }
        self.entries.len()
    }

    /// The recorded choices, one entry per address.
    pub fn entries(&self) -> (r: Vec<(String, SiteValue)>)
        ensures
            distinct_addresses(r@),
            entries_map(r@) == self.choices(),
            forall|i: int|
                0 <= i < r@.len() ==> #[trigger] spec_lookup(self.choices(), r@[i].0@) == Some(
                    r@[i].1,
                ),
            forall|a: Seq<char>|
                self.choices().dom().contains(a) ==> exists|i: int|
                    0 <= i < r@.len() && #[trigger] r@[i].0@ == a,
    {
        proof {
            use_type_invariant(self);
        }
        let mut r: Vec<(String, SiteValue)> = Vec::new();
        let mut i: usize = 0;
        while i < self.entries.len()
            invariant
                i <= self.entries@.len(),
                r@ == self.entries@.take(i as int),
            decreases self.entries@.len() - i,
        {
            let a = self.entries[i].0.clone();
            r.push((a, self.entries[i].1));
            assert(r@ =~= self.entries@.take(i + 1));
            i = i + 1;
        }
        assert(self.entries@.take(i as int) =~= self.entries@);
        proof {
            assert forall|i: int|
                0 <= i < r@.len() implies #[trigger] spec_lookup(self.choices(), r@[i].0@) == Some(
                r@[i].1,
            ) by {
                lemma_entries_at(r@, i);
            }
            assert forall|a: Seq<char>| self.choices().dom().contains(a) implies exists|i: int|
                0 <= i < r@.len() && #[trigger] r@[i].0@ == a by {
                lemma_entries_dom(r@, a);
            }
        }
        r
    }

    /// The position of the entry at `address`, if there is one.
    fn position(&self, address: &str) -> (r: Option<usize>)
        ensures
            match r {
                Some(i) => i < self.entries@.len() && self.entries@[i as int].0@ == address@,
                None => forall|i: int|
                    0 <= i < self.entries@.len() ==> self.entries@[i].0@ != address@,
            },
    {
        let mut i: usize = 0;
        while i < self.entries.len()
            invariant
                i <= self.entries@.len(),
                forall|j: int| 0 <= j < i ==> self.entries@[j].0@ != address@,
            decreases self.entries@.len() - i,
        {
            if str_eq(self.entries[i].0.as_str(), address) {
                return Some(i);
            }
            i = i + 1;
        }
        None
    }

    /// Record `value` at `address`, replacing what was recorded there.
    pub fn insert(&mut self, address: String, value: SiteValue)
        ensures
            final(self).choices() == old(self).choices().insert(address@, value),
    {
        proof {
            use_type_invariant(&*self);
        }
        let found = self.position(address.as_str());
        let mut entries: Vec<(String, SiteValue)> = Vec::new();
        std::mem::swap(&mut entries, &mut self.entries);
        match found {
            Some(i) => {
                proof {
                    lemma_entries_update(entries@, i as int, (address, value));
                }
                entries.set(i, (address, value));
            },
            None => {
                let ghost s = entries@.push((address, value));
                assert(s.drop_last() =~= entries@);
                entries.push((address, value));
            },
        }
        self.entries = entries;
    }

    /// What is recorded at `address`.
    pub fn get(&self, address: &str) -> (r: Option<SiteValue>)
        ensures
            r == spec_lookup(self.choices(), address@),
    {
        proof {
            use_type_invariant(self);
            lemma_entries_dom(self.entries@, address@);
        }
        match self.position(address) {
            Some(i) => {
                proof {
                    lemma_entries_at(self.entries@, i as int);
                }
                Some(self.entries[i].1)
            },
            None => None,
        }
    }
}

} // verus!
