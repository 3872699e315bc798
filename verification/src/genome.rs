//! The trace-address scheme: every choice site of a patch lives at
//! `key#site`, where the key of the root node is `node`, the key of a node's
//! child `i` is `<key>/i`, and the key of its modulation slot is `<key>/m`.
//! A modulation chain's own subterms nest below the slot with the same
//! `/0`, `/1` convention, which is unambiguous because every modulation key
//! already sits below a `/m`.

use vstd::prelude::*;
use vstd::string::StringExecFns;

use crate::mutate::{spec_find, spec_parse_fields, spec_parse_key};
use crate::text::{
    all_digits, decimal, is_digit, lemma_decimal_digits, lemma_parse_decimal, spec_decimal,
    spec_parse_usize,
};
use crate::trace::{is_plain, lemma_escape_plain, spec_address};

verus! {

/// The key of child `i` below `key`.
pub open spec fn spec_child_key(key: Seq<char>, i: nat) -> Seq<char> {
    key.push('/') + spec_decimal(i)
}

/// The key of the modulation slot of the module at `key`.
pub open spec fn spec_mod_key(key: Seq<char>) -> Seq<char> {
    key.push('/').push('m')
}

/// The key of child `i` below `key`.
pub fn child_key(key: &str, i: usize) -> (r: String)
    ensures
        r@ == spec_child_key(key@, i as nat),
{
    proof {
        reveal_strlit("/");
    }
    let digits = decimal(i);
    String::from_str(key).concat("/").concat(digits.as_str())
}

/// The key of the modulation slot of the module at `key`.
pub fn mod_key(key: &str) -> (r: String)
    ensures
        r@ == spec_mod_key(key@),
{
    proof {
        reveal_strlit("/m");
    }
    let r = String::from_str(key).concat("/m");
    assert(r@ =~= key@.push('/').push('m'));
    r
}

/// Whether `a`, an address or a key, lies inside the subtree at `key`: it
/// continues `key` with `#` (a site of that node) or `/` (a deeper key).
pub open spec fn below(a: Seq<char>, key: Seq<char>) -> bool {
    &&& a.len() > key.len()
    &&& a.take(key.len() as int) == key
    &&& (a[key.len() as int] == '#' || a[key.len() as int] == '/')
}

/// What lies below a key `c` that continues `key` with `/` lies below `key`,
/// with the same character as `c` after the slash.
proof fn lemma_below_nested(key: Seq<char>, c: Seq<char>)
    requires
        c.len() == key.len() + 2,
        c.take(key.len() as int) == key,
        c[key.len() as int] == '/',
    ensures
        forall|a: Seq<char>|
            #[trigger] below(a, c) ==> below(a, key) && a[key.len() as int] == '/'
                && a[key.len() + 1int] == c[key.len() + 1int],
{
    assert forall|a: Seq<char>| #[trigger] below(a, c) implies below(a, key) && a[key.len() as int]
        == '/' && a[key.len() + 1int] == c[key.len() + 1int] by {
        assert(a[key.len() as int] == a.take(c.len() as int)[key.len() as int]);
        assert(a[key.len() + 1int] == a.take(c.len() as int)[key.len() + 1int]);
        assert(a.take(key.len() as int) =~= c.take(key.len() as int));
    }
}

/// The layout of the subtree at a plain key: its own sites continue it with
/// `#`, and its two child keys and its modulation key are plain and continue
/// it with `/0`, `/1` and `/m`, so their subtrees are disjoint from each
/// other and from the node's own sites.
pub proof fn lemma_layout(key: Seq<char>)
    requires
        is_plain(key),
    ensures
        is_plain(spec_child_key(key, 0)),
        is_plain(spec_child_key(key, 1)),
        is_plain(spec_mod_key(key)),
        forall|s: Seq<char>|
            below(#[trigger] spec_address(key, s), key) && spec_address(key, s)[key.len() as int]
                == '#',
        forall|a: Seq<char>|
            #[trigger] below(a, spec_child_key(key, 0)) ==> below(a, key) && a[key.len() as int]
                == '/' && a[key.len() + 1int] == '0',
        forall|a: Seq<char>|
            #[trigger] below(a, spec_child_key(key, 1)) ==> below(a, key) && a[key.len() as int]
                == '/' && a[key.len() + 1int] == '1',
        forall|a: Seq<char>|
            #[trigger] below(a, spec_mod_key(key)) ==> below(a, key) && a[key.len() as int] == '/'
                && a[key.len() + 1int] == 'm',
{
    lemma_escape_plain(key);
    let k0 = spec_child_key(key, 0);
    let k1 = spec_child_key(key, 1);
    let km = spec_mod_key(key);
    assert(spec_decimal(0) =~= seq!['0']);
    assert(spec_decimal(1) =~= seq!['1']);
    assert(k0 =~= key.push('/').push('0'));
    assert(k1 =~= key.push('/').push('1'));
    assert(k0.take(key.len() as int) =~= key);
    assert(k1.take(key.len() as int) =~= key);
    assert(km.take(key.len() as int) =~= key);
    lemma_below_nested(key, k0);
    lemma_below_nested(key, k1);
    lemma_below_nested(key, km);
    assert forall|s: Seq<char>|
        below(#[trigger] spec_address(key, s), key) && spec_address(key, s)[key.len() as int]
            == '#' by {
        let a = spec_address(key, s);
        assert(a.take(key.len() as int) =~= key);
    }
    assert(is_plain(k0));
    assert(is_plain(k1));
    assert(is_plain(km));
}

/// A character absent from a prefix does not move the first occurrence in
/// the rest.
proof fn lemma_find_concat(t: Seq<char>, u: Seq<char>, c: char)
    ensures
        spec_find(t, c) is Some ==> spec_find(t + u, c) == spec_find(t, c),
        spec_find(t, c) is None ==> match spec_find(u, c) {
            Some(j) => spec_find(t + u, c) == Some(t.len() + j),
            None => spec_find(t + u, c) is None,
        },
    decreases t.len(),
{
    if t.len() == 0 {
        assert(t + u =~= u);
    } else {
        assert((t + u).drop_first() =~= t.drop_first() + u);
        lemma_find_concat(t.drop_first(), u, c);
    }
}

/// A found position is inside the sequence and holds the character.
proof fn lemma_find_in_range(t: Seq<char>, c: char)
    ensures
        spec_find(t, c) matches Some(j) ==> j < t.len() && t[j as int] == c,
        spec_find(t, c) is None ==> forall|k: int| 0 <= k < t.len() ==> t[k] != c,
    decreases t.len(),
{
    if t.len() > 0 {
        lemma_find_in_range(t.drop_first(), c);
        if spec_find(t, c) is None {
            assert forall|k: int| 0 <= k < t.len() implies t[k] != c by {
                if k > 0 {
                    assert(t[k] == t.drop_first()[k - 1]);
                }
            }
        }
    }
}

/// A decimal rendering holds no `/`.
proof fn lemma_decimal_has_no_slash(i: nat)
    ensures
        spec_find(spec_decimal(i), '/') is None,
{
    lemma_decimal_digits(i);
    let d = spec_decimal(i);
    lemma_find_in_range(d, '/');
    if let Some(j) = spec_find(d, '/') {
        assert(is_digit(d[j as int]));
    }
}

/// Appending `/i` to a parsed field list appends `i` to the parsed path.
proof fn lemma_fields_push(t: Seq<char>, i: usize)
    requires
        spec_parse_fields(t) is Some,
    ensures
        spec_parse_fields(t.push('/') + spec_decimal(i as nat)) == Some(
            spec_parse_fields(t).unwrap().push(i),
        ),
    decreases t.len(),
{
    let d = spec_decimal(i as nat);
    let t2 = t.push('/') + d;
    lemma_decimal_has_no_slash(i as nat);
    lemma_parse_decimal(i);
    lemma_find_in_range(t, '/');
    assert(t2 =~= t + (seq!['/'] + d));
    lemma_find_concat(t, seq!['/'] + d, '/');
    lemma_find_concat(seq!['/'], d, '/');
    assert(spec_find(seq!['/'] + d, '/') == Some(0nat)) by {
        assert((seq!['/'] + d)[0] == '/');
    }
    match spec_find(t, '/') {
        None => {
            assert(spec_find(t2, '/') == Some(t.len()));
            assert(t2.take(t.len() as int) =~= t);
            assert(t2.skip(t.len() + 1 as int) =~= d);
            lemma_find_in_range(d, '/');
            assert(spec_parse_fields(d) == Some(seq![i]));
            assert(spec_parse_fields(t2) =~= Some(seq![spec_parse_usize(t).unwrap(), i]));
        },
        Some(j) => {
            assert(spec_find(t2, '/') == Some(j));
            assert(t2.take(j as int) =~= t.take(j as int));
            let rest = t.skip(j + 1 as int);
            assert(t2.skip(j + 1 as int) =~= rest.push('/') + d);
            lemma_fields_push(rest, i);
            let v = spec_parse_usize(t.take(j as int)).unwrap();
            let tail = spec_parse_fields(rest).unwrap();
            assert(seq![v] + tail.push(i) =~= (seq![v] + tail).push(i));
        },
    }
}

/// The key scheme and the key parser agree: the key of child `i` below a
/// node key parses to that node's path with `i` appended.
pub proof fn lemma_child_key_parses(key: Seq<char>, i: usize)
    requires
        spec_parse_key(key) is Some,
    ensures
        spec_parse_key(spec_child_key(key, i as nat)) == Some(
            spec_parse_key(key).unwrap().push(i),
        ),
{
    let d = spec_decimal(i as nat);
    let c = spec_child_key(key, i as nat);
    assert(c[0] == key[0] && c[1] == key[1] && c[2] == key[2] && c[3] == key[3]);
    if key.len() == 4 {
        assert(c[4] == '/');
        assert(c.skip(5) =~= d);
        lemma_decimal_has_no_slash(i as nat);
        lemma_parse_decimal(i);
        assert(spec_parse_fields(d) =~= Some(seq![i]));
    } else {
        assert(c[4] == key[4]);
        assert(c.skip(5) =~= key.skip(5).push('/') + d);
        lemma_fields_push(key.skip(5), i);
    }
}

/// The root key names the root.
pub proof fn lemma_root_key_parses()
    ensures
        spec_parse_key("node"@) == Some(Seq::<usize>::empty()),
{
    reveal_strlit("node");
}

} // verus!
