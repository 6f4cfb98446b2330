use vstd::prelude::*;

use vstd::relations::{sorted_by, total_ordering};
use vstd::utf8::encode_utf8;

use crate::error::DecodeError;
use crate::serialize::{SerializeProof, models};
use vstd::seq_lib::lemma_sorted_unique;

verus! {

// ---------------------------------------------------------------------------
// The map of the outside crate, and what the library relies on of it.
// ---------------------------------------------------------------------------

/// The chip ordering that proofs and verifying keys carry: a `hashbrown` map
/// from chip names to their indices.
#[verifier::external_body]
#[derive(Debug)]
pub struct ChipOrdering {
    map: hashbrown::HashMap<String, usize>,
}

/// What a chip ordering holds, key by key.
pub uninterp spec fn chip_ordering_entries(m: ChipOrdering) -> Map<Seq<char>, usize>;

/// Calls `hashbrown::HashMap::new`, which, as its source shows, makes an
/// empty map.
#[verifier::external_body]
fn chip_ordering_new() -> (map: ChipOrdering)
    ensures
        chip_ordering_entries(map).dom() == Set::<Seq<char>>::empty(),
{
    ChipOrdering { map: hashbrown::HashMap::new() }
}

/// Calls `hashbrown::HashMap::insert`. As its documentation says, the key now
/// maps to `value`, every other key is unchanged, and the value that the key
/// had before, if any, comes back.
#[verifier::external_body]
fn chip_ordering_insert(m: &mut ChipOrdering, key: String, value: usize) -> (old_value: Option<usize>)
    ensures
        chip_ordering_entries(*final(m)) == chip_ordering_entries(*old(m)).insert(key@, value),
        old_value == (if chip_ordering_entries(*old(m)).contains_key(key@) {
            Some(chip_ordering_entries(*old(m))[key@])
        } else {
            None::<usize>
        }),
{
    m.map.insert(key, value)
}

/// Collects the consuming iterator of a `hashbrown::HashMap` into a vector. As
/// its source shows, the iterator yields each entry of the map exactly once,
/// in no specified order.
#[verifier::external_body]
fn chip_ordering_into_entries(m: ChipOrdering) -> (entries: Vec<(String, usize)>)
    ensures
        forall|i: int, j: int|
            0 <= i < j < entries@.len() ==> (#[trigger] entries@[i]).0@ != (#[trigger] entries@[j]).0@,
        forall|i: int|
            0 <= i < entries@.len() ==> chip_ordering_entries(m).contains_key((#[trigger] entries@[i]).0@)
                && chip_ordering_entries(m)[entries@[i].0@] == entries@[i].1,
        forall|k: Seq<char>|
            #[trigger] chip_ordering_entries(m).contains_key(k) ==> exists|i: int|
                0 <= i < entries@.len() && (#[trigger] entries@[i]).0@ == k,
{
    m.map.into_iter().collect()
}

// ---------------------------------------------------------------------------
// Orders on keys and entries.
// ---------------------------------------------------------------------------

/// Lexicographic order on byte strings, the order of `[u8]` and of `str`.
pub open spec fn bytes_le(a: Seq<u8>, b: Seq<u8>) -> bool
    decreases a.len(),
{
    if a.len() == 0 {
        true
    } else if b.len() == 0 {
        false
    } else if a[0] != b[0] {
        a[0] < b[0]
    } else {
        bytes_le(a.drop_first(), b.drop_first())
    }
}

/// The order of `String`: by the UTF-8 bytes.
pub open spec fn key_le(a: Seq<char>, b: Seq<char>) -> bool {
    bytes_le(encode_utf8(a), encode_utf8(b))
}

proof fn lemma_bytes_le_reflexive(a: Seq<u8>)
    ensures
        bytes_le(a, a),
    decreases a.len(),
{
    if a.len() > 0 {
        lemma_bytes_le_reflexive(a.drop_first());
    }
}

proof fn lemma_bytes_le_antisymmetric(a: Seq<u8>, b: Seq<u8>)
    requires
        bytes_le(a, b),
        bytes_le(b, a),
    ensures
        a == b,
    decreases a.len(),
{
    if a.len() > 0 && b.len() > 0 {
        lemma_bytes_le_antisymmetric(a.drop_first(), b.drop_first());
        assert(a =~= seq![a[0]] + a.drop_first());
        assert(b =~= seq![b[0]] + b.drop_first());
    } else {
        assert(a =~= b);
    }
}

proof fn lemma_bytes_le_transitive(a: Seq<u8>, b: Seq<u8>, c: Seq<u8>)
    requires
        bytes_le(a, b),
        bytes_le(b, c),
    ensures
        bytes_le(a, c),
    decreases a.len(),
{
    if a.len() > 0 && b.len() > 0 && c.len() > 0 {
        if a[0] == b[0] && b[0] == c[0] {
            lemma_bytes_le_transitive(a.drop_first(), b.drop_first(), c.drop_first());
        }
    }
}

proof fn lemma_bytes_le_total(a: Seq<u8>, b: Seq<u8>)
    ensures
        bytes_le(a, b) || bytes_le(b, a),
    decreases a.len(),
{
    if a.len() > 0 && b.len() > 0 && a[0] == b[0] {
        lemma_bytes_le_total(a.drop_first(), b.drop_first());
    }
}

/// The order of `String` is a total order.
pub proof fn lemma_key_le_total()
    ensures
        total_ordering(|a: Seq<char>, b: Seq<char>| key_le(a, b)),
{
    let r = |a: Seq<char>, b: Seq<char>| key_le(a, b);
    assert forall|a: Seq<char>| #[trigger] r(a, a) by {
        lemma_bytes_le_reflexive(encode_utf8(a));
    }
    assert forall|a: Seq<char>, b: Seq<char>| #[trigger] r(a, b) && #[trigger] r(b, a) implies a
        == b by {
        lemma_bytes_le_antisymmetric(encode_utf8(a), encode_utf8(b));
        vstd::utf8::encode_utf8_decode_utf8(a);
        vstd::utf8::encode_utf8_decode_utf8(b);
    }
    assert forall|a: Seq<char>, b: Seq<char>, c: Seq<char>| #[trigger] r(a, b) && #[trigger] r(
        b,
        c,
    ) implies r(a, c) by {
        lemma_bytes_le_transitive(encode_utf8(a), encode_utf8(b), encode_utf8(c));
    }
    assert forall|a: Seq<char>, b: Seq<char>| #[trigger] r(a, b) || #[trigger] r(b, a) by {
        lemma_bytes_le_total(encode_utf8(a), encode_utf8(b));
    }
}


/// The order in which a map's entries are written.
#[derive(Debug, Clone, Copy, PartialEq, Eq, Structural)]
pub enum EntryOrder {
    /// By key, as strings are ordered.
    ByKey,
    /// By the index each key maps to, then by key.
    ByIndex,
}

/// The order on the keys of `m` that `order` names.
pub open spec fn key_order(m: Map<Seq<char>, usize>, order: EntryOrder) -> spec_fn(
    Seq<char>,
    Seq<char>,
) -> bool {
    match order {
        EntryOrder::ByKey => |a: Seq<char>, b: Seq<char>| key_le(a, b),
        EntryOrder::ByIndex => |a: Seq<char>, b: Seq<char>|
            m[a] < m[b] || (m[a] == m[b] && key_le(a, b)),
    }
}

/// Both orders are total.
pub proof fn lemma_key_order_total(m: Map<Seq<char>, usize>, order: EntryOrder)
    ensures
        total_ordering(key_order(m, order)),
{
    lemma_key_le_total();
    let k = |a: Seq<char>, b: Seq<char>| key_le(a, b);
    let r = key_order(m, order);
    if order == EntryOrder::ByIndex {
        assert forall|a: Seq<char>| #[trigger] r(a, a) by {
            assert(k(a, a));
        }
        assert forall|a: Seq<char>, b: Seq<char>| #[trigger] r(a, b) && #[trigger] r(b, a) implies a
            == b by {
            assert(k(a, b) && k(b, a));
        }
        assert forall|a: Seq<char>, b: Seq<char>, c: Seq<char>| #[trigger] r(a, b) && #[trigger] r(
            b,
            c,
        ) implies r(a, c) by {
            if m[a] == m[b] && m[b] == m[c] {
                assert(k(a, b) && k(b, c));
                assert(k(a, c));
            }
        }
        assert forall|a: Seq<char>, b: Seq<char>| #[trigger] r(a, b) || #[trigger] r(b, a) by {
            assert(k(a, b) || k(b, a));
        }
    } else {
        assert(r == k);
    }
}

/// The keys of `m`, sorted by `order`.
pub open spec fn sorted_keys(m: Map<Seq<char>, usize>, order: EntryOrder) -> Seq<Seq<char>> {
    m.dom().to_sorted_seq(key_order(m, order))
}

/// The entries of `m`, sorted by `order`: the sequence that is written.
pub open spec fn sorted_entries(m: Map<Seq<char>, usize>, order: EntryOrder) -> Seq<
    (Seq<char>, usize),
> {
    sorted_keys(m, order).map_values(|k: Seq<char>| (k, m[k]))
}

/// The maps that can be written and read back: finitely many entries, fewer
/// than 2^32, and each key's UTF-8 encoding shorter than 2^32 bytes.
pub open spec fn map_encodable(m: Map<Seq<char>, usize>) -> bool {
    &&& m.dom().finite()
    &&& m.dom().len() <= u32::MAX
    &&& forall|k: Seq<char>| #[trigger] m.dom().contains(k) ==> encode_utf8(k).len() <= u32::MAX
}

/// The bytes of `m` with its entries in `order`: the vector of its entries.
pub open spec fn encode_map(m: Map<Seq<char>, usize>, order: EntryOrder) -> Seq<u8> {
    <Vec<(String, usize)> as SerializeProof>::encode(sorted_entries(m, order))
}

/// The map that holds the entries `es`, inserted in order; `None` when a key
/// comes twice.
pub open spec fn map_of_entries(es: Seq<(Seq<char>, usize)>) -> Option<Map<Seq<char>, usize>>
    decreases es.len(),
{
    if es.len() == 0 {
        Some(Map::empty())
    } else {
        match map_of_entries(es.drop_last()) {
            Some(m) => if m.contains_key(es.last().0) {
                None
            } else {
                Some(m.insert(es.last().0, es.last().1))
            },
            None => None,
        }
    }
}

/// Reads a map: the vector of its entries, which must name each key once.
pub open spec fn parse_map(s: Seq<u8>) -> Result<(Map<Seq<char>, usize>, nat), DecodeError> {
    match <Vec<(String, usize)> as SerializeProof>::parse(s) {
        Ok((es, n)) => match map_of_entries(es) {
            Some(m) => Ok((m, n)),
            None => Err(DecodeError::DuplicateKey),
        },
        Err(e) => Err(e),
    }
}

proof fn lemma_to_seq_distinct<A>(s: Set<A>)
    requires
        s.finite(),
    ensures
        s.to_seq().no_duplicates(),
        s.to_seq().len() == s.len(),
    decreases s.len(),
{
    if s.len() > 0 {
        let x = s.choose();
        let rest = s.remove(x);
        lemma_to_seq_distinct(rest);
        rest.lemma_to_seq_to_set_id();
        let t = Seq::<A>::empty().push(x) + rest.to_seq();
        assert(s.to_seq() == t);
        assert forall|i: int, j: int| 0 <= i < t.len() && 0 <= j < t.len() && i != j implies t[i]
            != t[j] by {
            if i == 0 {
                assert(rest.to_seq().to_set().contains(t[j]));
            } else if j == 0 {
                assert(rest.to_seq().to_set().contains(t[i]));
            }
        }
    }
}

/// Two sequences without repeats that hold the same elements are
/// permutations of each other.
proof fn lemma_distinct_same_set_multiset<A>(a: Seq<A>, b: Seq<A>)
    requires
        a.no_duplicates(),
        b.no_duplicates(),
        a.to_set() == b.to_set(),
    ensures
        a.to_multiset() == b.to_multiset(),
{
    broadcast use vstd::seq_lib::group_to_multiset_ensures;
    broadcast use vstd::multiset::group_multiset_axioms;

    a.lemma_multiset_has_no_duplicates();
    b.lemma_multiset_has_no_duplicates();
    assert forall|x: A| a.to_multiset().count(x) == b.to_multiset().count(x) by {
        assert(a.contains(x) <==> a.to_set().contains(x));
        assert(b.contains(x) <==> b.to_set().contains(x));
        if a.contains(x) {
            assert(a.to_multiset().contains(x));
            assert(b.to_multiset().contains(x));
        }
    }
    assert(a.to_multiset() =~= b.to_multiset());
}

/// The sorted keys of a finite map: sorted, without repeats, exactly its keys.
pub proof fn lemma_sorted_keys(m: Map<Seq<char>, usize>, order: EntryOrder)
    requires
        m.dom().finite(),
    ensures
        sorted_by(sorted_keys(m, order), key_order(m, order)),
        sorted_keys(m, order).no_duplicates(),
        sorted_keys(m, order).len() == m.dom().len(),
        sorted_keys(m, order).to_set() == m.dom(),
{
    broadcast use vstd::seq_lib::group_to_multiset_ensures;

    let leq = key_order(m, order);
    let t = m.dom().to_seq();
    let ks = sorted_keys(m, order);
    lemma_key_order_total(m, order);
    t.lemma_sort_by_ensures(leq);
    lemma_to_seq_distinct(m.dom());
    m.dom().lemma_to_seq_to_set_id();
    assert(ks == t.sort_by(leq));
    t.lemma_multiset_has_no_duplicates();
    assert forall|x: Seq<char>| ks.to_multiset().contains(x) implies ks.to_multiset().count(x)
        == 1 by {
        assert(t.to_multiset().contains(x));
    }
    ks.lemma_multiset_has_no_duplicates_conv();
    assert(ks.len() == ks.to_multiset().len());
    assert(t.len() == t.to_multiset().len());
    assert forall|x: Seq<char>| ks.to_set().contains(x) <==> m.dom().contains(x) by {
        assert(ks.contains(x) <==> ks.to_multiset().count(x) > 0);
        assert(t.contains(x) <==> t.to_multiset().count(x) > 0);
        assert(t.to_set().contains(x) <==> t.contains(x));
    }
    assert(ks.to_set() =~= m.dom());
}

/// Inserting entries with distinct keys builds the map restricted to them.
pub proof fn lemma_map_of_distinct_keys(m: Map<Seq<char>, usize>, ks: Seq<Seq<char>>)
    requires
        ks.no_duplicates(),
        forall|i: int| 0 <= i < ks.len() ==> m.dom().contains(#[trigger] ks[i]),
    ensures
        map_of_entries(ks.map_values(|k: Seq<char>| (k, m[k]))) == Some(
            m.restrict(ks.to_set()),
        ),
    decreases ks.len(),
{
    let es = ks.map_values(|k: Seq<char>| (k, m[k]));
    if ks.len() == 0 {
        assert(m.restrict(ks.to_set()) =~= Map::empty());
    } else {
        let init = ks.drop_last();
        let last = ks.last();
        assert forall|i: int| 0 <= i < init.len() implies m.dom().contains(#[trigger] init[i]) by {
            assert(init[i] == ks[i]);
        }
        assert(m.dom().contains(ks[ks.len() - 1]));
        lemma_map_of_distinct_keys(m, init);
        assert(es.drop_last() =~= init.map_values(|k: Seq<char>| (k, m[k])));
        assert(!init.to_set().contains(last)) by {
            if init.contains(last) {
                let i = choose|i: int| 0 <= i < init.len() && init[i] == last;
                assert(ks[i] == ks[ks.len() - 1]);
            }
        }
        assert(ks.to_set() =~= init.to_set().insert(last)) by {
            assert(ks =~= init.push(last));
        }
        assert(m.restrict(init.to_set()).insert(last, m[last]) =~= m.restrict(ks.to_set()));
    }
}

/// Reading back a written map gives the map and consumes exactly its bytes.
pub proof fn lemma_parse_encode_map(m: Map<Seq<char>, usize>, order: EntryOrder, rest: Seq<u8>)
    requires
        map_encodable(m),
    ensures
        parse_map(encode_map(m, order) + rest) == Ok::<(Map<Seq<char>, usize>, nat), DecodeError>(
            (m, encode_map(m, order).len()),
        ),
{
    let ks = sorted_keys(m, order);
    let es = sorted_entries(m, order);
    lemma_sorted_keys(m, order);
    assert forall|i: int| 0 <= i < es.len() implies #[trigger] <(String, usize) as SerializeProof>::encodable(es[i]) by {
        assert(ks.to_set().contains(ks[i]));
    }
    <Vec<(String, usize)> as SerializeProof>::lemma_parse_encode(es, rest);
    assert forall|i: int| 0 <= i < ks.len() implies m.dom().contains(#[trigger] ks[i]) by {
        assert(ks.to_set().contains(ks[i]));
    }
    lemma_map_of_distinct_keys(m, ks);
    assert(m.restrict(ks.to_set()) =~= m);
}

// ---------------------------------------------------------------------------
// Sorting the entries, writing and reading maps.
// ---------------------------------------------------------------------------

/// Compares two byte strings in lexicographic order.
fn bytes_le_exec(a: &[u8], b: &[u8]) -> (r: bool)
    ensures
        r == bytes_le(a@, b@),
{
    let mut i: usize = 0;
    assert(a@.skip(0) =~= a@);
    assert(b@.skip(0) =~= b@);
    while i < a.len() && i < b.len()
        invariant
            i <= a@.len(),
            i <= b@.len(),
            bytes_le(a@, b@) == bytes_le(a@.skip(i as int), b@.skip(i as int)),
        decreases a@.len() - i,
    {
        if a[i] != b[i] {
            return a[i] < b[i];
        }
        assert(a@.skip(i as int).drop_first() =~= a@.skip(i + 1));
        assert(b@.skip(i as int).drop_first() =~= b@.skip(i + 1));
        i = i + 1;
    }
    i == a.len()
}

/// Whether entry `a` comes no later than entry `b` in `order`.
pub open spec fn entry_le(order: EntryOrder, a: (Seq<char>, usize), b: (Seq<char>, usize)) -> bool {
    match order {
        EntryOrder::ByKey => key_le(a.0, b.0),
        EntryOrder::ByIndex => a.1 < b.1 || (a.1 == b.1 && key_le(a.0, b.0)),
    }
}

fn entry_le_exec(order: EntryOrder, a: &(String, usize), b: &(String, usize)) -> (r: bool)
    ensures
        r == entry_le(order, (a.0@, a.1), (b.0@, b.1)),
{
    match order {
        EntryOrder::ByKey => bytes_le_exec(a.0.as_str().as_bytes(), b.0.as_str().as_bytes()),
        EntryOrder::ByIndex => a.1 < b.1 || (a.1 == b.1 && bytes_le_exec(
            a.0.as_str().as_bytes(),
            b.0.as_str().as_bytes(),
        )),
    }
}

/// Inserting `k` after every key it follows and before every key it precedes
/// keeps a sequence sorted.
proof fn lemma_insert_sorted(
    ks: Seq<Seq<char>>,
    p: int,
    k: Seq<char>,
    leq: spec_fn(Seq<char>, Seq<char>) -> bool,
)
    requires
        total_ordering(leq),
        sorted_by(ks, leq),
        0 <= p <= ks.len(),
        forall|j: int| 0 <= j < p ==> leq(#[trigger] ks[j], k),
        p < ks.len() ==> leq(k, ks[p]),
    ensures
        sorted_by(ks.insert(p, k), leq),
{
    let t = ks.insert(p, k);
    assert forall|i: int, j: int| 0 <= i < j < t.len() implies leq(#[trigger] t[i], #[trigger] t[j]) by {
        if j < p {
            assert(t[i] == ks[i] && t[j] == ks[j]);
        } else if j == p {
            assert(t[i] == ks[i]);
        } else if i == p {
            assert(t[j] == ks[j - 1]);
            if j - 1 > p {
                assert(leq(ks[p], ks[j - 1]));
            }
        } else if i < p {
            assert(t[i] == ks[i] && t[j] == ks[j - 1]);
        } else {
            assert(t[i] == ks[i - 1] && t[j] == ks[j - 1]);
        }
    }
}

/// The keys of a run of entries.
pub open spec fn entry_keys(es: Seq<(String, usize)>) -> Seq<Seq<char>> {
    es.map_values(|e: (String, usize)| e.0@)
}

/// Sorts the entries of `m`, given once each in any order, into the order
/// that is written.
fn sort_entries(
    entries: Vec<(String, usize)>,
    order: EntryOrder,
    Ghost(m): Ghost<Map<Seq<char>, usize>>,
) -> (sorted: Vec<(String, usize)>)
    requires
        m.dom().finite(),
        entry_keys(entries@).no_duplicates(),
        entry_keys(entries@).to_set() == m.dom(),
        forall|i: int|
            0 <= i < entries@.len() ==> m[(#[trigger] entries@[i]).0@] == entries@[i].1,
    ensures
        models(sorted@) == sorted_entries(m, order),
{
    let ghost leq = key_order(m, order);
    let ghost input = entries@;
    let ghost in_keys = entry_keys(input);
    proof {
        lemma_key_order_total(m, order);
    }
    let mut out: Vec<(String, usize)> = Vec::new();
    let ghost mut ks: Seq<Seq<char>> = Seq::empty();
    for e in it: entries.into_iter()
        invariant
            it.seq() == input,
            in_keys == entry_keys(input),
            in_keys.no_duplicates(),
            forall|i: int| 0 <= i < input.len() ==> m[(#[trigger] input[i]).0@] == input[i].1,
            total_ordering(leq),
            leq == key_order(m, order),
            out@.len() == ks.len(),
            ks == entry_keys(out@),
            forall|i: int| 0 <= i < out@.len() ==> m[(#[trigger] out@[i]).0@] == out@[i].1,
            sorted_by(ks, leq),
            ks.no_duplicates(),
            ks.to_set() == in_keys.take(it.index() as int).to_set(),
    {
        let ghost idx = it.index() as int;
        let ghost k = e.0@;
        assert(e == input[idx]);
        let mut p: usize = 0;
        while p < out.len() && !entry_le_exec(order, &e, &out[p])
            invariant
                p <= out@.len(),
                ks == entry_keys(out@),
                out@.len() == ks.len(),
                forall|i: int| 0 <= i < out@.len() ==> m[(#[trigger] out@[i]).0@] == out@[i].1,
                m[e.0@] == e.1,
                leq == key_order(m, order),
                total_ordering(leq),
                forall|j: int| 0 <= j < p ==> leq(#[trigger] ks[j], e.0@),
            decreases out@.len() - p,
        {
            assert(ks[p as int] == out@[p as int].0@);
            assert(!leq(e.0@, ks[p as int]));
            p = p + 1;
        }
        proof {
            if p < out@.len() {
                assert(ks[p as int] == out@[p as int].0@);
            }
            lemma_insert_sorted(ks, p as int, k, leq);
            assert(!in_keys.take(idx).contains(k)) by {
                if in_keys.take(idx).contains(k) {
                    let j = choose|j: int| 0 <= j < idx && in_keys.take(idx)[j] == k;
                    assert(in_keys[j] == in_keys[idx]);
                }
            }
            assert(!ks.contains(k)) by {
                assert(ks.contains(k) ==> ks.to_set().contains(k));
            }
            assert(in_keys.take(idx + 1) =~= in_keys.take(idx).push(k));
            assert(ks.insert(p as int, k).to_set() =~= ks.to_set().insert(k)) by {
                assert forall|x: Seq<char>| ks.insert(p as int, k).contains(x) <==> (ks.contains(x)
                    || x == k) by {
                    if ks.contains(x) {
                        let j = choose|j: int| 0 <= j < ks.len() && ks[j] == x;
                        if j < p {
                            assert(ks.insert(p as int, k)[j] == x);
                        } else {
                            assert(ks.insert(p as int, k)[j + 1] == x);
                        }
                    }
                    if x == k {
                        assert(ks.insert(p as int, k)[p as int] == x);
                    }
                }
            }
            lemma_push_to_set(in_keys.take(idx), k);
        }
        let ghost before = out@;
        out.insert(p, e);
        proof {
            ks = ks.insert(p as int, k);
            assert(entry_keys(out@) =~= ks);
            assert forall|i: int| 0 <= i < out@.len() implies m[(#[trigger] out@[i]).0@]
                == out@[i].1 by {
                if i < p {
                    assert(out@[i] == before[i]);
                } else if i > p {
                    assert(out@[i] == before[i - 1]);
                }
            }
            assert forall|i: int, j: int|
                0 <= i < ks.len() && 0 <= j < ks.len() && i != j implies ks[i] != ks[j] by {
                let old_ks = entry_keys(before);
                if i != p && j != p {
                    let i0 = if i < p { i } else { i - 1 };
                    let j0 = if j < p { j } else { j - 1 };
                    assert(ks[i] == old_ks[i0] && ks[j] == old_ks[j0]);
                } else if i == p {
                    let j0 = if j < p { j } else { j - 1 };
                    assert(ks[j] == old_ks[j0]);
                    assert(old_ks.contains(ks[j]));
                } else {
                    let i0 = if i < p { i } else { i - 1 };
                    assert(ks[i] == old_ks[i0]);
                    assert(old_ks.contains(ks[i]));
                }
            }
        }
    }
    proof {
        assert(in_keys.take(input.len() as int) =~= in_keys);
        let sk = sorted_keys(m, order);
        lemma_sorted_keys(m, order);
        lemma_distinct_same_set_multiset(ks, sk);
        lemma_sorted_unique(ks, sk, leq);
        assert(models(out@) =~= sorted_entries(m, order));
    }
    out
}

/// What the entries of a map, given once each in any order, tell of their keys.
proof fn lemma_into_entries_facts(entries: Seq<(String, usize)>, mm: Map<Seq<char>, usize>)
    requires
        forall|i: int, j: int|
            0 <= i < j < entries.len() ==> (#[trigger] entries[i]).0@ != (#[trigger] entries[j]).0@,
        forall|i: int|
            0 <= i < entries.len() ==> mm.contains_key((#[trigger] entries[i]).0@) && mm[entries[i].0@]
                == entries[i].1,
        forall|k: Seq<char>|
            #[trigger] mm.contains_key(k) ==> exists|i: int|
                0 <= i < entries.len() && (#[trigger] entries[i]).0@ == k,
    ensures
        entry_keys(entries).no_duplicates(),
        entry_keys(entries).to_set() == mm.dom(),
        mm.dom().finite(),
        forall|i: int| 0 <= i < entries.len() ==> mm[(#[trigger] entries[i]).0@] == entries[i].1,
{
    let ks = entry_keys(entries);
    assert forall|i: int, j: int| 0 <= i < ks.len() && 0 <= j < ks.len() && i != j implies ks[i]
        != ks[j] by {
        if i < j {
            assert(entries[i].0@ != entries[j].0@);
        } else {
            assert(entries[j].0@ != entries[i].0@);
        }
    }
    assert forall|k: Seq<char>| ks.to_set().contains(k) <==> mm.dom().contains(k) by {
        if mm.dom().contains(k) {
            assert(mm.contains_key(k));
            let i = choose|i: int| 0 <= i < entries.len() && (#[trigger] entries[i]).0@ == k;
            assert(ks[i] == k);
        }
        if ks.to_set().contains(k) {
            let i = choose|i: int| 0 <= i < ks.len() && ks[i] == k;
            assert(mm.contains_key(entries[i].0@));
        }
    }
    assert(ks.to_set() =~= mm.dom());
    vstd::seq_lib::seq_to_set_is_finite(ks);
}

/// The entries of `m` in `order`.
fn sorted_chip_entries(m: ChipOrdering, order: EntryOrder) -> (sorted: Vec<(String, usize)>)
    ensures
        chip_ordering_entries(m).dom().finite(),
        models(sorted@) == sorted_entries(chip_ordering_entries(m), order),
{
    let ghost mm = chip_ordering_entries(m);
    let entries = chip_ordering_into_entries(m);
    proof {
        lemma_into_entries_facts(entries@, mm);
    }
    sort_entries(entries, order, Ghost(mm))
}

/// Writes the entries of `m` in `order`: their number as a `u32`, then each
/// key and index.
fn write_chip_ordering(m: ChipOrdering, order: EntryOrder, w: &mut Vec<u8>) -> (written: usize)
    requires
        map_encodable(chip_ordering_entries(m)),
    ensures
        final(w)@ == old(w)@ + encode_map(chip_ordering_entries(m), order),
        written == encode_map(chip_ordering_entries(m), order).len(),
{
    let ghost mm = chip_ordering_entries(m);
    let sorted = sorted_chip_entries(m, order);
    proof {
        let ks = sorted_keys(mm, order);
        lemma_sorted_keys(mm, order);
        assert(models(sorted@).len() == ks.len());
        assert forall|i: int| 0 <= i < sorted@.len() implies #[trigger] <(String, usize) as SerializeProof>::encodable(
            models(sorted@)[i],
        ) by {
            assert(models(sorted@)[i] == sorted_entries(mm, order)[i]);
            assert(ks.contains(ks[i]));
            assert(ks.to_set().contains(ks[i]));
        }
    }
    sorted.to_bytes(w)
}

impl ChipOrdering {
    /// The map that holds `entries`, inserted in order; fails with
    /// `DuplicateKey` when a key comes twice.
    pub fn from_entries(entries: Vec<(String, usize)>) -> (r: Result<ChipOrdering, DecodeError>)
        ensures
            match map_of_entries(models(entries@)) {
                Some(m) => r matches Ok(map) && chip_ordering_entries(map) == m,
                None => r == Err::<ChipOrdering, DecodeError>(DecodeError::DuplicateKey),
            },
    {
        let ghost es = models(entries@);
        let mut map = chip_ordering_new();
        assert(chip_ordering_entries(map) =~= Map::empty());
        for entry in it: entries.into_iter()
            invariant
                es == models(it.seq()),
                map_of_entries(es.take(it.index() as int)) == Some(chip_ordering_entries(map)),
        {
            let ghost idx = it.index() as int;
            let ghost before = chip_ordering_entries(map);
            assert(es.take(idx + 1).drop_last() =~= es.take(idx));
            assert(es[idx] == (entry.0@, entry.1));
            let (key, value) = entry;
            let present = chip_ordering_insert(&mut map, key, value);
            if present.is_some() {
                proof {
                    lemma_map_of_entries_none(es, idx + 1);
                    assert(es.take(es.len() as int) =~= es);
                }
                return Err(DecodeError::DuplicateKey);
            }
        }
        assert(es.take(es.len() as int) =~= es);
        Ok(map)
    }

    /// The entries of the map, sorted by key.
    pub fn into_sorted_entries(self) -> (entries: Vec<(String, usize)>)
        ensures
            models(entries@) == sorted_entries(chip_ordering_entries(self), EntryOrder::ByKey),
    {
        sorted_chip_entries(self, EntryOrder::ByKey)
    }
}

proof fn lemma_push_to_set<A>(s: Seq<A>, x: A)
    ensures
        s.push(x).to_set() == s.to_set().insert(x),
{
    assert forall|y: A| #[trigger] s.push(x).to_set().contains(y) == s.to_set().insert(x).contains(
        y,
    ) by {
        if s.contains(y) {
            let j = choose|j: int| 0 <= j < s.len() && s[j] == y;
            assert(s.push(x)[j] == y);
        }
        if y == x {
            assert(s.push(x)[s.len() as int] == y);
        }
        if s.push(x).contains(y) {
            let j = choose|j: int| 0 <= j < s.len() + 1 && s.push(x)[j] == y;
            if j < s.len() {
                assert(s[j] == y);
            }
        }
    }
    assert(s.push(x).to_set() =~= s.to_set().insert(x));
}

/// Once a prefix names a key twice, every longer prefix does.
proof fn lemma_map_of_entries_none(es: Seq<(Seq<char>, usize)>, n: int)
    requires
        0 <= n <= es.len(),
        map_of_entries(es.take(n)) is None,
    ensures
        map_of_entries(es) is None,
    decreases es.len() - n,
{
    if n < es.len() {
        assert(es.take(n + 1).drop_last() =~= es.take(n));
        lemma_map_of_entries_none(es, n + 1);
    } else {
        assert(es.take(n) =~= es);
    }
}

/// Inserting entries in order builds a map exactly when no key comes twice.
pub proof fn lemma_map_of_entries_some(es: Seq<(Seq<char>, usize)>)
    ensures
        map_of_entries(es) is Some <==> es.map_values(|e: (Seq<char>, usize)| e.0).no_duplicates(),
        map_of_entries(es) matches Some(m) ==> m.dom() == es.map_values(
            |e: (Seq<char>, usize)| e.0,
        ).to_set(),
    decreases es.len(),
{
    let ks = es.map_values(|e: (Seq<char>, usize)| e.0);
    if es.len() == 0 {
        if let Some(m) = map_of_entries(es) {
            assert(m.dom() =~= ks.to_set());
        }
    } else {
        let init = es.drop_last();
        let kinit = init.map_values(|e: (Seq<char>, usize)| e.0);
        lemma_map_of_entries_some(init);
        assert(ks =~= kinit.push(es.last().0));
        let k = es.last().0;
        if let Some(m0) = map_of_entries(init) {
            if m0.contains_key(k) {
                assert(kinit.to_set().contains(k));
                let j = choose|j: int| 0 <= j < kinit.len() && kinit[j] == k;
                assert(ks[j] == ks[ks.len() - 1]);
            } else {
                assert(!kinit.contains(k)) by {
                    assert(kinit.contains(k) ==> kinit.to_set().contains(k));
                }
                assert forall|i: int, j: int|
                    0 <= i < ks.len() && 0 <= j < ks.len() && i != j implies ks[i] != ks[j] by {
                    if i < ks.len() - 1 && j < ks.len() - 1 {
                        assert(ks[i] == kinit[i] && ks[j] == kinit[j]);
                    } else if i < ks.len() - 1 {
                        assert(ks[i] == kinit[i]);
                    } else if j < ks.len() - 1 {
                        assert(ks[j] == kinit[j]);
                    }
                }
                lemma_push_to_set(kinit, k);
                assert(m0.insert(k, es.last().1).dom() =~= ks.to_set());
            }
        } else {
            assert(!ks.no_duplicates()) by {
                if ks.no_duplicates() {
                    assert forall|i: int, j: int|
                        0 <= i < kinit.len() && 0 <= j < kinit.len() && i != j implies kinit[i]
                        != kinit[j] by {
                        assert(ks[i] == kinit[i] && ks[j] == kinit[j]);
                    }
                }
            }
        }
    }
}

/// Every map that is read can be written again.
pub proof fn lemma_parse_map_encodable(s: Seq<u8>)
    ensures
        parse_map(s) matches Ok((m, _)) ==> map_encodable(m),
{
    <Vec<(String, usize)> as SerializeProof>::lemma_parse_encodable(s);
    if let Ok((es, n)) = <Vec<(String, usize)> as SerializeProof>::parse(s) {
        lemma_map_of_entries_some(es);
        if let Some(m) = map_of_entries(es) {
            let ks = es.map_values(|e: (Seq<char>, usize)| e.0);
            vstd::seq_lib::seq_to_set_is_finite(ks);
            ks.unique_seq_to_set();
            assert forall|k: Seq<char>| #[trigger] m.dom().contains(k) implies encode_utf8(k).len()
                <= u32::MAX by {
                assert(ks.to_set().contains(k));
                let i = choose|i: int| 0 <= i < ks.len() && ks[i] == k;
                assert(<(String, usize) as SerializeProof>::encodable(es[i]));
            }
        }
    }
}

/// Reads a map written as the vector of its entries.
fn read_chip_ordering(buffer: &[u8], pos: usize) -> (r: Result<(ChipOrdering, usize), DecodeError>)
    requires
        pos <= buffer@.len(),
    ensures
        match parse_map(buffer@.skip(pos as int)) {
            Ok((m, n)) => r matches Ok((v, k)) && chip_ordering_entries(v) == m && k == n,
            Err(e) => r == Err::<(ChipOrdering, usize), DecodeError>(e),
        },
{
    let (as_vec, n) = <Vec<(String, usize)> as SerializeProof>::from_bytes(buffer, pos)?;
    let map = ChipOrdering::from_entries(as_vec)?;
    Ok((map, n))
}

// A map is written as the vector of its entries, sorted by key.
impl SerializeProof for ChipOrdering {
    type Model = Map<Seq<char>, usize>;

    open spec fn model(&self) -> Map<Seq<char>, usize> {
        chip_ordering_entries(*self)
    }

    open spec fn encodable(m: Map<Seq<char>, usize>) -> bool {
        map_encodable(m)
    }

    open spec fn encode(m: Map<Seq<char>, usize>) -> Seq<u8> {
        encode_map(m, EntryOrder::ByKey)
    }

    open spec fn parse(s: Seq<u8>) -> Result<(Map<Seq<char>, usize>, nat), DecodeError> {
        parse_map(s)
    }

    proof fn lemma_parse_encode(m: Map<Seq<char>, usize>, rest: Seq<u8>) {
        lemma_parse_encode_map(m, EntryOrder::ByKey, rest);
    }

    proof fn lemma_parse_len(s: Seq<u8>) {
        <Vec<(String, usize)> as SerializeProof>::lemma_parse_len(s);
    }

    proof fn lemma_parse_encodable(s: Seq<u8>) {
        lemma_parse_map_encodable(s);
    }

    fn to_bytes(self, w: &mut Vec<u8>) -> (written: usize) {
        write_chip_ordering(self, EntryOrder::ByKey, w)
    }

    fn from_bytes(buffer: &[u8], pos: usize) -> (r: Result<(Self, usize), DecodeError>) {
        read_chip_ordering(buffer, pos)
    }
}

/// A chip ordering as a shard proof writes it: the vector of its entries,
/// sorted by index (and, between equal indices, by key).
pub struct ChipOrderingByIndex(pub ChipOrdering);

impl SerializeProof for ChipOrderingByIndex {
    type Model = Map<Seq<char>, usize>;

    open spec fn model(&self) -> Map<Seq<char>, usize> {
        chip_ordering_entries(self.0)
    }

    open spec fn encodable(m: Map<Seq<char>, usize>) -> bool {
        map_encodable(m)
    }

    open spec fn encode(m: Map<Seq<char>, usize>) -> Seq<u8> {
        encode_map(m, EntryOrder::ByIndex)
    }

    open spec fn parse(s: Seq<u8>) -> Result<(Map<Seq<char>, usize>, nat), DecodeError> {
        parse_map(s)
    }

    proof fn lemma_parse_encode(m: Map<Seq<char>, usize>, rest: Seq<u8>) {
        lemma_parse_encode_map(m, EntryOrder::ByIndex, rest);
    }

    proof fn lemma_parse_len(s: Seq<u8>) {
        <Vec<(String, usize)> as SerializeProof>::lemma_parse_len(s);
    }

    proof fn lemma_parse_encodable(s: Seq<u8>) {
        lemma_parse_map_encodable(s);
    }

    fn to_bytes(self, w: &mut Vec<u8>) -> (written: usize) {
        write_chip_ordering(self.0, EntryOrder::ByIndex, w)
    }

    fn from_bytes(buffer: &[u8], pos: usize) -> (r: Result<(Self, usize), DecodeError>) {
        let (map, n) = read_chip_ordering(buffer, pos)?;
        Ok((ChipOrderingByIndex(map), n))
    }
}

} // verus!
