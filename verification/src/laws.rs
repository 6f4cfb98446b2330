use vstd::prelude::*;

use vstd::relations::sorted_by;

use crate::error::DecodeError;
use crate::maps::{
    EntryOrder, key_order, lemma_map_of_distinct_keys, lemma_map_of_entries_some,
    lemma_sorted_keys, map_encodable, map_of_entries, parse_map, sorted_entries, sorted_keys,
};
use crate::serialize::SerializeProof;

verus! {

/// Reading back from where `to_bytes` started writing gives a value with the
/// same model and consumes exactly the bytes that were written, whatever
/// came before and whatever follows.
pub proof fn law_read_back_write<T: SerializeProof>(v: T, before: Seq<u8>, after: Seq<u8>)
    requires
        T::encodable(v.model()),
    ensures
        T::parse((before + T::encode(v.model()) + after).skip(before.len() as int)) == Ok::<
            (T::Model, nat),
            DecodeError,
        >((v.model(), T::encode(v.model()).len())),
{
    let e = T::encode(v.model());
    assert((before + e + after).skip(before.len() as int) =~= e + after);
    T::lemma_parse_encode(v.model(), after);
}

/// Whatever was read can be written, and writing it and reading again gives
/// the same value.
pub proof fn law_read_write_read<T: SerializeProof>(s: Seq<u8>, rest: Seq<u8>)
    ensures
        T::parse(s) matches Ok((m, _)) ==> {
            &&& T::encodable(m)
            &&& T::parse(T::encode(m) + rest) == Ok::<(T::Model, nat), DecodeError>(
                (m, T::encode(m).len()),
            )
        },
{
    T::lemma_parse_encodable(s);
    if let Ok((m, _)) = T::parse(s) {
        T::lemma_parse_encode(m, rest);
    }
}

/// Rebuilding a map from the entries it writes gives the same map.
pub proof fn law_entries_rebuild_map(m: Map<Seq<char>, usize>, order: EntryOrder)
    requires
        m.dom().finite(),
    ensures
        map_of_entries(sorted_entries(m, order)) == Some(m),
{
    lemma_sorted_keys(m, order);
    let ks = sorted_keys(m, order);
    assert forall|i: int| 0 <= i < ks.len() implies m.dom().contains(#[trigger] ks[i]) by {
        assert(ks.to_set().contains(ks[i]));
    }
    lemma_map_of_distinct_keys(m, ks);
    assert(m.restrict(ks.to_set()) =~= m);
}

/// A read never consumes more bytes than it was given.
pub proof fn law_read_within_input<T: SerializeProof>(s: Seq<u8>)
    ensures
        T::parse(s) matches Ok((_, n)) ==> n <= s.len(),
{
    T::lemma_parse_len(s);
}

/// A map is written as its entries, each key once, sorted by the order: by
/// key for maps, by index for the chip ordering of a shard proof.
pub proof fn law_map_entries_sorted(m: Map<Seq<char>, usize>, order: EntryOrder)
    requires
        map_encodable(m),
    ensures
        sorted_by(sorted_keys(m, order), key_order(m, order)),
        sorted_keys(m, order).no_duplicates(),
        sorted_keys(m, order).to_set() == m.dom(),
        sorted_entries(m, order).len() == m.dom().len(),
        forall|i: int|
            0 <= i < sorted_entries(m, order).len() ==> #[trigger] sorted_entries(m, order)[i] == (
                sorted_keys(m, order)[i],
                m[sorted_keys(m, order)[i]],
            ),
{
    lemma_sorted_keys(m, order);
}

/// A map whose entries, as read, name some key twice is refused with
/// `DuplicateKey`; otherwise it is the map of those entries.
pub proof fn law_duplicate_keys_refused(s: Seq<u8>)
    ensures
        <Vec<(String, usize)> as SerializeProof>::parse(s) matches Ok((es, n)) ==> {
            &&& !es.map_values(|e: (Seq<char>, usize)| e.0).no_duplicates() ==> parse_map(s)
                == Err::<(Map<Seq<char>, usize>, nat), DecodeError>(DecodeError::DuplicateKey)
            &&& es.map_values(|e: (Seq<char>, usize)| e.0).no_duplicates() ==> (parse_map(
                s,
            ) matches Ok((m, k)) && k == n && m.dom() == es.map_values(
                |e: (Seq<char>, usize)| e.0,
            ).to_set())
        },
{
    if let Ok((es, n)) = <Vec<(String, usize)> as SerializeProof>::parse(s) {
        lemma_map_of_entries_some(es);
    }
}

} // verus!
