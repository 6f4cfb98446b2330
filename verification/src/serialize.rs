use vstd::prelude::*;

use crate::error::DecodeError;

verus! {

/// A value that can be written to and read back from the proof format.
///
/// Each implementation describes its wire format by two spec functions over
/// an abstract model: `encode`, the bytes that `to_bytes` appends, and
/// `parse`, what `from_bytes` reads from the front of a byte sequence
/// (the model and how many bytes it took, or why it failed).
pub trait SerializeProof: Sized {
    /// The abstract value that the format carries.
    type Model;

    /// The model of an executable value.
    spec fn model(&self) -> Self::Model;

    /// The values that `to_bytes` writes without failing (length prefixes fit
    /// in 32 bits, field elements are reduced) and that read back unchanged.
    spec fn encodable(m: Self::Model) -> bool;

    /// The bytes that encode `m`.
    spec fn encode(m: Self::Model) -> Seq<u8>;

    /// Reads one value from the front of `s`.
    spec fn parse(s: Seq<u8>) -> Result<(Self::Model, nat), DecodeError>;

    /// Reading back what was written gives the value and consumes exactly its
    /// encoding, whatever follows it.
    proof fn lemma_parse_encode(m: Self::Model, rest: Seq<u8>)
        requires
            Self::encodable(m),
        ensures
            Self::parse(Self::encode(m) + rest) == Ok::<(Self::Model, nat), DecodeError>(
                (m, Self::encode(m).len()),
            ),
    ;

    /// Whatever a read gives can be written again.
    proof fn lemma_parse_encodable(s: Seq<u8>)
        ensures
            Self::parse(s) matches Ok((m, _)) ==> Self::encodable(m),
    ;

    /// A successful read never consumes more bytes than it was given.
    proof fn lemma_parse_len(s: Seq<u8>)
        ensures
            Self::parse(s) matches Ok((_, n)) ==> n <= s.len(),
    ;

    /// Appends the encoding of `self` to `w` and returns how many bytes it wrote.
    fn to_bytes(self, w: &mut Vec<u8>) -> (written: usize)
        requires
            Self::encodable(self.model()),
        ensures
            final(w)@ == old(w)@ + Self::encode(self.model()),
            written == Self::encode(self.model()).len(),
    ;

    /// Reads one value from `buffer` starting at `pos`; on success returns it
    /// with the number of bytes it took.
    fn from_bytes(buffer: &[u8], pos: usize) -> (r: Result<(Self, usize), DecodeError>)
        requires
            pos <= buffer@.len(),
        ensures
            match Self::parse(buffer@.skip(pos as int)) {
                Ok((m, n)) => r matches Ok((v, k)) && v.model() == m && k == n,
                Err(e) => r == Err::<(Self, usize), DecodeError>(e),
            },
    ;
}

/// The models of a sequence of executable values.
pub open spec fn models<T: SerializeProof>(v: Seq<T>) -> Seq<T::Model> {
    v.map_values(|x: T| x.model())
}

/// Every model in `ms` can be written and read back.
pub open spec fn all_encodable<T: SerializeProof>(ms: Seq<T::Model>) -> bool {
    forall|i: int| 0 <= i < ms.len() ==> #[trigger] T::encodable(ms[i])
}

/// The encodings of the models in `ms`, one after the other.
pub open spec fn encode_many<T: SerializeProof>(ms: Seq<T::Model>) -> Seq<u8>
    decreases ms.len(),
{
    if ms.len() == 0 {
        Seq::empty()
    } else {
        encode_many::<T>(ms.drop_last()) + T::encode(ms.last())
    }
}

/// Reads `n` values one after the other from the front of `s`.
pub open spec fn parse_many<T: SerializeProof>(s: Seq<u8>, n: nat) -> Result<
    (Seq<T::Model>, nat),
    DecodeError,
>
    decreases n,
{
    if n == 0 {
        Ok((Seq::empty(), 0))
    } else {
        match parse_many::<T>(s, (n - 1) as nat) {
            Ok((vs, k)) => match T::parse(s.skip(k as int)) {
                Ok((v, j)) => Ok((vs.push(v), k + j)),
                Err(e) => Err(e),
            },
            Err(e) => Err(e),
        }
    }
}

/// A successful read of `n` values yields `n` models and stays within `s`.
pub proof fn lemma_parse_many_len<T: SerializeProof>(s: Seq<u8>, n: nat)
    ensures
        parse_many::<T>(s, n) matches Ok((vs, k)) ==> vs.len() == n && k <= s.len(),
    decreases n,
{
    if n > 0 {
        lemma_parse_many_len::<T>(s, (n - 1) as nat);
        if let Ok((vs, k)) = parse_many::<T>(s, (n - 1) as nat) {
            T::lemma_parse_len(s.skip(k as int));
        }
    }
}

/// Every model that a read of `n` values gives can be written again.
pub proof fn lemma_parse_many_encodable<T: SerializeProof>(s: Seq<u8>, n: nat)
    ensures
        parse_many::<T>(s, n) matches Ok((vs, _)) ==> all_encodable::<T>(vs),
    decreases n,
{
    if n > 0 {
        lemma_parse_many_encodable::<T>(s, (n - 1) as nat);
        if let Ok((vs, k)) = parse_many::<T>(s, (n - 1) as nat) {
            T::lemma_parse_encodable(s.skip(k as int));
            if let Ok((v, j)) = T::parse(s.skip(k as int)) {
                assert forall|i: int| 0 <= i < vs.push(v).len() implies #[trigger] T::encodable(
                    vs.push(v)[i],
                ) by {
                    if i < vs.len() {
                        assert(vs.push(v)[i] == vs[i]);
                    }
                }
            }
        }
    }
}

/// Once a read of `m` values fails, a read of more values fails the same way.
pub proof fn lemma_parse_many_err<T: SerializeProof>(s: Seq<u8>, m: nat, n: nat)
    requires
        m <= n,
        parse_many::<T>(s, m) is Err,
    ensures
        parse_many::<T>(s, n) == parse_many::<T>(s, m),
    decreases n,
{
    if n > m {
        lemma_parse_many_err::<T>(s, m, (n - 1) as nat);
    }
}

/// Reading back a run of encodings gives the models and consumes exactly the run.
pub proof fn lemma_parse_many_encode<T: SerializeProof>(ms: Seq<T::Model>, rest: Seq<u8>)
    requires
        all_encodable::<T>(ms),
    ensures
        parse_many::<T>(encode_many::<T>(ms) + rest, ms.len()) == Ok::<
            (Seq<T::Model>, nat),
            DecodeError,
        >((ms, encode_many::<T>(ms).len())),
    decreases ms.len(),
{
    if ms.len() > 0 {
        let init = ms.drop_last();
        let last = ms.last();
        let e_init = encode_many::<T>(init);
        let e_last = T::encode(last);
        assert(all_encodable::<T>(init)) by {
            assert forall|i: int| 0 <= i < init.len() implies #[trigger] T::encodable(init[i]) by {
                assert(init[i] == ms[i]);
            }
        }
        assert(T::encodable(ms[ms.len() - 1]));
        assert(encode_many::<T>(ms) + rest =~= e_init + (e_last + rest));
        lemma_parse_many_encode::<T>(init, e_last + rest);
        assert((e_init + (e_last + rest)).skip(e_init.len() as int) =~= e_last + rest);
        T::lemma_parse_encode(last, rest);
        assert(init.push(last) =~= ms);
    } else {
        assert(ms =~= Seq::<T::Model>::empty());
        assert(encode_many::<T>(ms) + rest =~= rest);
    }
}

/// Writing a run of values appends their encodings one after the other.
pub proof fn lemma_encode_many_push<T: SerializeProof>(ms: Seq<T::Model>, m: T::Model)
    ensures
        encode_many::<T>(ms.push(m)) == encode_many::<T>(ms) + T::encode(m),
{
    assert(ms.push(m).drop_last() =~= ms);
}

/// Reads `n` values from `buffer` starting at `pos`, one after the other.
pub fn from_bytes_many<T: SerializeProof>(buffer: &[u8], pos: usize, n: usize) -> (r: Result<
    (Vec<T>, usize),
    DecodeError,
>)
    requires
        pos <= buffer@.len(),
    ensures
        match parse_many::<T>(buffer@.skip(pos as int), n as nat) {
            Ok((ms, k)) => r matches Ok((v, j)) && models(v@) == ms && j == k,
            Err(e) => r == Err::<(Vec<T>, usize), DecodeError>(e),
        },
{
    let ghost s = buffer@.skip(pos as int);
    let mut out: Vec<T> = Vec::new();
    let mut consumed: usize = 0;
    let mut i: usize = 0;
    let total = buffer.len();
    assert(models(out@) =~= Seq::<T::Model>::empty());
    while i < n
        invariant
            pos <= buffer@.len(),
            s == buffer@.skip(pos as int),
            s.len() == buffer@.len() - pos,
            total == buffer@.len(),
            i <= n,
            parse_many::<T>(s, i as nat) == Ok::<(Seq<T::Model>, nat), DecodeError>(
                (models(out@), consumed as nat),
            ),
            consumed <= s.len(),
        decreases n - i,
    {
        let at = pos + consumed;
        assert(buffer@.skip(at as int) =~= s.skip(consumed as int));
        match T::from_bytes(buffer, at) {
            Ok((v, k)) => {
                proof {
                    T::lemma_parse_len(s.skip(consumed as int));
                }
                let ghost before = out@;
                out.push(v);
                assert(models(out@) =~= models(before).push(v.model()));
                consumed = consumed + k;
                i = i + 1;
            },
            Err(e) => {
                proof {
                    lemma_parse_many_err::<T>(s, (i + 1) as nat, n as nat);
                }
                return Err(e);
            },
        }
    }
    Ok((out, consumed))
}

} // verus!
