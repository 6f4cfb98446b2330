use vstd::prelude::*;

use crate::error::DecodeError;
use crate::serialize::{
    SerializeProof, all_encodable, encode_many, from_bytes_many, lemma_encode_many_push,
    lemma_parse_many_encodable, lemma_parse_many_encode, lemma_parse_many_len, models, parse_many,
};
use vstd::bytes::{
    spec_u32_from_le_bytes, spec_u32_to_le_bytes, spec_u64_from_le_bytes, spec_u64_to_le_bytes,
    u32_from_le_bytes, u32_to_le_bytes, u64_from_le_bytes, u64_to_le_bytes,
};
use vstd::slice::slice_subrange;
use vstd::string::StrSliceExecFns;
use vstd::utf8::{decode_utf8, encode_utf8, valid_utf8};

verus! {

// A byte is written as itself.
impl SerializeProof for u8 {
    type Model = u8;

    open spec fn model(&self) -> u8 {
        *self
    }

    open spec fn encodable(m: u8) -> bool {
        true
    }

    open spec fn encode(m: u8) -> Seq<u8> {
        seq![m]
    }

    open spec fn parse(s: Seq<u8>) -> Result<(u8, nat), DecodeError> {
        if s.len() >= 1 {
            Ok((s[0], 1))
        } else {
            Err(DecodeError::UnexpectedEnd)
        }
    }

    proof fn lemma_parse_encode(m: u8, rest: Seq<u8>) {
        assert((seq![m] + rest)[0] == m);
    }

    proof fn lemma_parse_len(s: Seq<u8>) {
    }

    proof fn lemma_parse_encodable(s: Seq<u8>) {
    }

    fn to_bytes(self, w: &mut Vec<u8>) -> (written: usize) {
        w.push(self);
        1
    }

    fn from_bytes(buffer: &[u8], pos: usize) -> (r: Result<(u8, usize), DecodeError>) {
        if pos < buffer.len() {
            Ok((buffer[pos], 1))
        } else {
            Err(DecodeError::UnexpectedEnd)
        }
    }
}


// A `u32` is written as its four little-endian bytes.
impl SerializeProof for u32 {
    type Model = u32;

    open spec fn model(&self) -> u32 {
        *self
    }

    open spec fn encodable(m: u32) -> bool {
        true
    }

    open spec fn encode(m: u32) -> Seq<u8> {
        spec_u32_to_le_bytes(m)
    }

    open spec fn parse(s: Seq<u8>) -> Result<(u32, nat), DecodeError> {
        if s.len() >= 4 {
            Ok((spec_u32_from_le_bytes(s.take(4)), 4))
        } else {
            Err(DecodeError::UnexpectedEnd)
        }
    }

    proof fn lemma_parse_encode(m: u32, rest: Seq<u8>) {
        vstd::bytes::lemma_auto_spec_u32_to_from_le_bytes();
        assert((spec_u32_to_le_bytes(m) + rest).take(4) =~= spec_u32_to_le_bytes(m));
    }

    proof fn lemma_parse_len(s: Seq<u8>) {
    }

    proof fn lemma_parse_encodable(s: Seq<u8>) {
    }

    fn to_bytes(self, w: &mut Vec<u8>) -> (written: usize) {
        proof {
            vstd::bytes::lemma_auto_spec_u32_to_from_le_bytes();
        }
        let mut bytes = u32_to_le_bytes(self);
        w.append(&mut bytes);
        4
    }

    fn from_bytes(buffer: &[u8], pos: usize) -> (r: Result<(u32, usize), DecodeError>) {
        if buffer.len() - pos >= 4 {
            let bytes = slice_subrange(buffer, pos, pos + 4);
            assert(bytes@ =~= buffer@.skip(pos as int).take(4));
            Ok((u32_from_le_bytes(bytes), 4))
        } else {
            Err(DecodeError::UnexpectedEnd)
        }
    }
}

// A `u64` is written as its eight little-endian bytes.
impl SerializeProof for u64 {
    type Model = u64;

    open spec fn model(&self) -> u64 {
        *self
    }

    open spec fn encodable(m: u64) -> bool {
        true
    }

    open spec fn encode(m: u64) -> Seq<u8> {
        spec_u64_to_le_bytes(m)
    }

    open spec fn parse(s: Seq<u8>) -> Result<(u64, nat), DecodeError> {
        if s.len() >= 8 {
            Ok((spec_u64_from_le_bytes(s.take(8)), 8))
        } else {
            Err(DecodeError::UnexpectedEnd)
        }
    }

    proof fn lemma_parse_encode(m: u64, rest: Seq<u8>) {
        vstd::bytes::lemma_auto_spec_u64_to_from_le_bytes();
        assert((spec_u64_to_le_bytes(m) + rest).take(8) =~= spec_u64_to_le_bytes(m));
    }

    proof fn lemma_parse_len(s: Seq<u8>) {
    }

    proof fn lemma_parse_encodable(s: Seq<u8>) {
    }

    fn to_bytes(self, w: &mut Vec<u8>) -> (written: usize) {
        proof {
            vstd::bytes::lemma_auto_spec_u64_to_from_le_bytes();
        }
        let mut bytes = u64_to_le_bytes(self);
        w.append(&mut bytes);
        8
    }

    fn from_bytes(buffer: &[u8], pos: usize) -> (r: Result<(u64, usize), DecodeError>) {
        if buffer.len() - pos >= 8 {
            let bytes = slice_subrange(buffer, pos, pos + 8);
            assert(bytes@ =~= buffer@.skip(pos as int).take(8));
            Ok((u64_from_le_bytes(bytes), 8))
        } else {
            Err(DecodeError::UnexpectedEnd)
        }
    }
}

// A `usize` is written as the `u64` of the same value.
impl SerializeProof for usize {
    type Model = usize;

    open spec fn model(&self) -> usize {
        *self
    }

    open spec fn encodable(m: usize) -> bool {
        true
    }

    open spec fn encode(m: usize) -> Seq<u8> {
        <u64 as SerializeProof>::encode(m as u64)
    }

    open spec fn parse(s: Seq<u8>) -> Result<(usize, nat), DecodeError> {
        match <u64 as SerializeProof>::parse(s) {
            Ok((v, n)) => Ok((v as usize, n)),
            Err(e) => Err(e),
        }
    }

    proof fn lemma_parse_encode(m: usize, rest: Seq<u8>) {
        <u64 as SerializeProof>::lemma_parse_encode(m as u64, rest);
    }

    proof fn lemma_parse_len(s: Seq<u8>) {
    }

    proof fn lemma_parse_encodable(s: Seq<u8>) {
    }

    fn to_bytes(self, w: &mut Vec<u8>) -> (written: usize) {
        (self as u64).to_bytes(w)
    }

    fn from_bytes(buffer: &[u8], pos: usize) -> (r: Result<(usize, usize), DecodeError>) {
        let (as_u64, n) = <u64 as SerializeProof>::from_bytes(buffer, pos)?;
        Ok((as_u64 as usize, n))
    }
}

// A boolean is written as the byte 1 for `true` and 0 for `false`.
impl SerializeProof for bool {
    type Model = bool;

    open spec fn model(&self) -> bool {
        *self
    }

    open spec fn encodable(m: bool) -> bool {
        true
    }

    open spec fn encode(m: bool) -> Seq<u8> {
        seq![if m { 1u8 } else { 0u8 }]
    }

    open spec fn parse(s: Seq<u8>) -> Result<(bool, nat), DecodeError> {
        if s.len() >= 1 {
            if s[0] == 0 {
                Ok((false, 1))
            } else if s[0] == 1 {
                Ok((true, 1))
            } else {
                Err(DecodeError::InvalidBool)
            }
        } else {
            Err(DecodeError::UnexpectedEnd)
        }
    }

    proof fn lemma_parse_encode(m: bool, rest: Seq<u8>) {
        assert((Self::encode(m) + rest)[0] == Self::encode(m)[0]);
    }

    proof fn lemma_parse_len(s: Seq<u8>) {
    }

    proof fn lemma_parse_encodable(s: Seq<u8>) {
    }

    fn to_bytes(self, w: &mut Vec<u8>) -> (written: usize) {
        let as_u8: u8 = if self { 1 } else { 0 };
        as_u8.to_bytes(w)
    }

    fn from_bytes(buffer: &[u8], pos: usize) -> (r: Result<(bool, usize), DecodeError>) {
        let (byte, n) = <u8 as SerializeProof>::from_bytes(buffer, pos)?;
        match byte {
            0 => Ok((false, n)),
            1 => Ok((true, n)),
            _ => Err(DecodeError::InvalidBool),
        }
    }
}

// The unit value takes no bytes.
impl SerializeProof for () {
    type Model = ();

    open spec fn model(&self) -> () {
        ()
    }

    open spec fn encodable(m: ()) -> bool {
        true
    }

    open spec fn encode(m: ()) -> Seq<u8> {
        Seq::empty()
    }

    open spec fn parse(s: Seq<u8>) -> Result<((), nat), DecodeError> {
        Ok(((), 0))
    }

    proof fn lemma_parse_encode(m: (), rest: Seq<u8>) {
    }

    proof fn lemma_parse_len(s: Seq<u8>) {
    }

    proof fn lemma_parse_encodable(s: Seq<u8>) {
    }

    fn to_bytes(self, w: &mut Vec<u8>) -> (written: usize) {
        assert(w@ =~= w@ + Seq::<u8>::empty());
        0
    }

    fn from_bytes(buffer: &[u8], pos: usize) -> (r: Result<((), usize), DecodeError>) {
        Ok(((), 0))
    }
}


// A vector is written as its length as a `u32`, then each element in order.
impl<T: SerializeProof> SerializeProof for Vec<T> {
    type Model = Seq<T::Model>;

    open spec fn model(&self) -> Seq<T::Model> {
        models(self@)
    }

    open spec fn encodable(m: Seq<T::Model>) -> bool {
        m.len() <= u32::MAX && all_encodable::<T>(m)
    }

    open spec fn encode(m: Seq<T::Model>) -> Seq<u8> {
        <u32 as SerializeProof>::encode(m.len() as u32) + encode_many::<T>(m)
    }

    open spec fn parse(s: Seq<u8>) -> Result<(Seq<T::Model>, nat), DecodeError> {
        match <u32 as SerializeProof>::parse(s) {
            Ok((len, k)) => match parse_many::<T>(s.skip(k as int), len as nat) {
                Ok((vs, j)) => Ok((vs, k + j)),
                Err(e) => Err(e),
            },
            Err(e) => Err(e),
        }
    }

    proof fn lemma_parse_encode(m: Seq<T::Model>, rest: Seq<u8>) {
        let el = <u32 as SerializeProof>::encode(m.len() as u32);
        let eb = encode_many::<T>(m);
        assert(el + eb + rest =~= el + (eb + rest));
        <u32 as SerializeProof>::lemma_parse_encode(m.len() as u32, eb + rest);
        assert((el + (eb + rest)).skip(el.len() as int) =~= eb + rest);
        lemma_parse_many_encode::<T>(m, rest);
    }

    proof fn lemma_parse_len(s: Seq<u8>) {
        <u32 as SerializeProof>::lemma_parse_len(s);
        if let Ok((len, k)) = <u32 as SerializeProof>::parse(s) {
            lemma_parse_many_len::<T>(s.skip(k as int), len as nat);
        }
    }

    proof fn lemma_parse_encodable(s: Seq<u8>) {
        if let Ok((len, k)) = <u32 as SerializeProof>::parse(s) {
            lemma_parse_many_len::<T>(s.skip(k as int), len as nat);
            lemma_parse_many_encodable::<T>(s.skip(k as int), len as nat);
        }
    }

    fn to_bytes(self, w: &mut Vec<u8>) -> (written: usize) {
        let start = w.len();
        let ghost elems = self@;
        let len: u32 = self.len() as u32;
        len.to_bytes(w);
        let ghost prefix = w@;
        for elem in it: self.into_iter()
            invariant
                it.seq() == elems,
                all_encodable::<T>(models(elems)),
                w@ == prefix + encode_many::<T>(models(elems.take(it.index() as int))),
        {
            let ghost i = it.index();
            proof {
                assert(models(elems.take(i + 1)) =~= models(elems.take(i as int)).push(
                    elem.model(),
                ));
                lemma_encode_many_push::<T>(models(elems.take(i as int)), elem.model());
                assert(T::encodable(models(elems)[i as int]));
            }
            elem.to_bytes(w);
        }
        assert(elems.take(elems.len() as int) =~= elems);
        assert(w@ =~= old(w)@ + Self::encode(models(elems)));
        w.len() - start
    }

    fn from_bytes(buffer: &[u8], pos: usize) -> (r: Result<(Self, usize), DecodeError>) {
        let ghost s = buffer@.skip(pos as int);
        let total = buffer.len();
        let (len, k) = <u32 as SerializeProof>::from_bytes(buffer, pos)?;
        assert(buffer@.skip((pos + k) as int) =~= s.skip(k as int));
        let (vec, j) = from_bytes_many::<T>(buffer, pos + k, len as usize)?;
        proof {
            lemma_parse_many_len::<T>(s.skip(k as int), len as nat);
        }
        Ok((vec, k + j))
    }
}


// An array is written as each of its elements in order, with no length.
impl<T: SerializeProof + Copy + Default, const N: usize> SerializeProof for [T; N] {
    type Model = Seq<T::Model>;

    open spec fn model(&self) -> Seq<T::Model> {
        models(self@)
    }

    open spec fn encodable(m: Seq<T::Model>) -> bool {
        m.len() == N && all_encodable::<T>(m)
    }

    open spec fn encode(m: Seq<T::Model>) -> Seq<u8> {
        encode_many::<T>(m)
    }

    open spec fn parse(s: Seq<u8>) -> Result<(Seq<T::Model>, nat), DecodeError> {
        parse_many::<T>(s, N as nat)
    }

    proof fn lemma_parse_encode(m: Seq<T::Model>, rest: Seq<u8>) {
        lemma_parse_many_encode::<T>(m, rest);
    }

    proof fn lemma_parse_len(s: Seq<u8>) {
        lemma_parse_many_len::<T>(s, N as nat);
    }

    proof fn lemma_parse_encodable(s: Seq<u8>) {
        lemma_parse_many_len::<T>(s, N as nat);
        lemma_parse_many_encodable::<T>(s, N as nat);
    }

    fn to_bytes(self, w: &mut Vec<u8>) -> (written: usize) {
        let start = w.len();
        let ghost elems = self@;
        let ghost prefix = w@;
        let mut i: usize = 0;
        while i < N
            invariant
                elems == self@,
                elems.len() == N,
                i <= N,
                all_encodable::<T>(models(elems)),
                w@ == prefix + encode_many::<T>(models(elems.take(i as int))),
            decreases N - i,
        {
            let elem = self[i];
            proof {
                assert(models(elems.take(i + 1)) =~= models(elems.take(i as int)).push(
                    elem.model(),
                ));
                lemma_encode_many_push::<T>(models(elems.take(i as int)), elem.model());
                assert(T::encodable(models(elems)[i as int]));
            }
            elem.to_bytes(w);
            i = i + 1;
        }
        assert(elems.take(N as int) =~= elems);
        assert(w@ =~= old(w)@ + Self::encode(models(elems)));
        w.len() - start
    }

    fn from_bytes(buffer: &[u8], pos: usize) -> (r: Result<(Self, usize), DecodeError>) {
        let (elems, n) = from_bytes_many::<T>(buffer, pos, N)?;
        proof {
            lemma_parse_many_len::<T>(buffer@.skip(pos as int), N as nat);
        }
        let mut arr: [T; N] = vstd::array::array_fill_for_copy_types(T::default());
        let mut i: usize = 0;
        while i < N
            invariant
                elems@.len() == N,
                arr@.len() == N,
                i <= N,
                forall|j: int| 0 <= j < i ==> arr@[j] == elems@[j],
            decreases N - i,
        {
            arr[i] = elems[i];
            i = i + 1;
        }
        assert(models(arr@) =~= models(elems@));
        Ok((arr, n))
    }
}


/// Calls std's `String::from_utf8`. As its documentation says, it gives back
/// the string whose UTF-8 encoding is `bytes` when `bytes` is valid UTF-8, and
/// fails otherwise; the failure is passed on as `None`.
#[verifier::external_body]
fn string_from_utf8(bytes: Vec<u8>) -> (r: Option<String>)
    ensures
        r is Some <==> valid_utf8(bytes@),
        r matches Some(s) ==> s@ == decode_utf8(bytes@),
{
    String::from_utf8(bytes).ok()
}

// A string is written as the vector of its UTF-8 bytes.
impl SerializeProof for String {
    type Model = Seq<char>;

    open spec fn model(&self) -> Seq<char> {
        self@
    }

    open spec fn encodable(m: Seq<char>) -> bool {
        encode_utf8(m).len() <= u32::MAX
    }

    open spec fn encode(m: Seq<char>) -> Seq<u8> {
        <Vec<u8> as SerializeProof>::encode(encode_utf8(m))
    }

    open spec fn parse(s: Seq<u8>) -> Result<(Seq<char>, nat), DecodeError> {
        match <Vec<u8> as SerializeProof>::parse(s) {
            Ok((bytes, n)) => if valid_utf8(bytes) {
                Ok((decode_utf8(bytes), n))
            } else {
                Err(DecodeError::InvalidUtf8)
            },
            Err(e) => Err(e),
        }
    }

    proof fn lemma_parse_encode(m: Seq<char>, rest: Seq<u8>) {
        vstd::utf8::encode_utf8_valid_utf8(m);
        vstd::utf8::encode_utf8_decode_utf8(m);
        <Vec<u8> as SerializeProof>::lemma_parse_encode(encode_utf8(m), rest);
    }

    proof fn lemma_parse_len(s: Seq<u8>) {
        <Vec<u8> as SerializeProof>::lemma_parse_len(s);
    }

    proof fn lemma_parse_encodable(s: Seq<u8>) {
        <Vec<u8> as SerializeProof>::lemma_parse_encodable(s);
        if let Ok((bytes, n)) = <Vec<u8> as SerializeProof>::parse(s) {
            if valid_utf8(bytes) {
                vstd::utf8::decode_utf8_encode_utf8(bytes);
            }
        }
    }

    fn to_bytes(self, w: &mut Vec<u8>) -> (written: usize) {
        let as_bytes: Vec<u8> = self.as_str().as_bytes_vec();
        assert(models(as_bytes@) =~= encode_utf8(self@));
        as_bytes.to_bytes(w)
    }

    fn from_bytes(buffer: &[u8], pos: usize) -> (r: Result<(Self, usize), DecodeError>) {
        let (bytes, n) = <Vec<u8> as SerializeProof>::from_bytes(buffer, pos)?;
        assert(models(bytes@) =~= bytes@);
        match string_from_utf8(bytes) {
            Some(string) => Ok((string, n)),
            None => Err(DecodeError::InvalidUtf8),
        }
    }
}

} // verus!
