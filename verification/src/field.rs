use vstd::prelude::*;

use crate::error::DecodeError;
use crate::serialize::{SerializeProof, encode_many, models};

verus! {

/// The BabyBear prime, 2^31 - 2^27 + 1.
pub const BABY_BEAR_PRIME: u32 = 0x7800_0001;

/// An element of the BabyBear field, held by its canonical representative
/// (a value below `BABY_BEAR_PRIME`).
#[derive(Clone, Copy, Debug, PartialEq, Eq, Structural)]
pub struct Val {
    pub value: u32,
}

impl Val {
    /// The field element `n` stands for: `n` reduced modulo the prime.
    pub fn from_canonical_u32(n: u32) -> (r: Val)
        ensures
            r.value == n % BABY_BEAR_PRIME,
    {
        Val { value: n % BABY_BEAR_PRIME }
    }

    /// The canonical representative of the element.
    pub fn as_canonical_u32(&self) -> (r: u32)
        ensures
            r == self.value,
    {
        self.value
    }
}

impl Default for Val {
    fn default() -> (r: Val)
        ensures
            r.value == 0,
    {
        Val { value: 0 }
    }
}

// A field element is written as the `u32` of its canonical representative.
impl SerializeProof for Val {
    type Model = u32;

    open spec fn model(&self) -> u32 {
        self.value
    }

    open spec fn encodable(m: u32) -> bool {
        m < BABY_BEAR_PRIME
    }

    open spec fn encode(m: u32) -> Seq<u8> {
        <u32 as SerializeProof>::encode(m)
    }

    open spec fn parse(s: Seq<u8>) -> Result<(u32, nat), DecodeError> {
        match <u32 as SerializeProof>::parse(s) {
            Ok((v, n)) => Ok((v % BABY_BEAR_PRIME, n)),
            Err(e) => Err(e),
        }
    }

    proof fn lemma_parse_encode(m: u32, rest: Seq<u8>) {
        <u32 as SerializeProof>::lemma_parse_encode(m, rest);
    }

    proof fn lemma_parse_len(s: Seq<u8>) {
    }

    proof fn lemma_parse_encodable(s: Seq<u8>) {
    }

    fn to_bytes(self, w: &mut Vec<u8>) -> (written: usize) {
        let as_u32 = self.as_canonical_u32();
        as_u32.to_bytes(w)
    }

    fn from_bytes(buffer: &[u8], pos: usize) -> (r: Result<(Self, usize), DecodeError>) {
        let (as_u32, n) = <u32 as SerializeProof>::from_bytes(buffer, pos)?;
        Ok((Val::from_canonical_u32(as_u32), n))
    }
}

/// An element of the degree-4 extension of BabyBear, by its coefficients.
#[derive(Clone, Copy, Debug, PartialEq, Eq)]
pub struct ExVal(pub [Val; 4]);

// An extension element is written as its four coefficients.
impl SerializeProof for ExVal {
    type Model = Seq<u32>;

    open spec fn model(&self) -> Seq<u32> {
        self.0.model()
    }

    open spec fn encodable(m: Seq<u32>) -> bool {
        <[Val; 4] as SerializeProof>::encodable(m)
    }

    open spec fn encode(m: Seq<u32>) -> Seq<u8> {
        <[Val; 4] as SerializeProof>::encode(m)
    }

    open spec fn parse(s: Seq<u8>) -> Result<(Seq<u32>, nat), DecodeError> {
        <[Val; 4] as SerializeProof>::parse(s)
    }

    proof fn lemma_parse_encode(m: Seq<u32>, rest: Seq<u8>) {
        <[Val; 4] as SerializeProof>::lemma_parse_encode(m, rest);
    }

    proof fn lemma_parse_len(s: Seq<u8>) {
        <[Val; 4] as SerializeProof>::lemma_parse_len(s);
    }

    proof fn lemma_parse_encodable(s: Seq<u8>) {
        <[Val; 4] as SerializeProof>::lemma_parse_encodable(s);
    }

    fn to_bytes(self, w: &mut Vec<u8>) -> (written: usize) {
        let elems: [Val; 4] = self.0;
        elems.to_bytes(w)
    }

    fn from_bytes(buffer: &[u8], pos: usize) -> (r: Result<(Self, usize), DecodeError>) {
        let (elems, n) = <[Val; 4] as SerializeProof>::from_bytes(buffer, pos)?;
        Ok((ExVal(elems), n))
    }
}

/// An element of the degree-7 extension of BabyBear, by its coefficients.
#[derive(Clone, Copy, Debug, PartialEq, Eq)]
pub struct SepticVal(pub [Val; 7]);

// A septic extension element is written as its seven coefficients.
impl SerializeProof for SepticVal {
    type Model = Seq<u32>;

    open spec fn model(&self) -> Seq<u32> {
        self.0.model()
    }

    open spec fn encodable(m: Seq<u32>) -> bool {
        <[Val; 7] as SerializeProof>::encodable(m)
    }

    open spec fn encode(m: Seq<u32>) -> Seq<u8> {
        <[Val; 7] as SerializeProof>::encode(m)
    }

    open spec fn parse(s: Seq<u8>) -> Result<(Seq<u32>, nat), DecodeError> {
        <[Val; 7] as SerializeProof>::parse(s)
    }

    proof fn lemma_parse_encode(m: Seq<u32>, rest: Seq<u8>) {
        <[Val; 7] as SerializeProof>::lemma_parse_encode(m, rest);
    }

    proof fn lemma_parse_len(s: Seq<u8>) {
        <[Val; 7] as SerializeProof>::lemma_parse_len(s);
    }

    proof fn lemma_parse_encodable(s: Seq<u8>) {
        <[Val; 7] as SerializeProof>::lemma_parse_encodable(s);
    }

    fn to_bytes(self, w: &mut Vec<u8>) -> (written: usize) {
        let elems: [Val; 7] = self.0;
        elems.to_bytes(w)
    }

    fn from_bytes(buffer: &[u8], pos: usize) -> (r: Result<(Self, usize), DecodeError>) {
        let (elems, n) = <[Val; 7] as SerializeProof>::from_bytes(buffer, pos)?;
        Ok((SepticVal(elems), n))
    }
}

/// A point of the septic curve, by its two coordinates.
#[derive(Clone, Copy, Debug, PartialEq, Eq)]
pub struct Point {
    pub x: SepticVal,
    pub y: SepticVal,
}

// A point is written as the pair of its coordinates.
impl SerializeProof for Point {
    type Model = (Seq<u32>, Seq<u32>);

    open spec fn model(&self) -> (Seq<u32>, Seq<u32>) {
        (self.x.model(), self.y.model())
    }

    open spec fn encodable(m: (Seq<u32>, Seq<u32>)) -> bool {
        <(SepticVal, SepticVal) as SerializeProof>::encodable(m)
    }

    open spec fn encode(m: (Seq<u32>, Seq<u32>)) -> Seq<u8> {
        <(SepticVal, SepticVal) as SerializeProof>::encode(m)
    }

    open spec fn parse(s: Seq<u8>) -> Result<((Seq<u32>, Seq<u32>), nat), DecodeError> {
        <(SepticVal, SepticVal) as SerializeProof>::parse(s)
    }

    proof fn lemma_parse_encode(m: (Seq<u32>, Seq<u32>), rest: Seq<u8>) {
        <(SepticVal, SepticVal) as SerializeProof>::lemma_parse_encode(m, rest);
    }

    proof fn lemma_parse_len(s: Seq<u8>) {
        <(SepticVal, SepticVal) as SerializeProof>::lemma_parse_len(s);
    }

    proof fn lemma_parse_encodable(s: Seq<u8>) {
        <(SepticVal, SepticVal) as SerializeProof>::lemma_parse_encodable(s);
    }

    fn to_bytes(self, w: &mut Vec<u8>) -> (written: usize) {
        let Point { x, y } = self;
        (x, y).to_bytes(w)
    }

    fn from_bytes(buffer: &[u8], pos: usize) -> (r: Result<(Self, usize), DecodeError>) {
        let ((x, y), n) = <(SepticVal, SepticVal) as SerializeProof>::from_bytes(buffer, pos)?;
        Ok((Point { x, y }, n))
    }
}

/// A digest on the septic curve: one point.
#[derive(Clone, Copy, Debug, PartialEq, Eq)]
pub struct SepticDigest(pub Point);

// A septic digest is written as its point.
impl SerializeProof for SepticDigest {
    type Model = (Seq<u32>, Seq<u32>);

    open spec fn model(&self) -> (Seq<u32>, Seq<u32>) {
        self.0.model()
    }

    open spec fn encodable(m: (Seq<u32>, Seq<u32>)) -> bool {
        Point::encodable(m)
    }

    open spec fn encode(m: (Seq<u32>, Seq<u32>)) -> Seq<u8> {
        Point::encode(m)
    }

    open spec fn parse(s: Seq<u8>) -> Result<((Seq<u32>, Seq<u32>), nat), DecodeError> {
        Point::parse(s)
    }

    proof fn lemma_parse_encode(m: (Seq<u32>, Seq<u32>), rest: Seq<u8>) {
        Point::lemma_parse_encode(m, rest);
    }

    proof fn lemma_parse_len(s: Seq<u8>) {
        Point::lemma_parse_len(s);
    }

    proof fn lemma_parse_encodable(s: Seq<u8>) {
        Point::lemma_parse_encodable(s);
    }

    fn to_bytes(self, w: &mut Vec<u8>) -> (written: usize) {
        self.0.to_bytes(w)
    }

    fn from_bytes(buffer: &[u8], pos: usize) -> (r: Result<(Self, usize), DecodeError>) {
        let (point, n) = Point::from_bytes(buffer, pos)?;
        Ok((SepticDigest(point), n))
    }
}

/// A hash digest: eight field elements.
#[derive(Clone, Copy, Debug, PartialEq, Eq)]
pub struct Digest(pub [Val; 8]);

// A hash digest is written as its eight elements.
impl SerializeProof for Digest {
    type Model = Seq<u32>;

    open spec fn model(&self) -> Seq<u32> {
        self.0.model()
    }

    open spec fn encodable(m: Seq<u32>) -> bool {
        <[Val; 8] as SerializeProof>::encodable(m)
    }

    open spec fn encode(m: Seq<u32>) -> Seq<u8> {
        <[Val; 8] as SerializeProof>::encode(m)
    }

    open spec fn parse(s: Seq<u8>) -> Result<(Seq<u32>, nat), DecodeError> {
        <[Val; 8] as SerializeProof>::parse(s)
    }

    proof fn lemma_parse_encode(m: Seq<u32>, rest: Seq<u8>) {
        <[Val; 8] as SerializeProof>::lemma_parse_encode(m, rest);
    }

    proof fn lemma_parse_len(s: Seq<u8>) {
        <[Val; 8] as SerializeProof>::lemma_parse_len(s);
    }

    proof fn lemma_parse_encodable(s: Seq<u8>) {
        <[Val; 8] as SerializeProof>::lemma_parse_encodable(s);
    }

    fn to_bytes(self, w: &mut Vec<u8>) -> (written: usize) {
        let elems: [Val; 8] = self.0;
        elems.to_bytes(w)
    }

    fn from_bytes(buffer: &[u8], pos: usize) -> (r: Result<(Self, usize), DecodeError>) {
        let (elems, n) = <[Val; 8] as SerializeProof>::from_bytes(buffer, pos)?;
        Ok((Digest(elems), n))
    }
}

/// A word of four limbs.
#[derive(Clone, Copy, Debug, PartialEq, Eq)]
pub struct Word<T>(pub [T; 4]);

impl<T: Copy + Default> Default for Word<T> {
    /// Four copies of the limbs' default value.
    fn default() -> (r: Word<T>)
        ensures
            forall|i: int| 0 <= i < 4 ==> #[trigger] r.0@[i] == r.0@[0],
    {
        Word(vstd::array::array_fill_for_copy_types(T::default()))
    }
}

// A word is written as its four limbs.
impl<T: SerializeProof + Copy + Default> SerializeProof for Word<T> {
    type Model = Seq<T::Model>;

    open spec fn model(&self) -> Seq<T::Model> {
        self.0.model()
    }

    open spec fn encodable(m: Seq<T::Model>) -> bool {
        <[T; 4] as SerializeProof>::encodable(m)
    }

    open spec fn encode(m: Seq<T::Model>) -> Seq<u8> {
        <[T; 4] as SerializeProof>::encode(m)
    }

    open spec fn parse(s: Seq<u8>) -> Result<(Seq<T::Model>, nat), DecodeError> {
        <[T; 4] as SerializeProof>::parse(s)
    }

    proof fn lemma_parse_encode(m: Seq<T::Model>, rest: Seq<u8>) {
        <[T; 4] as SerializeProof>::lemma_parse_encode(m, rest);
    }

    proof fn lemma_parse_len(s: Seq<u8>) {
        <[T; 4] as SerializeProof>::lemma_parse_len(s);
    }

    proof fn lemma_parse_encodable(s: Seq<u8>) {
        <[T; 4] as SerializeProof>::lemma_parse_encodable(s);
    }

    fn to_bytes(self, w: &mut Vec<u8>) -> (written: usize) {
        self.0.to_bytes(w)
    }

    fn from_bytes(buffer: &[u8], pos: usize) -> (r: Result<(Self, usize), DecodeError>) {
        let (limbs, n) = <[T; 4] as SerializeProof>::from_bytes(buffer, pos)?;
        Ok((Word(limbs), n))
    }
}

/// A point is written x coordinate, then y coordinate.
pub proof fn law_point_layout(p: &Point)
    ensures
        Point::encode(p.model()) == SepticVal::encode(p.x.model()) + SepticVal::encode(p.y.model()),
{
}

/// A septic digest is written as its point.
pub proof fn law_septic_digest_layout(d: &SepticDigest)
    ensures
        SepticDigest::encode(d.model()) == SepticVal::encode(d.0.x.model()) + SepticVal::encode(
            d.0.y.model(),
        ),
{
}

/// A field element is written as the four little-endian bytes of its value.
pub proof fn law_val_layout(v: &Val)
    ensures
        Val::encode(v.model()) == vstd::bytes::spec_u32_to_le_bytes(v.value),
{
}

/// An extension element is written as its coefficients, lowest first.
pub proof fn law_ex_val_layout(v: &ExVal)
    ensures
        ExVal::encode(v.model()) == Val::encode(v.0[0].value) + Val::encode(v.0[1].value)
            + Val::encode(v.0[2].value) + Val::encode(v.0[3].value),
{
    let ms = models(v.0@);
    assert(ms.len() == 4);
    reveal_with_fuel(encode_many, 5);
    assert(ms.drop_last().drop_last().drop_last().drop_last() =~= Seq::<u32>::empty());
    assert(ExVal::encode(v.model()) =~= Val::encode(v.0[0].value) + Val::encode(v.0[1].value)
        + Val::encode(v.0[2].value) + Val::encode(v.0[3].value));
}

/// A septic extension element is written as its coefficients, lowest first.
pub proof fn law_septic_val_layout(v: &SepticVal)
    ensures
        SepticVal::encode(v.model()) == Val::encode(v.0[0].value) + Val::encode(v.0[1].value) + Val::encode(v.0[2].value) + Val::encode(v.0[3].value) + Val::encode(v.0[4].value) + Val::encode(v.0[5].value) + Val::encode(v.0[6].value),
{
    let ms = models(v.0@);
    assert(ms.len() == 7);
    reveal_with_fuel(encode_many, 8);
    assert(ms.drop_last().drop_last().drop_last().drop_last().drop_last().drop_last().drop_last() =~= Seq::<u32>::empty());
    assert(SepticVal::encode(v.model()) =~= Val::encode(v.0[0].value) + Val::encode(v.0[1].value) + Val::encode(v.0[2].value) + Val::encode(v.0[3].value) + Val::encode(v.0[4].value) + Val::encode(v.0[5].value) + Val::encode(v.0[6].value));
}

/// A hash digest is written as its elements in order.
pub proof fn law_digest_layout(v: &Digest)
    ensures
        Digest::encode(v.model()) == Val::encode(v.0[0].value) + Val::encode(v.0[1].value) + Val::encode(v.0[2].value) + Val::encode(v.0[3].value) + Val::encode(v.0[4].value) + Val::encode(v.0[5].value) + Val::encode(v.0[6].value) + Val::encode(v.0[7].value),
{
    let ms = models(v.0@);
    assert(ms.len() == 8);
    reveal_with_fuel(encode_many, 9);
    assert(ms.drop_last().drop_last().drop_last().drop_last().drop_last().drop_last().drop_last().drop_last() =~= Seq::<u32>::empty());
    assert(Digest::encode(v.model()) =~= Val::encode(v.0[0].value) + Val::encode(v.0[1].value) + Val::encode(v.0[2].value) + Val::encode(v.0[3].value) + Val::encode(v.0[4].value) + Val::encode(v.0[5].value) + Val::encode(v.0[6].value) + Val::encode(v.0[7].value));
}

/// A word is written as its four limbs in order.
pub proof fn law_word_layout<T: SerializeProof + Copy + Default>(w: &Word<T>)
    ensures
        Word::<T>::encode(w.model()) == T::encode(w.0[0].model()) + T::encode(w.0[1].model())
            + T::encode(w.0[2].model()) + T::encode(w.0[3].model()),
{
    let ms = models(w.0@);
    assert(ms.len() == 4);
    reveal_with_fuel(encode_many, 5);
    assert(ms.drop_last().drop_last().drop_last().drop_last() =~= Seq::<T::Model>::empty());
    assert(Word::<T>::encode(w.model()) =~= T::encode(w.0[0].model()) + T::encode(w.0[1].model())
        + T::encode(w.0[2].model()) + T::encode(w.0[3].model()));
}

} // verus!
