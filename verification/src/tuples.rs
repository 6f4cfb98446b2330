use vstd::prelude::*;

use crate::error::DecodeError;
use crate::serialize::SerializeProof;

verus! {

// A pair is written as its first component, then its second.
impl<A: SerializeProof, B: SerializeProof> SerializeProof for (A, B) {
    type Model = (A::Model, B::Model);

    open spec fn model(&self) -> (A::Model, B::Model) {
        (self.0.model(), self.1.model())
    }

    open spec fn encodable(m: (A::Model, B::Model)) -> bool {
        A::encodable(m.0) && B::encodable(m.1)
    }

    open spec fn encode(m: (A::Model, B::Model)) -> Seq<u8> {
        A::encode(m.0) + B::encode(m.1)
    }

    open spec fn parse(s: Seq<u8>) -> Result<((A::Model, B::Model), nat), DecodeError> {
        match A::parse(s) {
            Ok((a, n1)) => match B::parse(s.skip(n1 as int)) {
                Ok((b, n2)) => Ok(((a, b), n1 + n2)),
                Err(e) => Err(e),
            },
            Err(e) => Err(e),
        }
    }

    proof fn lemma_parse_encode(m: (A::Model, B::Model), rest: Seq<u8>) {
        let ea = A::encode(m.0);
        let eb = B::encode(m.1);
        assert(ea + eb + rest =~= ea + (eb + rest));
        A::lemma_parse_encode(m.0, eb + rest);
        assert((ea + (eb + rest)).skip(ea.len() as int) =~= eb + rest);
        B::lemma_parse_encode(m.1, rest);
    }

    proof fn lemma_parse_len(s: Seq<u8>) {
        A::lemma_parse_len(s);
        if let Ok((a, n1)) = A::parse(s) {
            B::lemma_parse_len(s.skip(n1 as int));
        }
    }

    proof fn lemma_parse_encodable(s: Seq<u8>) {
        A::lemma_parse_encodable(s);
        if let Ok((a, n1)) = A::parse(s) {
            B::lemma_parse_encodable(s.skip(n1 as int));
        }
    }

    fn to_bytes(self, w: &mut Vec<u8>) -> (written: usize) {
        let (a, b) = self;
        let start = w.len();
        a.to_bytes(w);
        b.to_bytes(w);
        assert(w@ =~= old(w)@ + Self::encode((a.model(), b.model())));
        w.len() - start
    }

    fn from_bytes(buffer: &[u8], pos: usize) -> (r: Result<(Self, usize), DecodeError>) {
        let ghost s = buffer@.skip(pos as int);
        let total = buffer.len();
        let (a, n1) = A::from_bytes(buffer, pos)?;
        proof {
            A::lemma_parse_len(s);
        }
        assert(buffer@.skip((pos + n1) as int) =~= s.skip(n1 as int));
        let (b, n2) = B::from_bytes(buffer, pos + n1)?;
        proof {
            B::lemma_parse_len(s.skip(n1 as int));
        }
        Ok(((a, b), n1 + n2))
    }
}

// A triple is written as its first component, then the pair of the others.
impl<A: SerializeProof, B: SerializeProof, C: SerializeProof> SerializeProof for (A, B, C) {
    type Model = (A::Model, B::Model, C::Model);

    open spec fn model(&self) -> (A::Model, B::Model, C::Model) {
        (self.0.model(), self.1.model(), self.2.model())
    }

    open spec fn encodable(m: (A::Model, B::Model, C::Model)) -> bool {
        A::encodable(m.0) && <(B, C)>::encodable((m.1, m.2))
    }

    open spec fn encode(m: (A::Model, B::Model, C::Model)) -> Seq<u8> {
        A::encode(m.0) + <(B, C)>::encode((m.1, m.2))
    }

    open spec fn parse(s: Seq<u8>) -> Result<((A::Model, B::Model, C::Model), nat), DecodeError> {
        match A::parse(s) {
            Ok((a, n1)) => match <(B, C)>::parse(s.skip(n1 as int)) {
                Ok((bc, n2)) => Ok(((a, bc.0, bc.1), n1 + n2)),
                Err(e) => Err(e),
            },
            Err(e) => Err(e),
        }
    }

    proof fn lemma_parse_encode(m: (A::Model, B::Model, C::Model), rest: Seq<u8>) {
        let ea = A::encode(m.0);
        let eb = <(B, C)>::encode((m.1, m.2));
        assert(ea + eb + rest =~= ea + (eb + rest));
        A::lemma_parse_encode(m.0, eb + rest);
        assert((ea + (eb + rest)).skip(ea.len() as int) =~= eb + rest);
        <(B, C)>::lemma_parse_encode((m.1, m.2), rest);
    }

    proof fn lemma_parse_len(s: Seq<u8>) {
        A::lemma_parse_len(s);
        if let Ok((a, n1)) = A::parse(s) {
            <(B, C)>::lemma_parse_len(s.skip(n1 as int));
        }
    }

    proof fn lemma_parse_encodable(s: Seq<u8>) {
        A::lemma_parse_encodable(s);
        if let Ok((a, n1)) = A::parse(s) {
            <(B, C)>::lemma_parse_encodable(s.skip(n1 as int));
        }
    }

    fn to_bytes(self, w: &mut Vec<u8>) -> (written: usize) {
        let (a, b, c) = self;
        let start = w.len();
        a.to_bytes(w);
        (b, c).to_bytes(w);
        assert(w@ =~= old(w)@ + Self::encode((a.model(), b.model(), c.model())));
        w.len() - start
    }

    fn from_bytes(buffer: &[u8], pos: usize) -> (r: Result<(Self, usize), DecodeError>) {
        let ghost s = buffer@.skip(pos as int);
        let total = buffer.len();
        let (a, n1) = A::from_bytes(buffer, pos)?;
        proof {
            A::lemma_parse_len(s);
        }
        assert(buffer@.skip((pos + n1) as int) =~= s.skip(n1 as int));
        let ((b, c), n2) = <(B, C)>::from_bytes(buffer, pos + n1)?;
        proof {
            <(B, C)>::lemma_parse_len(s.skip(n1 as int));
        }
        Ok(((a, b, c), n1 + n2))
    }
}

// A quadruple is written as its first component, then the triple of the others.
impl<
    A: SerializeProof,
    B: SerializeProof,
    C: SerializeProof,
    D: SerializeProof,
> SerializeProof for (A, B, C, D) {
    type Model = (A::Model, B::Model, C::Model, D::Model);

    open spec fn model(&self) -> (A::Model, B::Model, C::Model, D::Model) {
        (self.0.model(), self.1.model(), self.2.model(), self.3.model())
    }

    open spec fn encodable(m: (A::Model, B::Model, C::Model, D::Model)) -> bool {
        A::encodable(m.0) && <(B, C, D)>::encodable((m.1, m.2, m.3))
    }

    open spec fn encode(m: (A::Model, B::Model, C::Model, D::Model)) -> Seq<u8> {
        A::encode(m.0) + <(B, C, D)>::encode((m.1, m.2, m.3))
    }

    open spec fn parse(s: Seq<u8>) -> Result<
        ((A::Model, B::Model, C::Model, D::Model), nat),
        DecodeError,
    > {
        match A::parse(s) {
            Ok((a, n1)) => match <(B, C, D)>::parse(s.skip(n1 as int)) {
                Ok((r, n2)) => Ok(((a, r.0, r.1, r.2), n1 + n2)),
                Err(e) => Err(e),
            },
            Err(e) => Err(e),
        }
    }

    proof fn lemma_parse_encode(m: (A::Model, B::Model, C::Model, D::Model), rest: Seq<u8>) {
        let ea = A::encode(m.0);
        let eb = <(B, C, D)>::encode((m.1, m.2, m.3));
        assert(ea + eb + rest =~= ea + (eb + rest));
        A::lemma_parse_encode(m.0, eb + rest);
        assert((ea + (eb + rest)).skip(ea.len() as int) =~= eb + rest);
        <(B, C, D)>::lemma_parse_encode((m.1, m.2, m.3), rest);
    }

    proof fn lemma_parse_len(s: Seq<u8>) {
        A::lemma_parse_len(s);
        if let Ok((a, n1)) = A::parse(s) {
            <(B, C, D)>::lemma_parse_len(s.skip(n1 as int));
        }
    }

    proof fn lemma_parse_encodable(s: Seq<u8>) {
        A::lemma_parse_encodable(s);
        if let Ok((a, n1)) = A::parse(s) {
            <(B, C, D)>::lemma_parse_encodable(s.skip(n1 as int));
        }
    }

    fn to_bytes(self, w: &mut Vec<u8>) -> (written: usize) {
        let (a, b, c, d) = self;
        let start = w.len();
        a.to_bytes(w);
        (b, c, d).to_bytes(w);
        assert(w@ =~= old(w)@ + Self::encode((a.model(), b.model(), c.model(), d.model())));
        w.len() - start
    }

    fn from_bytes(buffer: &[u8], pos: usize) -> (r: Result<(Self, usize), DecodeError>) {
        let ghost s = buffer@.skip(pos as int);
        let total = buffer.len();
        let (a, n1) = A::from_bytes(buffer, pos)?;
        proof {
            A::lemma_parse_len(s);
        }
        assert(buffer@.skip((pos + n1) as int) =~= s.skip(n1 as int));
        let ((b, c, d), n2) = <(B, C, D)>::from_bytes(buffer, pos + n1)?;
        proof {
            <(B, C, D)>::lemma_parse_len(s.skip(n1 as int));
        }
        Ok(((a, b, c, d), n1 + n2))
    }
}

// A quintuple is written as its first component, then the quadruple of the others.
impl<
    A: SerializeProof,
    B: SerializeProof,
    C: SerializeProof,
    D: SerializeProof,
    E: SerializeProof,
> SerializeProof for (A, B, C, D, E) {
    type Model = (A::Model, B::Model, C::Model, D::Model, E::Model);

    open spec fn model(&self) -> (A::Model, B::Model, C::Model, D::Model, E::Model) {
        (self.0.model(), self.1.model(), self.2.model(), self.3.model(), self.4.model())
    }

    open spec fn encodable(m: (A::Model, B::Model, C::Model, D::Model, E::Model)) -> bool {
        A::encodable(m.0) && <(B, C, D, E)>::encodable((m.1, m.2, m.3, m.4))
    }

    open spec fn encode(m: (A::Model, B::Model, C::Model, D::Model, E::Model)) -> Seq<u8> {
        A::encode(m.0) + <(B, C, D, E)>::encode((m.1, m.2, m.3, m.4))
    }

    open spec fn parse(s: Seq<u8>) -> Result<
        ((A::Model, B::Model, C::Model, D::Model, E::Model), nat),
        DecodeError,
    > {
        match A::parse(s) {
            Ok((a, n1)) => match <(B, C, D, E)>::parse(s.skip(n1 as int)) {
                Ok((r, n2)) => Ok(((a, r.0, r.1, r.2, r.3), n1 + n2)),
                Err(e) => Err(e),
            },
            Err(e) => Err(e),
        }
    }

    proof fn lemma_parse_encode(
        m: (A::Model, B::Model, C::Model, D::Model, E::Model),
        rest: Seq<u8>,
    ) {
        let ea = A::encode(m.0);
        let eb = <(B, C, D, E)>::encode((m.1, m.2, m.3, m.4));
        assert(ea + eb + rest =~= ea + (eb + rest));
        A::lemma_parse_encode(m.0, eb + rest);
        assert((ea + (eb + rest)).skip(ea.len() as int) =~= eb + rest);
        <(B, C, D, E)>::lemma_parse_encode((m.1, m.2, m.3, m.4), rest);
    }

    proof fn lemma_parse_len(s: Seq<u8>) {
        A::lemma_parse_len(s);
        if let Ok((a, n1)) = A::parse(s) {
            <(B, C, D, E)>::lemma_parse_len(s.skip(n1 as int));
        }
    }

    proof fn lemma_parse_encodable(s: Seq<u8>) {
        A::lemma_parse_encodable(s);
        if let Ok((a, n1)) = A::parse(s) {
            <(B, C, D, E)>::lemma_parse_encodable(s.skip(n1 as int));
        }
    }

    fn to_bytes(self, w: &mut Vec<u8>) -> (written: usize) {
        let (a, b, c, d, e) = self;
        let start = w.len();
        a.to_bytes(w);
        (b, c, d, e).to_bytes(w);
        assert(w@ =~= old(w)@ + Self::encode(
            (a.model(), b.model(), c.model(), d.model(), e.model()),
        ));
        w.len() - start
    }

    fn from_bytes(buffer: &[u8], pos: usize) -> (r: Result<(Self, usize), DecodeError>) {
        let ghost s = buffer@.skip(pos as int);
        let total = buffer.len();
        let (a, n1) = A::from_bytes(buffer, pos)?;
        proof {
            A::lemma_parse_len(s);
        }
        assert(buffer@.skip((pos + n1) as int) =~= s.skip(n1 as int));
        let ((b, c, d, e), n2) = <(B, C, D, E)>::from_bytes(buffer, pos + n1)?;
        proof {
            <(B, C, D, E)>::lemma_parse_len(s.skip(n1 as int));
        }
        Ok(((a, b, c, d, e), n1 + n2))
    }
}

} // verus!
