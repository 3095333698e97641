//! Wire encoding of data-row fields: each field is a four-byte
//! big-endian length followed by the value bytes, and a SQL NULL is
//! the length marker `0xffff_ffff` with no bytes — never a zero-length
//! value. A decoder models the reference client reading the fields
//! back.

use vstd::prelude::*;
use crate::results::HandlerError;

verus! {

/// The length marker that encodes SQL NULL.
pub const NULL_MARKER: u32 = 0xffff_ffffu32;

/// The largest encodable value length: wire lengths are signed 32-bit.
pub const MAX_FIELD_LEN: u32 = 0x7fff_ffffu32;

/// Big-endian bytes of a 32-bit length word.
pub open spec fn spec_be32(n: u32) -> Seq<u8> {
    seq![(n >> 24u32) as u8, (n >> 16u32) as u8, (n >> 8u32) as u8, n as u8]
}

/// The length word at the front of `data`.
pub open spec fn spec_read_be32(data: Seq<u8>) -> u32
    recommends
        data.len() >= 4,
{
    ((data[0] as u32) << 24u32) | ((data[1] as u32) << 16u32) | ((data[2] as u32) << 8u32) | (
    data[3] as u32)
}

/// A field fits the wire format when it is NULL or short enough for a
/// signed 32-bit length.
pub open spec fn field_encodable(v: Option<Seq<u8>>) -> bool {
    match v {
        Some(b) => b.len() <= MAX_FIELD_LEN,
        None => true,
    }
}

/// Wire bytes of one field: the NULL marker alone, or the value's
/// length followed by its bytes.
pub open spec fn spec_encode_field(v: Option<Seq<u8>>) -> Seq<u8> {
    match v {
        None => spec_be32(NULL_MARKER),
        Some(b) => spec_be32(b.len() as u32) + b,
    }
}

/// Wire bytes of a row's fields, in order.
pub open spec fn spec_encode_fields(fs: Seq<Option<Seq<u8>>>) -> Seq<u8>
    decreases fs.len(),
{
    if fs.len() == 0 {
        Seq::empty()
    } else {
        spec_encode_field(fs[0]) + spec_encode_fields(fs.drop_first())
    }
}

/// What the reference client reads for one field: the decoded value
/// and the bytes left over, or nothing when the data is malformed.
pub open spec fn spec_decode_field(data: Seq<u8>) -> Option<(Option<Seq<u8>>, Seq<u8>)> {
    if data.len() < 4 {
        None
    } else {
        let len = spec_read_be32(data);
        if len == NULL_MARKER {
            Some((None, data.skip(4)))
        } else if len > MAX_FIELD_LEN {
            None
        } else if data.len() < 4 + len {
            None
        } else {
            Some((Some(data.subrange(4, 4 + len as int)), data.skip(4 + len as int)))
        }
    }
}

/// What the reference client reads for `n` fields in sequence.
pub open spec fn spec_decode_fields(data: Seq<u8>, n: nat) -> Option<
    (Seq<Option<Seq<u8>>>, Seq<u8>),
>
    decreases n,
{
    if n == 0 {
        Some((Seq::empty(), data))
    } else {
        match spec_decode_field(data) {
            None => None,
            Some((v, rest)) => match spec_decode_fields(rest, (n - 1) as nat) {
                None => None,
                Some((vs, rest2)) => Some((seq![v] + vs, rest2)),
            },
        }
    }
}

proof fn lemma_be32_roundtrip(n: u32)
    ensures
        spec_read_be32(spec_be32(n)) == n,
{
    assert((((n >> 24u32) as u8 as u32) << 24u32) | (((n >> 16u32) as u8 as u32) << 16u32) | (((n
        >> 8u32) as u8 as u32) << 8u32) | (n as u8 as u32) == n) by (bit_vector);
}

proof fn lemma_be32_roundtrip_concat(n: u32, rest: Seq<u8>)
    ensures
        spec_read_be32(spec_be32(n) + rest) == n,
{
    lemma_be32_roundtrip(n);
    assert(spec_read_be32(spec_be32(n) + rest) == spec_read_be32(spec_be32(n)));
}

/// Decoding one encoded field from the front of a stream returns the
/// field unchanged and leaves exactly the trailing bytes.
pub proof fn lemma_field_roundtrip(v: Option<Seq<u8>>, rest: Seq<u8>)
    requires
        field_encodable(v),
    ensures
        spec_decode_field(spec_encode_field(v) + rest) == Some((v, rest)),
{
    let data = spec_encode_field(v) + rest;
    match v {
        None => {
            lemma_be32_roundtrip_concat(NULL_MARKER, rest);
            assert(data.skip(4) =~= rest);
        },
        Some(b) => {
            assert(spec_encode_field(v) =~= spec_be32(b.len() as u32) + b);
            assert(data =~= spec_be32(b.len() as u32) + (b + rest));
            lemma_be32_roundtrip_concat(b.len() as u32, b + rest);
            assert(b.len() as u32 != NULL_MARKER && b.len() as u32 <= MAX_FIELD_LEN) by {
                assert(b.len() <= MAX_FIELD_LEN);
            }
            assert(data.subrange(4, 4 + b.len() as int) =~= b);
            assert(data.skip(4 + b.len() as int) =~= rest);
        },
    }
}

/// Law of the row round trip: the reference client decodes an encoded
/// row to exactly the fields that were encoded — a NULL field comes
/// back as NULL, never as a zero-length or placeholder value — with no
/// bytes left over beyond what followed the row.
pub proof fn lemma_fields_roundtrip(fs: Seq<Option<Seq<u8>>>, rest: Seq<u8>)
    requires
        forall|i: int| 0 <= i < fs.len() ==> field_encodable(#[trigger] fs[i]),
    ensures
        spec_decode_fields(spec_encode_fields(fs) + rest, fs.len()) == Some((fs, rest)),
    decreases fs.len(),
{
    if fs.len() == 0 {
        assert(spec_encode_fields(fs) + rest =~= rest);
    } else {
        let head = fs[0];
        let tail = fs.drop_first();
        assert((spec_encode_field(head) + spec_encode_fields(tail)) + rest =~= spec_encode_field(
            head,
        ) + (spec_encode_fields(tail) + rest));
        lemma_field_roundtrip(head, spec_encode_fields(tail) + rest);
        assert(forall|i: int| 0 <= i < tail.len() ==> field_encodable(#[trigger] tail[i]));
        lemma_fields_roundtrip(tail, rest);
        assert(seq![head] + tail =~= fs);
    }
}

/// Accumulates the wire bytes of one data row, field by field.
pub struct DataRowEncoder {
    buf: Vec<u8>,
    fields: Ghost<Seq<Option<Seq<u8>>>>,
}

impl DataRowEncoder {
    /// The fields encoded so far.
    pub closed spec fn spec_fields(&self) -> Seq<Option<Seq<u8>>> {
        self.fields@
    }

    /// The buffer holds exactly the encoding of the fields so far.
    pub closed spec fn wf(&self) -> bool {
        self.buf@ == spec_encode_fields(self.fields@)
    }

    /// An encoder with no fields yet.
    pub fn new() -> (r: DataRowEncoder)
        ensures
            r.wf(),
            r.spec_fields() == Seq::<Option<Seq<u8>>>::empty(),
    {
        let r = DataRowEncoder { buf: Vec::new(), fields: Ghost(Seq::empty()) };
        proof {
            assert(r.buf@ =~= spec_encode_fields(Seq::empty()));
        }
        r
    }

    /// Append one field. A value too long for a signed 32-bit length
    /// cannot be represented on the wire: that is an encoding error,
    /// reported as such and never a silent NULL, and the encoder is
    /// left unchanged.
    pub fn encode_field(&mut self, v: &Option<Vec<u8>>) -> (r: Result<(), HandlerError>)
        requires
            old(self).wf(),
        ensures
            final(self).wf(),
            match r {
                Ok(_) => field_encodable(v.deep_view()) && final(self).spec_fields() == old(
                    self,
                ).spec_fields().push(v.deep_view()),
                Err(e) => !field_encodable(v.deep_view()) && *final(self) == *old(self) && e@
                    == crate::results::HandlerErrorV::Encoding("value too long for wire format"@),
            },
    {
        let ghost pre_buf = self.buf@;
        let ghost pre_fields = self.fields@;
        match v {
            None => {
                self.push_be32(NULL_MARKER);
                proof {
                    self.fields@ = pre_fields.push(None);
                    assert(self.buf@ =~= pre_buf + spec_encode_field(None));
                    lemma_encode_fields_push(pre_fields, None);
                }
                Ok(())
            },
            Some(b) => {
                proof {
                    assert(b.deep_view() =~= b@);
                    assert(v.deep_view() == Some(b.deep_view()));
                }
                if b.len() > MAX_FIELD_LEN as usize {
                    return Err(
                        HandlerError::Encoding("value too long for wire format".to_owned()),
                    );
                }
                self.push_be32(b.len() as u32);
                let mut i: usize = 0;
                while i < b.len()
                    invariant
                        0 <= i <= b@.len(),
                        self.buf@ =~= pre_buf + spec_be32(b@.len() as u32) + b@.take(i as int),
                        self.fields@ == pre_fields,
                    decreases b@.len() - i,
                {
                    self.buf.push(b[i]);
                    proof {
                        assert(self.buf@ =~= pre_buf + spec_be32(b@.len() as u32) + b@.take(
                            i as int + 1,
                        ));
                    }
                    i += 1;
                }
                proof {
                    self.fields@ = pre_fields.push(Some(b@));
                    assert(b@.take(b@.len() as int) =~= b@);
                    assert(self.buf@ =~= pre_buf + spec_encode_field(Some(b@)));
                    lemma_encode_fields_push(pre_fields, Some(b@));
                }
                Ok(())
            },
        }
    }

    /// Append the four big-endian bytes of one length word.
    fn push_be32(&mut self, n: u32)
        ensures
            final(self).buf@ == old(self).buf@ + spec_be32(n),
            final(self).fields == old(self).fields,
    {
        let ghost pre = self.buf@;
        self.buf.push((n >> 24u32) as u8);
        self.buf.push((n >> 16u32) as u8);
        self.buf.push((n >> 8u32) as u8);
        self.buf.push(n as u8);
        proof {
            assert(self.buf@ =~= pre + spec_be32(n));
        }
    }

    /// The finished wire bytes of the row.
    pub fn finish(self) -> (r: Vec<u8>)
        requires
            self.wf(),
        ensures
            r@ == spec_encode_fields(self.spec_fields()),
    {
        self.buf
    }
}

proof fn lemma_encode_fields_push(fs: Seq<Option<Seq<u8>>>, v: Option<Seq<u8>>)
    ensures
        spec_encode_fields(fs.push(v)) == spec_encode_fields(fs) + spec_encode_field(v),
    decreases fs.len(),
{
    if fs.len() == 0 {
        assert(fs.push(v) =~= seq![v]);
        assert(seq![v].drop_first() =~= Seq::<Option<Seq<u8>>>::empty());
        assert(seq![v][0] == v);
        assert(spec_encode_fields(Seq::<Option<Seq<u8>>>::empty()) =~= Seq::<u8>::empty());
        assert(spec_encode_fields(fs.push(v)) =~= spec_encode_field(v));
        assert(spec_encode_fields(fs) + spec_encode_field(v) =~= spec_encode_field(v));
    } else {
        assert(fs.push(v)[0] == fs[0]);
        assert(fs.push(v).drop_first() =~= fs.drop_first().push(v));
        lemma_encode_fields_push(fs.drop_first(), v);
        assert(spec_encode_field(fs[0]) + (spec_encode_fields(fs.drop_first())
            + spec_encode_field(v)) =~= (spec_encode_field(fs[0]) + spec_encode_fields(
            fs.drop_first(),
        )) + spec_encode_field(v));
    }
}

/// The reference client's field decoder: read one length word and the
/// value bytes it announces, starting at `pos`; the NULL marker yields
/// a NULL value and no bytes.
pub fn decode_field(data: &Vec<u8>, pos: usize) -> (r: Option<(Option<Vec<u8>>, usize)>)
    requires
        pos <= data@.len(),
    ensures
        match r {
            Some(p) => spec_decode_field(data@.skip(pos as int)) matches Some(q) && q.0
                == p.0.deep_view() && q.1 == data@.skip(p.1 as int) && pos < p.1 <= data@.len(),
            None => spec_decode_field(data@.skip(pos as int)) is None,
        },
{
    let ghost tail = data@.skip(pos as int);
    if data.len() - pos < 4 {
        return None;
    }
    let len: u32 = ((data[pos] as u32) << 24u32) | ((data[pos + 1] as u32) << 16u32) | ((data[pos
        + 2] as u32) << 8u32) | (data[pos + 3] as u32);
    proof {
        assert(tail[0] == data@[pos as int]);
        assert(tail[1] == data@[pos as int + 1]);
        assert(tail[2] == data@[pos as int + 2]);
        assert(tail[3] == data@[pos as int + 3]);
        assert(len == spec_read_be32(tail));
    }
    if len == NULL_MARKER {
        proof {
            assert(tail.skip(4) =~= data@.skip(pos as int + 4));
        }
        return Some((None, pos + 4));
    }
    if len > MAX_FIELD_LEN {
        return None;
    }
    let len_us = len as usize;
    if data.len() - pos - 4 < len_us {
        proof {
            assert(tail.len() < 4 + len);
        }
        return None;
    }
    let start = pos + 4;
    let mut out: Vec<u8> = Vec::new();
    let mut i: usize = 0;
    while i < len_us
        invariant
            data@.len() <= usize::MAX as int,
            start as int + len_us as int <= data@.len(),
            0 <= i <= len_us,
            out@ =~= data@.subrange(start as int, start as int + i as int),
        decreases len_us - i,
    {
        out.push(data[start + i]);
        proof {
            assert(out@ =~= data@.subrange(start as int, start as int + i as int + 1));
        }
        i += 1;
    }
    proof {
        assert(tail.len() >= 4 + len);
        assert(tail.subrange(4, 4 + len as int) =~= data@.subrange(
            start as int,
            start as int + len as int,
        ));
        assert(tail.skip(4 + len as int) =~= data@.skip(start as int + len as int));
    }
    Some((Some(out), start + len_us))
}

} // verus!
