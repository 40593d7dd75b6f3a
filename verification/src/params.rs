//! Parameter encoder: serializes a name/value mapping into the
//! length-prefixed pair format of the params stream, with the short
//! (1-byte) and long (4-byte, high bit set) length forms.

use vstd::prelude::*;

use crate::meta::{u32_be, be32, MAX_LENGTH, Header, RequestType, header_matches, record_bytes};

verus! {

/// Lengths at or above this bound use the long, 4-byte form.
pub const SHORT_LIMIT: usize = 128;

/// Lengths must fit in 31 bits; the high bit of the long form is a tag.
pub const LONG_LIMIT: usize = 0x8000_0000;

/// Wire bytes of one length prefix: one byte below 128, otherwise four
/// big-endian bytes whose top bit is forced on.
pub open spec fn length_bytes(n: int) -> Seq<u8>
    recommends
        0 <= n < LONG_LIMIT,
{
    if n < 128 {
        seq![n as u8]
    } else {
        u32_be((n + 0x8000_0000) as u32)
    }
}

/// Length decoding as a mathematical function of the leading bytes: the
/// magnitude and how many bytes the prefix took, or nothing if the bytes
/// run out before the prefix is complete.
pub open spec fn decode_length_spec(bytes: Seq<u8>) -> Option<(int, int)> {
    if bytes.len() == 0 {
        None
    } else if bytes[0] < 128 {
        Some((bytes[0] as int, 1))
    } else if bytes.len() < 4 {
        None
    } else {
        Some((be32(bytes[0], bytes[1], bytes[2], bytes[3]) - 0x8000_0000, 4))
    }
}

/// A length prefix as the record codec writes it.
#[derive(Debug, Clone, Copy, PartialEq, Eq, Structural)]
pub enum ParamLength {
    Short(u8),
    Long(u32),
}

impl ParamLength {
    /// The prefix `new` picks for a length: short below 128, else long
    /// with the high bit set.
    pub open spec fn spec_new(n: int) -> ParamLength {
        if n < 128 {
            ParamLength::Short(n as u8)
        } else {
            ParamLength::Long((n + 0x8000_0000) as u32)
        }
    }

    /// Wire bytes of this prefix.
    pub open spec fn spec_content(self) -> Seq<u8> {
        match self {
            ParamLength::Short(l) => seq![l],
            ParamLength::Long(l) => u32_be(l),
        }
    }

    pub fn new(length: usize) -> (r: ParamLength)
        requires
            length < LONG_LIMIT,
        ensures
            r == ParamLength::spec_new(length as int),
    {
        if length < SHORT_LIMIT {
            ParamLength::Short(length as u8)
        } else {
            ParamLength::Long(length as u32 + 0x8000_0000)
        }
    }

    pub fn content(self) -> (r: Vec<u8>)
        ensures
            r@ == self.spec_content(),
    {
        let mut buf: Vec<u8> = Vec::new();
        match self {
            ParamLength::Short(l) => {
                buf.push(l);
            },
            ParamLength::Long(l) => {
                crate::meta::push_u32_be(&mut buf, l);
            },
        }
        proof {
            assert(buf@ =~= self.spec_content());
        }
        buf
    }
}

/// The prefix chosen for a length spells exactly that length's wire bytes.
pub proof fn lemma_length_content(n: int)
    requires
        0 <= n < LONG_LIMIT,
    ensures
        ParamLength::spec_new(n).spec_content() == length_bytes(n),
{
    if n < 128 {
        assert(ParamLength::spec_new(n).spec_content() =~= length_bytes(n));
    } else {
        assert(ParamLength::spec_new(n).spec_content() =~= length_bytes(n));
    }
}

/// Decodes a length prefix from the front of a byte slice: the magnitude
/// and how many bytes the prefix took.
pub fn decode_length(bytes: &[u8]) -> (r: Option<(u32, usize)>)
    ensures
        match decode_length_spec(bytes@) {
            Some(d) => r is Some && (r->0).0 == d.0 && (r->0).1 == d.1,
            None => r is None,
        },
{
    if bytes.len() == 0 {
        return None;
    }
    let b0 = *vstd::slice::slice_index_get(bytes, 0);
    if b0 < 128 {
        Some((b0 as u32, 1))
    } else if bytes.len() < 4 {
        None
    } else {
        let b1 = *vstd::slice::slice_index_get(bytes, 1);
        let b2 = *vstd::slice::slice_index_get(bytes, 2);
        let b3 = *vstd::slice::slice_index_get(bytes, 3);
        let v: u32 = (b0 as u32) * 0x1000000 + (b1 as u32) * 0x10000 + (b2 as u32) * 256
            + (b3 as u32);
        Some((v - 0x8000_0000, 4))
    }
}

/// Every length below the 31-bit bound encodes and decodes back to
/// itself, whatever bytes follow the prefix; the short form takes one
/// byte, the long form four.
pub proof fn lemma_length_roundtrip(n: int, tail: Seq<u8>)
    requires
        0 <= n < LONG_LIMIT,
    ensures
        n < 128 ==> length_bytes(n).len() == 1,
        n >= 128 ==> length_bytes(n).len() == 4,
        decode_length_spec(length_bytes(n) + tail) == Some((n, length_bytes(n).len() as int)),
{
    let enc = length_bytes(n) + tail;
    if n < 128 {
        assert(enc[0] == n as u8);
    } else {
        let v = (n + 0x8000_0000) as u32;
        let b0 = (v / 0x1000000) as u8;
        let b1 = ((v / 0x10000) % 256) as u8;
        let b2 = ((v / 256) % 256) as u8;
        let b3 = (v % 256) as u8;
        assert(enc[0] == b0 && enc[1] == b1 && enc[2] == b2 && enc[3] == b3);
        assert(v >= 0x8000_0000);
        assert(v / 0x1000000 >= 0x80) by (nonlinear_arith)
            requires v >= 0x8000_0000 && v <= 0xffff_ffff;
        lemma_u32_be_roundtrip(v);
        assert(be32(b0, b1, b2, b3) == v);
    }
}

/// Splitting a 32-bit value into its four big-endian digits and reading
/// them back yields the value.
pub proof fn lemma_u32_be_roundtrip(v: u32)
    ensures
        be32(
            (v / 0x1000000) as u8,
            ((v / 0x10000) % 256) as u8,
            ((v / 256) % 256) as u8,
            (v % 256) as u8,
        ) == v,
{
    let x = v as int;
    assert((x / 0x1000000) * 0x1000000 + ((x / 0x10000) % 256) * 0x10000 + ((x / 256) % 256) * 256
        + x % 256 == x) by (nonlinear_arith)
        requires 0 <= x <= 0xffff_ffff;
}

/// One name/value pair with its two length prefixes.
#[derive(Debug, Clone)]
pub struct ParamPair {
    pub name_length: ParamLength,
    pub value_length: ParamLength,
    pub name_data: Vec<u8>,
    pub value_data: Vec<u8>,
}

/// Wire bytes of one pair: both length prefixes, then the name bytes,
/// then the value bytes.
pub open spec fn param_pair_bytes(name: Seq<u8>, value: Seq<u8>) -> Seq<u8> {
    length_bytes(name.len() as int) + length_bytes(value.len() as int) + name + value
}

impl ParamPair {
    /// The prefixes stored in a pair agree with its data.
    pub open spec fn wf(self) -> bool {
        &&& self.name_data@.len() < LONG_LIMIT
        &&& self.value_data@.len() < LONG_LIMIT
        &&& self.name_length == ParamLength::spec_new(self.name_data@.len() as int)
        &&& self.value_length == ParamLength::spec_new(self.value_data@.len() as int)
    }

    pub fn new(name: Vec<u8>, value: Vec<u8>) -> (r: ParamPair)
        requires
            name@.len() < LONG_LIMIT,
            value@.len() < LONG_LIMIT,
        ensures
            r.wf(),
            r.name_data@ == name@,
            r.value_data@ == value@,
    {
        let name_length = ParamLength::new(name.len());
        let value_length = ParamLength::new(value.len());
        ParamPair { name_length, value_length, name_data: name, value_data: value }
    }

    /// Appends this pair's wire bytes.
    pub fn write_to_stream(&self, sink: &mut Vec<u8>)
        requires
            self.wf(),
        ensures
            final(sink)@ == old(sink)@ + param_pair_bytes(self.name_data@, self.value_data@),
    {
        let name_prefix = self.name_length.content();
        let value_prefix = self.value_length.content();
        crate::meta::push_bytes(sink, name_prefix.as_slice());
        crate::meta::push_bytes(sink, value_prefix.as_slice());
        crate::meta::push_bytes(sink, self.name_data.as_slice());
        crate::meta::push_bytes(sink, self.value_data.as_slice());
        proof {
            lemma_length_content(self.name_data@.len() as int);
            lemma_length_content(self.value_data@.len() as int);
            assert(sink@ =~= old(sink)@
                + param_pair_bytes(self.name_data@, self.value_data@));
        }
    }
}

/// A name/value parameter mapping in caller-supplied order.
#[derive(Debug, Clone)]
pub struct Params {
    pub pairs: Vec<ParamPair>,
}

impl Params {
    /// The mapping as a sequence of name/value byte strings.
    pub open spec fn view_pairs(self) -> Seq<(Seq<u8>, Seq<u8>)> {
        self.pairs@.map_values(|p: ParamPair| (p.name_data@, p.value_data@))
    }

    pub open spec fn wf(self) -> bool {
        forall|i: int| 0 <= i < self.pairs@.len() ==> (#[trigger] self.pairs@[i]).wf()
    }

    pub fn new() -> (r: Params)
        ensures
            r.wf(),
            r.view_pairs() == Seq::<(Seq<u8>, Seq<u8>)>::empty(),
    {
        let r = Params { pairs: Vec::new() };
        proof {
            assert(r.view_pairs() =~= Seq::<(Seq<u8>, Seq<u8>)>::empty());
        }
        r
    }

    /// Appends one pair; earlier pairs keep their places, so the wire
    /// order is the insertion order.
    pub fn insert(&mut self, name: Vec<u8>, value: Vec<u8>)
        requires
            old(self).wf(),
            name@.len() < LONG_LIMIT,
            value@.len() < LONG_LIMIT,
        ensures
            final(self).wf(),
            final(self).view_pairs() == old(self).view_pairs().push((name@, value@)),
    {
        let pair = ParamPair::new(name, value);
        self.pairs.push(pair);
        proof {
            assert(self.view_pairs() =~= old(self).view_pairs().push(
                (self.pairs@.last().name_data@, self.pairs@.last().value_data@),
            ));
        }
    }

    pub fn len(&self) -> (n: usize)
        ensures
            n == self.view_pairs().len(),
    {
        self.pairs.len()
    }
}

/// Wire bytes of a whole mapping: each pair's bytes in order.
pub open spec fn params_bytes(pairs: Seq<(Seq<u8>, Seq<u8>)>) -> Seq<u8>
    decreases pairs.len(),
{
    if pairs.len() == 0 {
        Seq::empty()
    } else {
        param_pair_bytes(pairs[0].0, pairs[0].1) + params_bytes(pairs.drop_first())
    }
}

/// Appending one pair to a mapping appends that pair's bytes to the
/// mapping's bytes.
pub proof fn lemma_params_bytes_push(pairs: Seq<(Seq<u8>, Seq<u8>)>, p: (Seq<u8>, Seq<u8>))
    ensures
        params_bytes(pairs.push(p)) == params_bytes(pairs) + param_pair_bytes(p.0, p.1),
    decreases pairs.len(),
{
    if pairs.len() == 0 {
        assert(pairs.push(p).drop_first() =~= pairs);
        assert(params_bytes(pairs.push(p)) =~= params_bytes(pairs) + param_pair_bytes(p.0, p.1));
    } else {
        assert(pairs.push(p).drop_first() =~= pairs.drop_first().push(p));
        lemma_params_bytes_push(pairs.drop_first(), p);
        assert(params_bytes(pairs.push(p)) =~= params_bytes(pairs) + param_pair_bytes(p.0, p.1));
    }
}

/// Serializes a whole mapping into the payload of the params stream,
/// pair by pair in the caller-supplied order.
pub fn encode_params(params: &Params) -> (r: Vec<u8>)
    requires
        params.wf(),
    ensures
        r@ == params_bytes(params.view_pairs()),
{
    let mut buf: Vec<u8> = Vec::new();
    let mut i: usize = 0;
    let n = params.pairs.len();
    while i < n
        invariant
            n == params.pairs@.len(),
            i <= n,
            params.wf(),
            buf@ == params_bytes(params.view_pairs().take(i as int)),
        decreases n - i,
    {
        let ghost prefix = params.view_pairs().take(i as int);
        let ghost p = params.view_pairs()[i as int];
        params.pairs[i].write_to_stream(&mut buf);
        proof {
            lemma_params_bytes_push(prefix, p);
            assert(params.view_pairs().take(i as int + 1) =~= prefix.push(p));
        }
        i = i + 1;
    }
    proof {
        assert(params.view_pairs().take(n as int) =~= params.view_pairs());
    }
    buf
}

/// A single params record: header plus the encoded pairs, for mappings
/// whose whole encoding fits in one record.
#[derive(Debug)]
pub struct ParamsRec {
    pub header: Header,
    pub param_pairs: Vec<ParamPair>,
    pub content: Vec<u8>,
}

impl ParamsRec {
    /// Builds one params record. A single record is capped at the maximum
    /// payload size; longer encodings go through the stream writer.
    pub fn new(request_id: u16, params: &Params) -> (r: ParamsRec)
        requires
            params.wf(),
            params_bytes(params.view_pairs()).len() <= MAX_LENGTH,
        ensures
            r.content@ == params_bytes(params.view_pairs()),
            header_matches(r.header, r.content@),
            r.header.record_type == RequestType::Params,
            r.header.request_id == request_id,
            r.param_pairs@.len() == params.pairs@.len(),
            forall|i: int| 0 <= i < r.param_pairs@.len()
                ==> (#[trigger] r.param_pairs@[i]).name_data@ == params.pairs@[i].name_data@
                    && r.param_pairs@[i].value_data@ == params.pairs@[i].value_data@,
    {
        let content = encode_params(params);
        let header = Header::new(RequestType::Params, request_id, content.as_slice());
        let mut param_pairs: Vec<ParamPair> = Vec::new();
        let mut i: usize = 0;
        let n = params.pairs.len();
        while i < n
            invariant
                n == params.pairs@.len(),
                i <= n,
                params.wf(),
                param_pairs@.len() == i,
                forall|j: int| 0 <= j < i
                    ==> (#[trigger] param_pairs@[j]).name_data@ == params.pairs@[j].name_data@
                        && param_pairs@[j].value_data@ == params.pairs@[j].value_data@,
            decreases n - i,
        {
            let p = &params.pairs[i];
            let pair = ParamPair::new(
                copy_bytes(&p.name_data),
                copy_bytes(&p.value_data),
            );
            param_pairs.push(pair);
            i = i + 1;
        }
        ParamsRec { header, param_pairs, content }
    }

    /// Writes the whole params record.
    pub fn write_to_stream(self, sink: &mut Vec<u8>)
        requires
            header_matches(self.header, self.content@),
        ensures
            final(sink)@ == old(sink)@
                + record_bytes(self.header.record_type, self.header.request_id, self.content@),
    {
        let content = self.content;
        self.header.write_to_stream(sink, content.as_slice());
    }
}

/// A fresh vector with the same bytes.
pub fn copy_bytes(v: &Vec<u8>) -> (r: Vec<u8>)
    ensures
        r@ == v@,
{
    let mut r: Vec<u8> = Vec::new();
    crate::meta::push_bytes(&mut r, v.as_slice());
    proof {
        assert(r@ =~= v@);
    }
    r
}

} // verus!
