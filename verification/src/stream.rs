//! Stream types and stream identifiers.
//!
//! A [`StreamId`] numbers a stream within its connection; its two lowest
//! bits tell who opened the stream and which way its data flows. A
//! [`StreamType`] is the first integer sent on a unidirectional stream and
//! names the role of that stream. Both travel as variable-length integers.

use crate::buffer::{bytes_mut_view, bytes_view};
use crate::decimal::{decimal, to_decimal};
use crate::varint::{
    decoding, encoded_len, encoding, lemma_decode_encode, read_varint, write_varint,
    UnexpectedEnd, VarIntBoundsExceeded, MAX_SIZE, MAX_VALUE,
};
use bytes::{Bytes, BytesMut};
use std::cmp::Ordering;
use vstd::prelude::*;
use vstd::std_specs::cmp::PartialOrdSpec;
use vstd::std_specs::convert::FromSpec;
use vstd::string::StringExecFns;

verus! {

/// The role of a unidirectional stream, sent as the first integer on it.
///
/// Four codes are named; any other code that the wire format can carry is a
/// valid type of some extension and is kept as it is.
#[derive(Debug, PartialEq, Eq, Structural)]
pub struct StreamType {
    code: u64,
}

impl View for StreamType {
    type V = u64;

    closed spec fn view(&self) -> u64 {
        self.code
    }
}

impl Clone for StreamType {
    fn clone(&self) -> (ty: StreamType)
        ensures
            ty == *self,
    {
        proof {
            use_type_invariant(self);
        }
        StreamType { code: self.code }
    }
}

impl StreamType {
    /// The stream of the connection's control frames.
    pub fn control() -> (ty: StreamType)
        ensures
            ty@ == 0x00,
    {
        StreamType { code: 0x00 }
    }

    /// A stream that carries a pushed response.
    pub fn push() -> (ty: StreamType)
        ensures
            ty@ == 0x01,
    {
        StreamType { code: 0x01 }
    }

    /// The stream of the header compression's encoder instructions.
    pub fn encoder() -> (ty: StreamType)
        ensures
            ty@ == 0x02,
    {
        StreamType { code: 0x02 }
    }

    /// The stream of the header compression's decoder instructions.
    pub fn decoder() -> (ty: StreamType)
        ensures
            ty@ == 0x03,
    {
        StreamType { code: 0x03 }
    }

    /// The most bytes that an encoded stream type takes.
    pub const MAX_ENCODED_SIZE: usize = MAX_SIZE;

    /// Every stream type is a code that the wire format can carry.
    #[verifier::type_invariant]
    closed spec fn representable(self) -> bool {
        self.code <= MAX_VALUE
    }

    /// The code of this type.
    pub fn value(&self) -> (v: u64)
        ensures
            v == self@,
            v <= MAX_VALUE,
    {
        proof {
            use_type_invariant(self);
        }
        self.code
    }

    /// Takes a stream type off the front of `buf`.
    ///
    /// Where `buf` ends before the integer does, nothing is taken and the
    /// buffer stays as it was.
    pub fn decode(buf: &mut Bytes) -> (r: Result<StreamType, UnexpectedEnd>)
        ensures
            match decoding(bytes_view(*old(buf))) {
                Some((v, n)) => {
                    &&& r matches Ok(ty)
                    &&& ty@ == v
                    &&& bytes_view(*final(buf)) == bytes_view(*old(buf)).skip(n as int)
                },
                None => r == Err::<StreamType, UnexpectedEnd>(UnexpectedEnd) && *final(buf)
                    == *old(buf),
            },
    {
        match read_varint(buf) {
            Ok(v) => Ok(StreamType { code: v }),
            Err(e) => Err(e),
        }
    }

    /// Appends the encoding of this type to `buf`.
    pub fn encode(&self, buf: &mut BytesMut)
        requires
            bytes_mut_view(*old(buf)).len() + encoded_len(self@) <= isize::MAX,
        ensures
            bytes_mut_view(*final(buf)) == bytes_mut_view(*old(buf)) + encoding(self@),
    {
        proof {
            use_type_invariant(self);
        }
        let _ = write_varint(buf, self.code);
    }

    /// The name of a code in text: three of the four named codes have a
    /// name of their own, every other code is shown as a number.
    pub open spec fn rendering(code: u64) -> Seq<char> {
        if code == 0x00 {
            "Control"@
        } else if code == 0x02 {
            "Encoder"@
        } else if code == 0x03 {
            "Decoder"@
        } else {
            "StreamType("@ + decimal(code as nat) + ")"@
        }
    }

    /// This type in text.
    pub fn to_string(&self) -> (text: String)
        ensures
            text@ == Self::rendering(self@),
    {
        if self.code == 0x00 {
            String::from_str("Control")
        } else if self.code == 0x02 {
            String::from_str("Encoder")
        } else if self.code == 0x03 {
            String::from_str("Decoder")
        } else {
            let mut text = String::from_str("StreamType(");
            text.append(to_decimal(self.code).as_str());
            text.append(")");
            text
        }
    }
}

/// The end of the connection that opened a stream.
#[derive(Debug, Copy, Clone, Eq, PartialEq, Structural)]
pub enum Side {
    /// The end that opened the connection.
    Client,
    /// The end that accepted the connection.
    Server,
}

/// Which way the data of a stream flows.
#[derive(Debug, Copy, Clone, Eq, PartialEq, Structural)]
pub enum Dir {
    /// Both ends send.
    Bi,
    /// Only the end that opened the stream sends.
    Uni,
}

/// The number of a stream within its connection.
///
/// Bit 0 tells which end opened the stream, bit 1 which way its data flows,
/// and the bits above them count the streams of that kind.
#[derive(Debug, Copy, Clone, Eq, PartialEq, Structural, Ord, Hash)]
pub struct StreamId(u64);

impl View for StreamId {
    type V = u64;

    closed spec fn view(&self) -> u64 {
        self.0
    }
}

/// Any 64-bit value is taken as a stream number; none is refused.
impl From<u64> for StreamId {
    fn from(v: u64) -> (id: StreamId)
        ensures
            id@ == v,
    {
        StreamId(v)
    }
}

impl vstd::std_specs::convert::FromSpecImpl<u64> for StreamId {
    open spec fn obeys_from_spec() -> bool {
        true
    }

    closed spec fn from_spec(v: u64) -> StreamId {
        StreamId(v)
    }
}

/// Stream numbers are compared by their raw values.
impl PartialOrd for StreamId {
    fn partial_cmp(&self, other: &StreamId) -> (r: Option<Ordering>) {
        if self.0 < other.0 {
            Some(Ordering::Less)
        } else if self.0 == other.0 {
            Some(Ordering::Equal)
        } else {
            Some(Ordering::Greater)
        }
    }
}

impl vstd::std_specs::cmp::PartialOrdSpecImpl for StreamId {
    open spec fn obeys_partial_cmp_spec() -> bool {
        true
    }

    open spec fn partial_cmp_spec(&self, other: &StreamId) -> Option<Ordering> {
        if self@ < other@ {
            Some(Ordering::Less)
        } else if self@ == other@ {
            Some(Ordering::Equal)
        } else {
            Some(Ordering::Greater)
        }
    }
}

impl StreamId {
    /// The end that opened a stream of number `raw`.
    pub open spec fn side_of(raw: u64) -> Side {
        if raw & 0x1 == 0 {
            Side::Client
        } else {
            Side::Server
        }
    }

    /// The way the data flows on a stream of number `raw`.
    pub open spec fn dir_of(raw: u64) -> Dir {
        if raw & 0x2 == 0 {
            Dir::Bi
        } else {
            Dir::Uni
        }
    }

    /// Tells streams of the same initiator and direction apart.
    pub fn index(self) -> (i: u64)
        ensures
            i == self@ >> 2,
    {
        self.0 >> 2
    }

    /// Whether the client opened this stream for both ends to send on.
    pub fn is_request(&self) -> (r: bool)
        ensures
            r <==> Self::dir_of(self@) == Dir::Bi && Self::side_of(self@) == Side::Client,
            r <==> self@ & 0x3 == 0,
    {
        let raw = self.0;
        assert((raw & 0x2 == 0 && raw & 0x1 == 0) <==> raw & 0x3 == 0) by (bit_vector);
        self.dir() == Dir::Bi && self.initiator() == Side::Client
    }

    /// Whether the server opened this stream for itself alone to send on.
    pub fn is_push(&self) -> (r: bool)
        ensures
            r <==> Self::dir_of(self@) == Dir::Uni && Self::side_of(self@) == Side::Server,
            r <==> self@ & 0x3 == 0x3,
    {
        let raw = self.0;
        assert((raw & 0x2 != 0 && raw & 0x1 != 0) <==> raw & 0x3 == 0x3) by (bit_vector);
        self.dir() == Dir::Uni && self.initiator() == Side::Server
    }

    /// Which end of the connection opened the stream.
    pub fn initiator(self) -> (side: Side)
        ensures
            side == Self::side_of(self@),
    {
        if self.0 & 0x1 == 0 {
            Side::Client
        } else {
            Side::Server
        }
    }

    /// Which way the data flows.
    pub fn dir(self) -> (dir: Dir)
        ensures
            dir == Self::dir_of(self@),
    {
        if self.0 & 0x2 == 0 {
            Dir::Bi
        } else {
            Dir::Uni
        }
    }

    /// Appends the encoding of this number to `buf`.
    ///
    /// A number above [`MAX_VALUE`] has no encoding: it is refused and the
    /// buffer stays as it was.
    pub fn encode(&self, buf: &mut BytesMut) -> (r: Result<(), VarIntBoundsExceeded>)
        requires
            self@ <= MAX_VALUE ==> bytes_mut_view(*old(buf)).len() + encoded_len(self@)
                <= isize::MAX,
        ensures
            self@ <= MAX_VALUE ==> r is Ok && bytes_mut_view(*final(buf)) == bytes_mut_view(
                *old(buf),
            ) + encoding(self@),
            self@ > MAX_VALUE ==> r is Err && *final(buf) == *old(buf),
    {
        write_varint(buf, self.0)
    }

    /// A stream number in text: who opened the stream, which way its data
    /// flows, and its index.
    pub open spec fn rendering(raw: u64) -> Seq<char> {
        let initiator = match Self::side_of(raw) {
            Side::Client => "client"@,
            Side::Server => "server"@,
        };
        let dir = match Self::dir_of(raw) {
            Dir::Uni => "uni"@,
            Dir::Bi => "bi"@,
        };
        initiator + " "@ + dir + "directional stream "@ + decimal((raw >> 2) as nat)
    }

    /// This number in text.
    pub fn to_string(&self) -> (text: String)
        ensures
            text@ == Self::rendering(self@),
    {
        let initiator = match self.initiator() {
            Side::Client => "client",
            Side::Server => "server",
        };
        let dir = match self.dir() {
            Dir::Uni => "uni",
            Dir::Bi => "bi",
        };
        let mut text = String::from_str(initiator);
        text.append(" ");
        text.append(dir);
        text.append("directional stream ");
        text.append(to_decimal(self.index()).as_str());
        text
    }
}

/// A stream type is its code: two types with the same code are the same.
pub proof fn lemma_stream_type_is_its_code(a: StreamType, b: StreamType)
    ensures
        a@ == b@ <==> a == b,
{
}

/// A stream number is its raw value: two numbers with the same raw value
/// are the same.
pub proof fn lemma_stream_id_is_its_raw_value(a: StreamId, b: StreamId)
    ensures
        a@ == b@ <==> a == b,
{
}

/// The stream number made from a raw value has that value.
pub proof fn lemma_stream_id_from_raw(raw: u64)
    ensures
        <StreamId as FromSpec<u64>>::obeys_from_spec(),
        StreamId::from_spec(raw)@ == raw,
{
}

/// A stream type that is encoded and then decoded comes back with the same
/// code, and decoding stops where its encoding ends.
pub proof fn lemma_stream_type_round_trip(ty: StreamType, rest: Seq<u8>)
    requires
        ty@ <= MAX_VALUE,
    ensures
        decoding(encoding(ty@) + rest) == Some((ty@, encoded_len(ty@))),
{
    lemma_decode_encode(ty@, rest);
}

/// A stream number that the format can carry, encoded, then decoded as an
/// integer and made a stream number again, is the number it was.
pub proof fn lemma_stream_id_round_trip(id: StreamId, rest: Seq<u8>)
    requires
        id@ <= MAX_VALUE,
    ensures
        decoding(encoding(id@) + rest) matches Some((raw, n)) && StreamId::from_spec(raw) == id
            && n == encoded_len(id@),
{
    lemma_decode_encode(id@, rest);
}

/// Stream numbers are ordered as their raw values are.
pub proof fn lemma_stream_id_order(a: StreamId, b: StreamId)
    ensures
        StreamId::obeys_partial_cmp_spec(),
        a@ < b@ <==> a.partial_cmp_spec(&b) == Some(Ordering::Less),
        a@ == b@ <==> a.partial_cmp_spec(&b) == Some(Ordering::Equal),
        a@ > b@ <==> a.partial_cmp_spec(&b) == Some(Ordering::Greater),
{
}

/// The raw value of a stream number is made of its index, its direction and
/// its initiator, and of nothing else.
pub proof fn lemma_stream_id_layout(raw: u64)
    ensures
        raw == 4 * (raw >> 2) + (if StreamId::dir_of(raw) == Dir::Uni {
            2int
        } else {
            0int
        }) + (if StreamId::side_of(raw) == Side::Server {
            1int
        } else {
            0int
        }),
        raw >> 2 == raw / 4,
{
    assert(raw == 4 * (raw >> 2) + (raw & 0x2) + (raw & 0x1)) by (bit_vector);
    assert(raw & 0x2 == 0 || raw & 0x2 == 2) by (bit_vector);
    assert(raw & 0x1 == 0 || raw & 0x1 == 1) by (bit_vector);
    assert(raw >> 2 == raw / 4) by (bit_vector);
}

} // verus!
