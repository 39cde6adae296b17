//! Packets. A frame is a header of two bytes, little-endian, and a payload.

use vstd::prelude::*;

use crate::loaders::convertable::ByteConvertable;
use crate::loaders::stream::{ByteStream, ConversionError};
use crate::loaders::wire::{
    holds_at, lemma_holds_at_front, lemma_holds_at_split, lemma_u16_round_trip, u16_at, u16_bytes,
};

verus! {

/// What every packet type can do. A packet type has a header that no other
/// type has, a name, and the mark of a keepalive frame; it decodes from a frame
/// and encodes to one.
pub trait Packet: Sized {
    /// The mathematical value that a packet stands for.
    type Model;

    /// The name of the packet type.
    const PACKET_NAME: &'static str;

    /// Whether frames of the type only keep a connection alive.
    const IS_PING: bool;

    spec fn model(&self) -> Self::Model;

    /// The header of the frames of the type.
    spec fn packet_header() -> u16;

    /// What the bytes behind a header, from position `at` on, decode to: the
    /// packet and the number of bytes of its payload.
    spec fn payload_decoding(data: Seq<u8>, at: int) -> Result<(Self::Model, nat), ConversionError>;

    /// The packets that have a frame.
    spec fn encodable(value: Self::Model) -> bool;

    /// The packets that come back from their frame as they are. Every packet
    /// does, unless the type says otherwise.
    open spec fn faithful(value: Self::Model) -> bool {
        true
    }

    /// The payload of the frame of a packet.
    spec fn payload_encoding(value: Self::Model) -> Seq<u8>;

    fn header() -> (header: u16)
        ensures
            header == Self::packet_header(),
    ;

    /// Decodes the payload at the cursor, which stands behind a header, and
    /// moves the cursor behind it. Where there is none the cursor stays.
    fn payload_from_bytes(byte_stream: &mut ByteStream) -> (result: Result<Self, ConversionError>)
        requires
            old(byte_stream).offset() >= 2,
        ensures
            final(byte_stream).data() == old(byte_stream).data(),
            final(byte_stream).version() == old(byte_stream).version(),
            match Self::payload_decoding(
                old(byte_stream).data(),
                old(byte_stream).offset() as int,
            ) {
                Ok((value, length)) => {
                    &&& result is Ok
                    &&& result->Ok_0.model() == value
                    &&& final(byte_stream).offset() == old(byte_stream).offset() + length
                },
                Err(error) => {
                    &&& result is Err
                    &&& result->Err_0 == error
                    &&& final(byte_stream).offset() == old(byte_stream).offset()
                },
            },
    ;

    fn payload_to_bytes(&self) -> (bytes: Vec<u8>)
        requires
            Self::encodable(self.model()),
        ensures
            bytes@ == Self::payload_encoding(self.model()),
    ;

    /// Decoding the payload of a faithful packet gives the packet back and
    /// spans the whole payload, whatever follows it.
    proof fn lemma_payload_round_trip(value: Self::Model, data: Seq<u8>, at: int)
        requires
            at >= 2,
            Self::encodable(value),
            Self::faithful(value),
            holds_at(data, at, Self::payload_encoding(value)),
        ensures
            Self::payload_decoding(data, at) == Ok::<(Self::Model, nat), ConversionError>(
                (value, Self::payload_encoding(value).len()),
            ),
    ;

    /// The frame of the packet: its header and its payload.
    fn to_bytes(&self) -> (bytes: Vec<u8>)
        requires
            Self::encodable(self.model()),
        ensures
            bytes@ == u16_bytes(Self::packet_header()) + Self::payload_encoding(self.model()),
    {
        let mut bytes = Self::header().to_bytes(None);
        let mut payload = self.payload_to_bytes();
        bytes.append(&mut payload);
        bytes
    }

    /// Decodes the frame at the cursor where it is one of this type, and moves
    /// the cursor behind it. Where it is not, or does not decode, the cursor
    /// stays.
    fn try_from_bytes(byte_stream: &mut ByteStream) -> (result: Result<Self, ConversionError>)
        ensures
            final(byte_stream).data() == old(byte_stream).data(),
            final(byte_stream).version() == old(byte_stream).version(),
            old(byte_stream).offset() + 2 > old(byte_stream).data().len() ==> {
                &&& result == Err::<Self, ConversionError>(ConversionError::Incomplete)
                &&& final(byte_stream).offset() == old(byte_stream).offset()
            },
            old(byte_stream).offset() + 2 <= old(byte_stream).data().len() && u16_at(
                old(byte_stream).data(),
                old(byte_stream).offset() as int,
            ) != Self::packet_header() ==> {
                &&& result == Err::<Self, ConversionError>(ConversionError::WrongHeader)
                &&& final(byte_stream).offset() == old(byte_stream).offset()
            },
            old(byte_stream).offset() + 2 <= old(byte_stream).data().len() && u16_at(
                old(byte_stream).data(),
                old(byte_stream).offset() as int,
            ) == Self::packet_header() ==> match Self::payload_decoding(
                old(byte_stream).data(),
                old(byte_stream).offset() as int + 2,
            ) {
                Ok((value, length)) => {
                    &&& result is Ok
                    &&& result->Ok_0.model() == value
                    &&& final(byte_stream).offset() == old(byte_stream).offset() + length + 2
                },
                Err(error) => {
                    &&& result is Err
                    &&& result->Err_0 == error
                    &&& final(byte_stream).offset() == old(byte_stream).offset()
                },
            },
    {
        let mut cursor = byte_stream.fork();
        let header = cursor.read_u16()?;
        if header != Self::header() {
            return Err(ConversionError::WrongHeader);
        }
        let packet = Self::payload_from_bytes(&mut cursor)?;
        byte_stream.follow(&cursor);
        Ok(packet)
    }
}

/// A packet type whose frames are of no fixed length: behind the header a frame
/// holds its own length, header and all, in two bytes.
pub trait LengthPrefixed: Packet {
    /// The length that a packet announces for its frame.
    spec fn announced_length(value: Self::Model) -> u16;

    /// A payload that decodes belongs to a frame of exactly the length that the
    /// frame announces, and all of that frame lies in the buffer.
    proof fn lemma_exact_length(data: Seq<u8>, at: int)
        ensures
            Self::payload_decoding(data, at) matches Ok((value, length)) ==> {
                &&& Self::announced_length(value) == u16_at(data, at)
                &&& length + 2 == Self::announced_length(value)
                &&& at - 2 + Self::announced_length(value) <= data.len()
            },
    ;
}

/// What the bytes of `data` from position `at` on decode to as a frame of the
/// packet type: the packet and the length of the frame.
pub open spec fn frame_decoding<P: Packet>(data: Seq<u8>, at: int) -> Result<
    (P::Model, nat),
    ConversionError,
> {
    if at + 2 > data.len() {
        Err(ConversionError::Incomplete)
    } else if u16_at(data, at) != P::packet_header() {
        Err(ConversionError::WrongHeader)
    } else {
        match P::payload_decoding(data, at + 2) {
            Ok((value, length)) => Ok((value, length + 2)),
            Err(error) => Err(error),
        }
    }
}

/// The frame of a packet: its header and its payload.
pub open spec fn frame_encoding<P: Packet>(value: P::Model) -> Seq<u8> {
    u16_bytes(P::packet_header()) + P::payload_encoding(value)
}

/// A frame that holds its own length decodes only as a frame of that length:
/// the decoding spans exactly the bytes that the frame announces, and a frame
/// that announces another length than its layout has does not decode.
pub proof fn lemma_frame_length<P: LengthPrefixed>(data: Seq<u8>, at: int)
    requires
        0 <= at,
    ensures
        frame_decoding::<P>(data, at) matches Ok((value, length)) ==> {
            &&& length == u16_at(data, at + 2)
            &&& length == P::announced_length(value)
            &&& at + length <= data.len()
        },
{
    P::lemma_exact_length(data, at + 2);
}

/// Decoding the frame of a faithful packet gives the packet back and spans the
/// whole frame, whatever follows it.
pub proof fn lemma_frame_round_trip<P: Packet>(value: P::Model, rest: Seq<u8>)
    requires
        P::encodable(value),
        P::faithful(value),
    ensures
        frame_decoding::<P>(frame_encoding::<P>(value) + rest, 0) == Ok::<
            (P::Model, nat),
            ConversionError,
        >((value, frame_encoding::<P>(value).len())),
{
    let frame = frame_encoding::<P>(value);
    let data = frame + rest;
    lemma_holds_at_front(frame, rest);
    lemma_holds_at_split(data, 0, u16_bytes(P::packet_header()), P::payload_encoding(value));
    lemma_u16_round_trip(P::packet_header(), data, 0);
    P::lemma_payload_round_trip(value, data, 2);
}

} // verus!
