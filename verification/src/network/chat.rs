//! The packets that carry chat messages.

use vstd::prelude::*;

use crate::loaders::convertable::{behind, ByteConvertable, FixedByteSize};
use crate::loaders::stream::{ByteStream, ConversionError};
use crate::loaders::wire::{lemma_holds_at_bounds, lemma_holds_at_split, lemma_holds_at_take};
use crate::network::ids::{ColorBGRA, ColorRGBA, EntityId};
use crate::network::packet::{LengthPrefixed, Packet};

verus! {

/// Sent by the map server to the client when there is a new chat message from
/// the server. Provides the message to be displayed in the chat window.
#[derive(Clone, Debug)]
pub struct ServerMessagePacket {
    pub packet_length: u16,
    pub message: String,
}

/// What a [`ServerMessagePacket`] stands for.
pub struct ServerMessagePacketModel {
    pub packet_length: u16,
    pub message: Seq<char>,
}

impl Packet for ServerMessagePacket {
    type Model = ServerMessagePacketModel;

    const PACKET_NAME: &'static str = "ServerMessagePacket";

    const IS_PING: bool = false;

    open spec fn model(&self) -> ServerMessagePacketModel {
        ServerMessagePacketModel {
            packet_length: self.packet_length.model(),
            message: self.message.model(),
        }
    }

    open spec fn packet_header() -> u16 {
        0x008e
    }

    #[verifier::opaque]
    open spec fn payload_decoding(data: Seq<u8>, at: int) -> Result<
        (ServerMessagePacketModel, nat),
        ConversionError,
    > {
        let packet_length = u16::decoding(data, at, None);
        let end = at - 2 + packet_length->Ok_0.0;
        let frame = data.take(end);
        let at_message = behind(at, packet_length);
        let message = String::decoding(
            frame,
            at_message,
            Some((packet_length->Ok_0.0 - 4) as usize),
        );
        let behind_all = behind(at_message, message);
        if packet_length is Err {
            Err(packet_length->Err_0)
        } else if packet_length->Ok_0.0 < 4 {
            Err(ConversionError::Invalid)
        } else if end > data.len() {
            Err(ConversionError::Incomplete)
        } else if message is Err || behind_all != end {
            Err(ConversionError::Invalid)
        } else {
            Ok(
                (
                    ServerMessagePacketModel {
                        packet_length: packet_length->Ok_0.0,
                        message: message->Ok_0.0,
                    },
                    (behind_all - at) as nat,
                ),
            )
        }
    }

    open spec fn encodable(value: ServerMessagePacketModel) -> bool {
        &&& value.packet_length >= 4
        &&& String::encodable(value.message, Some((value.packet_length - 4) as usize))
        &&& value.packet_length == 2 + Self::payload_encoding(value).len()
    }

    open spec fn faithful(value: ServerMessagePacketModel) -> bool {
        String::faithful(value.message, Some((value.packet_length - 4) as usize))
    }

    #[verifier::opaque]
    open spec fn payload_encoding(value: ServerMessagePacketModel) -> Seq<u8> {
        u16::encoding(value.packet_length, None)
            + String::encoding(value.message, Some((value.packet_length - 4) as usize))
    }

    fn header() -> (header: u16) {
        0x008e
    }

    fn payload_from_bytes(byte_stream: &mut ByteStream) -> (result: Result<
        Self,
        ConversionError,
    >) {
        proof {
            reveal(<ServerMessagePacket as Packet>::payload_decoding);
        }
        let mut cursor = byte_stream.fork();
        let packet_length = u16::from_bytes(&mut cursor, None)?;
        if packet_length < 4 {
            return Err(ConversionError::Invalid);
        }
        if cursor.remaining_length() < (packet_length - 4) as usize {
            return Err(ConversionError::Incomplete);
        }
        let end = cursor.get_offset() + (packet_length - 4) as usize;
        let mut frame = cursor.frame(end);
        let message = match String::from_bytes(&mut frame, Some((packet_length - 4) as usize)) {
            Ok(value) => value,
            Err(_) => return Err(ConversionError::Invalid),
        };
        if !frame.is_empty() {
            return Err(ConversionError::Invalid);
        }
        byte_stream.follow(&frame);
        Ok(ServerMessagePacket { packet_length, message })
    }

    fn payload_to_bytes(&self) -> (bytes: Vec<u8>) {
        proof {
            reveal(<ServerMessagePacket as Packet>::payload_encoding);
        }
        let mut bytes = self.packet_length.to_bytes(None);
        let mut piece = self.message.to_bytes(Some((self.packet_length - 4) as usize));
        bytes.append(&mut piece);
        bytes
    }

    proof fn lemma_payload_round_trip(value: ServerMessagePacketModel, data: Seq<u8>, at: int) {
        reveal(<ServerMessagePacket as Packet>::payload_decoding);
        reveal(<ServerMessagePacket as Packet>::payload_encoding);
        let piece_0 = u16::encoding(value.packet_length, None);
        let piece_1 = String::encoding(value.message, Some((value.packet_length - 4) as usize));
        let front_1 = piece_0;
        lemma_holds_at_split(data, at, front_1, piece_1);
        lemma_holds_at_bounds(data, at, Self::payload_encoding(value));
        let end = at - 2 + value.packet_length;
        let frame = data.take(end);
        u16::lemma_round_trip(value.packet_length, None, data, at);
        lemma_holds_at_take(data, end, at + front_1.len(), piece_1);
        String::lemma_round_trip(
            value.message,
            Some((value.packet_length - 4) as usize),
            frame,
            at + front_1.len(),
        );
    }
}

impl LengthPrefixed for ServerMessagePacket {
    open spec fn announced_length(value: ServerMessagePacketModel) -> u16 {
        value.packet_length
    }

    proof fn lemma_exact_length(data: Seq<u8>, at: int) {
        reveal(<ServerMessagePacket as Packet>::payload_decoding);
    }
}

/// Sent by the map server to the client when there is a new chat message from
/// ??. Provides the message to be displayed in the chat window, as well as
/// information on how the message should be displayed.
#[derive(Clone, Debug)]
pub struct Broadcast2MessagePacket {
    pub packet_length: u16,
    pub font_color: ColorRGBA,
    pub font_type: u16,
    pub font_size: u16,
    pub font_alignment: u16,
    pub font_y: u16,
    pub message: String,
}

/// What a [`Broadcast2MessagePacket`] stands for.
pub struct Broadcast2MessagePacketModel {
    pub packet_length: u16,
    pub font_color: ColorRGBA,
    pub font_type: u16,
    pub font_size: u16,
    pub font_alignment: u16,
    pub font_y: u16,
    pub message: Seq<char>,
}

impl Packet for Broadcast2MessagePacket {
    type Model = Broadcast2MessagePacketModel;

    const PACKET_NAME: &'static str = "Broadcast2MessagePacket";

    const IS_PING: bool = false;

    open spec fn model(&self) -> Broadcast2MessagePacketModel {
        Broadcast2MessagePacketModel {
            packet_length: self.packet_length.model(),
            font_color: self.font_color.model(),
            font_type: self.font_type.model(),
            font_size: self.font_size.model(),
            font_alignment: self.font_alignment.model(),
            font_y: self.font_y.model(),
            message: self.message.model(),
        }
    }

    open spec fn packet_header() -> u16 {
        0x01c3
    }

    #[verifier::opaque]
    open spec fn payload_decoding(data: Seq<u8>, at: int) -> Result<
        (Broadcast2MessagePacketModel, nat),
        ConversionError,
    > {
        let packet_length = u16::decoding(data, at, None);
        let end = at - 2 + packet_length->Ok_0.0;
        let frame = data.take(end);
        let at_font_color = behind(at, packet_length);
        let font_color = ColorRGBA::decoding(frame, at_font_color, None);
        let at_font_type = behind(at_font_color, font_color);
        let font_type = u16::decoding(frame, at_font_type, None);
        let at_font_size = behind(at_font_type, font_type);
        let font_size = u16::decoding(frame, at_font_size, None);
        let at_font_alignment = behind(at_font_size, font_size);
        let font_alignment = u16::decoding(frame, at_font_alignment, None);
        let at_font_y = behind(at_font_alignment, font_alignment);
        let font_y = u16::decoding(frame, at_font_y, None);
        let at_message = behind(at_font_y, font_y);
        let message = String::decoding(
            frame,
            at_message,
            Some((packet_length->Ok_0.0 - 16) as usize),
        );
        let behind_all = behind(at_message, message);
        if packet_length is Err {
            Err(packet_length->Err_0)
        } else if packet_length->Ok_0.0 < 16 {
            Err(ConversionError::Invalid)
        } else if end > data.len() {
            Err(ConversionError::Incomplete)
        } else if font_color is Err
            || font_type is Err
            || font_size is Err
            || font_alignment is Err
            || font_y is Err
            || message is Err
            || behind_all != end {
            Err(ConversionError::Invalid)
        } else {
            Ok(
                (
                    Broadcast2MessagePacketModel {
                        packet_length: packet_length->Ok_0.0,
                        font_color: font_color->Ok_0.0,
                        font_type: font_type->Ok_0.0,
                        font_size: font_size->Ok_0.0,
                        font_alignment: font_alignment->Ok_0.0,
                        font_y: font_y->Ok_0.0,
                        message: message->Ok_0.0,
                    },
                    (behind_all - at) as nat,
                ),
            )
        }
    }

    open spec fn encodable(value: Broadcast2MessagePacketModel) -> bool {
        &&& value.packet_length >= 16
        &&& String::encodable(value.message, Some((value.packet_length - 16) as usize))
        &&& value.packet_length == 2 + Self::payload_encoding(value).len()
    }

    open spec fn faithful(value: Broadcast2MessagePacketModel) -> bool {
        String::faithful(value.message, Some((value.packet_length - 16) as usize))
    }

    #[verifier::opaque]
    open spec fn payload_encoding(value: Broadcast2MessagePacketModel) -> Seq<u8> {
        u16::encoding(value.packet_length, None)
            + ColorRGBA::encoding(value.font_color, None)
            + u16::encoding(value.font_type, None)
            + u16::encoding(value.font_size, None)
            + u16::encoding(value.font_alignment, None)
            + u16::encoding(value.font_y, None)
            + String::encoding(value.message, Some((value.packet_length - 16) as usize))
    }

    fn header() -> (header: u16) {
        0x01c3
    }

    #[verifier::rlimit(40)]
    fn payload_from_bytes(byte_stream: &mut ByteStream) -> (result: Result<
        Self,
        ConversionError,
    >) {
        proof {
            reveal(<Broadcast2MessagePacket as Packet>::payload_decoding);
        }
        let mut cursor = byte_stream.fork();
        let packet_length = u16::from_bytes(&mut cursor, None)?;
        if packet_length < 16 {
            return Err(ConversionError::Invalid);
        }
        if cursor.remaining_length() < (packet_length - 4) as usize {
            return Err(ConversionError::Incomplete);
        }
        let end = cursor.get_offset() + (packet_length - 4) as usize;
        let mut frame = cursor.frame(end);
        let font_color = match ColorRGBA::from_bytes(&mut frame, None) {
            Ok(value) => value,
            Err(_) => return Err(ConversionError::Invalid),
        };
        let font_type = match u16::from_bytes(&mut frame, None) {
            Ok(value) => value,
            Err(_) => return Err(ConversionError::Invalid),
        };
        let font_size = match u16::from_bytes(&mut frame, None) {
            Ok(value) => value,
            Err(_) => return Err(ConversionError::Invalid),
        };
        let font_alignment = match u16::from_bytes(&mut frame, None) {
            Ok(value) => value,
            Err(_) => return Err(ConversionError::Invalid),
        };
        let font_y = match u16::from_bytes(&mut frame, None) {
            Ok(value) => value,
            Err(_) => return Err(ConversionError::Invalid),
        };
        let message = match String::from_bytes(&mut frame, Some((packet_length - 16) as usize)) {
            Ok(value) => value,
            Err(_) => return Err(ConversionError::Invalid),
        };
        if !frame.is_empty() {
            return Err(ConversionError::Invalid);
        }
        byte_stream.follow(&frame);
        Ok(Broadcast2MessagePacket {
            packet_length,
            font_color,
            font_type,
            font_size,
            font_alignment,
            font_y,
            message,
        })
    }

    fn payload_to_bytes(&self) -> (bytes: Vec<u8>) {
        proof {
            reveal(<Broadcast2MessagePacket as Packet>::payload_encoding);
        }
        let mut bytes = self.packet_length.to_bytes(None);
        let mut piece = self.font_color.to_bytes(None);
        bytes.append(&mut piece);
        let mut piece = self.font_type.to_bytes(None);
        bytes.append(&mut piece);
        let mut piece = self.font_size.to_bytes(None);
        bytes.append(&mut piece);
        let mut piece = self.font_alignment.to_bytes(None);
        bytes.append(&mut piece);
        let mut piece = self.font_y.to_bytes(None);
        bytes.append(&mut piece);
        let mut piece = self.message.to_bytes(Some((self.packet_length - 16) as usize));
        bytes.append(&mut piece);
        bytes
    }

    #[verifier::rlimit(40)]
    proof fn lemma_payload_round_trip(value: Broadcast2MessagePacketModel, data: Seq<u8>, at: int) {
        reveal(<Broadcast2MessagePacket as Packet>::payload_decoding);
        reveal(<Broadcast2MessagePacket as Packet>::payload_encoding);
        let piece_0 = u16::encoding(value.packet_length, None);
        let piece_1 = ColorRGBA::encoding(value.font_color, None);
        let piece_2 = u16::encoding(value.font_type, None);
        let piece_3 = u16::encoding(value.font_size, None);
        let piece_4 = u16::encoding(value.font_alignment, None);
        let piece_5 = u16::encoding(value.font_y, None);
        let piece_6 = String::encoding(value.message, Some((value.packet_length - 16) as usize));
        let front_1 = piece_0;
        let front_2 = front_1 + piece_1;
        let front_3 = front_2 + piece_2;
        let front_4 = front_3 + piece_3;
        let front_5 = front_4 + piece_4;
        let front_6 = front_5 + piece_5;
        lemma_holds_at_split(data, at, front_6, piece_6);
        lemma_holds_at_split(data, at, front_5, piece_5);
        lemma_holds_at_split(data, at, front_4, piece_4);
        lemma_holds_at_split(data, at, front_3, piece_3);
        lemma_holds_at_split(data, at, front_2, piece_2);
        lemma_holds_at_split(data, at, front_1, piece_1);
        lemma_holds_at_bounds(data, at, Self::payload_encoding(value));
        let end = at - 2 + value.packet_length;
        let frame = data.take(end);
        u16::lemma_round_trip(value.packet_length, None, data, at);
        lemma_holds_at_take(data, end, at + front_1.len(), piece_1);
        ColorRGBA::lemma_fixed_size(frame, at + front_1.len(), value.font_color);
        ColorRGBA::lemma_round_trip(value.font_color, None, frame, at + front_1.len());
        lemma_holds_at_take(data, end, at + front_2.len(), piece_2);
        u16::lemma_round_trip(value.font_type, None, frame, at + front_2.len());
        lemma_holds_at_take(data, end, at + front_3.len(), piece_3);
        u16::lemma_round_trip(value.font_size, None, frame, at + front_3.len());
        lemma_holds_at_take(data, end, at + front_4.len(), piece_4);
        u16::lemma_round_trip(value.font_alignment, None, frame, at + front_4.len());
        lemma_holds_at_take(data, end, at + front_5.len(), piece_5);
        u16::lemma_round_trip(value.font_y, None, frame, at + front_5.len());
        lemma_holds_at_take(data, end, at + front_6.len(), piece_6);
        String::lemma_round_trip(
            value.message,
            Some((value.packet_length - 16) as usize),
            frame,
            at + front_6.len(),
        );
    }
}

impl LengthPrefixed for Broadcast2MessagePacket {
    open spec fn announced_length(value: Broadcast2MessagePacketModel) -> u16 {
        value.packet_length
    }

    proof fn lemma_exact_length(data: Seq<u8>, at: int) {
        reveal(<Broadcast2MessagePacket as Packet>::payload_decoding);
    }
}

/// Sent by the map server to the client when when someone uses the @broadcast
/// command. Provides the message to be displayed in the chat window.
#[derive(Clone, Debug)]
pub struct BroadcastMessagePacket {
    pub packet_length: u16,
    pub message: String,
}

/// What a [`BroadcastMessagePacket`] stands for.
pub struct BroadcastMessagePacketModel {
    pub packet_length: u16,
    pub message: Seq<char>,
}

impl Packet for BroadcastMessagePacket {
    type Model = BroadcastMessagePacketModel;

    const PACKET_NAME: &'static str = "BroadcastMessagePacket";

    const IS_PING: bool = false;

    open spec fn model(&self) -> BroadcastMessagePacketModel {
        BroadcastMessagePacketModel {
            packet_length: self.packet_length.model(),
            message: self.message.model(),
        }
    }

    open spec fn packet_header() -> u16 {
        0x009a
    }

    #[verifier::opaque]
    open spec fn payload_decoding(data: Seq<u8>, at: int) -> Result<
        (BroadcastMessagePacketModel, nat),
        ConversionError,
    > {
        let packet_length = u16::decoding(data, at, None);
        let end = at - 2 + packet_length->Ok_0.0;
        let frame = data.take(end);
        let at_message = behind(at, packet_length);
        let message = String::decoding(
            frame,
            at_message,
            Some((packet_length->Ok_0.0 - 4) as usize),
        );
        let behind_all = behind(at_message, message);
        if packet_length is Err {
            Err(packet_length->Err_0)
        } else if packet_length->Ok_0.0 < 4 {
            Err(ConversionError::Invalid)
        } else if end > data.len() {
            Err(ConversionError::Incomplete)
        } else if message is Err || behind_all != end {
            Err(ConversionError::Invalid)
        } else {
            Ok(
                (
                    BroadcastMessagePacketModel {
                        packet_length: packet_length->Ok_0.0,
                        message: message->Ok_0.0,
                    },
                    (behind_all - at) as nat,
                ),
            )
        }
    }

    open spec fn encodable(value: BroadcastMessagePacketModel) -> bool {
        &&& value.packet_length >= 4
        &&& String::encodable(value.message, Some((value.packet_length - 4) as usize))
        &&& value.packet_length == 2 + Self::payload_encoding(value).len()
    }

    open spec fn faithful(value: BroadcastMessagePacketModel) -> bool {
        String::faithful(value.message, Some((value.packet_length - 4) as usize))
    }

    #[verifier::opaque]
    open spec fn payload_encoding(value: BroadcastMessagePacketModel) -> Seq<u8> {
        u16::encoding(value.packet_length, None)
            + String::encoding(value.message, Some((value.packet_length - 4) as usize))
    }

    fn header() -> (header: u16) {
        0x009a
    }

    fn payload_from_bytes(byte_stream: &mut ByteStream) -> (result: Result<
        Self,
        ConversionError,
    >) {
        proof {
            reveal(<BroadcastMessagePacket as Packet>::payload_decoding);
        }
        let mut cursor = byte_stream.fork();
        let packet_length = u16::from_bytes(&mut cursor, None)?;
        if packet_length < 4 {
            return Err(ConversionError::Invalid);
        }
        if cursor.remaining_length() < (packet_length - 4) as usize {
            return Err(ConversionError::Incomplete);
        }
        let end = cursor.get_offset() + (packet_length - 4) as usize;
        let mut frame = cursor.frame(end);
        let message = match String::from_bytes(&mut frame, Some((packet_length - 4) as usize)) {
            Ok(value) => value,
            Err(_) => return Err(ConversionError::Invalid),
        };
        if !frame.is_empty() {
            return Err(ConversionError::Invalid);
        }
        byte_stream.follow(&frame);
        Ok(BroadcastMessagePacket { packet_length, message })
    }

    fn payload_to_bytes(&self) -> (bytes: Vec<u8>) {
        proof {
            reveal(<BroadcastMessagePacket as Packet>::payload_encoding);
        }
        let mut bytes = self.packet_length.to_bytes(None);
        let mut piece = self.message.to_bytes(Some((self.packet_length - 4) as usize));
        bytes.append(&mut piece);
        bytes
    }

    proof fn lemma_payload_round_trip(value: BroadcastMessagePacketModel, data: Seq<u8>, at: int) {
        reveal(<BroadcastMessagePacket as Packet>::payload_decoding);
        reveal(<BroadcastMessagePacket as Packet>::payload_encoding);
        let piece_0 = u16::encoding(value.packet_length, None);
        let piece_1 = String::encoding(value.message, Some((value.packet_length - 4) as usize));
        let front_1 = piece_0;
        lemma_holds_at_split(data, at, front_1, piece_1);
        lemma_holds_at_bounds(data, at, Self::payload_encoding(value));
        let end = at - 2 + value.packet_length;
        let frame = data.take(end);
        u16::lemma_round_trip(value.packet_length, None, data, at);
        lemma_holds_at_take(data, end, at + front_1.len(), piece_1);
        String::lemma_round_trip(
            value.message,
            Some((value.packet_length - 4) as usize),
            frame,
            at + front_1.len(),
        );
    }
}

impl LengthPrefixed for BroadcastMessagePacket {
    open spec fn announced_length(value: BroadcastMessagePacketModel) -> u16 {
        value.packet_length
    }

    proof fn lemma_exact_length(data: Seq<u8>, at: int) {
        reveal(<BroadcastMessagePacket as Packet>::payload_decoding);
    }
}

/// Sent by the map server to the client when when someone writes in proximity
/// chat. Provides the source player and message to be displayed in the chat
/// window and the speach bubble.
#[derive(Clone, Debug)]
pub struct OverheadMessagePacket {
    pub packet_length: u16,
    pub entity_id: EntityId,
    pub message: String,
}

/// What a [`OverheadMessagePacket`] stands for.
pub struct OverheadMessagePacketModel {
    pub packet_length: u16,
    pub entity_id: EntityId,
    pub message: Seq<char>,
}

impl Packet for OverheadMessagePacket {
    type Model = OverheadMessagePacketModel;

    const PACKET_NAME: &'static str = "OverheadMessagePacket";

    const IS_PING: bool = false;

    open spec fn model(&self) -> OverheadMessagePacketModel {
        OverheadMessagePacketModel {
            packet_length: self.packet_length.model(),
            entity_id: self.entity_id.model(),
            message: self.message.model(),
        }
    }

    open spec fn packet_header() -> u16 {
        0x008d
    }

    #[verifier::opaque]
    open spec fn payload_decoding(data: Seq<u8>, at: int) -> Result<
        (OverheadMessagePacketModel, nat),
        ConversionError,
    > {
        let packet_length = u16::decoding(data, at, None);
        let end = at - 2 + packet_length->Ok_0.0;
        let frame = data.take(end);
        let at_entity_id = behind(at, packet_length);
        let entity_id = EntityId::decoding(frame, at_entity_id, None);
        let at_message = behind(at_entity_id, entity_id);
        let message = String::decoding(
            frame,
            at_message,
            Some((packet_length->Ok_0.0 - 8) as usize),
        );
        let behind_all = behind(at_message, message);
        if packet_length is Err {
            Err(packet_length->Err_0)
        } else if packet_length->Ok_0.0 < 8 {
            Err(ConversionError::Invalid)
        } else if end > data.len() {
            Err(ConversionError::Incomplete)
        } else if entity_id is Err || message is Err || behind_all != end {
            Err(ConversionError::Invalid)
        } else {
            Ok(
                (
                    OverheadMessagePacketModel {
                        packet_length: packet_length->Ok_0.0,
                        entity_id: entity_id->Ok_0.0,
                        message: message->Ok_0.0,
                    },
                    (behind_all - at) as nat,
                ),
            )
        }
    }

    open spec fn encodable(value: OverheadMessagePacketModel) -> bool {
        &&& value.packet_length >= 8
        &&& String::encodable(value.message, Some((value.packet_length - 8) as usize))
        &&& value.packet_length == 2 + Self::payload_encoding(value).len()
    }

    open spec fn faithful(value: OverheadMessagePacketModel) -> bool {
        String::faithful(value.message, Some((value.packet_length - 8) as usize))
    }

    #[verifier::opaque]
    open spec fn payload_encoding(value: OverheadMessagePacketModel) -> Seq<u8> {
        u16::encoding(value.packet_length, None)
            + EntityId::encoding(value.entity_id, None)
            + String::encoding(value.message, Some((value.packet_length - 8) as usize))
    }

    fn header() -> (header: u16) {
        0x008d
    }

    fn payload_from_bytes(byte_stream: &mut ByteStream) -> (result: Result<
        Self,
        ConversionError,
    >) {
        proof {
            reveal(<OverheadMessagePacket as Packet>::payload_decoding);
        }
        let mut cursor = byte_stream.fork();
        let packet_length = u16::from_bytes(&mut cursor, None)?;
        if packet_length < 8 {
            return Err(ConversionError::Invalid);
        }
        if cursor.remaining_length() < (packet_length - 4) as usize {
            return Err(ConversionError::Incomplete);
        }
        let end = cursor.get_offset() + (packet_length - 4) as usize;
        let mut frame = cursor.frame(end);
        let entity_id = match EntityId::from_bytes(&mut frame, None) {
            Ok(value) => value,
            Err(_) => return Err(ConversionError::Invalid),
        };
        let message = match String::from_bytes(&mut frame, Some((packet_length - 8) as usize)) {
            Ok(value) => value,
            Err(_) => return Err(ConversionError::Invalid),
        };
        if !frame.is_empty() {
            return Err(ConversionError::Invalid);
        }
        byte_stream.follow(&frame);
        Ok(OverheadMessagePacket { packet_length, entity_id, message })
    }

    fn payload_to_bytes(&self) -> (bytes: Vec<u8>) {
        proof {
            reveal(<OverheadMessagePacket as Packet>::payload_encoding);
        }
        let mut bytes = self.packet_length.to_bytes(None);
        let mut piece = self.entity_id.to_bytes(None);
        bytes.append(&mut piece);
        let mut piece = self.message.to_bytes(Some((self.packet_length - 8) as usize));
        bytes.append(&mut piece);
        bytes
    }

    proof fn lemma_payload_round_trip(value: OverheadMessagePacketModel, data: Seq<u8>, at: int) {
        reveal(<OverheadMessagePacket as Packet>::payload_decoding);
        reveal(<OverheadMessagePacket as Packet>::payload_encoding);
        let piece_0 = u16::encoding(value.packet_length, None);
        let piece_1 = EntityId::encoding(value.entity_id, None);
        let piece_2 = String::encoding(value.message, Some((value.packet_length - 8) as usize));
        let front_1 = piece_0;
        let front_2 = front_1 + piece_1;
        lemma_holds_at_split(data, at, front_2, piece_2);
        lemma_holds_at_split(data, at, front_1, piece_1);
        lemma_holds_at_bounds(data, at, Self::payload_encoding(value));
        let end = at - 2 + value.packet_length;
        let frame = data.take(end);
        u16::lemma_round_trip(value.packet_length, None, data, at);
        lemma_holds_at_take(data, end, at + front_1.len(), piece_1);
        EntityId::lemma_fixed_size(frame, at + front_1.len(), value.entity_id);
        EntityId::lemma_round_trip(value.entity_id, None, frame, at + front_1.len());
        lemma_holds_at_take(data, end, at + front_2.len(), piece_2);
        String::lemma_round_trip(
            value.message,
            Some((value.packet_length - 8) as usize),
            frame,
            at + front_2.len(),
        );
    }
}

impl LengthPrefixed for OverheadMessagePacket {
    open spec fn announced_length(value: OverheadMessagePacketModel) -> u16 {
        value.packet_length
    }

    proof fn lemma_exact_length(data: Seq<u8>, at: int) {
        reveal(<OverheadMessagePacket as Packet>::payload_decoding);
    }
}

/// Sent by the map server to the client when there is a new chat message from
/// an entity. Provides the message to be displayed in the chat window, the
/// color of the message, and the ID of the entity it originated from.
#[derive(Clone, Debug)]
pub struct EntityMessagePacket {
    pub packet_length: u16,
    pub entity_id: EntityId,
    pub color: ColorBGRA,
    pub message: String,
}

/// What a [`EntityMessagePacket`] stands for.
pub struct EntityMessagePacketModel {
    pub packet_length: u16,
    pub entity_id: EntityId,
    pub color: ColorBGRA,
    pub message: Seq<char>,
}

impl Packet for EntityMessagePacket {
    type Model = EntityMessagePacketModel;

    const PACKET_NAME: &'static str = "EntityMessagePacket";

    const IS_PING: bool = false;

    open spec fn model(&self) -> EntityMessagePacketModel {
        EntityMessagePacketModel {
            packet_length: self.packet_length.model(),
            entity_id: self.entity_id.model(),
            color: self.color.model(),
            message: self.message.model(),
        }
    }

    open spec fn packet_header() -> u16 {
        0x02c1
    }

    #[verifier::opaque]
    open spec fn payload_decoding(data: Seq<u8>, at: int) -> Result<
        (EntityMessagePacketModel, nat),
        ConversionError,
    > {
        let packet_length = u16::decoding(data, at, None);
        let end = at - 2 + packet_length->Ok_0.0;
        let frame = data.take(end);
        let at_entity_id = behind(at, packet_length);
        let entity_id = EntityId::decoding(frame, at_entity_id, None);
        let at_color = behind(at_entity_id, entity_id);
        let color = ColorBGRA::decoding(frame, at_color, None);
        let at_message = behind(at_color, color);
        let message = String::decoding(
            frame,
            at_message,
            Some((packet_length->Ok_0.0 - 12) as usize),
        );
        let behind_all = behind(at_message, message);
        if packet_length is Err {
            Err(packet_length->Err_0)
        } else if packet_length->Ok_0.0 < 12 {
            Err(ConversionError::Invalid)
        } else if end > data.len() {
            Err(ConversionError::Incomplete)
        } else if entity_id is Err || color is Err || message is Err || behind_all != end {
            Err(ConversionError::Invalid)
        } else {
            Ok(
                (
                    EntityMessagePacketModel {
                        packet_length: packet_length->Ok_0.0,
                        entity_id: entity_id->Ok_0.0,
                        color: color->Ok_0.0,
                        message: message->Ok_0.0,
                    },
                    (behind_all - at) as nat,
                ),
            )
        }
    }

    open spec fn encodable(value: EntityMessagePacketModel) -> bool {
        &&& value.packet_length >= 12
        &&& String::encodable(value.message, Some((value.packet_length - 12) as usize))
        &&& value.packet_length == 2 + Self::payload_encoding(value).len()
    }

    open spec fn faithful(value: EntityMessagePacketModel) -> bool {
        String::faithful(value.message, Some((value.packet_length - 12) as usize))
    }

    #[verifier::opaque]
    open spec fn payload_encoding(value: EntityMessagePacketModel) -> Seq<u8> {
        u16::encoding(value.packet_length, None)
            + EntityId::encoding(value.entity_id, None)
            + ColorBGRA::encoding(value.color, None)
            + String::encoding(value.message, Some((value.packet_length - 12) as usize))
    }

    fn header() -> (header: u16) {
        0x02c1
    }

    #[verifier::rlimit(40)]
    fn payload_from_bytes(byte_stream: &mut ByteStream) -> (result: Result<
        Self,
        ConversionError,
    >) {
        proof {
            reveal(<EntityMessagePacket as Packet>::payload_decoding);
        }
        let mut cursor = byte_stream.fork();
        let packet_length = u16::from_bytes(&mut cursor, None)?;
        if packet_length < 12 {
            return Err(ConversionError::Invalid);
        }
        if cursor.remaining_length() < (packet_length - 4) as usize {
            return Err(ConversionError::Incomplete);
        }
        let end = cursor.get_offset() + (packet_length - 4) as usize;
        let mut frame = cursor.frame(end);
        let entity_id = match EntityId::from_bytes(&mut frame, None) {
            Ok(value) => value,
            Err(_) => return Err(ConversionError::Invalid),
        };
        let color = match ColorBGRA::from_bytes(&mut frame, None) {
            Ok(value) => value,
            Err(_) => return Err(ConversionError::Invalid),
        };
        let message = match String::from_bytes(&mut frame, Some((packet_length - 12) as usize)) {
            Ok(value) => value,
            Err(_) => return Err(ConversionError::Invalid),
        };
        if !frame.is_empty() {
            return Err(ConversionError::Invalid);
        }
        byte_stream.follow(&frame);
        Ok(EntityMessagePacket { packet_length, entity_id, color, message })
    }

    fn payload_to_bytes(&self) -> (bytes: Vec<u8>) {
        proof {
            reveal(<EntityMessagePacket as Packet>::payload_encoding);
        }
        let mut bytes = self.packet_length.to_bytes(None);
        let mut piece = self.entity_id.to_bytes(None);
        bytes.append(&mut piece);
        let mut piece = self.color.to_bytes(None);
        bytes.append(&mut piece);
        let mut piece = self.message.to_bytes(Some((self.packet_length - 12) as usize));
        bytes.append(&mut piece);
        bytes
    }

    #[verifier::rlimit(40)]
    proof fn lemma_payload_round_trip(value: EntityMessagePacketModel, data: Seq<u8>, at: int) {
        reveal(<EntityMessagePacket as Packet>::payload_decoding);
        reveal(<EntityMessagePacket as Packet>::payload_encoding);
        let piece_0 = u16::encoding(value.packet_length, None);
        let piece_1 = EntityId::encoding(value.entity_id, None);
        let piece_2 = ColorBGRA::encoding(value.color, None);
        let piece_3 = String::encoding(value.message, Some((value.packet_length - 12) as usize));
        let front_1 = piece_0;
        let front_2 = front_1 + piece_1;
        let front_3 = front_2 + piece_2;
        lemma_holds_at_split(data, at, front_3, piece_3);
        lemma_holds_at_split(data, at, front_2, piece_2);
        lemma_holds_at_split(data, at, front_1, piece_1);
        lemma_holds_at_bounds(data, at, Self::payload_encoding(value));
        let end = at - 2 + value.packet_length;
        let frame = data.take(end);
        u16::lemma_round_trip(value.packet_length, None, data, at);
        lemma_holds_at_take(data, end, at + front_1.len(), piece_1);
        EntityId::lemma_fixed_size(frame, at + front_1.len(), value.entity_id);
        EntityId::lemma_round_trip(value.entity_id, None, frame, at + front_1.len());
        lemma_holds_at_take(data, end, at + front_2.len(), piece_2);
        ColorBGRA::lemma_fixed_size(frame, at + front_2.len(), value.color);
        ColorBGRA::lemma_round_trip(value.color, None, frame, at + front_2.len());
        lemma_holds_at_take(data, end, at + front_3.len(), piece_3);
        String::lemma_round_trip(
            value.message,
            Some((value.packet_length - 12) as usize),
            frame,
            at + front_3.len(),
        );
    }
}

impl LengthPrefixed for EntityMessagePacket {
    open spec fn announced_length(value: EntityMessagePacketModel) -> u16 {
        value.packet_length
    }

    proof fn lemma_exact_length(data: Seq<u8>, at: int) {
        reveal(<EntityMessagePacket as Packet>::payload_decoding);
    }
}

#[derive(Clone, Debug)]
pub struct GlobalMessagePacket {
    pub packet_length: u16,
    pub message: String,
}

/// What a [`GlobalMessagePacket`] stands for.
pub struct GlobalMessagePacketModel {
    pub packet_length: u16,
    pub message: Seq<char>,
}

impl GlobalMessagePacket {
    /// The packet that [`new`](Self::new) makes.
    pub open spec fn made(packet_length: u16, message: Seq<char>) -> GlobalMessagePacketModel {
        GlobalMessagePacketModel { packet_length, message }
    }

    pub fn new(packet_length: u16, message: String) -> (packet: Self)
        ensures
            packet.model() == Self::made(packet_length.model(), message.model()),
    {
        let packet = GlobalMessagePacket { packet_length, message };
        packet
    }
}

impl Packet for GlobalMessagePacket {
    type Model = GlobalMessagePacketModel;

    const PACKET_NAME: &'static str = "GlobalMessagePacket";

    const IS_PING: bool = false;

    open spec fn model(&self) -> GlobalMessagePacketModel {
        GlobalMessagePacketModel {
            packet_length: self.packet_length.model(),
            message: self.message.model(),
        }
    }

    open spec fn packet_header() -> u16 {
        0x00f3
    }

    #[verifier::opaque]
    open spec fn payload_decoding(data: Seq<u8>, at: int) -> Result<
        (GlobalMessagePacketModel, nat),
        ConversionError,
    > {
        let packet_length = u16::decoding(data, at, None);
        let end = at - 2 + packet_length->Ok_0.0;
        let frame = data.take(end);
        let at_message = behind(at, packet_length);
        let message = String::decoding(frame, at_message, None);
        let behind_all = behind(at_message, message);
        if packet_length is Err {
            Err(packet_length->Err_0)
        } else if packet_length->Ok_0.0 < 4 {
            Err(ConversionError::Invalid)
        } else if end > data.len() {
            Err(ConversionError::Incomplete)
        } else if message is Err || behind_all != end {
            Err(ConversionError::Invalid)
        } else {
            Ok(
                (
                    GlobalMessagePacketModel {
                        packet_length: packet_length->Ok_0.0,
                        message: message->Ok_0.0,
                    },
                    (behind_all - at) as nat,
                ),
            )
        }
    }

    open spec fn encodable(value: GlobalMessagePacketModel) -> bool {
        &&& String::encodable(value.message, None)
        &&& value.packet_length == 2 + Self::payload_encoding(value).len()
    }

    open spec fn faithful(value: GlobalMessagePacketModel) -> bool {
        String::faithful(value.message, None)
    }

    #[verifier::opaque]
    open spec fn payload_encoding(value: GlobalMessagePacketModel) -> Seq<u8> {
        u16::encoding(value.packet_length, None) + String::encoding(value.message, None)
    }

    fn header() -> (header: u16) {
        0x00f3
    }

    fn payload_from_bytes(byte_stream: &mut ByteStream) -> (result: Result<
        Self,
        ConversionError,
    >) {
        proof {
            reveal(<GlobalMessagePacket as Packet>::payload_decoding);
        }
        let mut cursor = byte_stream.fork();
        let packet_length = u16::from_bytes(&mut cursor, None)?;
        if packet_length < 4 {
            return Err(ConversionError::Invalid);
        }
        if cursor.remaining_length() < (packet_length - 4) as usize {
            return Err(ConversionError::Incomplete);
        }
        let end = cursor.get_offset() + (packet_length - 4) as usize;
        let mut frame = cursor.frame(end);
        let message = match String::from_bytes(&mut frame, None) {
            Ok(value) => value,
            Err(_) => return Err(ConversionError::Invalid),
        };
        if !frame.is_empty() {
            return Err(ConversionError::Invalid);
        }
        byte_stream.follow(&frame);
        Ok(GlobalMessagePacket { packet_length, message })
    }

    fn payload_to_bytes(&self) -> (bytes: Vec<u8>) {
        proof {
            reveal(<GlobalMessagePacket as Packet>::payload_encoding);
        }
        let mut bytes = self.packet_length.to_bytes(None);
        let mut piece = self.message.to_bytes(None);
        bytes.append(&mut piece);
        bytes
    }

    proof fn lemma_payload_round_trip(value: GlobalMessagePacketModel, data: Seq<u8>, at: int) {
        reveal(<GlobalMessagePacket as Packet>::payload_decoding);
        reveal(<GlobalMessagePacket as Packet>::payload_encoding);
        let piece_0 = u16::encoding(value.packet_length, None);
        let piece_1 = String::encoding(value.message, None);
        let front_1 = piece_0;
        lemma_holds_at_split(data, at, front_1, piece_1);
        lemma_holds_at_bounds(data, at, Self::payload_encoding(value));
        let end = at - 2 + value.packet_length;
        let frame = data.take(end);
        u16::lemma_round_trip(value.packet_length, None, data, at);
        lemma_holds_at_take(data, end, at + front_1.len(), piece_1);
        String::lemma_round_trip(value.message, None, frame, at + front_1.len());
    }
}

impl LengthPrefixed for GlobalMessagePacket {
    open spec fn announced_length(value: GlobalMessagePacketModel) -> u16 {
        value.packet_length
    }

    proof fn lemma_exact_length(data: Seq<u8>, at: int) {
        reveal(<GlobalMessagePacket as Packet>::payload_decoding);
    }
}

} // verus!
