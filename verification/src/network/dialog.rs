//! The packets of dialogs with non-player characters.

use vstd::prelude::*;

use crate::loaders::convertable::{behind, ByteConvertable, FixedByteSize};
use crate::loaders::stream::{ByteStream, ConversionError};
use crate::loaders::wire::{lemma_holds_at_bounds, lemma_holds_at_split, lemma_holds_at_take};
use crate::network::ids::EntityId;
use crate::network::packet::{LengthPrefixed, Packet};

verus! {

#[derive(Clone, Copy, Debug)]
pub struct NextButtonPacket {
    pub entity_id: EntityId,
}

impl Packet for NextButtonPacket {
    type Model = NextButtonPacket;

    const PACKET_NAME: &'static str = "NextButtonPacket";

    const IS_PING: bool = false;

    open spec fn model(&self) -> NextButtonPacket {
        *self
    }

    open spec fn packet_header() -> u16 {
        0x00b5
    }

    #[verifier::opaque]
    open spec fn payload_decoding(data: Seq<u8>, at: int) -> Result<
        (NextButtonPacket, nat),
        ConversionError,
    > {
        let entity_id = EntityId::decoding(data, at, None);
        let behind_all = behind(at, entity_id);
        if entity_id is Err {
            Err(entity_id->Err_0)
        } else {
            Ok(
                (
                    NextButtonPacket {
                        entity_id: entity_id->Ok_0.0,
                    },
                    (behind_all - at) as nat,
                ),
            )
        }
    }

    open spec fn encodable(value: NextButtonPacket) -> bool {
        true
    }

    #[verifier::opaque]
    open spec fn payload_encoding(value: NextButtonPacket) -> Seq<u8> {
        EntityId::encoding(value.entity_id, None)
    }

    fn header() -> (header: u16) {
        0x00b5
    }

    fn payload_from_bytes(byte_stream: &mut ByteStream) -> (result: Result<
        Self,
        ConversionError,
    >) {
        proof {
            reveal(<NextButtonPacket as Packet>::payload_decoding);
        }
        let mut cursor = byte_stream.fork();
        let entity_id = EntityId::from_bytes(&mut cursor, None)?;
        byte_stream.follow(&cursor);
        Ok(NextButtonPacket { entity_id })
    }

    fn payload_to_bytes(&self) -> (bytes: Vec<u8>) {
        proof {
            reveal(<NextButtonPacket as Packet>::payload_encoding);
        }
        let bytes = self.entity_id.to_bytes(None);
        bytes
    }

    proof fn lemma_payload_round_trip(value: NextButtonPacket, data: Seq<u8>, at: int) {
        reveal(<NextButtonPacket as Packet>::payload_decoding);
        reveal(<NextButtonPacket as Packet>::payload_encoding);
        let piece_0 = EntityId::encoding(value.entity_id, None);
        EntityId::lemma_round_trip(value.entity_id, None, data, at);
    }
}

#[derive(Clone, Copy, Debug)]
pub struct CloseButtonPacket {
    pub entity_id: EntityId,
}

impl Packet for CloseButtonPacket {
    type Model = CloseButtonPacket;

    const PACKET_NAME: &'static str = "CloseButtonPacket";

    const IS_PING: bool = false;

    open spec fn model(&self) -> CloseButtonPacket {
        *self
    }

    open spec fn packet_header() -> u16 {
        0x00b6
    }

    #[verifier::opaque]
    open spec fn payload_decoding(data: Seq<u8>, at: int) -> Result<
        (CloseButtonPacket, nat),
        ConversionError,
    > {
        let entity_id = EntityId::decoding(data, at, None);
        let behind_all = behind(at, entity_id);
        if entity_id is Err {
            Err(entity_id->Err_0)
        } else {
            Ok(
                (
                    CloseButtonPacket {
                        entity_id: entity_id->Ok_0.0,
                    },
                    (behind_all - at) as nat,
                ),
            )
        }
    }

    open spec fn encodable(value: CloseButtonPacket) -> bool {
        true
    }

    #[verifier::opaque]
    open spec fn payload_encoding(value: CloseButtonPacket) -> Seq<u8> {
        EntityId::encoding(value.entity_id, None)
    }

    fn header() -> (header: u16) {
        0x00b6
    }

    fn payload_from_bytes(byte_stream: &mut ByteStream) -> (result: Result<
        Self,
        ConversionError,
    >) {
        proof {
            reveal(<CloseButtonPacket as Packet>::payload_decoding);
        }
        let mut cursor = byte_stream.fork();
        let entity_id = EntityId::from_bytes(&mut cursor, None)?;
        byte_stream.follow(&cursor);
        Ok(CloseButtonPacket { entity_id })
    }

    fn payload_to_bytes(&self) -> (bytes: Vec<u8>) {
        proof {
            reveal(<CloseButtonPacket as Packet>::payload_encoding);
        }
        let bytes = self.entity_id.to_bytes(None);
        bytes
    }

    proof fn lemma_payload_round_trip(value: CloseButtonPacket, data: Seq<u8>, at: int) {
        reveal(<CloseButtonPacket as Packet>::payload_decoding);
        reveal(<CloseButtonPacket as Packet>::payload_encoding);
        let piece_0 = EntityId::encoding(value.entity_id, None);
        EntityId::lemma_round_trip(value.entity_id, None, data, at);
    }
}

#[derive(Clone, Debug)]
pub struct DialogMenuPacket {
    pub packet_length: u16,
    pub entity_id: EntityId,
    pub message: String,
}

/// What a [`DialogMenuPacket`] stands for.
pub struct DialogMenuPacketModel {
    pub packet_length: u16,
    pub entity_id: EntityId,
    pub message: Seq<char>,
}

impl Packet for DialogMenuPacket {
    type Model = DialogMenuPacketModel;

    const PACKET_NAME: &'static str = "DialogMenuPacket";

    const IS_PING: bool = false;

    open spec fn model(&self) -> DialogMenuPacketModel {
        DialogMenuPacketModel {
            packet_length: self.packet_length.model(),
            entity_id: self.entity_id.model(),
            message: self.message.model(),
        }
    }

    open spec fn packet_header() -> u16 {
        0x00b7
    }

    #[verifier::opaque]
    open spec fn payload_decoding(data: Seq<u8>, at: int) -> Result<
        (DialogMenuPacketModel, nat),
        ConversionError,
    > {
        let packet_length = u16::decoding(data, at, None);
        let end = at - 2 + packet_length->Ok_0.0;
        let frame = data.take(end);
        let at_entity_id = behind(at, packet_length);
        let entity_id = EntityId::decoding(frame, at_entity_id, None);
        let at_message = behind(at_entity_id, entity_id);
        let message = String::decoding(
            frame,
            at_message,
            Some((packet_length->Ok_0.0 - 8) as usize),
        );
        let behind_all = behind(at_message, message);
        if packet_length is Err {
            Err(packet_length->Err_0)
        } else if packet_length->Ok_0.0 < 8 {
            Err(ConversionError::Invalid)
        } else if end > data.len() {
            Err(ConversionError::Incomplete)
        } else if entity_id is Err || message is Err || behind_all != end {
            Err(ConversionError::Invalid)
        } else {
            Ok(
                (
                    DialogMenuPacketModel {
                        packet_length: packet_length->Ok_0.0,
                        entity_id: entity_id->Ok_0.0,
                        message: message->Ok_0.0,
                    },
                    (behind_all - at) as nat,
                ),
            )
        }
    }

    open spec fn encodable(value: DialogMenuPacketModel) -> bool {
        &&& value.packet_length >= 8
        &&& String::encodable(value.message, Some((value.packet_length - 8) as usize))
        &&& value.packet_length == 2 + Self::payload_encoding(value).len()
    }

    open spec fn faithful(value: DialogMenuPacketModel) -> bool {
        String::faithful(value.message, Some((value.packet_length - 8) as usize))
    }

    #[verifier::opaque]
    open spec fn payload_encoding(value: DialogMenuPacketModel) -> Seq<u8> {
        u16::encoding(value.packet_length, None)
            + EntityId::encoding(value.entity_id, None)
            + String::encoding(value.message, Some((value.packet_length - 8) as usize))
    }

    fn header() -> (header: u16) {
        0x00b7
    }

    fn payload_from_bytes(byte_stream: &mut ByteStream) -> (result: Result<
        Self,
        ConversionError,
    >) {
        proof {
            reveal(<DialogMenuPacket as Packet>::payload_decoding);
        }
        let mut cursor = byte_stream.fork();
        let packet_length = u16::from_bytes(&mut cursor, None)?;
        if packet_length < 8 {
            return Err(ConversionError::Invalid);
        }
        if cursor.remaining_length() < (packet_length - 4) as usize {
            return Err(ConversionError::Incomplete);
        }
        let end = cursor.get_offset() + (packet_length - 4) as usize;
        let mut frame = cursor.frame(end);
        let entity_id = match EntityId::from_bytes(&mut frame, None) {
            Ok(value) => value,
            Err(_) => return Err(ConversionError::Invalid),
        };
        let message = match String::from_bytes(&mut frame, Some((packet_length - 8) as usize)) {
            Ok(value) => value,
            Err(_) => return Err(ConversionError::Invalid),
        };
        if !frame.is_empty() {
            return Err(ConversionError::Invalid);
        }
        byte_stream.follow(&frame);
        Ok(DialogMenuPacket { packet_length, entity_id, message })
    }

    fn payload_to_bytes(&self) -> (bytes: Vec<u8>) {
        proof {
            reveal(<DialogMenuPacket as Packet>::payload_encoding);
        }
        let mut bytes = self.packet_length.to_bytes(None);
        let mut piece = self.entity_id.to_bytes(None);
        bytes.append(&mut piece);
        let mut piece = self.message.to_bytes(Some((self.packet_length - 8) as usize));
        bytes.append(&mut piece);
        bytes
    }

    proof fn lemma_payload_round_trip(value: DialogMenuPacketModel, data: Seq<u8>, at: int) {
        reveal(<DialogMenuPacket as Packet>::payload_decoding);
        reveal(<DialogMenuPacket as Packet>::payload_encoding);
        let piece_0 = u16::encoding(value.packet_length, None);
        let piece_1 = EntityId::encoding(value.entity_id, None);
        let piece_2 = String::encoding(value.message, Some((value.packet_length - 8) as usize));
        let front_1 = piece_0;
        let front_2 = front_1 + piece_1;
        lemma_holds_at_split(data, at, front_2, piece_2);
        lemma_holds_at_split(data, at, front_1, piece_1);
        lemma_holds_at_bounds(data, at, Self::payload_encoding(value));
        let end = at - 2 + value.packet_length;
        let frame = data.take(end);
        u16::lemma_round_trip(value.packet_length, None, data, at);
        lemma_holds_at_take(data, end, at + front_1.len(), piece_1);
        EntityId::lemma_fixed_size(frame, at + front_1.len(), value.entity_id);
        EntityId::lemma_round_trip(value.entity_id, None, frame, at + front_1.len());
        lemma_holds_at_take(data, end, at + front_2.len(), piece_2);
        String::lemma_round_trip(
            value.message,
            Some((value.packet_length - 8) as usize),
            frame,
            at + front_2.len(),
        );
    }
}

impl LengthPrefixed for DialogMenuPacket {
    open spec fn announced_length(value: DialogMenuPacketModel) -> u16 {
        value.packet_length
    }

    proof fn lemma_exact_length(data: Seq<u8>, at: int) {
        reveal(<DialogMenuPacket as Packet>::payload_decoding);
    }
}

#[derive(Clone, Debug)]
pub struct NpcDialogPacket {
    pub packet_length: u16,
    pub npc_id: EntityId,
    pub text: String,
}

/// What a [`NpcDialogPacket`] stands for.
pub struct NpcDialogPacketModel {
    pub packet_length: u16,
    pub npc_id: EntityId,
    pub text: Seq<char>,
}

impl Packet for NpcDialogPacket {
    type Model = NpcDialogPacketModel;

    const PACKET_NAME: &'static str = "NpcDialogPacket";

    const IS_PING: bool = false;

    open spec fn model(&self) -> NpcDialogPacketModel {
        NpcDialogPacketModel {
            packet_length: self.packet_length.model(),
            npc_id: self.npc_id.model(),
            text: self.text.model(),
        }
    }

    open spec fn packet_header() -> u16 {
        0x00b4
    }

    #[verifier::opaque]
    open spec fn payload_decoding(data: Seq<u8>, at: int) -> Result<
        (NpcDialogPacketModel, nat),
        ConversionError,
    > {
        let packet_length = u16::decoding(data, at, None);
        let end = at - 2 + packet_length->Ok_0.0;
        let frame = data.take(end);
        let at_npc_id = behind(at, packet_length);
        let npc_id = EntityId::decoding(frame, at_npc_id, None);
        let at_text = behind(at_npc_id, npc_id);
        let text = String::decoding(frame, at_text, Some((packet_length->Ok_0.0 - 8) as usize));
        let behind_all = behind(at_text, text);
        if packet_length is Err {
            Err(packet_length->Err_0)
        } else if packet_length->Ok_0.0 < 8 {
            Err(ConversionError::Invalid)
        } else if end > data.len() {
            Err(ConversionError::Incomplete)
        } else if npc_id is Err || text is Err || behind_all != end {
            Err(ConversionError::Invalid)
        } else {
            Ok(
                (
                    NpcDialogPacketModel {
                        packet_length: packet_length->Ok_0.0,
                        npc_id: npc_id->Ok_0.0,
                        text: text->Ok_0.0,
                    },
                    (behind_all - at) as nat,
                ),
            )
        }
    }

    open spec fn encodable(value: NpcDialogPacketModel) -> bool {
        &&& value.packet_length >= 8
        &&& String::encodable(value.text, Some((value.packet_length - 8) as usize))
        &&& value.packet_length == 2 + Self::payload_encoding(value).len()
    }

    open spec fn faithful(value: NpcDialogPacketModel) -> bool {
        String::faithful(value.text, Some((value.packet_length - 8) as usize))
    }

    #[verifier::opaque]
    open spec fn payload_encoding(value: NpcDialogPacketModel) -> Seq<u8> {
        u16::encoding(value.packet_length, None)
            + EntityId::encoding(value.npc_id, None)
            + String::encoding(value.text, Some((value.packet_length - 8) as usize))
    }

    fn header() -> (header: u16) {
        0x00b4
    }

    fn payload_from_bytes(byte_stream: &mut ByteStream) -> (result: Result<
        Self,
        ConversionError,
    >) {
        proof {
            reveal(<NpcDialogPacket as Packet>::payload_decoding);
        }
        let mut cursor = byte_stream.fork();
        let packet_length = u16::from_bytes(&mut cursor, None)?;
        if packet_length < 8 {
            return Err(ConversionError::Invalid);
        }
        if cursor.remaining_length() < (packet_length - 4) as usize {
            return Err(ConversionError::Incomplete);
        }
        let end = cursor.get_offset() + (packet_length - 4) as usize;
        let mut frame = cursor.frame(end);
        let npc_id = match EntityId::from_bytes(&mut frame, None) {
            Ok(value) => value,
            Err(_) => return Err(ConversionError::Invalid),
        };
        let text = match String::from_bytes(&mut frame, Some((packet_length - 8) as usize)) {
            Ok(value) => value,
            Err(_) => return Err(ConversionError::Invalid),
        };
        if !frame.is_empty() {
            return Err(ConversionError::Invalid);
        }
        byte_stream.follow(&frame);
        Ok(NpcDialogPacket { packet_length, npc_id, text })
    }

    fn payload_to_bytes(&self) -> (bytes: Vec<u8>) {
        proof {
            reveal(<NpcDialogPacket as Packet>::payload_encoding);
        }
        let mut bytes = self.packet_length.to_bytes(None);
        let mut piece = self.npc_id.to_bytes(None);
        bytes.append(&mut piece);
        let mut piece = self.text.to_bytes(Some((self.packet_length - 8) as usize));
        bytes.append(&mut piece);
        bytes
    }

    proof fn lemma_payload_round_trip(value: NpcDialogPacketModel, data: Seq<u8>, at: int) {
        reveal(<NpcDialogPacket as Packet>::payload_decoding);
        reveal(<NpcDialogPacket as Packet>::payload_encoding);
        let piece_0 = u16::encoding(value.packet_length, None);
        let piece_1 = EntityId::encoding(value.npc_id, None);
        let piece_2 = String::encoding(value.text, Some((value.packet_length - 8) as usize));
        let front_1 = piece_0;
        let front_2 = front_1 + piece_1;
        lemma_holds_at_split(data, at, front_2, piece_2);
        lemma_holds_at_split(data, at, front_1, piece_1);
        lemma_holds_at_bounds(data, at, Self::payload_encoding(value));
        let end = at - 2 + value.packet_length;
        let frame = data.take(end);
        u16::lemma_round_trip(value.packet_length, None, data, at);
        lemma_holds_at_take(data, end, at + front_1.len(), piece_1);
        EntityId::lemma_fixed_size(frame, at + front_1.len(), value.npc_id);
        EntityId::lemma_round_trip(value.npc_id, None, frame, at + front_1.len());
        lemma_holds_at_take(data, end, at + front_2.len(), piece_2);
        String::lemma_round_trip(
            value.text,
            Some((value.packet_length - 8) as usize),
            frame,
            at + front_2.len(),
        );
    }
}

impl LengthPrefixed for NpcDialogPacket {
    open spec fn announced_length(value: NpcDialogPacketModel) -> u16 {
        value.packet_length
    }

    proof fn lemma_exact_length(data: Seq<u8>, at: int) {
        reveal(<NpcDialogPacket as Packet>::payload_decoding);
    }
}

#[derive(Clone, Copy, Debug)]
pub struct StartDialogPacket {
    pub npc_id: EntityId,
    pub dialog_type: u8,
}

impl StartDialogPacket {
    /// The packet that [`new`](Self::new) makes.
    pub open spec fn made(npc_id: EntityId) -> StartDialogPacket {
        StartDialogPacket { npc_id, dialog_type: 1 }
    }

    pub fn new(npc_id: EntityId) -> (packet: Self)
        ensures
            packet.model() == Self::made(npc_id.model()),
    {
        let packet = StartDialogPacket { npc_id, dialog_type: 1 };
        packet
    }
}

impl Packet for StartDialogPacket {
    type Model = StartDialogPacket;

    const PACKET_NAME: &'static str = "StartDialogPacket";

    const IS_PING: bool = false;

    open spec fn model(&self) -> StartDialogPacket {
        *self
    }

    open spec fn packet_header() -> u16 {
        0x0090
    }

    #[verifier::opaque]
    open spec fn payload_decoding(data: Seq<u8>, at: int) -> Result<
        (StartDialogPacket, nat),
        ConversionError,
    > {
        let npc_id = EntityId::decoding(data, at, None);
        let at_dialog_type = behind(at, npc_id);
        let dialog_type = u8::decoding(data, at_dialog_type, None);
        let behind_all = behind(at_dialog_type, dialog_type);
        if npc_id is Err {
            Err(npc_id->Err_0)
        } else if dialog_type is Err {
            Err(dialog_type->Err_0)
        } else {
            Ok(
                (
                    StartDialogPacket {
                        npc_id: npc_id->Ok_0.0,
                        dialog_type: dialog_type->Ok_0.0,
                    },
                    (behind_all - at) as nat,
                ),
            )
        }
    }

    open spec fn encodable(value: StartDialogPacket) -> bool {
        true
    }

    #[verifier::opaque]
    open spec fn payload_encoding(value: StartDialogPacket) -> Seq<u8> {
        EntityId::encoding(value.npc_id, None) + u8::encoding(value.dialog_type, None)
    }

    fn header() -> (header: u16) {
        0x0090
    }

    fn payload_from_bytes(byte_stream: &mut ByteStream) -> (result: Result<
        Self,
        ConversionError,
    >) {
        proof {
            reveal(<StartDialogPacket as Packet>::payload_decoding);
        }
        let mut cursor = byte_stream.fork();
        let npc_id = EntityId::from_bytes(&mut cursor, None)?;
        let dialog_type = u8::from_bytes(&mut cursor, None)?;
        byte_stream.follow(&cursor);
        Ok(StartDialogPacket { npc_id, dialog_type })
    }

    fn payload_to_bytes(&self) -> (bytes: Vec<u8>) {
        proof {
            reveal(<StartDialogPacket as Packet>::payload_encoding);
        }
        let mut bytes = self.npc_id.to_bytes(None);
        let mut piece = self.dialog_type.to_bytes(None);
        bytes.append(&mut piece);
        bytes
    }

    proof fn lemma_payload_round_trip(value: StartDialogPacket, data: Seq<u8>, at: int) {
        reveal(<StartDialogPacket as Packet>::payload_decoding);
        reveal(<StartDialogPacket as Packet>::payload_encoding);
        let piece_0 = EntityId::encoding(value.npc_id, None);
        let piece_1 = u8::encoding(value.dialog_type, None);
        let front_1 = piece_0;
        lemma_holds_at_split(data, at, front_1, piece_1);
        EntityId::lemma_round_trip(value.npc_id, None, data, at);
        u8::lemma_round_trip(value.dialog_type, None, data, at + front_1.len());
    }
}

#[derive(Clone, Copy, Debug)]
pub struct NextDialogPacket {
    pub npc_id: EntityId,
}

impl NextDialogPacket {
    /// The packet that [`new`](Self::new) makes.
    pub open spec fn made(npc_id: EntityId) -> NextDialogPacket {
        NextDialogPacket { npc_id }
    }

    pub fn new(npc_id: EntityId) -> (packet: Self)
        ensures
            packet.model() == Self::made(npc_id.model()),
    {
        let packet = NextDialogPacket { npc_id };
        packet
    }
}

impl Packet for NextDialogPacket {
    type Model = NextDialogPacket;

    const PACKET_NAME: &'static str = "NextDialogPacket";

    const IS_PING: bool = false;

    open spec fn model(&self) -> NextDialogPacket {
        *self
    }

    open spec fn packet_header() -> u16 {
        0x00b9
    }

    #[verifier::opaque]
    open spec fn payload_decoding(data: Seq<u8>, at: int) -> Result<
        (NextDialogPacket, nat),
        ConversionError,
    > {
        let npc_id = EntityId::decoding(data, at, None);
        let behind_all = behind(at, npc_id);
        if npc_id is Err {
            Err(npc_id->Err_0)
        } else {
            Ok(
                (
                    NextDialogPacket {
                        npc_id: npc_id->Ok_0.0,
                    },
                    (behind_all - at) as nat,
                ),
            )
        }
    }

    open spec fn encodable(value: NextDialogPacket) -> bool {
        true
    }

    #[verifier::opaque]
    open spec fn payload_encoding(value: NextDialogPacket) -> Seq<u8> {
        EntityId::encoding(value.npc_id, None)
    }

    fn header() -> (header: u16) {
        0x00b9
    }

    fn payload_from_bytes(byte_stream: &mut ByteStream) -> (result: Result<
        Self,
        ConversionError,
    >) {
        proof {
            reveal(<NextDialogPacket as Packet>::payload_decoding);
        }
        let mut cursor = byte_stream.fork();
        let npc_id = EntityId::from_bytes(&mut cursor, None)?;
        byte_stream.follow(&cursor);
        Ok(NextDialogPacket { npc_id })
    }

    fn payload_to_bytes(&self) -> (bytes: Vec<u8>) {
        proof {
            reveal(<NextDialogPacket as Packet>::payload_encoding);
        }
        let bytes = self.npc_id.to_bytes(None);
        bytes
    }

    proof fn lemma_payload_round_trip(value: NextDialogPacket, data: Seq<u8>, at: int) {
        reveal(<NextDialogPacket as Packet>::payload_decoding);
        reveal(<NextDialogPacket as Packet>::payload_encoding);
        let piece_0 = EntityId::encoding(value.npc_id, None);
        EntityId::lemma_round_trip(value.npc_id, None, data, at);
    }
}

#[derive(Clone, Copy, Debug)]
pub struct CloseDialogPacket {
    pub npc_id: EntityId,
}

impl CloseDialogPacket {
    /// The packet that [`new`](Self::new) makes.
    pub open spec fn made(npc_id: EntityId) -> CloseDialogPacket {
        CloseDialogPacket { npc_id }
    }

    pub fn new(npc_id: EntityId) -> (packet: Self)
        ensures
            packet.model() == Self::made(npc_id.model()),
    {
        let packet = CloseDialogPacket { npc_id };
        packet
    }
}

impl Packet for CloseDialogPacket {
    type Model = CloseDialogPacket;

    const PACKET_NAME: &'static str = "CloseDialogPacket";

    const IS_PING: bool = false;

    open spec fn model(&self) -> CloseDialogPacket {
        *self
    }

    open spec fn packet_header() -> u16 {
        0x0146
    }

    #[verifier::opaque]
    open spec fn payload_decoding(data: Seq<u8>, at: int) -> Result<
        (CloseDialogPacket, nat),
        ConversionError,
    > {
        let npc_id = EntityId::decoding(data, at, None);
        let behind_all = behind(at, npc_id);
        if npc_id is Err {
            Err(npc_id->Err_0)
        } else {
            Ok(
                (
                    CloseDialogPacket {
                        npc_id: npc_id->Ok_0.0,
                    },
                    (behind_all - at) as nat,
                ),
            )
        }
    }

    open spec fn encodable(value: CloseDialogPacket) -> bool {
        true
    }

    #[verifier::opaque]
    open spec fn payload_encoding(value: CloseDialogPacket) -> Seq<u8> {
        EntityId::encoding(value.npc_id, None)
    }

    fn header() -> (header: u16) {
        0x0146
    }

    fn payload_from_bytes(byte_stream: &mut ByteStream) -> (result: Result<
        Self,
        ConversionError,
    >) {
        proof {
            reveal(<CloseDialogPacket as Packet>::payload_decoding);
        }
        let mut cursor = byte_stream.fork();
        let npc_id = EntityId::from_bytes(&mut cursor, None)?;
        byte_stream.follow(&cursor);
        Ok(CloseDialogPacket { npc_id })
    }

    fn payload_to_bytes(&self) -> (bytes: Vec<u8>) {
        proof {
            reveal(<CloseDialogPacket as Packet>::payload_encoding);
        }
        let bytes = self.npc_id.to_bytes(None);
        bytes
    }

    proof fn lemma_payload_round_trip(value: CloseDialogPacket, data: Seq<u8>, at: int) {
        reveal(<CloseDialogPacket as Packet>::payload_decoding);
        reveal(<CloseDialogPacket as Packet>::payload_encoding);
        let piece_0 = EntityId::encoding(value.npc_id, None);
        EntityId::lemma_round_trip(value.npc_id, None, data, at);
    }
}

#[derive(Clone, Copy, Debug)]
pub struct ChooseDialogOptionPacket {
    pub npc_id: EntityId,
    pub option: i8,
}

impl ChooseDialogOptionPacket {
    /// The packet that [`new`](Self::new) makes.
    pub open spec fn made(npc_id: EntityId, option: i8) -> ChooseDialogOptionPacket {
        ChooseDialogOptionPacket { npc_id, option }
    }

    pub fn new(npc_id: EntityId, option: i8) -> (packet: Self)
        ensures
            packet.model() == Self::made(npc_id.model(), option.model()),
    {
        let packet = ChooseDialogOptionPacket { npc_id, option };
        packet
    }
}

impl Packet for ChooseDialogOptionPacket {
    type Model = ChooseDialogOptionPacket;

    const PACKET_NAME: &'static str = "ChooseDialogOptionPacket";

    const IS_PING: bool = false;

    open spec fn model(&self) -> ChooseDialogOptionPacket {
        *self
    }

    open spec fn packet_header() -> u16 {
        0x00b8
    }

    #[verifier::opaque]
    open spec fn payload_decoding(data: Seq<u8>, at: int) -> Result<
        (ChooseDialogOptionPacket, nat),
        ConversionError,
    > {
        let npc_id = EntityId::decoding(data, at, None);
        let at_option = behind(at, npc_id);
        let option = i8::decoding(data, at_option, None);
        let behind_all = behind(at_option, option);
        if npc_id is Err {
            Err(npc_id->Err_0)
        } else if option is Err {
            Err(option->Err_0)
        } else {
            Ok(
                (
                    ChooseDialogOptionPacket {
                        npc_id: npc_id->Ok_0.0,
                        option: option->Ok_0.0,
                    },
                    (behind_all - at) as nat,
                ),
            )
        }
    }

    open spec fn encodable(value: ChooseDialogOptionPacket) -> bool {
        true
    }

    #[verifier::opaque]
    open spec fn payload_encoding(value: ChooseDialogOptionPacket) -> Seq<u8> {
        EntityId::encoding(value.npc_id, None) + i8::encoding(value.option, None)
    }

    fn header() -> (header: u16) {
        0x00b8
    }

    fn payload_from_bytes(byte_stream: &mut ByteStream) -> (result: Result<
        Self,
        ConversionError,
    >) {
        proof {
            reveal(<ChooseDialogOptionPacket as Packet>::payload_decoding);
        }
        let mut cursor = byte_stream.fork();
        let npc_id = EntityId::from_bytes(&mut cursor, None)?;
        let option = i8::from_bytes(&mut cursor, None)?;
        byte_stream.follow(&cursor);
        Ok(ChooseDialogOptionPacket { npc_id, option })
    }

    fn payload_to_bytes(&self) -> (bytes: Vec<u8>) {
        proof {
            reveal(<ChooseDialogOptionPacket as Packet>::payload_encoding);
        }
        let mut bytes = self.npc_id.to_bytes(None);
        let mut piece = self.option.to_bytes(None);
        bytes.append(&mut piece);
        bytes
    }

    proof fn lemma_payload_round_trip(value: ChooseDialogOptionPacket, data: Seq<u8>, at: int) {
        reveal(<ChooseDialogOptionPacket as Packet>::payload_decoding);
        reveal(<ChooseDialogOptionPacket as Packet>::payload_encoding);
        let piece_0 = EntityId::encoding(value.npc_id, None);
        let piece_1 = i8::encoding(value.option, None);
        let front_1 = piece_0;
        lemma_holds_at_split(data, at, front_1, piece_1);
        EntityId::lemma_round_trip(value.npc_id, None, data, at);
        i8::lemma_round_trip(value.option, None, data, at + front_1.len());
    }
}

} // verus!
