//! The packets about friends, parties and clans.

use vstd::prelude::*;
use vstd::string::StringExecFns;

use crate::loaders::convertable::{
    all_encodable, all_faithful, behind, count_whole, decode_repeated, encode_repeated,
    lemma_repeated_round_trip, lemma_repeated_size, lemma_whole_count, models, repeated_decoding,
    repeated_encoding, whole_count, ByteConvertable, FixedByteSize,
};
use crate::loaders::stream::{ByteStream, ConversionError};
use crate::loaders::wire::{lemma_holds_at_bounds, lemma_holds_at_split, lemma_holds_at_take};
use crate::network::ids::{AccountId, CharacterId, PartyId};
use crate::network::packet::{LengthPrefixed, Packet};

verus! {

#[derive(Debug)]
pub struct Friend {
    pub account_id: AccountId,
    pub character_id: CharacterId,
    pub name: String,
}

/// What a [`Friend`] stands for.
pub struct FriendModel {
    pub account_id: AccountId,
    pub character_id: CharacterId,
    pub name: Seq<char>,
}

impl Clone for Friend {
    fn clone(&self) -> (copy: Self)
        ensures
            copy.model() == self.model(),
    {
        Friend {
            account_id: self.account_id,
            character_id: self.character_id,
            name: self.name.clone(),
        }
    }
}

impl ByteConvertable for Friend {
    type Model = FriendModel;

    open spec fn model(&self) -> FriendModel {
        FriendModel {
            account_id: self.account_id.model(),
            character_id: self.character_id.model(),
            name: self.name.model(),
        }
    }

    open spec fn accepts(length_hint: Option<usize>) -> bool {
        length_hint is None
    }

    #[verifier::opaque]
    open spec fn decoding(data: Seq<u8>, at: int, length_hint: Option<usize>) -> Result<
        (FriendModel, nat),
        ConversionError,
    > {
        let account_id = AccountId::decoding(data, at, None);
        let at_character_id = behind(at, account_id);
        let character_id = CharacterId::decoding(data, at_character_id, None);
        let at_name = behind(at_character_id, character_id);
        let name = String::decoding(data, at_name, Some(24));
        let behind_all = behind(at_name, name);
        if account_id is Err {
            Err(account_id->Err_0)
        } else if character_id is Err {
            Err(character_id->Err_0)
        } else if name is Err {
            Err(name->Err_0)
        } else {
            Ok(
                (
                    FriendModel {
                        account_id: account_id->Ok_0.0,
                        character_id: character_id->Ok_0.0,
                        name: name->Ok_0.0,
                    },
                    (behind_all - at) as nat,
                ),
            )
        }
    }

    open spec fn encodable(value: FriendModel, length_hint: Option<usize>) -> bool {
        String::encodable(value.name, Some(24))
    }

    open spec fn faithful(value: FriendModel, length_hint: Option<usize>) -> bool {
        String::faithful(value.name, Some(24))
    }

    #[verifier::opaque]
    open spec fn encoding(value: FriendModel, length_hint: Option<usize>) -> Seq<u8> {
        AccountId::encoding(value.account_id, None)
            + CharacterId::encoding(value.character_id, None)
            + String::encoding(value.name, Some(24))
    }

    fn from_bytes(byte_stream: &mut ByteStream, length_hint: Option<usize>) -> (result: Result<
        Self,
        ConversionError,
    >) {
        proof {
            reveal(<Friend as ByteConvertable>::decoding);
        }
        let mut cursor = byte_stream.fork();
        let account_id = AccountId::from_bytes(&mut cursor, None)?;
        let character_id = CharacterId::from_bytes(&mut cursor, None)?;
        let name = String::from_bytes(&mut cursor, Some(24))?;
        byte_stream.follow(&cursor);
        Ok(Friend { account_id, character_id, name })
    }

    fn to_bytes(&self, length_hint: Option<usize>) -> (bytes: Vec<u8>) {
        proof {
            reveal(<Friend as ByteConvertable>::encoding);
        }
        let mut bytes = self.account_id.to_bytes(None);
        let mut piece = self.character_id.to_bytes(None);
        bytes.append(&mut piece);
        let mut piece = self.name.to_bytes(Some(24));
        bytes.append(&mut piece);
        bytes
    }

    proof fn lemma_round_trip(
        value: FriendModel,
        length_hint: Option<usize>,
        data: Seq<u8>,
        at: int,
    ) {
        reveal(<Friend as ByteConvertable>::decoding);
        reveal(<Friend as ByteConvertable>::encoding);
        let piece_0 = AccountId::encoding(value.account_id, None);
        let piece_1 = CharacterId::encoding(value.character_id, None);
        let piece_2 = String::encoding(value.name, Some(24));
        let front_1 = piece_0;
        let front_2 = front_1 + piece_1;
        lemma_holds_at_split(data, at, front_2, piece_2);
        lemma_holds_at_split(data, at, front_1, piece_1);
        AccountId::lemma_round_trip(value.account_id, None, data, at);
        CharacterId::lemma_round_trip(value.character_id, None, data, at + front_1.len());
        String::lemma_round_trip(value.name, Some(24), data, at + front_2.len());
    }
}

impl FixedByteSize for Friend {
    open spec fn size() -> nat {
        32
    }

    fn size_in_bytes() -> (size: usize) {
        32
    }

    proof fn lemma_fixed_size(data: Seq<u8>, at: int, value: FriendModel) {
        reveal(<Friend as ByteConvertable>::decoding);
        reveal(<Friend as ByteConvertable>::encoding);
        assert(Self::size() == 32);
        AccountId::lemma_fixed_size(data, at, value.account_id);
        CharacterId::lemma_fixed_size(data, at + 4, value.character_id);
    }
}

#[derive(Clone, Debug)]
pub struct AddFriendPacket {
    pub name: String,
}

/// What a [`AddFriendPacket`] stands for.
pub struct AddFriendPacketModel {
    pub name: Seq<char>,
}

impl AddFriendPacket {
    /// The packet that [`new`](Self::new) makes.
    pub open spec fn made(name: Seq<char>) -> AddFriendPacketModel {
        AddFriendPacketModel { name }
    }

    pub fn new(name: String) -> (packet: Self)
        ensures
            packet.model() == Self::made(name.model()),
    {
        let packet = AddFriendPacket { name };
        packet
    }
}

impl Packet for AddFriendPacket {
    type Model = AddFriendPacketModel;

    const PACKET_NAME: &'static str = "AddFriendPacket";

    const IS_PING: bool = false;

    open spec fn model(&self) -> AddFriendPacketModel {
        AddFriendPacketModel {
            name: self.name.model(),
        }
    }

    open spec fn packet_header() -> u16 {
        0x0202
    }

    #[verifier::opaque]
    open spec fn payload_decoding(data: Seq<u8>, at: int) -> Result<
        (AddFriendPacketModel, nat),
        ConversionError,
    > {
        let name = String::decoding(data, at, Some(24));
        let behind_all = behind(at, name);
        if name is Err {
            Err(name->Err_0)
        } else {
            Ok(
                (
                    AddFriendPacketModel {
                        name: name->Ok_0.0,
                    },
                    (behind_all - at) as nat,
                ),
            )
        }
    }

    open spec fn encodable(value: AddFriendPacketModel) -> bool {
        String::encodable(value.name, Some(24))
    }

    open spec fn faithful(value: AddFriendPacketModel) -> bool {
        String::faithful(value.name, Some(24))
    }

    #[verifier::opaque]
    open spec fn payload_encoding(value: AddFriendPacketModel) -> Seq<u8> {
        String::encoding(value.name, Some(24))
    }

    fn header() -> (header: u16) {
        0x0202
    }

    fn payload_from_bytes(byte_stream: &mut ByteStream) -> (result: Result<
        Self,
        ConversionError,
    >) {
        proof {
            reveal(<AddFriendPacket as Packet>::payload_decoding);
        }
        let mut cursor = byte_stream.fork();
        let name = String::from_bytes(&mut cursor, Some(24))?;
        byte_stream.follow(&cursor);
        Ok(AddFriendPacket { name })
    }

    fn payload_to_bytes(&self) -> (bytes: Vec<u8>) {
        proof {
            reveal(<AddFriendPacket as Packet>::payload_encoding);
        }
        let bytes = self.name.to_bytes(Some(24));
        bytes
    }

    proof fn lemma_payload_round_trip(value: AddFriendPacketModel, data: Seq<u8>, at: int) {
        reveal(<AddFriendPacket as Packet>::payload_decoding);
        reveal(<AddFriendPacket as Packet>::payload_encoding);
        let piece_0 = String::encoding(value.name, Some(24));
        String::lemma_round_trip(value.name, Some(24), data, at);
    }
}

#[derive(Clone, Copy, Debug)]
pub struct RemoveFriendPacket {
    pub account_id: AccountId,
    pub character_id: CharacterId,
}

impl RemoveFriendPacket {
    /// The packet that [`new`](Self::new) makes.
    pub open spec fn made(account_id: AccountId, character_id: CharacterId) -> RemoveFriendPacket {
        RemoveFriendPacket { account_id, character_id }
    }

    pub fn new(account_id: AccountId, character_id: CharacterId) -> (packet: Self)
        ensures
            packet.model() == Self::made(account_id.model(), character_id.model()),
    {
        let packet = RemoveFriendPacket { account_id, character_id };
        packet
    }
}

impl Packet for RemoveFriendPacket {
    type Model = RemoveFriendPacket;

    const PACKET_NAME: &'static str = "RemoveFriendPacket";

    const IS_PING: bool = false;

    open spec fn model(&self) -> RemoveFriendPacket {
        *self
    }

    open spec fn packet_header() -> u16 {
        0x0203
    }

    #[verifier::opaque]
    open spec fn payload_decoding(data: Seq<u8>, at: int) -> Result<
        (RemoveFriendPacket, nat),
        ConversionError,
    > {
        let account_id = AccountId::decoding(data, at, None);
        let at_character_id = behind(at, account_id);
        let character_id = CharacterId::decoding(data, at_character_id, None);
        let behind_all = behind(at_character_id, character_id);
        if account_id is Err {
            Err(account_id->Err_0)
        } else if character_id is Err {
            Err(character_id->Err_0)
        } else {
            Ok(
                (
                    RemoveFriendPacket {
                        account_id: account_id->Ok_0.0,
                        character_id: character_id->Ok_0.0,
                    },
                    (behind_all - at) as nat,
                ),
            )
        }
    }

    open spec fn encodable(value: RemoveFriendPacket) -> bool {
        true
    }

    #[verifier::opaque]
    open spec fn payload_encoding(value: RemoveFriendPacket) -> Seq<u8> {
        AccountId::encoding(value.account_id, None)
            + CharacterId::encoding(value.character_id, None)
    }

    fn header() -> (header: u16) {
        0x0203
    }

    fn payload_from_bytes(byte_stream: &mut ByteStream) -> (result: Result<
        Self,
        ConversionError,
    >) {
        proof {
            reveal(<RemoveFriendPacket as Packet>::payload_decoding);
        }
        let mut cursor = byte_stream.fork();
        let account_id = AccountId::from_bytes(&mut cursor, None)?;
        let character_id = CharacterId::from_bytes(&mut cursor, None)?;
        byte_stream.follow(&cursor);
        Ok(RemoveFriendPacket { account_id, character_id })
    }

    fn payload_to_bytes(&self) -> (bytes: Vec<u8>) {
        proof {
            reveal(<RemoveFriendPacket as Packet>::payload_encoding);
        }
        let mut bytes = self.account_id.to_bytes(None);
        let mut piece = self.character_id.to_bytes(None);
        bytes.append(&mut piece);
        bytes
    }

    proof fn lemma_payload_round_trip(value: RemoveFriendPacket, data: Seq<u8>, at: int) {
        reveal(<RemoveFriendPacket as Packet>::payload_decoding);
        reveal(<RemoveFriendPacket as Packet>::payload_encoding);
        let piece_0 = AccountId::encoding(value.account_id, None);
        let piece_1 = CharacterId::encoding(value.character_id, None);
        let front_1 = piece_0;
        lemma_holds_at_split(data, at, front_1, piece_1);
        AccountId::lemma_round_trip(value.account_id, None, data, at);
        CharacterId::lemma_round_trip(value.character_id, None, data, at + front_1.len());
    }
}

#[derive(Clone, Copy, Debug)]
pub struct NotifyFriendRemovedPacket {
    pub account_id: AccountId,
    pub character_id: CharacterId,
}

impl Packet for NotifyFriendRemovedPacket {
    type Model = NotifyFriendRemovedPacket;

    const PACKET_NAME: &'static str = "NotifyFriendRemovedPacket";

    const IS_PING: bool = false;

    open spec fn model(&self) -> NotifyFriendRemovedPacket {
        *self
    }

    open spec fn packet_header() -> u16 {
        0x020a
    }

    #[verifier::opaque]
    open spec fn payload_decoding(data: Seq<u8>, at: int) -> Result<
        (NotifyFriendRemovedPacket, nat),
        ConversionError,
    > {
        let account_id = AccountId::decoding(data, at, None);
        let at_character_id = behind(at, account_id);
        let character_id = CharacterId::decoding(data, at_character_id, None);
        let behind_all = behind(at_character_id, character_id);
        if account_id is Err {
            Err(account_id->Err_0)
        } else if character_id is Err {
            Err(character_id->Err_0)
        } else {
            Ok(
                (
                    NotifyFriendRemovedPacket {
                        account_id: account_id->Ok_0.0,
                        character_id: character_id->Ok_0.0,
                    },
                    (behind_all - at) as nat,
                ),
            )
        }
    }

    open spec fn encodable(value: NotifyFriendRemovedPacket) -> bool {
        true
    }

    #[verifier::opaque]
    open spec fn payload_encoding(value: NotifyFriendRemovedPacket) -> Seq<u8> {
        AccountId::encoding(value.account_id, None)
            + CharacterId::encoding(value.character_id, None)
    }

    fn header() -> (header: u16) {
        0x020a
    }

    fn payload_from_bytes(byte_stream: &mut ByteStream) -> (result: Result<
        Self,
        ConversionError,
    >) {
        proof {
            reveal(<NotifyFriendRemovedPacket as Packet>::payload_decoding);
        }
        let mut cursor = byte_stream.fork();
        let account_id = AccountId::from_bytes(&mut cursor, None)?;
        let character_id = CharacterId::from_bytes(&mut cursor, None)?;
        byte_stream.follow(&cursor);
        Ok(NotifyFriendRemovedPacket { account_id, character_id })
    }

    fn payload_to_bytes(&self) -> (bytes: Vec<u8>) {
        proof {
            reveal(<NotifyFriendRemovedPacket as Packet>::payload_encoding);
        }
        let mut bytes = self.account_id.to_bytes(None);
        let mut piece = self.character_id.to_bytes(None);
        bytes.append(&mut piece);
        bytes
    }

    proof fn lemma_payload_round_trip(value: NotifyFriendRemovedPacket, data: Seq<u8>, at: int) {
        reveal(<NotifyFriendRemovedPacket as Packet>::payload_decoding);
        reveal(<NotifyFriendRemovedPacket as Packet>::payload_encoding);
        let piece_0 = AccountId::encoding(value.account_id, None);
        let piece_1 = CharacterId::encoding(value.character_id, None);
        let front_1 = piece_0;
        lemma_holds_at_split(data, at, front_1, piece_1);
        AccountId::lemma_round_trip(value.account_id, None, data, at);
        CharacterId::lemma_round_trip(value.character_id, None, data, at + front_1.len());
    }
}

#[derive(Clone, Debug)]
pub struct FriendListPacket {
    pub packet_length: u16,
    pub friends: Vec<Friend>,
}

/// What a [`FriendListPacket`] stands for.
pub struct FriendListPacketModel {
    pub packet_length: u16,
    pub friends: Seq<FriendModel>,
}

impl Packet for FriendListPacket {
    type Model = FriendListPacketModel;

    const PACKET_NAME: &'static str = "FriendListPacket";

    const IS_PING: bool = false;

    open spec fn model(&self) -> FriendListPacketModel {
        FriendListPacketModel {
            packet_length: self.packet_length.model(),
            friends: models(self.friends@),
        }
    }

    open spec fn packet_header() -> u16 {
        0x0201
    }

    #[verifier::opaque]
    open spec fn payload_decoding(data: Seq<u8>, at: int) -> Result<
        (FriendListPacketModel, nat),
        ConversionError,
    > {
        let packet_length = u16::decoding(data, at, None);
        let end = at - 2 + packet_length->Ok_0.0;
        let frame = data.take(end);
        let at_friends = behind(at, packet_length);
        let friends = repeated_decoding::<Friend>(
            frame,
            at_friends,
            whole_count::<Friend>(packet_length->Ok_0.0 - 4)->Some_0,
        );
        let behind_all = behind(at_friends, friends);
        if packet_length is Err {
            Err(packet_length->Err_0)
        } else if packet_length->Ok_0.0 < 4 {
            Err(ConversionError::Invalid)
        } else if end > data.len() {
            Err(ConversionError::Incomplete)
        } else if whole_count::<Friend>(packet_length->Ok_0.0 - 4) is None
            || friends is Err
            || behind_all != end {
            Err(ConversionError::Invalid)
        } else {
            Ok(
                (
                    FriendListPacketModel {
                        packet_length: packet_length->Ok_0.0,
                        friends: friends->Ok_0.0,
                    },
                    (behind_all - at) as nat,
                ),
            )
        }
    }

    open spec fn encodable(value: FriendListPacketModel) -> bool {
        &&& all_encodable::<Friend>(value.friends)
        &&& value.packet_length == 2 + Self::payload_encoding(value).len()
    }

    open spec fn faithful(value: FriendListPacketModel) -> bool {
        all_faithful::<Friend>(value.friends)
    }

    #[verifier::opaque]
    open spec fn payload_encoding(value: FriendListPacketModel) -> Seq<u8> {
        u16::encoding(value.packet_length, None) + repeated_encoding::<Friend>(value.friends)
    }

    fn header() -> (header: u16) {
        0x0201
    }

    fn payload_from_bytes(byte_stream: &mut ByteStream) -> (result: Result<
        Self,
        ConversionError,
    >) {
        proof {
            reveal(<FriendListPacket as Packet>::payload_decoding);
        }
        let mut cursor = byte_stream.fork();
        let packet_length = u16::from_bytes(&mut cursor, None)?;
        if packet_length < 4 {
            return Err(ConversionError::Invalid);
        }
        if cursor.remaining_length() < (packet_length - 4) as usize {
            return Err(ConversionError::Incomplete);
        }
        let end = cursor.get_offset() + (packet_length - 4) as usize;
        let mut frame = cursor.frame(end);
        let count = match count_whole::<Friend>((packet_length - 4) as usize) {
            Some(count) => count,
            None => return Err(ConversionError::Invalid),
        };
        let friends = match decode_repeated::<Friend>(&mut frame, count) {
            Ok(value) => value,
            Err(_) => return Err(ConversionError::Invalid),
        };
        if !frame.is_empty() {
            return Err(ConversionError::Invalid);
        }
        byte_stream.follow(&frame);
        Ok(FriendListPacket { packet_length, friends })
    }

    fn payload_to_bytes(&self) -> (bytes: Vec<u8>) {
        proof {
            reveal(<FriendListPacket as Packet>::payload_encoding);
        }
        let mut bytes = self.packet_length.to_bytes(None);
        let mut piece = encode_repeated::<Friend>(&self.friends);
        bytes.append(&mut piece);
        bytes
    }

    proof fn lemma_payload_round_trip(value: FriendListPacketModel, data: Seq<u8>, at: int) {
        reveal(<FriendListPacket as Packet>::payload_decoding);
        reveal(<FriendListPacket as Packet>::payload_encoding);
        let piece_0 = u16::encoding(value.packet_length, None);
        let piece_1 = repeated_encoding::<Friend>(value.friends);
        let front_1 = piece_0;
        lemma_holds_at_split(data, at, front_1, piece_1);
        lemma_holds_at_bounds(data, at, Self::payload_encoding(value));
        let end = at - 2 + value.packet_length;
        let frame = data.take(end);
        u16::lemma_round_trip(value.packet_length, None, data, at);
        lemma_holds_at_take(data, end, at + front_1.len(), piece_1);
        lemma_repeated_size::<Friend>(frame, at + front_1.len(), value.friends);
        assert(Friend::size() == 32);
        lemma_whole_count::<Friend>(value.friends.len());
        lemma_repeated_round_trip::<Friend>(value.friends, frame, at + front_1.len());
    }
}

impl LengthPrefixed for FriendListPacket {
    open spec fn announced_length(value: FriendListPacketModel) -> u16 {
        value.packet_length
    }

    proof fn lemma_exact_length(data: Seq<u8>, at: int) {
        reveal(<FriendListPacket as Packet>::payload_decoding);
    }
}

#[derive(Clone, Copy, Debug, PartialEq, Eq, Structural)]
pub enum OnlineState {
    Online,
    Offline,
}

impl OnlineState {
    /// The number that stands for a variant on the wire.
    pub open spec fn code(self) -> u8 {
        match self {
            OnlineState::Online => 0,
            OnlineState::Offline => 1,
        }
    }

    /// The variant that a number stands for.
    pub open spec fn of_code(code: u8) -> Option<OnlineState> {
        if code == 0 {
            Some(OnlineState::Online)
        } else if code == 1 {
            Some(OnlineState::Offline)
        } else {
            None
        }
    }
}

impl ByteConvertable for OnlineState {
    type Model = OnlineState;

    open spec fn model(&self) -> OnlineState {
        *self
    }

    open spec fn accepts(length_hint: Option<usize>) -> bool {
        length_hint is None
    }

    open spec fn decoding(data: Seq<u8>, at: int, length_hint: Option<usize>) -> Result<
        (OnlineState, nat),
        ConversionError,
    > {
        match u8::decoding(data, at, None) {
            Ok((code, length)) => match OnlineState::of_code(code) {
                Some(value) => Ok((value, length)),
                None => Err(ConversionError::Invalid),
            },
            Err(error) => Err(error),
        }
    }

    open spec fn encodable(value: OnlineState, length_hint: Option<usize>) -> bool {
        true
    }

    open spec fn encoding(value: OnlineState, length_hint: Option<usize>) -> Seq<u8> {
        u8::encoding(value.code(), None)
    }

    fn from_bytes(byte_stream: &mut ByteStream, length_hint: Option<usize>) -> (result: Result<
        Self,
        ConversionError,
    >) {
        let mut cursor = byte_stream.fork();
        let code = u8::from_bytes(&mut cursor, None)?;
        let value = match code {
            0 => OnlineState::Online,
            1 => OnlineState::Offline,
            _ => return Err(ConversionError::Invalid),
        };
        byte_stream.follow(&cursor);
        Ok(value)
    }

    fn to_bytes(&self, length_hint: Option<usize>) -> (bytes: Vec<u8>) {
        let code: u8 = match self {
            OnlineState::Online => 0,
            OnlineState::Offline => 1,
        };
        code.to_bytes(None)
    }

    proof fn lemma_round_trip(
        value: OnlineState,
        length_hint: Option<usize>,
        data: Seq<u8>,
        at: int,
    ) {
        u8::lemma_round_trip(value.code(), None, data, at);
    }
}

impl FixedByteSize for OnlineState {
    open spec fn size() -> nat {
        1
    }

    fn size_in_bytes() -> (size: usize) {
        1
    }

    proof fn lemma_fixed_size(data: Seq<u8>, at: int, value: OnlineState) {
        assert(Self::size() == 1);
    }
}

#[derive(Clone, Debug)]
pub struct FriendOnlineStatusPacket {
    pub account_id: AccountId,
    pub character_id: CharacterId,
    pub state: OnlineState,
    pub name: String,
}

/// What a [`FriendOnlineStatusPacket`] stands for.
pub struct FriendOnlineStatusPacketModel {
    pub account_id: AccountId,
    pub character_id: CharacterId,
    pub state: OnlineState,
    pub name: Seq<char>,
}

impl Packet for FriendOnlineStatusPacket {
    type Model = FriendOnlineStatusPacketModel;

    const PACKET_NAME: &'static str = "FriendOnlineStatusPacket";

    const IS_PING: bool = false;

    open spec fn model(&self) -> FriendOnlineStatusPacketModel {
        FriendOnlineStatusPacketModel {
            account_id: self.account_id.model(),
            character_id: self.character_id.model(),
            state: self.state.model(),
            name: self.name.model(),
        }
    }

    open spec fn packet_header() -> u16 {
        0x0206
    }

    #[verifier::opaque]
    open spec fn payload_decoding(data: Seq<u8>, at: int) -> Result<
        (FriendOnlineStatusPacketModel, nat),
        ConversionError,
    > {
        let account_id = AccountId::decoding(data, at, None);
        let at_character_id = behind(at, account_id);
        let character_id = CharacterId::decoding(data, at_character_id, None);
        let at_state = behind(at_character_id, character_id);
        let state = OnlineState::decoding(data, at_state, None);
        let at_name = behind(at_state, state);
        let name = String::decoding(data, at_name, Some(24));
        let behind_all = behind(at_name, name);
        if account_id is Err {
            Err(account_id->Err_0)
        } else if character_id is Err {
            Err(character_id->Err_0)
        } else if state is Err {
            Err(state->Err_0)
        } else if name is Err {
            Err(name->Err_0)
        } else {
            Ok(
                (
                    FriendOnlineStatusPacketModel {
                        account_id: account_id->Ok_0.0,
                        character_id: character_id->Ok_0.0,
                        state: state->Ok_0.0,
                        name: name->Ok_0.0,
                    },
                    (behind_all - at) as nat,
                ),
            )
        }
    }

    open spec fn encodable(value: FriendOnlineStatusPacketModel) -> bool {
        String::encodable(value.name, Some(24))
    }

    open spec fn faithful(value: FriendOnlineStatusPacketModel) -> bool {
        String::faithful(value.name, Some(24))
    }

    #[verifier::opaque]
    open spec fn payload_encoding(value: FriendOnlineStatusPacketModel) -> Seq<u8> {
        AccountId::encoding(value.account_id, None)
            + CharacterId::encoding(value.character_id, None)
            + OnlineState::encoding(value.state, None)
            + String::encoding(value.name, Some(24))
    }

    fn header() -> (header: u16) {
        0x0206
    }

    fn payload_from_bytes(byte_stream: &mut ByteStream) -> (result: Result<
        Self,
        ConversionError,
    >) {
        proof {
            reveal(<FriendOnlineStatusPacket as Packet>::payload_decoding);
        }
        let mut cursor = byte_stream.fork();
        let account_id = AccountId::from_bytes(&mut cursor, None)?;
        let character_id = CharacterId::from_bytes(&mut cursor, None)?;
        let state = OnlineState::from_bytes(&mut cursor, None)?;
        let name = String::from_bytes(&mut cursor, Some(24))?;
        byte_stream.follow(&cursor);
        Ok(FriendOnlineStatusPacket { account_id, character_id, state, name })
    }

    fn payload_to_bytes(&self) -> (bytes: Vec<u8>) {
        proof {
            reveal(<FriendOnlineStatusPacket as Packet>::payload_encoding);
        }
        let mut bytes = self.account_id.to_bytes(None);
        let mut piece = self.character_id.to_bytes(None);
        bytes.append(&mut piece);
        let mut piece = self.state.to_bytes(None);
        bytes.append(&mut piece);
        let mut piece = self.name.to_bytes(Some(24));
        bytes.append(&mut piece);
        bytes
    }

    proof fn lemma_payload_round_trip(
        value: FriendOnlineStatusPacketModel,
        data: Seq<u8>,
        at: int,
    ) {
        reveal(<FriendOnlineStatusPacket as Packet>::payload_decoding);
        reveal(<FriendOnlineStatusPacket as Packet>::payload_encoding);
        let piece_0 = AccountId::encoding(value.account_id, None);
        let piece_1 = CharacterId::encoding(value.character_id, None);
        let piece_2 = OnlineState::encoding(value.state, None);
        let piece_3 = String::encoding(value.name, Some(24));
        let front_1 = piece_0;
        let front_2 = front_1 + piece_1;
        let front_3 = front_2 + piece_2;
        lemma_holds_at_split(data, at, front_3, piece_3);
        lemma_holds_at_split(data, at, front_2, piece_2);
        lemma_holds_at_split(data, at, front_1, piece_1);
        AccountId::lemma_round_trip(value.account_id, None, data, at);
        CharacterId::lemma_round_trip(value.character_id, None, data, at + front_1.len());
        OnlineState::lemma_round_trip(value.state, None, data, at + front_2.len());
        String::lemma_round_trip(value.name, Some(24), data, at + front_3.len());
    }
}

#[derive(Clone, Debug)]
pub struct FriendRequestPacket {
    pub friend: Friend,
}

/// What a [`FriendRequestPacket`] stands for.
pub struct FriendRequestPacketModel {
    pub friend: FriendModel,
}

impl Packet for FriendRequestPacket {
    type Model = FriendRequestPacketModel;

    const PACKET_NAME: &'static str = "FriendRequestPacket";

    const IS_PING: bool = false;

    open spec fn model(&self) -> FriendRequestPacketModel {
        FriendRequestPacketModel {
            friend: self.friend.model(),
        }
    }

    open spec fn packet_header() -> u16 {
        0x0207
    }

    #[verifier::opaque]
    open spec fn payload_decoding(data: Seq<u8>, at: int) -> Result<
        (FriendRequestPacketModel, nat),
        ConversionError,
    > {
        let friend = Friend::decoding(data, at, None);
        let behind_all = behind(at, friend);
        if friend is Err {
            Err(friend->Err_0)
        } else {
            Ok(
                (
                    FriendRequestPacketModel {
                        friend: friend->Ok_0.0,
                    },
                    (behind_all - at) as nat,
                ),
            )
        }
    }

    open spec fn encodable(value: FriendRequestPacketModel) -> bool {
        Friend::encodable(value.friend, None)
    }

    open spec fn faithful(value: FriendRequestPacketModel) -> bool {
        Friend::faithful(value.friend, None)
    }

    #[verifier::opaque]
    open spec fn payload_encoding(value: FriendRequestPacketModel) -> Seq<u8> {
        Friend::encoding(value.friend, None)
    }

    fn header() -> (header: u16) {
        0x0207
    }

    fn payload_from_bytes(byte_stream: &mut ByteStream) -> (result: Result<
        Self,
        ConversionError,
    >) {
        proof {
            reveal(<FriendRequestPacket as Packet>::payload_decoding);
        }
        let mut cursor = byte_stream.fork();
        let friend = Friend::from_bytes(&mut cursor, None)?;
        byte_stream.follow(&cursor);
        Ok(FriendRequestPacket { friend })
    }

    fn payload_to_bytes(&self) -> (bytes: Vec<u8>) {
        proof {
            reveal(<FriendRequestPacket as Packet>::payload_encoding);
        }
        let bytes = self.friend.to_bytes(None);
        bytes
    }

    proof fn lemma_payload_round_trip(value: FriendRequestPacketModel, data: Seq<u8>, at: int) {
        reveal(<FriendRequestPacket as Packet>::payload_decoding);
        reveal(<FriendRequestPacket as Packet>::payload_encoding);
        let piece_0 = Friend::encoding(value.friend, None);
        Friend::lemma_round_trip(value.friend, None, data, at);
    }
}

#[derive(Clone, Copy, Debug, PartialEq, Eq, Structural)]
pub enum FriendRequestResponse {
    Reject,
    Accept,
}

impl FriendRequestResponse {
    /// The number that stands for a variant on the wire.
    pub open spec fn code(self) -> u32 {
        match self {
            FriendRequestResponse::Reject => 0,
            FriendRequestResponse::Accept => 1,
        }
    }

    /// The variant that a number stands for.
    pub open spec fn of_code(code: u32) -> Option<FriendRequestResponse> {
        if code == 0 {
            Some(FriendRequestResponse::Reject)
        } else if code == 1 {
            Some(FriendRequestResponse::Accept)
        } else {
            None
        }
    }
}

impl ByteConvertable for FriendRequestResponse {
    type Model = FriendRequestResponse;

    open spec fn model(&self) -> FriendRequestResponse {
        *self
    }

    open spec fn accepts(length_hint: Option<usize>) -> bool {
        length_hint is None
    }

    open spec fn decoding(data: Seq<u8>, at: int, length_hint: Option<usize>) -> Result<
        (FriendRequestResponse, nat),
        ConversionError,
    > {
        match u32::decoding(data, at, None) {
            Ok((code, length)) => match FriendRequestResponse::of_code(code) {
                Some(value) => Ok((value, length)),
                None => Err(ConversionError::Invalid),
            },
            Err(error) => Err(error),
        }
    }

    open spec fn encodable(value: FriendRequestResponse, length_hint: Option<usize>) -> bool {
        true
    }

    open spec fn encoding(value: FriendRequestResponse, length_hint: Option<usize>) -> Seq<u8> {
        u32::encoding(value.code(), None)
    }

    fn from_bytes(byte_stream: &mut ByteStream, length_hint: Option<usize>) -> (result: Result<
        Self,
        ConversionError,
    >) {
        let mut cursor = byte_stream.fork();
        let code = u32::from_bytes(&mut cursor, None)?;
        let value = match code {
            0 => FriendRequestResponse::Reject,
            1 => FriendRequestResponse::Accept,
            _ => return Err(ConversionError::Invalid),
        };
        byte_stream.follow(&cursor);
        Ok(value)
    }

    fn to_bytes(&self, length_hint: Option<usize>) -> (bytes: Vec<u8>) {
        let code: u32 = match self {
            FriendRequestResponse::Reject => 0,
            FriendRequestResponse::Accept => 1,
        };
        code.to_bytes(None)
    }

    proof fn lemma_round_trip(
        value: FriendRequestResponse,
        length_hint: Option<usize>,
        data: Seq<u8>,
        at: int,
    ) {
        u32::lemma_round_trip(value.code(), None, data, at);
    }
}

impl FixedByteSize for FriendRequestResponse {
    open spec fn size() -> nat {
        4
    }

    fn size_in_bytes() -> (size: usize) {
        4
    }

    proof fn lemma_fixed_size(data: Seq<u8>, at: int, value: FriendRequestResponse) {
        assert(Self::size() == 4);
    }
}

#[derive(Clone, Copy, Debug)]
pub struct FriendRequestResponsePacket {
    pub account_id: AccountId,
    pub character_id: CharacterId,
    pub response: FriendRequestResponse,
}

impl FriendRequestResponsePacket {
    /// The packet that [`new`](Self::new) makes.
    pub open spec fn made(
        account_id: AccountId,
        character_id: CharacterId,
        response: FriendRequestResponse,
    ) -> FriendRequestResponsePacket {
        FriendRequestResponsePacket { account_id, character_id, response }
    }

    pub fn new(
        account_id: AccountId,
        character_id: CharacterId,
        response: FriendRequestResponse,
    ) -> (packet: Self)
        ensures
            packet.model() == Self::made(
                account_id.model(),
                character_id.model(),
                response.model(),
            ),
    {
        let packet = FriendRequestResponsePacket { account_id, character_id, response };
        packet
    }
}

impl Packet for FriendRequestResponsePacket {
    type Model = FriendRequestResponsePacket;

    const PACKET_NAME: &'static str = "FriendRequestResponsePacket";

    const IS_PING: bool = false;

    open spec fn model(&self) -> FriendRequestResponsePacket {
        *self
    }

    open spec fn packet_header() -> u16 {
        0x0208
    }

    #[verifier::opaque]
    open spec fn payload_decoding(data: Seq<u8>, at: int) -> Result<
        (FriendRequestResponsePacket, nat),
        ConversionError,
    > {
        let account_id = AccountId::decoding(data, at, None);
        let at_character_id = behind(at, account_id);
        let character_id = CharacterId::decoding(data, at_character_id, None);
        let at_response = behind(at_character_id, character_id);
        let response = FriendRequestResponse::decoding(data, at_response, None);
        let behind_all = behind(at_response, response);
        if account_id is Err {
            Err(account_id->Err_0)
        } else if character_id is Err {
            Err(character_id->Err_0)
        } else if response is Err {
            Err(response->Err_0)
        } else {
            Ok(
                (
                    FriendRequestResponsePacket {
                        account_id: account_id->Ok_0.0,
                        character_id: character_id->Ok_0.0,
                        response: response->Ok_0.0,
                    },
                    (behind_all - at) as nat,
                ),
            )
        }
    }

    open spec fn encodable(value: FriendRequestResponsePacket) -> bool {
        true
    }

    #[verifier::opaque]
    open spec fn payload_encoding(value: FriendRequestResponsePacket) -> Seq<u8> {
        AccountId::encoding(value.account_id, None)
            + CharacterId::encoding(value.character_id, None)
            + FriendRequestResponse::encoding(value.response, None)
    }

    fn header() -> (header: u16) {
        0x0208
    }

    fn payload_from_bytes(byte_stream: &mut ByteStream) -> (result: Result<
        Self,
        ConversionError,
    >) {
        proof {
            reveal(<FriendRequestResponsePacket as Packet>::payload_decoding);
        }
        let mut cursor = byte_stream.fork();
        let account_id = AccountId::from_bytes(&mut cursor, None)?;
        let character_id = CharacterId::from_bytes(&mut cursor, None)?;
        let response = FriendRequestResponse::from_bytes(&mut cursor, None)?;
        byte_stream.follow(&cursor);
        Ok(FriendRequestResponsePacket { account_id, character_id, response })
    }

    fn payload_to_bytes(&self) -> (bytes: Vec<u8>) {
        proof {
            reveal(<FriendRequestResponsePacket as Packet>::payload_encoding);
        }
        let mut bytes = self.account_id.to_bytes(None);
        let mut piece = self.character_id.to_bytes(None);
        bytes.append(&mut piece);
        let mut piece = self.response.to_bytes(None);
        bytes.append(&mut piece);
        bytes
    }

    proof fn lemma_payload_round_trip(value: FriendRequestResponsePacket, data: Seq<u8>, at: int) {
        reveal(<FriendRequestResponsePacket as Packet>::payload_decoding);
        reveal(<FriendRequestResponsePacket as Packet>::payload_encoding);
        let piece_0 = AccountId::encoding(value.account_id, None);
        let piece_1 = CharacterId::encoding(value.character_id, None);
        let piece_2 = FriendRequestResponse::encoding(value.response, None);
        let front_1 = piece_0;
        let front_2 = front_1 + piece_1;
        lemma_holds_at_split(data, at, front_2, piece_2);
        lemma_holds_at_split(data, at, front_1, piece_1);
        AccountId::lemma_round_trip(value.account_id, None, data, at);
        CharacterId::lemma_round_trip(value.character_id, None, data, at + front_1.len());
        FriendRequestResponse::lemma_round_trip(value.response, None, data, at + front_2.len());
    }
}

#[derive(Clone, Copy, Debug, PartialEq, Eq, Structural)]
pub enum FriendRequestResult {
    Accepted,
    Rejected,
    OwnFriendListFull,
    OtherFriendListFull,
}

impl FriendRequestResult {
    /// The number that stands for a variant on the wire.
    pub open spec fn code(self) -> u16 {
        match self {
            FriendRequestResult::Accepted => 0,
            FriendRequestResult::Rejected => 1,
            FriendRequestResult::OwnFriendListFull => 2,
            FriendRequestResult::OtherFriendListFull => 3,
        }
    }

    /// The variant that a number stands for.
    pub open spec fn of_code(code: u16) -> Option<FriendRequestResult> {
        if code == 0 {
            Some(FriendRequestResult::Accepted)
        } else if code == 1 {
            Some(FriendRequestResult::Rejected)
        } else if code == 2 {
            Some(FriendRequestResult::OwnFriendListFull)
        } else if code == 3 {
            Some(FriendRequestResult::OtherFriendListFull)
        } else {
            None
        }
    }
}

impl ByteConvertable for FriendRequestResult {
    type Model = FriendRequestResult;

    open spec fn model(&self) -> FriendRequestResult {
        *self
    }

    open spec fn accepts(length_hint: Option<usize>) -> bool {
        length_hint is None
    }

    open spec fn decoding(data: Seq<u8>, at: int, length_hint: Option<usize>) -> Result<
        (FriendRequestResult, nat),
        ConversionError,
    > {
        match u16::decoding(data, at, None) {
            Ok((code, length)) => match FriendRequestResult::of_code(code) {
                Some(value) => Ok((value, length)),
                None => Err(ConversionError::Invalid),
            },
            Err(error) => Err(error),
        }
    }

    open spec fn encodable(value: FriendRequestResult, length_hint: Option<usize>) -> bool {
        true
    }

    open spec fn encoding(value: FriendRequestResult, length_hint: Option<usize>) -> Seq<u8> {
        u16::encoding(value.code(), None)
    }

    fn from_bytes(byte_stream: &mut ByteStream, length_hint: Option<usize>) -> (result: Result<
        Self,
        ConversionError,
    >) {
        let mut cursor = byte_stream.fork();
        let code = u16::from_bytes(&mut cursor, None)?;
        let value = match code {
            0 => FriendRequestResult::Accepted,
            1 => FriendRequestResult::Rejected,
            2 => FriendRequestResult::OwnFriendListFull,
            3 => FriendRequestResult::OtherFriendListFull,
            _ => return Err(ConversionError::Invalid),
        };
        byte_stream.follow(&cursor);
        Ok(value)
    }

    fn to_bytes(&self, length_hint: Option<usize>) -> (bytes: Vec<u8>) {
        let code: u16 = match self {
            FriendRequestResult::Accepted => 0,
            FriendRequestResult::Rejected => 1,
            FriendRequestResult::OwnFriendListFull => 2,
            FriendRequestResult::OtherFriendListFull => 3,
        };
        code.to_bytes(None)
    }

    proof fn lemma_round_trip(
        value: FriendRequestResult,
        length_hint: Option<usize>,
        data: Seq<u8>,
        at: int,
    ) {
        u16::lemma_round_trip(value.code(), None, data, at);
    }
}

impl FixedByteSize for FriendRequestResult {
    open spec fn size() -> nat {
        2
    }

    fn size_in_bytes() -> (size: usize) {
        2
    }

    proof fn lemma_fixed_size(data: Seq<u8>, at: int, value: FriendRequestResult) {
        assert(Self::size() == 2);
    }
}

#[derive(Clone, Debug)]
pub struct FriendRequestResultPacket {
    pub result: FriendRequestResult,
    pub friend: Friend,
}

/// What a [`FriendRequestResultPacket`] stands for.
pub struct FriendRequestResultPacketModel {
    pub result: FriendRequestResult,
    pub friend: FriendModel,
}

impl Packet for FriendRequestResultPacket {
    type Model = FriendRequestResultPacketModel;

    const PACKET_NAME: &'static str = "FriendRequestResultPacket";

    const IS_PING: bool = false;

    open spec fn model(&self) -> FriendRequestResultPacketModel {
        FriendRequestResultPacketModel {
            result: self.result.model(),
            friend: self.friend.model(),
        }
    }

    open spec fn packet_header() -> u16 {
        0x0209
    }

    #[verifier::opaque]
    open spec fn payload_decoding(data: Seq<u8>, at: int) -> Result<
        (FriendRequestResultPacketModel, nat),
        ConversionError,
    > {
        let result_field = FriendRequestResult::decoding(data, at, None);
        let at_friend = behind(at, result_field);
        let friend = Friend::decoding(data, at_friend, None);
        let behind_all = behind(at_friend, friend);
        if result_field is Err {
            Err(result_field->Err_0)
        } else if friend is Err {
            Err(friend->Err_0)
        } else {
            Ok(
                (
                    FriendRequestResultPacketModel {
                        result: result_field->Ok_0.0,
                        friend: friend->Ok_0.0,
                    },
                    (behind_all - at) as nat,
                ),
            )
        }
    }

    open spec fn encodable(value: FriendRequestResultPacketModel) -> bool {
        Friend::encodable(value.friend, None)
    }

    open spec fn faithful(value: FriendRequestResultPacketModel) -> bool {
        Friend::faithful(value.friend, None)
    }

    #[verifier::opaque]
    open spec fn payload_encoding(value: FriendRequestResultPacketModel) -> Seq<u8> {
        FriendRequestResult::encoding(value.result, None) + Friend::encoding(value.friend, None)
    }

    fn header() -> (header: u16) {
        0x0209
    }

    fn payload_from_bytes(byte_stream: &mut ByteStream) -> (result: Result<
        Self,
        ConversionError,
    >) {
        proof {
            reveal(<FriendRequestResultPacket as Packet>::payload_decoding);
        }
        let mut cursor = byte_stream.fork();
        let result_field = FriendRequestResult::from_bytes(&mut cursor, None)?;
        let friend = Friend::from_bytes(&mut cursor, None)?;
        byte_stream.follow(&cursor);
        Ok(FriendRequestResultPacket { result: result_field, friend })
    }

    fn payload_to_bytes(&self) -> (bytes: Vec<u8>) {
        proof {
            reveal(<FriendRequestResultPacket as Packet>::payload_encoding);
        }
        let mut bytes = self.result.to_bytes(None);
        let mut piece = self.friend.to_bytes(None);
        bytes.append(&mut piece);
        bytes
    }

    proof fn lemma_payload_round_trip(
        value: FriendRequestResultPacketModel,
        data: Seq<u8>,
        at: int,
    ) {
        reveal(<FriendRequestResultPacket as Packet>::payload_decoding);
        reveal(<FriendRequestResultPacket as Packet>::payload_encoding);
        let piece_0 = FriendRequestResult::encoding(value.result, None);
        let piece_1 = Friend::encoding(value.friend, None);
        let front_1 = piece_0;
        lemma_holds_at_split(data, at, front_1, piece_1);
        FriendRequestResult::lemma_round_trip(value.result, None, data, at);
        Friend::lemma_round_trip(value.friend, None, data, at + front_1.len());
    }
}

#[derive(Clone, Debug)]
pub struct PartyInvitePacket {
    pub party_id: PartyId,
    pub party_name: String,
}

/// What a [`PartyInvitePacket`] stands for.
pub struct PartyInvitePacketModel {
    pub party_id: PartyId,
    pub party_name: Seq<char>,
}

impl Packet for PartyInvitePacket {
    type Model = PartyInvitePacketModel;

    const PACKET_NAME: &'static str = "PartyInvitePacket";

    const IS_PING: bool = false;

    open spec fn model(&self) -> PartyInvitePacketModel {
        PartyInvitePacketModel {
            party_id: self.party_id.model(),
            party_name: self.party_name.model(),
        }
    }

    open spec fn packet_header() -> u16 {
        0x02c6
    }

    #[verifier::opaque]
    open spec fn payload_decoding(data: Seq<u8>, at: int) -> Result<
        (PartyInvitePacketModel, nat),
        ConversionError,
    > {
        let party_id = PartyId::decoding(data, at, None);
        let at_party_name = behind(at, party_id);
        let party_name = String::decoding(data, at_party_name, Some(24));
        let behind_all = behind(at_party_name, party_name);
        if party_id is Err {
            Err(party_id->Err_0)
        } else if party_name is Err {
            Err(party_name->Err_0)
        } else {
            Ok(
                (
                    PartyInvitePacketModel {
                        party_id: party_id->Ok_0.0,
                        party_name: party_name->Ok_0.0,
                    },
                    (behind_all - at) as nat,
                ),
            )
        }
    }

    open spec fn encodable(value: PartyInvitePacketModel) -> bool {
        String::encodable(value.party_name, Some(24))
    }

    open spec fn faithful(value: PartyInvitePacketModel) -> bool {
        String::faithful(value.party_name, Some(24))
    }

    #[verifier::opaque]
    open spec fn payload_encoding(value: PartyInvitePacketModel) -> Seq<u8> {
        PartyId::encoding(value.party_id, None) + String::encoding(value.party_name, Some(24))
    }

    fn header() -> (header: u16) {
        0x02c6
    }

    fn payload_from_bytes(byte_stream: &mut ByteStream) -> (result: Result<
        Self,
        ConversionError,
    >) {
        proof {
            reveal(<PartyInvitePacket as Packet>::payload_decoding);
        }
        let mut cursor = byte_stream.fork();
        let party_id = PartyId::from_bytes(&mut cursor, None)?;
        let party_name = String::from_bytes(&mut cursor, Some(24))?;
        byte_stream.follow(&cursor);
        Ok(PartyInvitePacket { party_id, party_name })
    }

    fn payload_to_bytes(&self) -> (bytes: Vec<u8>) {
        proof {
            reveal(<PartyInvitePacket as Packet>::payload_encoding);
        }
        let mut bytes = self.party_id.to_bytes(None);
        let mut piece = self.party_name.to_bytes(Some(24));
        bytes.append(&mut piece);
        bytes
    }

    proof fn lemma_payload_round_trip(value: PartyInvitePacketModel, data: Seq<u8>, at: int) {
        reveal(<PartyInvitePacket as Packet>::payload_decoding);
        reveal(<PartyInvitePacket as Packet>::payload_encoding);
        let piece_0 = PartyId::encoding(value.party_id, None);
        let piece_1 = String::encoding(value.party_name, Some(24));
        let front_1 = piece_0;
        lemma_holds_at_split(data, at, front_1, piece_1);
        PartyId::lemma_round_trip(value.party_id, None, data, at);
        String::lemma_round_trip(value.party_name, Some(24), data, at + front_1.len());
    }
}

#[derive(Clone, Copy, Debug)]
pub struct ReputationEntry {
    pub reputation_type: u64,
    pub points: i64,
}

impl ByteConvertable for ReputationEntry {
    type Model = ReputationEntry;

    open spec fn model(&self) -> ReputationEntry {
        *self
    }

    open spec fn accepts(length_hint: Option<usize>) -> bool {
        length_hint is None
    }

    #[verifier::opaque]
    open spec fn decoding(data: Seq<u8>, at: int, length_hint: Option<usize>) -> Result<
        (ReputationEntry, nat),
        ConversionError,
    > {
        let reputation_type = u64::decoding(data, at, None);
        let at_points = behind(at, reputation_type);
        let points = i64::decoding(data, at_points, None);
        let behind_all = behind(at_points, points);
        if reputation_type is Err {
            Err(reputation_type->Err_0)
        } else if points is Err {
            Err(points->Err_0)
        } else {
            Ok(
                (
                    ReputationEntry {
                        reputation_type: reputation_type->Ok_0.0,
                        points: points->Ok_0.0,
                    },
                    (behind_all - at) as nat,
                ),
            )
        }
    }

    open spec fn encodable(value: ReputationEntry, length_hint: Option<usize>) -> bool {
        true
    }

    #[verifier::opaque]
    open spec fn encoding(value: ReputationEntry, length_hint: Option<usize>) -> Seq<u8> {
        u64::encoding(value.reputation_type, None) + i64::encoding(value.points, None)
    }

    fn from_bytes(byte_stream: &mut ByteStream, length_hint: Option<usize>) -> (result: Result<
        Self,
        ConversionError,
    >) {
        proof {
            reveal(<ReputationEntry as ByteConvertable>::decoding);
        }
        let mut cursor = byte_stream.fork();
        let reputation_type = u64::from_bytes(&mut cursor, None)?;
        let points = i64::from_bytes(&mut cursor, None)?;
        byte_stream.follow(&cursor);
        Ok(ReputationEntry { reputation_type, points })
    }

    fn to_bytes(&self, length_hint: Option<usize>) -> (bytes: Vec<u8>) {
        proof {
            reveal(<ReputationEntry as ByteConvertable>::encoding);
        }
        let mut bytes = self.reputation_type.to_bytes(None);
        let mut piece = self.points.to_bytes(None);
        bytes.append(&mut piece);
        bytes
    }

    proof fn lemma_round_trip(
        value: ReputationEntry,
        length_hint: Option<usize>,
        data: Seq<u8>,
        at: int,
    ) {
        reveal(<ReputationEntry as ByteConvertable>::decoding);
        reveal(<ReputationEntry as ByteConvertable>::encoding);
        let piece_0 = u64::encoding(value.reputation_type, None);
        let piece_1 = i64::encoding(value.points, None);
        let front_1 = piece_0;
        lemma_holds_at_split(data, at, front_1, piece_1);
        u64::lemma_round_trip(value.reputation_type, None, data, at);
        i64::lemma_round_trip(value.points, None, data, at + front_1.len());
    }
}

impl FixedByteSize for ReputationEntry {
    open spec fn size() -> nat {
        16
    }

    fn size_in_bytes() -> (size: usize) {
        16
    }

    proof fn lemma_fixed_size(data: Seq<u8>, at: int, value: ReputationEntry) {
        reveal(<ReputationEntry as ByteConvertable>::decoding);
        reveal(<ReputationEntry as ByteConvertable>::encoding);
        assert(Self::size() == 16);
        u64::lemma_fixed_size(data, at, value.reputation_type);
        i64::lemma_fixed_size(data, at + 8, value.points);
    }
}

#[derive(Clone, Debug)]
pub struct ReputationPacket {
    pub packet_length: u16,
    pub success: u8,
    pub entries: Vec<ReputationEntry>,
}

/// What a [`ReputationPacket`] stands for.
pub struct ReputationPacketModel {
    pub packet_length: u16,
    pub success: u8,
    pub entries: Seq<ReputationEntry>,
}

impl Packet for ReputationPacket {
    type Model = ReputationPacketModel;

    const PACKET_NAME: &'static str = "ReputationPacket";

    const IS_PING: bool = false;

    open spec fn model(&self) -> ReputationPacketModel {
        ReputationPacketModel {
            packet_length: self.packet_length.model(),
            success: self.success.model(),
            entries: models(self.entries@),
        }
    }

    open spec fn packet_header() -> u16 {
        0x0b8d
    }

    #[verifier::opaque]
    open spec fn payload_decoding(data: Seq<u8>, at: int) -> Result<
        (ReputationPacketModel, nat),
        ConversionError,
    > {
        let packet_length = u16::decoding(data, at, None);
        let end = at - 2 + packet_length->Ok_0.0;
        let frame = data.take(end);
        let at_success = behind(at, packet_length);
        let success = u8::decoding(frame, at_success, None);
        let at_entries = behind(at_success, success);
        let entries = repeated_decoding::<ReputationEntry>(
            frame,
            at_entries,
            whole_count::<ReputationEntry>(packet_length->Ok_0.0 - 5)->Some_0,
        );
        let behind_all = behind(at_entries, entries);
        if packet_length is Err {
            Err(packet_length->Err_0)
        } else if packet_length->Ok_0.0 < 5 {
            Err(ConversionError::Invalid)
        } else if end > data.len() {
            Err(ConversionError::Incomplete)
        } else if whole_count::<ReputationEntry>(packet_length->Ok_0.0 - 5) is None
            || success is Err
            || entries is Err
            || behind_all != end {
            Err(ConversionError::Invalid)
        } else {
            Ok(
                (
                    ReputationPacketModel {
                        packet_length: packet_length->Ok_0.0,
                        success: success->Ok_0.0,
                        entries: entries->Ok_0.0,
                    },
                    (behind_all - at) as nat,
                ),
            )
        }
    }

    open spec fn encodable(value: ReputationPacketModel) -> bool {
        &&& all_encodable::<ReputationEntry>(value.entries)
        &&& value.packet_length == 2 + Self::payload_encoding(value).len()
    }

    #[verifier::opaque]
    open spec fn payload_encoding(value: ReputationPacketModel) -> Seq<u8> {
        u16::encoding(value.packet_length, None)
            + u8::encoding(value.success, None)
            + repeated_encoding::<ReputationEntry>(value.entries)
    }

    fn header() -> (header: u16) {
        0x0b8d
    }

    fn payload_from_bytes(byte_stream: &mut ByteStream) -> (result: Result<
        Self,
        ConversionError,
    >) {
        proof {
            reveal(<ReputationPacket as Packet>::payload_decoding);
        }
        let mut cursor = byte_stream.fork();
        let packet_length = u16::from_bytes(&mut cursor, None)?;
        if packet_length < 5 {
            return Err(ConversionError::Invalid);
        }
        if cursor.remaining_length() < (packet_length - 4) as usize {
            return Err(ConversionError::Incomplete);
        }
        let end = cursor.get_offset() + (packet_length - 4) as usize;
        let mut frame = cursor.frame(end);
        let success = match u8::from_bytes(&mut frame, None) {
            Ok(value) => value,
            Err(_) => return Err(ConversionError::Invalid),
        };
        let count = match count_whole::<ReputationEntry>((packet_length - 5) as usize) {
            Some(count) => count,
            None => return Err(ConversionError::Invalid),
        };
        let entries = match decode_repeated::<ReputationEntry>(&mut frame, count) {
            Ok(value) => value,
            Err(_) => return Err(ConversionError::Invalid),
        };
        if !frame.is_empty() {
            return Err(ConversionError::Invalid);
        }
        byte_stream.follow(&frame);
        Ok(ReputationPacket { packet_length, success, entries })
    }

    fn payload_to_bytes(&self) -> (bytes: Vec<u8>) {
        proof {
            reveal(<ReputationPacket as Packet>::payload_encoding);
        }
        let mut bytes = self.packet_length.to_bytes(None);
        let mut piece = self.success.to_bytes(None);
        bytes.append(&mut piece);
        let mut piece = encode_repeated::<ReputationEntry>(&self.entries);
        bytes.append(&mut piece);
        bytes
    }

    proof fn lemma_payload_round_trip(value: ReputationPacketModel, data: Seq<u8>, at: int) {
        reveal(<ReputationPacket as Packet>::payload_decoding);
        reveal(<ReputationPacket as Packet>::payload_encoding);
        let piece_0 = u16::encoding(value.packet_length, None);
        let piece_1 = u8::encoding(value.success, None);
        let piece_2 = repeated_encoding::<ReputationEntry>(value.entries);
        let front_1 = piece_0;
        let front_2 = front_1 + piece_1;
        lemma_holds_at_split(data, at, front_2, piece_2);
        lemma_holds_at_split(data, at, front_1, piece_1);
        lemma_holds_at_bounds(data, at, Self::payload_encoding(value));
        let end = at - 2 + value.packet_length;
        let frame = data.take(end);
        u16::lemma_round_trip(value.packet_length, None, data, at);
        lemma_holds_at_take(data, end, at + front_1.len(), piece_1);
        u8::lemma_round_trip(value.success, None, frame, at + front_1.len());
        lemma_holds_at_take(data, end, at + front_2.len(), piece_2);
        lemma_repeated_size::<ReputationEntry>(frame, at + front_2.len(), value.entries);
        assert(ReputationEntry::size() == 16);
        lemma_whole_count::<ReputationEntry>(value.entries.len());
        lemma_repeated_round_trip::<ReputationEntry>(value.entries, frame, at + front_2.len());
    }
}

impl LengthPrefixed for ReputationPacket {
    open spec fn announced_length(value: ReputationPacketModel) -> u16 {
        value.packet_length
    }

    proof fn lemma_exact_length(data: Seq<u8>, at: int) {
        reveal(<ReputationPacket as Packet>::payload_decoding);
    }
}

#[derive(Clone, Debug)]
pub struct Aliance {
    pub name: String,
}

/// What a [`Aliance`] stands for.
pub struct AlianceModel {
    pub name: Seq<char>,
}

impl ByteConvertable for Aliance {
    type Model = AlianceModel;

    open spec fn model(&self) -> AlianceModel {
        AlianceModel {
            name: self.name.model(),
        }
    }

    open spec fn accepts(length_hint: Option<usize>) -> bool {
        length_hint is None
    }

    #[verifier::opaque]
    open spec fn decoding(data: Seq<u8>, at: int, length_hint: Option<usize>) -> Result<
        (AlianceModel, nat),
        ConversionError,
    > {
        let name = String::decoding(data, at, Some(24));
        let behind_all = behind(at, name);
        if name is Err {
            Err(name->Err_0)
        } else {
            Ok(
                (
                    AlianceModel {
                        name: name->Ok_0.0,
                    },
                    (behind_all - at) as nat,
                ),
            )
        }
    }

    open spec fn encodable(value: AlianceModel, length_hint: Option<usize>) -> bool {
        String::encodable(value.name, Some(24))
    }

    open spec fn faithful(value: AlianceModel, length_hint: Option<usize>) -> bool {
        String::faithful(value.name, Some(24))
    }

    #[verifier::opaque]
    open spec fn encoding(value: AlianceModel, length_hint: Option<usize>) -> Seq<u8> {
        String::encoding(value.name, Some(24))
    }

    fn from_bytes(byte_stream: &mut ByteStream, length_hint: Option<usize>) -> (result: Result<
        Self,
        ConversionError,
    >) {
        proof {
            reveal(<Aliance as ByteConvertable>::decoding);
        }
        let mut cursor = byte_stream.fork();
        let name = String::from_bytes(&mut cursor, Some(24))?;
        byte_stream.follow(&cursor);
        Ok(Aliance { name })
    }

    fn to_bytes(&self, length_hint: Option<usize>) -> (bytes: Vec<u8>) {
        proof {
            reveal(<Aliance as ByteConvertable>::encoding);
        }
        let bytes = self.name.to_bytes(Some(24));
        bytes
    }

    proof fn lemma_round_trip(
        value: AlianceModel,
        length_hint: Option<usize>,
        data: Seq<u8>,
        at: int,
    ) {
        reveal(<Aliance as ByteConvertable>::decoding);
        reveal(<Aliance as ByteConvertable>::encoding);
        let piece_0 = String::encoding(value.name, Some(24));
        String::lemma_round_trip(value.name, Some(24), data, at);
    }
}

#[derive(Clone, Debug)]
pub struct Antagonist {
    pub name: String,
}

/// What a [`Antagonist`] stands for.
pub struct AntagonistModel {
    pub name: Seq<char>,
}

impl ByteConvertable for Antagonist {
    type Model = AntagonistModel;

    open spec fn model(&self) -> AntagonistModel {
        AntagonistModel {
            name: self.name.model(),
        }
    }

    open spec fn accepts(length_hint: Option<usize>) -> bool {
        length_hint is None
    }

    #[verifier::opaque]
    open spec fn decoding(data: Seq<u8>, at: int, length_hint: Option<usize>) -> Result<
        (AntagonistModel, nat),
        ConversionError,
    > {
        let name = String::decoding(data, at, Some(24));
        let behind_all = behind(at, name);
        if name is Err {
            Err(name->Err_0)
        } else {
            Ok(
                (
                    AntagonistModel {
                        name: name->Ok_0.0,
                    },
                    (behind_all - at) as nat,
                ),
            )
        }
    }

    open spec fn encodable(value: AntagonistModel, length_hint: Option<usize>) -> bool {
        String::encodable(value.name, Some(24))
    }

    open spec fn faithful(value: AntagonistModel, length_hint: Option<usize>) -> bool {
        String::faithful(value.name, Some(24))
    }

    #[verifier::opaque]
    open spec fn encoding(value: AntagonistModel, length_hint: Option<usize>) -> Seq<u8> {
        String::encoding(value.name, Some(24))
    }

    fn from_bytes(byte_stream: &mut ByteStream, length_hint: Option<usize>) -> (result: Result<
        Self,
        ConversionError,
    >) {
        proof {
            reveal(<Antagonist as ByteConvertable>::decoding);
        }
        let mut cursor = byte_stream.fork();
        let name = String::from_bytes(&mut cursor, Some(24))?;
        byte_stream.follow(&cursor);
        Ok(Antagonist { name })
    }

    fn to_bytes(&self, length_hint: Option<usize>) -> (bytes: Vec<u8>) {
        proof {
            reveal(<Antagonist as ByteConvertable>::encoding);
        }
        let bytes = self.name.to_bytes(Some(24));
        bytes
    }

    proof fn lemma_round_trip(
        value: AntagonistModel,
        length_hint: Option<usize>,
        data: Seq<u8>,
        at: int,
    ) {
        reveal(<Antagonist as ByteConvertable>::decoding);
        reveal(<Antagonist as ByteConvertable>::encoding);
        let piece_0 = String::encoding(value.name, Some(24));
        String::lemma_round_trip(value.name, Some(24), data, at);
    }
}

#[derive(Clone, Debug)]
pub struct ClanInfoPacket {
    pub packet_length: u16,
    pub clan_id: u32,
    pub clan_name: String,
    pub clan_master: String,
    pub clan_map: String,
    pub aliance_count: u8,
    pub antagonist_count: u8,
    pub aliances: Vec<Aliance>,
    pub antagonists: Vec<Antagonist>,
}

/// What a [`ClanInfoPacket`] stands for.
pub struct ClanInfoPacketModel {
    pub packet_length: u16,
    pub clan_id: u32,
    pub clan_name: Seq<char>,
    pub clan_master: Seq<char>,
    pub clan_map: Seq<char>,
    pub aliance_count: u8,
    pub antagonist_count: u8,
    pub aliances: Seq<AlianceModel>,
    pub antagonists: Seq<AntagonistModel>,
}

impl Packet for ClanInfoPacket {
    type Model = ClanInfoPacketModel;

    const PACKET_NAME: &'static str = "ClanInfoPacket";

    const IS_PING: bool = false;

    open spec fn model(&self) -> ClanInfoPacketModel {
        ClanInfoPacketModel {
            packet_length: self.packet_length.model(),
            clan_id: self.clan_id.model(),
            clan_name: self.clan_name.model(),
            clan_master: self.clan_master.model(),
            clan_map: self.clan_map.model(),
            aliance_count: self.aliance_count.model(),
            antagonist_count: self.antagonist_count.model(),
            aliances: models(self.aliances@),
            antagonists: models(self.antagonists@),
        }
    }

    open spec fn packet_header() -> u16 {
        0x098a
    }

    #[verifier::opaque]
    open spec fn payload_decoding(data: Seq<u8>, at: int) -> Result<
        (ClanInfoPacketModel, nat),
        ConversionError,
    > {
        let packet_length = u16::decoding(data, at, None);
        let end = at - 2 + packet_length->Ok_0.0;
        let frame = data.take(end);
        let at_clan_id = behind(at, packet_length);
        let clan_id = u32::decoding(frame, at_clan_id, None);
        let at_clan_name = behind(at_clan_id, clan_id);
        let clan_name = String::decoding(frame, at_clan_name, Some(24));
        let at_clan_master = behind(at_clan_name, clan_name);
        let clan_master = String::decoding(frame, at_clan_master, Some(24));
        let at_clan_map = behind(at_clan_master, clan_master);
        let clan_map = String::decoding(frame, at_clan_map, Some(16));
        let at_aliance_count = behind(at_clan_map, clan_map);
        let aliance_count = u8::decoding(frame, at_aliance_count, None);
        let at_antagonist_count = behind(at_aliance_count, aliance_count);
        let antagonist_count = u8::decoding(frame, at_antagonist_count, None);
        let at_aliances = behind(at_antagonist_count, antagonist_count);
        let aliances = repeated_decoding::<Aliance>(
            frame,
            at_aliances,
            aliance_count->Ok_0.0 as nat,
        );
        let at_antagonists = behind(at_aliances, aliances);
        let antagonists = repeated_decoding::<Antagonist>(
            frame,
            at_antagonists,
            antagonist_count->Ok_0.0 as nat,
        );
        let behind_all = behind(at_antagonists, antagonists);
        if packet_length is Err {
            Err(packet_length->Err_0)
        } else if packet_length->Ok_0.0 < 4 {
            Err(ConversionError::Invalid)
        } else if end > data.len() {
            Err(ConversionError::Incomplete)
        } else if clan_id is Err
            || clan_name is Err
            || clan_master is Err
            || clan_map is Err
            || aliance_count is Err
            || antagonist_count is Err
            || aliances is Err
            || antagonists is Err
            || behind_all != end {
            Err(ConversionError::Invalid)
        } else {
            Ok(
                (
                    ClanInfoPacketModel {
                        packet_length: packet_length->Ok_0.0,
                        clan_id: clan_id->Ok_0.0,
                        clan_name: clan_name->Ok_0.0,
                        clan_master: clan_master->Ok_0.0,
                        clan_map: clan_map->Ok_0.0,
                        aliance_count: aliance_count->Ok_0.0,
                        antagonist_count: antagonist_count->Ok_0.0,
                        aliances: aliances->Ok_0.0,
                        antagonists: antagonists->Ok_0.0,
                    },
                    (behind_all - at) as nat,
                ),
            )
        }
    }

    open spec fn encodable(value: ClanInfoPacketModel) -> bool {
        &&& String::encodable(value.clan_name, Some(24))
        &&& String::encodable(value.clan_master, Some(24))
        &&& String::encodable(value.clan_map, Some(16))
        &&& all_encodable::<Aliance>(value.aliances)
        &&& value.aliances.len() == value.aliance_count
        &&& all_encodable::<Antagonist>(value.antagonists)
        &&& value.antagonists.len() == value.antagonist_count
        &&& value.packet_length == 2 + Self::payload_encoding(value).len()
    }

    open spec fn faithful(value: ClanInfoPacketModel) -> bool {
        &&& String::faithful(value.clan_name, Some(24))
        &&& String::faithful(value.clan_master, Some(24))
        &&& String::faithful(value.clan_map, Some(16))
        &&& all_faithful::<Aliance>(value.aliances)
        &&& all_faithful::<Antagonist>(value.antagonists)
    }

    #[verifier::opaque]
    open spec fn payload_encoding(value: ClanInfoPacketModel) -> Seq<u8> {
        u16::encoding(value.packet_length, None)
            + u32::encoding(value.clan_id, None)
            + String::encoding(value.clan_name, Some(24))
            + String::encoding(value.clan_master, Some(24))
            + String::encoding(value.clan_map, Some(16))
            + u8::encoding(value.aliance_count, None)
            + u8::encoding(value.antagonist_count, None)
            + repeated_encoding::<Aliance>(value.aliances)
            + repeated_encoding::<Antagonist>(value.antagonists)
    }

    fn header() -> (header: u16) {
        0x098a
    }

    #[verifier::rlimit(40)]
    fn payload_from_bytes(byte_stream: &mut ByteStream) -> (result: Result<
        Self,
        ConversionError,
    >) {
        proof {
            reveal(<ClanInfoPacket as Packet>::payload_decoding);
        }
        let mut cursor = byte_stream.fork();
        let packet_length = u16::from_bytes(&mut cursor, None)?;
        if packet_length < 4 {
            return Err(ConversionError::Invalid);
        }
        if cursor.remaining_length() < (packet_length - 4) as usize {
            return Err(ConversionError::Incomplete);
        }
        let end = cursor.get_offset() + (packet_length - 4) as usize;
        let mut frame = cursor.frame(end);
        let clan_id = match u32::from_bytes(&mut frame, None) {
            Ok(value) => value,
            Err(_) => return Err(ConversionError::Invalid),
        };
        let clan_name = match String::from_bytes(&mut frame, Some(24)) {
            Ok(value) => value,
            Err(_) => return Err(ConversionError::Invalid),
        };
        let clan_master = match String::from_bytes(&mut frame, Some(24)) {
            Ok(value) => value,
            Err(_) => return Err(ConversionError::Invalid),
        };
        let clan_map = match String::from_bytes(&mut frame, Some(16)) {
            Ok(value) => value,
            Err(_) => return Err(ConversionError::Invalid),
        };
        let aliance_count = match u8::from_bytes(&mut frame, None) {
            Ok(value) => value,
            Err(_) => return Err(ConversionError::Invalid),
        };
        let antagonist_count = match u8::from_bytes(&mut frame, None) {
            Ok(value) => value,
            Err(_) => return Err(ConversionError::Invalid),
        };
        let aliances = match decode_repeated::<Aliance>(&mut frame, aliance_count as usize) {
            Ok(value) => value,
            Err(_) => return Err(ConversionError::Invalid),
        };
        let antagonists = match decode_repeated::<Antagonist>(
            &mut frame,
            antagonist_count as usize,
        ) {
            Ok(value) => value,
            Err(_) => return Err(ConversionError::Invalid),
        };
        if !frame.is_empty() {
            return Err(ConversionError::Invalid);
        }
        byte_stream.follow(&frame);
        Ok(ClanInfoPacket {
            packet_length,
            clan_id,
            clan_name,
            clan_master,
            clan_map,
            aliance_count,
            antagonist_count,
            aliances,
            antagonists,
        })
    }

    fn payload_to_bytes(&self) -> (bytes: Vec<u8>) {
        proof {
            reveal(<ClanInfoPacket as Packet>::payload_encoding);
        }
        let mut bytes = self.packet_length.to_bytes(None);
        let mut piece = self.clan_id.to_bytes(None);
        bytes.append(&mut piece);
        let mut piece = self.clan_name.to_bytes(Some(24));
        bytes.append(&mut piece);
        let mut piece = self.clan_master.to_bytes(Some(24));
        bytes.append(&mut piece);
        let mut piece = self.clan_map.to_bytes(Some(16));
        bytes.append(&mut piece);
        let mut piece = self.aliance_count.to_bytes(None);
        bytes.append(&mut piece);
        let mut piece = self.antagonist_count.to_bytes(None);
        bytes.append(&mut piece);
        let mut piece = encode_repeated::<Aliance>(&self.aliances);
        bytes.append(&mut piece);
        let mut piece = encode_repeated::<Antagonist>(&self.antagonists);
        bytes.append(&mut piece);
        bytes
    }

    #[verifier::rlimit(40)]
    proof fn lemma_payload_round_trip(value: ClanInfoPacketModel, data: Seq<u8>, at: int) {
        reveal(<ClanInfoPacket as Packet>::payload_decoding);
        reveal(<ClanInfoPacket as Packet>::payload_encoding);
        let piece_0 = u16::encoding(value.packet_length, None);
        let piece_1 = u32::encoding(value.clan_id, None);
        let piece_2 = String::encoding(value.clan_name, Some(24));
        let piece_3 = String::encoding(value.clan_master, Some(24));
        let piece_4 = String::encoding(value.clan_map, Some(16));
        let piece_5 = u8::encoding(value.aliance_count, None);
        let piece_6 = u8::encoding(value.antagonist_count, None);
        let piece_7 = repeated_encoding::<Aliance>(value.aliances);
        let piece_8 = repeated_encoding::<Antagonist>(value.antagonists);
        let front_1 = piece_0;
        let front_2 = front_1 + piece_1;
        let front_3 = front_2 + piece_2;
        let front_4 = front_3 + piece_3;
        let front_5 = front_4 + piece_4;
        let front_6 = front_5 + piece_5;
        let front_7 = front_6 + piece_6;
        let front_8 = front_7 + piece_7;
        lemma_holds_at_split(data, at, front_8, piece_8);
        lemma_holds_at_split(data, at, front_7, piece_7);
        lemma_holds_at_split(data, at, front_6, piece_6);
        lemma_holds_at_split(data, at, front_5, piece_5);
        lemma_holds_at_split(data, at, front_4, piece_4);
        lemma_holds_at_split(data, at, front_3, piece_3);
        lemma_holds_at_split(data, at, front_2, piece_2);
        lemma_holds_at_split(data, at, front_1, piece_1);
        lemma_holds_at_bounds(data, at, Self::payload_encoding(value));
        let end = at - 2 + value.packet_length;
        let frame = data.take(end);
        u16::lemma_round_trip(value.packet_length, None, data, at);
        lemma_holds_at_take(data, end, at + front_1.len(), piece_1);
        u32::lemma_round_trip(value.clan_id, None, frame, at + front_1.len());
        lemma_holds_at_take(data, end, at + front_2.len(), piece_2);
        String::lemma_round_trip(value.clan_name, Some(24), frame, at + front_2.len());
        lemma_holds_at_take(data, end, at + front_3.len(), piece_3);
        String::lemma_round_trip(value.clan_master, Some(24), frame, at + front_3.len());
        lemma_holds_at_take(data, end, at + front_4.len(), piece_4);
        String::lemma_round_trip(value.clan_map, Some(16), frame, at + front_4.len());
        lemma_holds_at_take(data, end, at + front_5.len(), piece_5);
        u8::lemma_round_trip(value.aliance_count, None, frame, at + front_5.len());
        lemma_holds_at_take(data, end, at + front_6.len(), piece_6);
        u8::lemma_round_trip(value.antagonist_count, None, frame, at + front_6.len());
        lemma_holds_at_take(data, end, at + front_7.len(), piece_7);
        lemma_repeated_round_trip::<Aliance>(value.aliances, frame, at + front_7.len());
        lemma_holds_at_take(data, end, at + front_8.len(), piece_8);
        lemma_repeated_round_trip::<Antagonist>(value.antagonists, frame, at + front_8.len());
    }
}

impl LengthPrefixed for ClanInfoPacket {
    open spec fn announced_length(value: ClanInfoPacketModel) -> u16 {
        value.packet_length
    }

    proof fn lemma_exact_length(data: Seq<u8>, at: int) {
        reveal(<ClanInfoPacket as Packet>::payload_decoding);
    }
}

#[derive(Clone, Copy, Debug)]
pub struct ClanOnlineCountPacket {
    pub online_members: u16,
    pub maximum_members: u16,
}

impl Packet for ClanOnlineCountPacket {
    type Model = ClanOnlineCountPacket;

    const PACKET_NAME: &'static str = "ClanOnlineCountPacket";

    const IS_PING: bool = false;

    open spec fn model(&self) -> ClanOnlineCountPacket {
        *self
    }

    open spec fn packet_header() -> u16 {
        0x0988
    }

    #[verifier::opaque]
    open spec fn payload_decoding(data: Seq<u8>, at: int) -> Result<
        (ClanOnlineCountPacket, nat),
        ConversionError,
    > {
        let online_members = u16::decoding(data, at, None);
        let at_maximum_members = behind(at, online_members);
        let maximum_members = u16::decoding(data, at_maximum_members, None);
        let behind_all = behind(at_maximum_members, maximum_members);
        if online_members is Err {
            Err(online_members->Err_0)
        } else if maximum_members is Err {
            Err(maximum_members->Err_0)
        } else {
            Ok(
                (
                    ClanOnlineCountPacket {
                        online_members: online_members->Ok_0.0,
                        maximum_members: maximum_members->Ok_0.0,
                    },
                    (behind_all - at) as nat,
                ),
            )
        }
    }

    open spec fn encodable(value: ClanOnlineCountPacket) -> bool {
        true
    }

    #[verifier::opaque]
    open spec fn payload_encoding(value: ClanOnlineCountPacket) -> Seq<u8> {
        u16::encoding(value.online_members, None) + u16::encoding(value.maximum_members, None)
    }

    fn header() -> (header: u16) {
        0x0988
    }

    fn payload_from_bytes(byte_stream: &mut ByteStream) -> (result: Result<
        Self,
        ConversionError,
    >) {
        proof {
            reveal(<ClanOnlineCountPacket as Packet>::payload_decoding);
        }
        let mut cursor = byte_stream.fork();
        let online_members = u16::from_bytes(&mut cursor, None)?;
        let maximum_members = u16::from_bytes(&mut cursor, None)?;
        byte_stream.follow(&cursor);
        Ok(ClanOnlineCountPacket { online_members, maximum_members })
    }

    fn payload_to_bytes(&self) -> (bytes: Vec<u8>) {
        proof {
            reveal(<ClanOnlineCountPacket as Packet>::payload_encoding);
        }
        let mut bytes = self.online_members.to_bytes(None);
        let mut piece = self.maximum_members.to_bytes(None);
        bytes.append(&mut piece);
        bytes
    }

    proof fn lemma_payload_round_trip(value: ClanOnlineCountPacket, data: Seq<u8>, at: int) {
        reveal(<ClanOnlineCountPacket as Packet>::payload_decoding);
        reveal(<ClanOnlineCountPacket as Packet>::payload_encoding);
        let piece_0 = u16::encoding(value.online_members, None);
        let piece_1 = u16::encoding(value.maximum_members, None);
        let front_1 = piece_0;
        lemma_holds_at_split(data, at, front_1, piece_1);
        u16::lemma_round_trip(value.online_members, None, data, at);
        u16::lemma_round_trip(value.maximum_members, None, data, at + front_1.len());
    }
}

impl FriendRequestResultPacket {
    /// What the player is told of the result of a friend request.
    pub open spec fn message(result: FriendRequestResult, name: Seq<char>) -> Seq<char> {
        match result {
            FriendRequestResult::Accepted => "You have become friends with "@ + name + "."@,
            FriendRequestResult::Rejected => name + " does not want to be friends with you."@,
            FriendRequestResult::OwnFriendListFull => "Your Friend List is full."@,
            FriendRequestResult::OtherFriendListFull => name + "'s Friend List is full."@,
        }
    }

    pub fn into_message(self) -> (message: String)
        ensures
            message@ == FriendRequestResultPacket::message(self.result, self.friend.name@),
    {
        match self.result {
            FriendRequestResult::Accepted => {
                let mut message = String::from_str("You have become friends with ");
                message.append(self.friend.name.as_str());
                message.append(".");
                message
            },
            FriendRequestResult::Rejected => {
                let mut message = self.friend.name;
                message.append(" does not want to be friends with you.");
                message
            },
            FriendRequestResult::OwnFriendListFull => String::from_str("Your Friend List is full."),
            FriendRequestResult::OtherFriendListFull => {
                let mut message = self.friend.name;
                message.append("'s Friend List is full.");
                message
            },
        }
    }
}

} // verus!
