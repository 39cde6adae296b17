//! The packets of the login server.

use vstd::prelude::*;

use crate::loaders::convertable::{
    all_encodable, behind, count_whole, decode_repeated, encode_repeated, lemma_repeated_round_trip,
    lemma_repeated_size, lemma_whole_count, lemma_zeroed, models, repeated_decoding,
    repeated_encoding, whole_count, zeroed, ByteConvertable, FixedByteSize,
};
use crate::loaders::stream::{ByteStream, ConversionError};
use crate::loaders::wire::{lemma_holds_at_bounds, lemma_holds_at_split, lemma_holds_at_take};
use crate::network::ids::{AccountId, Sex};
use crate::network::packet::{LengthPrefixed, Packet};

verus! {

/// Sent by the client to the login server.
/// The very first packet sent when logging in, it is sent after the user has
/// entered email and password.
#[derive(Clone, Debug)]
pub struct LoginServerLoginPacket {
    /// Unused
    pub version: [u8; 4],
    pub name: String,
    pub password: String,
    /// Unused
    pub client_type: u8,
}

/// What a [`LoginServerLoginPacket`] stands for.
pub struct LoginServerLoginPacketModel {
    pub version: [u8; 4],
    pub name: Seq<char>,
    pub password: Seq<char>,
    pub client_type: u8,
}

impl LoginServerLoginPacket {
    /// The packet that [`new`](Self::new) makes.
    pub open spec fn made(name: Seq<char>, password: Seq<char>) -> LoginServerLoginPacketModel {
        LoginServerLoginPacketModel { version: zeroed::<4>(), name, password, client_type: 0 }
    }

    pub fn new(name: String, password: String) -> (packet: Self)
        ensures
            packet.model() == Self::made(name.model(), password.model()),
    {
        let packet = LoginServerLoginPacket { version: [0; 4], name, password, client_type: 0 };
        proof {
            lemma_zeroed(packet.version);
        }
        packet
    }
}

impl Packet for LoginServerLoginPacket {
    type Model = LoginServerLoginPacketModel;

    const PACKET_NAME: &'static str = "LoginServerLoginPacket";

    const IS_PING: bool = false;

    open spec fn model(&self) -> LoginServerLoginPacketModel {
        LoginServerLoginPacketModel {
            version: self.version.model(),
            name: self.name.model(),
            password: self.password.model(),
            client_type: self.client_type.model(),
        }
    }

    open spec fn packet_header() -> u16 {
        0x0064
    }

    #[verifier::opaque]
    open spec fn payload_decoding(data: Seq<u8>, at: int) -> Result<
        (LoginServerLoginPacketModel, nat),
        ConversionError,
    > {
        let version = <[u8; 4]>::decoding(data, at, None);
        let at_name = behind(at, version);
        let name = String::decoding(data, at_name, Some(24));
        let at_password = behind(at_name, name);
        let password = String::decoding(data, at_password, Some(24));
        let at_client_type = behind(at_password, password);
        let client_type = u8::decoding(data, at_client_type, None);
        let behind_all = behind(at_client_type, client_type);
        if version is Err {
            Err(version->Err_0)
        } else if name is Err {
            Err(name->Err_0)
        } else if password is Err {
            Err(password->Err_0)
        } else if client_type is Err {
            Err(client_type->Err_0)
        } else {
            Ok(
                (
                    LoginServerLoginPacketModel {
                        version: version->Ok_0.0,
                        name: name->Ok_0.0,
                        password: password->Ok_0.0,
                        client_type: client_type->Ok_0.0,
                    },
                    (behind_all - at) as nat,
                ),
            )
        }
    }

    open spec fn encodable(value: LoginServerLoginPacketModel) -> bool {
        &&& String::encodable(value.name, Some(24))
        &&& String::encodable(value.password, Some(24))
    }

    open spec fn faithful(value: LoginServerLoginPacketModel) -> bool {
        &&& String::faithful(value.name, Some(24))
        &&& String::faithful(value.password, Some(24))
    }

    #[verifier::opaque]
    open spec fn payload_encoding(value: LoginServerLoginPacketModel) -> Seq<u8> {
        <[u8; 4]>::encoding(value.version, None)
            + String::encoding(value.name, Some(24))
            + String::encoding(value.password, Some(24))
            + u8::encoding(value.client_type, None)
    }

    fn header() -> (header: u16) {
        0x0064
    }

    fn payload_from_bytes(byte_stream: &mut ByteStream) -> (result: Result<
        Self,
        ConversionError,
    >) {
        proof {
            reveal(<LoginServerLoginPacket as Packet>::payload_decoding);
        }
        let mut cursor = byte_stream.fork();
        let version = <[u8; 4]>::from_bytes(&mut cursor, None)?;
        let name = String::from_bytes(&mut cursor, Some(24))?;
        let password = String::from_bytes(&mut cursor, Some(24))?;
        let client_type = u8::from_bytes(&mut cursor, None)?;
        byte_stream.follow(&cursor);
        Ok(LoginServerLoginPacket { version, name, password, client_type })
    }

    fn payload_to_bytes(&self) -> (bytes: Vec<u8>) {
        proof {
            reveal(<LoginServerLoginPacket as Packet>::payload_encoding);
        }
        let mut bytes = self.version.to_bytes(None);
        let mut piece = self.name.to_bytes(Some(24));
        bytes.append(&mut piece);
        let mut piece = self.password.to_bytes(Some(24));
        bytes.append(&mut piece);
        let mut piece = self.client_type.to_bytes(None);
        bytes.append(&mut piece);
        bytes
    }

    proof fn lemma_payload_round_trip(value: LoginServerLoginPacketModel, data: Seq<u8>, at: int) {
        reveal(<LoginServerLoginPacket as Packet>::payload_decoding);
        reveal(<LoginServerLoginPacket as Packet>::payload_encoding);
        let piece_0 = <[u8; 4]>::encoding(value.version, None);
        let piece_1 = String::encoding(value.name, Some(24));
        let piece_2 = String::encoding(value.password, Some(24));
        let piece_3 = u8::encoding(value.client_type, None);
        let front_1 = piece_0;
        let front_2 = front_1 + piece_1;
        let front_3 = front_2 + piece_2;
        lemma_holds_at_split(data, at, front_3, piece_3);
        lemma_holds_at_split(data, at, front_2, piece_2);
        lemma_holds_at_split(data, at, front_1, piece_1);
        <[u8; 4]>::lemma_round_trip(value.version, None, data, at);
        String::lemma_round_trip(value.name, Some(24), data, at + front_1.len());
        String::lemma_round_trip(value.password, Some(24), data, at + front_2.len());
        u8::lemma_round_trip(value.client_type, None, data, at + front_3.len());
    }
}

#[derive(Clone, Copy, Debug)]
pub struct CharacterServerInformation {
    pub server_ip: [u8; 4],
    pub server_port: u16,
    pub server_name: [u8; 20],
    pub user_count: u16,
    pub server_type: u16,
    pub display_new: u16,
    pub unknown: [u8; 128],
}

impl ByteConvertable for CharacterServerInformation {
    type Model = CharacterServerInformation;

    open spec fn model(&self) -> CharacterServerInformation {
        *self
    }

    open spec fn accepts(length_hint: Option<usize>) -> bool {
        length_hint is None
    }

    #[verifier::opaque]
    open spec fn decoding(data: Seq<u8>, at: int, length_hint: Option<usize>) -> Result<
        (CharacterServerInformation, nat),
        ConversionError,
    > {
        let server_ip = <[u8; 4]>::decoding(data, at, None);
        let at_server_port = behind(at, server_ip);
        let server_port = u16::decoding(data, at_server_port, None);
        let at_server_name = behind(at_server_port, server_port);
        let server_name = <[u8; 20]>::decoding(data, at_server_name, None);
        let at_user_count = behind(at_server_name, server_name);
        let user_count = u16::decoding(data, at_user_count, None);
        let at_server_type = behind(at_user_count, user_count);
        let server_type = u16::decoding(data, at_server_type, None);
        let at_display_new = behind(at_server_type, server_type);
        let display_new = u16::decoding(data, at_display_new, None);
        let at_unknown = behind(at_display_new, display_new);
        let unknown = <[u8; 128]>::decoding(data, at_unknown, None);
        let behind_all = behind(at_unknown, unknown);
        if server_ip is Err {
            Err(server_ip->Err_0)
        } else if server_port is Err {
            Err(server_port->Err_0)
        } else if server_name is Err {
            Err(server_name->Err_0)
        } else if user_count is Err {
            Err(user_count->Err_0)
        } else if server_type is Err {
            Err(server_type->Err_0)
        } else if display_new is Err {
            Err(display_new->Err_0)
        } else if unknown is Err {
            Err(unknown->Err_0)
        } else {
            Ok(
                (
                    CharacterServerInformation {
                        server_ip: server_ip->Ok_0.0,
                        server_port: server_port->Ok_0.0,
                        server_name: server_name->Ok_0.0,
                        user_count: user_count->Ok_0.0,
                        server_type: server_type->Ok_0.0,
                        display_new: display_new->Ok_0.0,
                        unknown: unknown->Ok_0.0,
                    },
                    (behind_all - at) as nat,
                ),
            )
        }
    }

    open spec fn encodable(value: CharacterServerInformation, length_hint: Option<usize>) -> bool {
        true
    }

    #[verifier::opaque]
    open spec fn encoding(
        value: CharacterServerInformation,
        length_hint: Option<usize>,
    ) -> Seq<u8> {
        <[u8; 4]>::encoding(value.server_ip, None)
            + u16::encoding(value.server_port, None)
            + <[u8; 20]>::encoding(value.server_name, None)
            + u16::encoding(value.user_count, None)
            + u16::encoding(value.server_type, None)
            + u16::encoding(value.display_new, None)
            + <[u8; 128]>::encoding(value.unknown, None)
    }

    fn from_bytes(byte_stream: &mut ByteStream, length_hint: Option<usize>) -> (result: Result<
        Self,
        ConversionError,
    >) {
        proof {
            reveal(<CharacterServerInformation as ByteConvertable>::decoding);
        }
        let mut cursor = byte_stream.fork();
        let server_ip = <[u8; 4]>::from_bytes(&mut cursor, None)?;
        let server_port = u16::from_bytes(&mut cursor, None)?;
        let server_name = <[u8; 20]>::from_bytes(&mut cursor, None)?;
        let user_count = u16::from_bytes(&mut cursor, None)?;
        let server_type = u16::from_bytes(&mut cursor, None)?;
        let display_new = u16::from_bytes(&mut cursor, None)?;
        let unknown = <[u8; 128]>::from_bytes(&mut cursor, None)?;
        byte_stream.follow(&cursor);
        Ok(CharacterServerInformation {
            server_ip,
            server_port,
            server_name,
            user_count,
            server_type,
            display_new,
            unknown,
        })
    }

    fn to_bytes(&self, length_hint: Option<usize>) -> (bytes: Vec<u8>) {
        proof {
            reveal(<CharacterServerInformation as ByteConvertable>::encoding);
        }
        let mut bytes = self.server_ip.to_bytes(None);
        let mut piece = self.server_port.to_bytes(None);
        bytes.append(&mut piece);
        let mut piece = self.server_name.to_bytes(None);
        bytes.append(&mut piece);
        let mut piece = self.user_count.to_bytes(None);
        bytes.append(&mut piece);
        let mut piece = self.server_type.to_bytes(None);
        bytes.append(&mut piece);
        let mut piece = self.display_new.to_bytes(None);
        bytes.append(&mut piece);
        let mut piece = self.unknown.to_bytes(None);
        bytes.append(&mut piece);
        bytes
    }

    proof fn lemma_round_trip(
        value: CharacterServerInformation,
        length_hint: Option<usize>,
        data: Seq<u8>,
        at: int,
    ) {
        reveal(<CharacterServerInformation as ByteConvertable>::decoding);
        reveal(<CharacterServerInformation as ByteConvertable>::encoding);
        let piece_0 = <[u8; 4]>::encoding(value.server_ip, None);
        let piece_1 = u16::encoding(value.server_port, None);
        let piece_2 = <[u8; 20]>::encoding(value.server_name, None);
        let piece_3 = u16::encoding(value.user_count, None);
        let piece_4 = u16::encoding(value.server_type, None);
        let piece_5 = u16::encoding(value.display_new, None);
        let piece_6 = <[u8; 128]>::encoding(value.unknown, None);
        let front_1 = piece_0;
        let front_2 = front_1 + piece_1;
        let front_3 = front_2 + piece_2;
        let front_4 = front_3 + piece_3;
        let front_5 = front_4 + piece_4;
        let front_6 = front_5 + piece_5;
        lemma_holds_at_split(data, at, front_6, piece_6);
        lemma_holds_at_split(data, at, front_5, piece_5);
        lemma_holds_at_split(data, at, front_4, piece_4);
        lemma_holds_at_split(data, at, front_3, piece_3);
        lemma_holds_at_split(data, at, front_2, piece_2);
        lemma_holds_at_split(data, at, front_1, piece_1);
        <[u8; 4]>::lemma_round_trip(value.server_ip, None, data, at);
        u16::lemma_round_trip(value.server_port, None, data, at + front_1.len());
        <[u8; 20]>::lemma_round_trip(value.server_name, None, data, at + front_2.len());
        u16::lemma_round_trip(value.user_count, None, data, at + front_3.len());
        u16::lemma_round_trip(value.server_type, None, data, at + front_4.len());
        u16::lemma_round_trip(value.display_new, None, data, at + front_5.len());
        <[u8; 128]>::lemma_round_trip(value.unknown, None, data, at + front_6.len());
    }
}

impl FixedByteSize for CharacterServerInformation {
    open spec fn size() -> nat {
        160
    }

    fn size_in_bytes() -> (size: usize) {
        160
    }

    proof fn lemma_fixed_size(data: Seq<u8>, at: int, value: CharacterServerInformation) {
        reveal(<CharacterServerInformation as ByteConvertable>::decoding);
        reveal(<CharacterServerInformation as ByteConvertable>::encoding);
        assert(Self::size() == 160);
        <[u8; 4]>::lemma_fixed_size(data, at, value.server_ip);
        u16::lemma_fixed_size(data, at + 4, value.server_port);
        <[u8; 20]>::lemma_fixed_size(data, at + 6, value.server_name);
        u16::lemma_fixed_size(data, at + 26, value.user_count);
        u16::lemma_fixed_size(data, at + 28, value.server_type);
        u16::lemma_fixed_size(data, at + 30, value.display_new);
        <[u8; 128]>::lemma_fixed_size(data, at + 32, value.unknown);
    }
}

/// Sent by the login server as a response to [LoginServerLoginPacket]
/// succeeding. After receiving this packet, the client will connect to one of
/// the character servers provided by this packet.
#[derive(Clone, Debug)]
pub struct LoginServerLoginSuccessPacket {
    pub packet_length: u16,
    pub login_id1: u32,
    pub account_id: AccountId,
    pub login_id2: u32,
    /// Deprecated and always 0 on rAthena
    pub ip_address: u32,
    /// Deprecated and always 0 on rAthena
    pub name: [u8; 24],
    /// Always 0 on rAthena
    pub unknown: u16,
    pub sex: Sex,
    pub auth_token: [u8; 17],
    pub character_server_information: Vec<CharacterServerInformation>,
}

/// What a [`LoginServerLoginSuccessPacket`] stands for.
pub struct LoginServerLoginSuccessPacketModel {
    pub packet_length: u16,
    pub login_id1: u32,
    pub account_id: AccountId,
    pub login_id2: u32,
    pub ip_address: u32,
    pub name: [u8; 24],
    pub unknown: u16,
    pub sex: Sex,
    pub auth_token: [u8; 17],
    pub character_server_information: Seq<CharacterServerInformation>,
}

impl Packet for LoginServerLoginSuccessPacket {
    type Model = LoginServerLoginSuccessPacketModel;

    const PACKET_NAME: &'static str = "LoginServerLoginSuccessPacket";

    const IS_PING: bool = false;

    open spec fn model(&self) -> LoginServerLoginSuccessPacketModel {
        LoginServerLoginSuccessPacketModel {
            packet_length: self.packet_length.model(),
            login_id1: self.login_id1.model(),
            account_id: self.account_id.model(),
            login_id2: self.login_id2.model(),
            ip_address: self.ip_address.model(),
            name: self.name.model(),
            unknown: self.unknown.model(),
            sex: self.sex.model(),
            auth_token: self.auth_token.model(),
            character_server_information: models(self.character_server_information@),
        }
    }

    open spec fn packet_header() -> u16 {
        0x0ac4
    }

    #[verifier::opaque]
    open spec fn payload_decoding(data: Seq<u8>, at: int) -> Result<
        (LoginServerLoginSuccessPacketModel, nat),
        ConversionError,
    > {
        let packet_length = u16::decoding(data, at, None);
        let end = at - 2 + packet_length->Ok_0.0;
        let frame = data.take(end);
        let at_login_id1 = behind(at, packet_length);
        let login_id1 = u32::decoding(frame, at_login_id1, None);
        let at_account_id = behind(at_login_id1, login_id1);
        let account_id = AccountId::decoding(frame, at_account_id, None);
        let at_login_id2 = behind(at_account_id, account_id);
        let login_id2 = u32::decoding(frame, at_login_id2, None);
        let at_ip_address = behind(at_login_id2, login_id2);
        let ip_address = u32::decoding(frame, at_ip_address, None);
        let at_name = behind(at_ip_address, ip_address);
        let name = <[u8; 24]>::decoding(frame, at_name, None);
        let at_unknown = behind(at_name, name);
        let unknown = u16::decoding(frame, at_unknown, None);
        let at_sex = behind(at_unknown, unknown);
        let sex = Sex::decoding(frame, at_sex, None);
        let at_auth_token = behind(at_sex, sex);
        let auth_token = <[u8; 17]>::decoding(frame, at_auth_token, None);
        let at_character_server_information = behind(at_auth_token, auth_token);
        let character_server_information = repeated_decoding::<CharacterServerInformation>(
            frame,
            at_character_server_information,
            whole_count::<CharacterServerInformation>(packet_length->Ok_0.0 - 64)->Some_0,
        );
        let behind_all = behind(at_character_server_information, character_server_information);
        if packet_length is Err {
            Err(packet_length->Err_0)
        } else if packet_length->Ok_0.0 < 64 {
            Err(ConversionError::Invalid)
        } else if end > data.len() {
            Err(ConversionError::Incomplete)
        } else if whole_count::<CharacterServerInformation>(packet_length->Ok_0.0 - 64) is None
            || login_id1 is Err
            || account_id is Err
            || login_id2 is Err
            || ip_address is Err
            || name is Err
            || unknown is Err
            || sex is Err
            || auth_token is Err
            || character_server_information is Err
            || behind_all != end {
            Err(ConversionError::Invalid)
        } else {
            Ok(
                (
                    LoginServerLoginSuccessPacketModel {
                        packet_length: packet_length->Ok_0.0,
                        login_id1: login_id1->Ok_0.0,
                        account_id: account_id->Ok_0.0,
                        login_id2: login_id2->Ok_0.0,
                        ip_address: ip_address->Ok_0.0,
                        name: name->Ok_0.0,
                        unknown: unknown->Ok_0.0,
                        sex: sex->Ok_0.0,
                        auth_token: auth_token->Ok_0.0,
                        character_server_information: character_server_information->Ok_0.0,
                    },
                    (behind_all - at) as nat,
                ),
            )
        }
    }

    open spec fn encodable(value: LoginServerLoginSuccessPacketModel) -> bool {
        &&& all_encodable::<CharacterServerInformation>(value.character_server_information)
        &&& value.packet_length == 2 + Self::payload_encoding(value).len()
    }

    #[verifier::opaque]
    open spec fn payload_encoding(value: LoginServerLoginSuccessPacketModel) -> Seq<u8> {
        u16::encoding(value.packet_length, None)
            + u32::encoding(value.login_id1, None)
            + AccountId::encoding(value.account_id, None)
            + u32::encoding(value.login_id2, None)
            + u32::encoding(value.ip_address, None)
            + <[u8; 24]>::encoding(value.name, None)
            + u16::encoding(value.unknown, None)
            + Sex::encoding(value.sex, None)
            + <[u8; 17]>::encoding(value.auth_token, None)
            + repeated_encoding::<CharacterServerInformation>(value.character_server_information)
    }

    fn header() -> (header: u16) {
        0x0ac4
    }

    #[verifier::spinoff_prover]
    #[verifier::rlimit(100)]
    fn payload_from_bytes(byte_stream: &mut ByteStream) -> (result: Result<
        Self,
        ConversionError,
    >) {
        proof {
            reveal(<LoginServerLoginSuccessPacket as Packet>::payload_decoding);
        }
        let mut cursor = byte_stream.fork();
        let packet_length = u16::from_bytes(&mut cursor, None)?;
        if packet_length < 64 {
            return Err(ConversionError::Invalid);
        }
        if cursor.remaining_length() < (packet_length - 4) as usize {
            return Err(ConversionError::Incomplete);
        }
        let end = cursor.get_offset() + (packet_length - 4) as usize;
        let mut frame = cursor.frame(end);
        let login_id1 = match u32::from_bytes(&mut frame, None) {
            Ok(value) => value,
            Err(_) => return Err(ConversionError::Invalid),
        };
        let account_id = match AccountId::from_bytes(&mut frame, None) {
            Ok(value) => value,
            Err(_) => return Err(ConversionError::Invalid),
        };
        let login_id2 = match u32::from_bytes(&mut frame, None) {
            Ok(value) => value,
            Err(_) => return Err(ConversionError::Invalid),
        };
        let ip_address = match u32::from_bytes(&mut frame, None) {
            Ok(value) => value,
            Err(_) => return Err(ConversionError::Invalid),
        };
        let name = match <[u8; 24]>::from_bytes(&mut frame, None) {
            Ok(value) => value,
            Err(_) => return Err(ConversionError::Invalid),
        };
        let unknown = match u16::from_bytes(&mut frame, None) {
            Ok(value) => value,
            Err(_) => return Err(ConversionError::Invalid),
        };
        let sex = match Sex::from_bytes(&mut frame, None) {
            Ok(value) => value,
            Err(_) => return Err(ConversionError::Invalid),
        };
        let auth_token = match <[u8; 17]>::from_bytes(&mut frame, None) {
            Ok(value) => value,
            Err(_) => return Err(ConversionError::Invalid),
        };
        let count = match count_whole::<CharacterServerInformation>((packet_length - 64) as usize) {
            Some(count) => count,
            None => return Err(ConversionError::Invalid),
        };
        let character_server_information = match decode_repeated::<CharacterServerInformation>(
            &mut frame,
            count,
        ) {
            Ok(value) => value,
            Err(_) => return Err(ConversionError::Invalid),
        };
        if !frame.is_empty() {
            return Err(ConversionError::Invalid);
        }
        byte_stream.follow(&frame);
        Ok(LoginServerLoginSuccessPacket {
            packet_length,
            login_id1,
            account_id,
            login_id2,
            ip_address,
            name,
            unknown,
            sex,
            auth_token,
            character_server_information,
        })
    }

    fn payload_to_bytes(&self) -> (bytes: Vec<u8>) {
        proof {
            reveal(<LoginServerLoginSuccessPacket as Packet>::payload_encoding);
        }
        let mut bytes = self.packet_length.to_bytes(None);
        let mut piece = self.login_id1.to_bytes(None);
        bytes.append(&mut piece);
        let mut piece = self.account_id.to_bytes(None);
        bytes.append(&mut piece);
        let mut piece = self.login_id2.to_bytes(None);
        bytes.append(&mut piece);
        let mut piece = self.ip_address.to_bytes(None);
        bytes.append(&mut piece);
        let mut piece = self.name.to_bytes(None);
        bytes.append(&mut piece);
        let mut piece = self.unknown.to_bytes(None);
        bytes.append(&mut piece);
        let mut piece = self.sex.to_bytes(None);
        bytes.append(&mut piece);
        let mut piece = self.auth_token.to_bytes(None);
        bytes.append(&mut piece);
        let mut piece = encode_repeated::<CharacterServerInformation>(
            &self.character_server_information,
        );
        bytes.append(&mut piece);
        bytes
    }

    #[verifier::spinoff_prover]
    #[verifier::rlimit(100)]
    proof fn lemma_payload_round_trip(
        value: LoginServerLoginSuccessPacketModel,
        data: Seq<u8>,
        at: int,
    ) {
        reveal(<LoginServerLoginSuccessPacket as Packet>::payload_decoding);
        reveal(<LoginServerLoginSuccessPacket as Packet>::payload_encoding);
        let piece_0 = u16::encoding(value.packet_length, None);
        let piece_1 = u32::encoding(value.login_id1, None);
        let piece_2 = AccountId::encoding(value.account_id, None);
        let piece_3 = u32::encoding(value.login_id2, None);
        let piece_4 = u32::encoding(value.ip_address, None);
        let piece_5 = <[u8; 24]>::encoding(value.name, None);
        let piece_6 = u16::encoding(value.unknown, None);
        let piece_7 = Sex::encoding(value.sex, None);
        let piece_8 = <[u8; 17]>::encoding(value.auth_token, None);
        let piece_9 = repeated_encoding::<CharacterServerInformation>(
            value.character_server_information,
        );
        let front_1 = piece_0;
        let front_2 = front_1 + piece_1;
        let front_3 = front_2 + piece_2;
        let front_4 = front_3 + piece_3;
        let front_5 = front_4 + piece_4;
        let front_6 = front_5 + piece_5;
        let front_7 = front_6 + piece_6;
        let front_8 = front_7 + piece_7;
        let front_9 = front_8 + piece_8;
        lemma_holds_at_split(data, at, front_9, piece_9);
        lemma_holds_at_split(data, at, front_8, piece_8);
        lemma_holds_at_split(data, at, front_7, piece_7);
        lemma_holds_at_split(data, at, front_6, piece_6);
        lemma_holds_at_split(data, at, front_5, piece_5);
        lemma_holds_at_split(data, at, front_4, piece_4);
        lemma_holds_at_split(data, at, front_3, piece_3);
        lemma_holds_at_split(data, at, front_2, piece_2);
        lemma_holds_at_split(data, at, front_1, piece_1);
        lemma_holds_at_bounds(data, at, Self::payload_encoding(value));
        let end = at - 2 + value.packet_length;
        let frame = data.take(end);
        u16::lemma_round_trip(value.packet_length, None, data, at);
        lemma_holds_at_take(data, end, at + front_1.len(), piece_1);
        u32::lemma_round_trip(value.login_id1, None, frame, at + front_1.len());
        lemma_holds_at_take(data, end, at + front_2.len(), piece_2);
        AccountId::lemma_fixed_size(frame, at + front_2.len(), value.account_id);
        AccountId::lemma_round_trip(value.account_id, None, frame, at + front_2.len());
        lemma_holds_at_take(data, end, at + front_3.len(), piece_3);
        u32::lemma_round_trip(value.login_id2, None, frame, at + front_3.len());
        lemma_holds_at_take(data, end, at + front_4.len(), piece_4);
        u32::lemma_round_trip(value.ip_address, None, frame, at + front_4.len());
        lemma_holds_at_take(data, end, at + front_5.len(), piece_5);
        <[u8; 24]>::lemma_fixed_size(frame, at + front_5.len(), value.name);
        <[u8; 24]>::lemma_round_trip(value.name, None, frame, at + front_5.len());
        lemma_holds_at_take(data, end, at + front_6.len(), piece_6);
        u16::lemma_round_trip(value.unknown, None, frame, at + front_6.len());
        lemma_holds_at_take(data, end, at + front_7.len(), piece_7);
        Sex::lemma_fixed_size(frame, at + front_7.len(), value.sex);
        Sex::lemma_round_trip(value.sex, None, frame, at + front_7.len());
        lemma_holds_at_take(data, end, at + front_8.len(), piece_8);
        <[u8; 17]>::lemma_fixed_size(frame, at + front_8.len(), value.auth_token);
        <[u8; 17]>::lemma_round_trip(value.auth_token, None, frame, at + front_8.len());
        lemma_holds_at_take(data, end, at + front_9.len(), piece_9);
        lemma_repeated_size::<CharacterServerInformation>(
            frame,
            at + front_9.len(),
            value.character_server_information,
        );
        assert(CharacterServerInformation::size() == 160);
        lemma_whole_count::<CharacterServerInformation>(value.character_server_information.len());
        lemma_repeated_round_trip::<CharacterServerInformation>(
            value.character_server_information,
            frame,
            at + front_9.len(),
        );
    }
}

impl LengthPrefixed for LoginServerLoginSuccessPacket {
    open spec fn announced_length(value: LoginServerLoginSuccessPacketModel) -> u16 {
        value.packet_length
    }

    proof fn lemma_exact_length(data: Seq<u8>, at: int) {
        reveal(<LoginServerLoginSuccessPacket as Packet>::payload_decoding);
    }
}

#[derive(Clone, Copy, Debug, PartialEq, Eq, Structural)]
pub enum LoginFailedReason {
    ServerClosed,
    AlreadyLoggedIn,
    AlreadyOnline,
}

impl LoginFailedReason {
    /// The number that stands for a variant on the wire.
    pub open spec fn code(self) -> u8 {
        match self {
            LoginFailedReason::ServerClosed => 1,
            LoginFailedReason::AlreadyLoggedIn => 2,
            LoginFailedReason::AlreadyOnline => 8,
        }
    }

    /// The variant that a number stands for.
    pub open spec fn of_code(code: u8) -> Option<LoginFailedReason> {
        if code == 1 {
            Some(LoginFailedReason::ServerClosed)
        } else if code == 2 {
            Some(LoginFailedReason::AlreadyLoggedIn)
        } else if code == 8 {
            Some(LoginFailedReason::AlreadyOnline)
        } else {
            None
        }
    }
}

impl ByteConvertable for LoginFailedReason {
    type Model = LoginFailedReason;

    open spec fn model(&self) -> LoginFailedReason {
        *self
    }

    open spec fn accepts(length_hint: Option<usize>) -> bool {
        length_hint is None
    }

    open spec fn decoding(data: Seq<u8>, at: int, length_hint: Option<usize>) -> Result<
        (LoginFailedReason, nat),
        ConversionError,
    > {
        match u8::decoding(data, at, None) {
            Ok((code, length)) => match LoginFailedReason::of_code(code) {
                Some(value) => Ok((value, length)),
                None => Err(ConversionError::Invalid),
            },
            Err(error) => Err(error),
        }
    }

    open spec fn encodable(value: LoginFailedReason, length_hint: Option<usize>) -> bool {
        true
    }

    open spec fn encoding(value: LoginFailedReason, length_hint: Option<usize>) -> Seq<u8> {
        u8::encoding(value.code(), None)
    }

    fn from_bytes(byte_stream: &mut ByteStream, length_hint: Option<usize>) -> (result: Result<
        Self,
        ConversionError,
    >) {
        let mut cursor = byte_stream.fork();
        let code = u8::from_bytes(&mut cursor, None)?;
        let value = match code {
            1 => LoginFailedReason::ServerClosed,
            2 => LoginFailedReason::AlreadyLoggedIn,
            8 => LoginFailedReason::AlreadyOnline,
            _ => return Err(ConversionError::Invalid),
        };
        byte_stream.follow(&cursor);
        Ok(value)
    }

    fn to_bytes(&self, length_hint: Option<usize>) -> (bytes: Vec<u8>) {
        let code: u8 = match self {
            LoginFailedReason::ServerClosed => 1,
            LoginFailedReason::AlreadyLoggedIn => 2,
            LoginFailedReason::AlreadyOnline => 8,
        };
        code.to_bytes(None)
    }

    proof fn lemma_round_trip(
        value: LoginFailedReason,
        length_hint: Option<usize>,
        data: Seq<u8>,
        at: int,
    ) {
        u8::lemma_round_trip(value.code(), None, data, at);
    }
}

impl FixedByteSize for LoginFailedReason {
    open spec fn size() -> nat {
        1
    }

    fn size_in_bytes() -> (size: usize) {
        1
    }

    proof fn lemma_fixed_size(data: Seq<u8>, at: int, value: LoginFailedReason) {
        assert(Self::size() == 1);
    }
}

#[derive(Clone, Copy, Debug)]
pub struct LoginFailedPacket {
    pub reason: LoginFailedReason,
}

impl Packet for LoginFailedPacket {
    type Model = LoginFailedPacket;

    const PACKET_NAME: &'static str = "LoginFailedPacket";

    const IS_PING: bool = false;

    open spec fn model(&self) -> LoginFailedPacket {
        *self
    }

    open spec fn packet_header() -> u16 {
        0x0081
    }

    #[verifier::opaque]
    open spec fn payload_decoding(data: Seq<u8>, at: int) -> Result<
        (LoginFailedPacket, nat),
        ConversionError,
    > {
        let reason = LoginFailedReason::decoding(data, at, None);
        let behind_all = behind(at, reason);
        if reason is Err {
            Err(reason->Err_0)
        } else {
            Ok(
                (
                    LoginFailedPacket {
                        reason: reason->Ok_0.0,
                    },
                    (behind_all - at) as nat,
                ),
            )
        }
    }

    open spec fn encodable(value: LoginFailedPacket) -> bool {
        true
    }

    #[verifier::opaque]
    open spec fn payload_encoding(value: LoginFailedPacket) -> Seq<u8> {
        LoginFailedReason::encoding(value.reason, None)
    }

    fn header() -> (header: u16) {
        0x0081
    }

    fn payload_from_bytes(byte_stream: &mut ByteStream) -> (result: Result<
        Self,
        ConversionError,
    >) {
        proof {
            reveal(<LoginFailedPacket as Packet>::payload_decoding);
        }
        let mut cursor = byte_stream.fork();
        let reason = LoginFailedReason::from_bytes(&mut cursor, None)?;
        byte_stream.follow(&cursor);
        Ok(LoginFailedPacket { reason })
    }

    fn payload_to_bytes(&self) -> (bytes: Vec<u8>) {
        proof {
            reveal(<LoginFailedPacket as Packet>::payload_encoding);
        }
        let bytes = self.reason.to_bytes(None);
        bytes
    }

    proof fn lemma_payload_round_trip(value: LoginFailedPacket, data: Seq<u8>, at: int) {
        reveal(<LoginFailedPacket as Packet>::payload_decoding);
        reveal(<LoginFailedPacket as Packet>::payload_encoding);
        let piece_0 = LoginFailedReason::encoding(value.reason, None);
        LoginFailedReason::lemma_round_trip(value.reason, None, data, at);
    }
}

#[derive(Clone, Copy, Debug, PartialEq, Eq, Structural)]
pub enum LoginFailedReason2 {
    UnregisteredId,
    IncorrectPassword,
    IdExpired,
    RejectedFromServer,
    BlockedByGMTeam,
    GameOutdated,
    LoginProhibitedUntil,
    ServerFull,
    CompanyAccountLimitReached,
}

impl LoginFailedReason2 {
    /// The number that stands for a variant on the wire.
    pub open spec fn code(self) -> u8 {
        match self {
            LoginFailedReason2::UnregisteredId => 0,
            LoginFailedReason2::IncorrectPassword => 1,
            LoginFailedReason2::IdExpired => 2,
            LoginFailedReason2::RejectedFromServer => 3,
            LoginFailedReason2::BlockedByGMTeam => 4,
            LoginFailedReason2::GameOutdated => 5,
            LoginFailedReason2::LoginProhibitedUntil => 6,
            LoginFailedReason2::ServerFull => 7,
            LoginFailedReason2::CompanyAccountLimitReached => 8,
        }
    }

    /// The variant that a number stands for.
    pub open spec fn of_code(code: u8) -> Option<LoginFailedReason2> {
        if code == 0 {
            Some(LoginFailedReason2::UnregisteredId)
        } else if code == 1 {
            Some(LoginFailedReason2::IncorrectPassword)
        } else if code == 2 {
            Some(LoginFailedReason2::IdExpired)
        } else if code == 3 {
            Some(LoginFailedReason2::RejectedFromServer)
        } else if code == 4 {
            Some(LoginFailedReason2::BlockedByGMTeam)
        } else if code == 5 {
            Some(LoginFailedReason2::GameOutdated)
        } else if code == 6 {
            Some(LoginFailedReason2::LoginProhibitedUntil)
        } else if code == 7 {
            Some(LoginFailedReason2::ServerFull)
        } else if code == 8 {
            Some(LoginFailedReason2::CompanyAccountLimitReached)
        } else {
            None
        }
    }
}

impl ByteConvertable for LoginFailedReason2 {
    type Model = LoginFailedReason2;

    open spec fn model(&self) -> LoginFailedReason2 {
        *self
    }

    open spec fn accepts(length_hint: Option<usize>) -> bool {
        length_hint is None
    }

    open spec fn decoding(data: Seq<u8>, at: int, length_hint: Option<usize>) -> Result<
        (LoginFailedReason2, nat),
        ConversionError,
    > {
        match u8::decoding(data, at, None) {
            Ok((code, length)) => match LoginFailedReason2::of_code(code) {
                Some(value) => Ok((value, length)),
                None => Err(ConversionError::Invalid),
            },
            Err(error) => Err(error),
        }
    }

    open spec fn encodable(value: LoginFailedReason2, length_hint: Option<usize>) -> bool {
        true
    }

    open spec fn encoding(value: LoginFailedReason2, length_hint: Option<usize>) -> Seq<u8> {
        u8::encoding(value.code(), None)
    }

    fn from_bytes(byte_stream: &mut ByteStream, length_hint: Option<usize>) -> (result: Result<
        Self,
        ConversionError,
    >) {
        let mut cursor = byte_stream.fork();
        let code = u8::from_bytes(&mut cursor, None)?;
        let value = match code {
            0 => LoginFailedReason2::UnregisteredId,
            1 => LoginFailedReason2::IncorrectPassword,
            2 => LoginFailedReason2::IdExpired,
            3 => LoginFailedReason2::RejectedFromServer,
            4 => LoginFailedReason2::BlockedByGMTeam,
            5 => LoginFailedReason2::GameOutdated,
            6 => LoginFailedReason2::LoginProhibitedUntil,
            7 => LoginFailedReason2::ServerFull,
            8 => LoginFailedReason2::CompanyAccountLimitReached,
            _ => return Err(ConversionError::Invalid),
        };
        byte_stream.follow(&cursor);
        Ok(value)
    }

    fn to_bytes(&self, length_hint: Option<usize>) -> (bytes: Vec<u8>) {
        let code: u8 = match self {
            LoginFailedReason2::UnregisteredId => 0,
            LoginFailedReason2::IncorrectPassword => 1,
            LoginFailedReason2::IdExpired => 2,
            LoginFailedReason2::RejectedFromServer => 3,
            LoginFailedReason2::BlockedByGMTeam => 4,
            LoginFailedReason2::GameOutdated => 5,
            LoginFailedReason2::LoginProhibitedUntil => 6,
            LoginFailedReason2::ServerFull => 7,
            LoginFailedReason2::CompanyAccountLimitReached => 8,
        };
        code.to_bytes(None)
    }

    proof fn lemma_round_trip(
        value: LoginFailedReason2,
        length_hint: Option<usize>,
        data: Seq<u8>,
        at: int,
    ) {
        u8::lemma_round_trip(value.code(), None, data, at);
    }
}

impl FixedByteSize for LoginFailedReason2 {
    open spec fn size() -> nat {
        1
    }

    fn size_in_bytes() -> (size: usize) {
        1
    }

    proof fn lemma_fixed_size(data: Seq<u8>, at: int, value: LoginFailedReason2) {
        assert(Self::size() == 1);
    }
}

#[derive(Clone, Copy, Debug)]
pub struct LoginFailedPacket2 {
    pub reason: LoginFailedReason2,
}

impl Packet for LoginFailedPacket2 {
    type Model = LoginFailedPacket2;

    const PACKET_NAME: &'static str = "LoginFailedPacket2";

    const IS_PING: bool = false;

    open spec fn model(&self) -> LoginFailedPacket2 {
        *self
    }

    open spec fn packet_header() -> u16 {
        0x083e
    }

    #[verifier::opaque]
    open spec fn payload_decoding(data: Seq<u8>, at: int) -> Result<
        (LoginFailedPacket2, nat),
        ConversionError,
    > {
        let reason = LoginFailedReason2::decoding(data, at, None);
        let behind_all = behind(at, reason);
        if reason is Err {
            Err(reason->Err_0)
        } else {
            Ok(
                (
                    LoginFailedPacket2 {
                        reason: reason->Ok_0.0,
                    },
                    (behind_all - at) as nat,
                ),
            )
        }
    }

    open spec fn encodable(value: LoginFailedPacket2) -> bool {
        true
    }

    #[verifier::opaque]
    open spec fn payload_encoding(value: LoginFailedPacket2) -> Seq<u8> {
        LoginFailedReason2::encoding(value.reason, None)
    }

    fn header() -> (header: u16) {
        0x083e
    }

    fn payload_from_bytes(byte_stream: &mut ByteStream) -> (result: Result<
        Self,
        ConversionError,
    >) {
        proof {
            reveal(<LoginFailedPacket2 as Packet>::payload_decoding);
        }
        let mut cursor = byte_stream.fork();
        let reason = LoginFailedReason2::from_bytes(&mut cursor, None)?;
        byte_stream.follow(&cursor);
        Ok(LoginFailedPacket2 { reason })
    }

    fn payload_to_bytes(&self) -> (bytes: Vec<u8>) {
        proof {
            reveal(<LoginFailedPacket2 as Packet>::payload_encoding);
        }
        let bytes = self.reason.to_bytes(None);
        bytes
    }

    proof fn lemma_payload_round_trip(value: LoginFailedPacket2, data: Seq<u8>, at: int) {
        reveal(<LoginFailedPacket2 as Packet>::payload_decoding);
        reveal(<LoginFailedPacket2 as Packet>::payload_encoding);
        let piece_0 = LoginFailedReason2::encoding(value.reason, None);
        LoginFailedReason2::lemma_round_trip(value.reason, None, data, at);
    }
}

/// Sent by the client to the login server every 60 seconds to keep the
/// connection alive.
#[derive(Clone, Copy, Debug)]
pub struct LoginServerKeepalivePacket {
    pub user_id: [u8; 24],
}

impl LoginServerKeepalivePacket {
    /// The packet that [`new`](Self::new) makes.
    pub open spec fn made() -> LoginServerKeepalivePacket {
        LoginServerKeepalivePacket { user_id: zeroed::<24>() }
    }

    pub fn new() -> (packet: Self)
        ensures
            packet.model() == Self::made(),
    {
        let packet = LoginServerKeepalivePacket { user_id: [0; 24] };
        proof {
            lemma_zeroed(packet.user_id);
        }
        packet
    }
}

impl Packet for LoginServerKeepalivePacket {
    type Model = LoginServerKeepalivePacket;

    const PACKET_NAME: &'static str = "LoginServerKeepalivePacket";

    const IS_PING: bool = true;

    open spec fn model(&self) -> LoginServerKeepalivePacket {
        *self
    }

    open spec fn packet_header() -> u16 {
        0x0200
    }

    #[verifier::opaque]
    open spec fn payload_decoding(data: Seq<u8>, at: int) -> Result<
        (LoginServerKeepalivePacket, nat),
        ConversionError,
    > {
        let user_id = <[u8; 24]>::decoding(data, at, None);
        let behind_all = behind(at, user_id);
        if user_id is Err {
            Err(user_id->Err_0)
        } else {
            Ok(
                (
                    LoginServerKeepalivePacket {
                        user_id: user_id->Ok_0.0,
                    },
                    (behind_all - at) as nat,
                ),
            )
        }
    }

    open spec fn encodable(value: LoginServerKeepalivePacket) -> bool {
        true
    }

    #[verifier::opaque]
    open spec fn payload_encoding(value: LoginServerKeepalivePacket) -> Seq<u8> {
        <[u8; 24]>::encoding(value.user_id, None)
    }

    fn header() -> (header: u16) {
        0x0200
    }

    fn payload_from_bytes(byte_stream: &mut ByteStream) -> (result: Result<
        Self,
        ConversionError,
    >) {
        proof {
            reveal(<LoginServerKeepalivePacket as Packet>::payload_decoding);
        }
        let mut cursor = byte_stream.fork();
        let user_id = <[u8; 24]>::from_bytes(&mut cursor, None)?;
        byte_stream.follow(&cursor);
        Ok(LoginServerKeepalivePacket { user_id })
    }

    fn payload_to_bytes(&self) -> (bytes: Vec<u8>) {
        proof {
            reveal(<LoginServerKeepalivePacket as Packet>::payload_encoding);
        }
        let bytes = self.user_id.to_bytes(None);
        bytes
    }

    proof fn lemma_payload_round_trip(value: LoginServerKeepalivePacket, data: Seq<u8>, at: int) {
        reveal(<LoginServerKeepalivePacket as Packet>::payload_decoding);
        reveal(<LoginServerKeepalivePacket as Packet>::payload_encoding);
        let piece_0 = <[u8; 24]>::encoding(value.user_id, None);
        <[u8; 24]>::lemma_round_trip(value.user_id, None, data, at);
    }
}

} // verus!
