//! The session: what the client knows of its connections to the login server,
//! the character server and the map server, and of the account that it has
//! logged in with.
//!
//! The session decides; it does not send or receive. Every operation is one
//! step of an exchange with a server: it takes what the server has answered, as
//! bytes, changes the session, and hands back what is to be sent next. The
//! servers are walked in order: login server, character server, map server.

use vstd::prelude::*;
use vstd::string::StringExecFns;

use crate::loaders::convertable::{decode_repeated, models, repeated_decoding, ByteConvertable};
use crate::loaders::stream::{ByteStream, ConversionError};
use crate::loaders::wire::lemma_plain_text_bytes;
use crate::network::character::{
    CharacterCreationFailedPacket, CharacterCreationFailedReason, CharacterDeletionFailedPacket,
    CharacterDeletionFailedReason, CharacterDeletionSuccessPacket, CharacterInformation,
    CharacterInformationModel, CharacterSelectionFailedPacket, CharacterSelectionSuccessPacket,
    CharacterSelectionSuccessPacketModel, CharacterServerKeepalivePacket,
    CharacterServerLoginPacket, CharacterServerLoginSuccessPacket, CreateCharacterPacket,
    CreateCharacterSuccessPacket, DeleteCharacterPacket, MapServerUnavailablePacket, Packet6b00,
    RequestCharacterListPacket, RequestCharacterListSuccessPacket, SelectCharacterPacket,
    SwitchCharacterSlotPacket, SwitchCharacterSlotResponsePacket, SwitchCharacterSlotResponseStatus,
};
use crate::network::dispatch::{dispatch, dispatching, Remainder};
use crate::network::event::{event_models, NetworkEvent};
use crate::network::friend::{Friend, FriendModel};
use crate::network::ids::{AccountId, CharacterId, ClientTick, Sex};
use crate::network::login::{
    LoginFailedPacket, LoginFailedPacket2, LoginFailedReason, LoginFailedReason2,
    LoginServerKeepalivePacket, LoginServerLoginPacket, LoginServerLoginSuccessPacket,
    LoginServerLoginSuccessPacketModel,
};
use crate::network::map::{
    MapServerLoginPacket, RequestServerTickPacket, RestartPacket, RestartType,
};
use crate::network::packet::{frame_decoding, frame_encoding, Packet};
use crate::network::text::{byte_length, remove_all, without};
use crate::network::timer::{NetworkTimer, SECOND};

verus! {

/// What the player has chosen to be kept of a login.
#[derive(Clone, Debug)]
pub struct LoginSettings {
    pub username: String,
    pub password: String,
    pub remember_username: bool,
    pub remember_password: bool,
}

/// What [`LoginSettings`] stand for.
pub struct LoginSettingsModel {
    pub username: Seq<char>,
    pub password: Seq<char>,
    pub remember_username: bool,
    pub remember_password: bool,
}

impl LoginSettings {
    pub open spec fn model(&self) -> LoginSettingsModel {
        LoginSettingsModel {
            username: self.username@,
            password: self.password@,
            remember_username: self.remember_username,
            remember_password: self.remember_password,
        }
    }

    /// Settings that keep nothing.
    pub fn new() -> (settings: Self)
        ensures
            settings.model() == (LoginSettingsModel {
                username: Seq::empty(),
                password: Seq::empty(),
                remember_username: false,
                remember_password: false,
            }),
    {
        LoginSettings {
            username: String::new(),
            password: String::new(),
            remember_username: false,
            remember_password: false,
        }
    }
}

/// What a login leaves with the client: the account and the proof of the
/// login.
#[derive(Clone, Copy, Debug, PartialEq, Eq, Structural)]
pub struct LoginData {
    pub account_id: AccountId,
    pub login_id1: u32,
    pub sex: Sex,
}

impl LoginData {
    pub fn new(account_id: AccountId, login_id1: u32, sex: Sex) -> (login_data: Self)
        ensures
            login_data == (LoginData { account_id, login_id1, sex }),
    {
        LoginData { account_id, login_id1, sex }
    }
}

/// How far the client has come on its way to the map server.
#[derive(Clone, Copy, Debug, PartialEq, Eq, Structural)]
pub enum ConnectionState {
    Disconnected,
    CharacterServerConnected,
    CharacterSelected,
    MapConnected,
}

/// What the session waits for: the answer that its last request calls for.
#[derive(Clone, Copy, Debug, PartialEq, Eq, Structural)]
pub enum Awaited {
    Nothing,
    LoginResponse,
    AccountId,
    CharacterServerResponse,
    CharacterList,
    CharacterSelection { slot: usize },
    MapServerConnection,
    CharacterCreation,
    CharacterDeletion { character_id: CharacterId },
    SlotSwitch,
}

/// Why a step of the session did not succeed.
#[derive(Debug)]
pub enum SessionError {
    /// The server said no, or could not be reached. The text tells the player
    /// why.
    Refused(String),
    /// The server did not keep to the protocol: the answer that had to come did
    /// not come, or did not decode. The exchange cannot go on.
    Protocol(ConversionError),
    /// The step does not come next.
    OutOfOrder,
    /// What was to be sent has no wire form: a text whose bytes are too many
    /// for its field, a slot that is too far out.
    Unencodable,
}

/// What a [`SessionError`] stands for.
pub enum Failure {
    Refused(Seq<char>),
    Protocol(ConversionError),
    OutOfOrder,
    Unencodable,
}

impl SessionError {
    pub open spec fn model(&self) -> Failure {
        match self {
            SessionError::Refused(message) => Failure::Refused(message@),
            SessionError::Protocol(error) => Failure::Protocol(*error),
            SessionError::OutOfOrder => Failure::OutOfOrder,
            SessionError::Unencodable => Failure::Unencodable,
        }
    }
}

/// The refusal with the given message.
fn refused(message: &str) -> (error: SessionError)
    ensures
        error.model() == Failure::Refused(message@),
{
    SessionError::Refused(String::from_str(message))
}

/// What the login server says with a reason of its first kind.
pub open spec fn login_failed_message(reason: LoginFailedReason) -> Seq<char> {
    match reason {
        LoginFailedReason::ServerClosed => "server closed"@,
        LoginFailedReason::AlreadyLoggedIn => "someone has already logged in with this id"@,
        LoginFailedReason::AlreadyOnline => "already online"@,
    }
}

/// What the login server says with a reason of its second kind.
pub open spec fn login_failed_message2(reason: LoginFailedReason2) -> Seq<char> {
    match reason {
        LoginFailedReason2::UnregisteredId => "unregistered id"@,
        LoginFailedReason2::IncorrectPassword => "incorrect password"@,
        LoginFailedReason2::IdExpired => "id has expired"@,
        LoginFailedReason2::RejectedFromServer => "rejected from server"@,
        LoginFailedReason2::BlockedByGMTeam => "blocked by gm team"@,
        LoginFailedReason2::GameOutdated => "game outdated"@,
        LoginFailedReason2::LoginProhibitedUntil => "login prohibited until"@,
        LoginFailedReason2::ServerFull => "server is full"@,
        LoginFailedReason2::CompanyAccountLimitReached => "company account limit reached"@,
    }
}

/// What the character server says with a reason of the login server when a
/// character is selected.
pub open spec fn selection_login_failed_message(reason: LoginFailedReason) -> Seq<char> {
    match reason {
        LoginFailedReason::ServerClosed => "Server closed"@,
        LoginFailedReason::AlreadyLoggedIn => "Someone has already logged in with this ID"@,
        LoginFailedReason::AlreadyOnline => "Already online"@,
    }
}

/// What the character server says when it does not create a character.
pub open spec fn creation_failed_message(reason: CharacterCreationFailedReason) -> Seq<char> {
    match reason {
        CharacterCreationFailedReason::CharacterNameAlreadyUsed => {
            "character name is already used"@
        },
        CharacterCreationFailedReason::NotOldEnough => {
            "you are not old enough to create a character"@
        },
        CharacterCreationFailedReason::NotAllowedToUseSlot => {
            "you are not allowed to use that character slot"@
        },
        CharacterCreationFailedReason::CharacterCerationFailed => "character creation failed"@,
    }
}

/// What the character server says when it does not delete a character.
pub open spec fn deletion_failed_message(reason: CharacterDeletionFailedReason) -> Seq<char> {
    match reason {
        CharacterDeletionFailedReason::NotAllowed => {
            "you are not allowed to delete this character"@
        },
        CharacterDeletionFailedReason::CharacterNotFound => "character was not found"@,
        CharacterDeletionFailedReason::NotEligible => "character is not eligible for deletion"@,
    }
}

fn login_refusal(reason: LoginFailedReason) -> (error: SessionError)
    ensures
        error.model() == Failure::Refused(login_failed_message(reason)),
{
    match reason {
        LoginFailedReason::ServerClosed => refused("server closed"),
        LoginFailedReason::AlreadyLoggedIn => refused("someone has already logged in with this id"),
        LoginFailedReason::AlreadyOnline => refused("already online"),
    }
}

fn login_refusal2(reason: LoginFailedReason2) -> (error: SessionError)
    ensures
        error.model() == Failure::Refused(login_failed_message2(reason)),
{
    match reason {
        LoginFailedReason2::UnregisteredId => refused("unregistered id"),
        LoginFailedReason2::IncorrectPassword => refused("incorrect password"),
        LoginFailedReason2::IdExpired => refused("id has expired"),
        LoginFailedReason2::RejectedFromServer => refused("rejected from server"),
        LoginFailedReason2::BlockedByGMTeam => refused("blocked by gm team"),
        LoginFailedReason2::GameOutdated => refused("game outdated"),
        LoginFailedReason2::LoginProhibitedUntil => refused("login prohibited until"),
        LoginFailedReason2::ServerFull => refused("server is full"),
        LoginFailedReason2::CompanyAccountLimitReached => refused("company account limit reached"),
    }
}

fn selection_login_refusal(reason: LoginFailedReason) -> (error: SessionError)
    ensures
        error.model() == Failure::Refused(selection_login_failed_message(reason)),
{
    match reason {
        LoginFailedReason::ServerClosed => refused("Server closed"),
        LoginFailedReason::AlreadyLoggedIn => refused("Someone has already logged in with this ID"),
        LoginFailedReason::AlreadyOnline => refused("Already online"),
    }
}

fn creation_refusal(reason: CharacterCreationFailedReason) -> (error: SessionError)
    ensures
        error.model() == Failure::Refused(creation_failed_message(reason)),
{
    match reason {
        CharacterCreationFailedReason::CharacterNameAlreadyUsed => refused(
            "character name is already used",
        ),
        CharacterCreationFailedReason::NotOldEnough => refused(
            "you are not old enough to create a character",
        ),
        CharacterCreationFailedReason::NotAllowedToUseSlot => refused(
            "you are not allowed to use that character slot",
        ),
        CharacterCreationFailedReason::CharacterCerationFailed => refused(
            "character creation failed",
        ),
    }
}

fn deletion_refusal(reason: CharacterDeletionFailedReason) -> (error: SessionError)
    ensures
        error.model() == Failure::Refused(deletion_failed_message(reason)),
{
    match reason {
        CharacterDeletionFailedReason::NotAllowed => refused(
            "you are not allowed to delete this character",
        ),
        CharacterDeletionFailedReason::CharacterNotFound => refused("character was not found"),
        CharacterDeletionFailedReason::NotEligible => refused(
            "character is not eligible for deletion",
        ),
    }
}

/// Decodes an answer as a frame of one packet type.
fn answer<P: Packet>(data: &[u8]) -> (result: Result<P, ConversionError>)
    ensures
        match frame_decoding::<P>(data@, 0) {
            Ok((value, _)) => result matches Ok(packet) && packet.model() == value,
            Err(error) => result matches Err(failure) && failure == error,
        },
{
    let mut byte_stream = ByteStream::new(data);
    P::try_from_bytes(&mut byte_stream)
}

/// Whether a text fits a field of the given width: its bytes are not more
/// than the field holds.
pub open spec fn fits(text: Seq<char>, width: nat) -> bool {
    String::encodable(text, Some(width as usize)) && width <= usize::MAX
}

/// Whether a text fits a field of the given width.
fn text_fits(text: &str, width: usize) -> (fits: bool)
    ensures
        fits == self::fits(text@, width as nat),
{
    byte_length(text) <= width
}

/// What the session tells to connect to, and what to send there first.
#[derive(Debug)]
pub struct ServerLogin {
    pub server_ip: [u8; 4],
    pub server_port: u16,
    /// The frame that asks the server for the login.
    pub request: Vec<u8>,
}

/// The character that the player has selected, and the map that it stands on.
#[derive(Debug)]
pub struct SelectedCharacter {
    pub account_id: AccountId,
    pub character_information: CharacterInformation,
    pub map_name: String,
}

/// The frames that keep the connections alive, for each connection whose timer
/// has rolled over.
#[derive(Debug)]
pub struct KeepAlive {
    pub login_server: Option<Vec<u8>>,
    pub character_server: Option<Vec<u8>>,
    pub map_server: Option<Vec<u8>>,
}

/// The session of the client.
pub struct NetworkingSystem {
    login_settings: LoginSettings,
    state: ConnectionState,
    awaited: Awaited,
    login_data: Option<LoginData>,
    pending_name: String,
    pending_password: String,
    pending_slot_count: usize,
    pending_character_id: CharacterId,
    pending_map_name: String,
    pending_slot: usize,
    characters: Vec<CharacterInformation>,
    move_request: Option<usize>,
    friend_list: Vec<Friend>,
    slot_count: usize,
    login_keep_alive_timer: NetworkTimer,
    character_keep_alive_timer: NetworkTimer,
    map_keep_alive_timer: NetworkTimer,
    player_name: String,
    leftover: Vec<u8>,
}

/// What a [`NetworkingSystem`] stands for.
pub struct SessionModel {
    pub login_settings: LoginSettingsModel,
    pub state: ConnectionState,
    pub awaited: Awaited,
    pub login_data: Option<LoginData>,
    /// The name and the password of the login that is under way.
    pub pending_name: Seq<char>,
    pub pending_password: Seq<char>,
    /// The number of slots that the character server has announced.
    pub pending_slot_count: usize,
    /// The character and the map that the character server has named.
    pub pending_character_id: CharacterId,
    pub pending_map_name: Seq<char>,
    /// The slot of the character whose selection has succeeded.
    pub pending_slot: usize,
    pub characters: Seq<CharacterInformationModel>,
    pub move_request: Option<usize>,
    pub friend_list: Seq<FriendModel>,
    pub slot_count: usize,
    pub login_keep_alive_timer: NetworkTimer,
    pub character_keep_alive_timer: NetworkTimer,
    pub map_keep_alive_timer: NetworkTimer,
    pub player_name: Seq<char>,
    /// The bytes of a frame from the map server that is not all there yet.
    pub leftover: Seq<u8>,
}

/// The request that logs in to the character server after a login.
pub open spec fn character_server_request(login: LoginServerLoginSuccessPacketModel) -> Seq<u8> {
    frame_encoding::<CharacterServerLoginPacket>(
        CharacterServerLoginPacket::made(
            login.account_id,
            login.login_id1,
            login.login_id2,
            login.sex,
        ),
    )
}

/// The packet by which the login server has accepted a login, whether or not
/// it offers a character server; nothing where the answer is no such packet.
pub open spec fn accepted_login(data: Seq<u8>) -> Option<LoginServerLoginSuccessPacketModel> {
    match frame_decoding::<LoginFailedPacket>(data, 0) {
        Err(ConversionError::WrongHeader) => match frame_decoding::<LoginFailedPacket2>(data, 0) {
            Err(ConversionError::WrongHeader) => match frame_decoding::<
                LoginServerLoginSuccessPacket,
            >(data, 0) {
                Ok((packet, _)) => Some(packet),
                Err(_) => None,
            },
            _ => None,
        },
        _ => None,
    }
}

/// What the login server has answered to a login: the packet of its success,
/// or why the login did not succeed.
pub open spec fn login_answer(data: Seq<u8>) -> Result<
    LoginServerLoginSuccessPacketModel,
    Failure,
> {
    match frame_decoding::<LoginFailedPacket>(data, 0) {
        Ok((packet, _)) => Err(Failure::Refused(login_failed_message(packet.reason))),
        Err(ConversionError::WrongHeader) => match frame_decoding::<LoginFailedPacket2>(data, 0) {
            Ok((packet, _)) => Err(Failure::Refused(login_failed_message2(packet.reason))),
            Err(ConversionError::WrongHeader) => match frame_decoding::<
                LoginServerLoginSuccessPacket,
            >(data, 0) {
                Ok((packet, _)) => if packet.character_server_information.len() > 0 {
                    Ok(packet)
                } else {
                    Err(Failure::Refused("no character server available"@))
                },
                Err(error) => Err(Failure::Protocol(error)),
            },
            Err(error) => Err(Failure::Protocol(error)),
        },
        Err(error) => Err(Failure::Protocol(error)),
    }
}

/// What the character server has answered to a login: the packet of its
/// success, or why the login did not succeed.
pub open spec fn character_server_answer(data: Seq<u8>) -> Result<
    CharacterServerLoginSuccessPacket,
    Failure,
> {
    match frame_decoding::<LoginFailedPacket>(data, 0) {
        Ok((packet, _)) => Err(Failure::Refused(login_failed_message(packet.reason))),
        Err(ConversionError::WrongHeader) => match frame_decoding::<
            CharacterServerLoginSuccessPacket,
        >(data, 0) {
            Ok((packet, _)) => Ok(packet),
            Err(error) => Err(Failure::Protocol(error)),
        },
        Err(error) => Err(Failure::Protocol(error)),
    }
}

/// What the character server has answered to the selection of a character:
/// the packet of its success, or why the selection did not succeed.
pub open spec fn selection_answer(data: Seq<u8>) -> Result<
    CharacterSelectionSuccessPacketModel,
    Failure,
> {
    match frame_decoding::<CharacterSelectionFailedPacket>(data, 0) {
        Ok(_) => Err(Failure::Refused("rejected from server"@)),
        Err(ConversionError::WrongHeader) => match frame_decoding::<LoginFailedPacket>(data, 0) {
            Ok((packet, _)) => Err(
                Failure::Refused(selection_login_failed_message(packet.reason)),
            ),
            Err(ConversionError::WrongHeader) => match frame_decoding::<
                MapServerUnavailablePacket,
            >(data, 0) {
                Ok(_) => Err(Failure::Refused("Map server currently unavailable"@)),
                Err(ConversionError::WrongHeader) => match frame_decoding::<
                    CharacterSelectionSuccessPacket,
                >(data, 0) {
                    Ok((packet, _)) => Ok(packet),
                    Err(error) => Err(Failure::Protocol(error)),
                },
                Err(error) => Err(Failure::Protocol(error)),
            },
            Err(error) => Err(Failure::Protocol(error)),
        },
        Err(error) => Err(Failure::Protocol(error)),
    }
}

/// What the character server has answered to the creation of a character: the
/// new character, or why there is none.
pub open spec fn creation_answer(data: Seq<u8>) -> Result<CharacterInformationModel, Failure> {
    match frame_decoding::<CharacterCreationFailedPacket>(data, 0) {
        Ok((packet, _)) => Err(Failure::Refused(creation_failed_message(packet.reason))),
        Err(ConversionError::WrongHeader) => match frame_decoding::<CreateCharacterSuccessPacket>(
            data,
            0,
        ) {
            Ok((packet, _)) => Ok(packet.character_information),
            Err(error) => Err(Failure::Protocol(error)),
        },
        Err(error) => Err(Failure::Protocol(error)),
    }
}

/// What the character server has answered to the deletion of a character:
/// nothing, or why the character is still there.
pub open spec fn deletion_answer(data: Seq<u8>) -> Result<(), Failure> {
    match frame_decoding::<CharacterDeletionFailedPacket>(data, 0) {
        Ok((packet, _)) => Err(Failure::Refused(deletion_failed_message(packet.reason))),
        Err(ConversionError::WrongHeader) => match frame_decoding::<
            CharacterDeletionSuccessPacket,
        >(data, 0) {
            Ok(_) => Ok(()),
            Err(error) => Err(Failure::Protocol(error)),
        },
        Err(error) => Err(Failure::Protocol(error)),
    }
}

/// What the character server has answered to the move of a character to
/// another slot: the characters as they are now, as many as before, or why the
/// character has not moved. The answer is three frames and the characters
/// behind them.
pub open spec fn slot_switch_answer(data: Seq<u8>, count: nat) -> Result<
    Seq<CharacterInformationModel>,
    Failure,
> {
    match frame_decoding::<SwitchCharacterSlotResponsePacket>(data, 0) {
        Ok((response, first)) => if response.status == SwitchCharacterSlotResponseStatus::Error {
            Err(Failure::Refused("failed to move character to a different slot"@))
        } else {
            match frame_decoding::<CharacterServerLoginSuccessPacket>(data, first as int) {
                Ok((_, second)) => match frame_decoding::<Packet6b00>(
                    data,
                    (first + second) as int,
                ) {
                    Ok((_, third)) => match repeated_decoding::<CharacterInformation>(
                        data,
                        (first + second + third) as int,
                        count,
                    ) {
                        Ok((characters, _)) => Ok(characters),
                        Err(error) => Err(Failure::Protocol(error)),
                    },
                    Err(error) => Err(Failure::Protocol(error)),
                },
                Err(error) => Err(Failure::Protocol(error)),
            }
        },
        Err(error) => Err(Failure::Protocol(error)),
    }
}

/// The characters without those of the given id.
pub open spec fn without_character(
    characters: Seq<CharacterInformationModel>,
    character_id: CharacterId,
) -> Seq<CharacterInformationModel>
    decreases characters.len(),
{
    if characters.len() == 0 {
        Seq::empty()
    } else if characters.last().character_id == character_id {
        without_character(characters.drop_last(), character_id)
    } else {
        without_character(characters.drop_last(), character_id).push(characters.last())
    }
}

/// The place of the first character that stands in the given slot; the number
/// of characters where none does.
pub open spec fn place_of_slot(characters: Seq<CharacterInformationModel>, slot: usize) -> nat
    decreases characters.len(),
{
    if characters.len() == 0 {
        0
    } else if characters[0].character_number == slot {
        0
    } else {
        1 + place_of_slot(characters.skip(1), slot)
    }
}

impl NetworkingSystem {
    pub closed spec fn model(&self) -> SessionModel {
        SessionModel {
            login_settings: self.login_settings.model(),
            state: self.state,
            awaited: self.awaited,
            login_data: self.login_data,
            pending_name: self.pending_name@,
            pending_password: self.pending_password@,
            pending_slot_count: self.pending_slot_count,
            pending_character_id: self.pending_character_id,
            pending_map_name: self.pending_map_name@,
            pending_slot: self.pending_slot,
            characters: models(self.characters@),
            move_request: self.move_request,
            friend_list: models(self.friend_list@),
            slot_count: self.slot_count,
            login_keep_alive_timer: self.login_keep_alive_timer,
            character_keep_alive_timer: self.character_keep_alive_timer,
            map_keep_alive_timer: self.map_keep_alive_timer,
            player_name: self.player_name@,
            leftover: self.leftover@,
        }
    }

    /// The session before any login.
    pub open spec fn fresh(login_settings: LoginSettingsModel) -> SessionModel {
        SessionModel {
            login_settings,
            state: ConnectionState::Disconnected,
            awaited: Awaited::Nothing,
            login_data: None,
            pending_name: Seq::empty(),
            pending_password: Seq::empty(),
            pending_slot_count: 0,
            pending_character_id: CharacterId(0),
            pending_map_name: Seq::empty(),
            pending_slot: 0,
            characters: Seq::empty(),
            move_request: None,
            friend_list: Seq::empty(),
            slot_count: 0,
            login_keep_alive_timer: NetworkTimer { period: (58 * SECOND) as u64, accumulator: 0 },
            character_keep_alive_timer: NetworkTimer {
                period: (10 * SECOND) as u64,
                accumulator: 0,
            },
            map_keep_alive_timer: NetworkTimer { period: (4 * SECOND) as u64, accumulator: 0 },
            player_name: Seq::empty(),
            leftover: Seq::empty(),
        }
    }

    /// The session of a client that is connected to the login server and has
    /// not logged in. The login server is kept alive every 58 seconds, the
    /// character server every 10 seconds, the map server every 4 seconds.
    pub fn new(login_settings: LoginSettings) -> (session: Self)
        ensures
            session.model() == NetworkingSystem::fresh(login_settings.model()),
    {
        let session = NetworkingSystem {
            login_settings,
            state: ConnectionState::Disconnected,
            awaited: Awaited::Nothing,
            login_data: None,
            pending_name: String::new(),
            pending_password: String::new(),
            pending_slot_count: 0,
            pending_character_id: CharacterId(0),
            pending_map_name: String::new(),
            pending_slot: 0,
            characters: Vec::new(),
            move_request: None,
            friend_list: Vec::new(),
            slot_count: 0,
            login_keep_alive_timer: NetworkTimer::new(58 * SECOND),
            character_keep_alive_timer: NetworkTimer::new(10 * SECOND),
            map_keep_alive_timer: NetworkTimer::new(4 * SECOND),
            player_name: String::new(),
            leftover: Vec::new(),
        };
        assert(models(session.characters@) =~= Seq::<CharacterInformationModel>::empty());
        assert(models(session.friend_list@) =~= Seq::<FriendModel>::empty());
        session
    }

    pub fn get_login_settings(&self) -> (login_settings: &LoginSettings)
        ensures
            login_settings.model() == self.model().login_settings,
    {
        &self.login_settings
    }

    pub fn toggle_remember_username(&mut self)
        ensures
            final(self).model() == (SessionModel {
                login_settings: LoginSettingsModel {
                    remember_username: !old(self).model().login_settings.remember_username,
                    ..old(self).model().login_settings
                },
                ..old(self).model()
            }),
    {
        self.login_settings.remember_username = !self.login_settings.remember_username;
    }

    pub fn toggle_remember_password(&mut self)
        ensures
            final(self).model() == (SessionModel {
                login_settings: LoginSettingsModel {
                    remember_password: !old(self).model().login_settings.remember_password,
                    ..old(self).model().login_settings
                },
                ..old(self).model()
            }),
    {
        self.login_settings.remember_password = !self.login_settings.remember_password;
    }

    pub fn state(&self) -> (state: ConnectionState)
        ensures
            state == self.model().state,
    {
        self.state
    }

    pub fn awaited(&self) -> (awaited: Awaited)
        ensures
            awaited == self.model().awaited,
    {
        self.awaited
    }

    pub fn login_data(&self) -> (login_data: Option<LoginData>)
        ensures
            login_data == self.model().login_data,
    {
        self.login_data
    }

    /// The characters of the account, as the character server has listed them.
    pub fn characters(&self) -> (characters: &Vec<CharacterInformation>)
        ensures
            models(characters@) == self.model().characters,
    {
        &self.characters
    }

    /// The friends of the player.
    pub fn friend_list(&self) -> (friend_list: &Vec<Friend>)
        ensures
            models(friend_list@) == self.model().friend_list,
    {
        &self.friend_list
    }

    /// The slot of the character that the player wants to move.
    pub fn move_request(&self) -> (move_request: Option<usize>)
        ensures
            move_request == self.model().move_request,
    {
        self.move_request
    }

    /// The number of slots that the account has for its characters.
    pub fn slot_count(&self) -> (slot_count: usize)
        ensures
            slot_count == self.model().slot_count,
    {
        self.slot_count
    }

    /// The name of the character that the player has selected.
    pub fn player_name(&self) -> (player_name: &String)
        ensures
            player_name@ == self.model().player_name,
    {
        &self.player_name
    }

    /// Gives up the login that is under way.
    fn abandon_login(&mut self)
        ensures
            final(self).model() == NetworkingSystem::failed_login(old(self).model()),
    {
        self.awaited = Awaited::Nothing;
        self.pending_name = String::new();
        self.pending_password = String::new();
    }

    /// Begins a login: the frame that asks the login server for it. The name and
    /// the password have to fit their fields of 24 bytes. The connections that
    /// the client has stay as they are while the login is under way.
    pub fn log_in(&mut self, username: String, password: String) -> (result: Result<
        Vec<u8>,
        SessionError,
    >)
        ensures
            match result {
                Ok(request) => {
                    &&& fits(username@, 24)
                    &&& fits(password@, 24)
                    &&& request@ == frame_encoding::<LoginServerLoginPacket>(
                        LoginServerLoginPacket::made(username@, password@),
                    )
                    &&& final(self).model() == (SessionModel {
                        awaited: Awaited::LoginResponse,
                        pending_name: username@,
                        pending_password: password@,
                        ..old(self).model()
                    })
                },
                Err(error) => {
                    &&& !(fits(username@, 24) && fits(password@, 24))
                    &&& error.model() == Failure::Unencodable
                    &&& final(self).model() == old(self).model()
                },
            },
    {
        if !text_fits(username.as_str(), 24) || !text_fits(password.as_str(), 24) {
            return Err(SessionError::Unencodable);
        }
        let packet = LoginServerLoginPacket::new(username.clone(), password.clone());
        let request = packet.to_bytes();
        self.pending_name = username;
        self.pending_password = password;
        self.awaited = Awaited::LoginResponse;
        Ok(request)
    }

    /// The session with the account of a login that the login server has
    /// accepted.
    pub open spec fn with_account(
        session: SessionModel,
        login: LoginServerLoginSuccessPacketModel,
    ) -> SessionModel {
        SessionModel {
            login_data: Some(
                LoginData {
                    account_id: login.account_id,
                    login_id1: login.login_id1,
                    sex: login.sex,
                },
            ),
            ..session
        }
    }

    /// The session after the login server has accepted a login and has
    /// offered a character server.
    pub open spec fn logged_in(
        session: SessionModel,
        login: LoginServerLoginSuccessPacketModel,
    ) -> SessionModel {
        SessionModel {
            awaited: Awaited::AccountId,
            ..NetworkingSystem::with_account(session, login)
        }
    }

    /// The session after a step has failed: it waits for nothing.
    pub open spec fn failed(session: SessionModel) -> SessionModel {
        SessionModel { awaited: Awaited::Nothing, ..session }
    }

    /// The session after a step of a login has failed: the client is connected
    /// as it was before the login, and what the login has left so far stays.
    pub open spec fn failed_login(session: SessionModel) -> SessionModel {
        SessionModel {
            awaited: Awaited::Nothing,
            pending_name: Seq::empty(),
            pending_password: Seq::empty(),
            ..session
        }
    }

    /// Takes the answer of the login server to a login. Where the login has
    /// succeeded, the session keeps the account, and the client has to connect
    /// to the first character server that the login server offers and to send
    /// it the request that comes back. Where the login server has accepted the
    /// login and offers no character server, the login has failed, and the
    /// session keeps the account all the same.
    pub fn login_response(&mut self, data: &[u8]) -> (result: Result<ServerLogin, SessionError>)
        ensures
            old(self).model().awaited != Awaited::LoginResponse ==> {
                &&& result matches Err(error)
                &&& error.model() == Failure::OutOfOrder
                &&& final(self).model() == old(self).model()
            },
            old(self).model().awaited == Awaited::LoginResponse ==> match login_answer(data@) {
                Ok(login) => {
                    &&& result matches Ok(server)
                    &&& server.server_ip == login.character_server_information[0].server_ip
                    &&& server.server_port == login.character_server_information[0].server_port
                    &&& server.request@ == character_server_request(login)
                    &&& final(self).model() == NetworkingSystem::logged_in(
                        old(self).model(),
                        login,
                    )
                },
                Err(failure) => {
                    &&& result matches Err(error)
                    &&& error.model() == failure
                    &&& final(self).model() == NetworkingSystem::failed_login(
                        match accepted_login(data@) {
                            Some(login) => NetworkingSystem::with_account(
                                old(self).model(),
                                login,
                            ),
                            None => old(self).model(),
                        },
                    )
                },
            },
    {
        if self.awaited != Awaited::LoginResponse {
            return Err(SessionError::OutOfOrder);
        }
        self.awaited = Awaited::Nothing;
        match answer::<LoginFailedPacket>(data) {
            Ok(packet) => {
                self.abandon_login();
                return Err(login_refusal(packet.reason));
            },
            Err(ConversionError::WrongHeader) => {},
            Err(error) => {
                self.abandon_login();
                return Err(SessionError::Protocol(error));
            },
        }
        match answer::<LoginFailedPacket2>(data) {
            Ok(packet) => {
                self.abandon_login();
                return Err(login_refusal2(packet.reason));
            },
            Err(ConversionError::WrongHeader) => {},
            Err(error) => {
                self.abandon_login();
                return Err(SessionError::Protocol(error));
            },
        }
        let login = match answer::<LoginServerLoginSuccessPacket>(data) {
            Ok(login) => login,
            Err(error) => {
                self.abandon_login();
                return Err(SessionError::Protocol(error));
            },
        };
        self.login_data = Some(LoginData::new(login.account_id, login.login_id1, login.sex));
        if login.character_server_information.len() == 0 {
            self.abandon_login();
            return Err(refused("no character server available"));
        }
        let server_ip = login.character_server_information[0].server_ip;
        let server_port = login.character_server_information[0].server_port;
        let packet = CharacterServerLoginPacket::new(
            login.account_id,
            login.login_id1,
            login.login_id2,
            login.sex,
        );
        let request = packet.to_bytes();
        self.awaited = Awaited::AccountId;
        Ok(ServerLogin { server_ip, server_port, request })
    }

    /// Takes note that a server could not be reached. The session waits for
    /// nothing any more; where it was the character server of a login, the
    /// login has failed. The text tells the player what has happened.
    pub fn connection_failed(&mut self) -> (error: SessionError)
        ensures
            final(self).model() == if old(self).model().awaited == Awaited::AccountId {
                NetworkingSystem::failed_login(old(self).model())
            } else {
                NetworkingSystem::failed(old(self).model())
            },
            error.model() == Failure::Refused(
                if old(self).model().awaited == Awaited::MapServerConnection {
                    "Failed to connect to map server. Please try again"@
                } else {
                    "Failed to connect to character server. Please try again"@
                },
            ),
    {
        let to_map_server = self.awaited == Awaited::MapServerConnection;
        if self.awaited == Awaited::AccountId {
            self.abandon_login();
        }
        self.awaited = Awaited::Nothing;
        if to_map_server {
            refused("Failed to connect to map server. Please try again")
        } else {
            refused("Failed to connect to character server. Please try again")
        }
    }

    /// Takes the first answer of the character server: the account that it
    /// speaks to, four bytes, which has to be the account of the login.
    pub fn character_server_account(&mut self, data: &[u8]) -> (result: Result<(), SessionError>)
        ensures
            old(self).model().awaited != Awaited::AccountId ==> {
                &&& result matches Err(error)
                &&& error.model() == Failure::OutOfOrder
                &&& final(self).model() == old(self).model()
            },
            old(self).model().awaited == Awaited::AccountId ==> match AccountId::decoding(
                data@,
                0,
                None,
            ) {
                Ok((account_id, _)) => if old(self).model().login_data matches Some(login_data)
                    && login_data.account_id == account_id {
                    &&& result is Ok
                    &&& final(self).model() == (SessionModel {
                        awaited: Awaited::CharacterServerResponse,
                        ..old(self).model()
                    })
                } else {
                    &&& result matches Err(error)
                    &&& error.model() == Failure::Protocol(ConversionError::Invalid)
                    &&& final(self).model() == NetworkingSystem::failed_login(old(self).model())
                },
                Err(failure) => {
                    &&& result matches Err(error)
                    &&& error.model() == Failure::Protocol(failure)
                    &&& final(self).model() == NetworkingSystem::failed_login(old(self).model())
                },
            },
    {
        if self.awaited != Awaited::AccountId {
            return Err(SessionError::OutOfOrder);
        }
        self.awaited = Awaited::Nothing;
        let mut byte_stream = ByteStream::new(data);
        let account_id = match AccountId::from_bytes(&mut byte_stream, None) {
            Ok(account_id) => account_id,
            Err(error) => {
                self.abandon_login();
                return Err(SessionError::Protocol(error));
            },
        };
        match self.login_data {
            Some(login_data) => {
                if login_data.account_id != account_id {
                    self.abandon_login();
                    return Err(SessionError::Protocol(ConversionError::Invalid));
                }
            },
            None => {
                self.abandon_login();
                return Err(SessionError::Protocol(ConversionError::Invalid));
            },
        }
        self.awaited = Awaited::CharacterServerResponse;
        Ok(())
    }

    /// Takes the answer of the character server to the login. Where the login
    /// has succeeded, the frame that asks for the list of characters comes
    /// back.
    pub fn character_server_response(&mut self, data: &[u8]) -> (result: Result<
        Vec<u8>,
        SessionError,
    >)
        ensures
            old(self).model().awaited != Awaited::CharacterServerResponse ==> {
                &&& result matches Err(error)
                &&& error.model() == Failure::OutOfOrder
                &&& final(self).model() == old(self).model()
            },
            old(self).model().awaited == Awaited::CharacterServerResponse
                ==> match character_server_answer(data@) {
                Ok(login) => {
                    &&& result matches Ok(request)
                    &&& request@ == frame_encoding::<RequestCharacterListPacket>(
                        RequestCharacterListPacket::made(),
                    )
                    &&& final(self).model() == (SessionModel {
                        awaited: Awaited::CharacterList,
                        pending_slot_count: login.normal_slot_count as usize,
                        ..old(self).model()
                    })
                },
                Err(failure) => {
                    &&& result matches Err(error)
                    &&& error.model() == failure
                    &&& final(self).model() == NetworkingSystem::failed_login(old(self).model())
                },
            },
    {
        if self.awaited != Awaited::CharacterServerResponse {
            return Err(SessionError::OutOfOrder);
        }
        self.awaited = Awaited::Nothing;
        match answer::<LoginFailedPacket>(data) {
            Ok(packet) => {
                self.abandon_login();
                return Err(login_refusal(packet.reason));
            },
            Err(ConversionError::WrongHeader) => {},
            Err(error) => {
                self.abandon_login();
                return Err(SessionError::Protocol(error));
            },
        }
        let login = match answer::<CharacterServerLoginSuccessPacket>(data) {
            Ok(login) => login,
            Err(error) => {
                self.abandon_login();
                return Err(SessionError::Protocol(error));
            },
        };
        let request = RequestCharacterListPacket::new().to_bytes();
        self.pending_slot_count = login.normal_slot_count as usize;
        self.awaited = Awaited::CharacterList;
        Ok(request)
    }

    /// The session after the character server has listed the characters: the
    /// login is complete, and the client is connected to the character server
    /// at least. The name and the password of the login are kept where the
    /// player wants them kept, and forgotten where not.
    pub open spec fn listed(
        session: SessionModel,
        characters: Seq<CharacterInformationModel>,
    ) -> SessionModel {
        SessionModel {
            state: if NetworkingSystem::character_server_open(session.state) {
                session.state
            } else {
                ConnectionState::CharacterServerConnected
            },
            awaited: Awaited::Nothing,
            characters,
            slot_count: session.pending_slot_count,
            login_settings: LoginSettingsModel {
                username: if session.login_settings.remember_username {
                    session.pending_name
                } else {
                    Seq::empty()
                },
                password: if session.login_settings.remember_password {
                    session.pending_password
                } else {
                    Seq::empty()
                },
                ..session.login_settings
            },
            pending_name: Seq::empty(),
            pending_password: Seq::empty(),
            ..session
        }
    }

    /// Takes the list of characters that the character server has sent, and
    /// with it completes the login.
    pub fn character_list_response(&mut self, data: &[u8]) -> (result: Result<(), SessionError>)
        ensures
            old(self).model().awaited != Awaited::CharacterList ==> {
                &&& result matches Err(error)
                &&& error.model() == Failure::OutOfOrder
                &&& final(self).model() == old(self).model()
            },
            old(self).model().awaited == Awaited::CharacterList ==> match frame_decoding::<
                RequestCharacterListSuccessPacket,
            >(data@, 0) {
                Ok((packet, _)) => {
                    &&& result is Ok
                    &&& final(self).model() == NetworkingSystem::listed(
                        old(self).model(),
                        packet.character_information,
                    )
                },
                Err(failure) => {
                    &&& result matches Err(error)
                    &&& error.model() == Failure::Protocol(failure)
                    &&& final(self).model() == NetworkingSystem::failed_login(old(self).model())
                },
            },
    {
        if self.awaited != Awaited::CharacterList {
            return Err(SessionError::OutOfOrder);
        }
        self.awaited = Awaited::Nothing;
        let packet = match answer::<RequestCharacterListSuccessPacket>(data) {
            Ok(packet) => packet,
            Err(error) => {
                self.abandon_login();
                return Err(SessionError::Protocol(error));
            },
        };
        self.characters = packet.character_information;

        let mut username = String::new();
        let mut password = String::new();
        std::mem::swap(&mut username, &mut self.pending_name);
        std::mem::swap(&mut password, &mut self.pending_password);
        self.login_settings.username = if self.login_settings.remember_username {
            username
        } else {
            // clear in case it was previously saved
            String::new()
        };
        self.login_settings.password = if self.login_settings.remember_password {
            password
        } else {
            // clear in case it was previously saved
            String::new()
        };
        self.slot_count = self.pending_slot_count;
        if !self.character_server_connected() {
            self.state = ConnectionState::CharacterServerConnected;
        }
        Ok(())
    }
}

/// The characters of the list that do not have the given id.
fn characters_without(characters: &Vec<CharacterInformation>, character_id: CharacterId) -> (kept:
    Vec<CharacterInformation>)
    ensures
        models(kept@) == without_character(models(characters@), character_id),
{
    let ghost all = models(characters@);
    let mut kept: Vec<CharacterInformation> = Vec::new();
    let mut index: usize = 0;
    assert(models(kept@) =~= without_character(all.take(0), character_id));
    while index < characters.len()
        invariant
            all == models(characters@),
            index <= characters.len(),
            models(kept@) == without_character(all.take(index as int), character_id),
        decreases characters.len() - index,
    {
        let ghost before = models(kept@);
        let character = &characters[index];
        proof {
            assert(all.take(index + 1).drop_last() =~= all.take(index as int));
            assert(all.take(index + 1).last() == character.model());
        }
        if character.character_id != character_id {
            let copy = character.clone();
            kept.push(copy);
            assert(models(kept@) =~= before.push(character.model()));
        }
        index = index + 1;
    }
    assert(all.take(index as int) =~= all);
    kept
}

/// The place of the first character of the list that stands in the given slot.
fn find_slot(characters: &Vec<CharacterInformation>, slot: usize) -> (place: Option<usize>)
    ensures
        match place {
            Some(place) => place == place_of_slot(models(characters@), slot) && place
                < characters@.len(),
            None => place_of_slot(models(characters@), slot) == characters@.len(),
        },
{
    let ghost all = models(characters@);
    let mut index: usize = 0;
    assert(all.skip(0) =~= all);
    while index < characters.len()
        invariant
            all == models(characters@),
            index <= characters.len(),
            place_of_slot(all, slot) == index + place_of_slot(all.skip(index as int), slot),
        decreases characters.len() - index,
    {
        proof {
            assert(all.skip(index as int)[0] == characters@[index as int].model());
            assert(all.skip(index as int).skip(1) =~= all.skip(index + 1));
        }
        if characters[index].character_number as usize == slot {
            return Some(index);
        }
        index = index + 1;
    }
    assert(all.skip(index as int) =~= Seq::<CharacterInformationModel>::empty());
    None
}

impl NetworkingSystem {
    /// Begins the selection of the character in a slot: the frame that asks the
    /// character server for it. The slot has to be one that a byte can name.
    pub fn select_character(&mut self, slot: usize) -> (result: Result<Vec<u8>, SessionError>)
        ensures
            old(self).model().state != ConnectionState::CharacterServerConnected
                && old(self).model().state != ConnectionState::CharacterSelected ==> {
                &&& result matches Err(error)
                &&& error.model() == Failure::OutOfOrder
                &&& final(self).model() == old(self).model()
            },
            (old(self).model().state == ConnectionState::CharacterServerConnected
                || old(self).model().state == ConnectionState::CharacterSelected) && slot > 255
                ==> {
                &&& result matches Err(error)
                &&& error.model() == Failure::Unencodable
                &&& final(self).model() == old(self).model()
            },
            (old(self).model().state == ConnectionState::CharacterServerConnected
                || old(self).model().state == ConnectionState::CharacterSelected) && slot <= 255
                ==> {
                &&& result matches Ok(request)
                &&& request@ == frame_encoding::<SelectCharacterPacket>(
                    SelectCharacterPacket::made(slot as u8),
                )
                &&& final(self).model() == (SessionModel {
                    awaited: Awaited::CharacterSelection { slot },
                    ..old(self).model()
                })
            },
    {
        match self.state {
            ConnectionState::CharacterServerConnected | ConnectionState::CharacterSelected => {},
            _ => {
                return Err(SessionError::OutOfOrder);
            },
        }
        if slot > 255 {
            return Err(SessionError::Unencodable);
        }
        let request = SelectCharacterPacket::new(slot as u8).to_bytes();
        self.awaited = Awaited::CharacterSelection { slot };
        Ok(request)
    }

    /// The request that logs in to the map server with a character.
    pub open spec fn map_server_request(login_data: LoginData, character_id: CharacterId) -> Seq<
        u8,
    > {
        frame_encoding::<MapServerLoginPacket>(
            MapServerLoginPacket::made(
                login_data.account_id,
                character_id,
                login_data.login_id1,
                ClientTick(100),
                login_data.sex,
            ),
        )
    }

    /// Takes the answer of the character server to the selection of a
    /// character. Where the selection has succeeded, the client has to connect
    /// to the map server that the character server names and to send it the
    /// request that comes back.
    pub fn select_character_response(&mut self, data: &[u8]) -> (result: Result<
        ServerLogin,
        SessionError,
    >)
        ensures
            !(old(self).model().awaited is CharacterSelection) ==> {
                &&& result matches Err(error)
                &&& error.model() == Failure::OutOfOrder
                &&& final(self).model() == old(self).model()
            },
            old(self).model().awaited is CharacterSelection ==> match selection_answer(data@) {
                Ok(selection) => match old(self).model().login_data {
                    Some(login_data) => {
                        &&& result matches Ok(server)
                        &&& server.server_ip == selection.map_server_ip
                        &&& server.server_port == selection.map_server_port
                        &&& server.request@ == NetworkingSystem::map_server_request(
                            login_data,
                            selection.character_id,
                        )
                        &&& final(self).model() == (SessionModel {
                            awaited: Awaited::MapServerConnection,
                            pending_character_id: selection.character_id,
                            pending_map_name: selection.map_name,
                            pending_slot: old(self).model().awaited->slot,
                            ..old(self).model()
                        })
                    },
                    None => {
                        &&& result matches Err(error)
                        &&& error.model() == Failure::OutOfOrder
                        &&& final(self).model() == NetworkingSystem::failed(old(self).model())
                    },
                },
                Err(failure) => {
                    &&& result matches Err(error)
                    &&& error.model() == failure
                    &&& final(self).model() == NetworkingSystem::failed(old(self).model())
                },
            },
    {
        let slot = match self.awaited {
            Awaited::CharacterSelection { slot } => slot,
            _ => {
                return Err(SessionError::OutOfOrder);
            },
        };
        self.awaited = Awaited::Nothing;
        match answer::<CharacterSelectionFailedPacket>(data) {
            Ok(_) => {
                return Err(refused("rejected from server"));
            },
            Err(ConversionError::WrongHeader) => {},
            Err(error) => {
                return Err(SessionError::Protocol(error));
            },
        }
        match answer::<LoginFailedPacket>(data) {
            Ok(packet) => {
                return Err(selection_login_refusal(packet.reason));
            },
            Err(ConversionError::WrongHeader) => {},
            Err(error) => {
                return Err(SessionError::Protocol(error));
            },
        }
        match answer::<MapServerUnavailablePacket>(data) {
            Ok(_) => {
                return Err(refused("Map server currently unavailable"));
            },
            Err(ConversionError::WrongHeader) => {},
            Err(error) => {
                return Err(SessionError::Protocol(error));
            },
        }
        let selection = match answer::<CharacterSelectionSuccessPacket>(data) {
            Ok(selection) => selection,
            Err(error) => {
                return Err(SessionError::Protocol(error));
            },
        };
        let login_data = match self.login_data {
            Some(login_data) => login_data,
            None => {
                return Err(SessionError::OutOfOrder);
            },
        };
        let packet = MapServerLoginPacket::new(
            login_data.account_id,
            selection.character_id,
            login_data.login_id1,
            ClientTick(100),
            login_data.sex,
        );
        let request = packet.to_bytes();
        self.pending_character_id = selection.character_id;
        self.pending_map_name = selection.map_name;
        self.pending_slot = slot;
        self.awaited = Awaited::MapServerConnection;
        Ok(ServerLogin {
            server_ip: selection.map_server_ip,
            server_port: selection.map_server_port,
            request,
        })
    }

    /// Takes note that the client has connected to the map server and has sent
    /// the request to log in. The character that the player has selected comes
    /// back, with the name of its map without the ending of a map file. The
    /// character is the first of the list that stands in the selected slot;
    /// where the list holds none, the server has not kept to the protocol.
    pub fn map_server_connected(&mut self) -> (result: Result<SelectedCharacter, SessionError>)
        ensures
            old(self).model().awaited != Awaited::MapServerConnection ==> {
                &&& result matches Err(error)
                &&& error.model() == Failure::OutOfOrder
                &&& final(self).model() == old(self).model()
            },
            old(self).model().awaited == Awaited::MapServerConnection ==> ({
                let session = old(self).model();
                let place = place_of_slot(session.characters, session.pending_slot);
                if session.login_data is Some && place < session.characters.len() {
                    &&& result matches Ok(selected)
                    &&& selected.account_id == session.login_data->Some_0.account_id
                    &&& selected.character_information.model() == session.characters[place as int]
                    &&& selected.map_name@ == without(session.pending_map_name, ".gat"@)
                    &&& final(self).model() == (SessionModel {
                        state: ConnectionState::MapConnected,
                        awaited: Awaited::Nothing,
                        player_name: session.characters[place as int].name,
                        ..session
                    })
                } else {
                    &&& result matches Err(error)
                    &&& error.model() == Failure::Protocol(ConversionError::Invalid)
                    &&& final(self).model() == NetworkingSystem::failed(session)
                }
            }),
    {
        if self.awaited != Awaited::MapServerConnection {
            return Err(SessionError::OutOfOrder);
        }
        self.awaited = Awaited::Nothing;
        let login_data = match self.login_data {
            Some(login_data) => login_data,
            None => {
                return Err(SessionError::Protocol(ConversionError::Invalid));
            },
        };
        let place = match find_slot(&self.characters, self.pending_slot) {
            Some(place) => place,
            None => {
                return Err(SessionError::Protocol(ConversionError::Invalid));
            },
        };
        let character_information = self.characters[place].clone();
        self.player_name = character_information.name.clone();
        let map_name = remove_all(self.pending_map_name.as_str(), ".gat");
        self.state = ConnectionState::MapConnected;
        Ok(
            SelectedCharacter {
                account_id: login_data.account_id,
                character_information,
                map_name,
            },
        )
    }

    /// Begins the creation of a character in a slot: the frame that asks the
    /// character server for it. The character is male, with the first hair and
    /// the first job. The client has to be connected to the character server,
    /// the name has to fit its field of 24 bytes, and the slot has to be one
    /// that a byte can name.
    pub fn create_character(&mut self, slot: usize, name: String) -> (result: Result<
        Vec<u8>,
        SessionError,
    >)
        ensures
            !NetworkingSystem::character_server_open(old(self).model().state) ==> {
                &&& result matches Err(error)
                &&& error.model() == Failure::OutOfOrder
                &&& final(self).model() == old(self).model()
            },
            NetworkingSystem::character_server_open(old(self).model().state) && !(fits(name@, 24)
                && slot <= 255) ==> {
                &&& result matches Err(error)
                &&& error.model() == Failure::Unencodable
                &&& final(self).model() == old(self).model()
            },
            NetworkingSystem::character_server_open(old(self).model().state) && fits(name@, 24)
                && slot <= 255 ==> {
                &&& result matches Ok(request)
                &&& request@ == frame_encoding::<CreateCharacterPacket>(
                    CreateCharacterPacket::made(name@, slot as u8, 0, 0, 0, Sex::Male),
                )
                &&& final(self).model() == (SessionModel {
                    awaited: Awaited::CharacterCreation,
                    ..old(self).model()
                })
            },
    {
        if !self.character_server_connected() {
            return Err(SessionError::OutOfOrder);
        }
        if !text_fits(name.as_str(), 24) || slot > 255 {
            return Err(SessionError::Unencodable);
        }
        let hair_color: u16 = 0;
        let hair_style: u16 = 0;
        let start_job: u16 = 0;
        let sex = Sex::Male;

        let packet = CreateCharacterPacket::new(
            name,
            slot as u8,
            hair_color,
            hair_style,
            start_job,
            sex,
        );
        let request = packet.to_bytes();
        self.awaited = Awaited::CharacterCreation;
        Ok(request)
    }

    /// Takes the answer of the character server to the creation of a character.
    /// The new character joins the list.
    pub fn create_character_response(&mut self, data: &[u8]) -> (result: Result<(), SessionError>)
        ensures
            old(self).model().awaited != Awaited::CharacterCreation ==> {
                &&& result matches Err(error)
                &&& error.model() == Failure::OutOfOrder
                &&& final(self).model() == old(self).model()
            },
            old(self).model().awaited == Awaited::CharacterCreation ==> match creation_answer(
                data@,
            ) {
                Ok(character) => {
                    &&& result is Ok
                    &&& final(self).model() == (SessionModel {
                        awaited: Awaited::Nothing,
                        characters: old(self).model().characters.push(character),
                        ..old(self).model()
                    })
                },
                Err(failure) => {
                    &&& result matches Err(error)
                    &&& error.model() == failure
                    &&& final(self).model() == NetworkingSystem::failed(old(self).model())
                },
            },
    {
        if self.awaited != Awaited::CharacterCreation {
            return Err(SessionError::OutOfOrder);
        }
        self.awaited = Awaited::Nothing;
        match answer::<CharacterCreationFailedPacket>(data) {
            Ok(packet) => {
                return Err(creation_refusal(packet.reason));
            },
            Err(ConversionError::WrongHeader) => {},
            Err(error) => {
                return Err(SessionError::Protocol(error));
            },
        }
        let packet = match answer::<CreateCharacterSuccessPacket>(data) {
            Ok(packet) => packet,
            Err(error) => {
                return Err(SessionError::Protocol(error));
            },
        };
        let ghost before = models(self.characters@);
        let ghost character = packet.character_information.model();
        self.characters.push(packet.character_information);
        assert(models(self.characters@) =~= before.push(character));
        Ok(())
    }

    /// Begins the deletion of a character: the frame that asks the character
    /// server for it. The client has to be connected to the character server.
    pub fn delete_character(&mut self, character_id: CharacterId) -> (result: Result<
        Vec<u8>,
        SessionError,
    >)
        ensures
            !NetworkingSystem::character_server_open(old(self).model().state) ==> {
                &&& result matches Err(error)
                &&& error.model() == Failure::OutOfOrder
                &&& final(self).model() == old(self).model()
            },
            NetworkingSystem::character_server_open(old(self).model().state) ==> {
                &&& result matches Ok(request)
                &&& request@ == frame_encoding::<DeleteCharacterPacket>(
                    DeleteCharacterPacket::made(character_id, "a@a.com"@),
                )
                &&& final(self).model() == (SessionModel {
                    awaited: Awaited::CharacterDeletion { character_id },
                    ..old(self).model()
                })
            },
    {
        if !self.character_server_connected() {
            return Err(SessionError::OutOfOrder);
        }
        let email = String::from_str("a@a.com");
        proof {
            reveal_strlit("a@a.com");
            lemma_plain_text_bytes("a@a.com"@);
            assert(fits("a@a.com"@, 40));
        }
        let request = DeleteCharacterPacket::new(character_id, email).to_bytes();
        self.awaited = Awaited::CharacterDeletion { character_id };
        Ok(request)
    }

    /// Takes the answer of the character server to the deletion of a character.
    /// The character leaves the list.
    pub fn delete_character_response(&mut self, data: &[u8]) -> (result: Result<(), SessionError>)
        ensures
            !(old(self).model().awaited is CharacterDeletion) ==> {
                &&& result matches Err(error)
                &&& error.model() == Failure::OutOfOrder
                &&& final(self).model() == old(self).model()
            },
            old(self).model().awaited is CharacterDeletion ==> match deletion_answer(data@) {
                Ok(_) => {
                    &&& result is Ok
                    &&& final(self).model() == (SessionModel {
                        awaited: Awaited::Nothing,
                        characters: without_character(
                            old(self).model().characters,
                            old(self).model().awaited->character_id,
                        ),
                        ..old(self).model()
                    })
                },
                Err(failure) => {
                    &&& result matches Err(error)
                    &&& error.model() == failure
                    &&& final(self).model() == NetworkingSystem::failed(old(self).model())
                },
            },
    {
        let character_id = match self.awaited {
            Awaited::CharacterDeletion { character_id } => character_id,
            _ => {
                return Err(SessionError::OutOfOrder);
            },
        };
        self.awaited = Awaited::Nothing;
        match answer::<CharacterDeletionFailedPacket>(data) {
            Ok(packet) => {
                return Err(deletion_refusal(packet.reason));
            },
            Err(ConversionError::WrongHeader) => {},
            Err(error) => {
                return Err(SessionError::Protocol(error));
            },
        }
        match answer::<CharacterDeletionSuccessPacket>(data) {
            Ok(_) => {},
            Err(error) => {
                return Err(SessionError::Protocol(error));
            },
        }
        self.characters = characters_without(&self.characters, character_id);
        Ok(())
    }

    /// Takes note of the slot of the character that the player wants to move.
    pub fn request_switch_character_slot(&mut self, origin_slot: usize)
        ensures
            final(self).model() == (SessionModel {
                move_request: Some(origin_slot),
                ..old(self).model()
            }),
    {
        self.move_request = Some(origin_slot);
    }

    /// Forgets the slot of the character that the player wanted to move.
    pub fn cancel_switch_character_slot(&mut self)
        ensures
            final(self).model() == (SessionModel { move_request: None, ..old(self).model() }),
    {
        self.move_request = None;
    }

    /// Begins the move of the character that the player wants to move to
    /// another slot: the frame that asks the character server for it. The
    /// client has to be connected to the character server, and both slots have
    /// to be such that two bytes can name them.
    pub fn switch_character_slot(&mut self, destination_slot: usize) -> (result: Result<
        Vec<u8>,
        SessionError,
    >)
        requires
            old(self).model().move_request is Some,
        ensures
            !NetworkingSystem::character_server_open(old(self).model().state) ==> {
                &&& result matches Err(error)
                &&& error.model() == Failure::OutOfOrder
                &&& final(self).model() == old(self).model()
            },
            NetworkingSystem::character_server_open(old(self).model().state) && !(old(
                self,
            ).model().move_request->Some_0 <= u16::MAX && destination_slot <= u16::MAX) ==> {
                &&& result matches Err(error)
                &&& error.model() == Failure::Unencodable
                &&& final(self).model() == old(self).model()
            },
            NetworkingSystem::character_server_open(old(self).model().state) && old(
                self,
            ).model().move_request->Some_0 <= u16::MAX && destination_slot <= u16::MAX ==> {
                &&& result matches Ok(request)
                &&& request@ == frame_encoding::<SwitchCharacterSlotPacket>(
                    SwitchCharacterSlotPacket::made(
                        old(self).model().move_request->Some_0 as u16,
                        destination_slot as u16,
                    ),
                )
                &&& final(self).model() == (SessionModel {
                    awaited: Awaited::SlotSwitch,
                    move_request: None,
                    ..old(self).model()
                })
            },
    {
        if !self.character_server_connected() {
            return Err(SessionError::OutOfOrder);
        }
        let origin_slot = match self.move_request {
            Some(origin_slot) => origin_slot,
            None => 0,
        };
        if origin_slot > 0xffff || destination_slot > 0xffff {
            return Err(SessionError::Unencodable);
        }
        let packet = SwitchCharacterSlotPacket::new(origin_slot as u16, destination_slot as u16);
        let request = packet.to_bytes();
        self.move_request = None;
        self.awaited = Awaited::SlotSwitch;
        Ok(request)
    }

    /// Takes the answer of the character server to the move of a character to
    /// another slot: where the move has succeeded, the characters as they are
    /// now, as many as before.
    pub fn switch_character_slot_response(&mut self, data: &[u8]) -> (result: Result<
        (),
        SessionError,
    >)
        ensures
            old(self).model().awaited != Awaited::SlotSwitch ==> {
                &&& result matches Err(error)
                &&& error.model() == Failure::OutOfOrder
                &&& final(self).model() == old(self).model()
            },
            old(self).model().awaited == Awaited::SlotSwitch ==> match slot_switch_answer(
                data@,
                old(self).model().characters.len(),
            ) {
                Ok(characters) => {
                    &&& result is Ok
                    &&& final(self).model() == (SessionModel {
                        awaited: Awaited::Nothing,
                        characters,
                        ..old(self).model()
                    })
                },
                Err(failure) => {
                    &&& result matches Err(error)
                    &&& error.model() == failure
                    &&& final(self).model() == NetworkingSystem::failed(old(self).model())
                },
            },
    {
        if self.awaited != Awaited::SlotSwitch {
            return Err(SessionError::OutOfOrder);
        }
        self.awaited = Awaited::Nothing;
        let mut byte_stream = ByteStream::new(data);
        let response = match SwitchCharacterSlotResponsePacket::try_from_bytes(&mut byte_stream) {
            Ok(response) => response,
            Err(error) => {
                return Err(SessionError::Protocol(error));
            },
        };
        match response.status {
            SwitchCharacterSlotResponseStatus::Success => {
                match CharacterServerLoginSuccessPacket::try_from_bytes(&mut byte_stream) {
                    Ok(_) => {},
                    Err(error) => {
                        return Err(SessionError::Protocol(error));
                    },
                }
                match Packet6b00::try_from_bytes(&mut byte_stream) {
                    Ok(_) => {},
                    Err(error) => {
                        return Err(SessionError::Protocol(error));
                    },
                }
                let character_count = self.characters.len();
                match decode_repeated::<CharacterInformation>(&mut byte_stream, character_count) {
                    Ok(characters) => {
                        self.characters = characters;
                    },
                    Err(error) => {
                        return Err(SessionError::Protocol(error));
                    },
                }
            },
            SwitchCharacterSlotResponseStatus::Error => {
                return Err(refused("failed to move character to a different slot"));
            },
        }
        Ok(())
    }

    /// The frame that asks the map server to let the player leave.
    pub fn log_out(&self) -> (request: Vec<u8>)
        ensures
            request@ == frame_encoding::<RestartPacket>(
                RestartPacket::made(RestartType::Disconnect),
            ),
    {
        RestartPacket::new(RestartType::Disconnect).to_bytes()
    }

    /// Takes note that the connection to the map server is closed. The player
    /// is back at the selection of a character.
    pub fn disconnect_from_map_server(&mut self)
        ensures
            final(self).model() == (SessionModel {
                state: if old(self).model().state == ConnectionState::MapConnected {
                    ConnectionState::CharacterSelected
                } else {
                    old(self).model().state
                },
                leftover: Seq::empty(),
                ..old(self).model()
            }),
    {
        if self.state == ConnectionState::MapConnected {
            self.state = ConnectionState::CharacterSelected;
        }
        self.leftover = Vec::new();
    }

    /// Whether the client is connected to the character server.
    pub open spec fn character_server_open(state: ConnectionState) -> bool {
        state == ConnectionState::CharacterServerConnected || state
            == ConnectionState::CharacterSelected || state == ConnectionState::MapConnected
    }

    /// Whether the client is connected to the character server.
    pub fn character_server_connected(&self) -> (connected: bool)
        ensures
            connected == NetworkingSystem::character_server_open(self.model().state),
    {
        match self.state {
            ConnectionState::CharacterServerConnected
            | ConnectionState::CharacterSelected
            | ConnectionState::MapConnected => true,
            _ => false,
        }
    }

    /// Lets time pass, in nanoseconds, on the three timers. For each timer that
    /// rolls over the frame comes back that keeps its connection alive, where
    /// the connection is open; for the map server that frame carries the tick
    /// of the client.
    pub fn keep_alive(&mut self, delta_time: u64, client_tick: ClientTick) -> (frames: KeepAlive)
        ensures
            final(self).model() == (SessionModel {
                login_keep_alive_timer: old(self).model().login_keep_alive_timer.after(delta_time),
                character_keep_alive_timer: old(self).model().character_keep_alive_timer.after(
                    delta_time,
                ),
                map_keep_alive_timer: old(self).model().map_keep_alive_timer.after(delta_time),
                ..old(self).model()
            }),
            frames.login_server is Some <==> old(self).model().login_keep_alive_timer.rolls_over(
                delta_time,
            ),
            frames.login_server matches Some(frame) ==> frame@ == frame_encoding::<
                LoginServerKeepalivePacket,
            >(LoginServerKeepalivePacket::made()),
            frames.character_server is Some <==> old(
                self,
            ).model().character_keep_alive_timer.rolls_over(delta_time)
                && NetworkingSystem::character_server_open(old(self).model().state),
            frames.character_server matches Some(frame) ==> frame@ == frame_encoding::<
                CharacterServerKeepalivePacket,
            >(CharacterServerKeepalivePacket::made()),
            frames.map_server is Some <==> old(self).model().map_keep_alive_timer.rolls_over(
                delta_time,
            ) && old(self).model().state == ConnectionState::MapConnected,
            frames.map_server matches Some(frame) ==> frame@ == frame_encoding::<
                RequestServerTickPacket,
            >(RequestServerTickPacket::made(client_tick)),
    {
        let character_server_open = self.character_server_connected();
        let map_server_open = self.state == ConnectionState::MapConnected;

        let login_server = if self.login_keep_alive_timer.update(delta_time) {
            Some(LoginServerKeepalivePacket::new().to_bytes())
        } else {
            None
        };
        let character_server = if self.character_keep_alive_timer.update(delta_time)
            && character_server_open {
            Some(CharacterServerKeepalivePacket::new().to_bytes())
        } else {
            None
        };
        let map_server = if self.map_keep_alive_timer.update(delta_time) && map_server_open {
            Some(RequestServerTickPacket::new(client_tick).to_bytes())
        } else {
            None
        };
        KeepAlive { login_server, character_server, map_server }
    }

    /// Takes the bytes that the map server has sent and dispatches their
    /// frames, behind the bytes of a frame that was not all there before. The
    /// events of the frames come back, and what is left of the bytes. The bytes
    /// of a frame that is not all there yet are kept for the next time; the
    /// bytes behind a frame that cannot be dispatched are not.
    pub fn network_events(&mut self, data: &[u8]) -> (result: (Vec<NetworkEvent>, Remainder))
        ensures
            ({
                let buffer = old(self).model().leftover + data@;
                let end = dispatching(buffer, 0, old(self).model().friend_list, Seq::empty());
                &&& event_models(result.0@) == end.events
                &&& 0 <= end.stopped_at <= buffer.len()
                &&& result.1.bytes() == buffer.skip(end.stopped_at)
                &&& result.1.reason() == end.reason
                &&& final(self).model() == (SessionModel {
                    friend_list: end.friends,
                    leftover: if end.reason == Some(ConversionError::Incomplete) {
                        buffer.skip(end.stopped_at)
                    } else {
                        Seq::empty()
                    },
                    ..old(self).model()
                })
            }),
    {
        let mut buffer: Vec<u8> = Vec::new();
        std::mem::swap(&mut buffer, &mut self.leftover);
        let mut received = vstd::slice::slice_to_vec(data);
        buffer.append(&mut received);
        let (events, remainder) = dispatch(buffer.as_slice(), &mut self.friend_list);
        match &remainder {
            Remainder::Incomplete(rest) => {
                self.leftover = rest.clone();
            },
            _ => {},
        }
        (events, remainder)
    }
}

} // verus!
