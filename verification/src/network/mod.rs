//! The network protocol: the packet catalog, the dispatcher and the session.

pub mod character;
pub mod chat;
pub mod dialog;
pub mod dispatch;
pub mod entity;
pub mod event;
pub mod friend;
pub mod ids;
pub mod inventory;
pub mod login;
pub mod map;
pub mod packet;
pub mod position;
pub mod quest;
pub mod request;
pub mod session;
pub mod skill;
pub mod status;
pub mod status_type;
pub mod text;
pub mod timer;

pub use crate::network::character::{
    CharacterCreationFailedReason, CharacterDeletionFailedReason, CharacterInformation,
    CharacterSelectionFailedReason, SwitchCharacterSlotResponseStatus,
};
pub use crate::network::event::{ChatMessage, EntityData, NetworkEvent};
pub use crate::network::friend::Friend;
pub use crate::network::ids::{
    AccountId, CharacterId, ClientTick, EntityId, ItemId, ItemIndex, PartyId, Sex, SkillId,
    SkillLevel,
};
pub use crate::network::inventory::{EquipPosition, ItemOptions};
pub use crate::network::login::{LoginFailedReason, LoginFailedReason2};
pub use crate::network::packet::Packet;
pub use crate::network::position::{WorldPosition, WorldPosition2};
pub use crate::network::quest::{QuestColor, QuestEffect, QuestEffectPacket};
pub use crate::network::session::{LoginSettings, NetworkingSystem};
pub use crate::network::skill::{SkillInformation, SkillType, UnitId};
pub use crate::network::status_type::StatusType;
