use korangar::network::character::{
    CharacterCreationFailedPacket, CharacterDeletionFailedPacket, CharacterDeletionSuccessPacket,
    CharacterSelectionFailedPacket, CharacterSelectionSuccessPacket, CharacterServerKeepalivePacket,
    CharacterServerLoginPacket, CharacterServerLoginSuccessPacket, CreateCharacterPacket,
    CreateCharacterSuccessPacket, DeleteCharacterPacket, MapServerUnavailablePacket, Packet6b00,
    RequestCharacterListPacket, RequestCharacterListSuccessPacket, SelectCharacterPacket,
    SwitchCharacterSlotPacket, SwitchCharacterSlotResponsePacket,
};
use korangar::network::chat::{
    Broadcast2MessagePacket, BroadcastMessagePacket, EntityMessagePacket, GlobalMessagePacket,
    OverheadMessagePacket, ServerMessagePacket,
};
use korangar::network::dialog::{
    ChooseDialogOptionPacket, CloseButtonPacket, CloseDialogPacket, DialogMenuPacket,
    NextButtonPacket, NextDialogPacket, NpcDialogPacket, StartDialogPacket,
};
use korangar::network::entity::{
    DisplayEmotionPacket, DisplaySpecialEffectPacket, EntityAppeared2Packet, EntityAppearedPacket,
    EntityDisappearedPacket, EntityMovePacket, EntityStopMovePacket, MovingEntityAppearedPacket,
    RequestDetailsPacket, RequestEntityDetailsSuccessPacket, RequestPlayerDetailsSuccessPacket,
    SpriteChangePacket, StateChangePacket, UpdateEntityHealthPointsPacket, VisualEffectPacket,
};
use korangar::network::friend::{
    AddFriendPacket, ClanInfoPacket, ClanOnlineCountPacket, FriendListPacket,
    FriendOnlineStatusPacket, FriendRequestPacket, FriendRequestResponsePacket,
    FriendRequestResultPacket, NotifyFriendRemovedPacket, PartyInvitePacket, RemoveFriendPacket,
    ReputationPacket,
};
use korangar::network::inventory::{
    EquippableItemListPacket, EquippableSwitchItemListPacket, InventoyEndPacket,
    InventoyStartPacket, ItemPickupPacket, RegularItemListPacket, RemoveItemFromInventoryPacket,
    RequestEquipItemPacket, RequestEquipItemStatusPacket, RequestUnequipItemPacket,
    RequestUnequipItemStatusPacket,
};
use korangar::network::login::{
    LoginFailedPacket, LoginFailedPacket2, LoginServerKeepalivePacket, LoginServerLoginPacket,
    LoginServerLoginSuccessPacket,
};
use korangar::network::map::{
    ChangeMapCellPacket, ChangeMapPacket, DisconnectResponsePacket, DisplayImagePacket,
    MapLoadedPacket, MapServerLoginPacket, MapServerLoginSuccessPacket, MapTypePacket,
    MarkMinimapPositionPacket, NavigateToMonsterPacket, NewMailStatusPacket, Packet180b, Packet8302,
    PlayerMovePacket, RequestPlayerMovePacket, RequestServerTickPacket, RequestWarpToMapPacket,
    RestartPacket, RestartResponsePacket, ServerTickPacket, UpdateConfigurationPacket,
    UpdatePartyInvitationStatePacket, UpdateShowEquipPacket,
};
use korangar::network::quest::{
    HuntingQuestNotificationPacket, HuntingQuestUpdateObjectivePacket, QuestEffectPacket,
    QuestListPacket, QuestNotificationPacket1, QuestRemovedPacket,
};
use korangar::network::skill::{
    DamagePacket, DisplayPlayerHealEffect, DisplaySkillCooldownPacket,
    DisplaySkillEffectAndDamagePacket, DisplaySkillEffectNoDamagePacket, EndUseSkillPacket,
    NotifyGroundSkillPacket, NotifySkillUnitPacket, RequestActionPacket,
    RequestPlayerAttackFailedPacket, SkillUnitDisappearPacket, StartUseSkillPacket,
    ToUseSkillSuccessPacket, UpdateHotkeysPacket, UpdateSkillTreePacket, UseSkillAtIdPacket,
    UseSkillOnGroundPacket, UseSkillSuccessPacket,
};
use korangar::network::status::{
    AchievementListPacket, AchievementUpdatePacket, CriticalWeightUpdatePacket,
    DisplayGainedExperiencePacket, InitialStatusPacket, StatusChangePacket,
    StatusChangeSequencePacket, UpdateAttackRangePacket, UpdateStatusPacket, UpdateStatusPacket1,
    UpdateStatusPacket2, UpdateStatusPacket3,
};
use korangar::network::Packet;

fn catalog() -> Vec<(u16, u16, &'static str, bool)> {
    vec![
        (LoginServerLoginPacket::header(), 0x0064, LoginServerLoginPacket::PACKET_NAME, LoginServerLoginPacket::IS_PING),
        (LoginServerLoginSuccessPacket::header(), 0x0ac4, LoginServerLoginSuccessPacket::PACKET_NAME, LoginServerLoginSuccessPacket::IS_PING),
        (CharacterServerLoginSuccessPacket::header(), 0x082d, CharacterServerLoginSuccessPacket::PACKET_NAME, CharacterServerLoginSuccessPacket::IS_PING),
        (Packet6b00::header(), 0x006b, Packet6b00::PACKET_NAME, Packet6b00::IS_PING),
        (Packet180b::header(), 0x0b18, Packet180b::PACKET_NAME, Packet180b::IS_PING),
        (MapServerLoginSuccessPacket::header(), 0x02eb, MapServerLoginSuccessPacket::PACKET_NAME, MapServerLoginSuccessPacket::IS_PING),
        (LoginFailedPacket::header(), 0x0081, LoginFailedPacket::PACKET_NAME, LoginFailedPacket::IS_PING),
        (MapServerUnavailablePacket::header(), 0x0840, MapServerUnavailablePacket::PACKET_NAME, MapServerUnavailablePacket::IS_PING),
        (LoginFailedPacket2::header(), 0x083e, LoginFailedPacket2::PACKET_NAME, LoginFailedPacket2::IS_PING),
        (CharacterSelectionFailedPacket::header(), 0x006c, CharacterSelectionFailedPacket::PACKET_NAME, CharacterSelectionFailedPacket::IS_PING),
        (CharacterSelectionSuccessPacket::header(), 0x0ac5, CharacterSelectionSuccessPacket::PACKET_NAME, CharacterSelectionSuccessPacket::IS_PING),
        (CharacterCreationFailedPacket::header(), 0x006e, CharacterCreationFailedPacket::PACKET_NAME, CharacterCreationFailedPacket::IS_PING),
        (LoginServerKeepalivePacket::header(), 0x0200, LoginServerKeepalivePacket::PACKET_NAME, LoginServerKeepalivePacket::IS_PING),
        (CharacterServerLoginPacket::header(), 0x0065, CharacterServerLoginPacket::PACKET_NAME, CharacterServerLoginPacket::IS_PING),
        (MapServerLoginPacket::header(), 0x0436, MapServerLoginPacket::PACKET_NAME, MapServerLoginPacket::IS_PING),
        (Packet8302::header(), 0x0283, Packet8302::PACKET_NAME, Packet8302::IS_PING),
        (CreateCharacterPacket::header(), 0x0a39, CreateCharacterPacket::PACKET_NAME, CreateCharacterPacket::IS_PING),
        (CreateCharacterSuccessPacket::header(), 0x0b6f, CreateCharacterSuccessPacket::PACKET_NAME, CreateCharacterSuccessPacket::IS_PING),
        (RequestCharacterListPacket::header(), 0x09a1, RequestCharacterListPacket::PACKET_NAME, RequestCharacterListPacket::IS_PING),
        (RequestCharacterListSuccessPacket::header(), 0x0b72, RequestCharacterListSuccessPacket::PACKET_NAME, RequestCharacterListSuccessPacket::IS_PING),
        (RequestPlayerMovePacket::header(), 0x0881, RequestPlayerMovePacket::PACKET_NAME, RequestPlayerMovePacket::IS_PING),
        (RequestWarpToMapPacket::header(), 0x0140, RequestWarpToMapPacket::PACKET_NAME, RequestWarpToMapPacket::IS_PING),
        (EntityMovePacket::header(), 0x0086, EntityMovePacket::PACKET_NAME, EntityMovePacket::IS_PING),
        (EntityStopMovePacket::header(), 0x0088, EntityStopMovePacket::PACKET_NAME, EntityStopMovePacket::IS_PING),
        (PlayerMovePacket::header(), 0x0087, PlayerMovePacket::PACKET_NAME, PlayerMovePacket::IS_PING),
        (DeleteCharacterPacket::header(), 0x01fb, DeleteCharacterPacket::PACKET_NAME, DeleteCharacterPacket::IS_PING),
        (CharacterDeletionFailedPacket::header(), 0x0070, CharacterDeletionFailedPacket::PACKET_NAME, CharacterDeletionFailedPacket::IS_PING),
        (CharacterDeletionSuccessPacket::header(), 0x006f, CharacterDeletionSuccessPacket::PACKET_NAME, CharacterDeletionSuccessPacket::IS_PING),
        (SelectCharacterPacket::header(), 0x0066, SelectCharacterPacket::PACKET_NAME, SelectCharacterPacket::IS_PING),
        (ServerMessagePacket::header(), 0x008e, ServerMessagePacket::PACKET_NAME, ServerMessagePacket::IS_PING),
        (RequestDetailsPacket::header(), 0x0368, RequestDetailsPacket::PACKET_NAME, RequestDetailsPacket::IS_PING),
        (RequestPlayerDetailsSuccessPacket::header(), 0x0a30, RequestPlayerDetailsSuccessPacket::PACKET_NAME, RequestPlayerDetailsSuccessPacket::IS_PING),
        (RequestEntityDetailsSuccessPacket::header(), 0x0adf, RequestEntityDetailsSuccessPacket::PACKET_NAME, RequestEntityDetailsSuccessPacket::IS_PING),
        (NewMailStatusPacket::header(), 0x09e7, NewMailStatusPacket::PACKET_NAME, NewMailStatusPacket::IS_PING),
        (AchievementUpdatePacket::header(), 0x0a24, AchievementUpdatePacket::PACKET_NAME, AchievementUpdatePacket::IS_PING),
        (AchievementListPacket::header(), 0x0a23, AchievementListPacket::PACKET_NAME, AchievementListPacket::IS_PING),
        (CriticalWeightUpdatePacket::header(), 0x0ade, CriticalWeightUpdatePacket::PACKET_NAME, CriticalWeightUpdatePacket::IS_PING),
        (SpriteChangePacket::header(), 0x01d7, SpriteChangePacket::PACKET_NAME, SpriteChangePacket::IS_PING),
        (InventoyStartPacket::header(), 0x0b08, InventoyStartPacket::PACKET_NAME, InventoyStartPacket::IS_PING),
        (InventoyEndPacket::header(), 0x0b0b, InventoyEndPacket::PACKET_NAME, InventoyEndPacket::IS_PING),
        (RegularItemListPacket::header(), 0x0b09, RegularItemListPacket::PACKET_NAME, RegularItemListPacket::IS_PING),
        (EquippableItemListPacket::header(), 0x0b39, EquippableItemListPacket::PACKET_NAME, EquippableItemListPacket::IS_PING),
        (EquippableSwitchItemListPacket::header(), 0x0a9b, EquippableSwitchItemListPacket::PACKET_NAME, EquippableSwitchItemListPacket::IS_PING),
        (MapTypePacket::header(), 0x099b, MapTypePacket::PACKET_NAME, MapTypePacket::IS_PING),
        (Broadcast2MessagePacket::header(), 0x01c3, Broadcast2MessagePacket::PACKET_NAME, Broadcast2MessagePacket::IS_PING),
        (BroadcastMessagePacket::header(), 0x009a, BroadcastMessagePacket::PACKET_NAME, BroadcastMessagePacket::IS_PING),
        (OverheadMessagePacket::header(), 0x008d, OverheadMessagePacket::PACKET_NAME, OverheadMessagePacket::IS_PING),
        (EntityMessagePacket::header(), 0x02c1, EntityMessagePacket::PACKET_NAME, EntityMessagePacket::IS_PING),
        (DisplayEmotionPacket::header(), 0x00c0, DisplayEmotionPacket::PACKET_NAME, DisplayEmotionPacket::IS_PING),
        (UpdateStatusPacket::header(), 0x00b0, UpdateStatusPacket::PACKET_NAME, UpdateStatusPacket::IS_PING),
        (StatusChangeSequencePacket::header(), 0x0196, StatusChangeSequencePacket::PACKET_NAME, StatusChangeSequencePacket::IS_PING),
        (InitialStatusPacket::header(), 0x00bd, InitialStatusPacket::PACKET_NAME, InitialStatusPacket::IS_PING),
        (UpdateStatusPacket1::header(), 0x0141, UpdateStatusPacket1::PACKET_NAME, UpdateStatusPacket1::IS_PING),
        (UpdateStatusPacket2::header(), 0x0acb, UpdateStatusPacket2::PACKET_NAME, UpdateStatusPacket2::IS_PING),
        (UpdateStatusPacket3::header(), 0x00be, UpdateStatusPacket3::PACKET_NAME, UpdateStatusPacket3::IS_PING),
        (UpdateAttackRangePacket::header(), 0x013a, UpdateAttackRangePacket::PACKET_NAME, UpdateAttackRangePacket::IS_PING),
        (SwitchCharacterSlotPacket::header(), 0x08d4, SwitchCharacterSlotPacket::PACKET_NAME, SwitchCharacterSlotPacket::IS_PING),
        (RequestActionPacket::header(), 0x0437, RequestActionPacket::PACKET_NAME, RequestActionPacket::IS_PING),
        (GlobalMessagePacket::header(), 0x00f3, GlobalMessagePacket::PACKET_NAME, GlobalMessagePacket::IS_PING),
        (RequestPlayerAttackFailedPacket::header(), 0x0139, RequestPlayerAttackFailedPacket::PACKET_NAME, RequestPlayerAttackFailedPacket::IS_PING),
        (UpdateEntityHealthPointsPacket::header(), 0x0977, UpdateEntityHealthPointsPacket::PACKET_NAME, UpdateEntityHealthPointsPacket::IS_PING),
        (DamagePacket::header(), 0x08c8, DamagePacket::PACKET_NAME, DamagePacket::IS_PING),
        (ServerTickPacket::header(), 0x007f, ServerTickPacket::PACKET_NAME, ServerTickPacket::IS_PING),
        (RequestServerTickPacket::header(), 0x0360, RequestServerTickPacket::PACKET_NAME, RequestServerTickPacket::IS_PING),
        (SwitchCharacterSlotResponsePacket::header(), 0x0b70, SwitchCharacterSlotResponsePacket::PACKET_NAME, SwitchCharacterSlotResponsePacket::IS_PING),
        (ChangeMapPacket::header(), 0x0091, ChangeMapPacket::PACKET_NAME, ChangeMapPacket::IS_PING),
        (EntityDisappearedPacket::header(), 0x0080, EntityDisappearedPacket::PACKET_NAME, EntityDisappearedPacket::IS_PING),
        (MovingEntityAppearedPacket::header(), 0x09fd, MovingEntityAppearedPacket::PACKET_NAME, MovingEntityAppearedPacket::IS_PING),
        (EntityAppearedPacket::header(), 0x09fe, EntityAppearedPacket::PACKET_NAME, EntityAppearedPacket::IS_PING),
        (EntityAppeared2Packet::header(), 0x09ff, EntityAppeared2Packet::PACKET_NAME, EntityAppeared2Packet::IS_PING),
        (UpdateSkillTreePacket::header(), 0x010f, UpdateSkillTreePacket::PACKET_NAME, UpdateSkillTreePacket::IS_PING),
        (UpdateHotkeysPacket::header(), 0x0b20, UpdateHotkeysPacket::PACKET_NAME, UpdateHotkeysPacket::IS_PING),
        (UpdatePartyInvitationStatePacket::header(), 0x02c9, UpdatePartyInvitationStatePacket::PACKET_NAME, UpdatePartyInvitationStatePacket::IS_PING),
        (UpdateShowEquipPacket::header(), 0x02da, UpdateShowEquipPacket::PACKET_NAME, UpdateShowEquipPacket::IS_PING),
        (UpdateConfigurationPacket::header(), 0x02d9, UpdateConfigurationPacket::PACKET_NAME, UpdateConfigurationPacket::IS_PING),
        (NavigateToMonsterPacket::header(), 0x08e2, NavigateToMonsterPacket::PACKET_NAME, NavigateToMonsterPacket::IS_PING),
        (MarkMinimapPositionPacket::header(), 0x0144, MarkMinimapPositionPacket::PACKET_NAME, MarkMinimapPositionPacket::IS_PING),
        (NextButtonPacket::header(), 0x00b5, NextButtonPacket::PACKET_NAME, NextButtonPacket::IS_PING),
        (CloseButtonPacket::header(), 0x00b6, CloseButtonPacket::PACKET_NAME, CloseButtonPacket::IS_PING),
        (DialogMenuPacket::header(), 0x00b7, DialogMenuPacket::PACKET_NAME, DialogMenuPacket::IS_PING),
        (DisplaySpecialEffectPacket::header(), 0x01f3, DisplaySpecialEffectPacket::PACKET_NAME, DisplaySpecialEffectPacket::IS_PING),
        (DisplaySkillCooldownPacket::header(), 0x043d, DisplaySkillCooldownPacket::PACKET_NAME, DisplaySkillCooldownPacket::IS_PING),
        (DisplaySkillEffectAndDamagePacket::header(), 0x01de, DisplaySkillEffectAndDamagePacket::PACKET_NAME, DisplaySkillEffectAndDamagePacket::IS_PING),
        (DisplayPlayerHealEffect::header(), 0x0a27, DisplayPlayerHealEffect::PACKET_NAME, DisplayPlayerHealEffect::IS_PING),
        (DisplaySkillEffectNoDamagePacket::header(), 0x09cb, DisplaySkillEffectNoDamagePacket::PACKET_NAME, DisplaySkillEffectNoDamagePacket::IS_PING),
        (StatusChangePacket::header(), 0x0983, StatusChangePacket::PACKET_NAME, StatusChangePacket::IS_PING),
        (QuestNotificationPacket1::header(), 0x09f9, QuestNotificationPacket1::PACKET_NAME, QuestNotificationPacket1::IS_PING),
        (HuntingQuestNotificationPacket::header(), 0x08fe, HuntingQuestNotificationPacket::PACKET_NAME, HuntingQuestNotificationPacket::IS_PING),
        (HuntingQuestUpdateObjectivePacket::header(), 0x09fa, HuntingQuestUpdateObjectivePacket::PACKET_NAME, HuntingQuestUpdateObjectivePacket::IS_PING),
        (QuestRemovedPacket::header(), 0x02b4, QuestRemovedPacket::PACKET_NAME, QuestRemovedPacket::IS_PING),
        (QuestListPacket::header(), 0x09f8, QuestListPacket::PACKET_NAME, QuestListPacket::IS_PING),
        (VisualEffectPacket::header(), 0x019b, VisualEffectPacket::PACKET_NAME, VisualEffectPacket::IS_PING),
        (DisplayGainedExperiencePacket::header(), 0x0acc, DisplayGainedExperiencePacket::PACKET_NAME, DisplayGainedExperiencePacket::IS_PING),
        (DisplayImagePacket::header(), 0x01b3, DisplayImagePacket::PACKET_NAME, DisplayImagePacket::IS_PING),
        (StateChangePacket::header(), 0x0229, StateChangePacket::PACKET_NAME, StateChangePacket::IS_PING),
        (ItemPickupPacket::header(), 0x0b41, ItemPickupPacket::PACKET_NAME, ItemPickupPacket::IS_PING),
        (RemoveItemFromInventoryPacket::header(), 0x07fa, RemoveItemFromInventoryPacket::PACKET_NAME, RemoveItemFromInventoryPacket::IS_PING),
        (QuestEffectPacket::header(), 0x0446, QuestEffectPacket::PACKET_NAME, QuestEffectPacket::IS_PING),
        (NpcDialogPacket::header(), 0x00b4, NpcDialogPacket::PACKET_NAME, NpcDialogPacket::IS_PING),
        (MapLoadedPacket::header(), 0x007d, MapLoadedPacket::PACKET_NAME, MapLoadedPacket::IS_PING),
        (CharacterServerKeepalivePacket::header(), 0x0187, CharacterServerKeepalivePacket::PACKET_NAME, CharacterServerKeepalivePacket::IS_PING),
        (StartDialogPacket::header(), 0x0090, StartDialogPacket::PACKET_NAME, StartDialogPacket::IS_PING),
        (NextDialogPacket::header(), 0x00b9, NextDialogPacket::PACKET_NAME, NextDialogPacket::IS_PING),
        (CloseDialogPacket::header(), 0x0146, CloseDialogPacket::PACKET_NAME, CloseDialogPacket::IS_PING),
        (ChooseDialogOptionPacket::header(), 0x00b8, ChooseDialogOptionPacket::PACKET_NAME, ChooseDialogOptionPacket::IS_PING),
        (RequestEquipItemPacket::header(), 0x0998, RequestEquipItemPacket::PACKET_NAME, RequestEquipItemPacket::IS_PING),
        (RequestEquipItemStatusPacket::header(), 0x0999, RequestEquipItemStatusPacket::PACKET_NAME, RequestEquipItemStatusPacket::IS_PING),
        (RequestUnequipItemPacket::header(), 0x00ab, RequestUnequipItemPacket::PACKET_NAME, RequestUnequipItemPacket::IS_PING),
        (RequestUnequipItemStatusPacket::header(), 0x099a, RequestUnequipItemStatusPacket::PACKET_NAME, RequestUnequipItemStatusPacket::IS_PING),
        (RestartPacket::header(), 0x00b2, RestartPacket::PACKET_NAME, RestartPacket::IS_PING),
        (RestartResponsePacket::header(), 0x00b3, RestartResponsePacket::PACKET_NAME, RestartResponsePacket::IS_PING),
        (DisconnectResponsePacket::header(), 0x018b, DisconnectResponsePacket::PACKET_NAME, DisconnectResponsePacket::IS_PING),
        (UseSkillAtIdPacket::header(), 0x0438, UseSkillAtIdPacket::PACKET_NAME, UseSkillAtIdPacket::IS_PING),
        (UseSkillOnGroundPacket::header(), 0x0af4, UseSkillOnGroundPacket::PACKET_NAME, UseSkillOnGroundPacket::IS_PING),
        (StartUseSkillPacket::header(), 0x0b10, StartUseSkillPacket::PACKET_NAME, StartUseSkillPacket::IS_PING),
        (EndUseSkillPacket::header(), 0x0b11, EndUseSkillPacket::PACKET_NAME, EndUseSkillPacket::IS_PING),
        (UseSkillSuccessPacket::header(), 0x07fb, UseSkillSuccessPacket::PACKET_NAME, UseSkillSuccessPacket::IS_PING),
        (ToUseSkillSuccessPacket::header(), 0x0110, ToUseSkillSuccessPacket::PACKET_NAME, ToUseSkillSuccessPacket::IS_PING),
        (NotifySkillUnitPacket::header(), 0x09ca, NotifySkillUnitPacket::PACKET_NAME, NotifySkillUnitPacket::IS_PING),
        (NotifyGroundSkillPacket::header(), 0x0117, NotifyGroundSkillPacket::PACKET_NAME, NotifyGroundSkillPacket::IS_PING),
        (SkillUnitDisappearPacket::header(), 0x0120, SkillUnitDisappearPacket::PACKET_NAME, SkillUnitDisappearPacket::IS_PING),
        (AddFriendPacket::header(), 0x0202, AddFriendPacket::PACKET_NAME, AddFriendPacket::IS_PING),
        (RemoveFriendPacket::header(), 0x0203, RemoveFriendPacket::PACKET_NAME, RemoveFriendPacket::IS_PING),
        (NotifyFriendRemovedPacket::header(), 0x020a, NotifyFriendRemovedPacket::PACKET_NAME, NotifyFriendRemovedPacket::IS_PING),
        (FriendListPacket::header(), 0x0201, FriendListPacket::PACKET_NAME, FriendListPacket::IS_PING),
        (FriendOnlineStatusPacket::header(), 0x0206, FriendOnlineStatusPacket::PACKET_NAME, FriendOnlineStatusPacket::IS_PING),
        (FriendRequestPacket::header(), 0x0207, FriendRequestPacket::PACKET_NAME, FriendRequestPacket::IS_PING),
        (FriendRequestResponsePacket::header(), 0x0208, FriendRequestResponsePacket::PACKET_NAME, FriendRequestResponsePacket::IS_PING),
        (FriendRequestResultPacket::header(), 0x0209, FriendRequestResultPacket::PACKET_NAME, FriendRequestResultPacket::IS_PING),
        (PartyInvitePacket::header(), 0x02c6, PartyInvitePacket::PACKET_NAME, PartyInvitePacket::IS_PING),
        (ReputationPacket::header(), 0x0b8d, ReputationPacket::PACKET_NAME, ReputationPacket::IS_PING),
        (ClanInfoPacket::header(), 0x098a, ClanInfoPacket::PACKET_NAME, ClanInfoPacket::IS_PING),
        (ClanOnlineCountPacket::header(), 0x0988, ClanOnlineCountPacket::PACKET_NAME, ClanOnlineCountPacket::IS_PING),
        (ChangeMapCellPacket::header(), 0x0192, ChangeMapCellPacket::PACKET_NAME, ChangeMapCellPacket::IS_PING),
    ]
}

#[test]
fn every_packet_type_has_its_own_header() {
    let catalog = catalog();
    assert_eq!(catalog.len(), 134);
    for (index, (header, expected, name, _)) in catalog.iter().enumerate() {
        assert_eq!(header, expected, "{}", name);
        for (_, _, other_name, _) in catalog.iter().skip(index + 1).filter(|other| other.0 == *header) {
            panic!("{} and {} share the header {:#06x}", name, other_name, header);
        }
    }
}

#[test]
fn the_keepalive_frames_are_marked() {
    let pings: Vec<&str> = catalog().iter().filter(|entry| entry.3).map(|entry| entry.2).collect();
    assert_eq!(pings, vec!["LoginServerKeepalivePacket", "ServerTickPacket", "RequestServerTickPacket", "CharacterServerKeepalivePacket"]);
}
