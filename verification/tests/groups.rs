use qubee::groups::group_crypto::GroupCryptoError;
use qubee::groups::group_manager::{
    GroupError, GroupId, GroupManager, GroupSettings, GroupType, MemberStatus,
};
use qubee::groups::group_permissions::{Permission, Role};
use qubee::identity::identity_key::{IdentityId, IdentityKeyPair};

fn identity() -> (IdentityId, Vec<u8>) {
    let keypair = IdentityKeyPair::generate().expect("Should generate keypair");
    let key = keypair.public_key();
    (key.identity_id, [&key.classical_public[..], &key.pq_public[..]].concat())
}

fn group_of(manager: &mut GroupManager, creator_id: IdentityId, creator_key: Vec<u8>) -> GroupId {
    manager
        .create_group(
            creator_id,
            creator_key,
            "Test Group".to_string(),
            "A test group".to_string(),
            GroupType::Private,
            GroupSettings::default(),
        )
        .expect("Should create group")
}

#[test]
fn test_group_creation() {
    let mut group_manager = GroupManager::new();

    let (creator_id, creator_key) = identity();

    let group_id = group_of(&mut group_manager, creator_id, creator_key);

    let group = group_manager.get_group(&group_id).expect("Should find group");
    assert_eq!(group.name, "Test Group");
    assert_eq!(group.member_count(), 1);
    assert!(group.member(&creator_id).is_some());
    assert_eq!(group.member(&creator_id).unwrap().role, Role::Owner);
}

#[test]
fn test_member_management() {
    let mut group_manager = GroupManager::new();

    let (creator_id, creator_key) = identity();
    let (member_id, member_key) = identity();

    let group_id = group_of(&mut group_manager, creator_id, creator_key);

    // Add member
    group_manager
        .add_member(
            group_id,
            creator_id,
            member_id,
            member_key,
            "Test Member".to_string(),
            Role::Member,
        )
        .expect("Should add member");

    let group = group_manager.get_group(&group_id).expect("Should find group");
    assert_eq!(group.member_count(), 2);
    assert!(group.member(&member_id).is_some());

    // Update role
    group_manager
        .update_member_role(group_id, creator_id, member_id, Role::Admin)
        .expect("Should update role");

    let group = group_manager.get_group(&group_id).expect("Should find group");
    assert_eq!(group.member(&member_id).unwrap().role, Role::Admin);

    // Remove member
    group_manager
        .remove_member(group_id, creator_id, member_id, "Test removal".to_string())
        .expect("Should remove member");

    let group = group_manager.get_group(&group_id).expect("Should find group");
    assert_eq!(
        group.member(&member_id).unwrap().member_status,
        MemberStatus::Removed { reason: "Test removal".to_string() }
    );
}

#[test]
fn test_group_invitations() {
    let mut group_manager = GroupManager::new();

    let (creator_id, creator_key) = identity();

    let group_id = group_of(&mut group_manager, creator_id, creator_key);

    // Create invitation
    let invitation = group_manager
        .create_invitation(group_id, creator_id, None, Some(5))
        .expect("Should create invitation");

    assert_eq!(invitation.group_id, group_id);
    assert_eq!(invitation.max_uses, Some(5));
    assert_eq!(invitation.current_uses, 0);

    // Join with invitation
    let (joiner_id, joiner_key) = identity();

    let joined_group_id = group_manager
        .join_group_with_invitation(
            invitation.invitation_code,
            joiner_id,
            joiner_key,
            "Joiner".to_string(),
        )
        .expect("Should join group");

    assert_eq!(joined_group_id, group_id);

    let group = group_manager.get_group(&group_id).expect("Should find group");
    assert_eq!(group.member_count(), 2);
    assert!(group.member(&joiner_id).is_some());
}

fn id(byte: u8) -> IdentityId {
    IdentityId::from_bytes([byte; 32])
}

fn founded(manager: &mut GroupManager, settings: GroupSettings) -> GroupId {
    manager.create_group_with(
        id(1),
        vec![1, 2, 3],
        "Chess".to_string(),
        "Openings".to_string(),
        GroupType::Public,
        settings,
        [7u8; 32],
        1_000,
    )
}

#[test]
fn a_group_is_named_by_the_digest_of_name_founder_and_time() {
    let mut manager = GroupManager::new();
    let group_id = founded(&mut manager, GroupSettings::default());

    let mut fed = Vec::new();
    fed.extend_from_slice(b"Chess");
    fed.extend_from_slice(&[1u8; 32]);
    fed.extend_from_slice(&1_000u64.to_le_bytes());
    fed.extend_from_slice(b"qubee_group_id");
    assert_eq!(group_id.as_bytes(), blake3::hash(&fed).as_bytes());

    let group = manager.get_group(&group_id).unwrap();
    assert_eq!(group.description, "Openings");
    assert_eq!(group.group_type, GroupType::Public);
    assert_eq!(group.created_at, 1_000);
    assert_eq!(group.last_updated, 1_000);
    assert_eq!(group.version, 1);
    assert!(group.metadata.tags.is_empty());
    let owner = group.member(&id(1)).unwrap();
    assert_eq!(owner.display_name, "Creator");
    assert_eq!(owner.identity_key, vec![1, 2, 3]);
    assert_eq!(owner.joined_at, 1_000);
    assert_eq!(owner.invited_by, None);
    assert_eq!(owner.member_status, MemberStatus::Active);
    assert!(manager.get_group(&GroupId::from_bytes([0u8; 32])).is_none());
}

#[test]
fn adding_a_member_needs_permission_room_and_a_new_identifier() {
    let mut manager = GroupManager::new();
    let settings = GroupSettings { max_members: Some(2), ..GroupSettings::default() };
    let group_id = founded(&mut manager, settings);
    let nowhere = GroupId::from_bytes([9u8; 32]);

    assert_eq!(
        manager.add_member_with(nowhere, id(1), id(2), vec![], "B".to_string(), Role::Member, [8; 32], 1_001),
        Err(GroupError::GroupNotFound)
    );
    assert_eq!(
        manager.add_member_with(group_id, id(5), id(2), vec![], "B".to_string(), Role::Member, [8; 32], 1_001),
        Err(GroupError::MemberNotFound)
    );
    assert_eq!(
        manager.add_member_with(group_id, id(1), id(1), vec![], "A".to_string(), Role::Member, [8; 32], 1_001),
        Err(GroupError::MemberAlreadyInGroup)
    );
    assert_eq!(manager.get_group(&group_id).unwrap().version, 1);

    assert_eq!(
        manager.add_member_with(group_id, id(1), id(2), vec![4], "B".to_string(), Role::Member, [8; 32], 1_001),
        Ok(())
    );
    let group = manager.get_group(&group_id).unwrap();
    assert_eq!(group.version, 2);
    assert_eq!(group.last_updated, 1_001);
    assert_eq!(group.created_at, 1_000);
    let member = group.member(&id(2)).unwrap();
    assert_eq!(member.invited_by, Some(id(1)));
    assert_eq!(member.joined_at, 1_001);
    assert_eq!(member.display_name, "B");

    assert_eq!(
        manager.add_member_with(group_id, id(2), id(3), vec![], "C".to_string(), Role::Member, [8; 32], 1_002),
        Err(GroupError::PermissionDenied)
    );
    assert_eq!(
        manager.add_member_with(group_id, id(1), id(3), vec![], "C".to_string(), Role::Member, [8; 32], 1_002),
        Err(GroupError::MemberLimitReached)
    );
    assert_eq!(manager.get_group(&group_id).unwrap().member_count(), 2);
}

#[test]
fn the_owner_stays_and_keeps_the_role() {
    let mut manager = GroupManager::new();
    let group_id = founded(&mut manager, GroupSettings::default());
    manager
        .add_member_with(group_id, id(1), id(2), vec![], "B".to_string(), Role::Admin, [8; 32], 1_001)
        .unwrap();

    assert_eq!(
        manager.remove_member_with(group_id, id(2), id(1), "coup".to_string(), [9; 32], 1_002),
        Err(GroupError::CannotRemoveOwner)
    );
    assert_eq!(
        manager.update_member_role_at(group_id, id(2), id(1), Role::Member, 1_002),
        Err(GroupError::CannotChangeOwnerRole)
    );
    assert_eq!(
        manager.leave_group_with(group_id, id(1), [9; 32], 1_002),
        Err(GroupError::OwnerCannotLeave)
    );
    assert_eq!(
        manager.leave_group_with(GroupId::from_bytes([0; 32]), id(2), [9; 32], 1_002),
        Err(GroupError::GroupNotFound)
    );
    let group = manager.get_group(&group_id).unwrap();
    assert_eq!(group.version, 2);
    assert_eq!(group.member(&id(1)).unwrap().role, Role::Owner);
}

#[test]
fn one_who_left_is_listed_but_neither_active_nor_allowed() {
    let mut manager = GroupManager::new();
    let group_id = founded(&mut manager, GroupSettings::default());
    manager
        .add_member_with(group_id, id(1), id(2), vec![], "B".to_string(), Role::Admin, [8; 32], 1_001)
        .unwrap();
    assert_eq!(manager.get_member_groups(&id(2)).len(), 1);
    assert_eq!(manager.get_active_members(&group_id).len(), 2);
    assert_eq!(manager.check_permission(group_id, id(2), Permission::AddMembers), Ok(()));

    assert_eq!(manager.leave_group_with(group_id, id(2), [9; 32], 1_005), Ok(()));

    let group = manager.get_group(&group_id).unwrap();
    assert_eq!(group.member_count(), 2);
    assert_eq!(group.version, 3);
    assert_eq!(group.last_updated, 1_005);
    let gone = group.member(&id(2)).unwrap();
    assert_eq!(gone.member_status, MemberStatus::Left);
    assert_eq!(gone.last_seen, 1_005);
    assert_eq!(gone.joined_at, 1_001);

    assert!(manager.get_member_groups(&id(2)).is_empty());
    let of_owner = manager.get_member_groups(&id(1));
    assert_eq!(of_owner.len(), 1);
    assert_eq!(of_owner[0].id, group_id);
    let active = manager.get_active_members(&group_id);
    assert_eq!(active.len(), 1);
    assert_eq!(active[0].identity_id, id(1));
    assert!(manager.get_active_members(&GroupId::from_bytes([0; 32])).is_empty());
    assert_eq!(
        manager.check_permission(group_id, id(2), Permission::AddMembers),
        Err(GroupError::MemberNotActive)
    );
    assert_eq!(
        manager.add_member_with(group_id, id(1), id(2), vec![], "B".to_string(), Role::Member, [8; 32], 1_006),
        Err(GroupError::MemberAlreadyInGroup)
    );
}

#[test]
fn settings_change_with_permission_only() {
    let mut manager = GroupManager::new();
    let group_id = founded(&mut manager, GroupSettings::default());
    manager
        .add_member_with(group_id, id(1), id(2), vec![], "B".to_string(), Role::Member, [8; 32], 1_001)
        .unwrap();
    let quiet = GroupSettings { voice_calls_enabled: false, ..GroupSettings::default() };
    assert_eq!(
        manager.update_group_settings_at(group_id, id(2), quiet, 1_002),
        Err(GroupError::PermissionDenied)
    );
    assert!(manager.get_group(&group_id).unwrap().settings.voice_calls_enabled);
    assert_eq!(manager.update_group_settings_at(group_id, id(1), quiet, 1_002), Ok(()));
    let group = manager.get_group(&group_id).unwrap();
    assert!(!group.settings.voice_calls_enabled);
    assert_eq!(group.version, 3);
    assert_eq!(group.last_updated, 1_002);
}

#[test]
fn an_invitation_expires_and_runs_out() {
    let mut manager = GroupManager::new();
    let group_id = founded(&mut manager, GroupSettings::default());

    let invitation = manager
        .create_invitation_at(group_id, id(1), Some(2_000), Some(1), 1_500)
        .unwrap();
    let mut fed = Vec::new();
    fed.extend_from_slice(group_id.as_bytes());
    fed.extend_from_slice(&[1u8; 32]);
    fed.extend_from_slice(&1_500u64.to_le_bytes());
    fed.extend_from_slice(b"qubee_invitation");
    assert_eq!(invitation.invitation_code, hex::encode(&blake3::hash(&fed).as_bytes()[..16]));
    assert_eq!(invitation.group_name, "Chess");
    assert_eq!(invitation.inviter_name, "Creator");
    assert_eq!(invitation.inviter_id, id(1));
    assert_eq!(invitation.expires_at, Some(2_000));
    assert_eq!(invitation.created_at, 1_500);
    let code = invitation.invitation_code;

    assert_eq!(
        manager.join_group_with_invitation_with("none".to_string(), id(2), vec![], "B".to_string(), [8; 32], 1_600),
        Err(GroupError::InvitationNotFound)
    );
    assert_eq!(
        manager.join_group_with_invitation_with(code.clone(), id(2), vec![], "B".to_string(), [8; 32], 2_001),
        Err(GroupError::InvitationExpired)
    );
    assert_eq!(
        manager.join_group_with_invitation_with(code.clone(), id(1), vec![], "A".to_string(), [8; 32], 2_000),
        Err(GroupError::MemberAlreadyInGroup)
    );
    assert_eq!(
        manager.join_group_with_invitation_with(code.clone(), id(2), vec![], "B".to_string(), [8; 32], 2_000),
        Ok(group_id)
    );
    let joined = manager.get_group(&group_id).unwrap().member(&id(2)).unwrap();
    assert_eq!(joined.role, Role::Member);
    assert_eq!(joined.invited_by, Some(id(1)));
    assert_eq!(
        manager.join_group_with_invitation_with(code, id(3), vec![], "C".to_string(), [8; 32], 1_700),
        Err(GroupError::InvitationExhausted)
    );
    assert_eq!(
        manager.create_invitation_at(group_id, id(2), None, None, 1_800).err(),
        Some(GroupError::PermissionDenied)
    );
}

#[test]
fn a_change_of_membership_changes_the_group_key() {
    let mut manager = GroupManager::new();
    let group_id = founded(&mut manager, GroupSettings::default());
    let sealed = manager.encrypt_group_message(&group_id, b"first move").unwrap();
    assert_eq!(manager.decrypt_group_message(&group_id, &sealed).unwrap(), b"first move");
    assert_eq!(
        manager.encrypt_group_message(&GroupId::from_bytes([0; 32]), b"x"),
        Err(GroupCryptoError::KeyNotFound)
    );

    manager
        .add_member_with(group_id, id(1), id(2), vec![], "B".to_string(), Role::Member, [8; 32], 1_001)
        .unwrap();
    assert_eq!(
        manager.decrypt_group_message(&group_id, &sealed),
        Err(GroupCryptoError::DecryptionFailed)
    );
    let again = manager.encrypt_group_message(&group_id, b"second move").unwrap();
    assert_eq!(manager.decrypt_group_message(&group_id, &again).unwrap(), b"second move");
}

#[test]
fn a_group_founded_twice_in_one_second_replaces_the_first() {
    let mut manager = GroupManager::new();
    let first = founded(&mut manager, GroupSettings::default());
    manager
        .add_member_with(first, id(1), id(2), vec![], "B".to_string(), Role::Member, [8; 32], 1_001)
        .unwrap();
    let second = founded(&mut manager, GroupSettings::default());
    assert_eq!(first, second);
    let group = manager.get_group(&second).unwrap();
    assert_eq!(group.member_count(), 1);
    assert_eq!(group.version, 1);
    assert_eq!(manager.get_member_groups(&id(1)).len(), 1);
}
