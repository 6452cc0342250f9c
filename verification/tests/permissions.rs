use qubee::groups::group_manager::{
    check_member_permission, GroupError, GroupId, GroupSettings, MemberStatus,
};
use qubee::groups::group_permissions::{GroupPermissions, Permission, PermissionSet, Role};

#[test]
fn test_default_permissions() {
    let permissions = GroupPermissions::default();

    assert!(permissions.role_has_permission(&Role::Owner, &Permission::DeleteGroup));
    assert!(permissions.role_has_permission(&Role::Owner, &Permission::SendMessages));

    assert!(permissions.role_has_permission(&Role::Member, &Permission::SendMessages));
    assert!(!permissions.role_has_permission(&Role::Member, &Permission::DeleteGroup));

    assert!(permissions.role_has_permission(&Role::Observer, &Permission::ReadMessages));
    assert!(!permissions.role_has_permission(&Role::Observer, &Permission::SendMessages));
}

#[test]
fn test_broadcast_channel_permissions() {
    let permissions = GroupPermissions::broadcast_channel();

    assert!(!permissions.role_has_permission(&Role::Member, &Permission::SendMessages));
    assert!(permissions.role_has_permission(&Role::Member, &Permission::ReadMessages));

    assert!(permissions.role_has_permission(&Role::Admin, &Permission::SendMessages));
}

#[test]
fn test_role_hierarchy() {
    let permissions = GroupPermissions::default();

    assert!(permissions.is_role_higher(&Role::Owner, &Role::Admin));
    assert!(permissions.is_role_higher(&Role::Admin, &Role::Moderator));
    assert!(permissions.is_role_higher(&Role::Moderator, &Role::Member));
    assert!(permissions.is_role_higher(&Role::Member, &Role::Observer));

    assert!(!permissions.is_role_higher(&Role::Member, &Role::Admin));
}

#[test]
fn test_role_modification_permissions() {
    let permissions = GroupPermissions::default();

    assert!(permissions.can_modify_role(&Role::Owner, &Role::Admin));
    assert!(permissions.can_modify_role(&Role::Owner, &Role::Member));

    assert!(!permissions.can_modify_role(&Role::Admin, &Role::Owner));
    assert!(!permissions.can_modify_role(&Role::Admin, &Role::Admin));
    assert!(permissions.can_modify_role(&Role::Admin, &Role::Member));

    assert!(!permissions.can_modify_role(&Role::Moderator, &Role::Admin));
    assert!(permissions.can_modify_role(&Role::Moderator, &Role::Member));
    assert!(permissions.can_modify_role(&Role::Moderator, &Role::Observer));

    assert!(!permissions.can_modify_role(&Role::Member, &Role::Observer));
}

#[test]
fn test_custom_role_creation() {
    let mut permissions = GroupPermissions::default();

    let custom_permissions = PermissionSet::from_vec(vec![
        Permission::SendMessages,
        Permission::SendImages,
        Permission::ReadMessages,
    ]);

    permissions.create_custom_role("ImagePoster".to_string(), custom_permissions.duplicate());

    let custom_role = Role::Custom("ImagePoster".to_string());
    assert!(permissions.get_role_permissions(&custom_role).same_as(&custom_permissions));

    assert!(permissions.role_has_permission(&custom_role, &Permission::SendImages));
    assert!(!permissions.role_has_permission(&custom_role, &Permission::DeleteAnyMessage));
}

#[test]
fn test_permission_modification() {
    let mut permissions = GroupPermissions::default();

    permissions.remove_permission_from_role(&Role::Member, &Permission::SendFiles);
    assert!(!permissions.role_has_permission(&Role::Member, &Permission::SendFiles));

    permissions.add_permission_to_role(Role::Observer, Permission::SendMessages);
    assert!(permissions.role_has_permission(&Role::Observer, &Permission::SendMessages));
}

#[test]
fn default_grants_are_complete() {
    let permissions = GroupPermissions::default();
    assert_eq!(permissions.get_role_permissions(&Role::Owner).len(), 44);
    assert_eq!(permissions.get_role_permissions(&Role::Admin).len(), 42);
    assert_eq!(permissions.get_role_permissions(&Role::Moderator).len(), 24);
    assert_eq!(permissions.get_role_permissions(&Role::Member).len(), 14);
    assert_eq!(permissions.get_role_permissions(&Role::Observer).len(), 3);
    assert_eq!(permissions.get_role_permissions(&Role::Custom("none".to_string())).len(), 0);
    assert!(!permissions.role_has_permission(&Role::Admin, &Permission::AssignAdmin));
    assert!(!permissions.role_has_permission(&Role::Admin, &Permission::DeleteGroup));
    assert!(permissions.role_has_permission(&Role::Admin, &Permission::ManageIntegrations));
    assert!(permissions.is_permission_valid(&Permission::Custom("anything".to_string())));
}

#[test]
fn announcement_channel_restricts_administrators() {
    let permissions = GroupPermissions::announcement_channel();
    assert!(!permissions.role_has_permission(&Role::Admin, &Permission::SendMessages));
    assert!(permissions.role_has_permission(&Role::Admin, &Permission::AccessAuditLog));
    assert!(permissions.role_has_permission(&Role::Owner, &Permission::SendMessages));
    assert!(!permissions.role_has_permission(&Role::Member, &Permission::SendMessages));
    assert_eq!(permissions.get_role_permissions(&Role::Admin).len(), 14);
}

#[test]
fn custom_roles_and_permissions_go_by_their_names() {
    let mut permissions = GroupPermissions::default();
    permissions.add_permission_to_role(
        Role::Custom("Bot".to_string()),
        Permission::Custom("Announce".to_string()),
    );
    assert!(permissions.role_has_permission(
        &Role::Custom("Bot".to_string()),
        &Permission::Custom("Announce".to_string())
    ));
    assert!(!permissions.role_has_permission(
        &Role::Custom("Bot".to_string()),
        &Permission::Custom("Other".to_string())
    ));
    assert!(!permissions.role_has_permission(
        &Role::Custom("Other".to_string()),
        &Permission::Custom("Announce".to_string())
    ));
    assert!(!permissions.is_role_higher(&Role::Custom("Bot".to_string()), &Role::Observer));
    assert!(permissions.is_role_higher(&Role::Observer, &Role::Custom("Bot".to_string())));
    assert!(permissions.can_modify_role(&Role::Admin, &Role::Custom("Bot".to_string())));
    assert!(!permissions.can_modify_role(&Role::Custom("Bot".to_string()), &Role::Member));
    assert_eq!(Role::Custom("Bot".to_string()).label(), "Custom(Bot)");
    assert_eq!(Permission::DeleteAnyMessage.label(), "Delete Any Message");
}

#[test]
fn permission_sets_hold_each_permission_once() {
    let mut set = PermissionSet::new();
    assert!(set.insert(Permission::PinMessages));
    assert!(!set.insert(Permission::PinMessages));
    assert!(set.insert(Permission::Custom("a".to_string())));
    assert_eq!(set.len(), 2);
    assert!(set.remove(&Permission::PinMessages));
    assert!(!set.remove(&Permission::PinMessages));
    assert!(!set.contains(&Permission::PinMessages));
    assert!(set.contains(&Permission::Custom("a".to_string())));
    let twice = PermissionSet::from_vec(vec![Permission::SendFiles, Permission::SendFiles]);
    assert_eq!(twice.len(), 1);
    assert!(!twice.same_as(&set));
}

#[test]
fn a_member_needs_to_be_active_and_permitted() {
    let permissions = GroupPermissions::default();
    let own = Some(PermissionSet::from_vec(vec![Permission::DeleteGroup]));
    assert_eq!(
        check_member_permission(&MemberStatus::Active, &Role::Member, &None, &permissions, &Permission::SendMessages),
        Ok(())
    );
    assert_eq!(
        check_member_permission(&MemberStatus::Active, &Role::Member, &None, &permissions, &Permission::DeleteGroup),
        Err(GroupError::PermissionDenied)
    );
    assert_eq!(
        check_member_permission(&MemberStatus::Active, &Role::Member, &own, &permissions, &Permission::DeleteGroup),
        Ok(())
    );
    assert_eq!(
        check_member_permission(&MemberStatus::Left, &Role::Owner, &own, &permissions, &Permission::SendMessages),
        Err(GroupError::MemberNotActive)
    );
    assert_eq!(
        check_member_permission(
            &MemberStatus::Muted { until: None },
            &Role::Owner,
            &None,
            &permissions,
            &Permission::SendMessages
        ),
        Err(GroupError::MemberNotActive)
    );
}

#[test]
fn group_identifiers_and_invitations() {
    let id = GroupId::from_bytes([5u8; 32]);
    assert_eq!(id.as_bytes(), &[5u8; 32]);
    assert_eq!(id.as_ref(), &[5u8; 32][..]);
    let settings = GroupSettings::default();
    assert_eq!(settings.max_members, Some(1000));
    assert!(!settings.screen_sharing_enabled);
}
