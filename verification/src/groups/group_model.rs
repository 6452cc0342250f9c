//! Groups as plain values, and what each change of membership does to
//! them.

use vstd::bytes::spec_u64_to_le_bytes;
use vstd::prelude::*;
use vstd::utf8::encode_utf8;

use crate::groups::group_manager::{GroupError, GroupSettings, GroupType};
use crate::groups::group_permissions::{default_grants, granted, unit_key, GrantView, PermissionKey};
use crate::primitives::{blake3_digest, hex_text};

verus! {

/// Where a member stands in a group, as plain values.
pub enum StatusView {
    Active,
    Invited,
    Muted { until: Option<u64> },
    Banned { reason: Seq<char>, until: Option<u64> },
    Left,
    Removed { reason: Seq<char> },
}

/// A member of a group as plain values.
pub struct MemberView {
    pub identity_id: Seq<u8>,
    pub identity_key: Seq<u8>,
    pub display_name: Seq<char>,
    pub role: PermissionKey,
    pub joined_at: u64,
    pub last_seen: u64,
    pub invited_by: Option<Seq<u8>>,
    pub member_status: StatusView,
    pub custom_permissions: Option<Set<PermissionKey>>,
}

/// What else is known of a group, as plain values.
pub struct MetadataView {
    pub avatar_hash: Option<Seq<char>>,
    pub tags: Seq<Seq<char>>,
    pub category: Option<Seq<char>>,
    pub external_links: Seq<Seq<char>>,
    pub custom_fields: Seq<(Seq<char>, Seq<char>)>,
}

/// A group as plain values. The members stand in the order in which they
/// came.
pub struct GroupView {
    pub id: Seq<u8>,
    pub name: Seq<char>,
    pub description: Seq<char>,
    pub group_type: GroupType,
    pub members: Seq<MemberView>,
    pub permissions: GrantView,
    pub settings: GroupSettings,
    pub metadata: MetadataView,
    pub created_at: u64,
    pub last_updated: u64,
    pub version: u64,
}

/// An invitation as plain values.
pub struct InvitationView {
    pub group_id: Seq<u8>,
    pub group_name: Seq<char>,
    pub inviter_id: Seq<u8>,
    pub inviter_name: Seq<char>,
    pub invitation_code: Seq<char>,
    pub expires_at: Option<u64>,
    pub max_uses: Option<u32>,
    pub current_uses: u32,
    pub created_at: u64,
}

/// The role of an owner.
pub open spec fn owner_role() -> PermissionKey {
    unit_key(0)
}

/// The role of a regular member.
pub open spec fn member_role() -> PermissionKey {
    unit_key(3)
}

/// The permission to add members.
pub open spec fn add_members() -> PermissionKey {
    unit_key(0)
}

/// The permission to remove members.
pub open spec fn remove_members() -> PermissionKey {
    unit_key(1)
}

/// The permission to change the roles of members.
pub open spec fn manage_roles() -> PermissionKey {
    unit_key(4)
}

/// The permission to change the settings of the group.
pub open spec fn manage_settings() -> PermissionKey {
    unit_key(7)
}

/// The permission to invite.
pub open spec fn create_invites() -> PermissionKey {
    unit_key(12)
}

/// Whether one of `members` has the identifier `id`.
pub open spec fn has_member(members: Seq<MemberView>, id: Seq<u8>) -> bool {
    exists|i: int| 0 <= i < members.len() && (#[trigger] members[i]).identity_id == id
}

/// Where among `members` the one with the identifier `id` stands.
pub open spec fn member_index(members: Seq<MemberView>, id: Seq<u8>) -> int {
    choose|i: int| 0 <= i < members.len() && (#[trigger] members[i]).identity_id == id
}

/// No two of `members` have the same identifier.
pub open spec fn distinct_members(members: Seq<MemberView>) -> bool {
    forall|i: int, j: int|
        0 <= i < j < members.len() ==> (#[trigger] members[i]).identity_id != (
        #[trigger] members[j]).identity_id
}

/// Whether one of `groups` has the identifier `id`.
pub open spec fn has_group(groups: Seq<GroupView>, id: Seq<u8>) -> bool {
    exists|i: int| 0 <= i < groups.len() && (#[trigger] groups[i]).id == id
}

/// Where among `groups` the one with the identifier `id` stands.
pub open spec fn group_index(groups: Seq<GroupView>, id: Seq<u8>) -> int {
    choose|i: int| 0 <= i < groups.len() && (#[trigger] groups[i]).id == id
}

/// No two of `groups` have the same identifier, and in none of them two
/// members have.
pub open spec fn distinct_groups(groups: Seq<GroupView>) -> bool {
    &&& forall|i: int, j: int|
        0 <= i < j < groups.len() ==> (#[trigger] groups[i]).id != (#[trigger] groups[j]).id
    &&& forall|i: int| 0 <= i < groups.len() ==> distinct_members((#[trigger] groups[i]).members)
}

/// In a sequence of distinct groups, a group is found where it stands.
pub proof fn lemma_group_index(groups: Seq<GroupView>, i: int)
    requires
        distinct_groups(groups),
        0 <= i < groups.len(),
    ensures
        has_group(groups, groups[i].id),
        group_index(groups, groups[i].id) == i,
{
    let p = group_index(groups, groups[i].id);
    assert(0 <= p < groups.len() && groups[p].id == groups[i].id);
    if p < i {
        assert(groups[p].id != groups[i].id);
    } else if i < p {
        assert(groups[i].id != groups[p].id);
    }
}

/// Among distinct members, a member is found where it stands.
pub proof fn lemma_member_index(members: Seq<MemberView>, i: int)
    requires
        distinct_members(members),
        0 <= i < members.len(),
    ensures
        has_member(members, members[i].identity_id),
        member_index(members, members[i].identity_id) == i,
{
    let p = member_index(members, members[i].identity_id);
    assert(0 <= p < members.len() && members[p].identity_id == members[i].identity_id);
    if p < i {
        assert(members[p].identity_id != members[i].identity_id);
    } else if i < p {
        assert(members[i].identity_id != members[p].identity_id);
    }
}

/// Why a member may not do what `permission` stands for, if anything
/// stands against it: the group must exist, the member must be in it and
/// active, and the permission must be among the member's own or among
/// those of the member's role.
pub open spec fn permission_refusal(
    groups: Seq<GroupView>,
    group_id: Seq<u8>,
    member_id: Seq<u8>,
    permission: PermissionKey,
) -> Option<GroupError> {
    if !has_group(groups, group_id) {
        Some(GroupError::GroupNotFound)
    } else {
        let group = groups[group_index(groups, group_id)];
        if !has_member(group.members, member_id) {
            Some(GroupError::MemberNotFound)
        } else {
            let member = group.members[member_index(group.members, member_id)];
            if !(member.member_status is Active) {
                Some(GroupError::MemberNotActive)
            } else if (member.custom_permissions matches Some(own) && own.contains(permission))
                || granted(group.permissions, member.role).contains(permission) {
                None
            } else {
                Some(GroupError::PermissionDenied)
            }
        }
    }
}

/// `"qubee_group_id"`: the label under which a group's identifier is derived.
pub open spec fn group_id_label() -> Seq<u8> {
    seq![113u8, 117, 98, 101, 101, 95, 103, 114, 111, 117, 112, 95, 105, 100]
}

/// `"qubee_invitation"`: the label under which an invitation's code is derived.
pub open spec fn invitation_label() -> Seq<u8> {
    seq![113u8, 117, 98, 101, 101, 95, 105, 110, 118, 105, 116, 97, 116, 105, 111, 110]
}

/// The identifier of the group that `creator_id` founds at time `now`
/// under `name`.
pub open spec fn group_id_of(name: Seq<char>, creator_id: Seq<u8>, now: u64) -> Seq<u8> {
    blake3_digest(encode_utf8(name) + creator_id + spec_u64_to_le_bytes(now) + group_id_label())
}

/// The code of the invitation to `group_id` that `admin_id` makes at time
/// `now`: sixteen bytes of a digest in hexadecimal.
pub open spec fn invitation_code_of(group_id: Seq<u8>, admin_id: Seq<u8>, now: u64) -> Seq<char> {
    hex_text(
        blake3_digest(group_id + admin_id + spec_u64_to_le_bytes(now) + invitation_label()).subrange(
            0,
            16,
        ),
    )
}

/// `"Creator"`, the name under which the founder of a group is shown.
pub open spec fn founder_name() -> Seq<char> {
    seq!['C', 'r', 'e', 'a', 't', 'o', 'r']
}

/// The founder of a group as a member: its owner, active from `now` on.
pub open spec fn founder(creator_id: Seq<u8>, creator_key: Seq<u8>, now: u64) -> MemberView {
    MemberView {
        identity_id: creator_id,
        identity_key: creator_key,
        display_name: founder_name(),
        role: owner_role(),
        joined_at: now,
        last_seen: now,
        invited_by: None,
        member_status: StatusView::Active,
        custom_permissions: None,
    }
}

/// A member who joins at `now`, brought in by `inviter`.
pub open spec fn joiner(
    member_id: Seq<u8>,
    member_key: Seq<u8>,
    display_name: Seq<char>,
    role: PermissionKey,
    inviter: Seq<u8>,
    now: u64,
) -> MemberView {
    MemberView {
        identity_id: member_id,
        identity_key: member_key,
        display_name,
        role,
        joined_at: now,
        last_seen: now,
        invited_by: Some(inviter),
        member_status: StatusView::Active,
        custom_permissions: None,
    }
}

/// Metadata that says nothing.
pub open spec fn no_metadata() -> MetadataView {
    MetadataView {
        avatar_hash: None,
        tags: Seq::empty(),
        category: None,
        external_links: Seq::empty(),
        custom_fields: Seq::empty(),
    }
}

/// The group that `creator_id` founds at time `now`: its identifier is
/// derived from the name, the founder and the time; the founder is its
/// only member; it has the default permissions and its first version.
pub open spec fn founded_group(
    creator_id: Seq<u8>,
    creator_key: Seq<u8>,
    name: Seq<char>,
    description: Seq<char>,
    group_type: GroupType,
    settings: GroupSettings,
    now: u64,
) -> GroupView {
    GroupView {
        id: group_id_of(name, creator_id, now),
        name,
        description,
        group_type,
        members: seq![founder(creator_id, creator_key, now)],
        permissions: default_grants(),
        settings,
        metadata: no_metadata(),
        created_at: now,
        last_updated: now,
        version: 1,
    }
}

/// The groups with `group` among them: in the place of the group that had
/// its identifier, or behind the others.
pub open spec fn with_group(groups: Seq<GroupView>, group: GroupView) -> Seq<GroupView> {
    if has_group(groups, group.id) {
        groups.update(group_index(groups, group.id), group)
    } else {
        groups.push(group)
    }
}

/// The group after a change at time `now`: one version on.
pub open spec fn touched(group: GroupView, now: u64) -> GroupView {
    GroupView { last_updated: now, version: (group.version + 1) as u64, ..group }
}

/// The group with one more member.
pub open spec fn with_member(group: GroupView, member: MemberView, now: u64) -> GroupView {
    touched(GroupView { members: group.members.push(member), ..group }, now)
}

/// The group after the member `member_id`, if there is one, got the
/// status `status` at time `now`.
pub open spec fn with_status(
    group: GroupView,
    member_id: Seq<u8>,
    status: StatusView,
    now: u64,
) -> GroupView {
    if has_member(group.members, member_id) {
        let at = member_index(group.members, member_id);
        let member = MemberView { member_status: status, last_seen: now, ..group.members[at] };
        touched(GroupView { members: group.members.update(at, member), ..group }, now)
    } else {
        touched(group, now)
    }
}

/// The group after the member `member_id`, if there is one, got the role
/// `role`.
pub open spec fn with_role(
    group: GroupView,
    member_id: Seq<u8>,
    role: PermissionKey,
    now: u64,
) -> GroupView {
    if has_member(group.members, member_id) {
        let at = member_index(group.members, member_id);
        let member = MemberView { role, ..group.members[at] };
        touched(GroupView { members: group.members.update(at, member), ..group }, now)
    } else {
        touched(group, now)
    }
}

/// The group with other settings.
pub open spec fn with_settings(group: GroupView, settings: GroupSettings, now: u64) -> GroupView {
    touched(GroupView { settings, ..group }, now)
}

/// Whether `member_id` is the owner of `group`.
pub open spec fn is_owner(group: GroupView, member_id: Seq<u8>) -> bool {
    has_member(group.members, member_id) && group.members[member_index(
        group.members,
        member_id,
    )].role == owner_role()
}

/// Whether `group` has as many members as its settings allow.
pub open spec fn is_full(group: GroupView) -> bool {
    group.settings.max_members matches Some(limit) && group.members.len() >= limit
}

/// Why `admin_id` may not add `member_id` to a group, if anything stands
/// against it.
pub open spec fn addition_error(
    groups: Seq<GroupView>,
    group_id: Seq<u8>,
    admin_id: Seq<u8>,
    member_id: Seq<u8>,
) -> Option<GroupError> {
    match permission_refusal(groups, group_id, admin_id, add_members()) {
        Some(e) => Some(e),
        None => {
            let group = groups[group_index(groups, group_id)];
            if has_member(group.members, member_id) {
                Some(GroupError::MemberAlreadyInGroup)
            } else if is_full(group) {
                Some(GroupError::MemberLimitReached)
            } else if group.version == u64::MAX {
                Some(GroupError::CounterExhausted)
            } else {
                None
            }
        },
    }
}

/// Why `admin_id` may not remove `member_id` from a group, if anything
/// stands against it.
pub open spec fn removal_error(
    groups: Seq<GroupView>,
    group_id: Seq<u8>,
    admin_id: Seq<u8>,
    member_id: Seq<u8>,
) -> Option<GroupError> {
    match permission_refusal(groups, group_id, admin_id, remove_members()) {
        Some(e) => Some(e),
        None => {
            let group = groups[group_index(groups, group_id)];
            if is_owner(group, member_id) {
                Some(GroupError::CannotRemoveOwner)
            } else if group.version == u64::MAX {
                Some(GroupError::CounterExhausted)
            } else {
                None
            }
        },
    }
}

/// Why `admin_id` may not change the role of `member_id`, if anything
/// stands against it.
pub open spec fn role_change_error(
    groups: Seq<GroupView>,
    group_id: Seq<u8>,
    admin_id: Seq<u8>,
    member_id: Seq<u8>,
) -> Option<GroupError> {
    match permission_refusal(groups, group_id, admin_id, manage_roles()) {
        Some(e) => Some(e),
        None => {
            let group = groups[group_index(groups, group_id)];
            if is_owner(group, member_id) {
                Some(GroupError::CannotChangeOwnerRole)
            } else if group.version == u64::MAX {
                Some(GroupError::CounterExhausted)
            } else {
                None
            }
        },
    }
}

/// Why `member_id` may not leave a group, if anything stands against it.
pub open spec fn departure_error(
    groups: Seq<GroupView>,
    group_id: Seq<u8>,
    member_id: Seq<u8>,
) -> Option<GroupError> {
    if !has_group(groups, group_id) {
        Some(GroupError::GroupNotFound)
    } else {
        let group = groups[group_index(groups, group_id)];
        if is_owner(group, member_id) {
            Some(GroupError::OwnerCannotLeave)
        } else if group.version == u64::MAX {
            Some(GroupError::CounterExhausted)
        } else {
            None
        }
    }
}

/// Why `admin_id` may not change the settings of a group, if anything
/// stands against it.
pub open spec fn settings_error(
    groups: Seq<GroupView>,
    group_id: Seq<u8>,
    admin_id: Seq<u8>,
) -> Option<GroupError> {
    match permission_refusal(groups, group_id, admin_id, manage_settings()) {
        Some(e) => Some(e),
        None => if groups[group_index(groups, group_id)].version == u64::MAX {
            Some(GroupError::CounterExhausted)
        } else {
            None
        },
    }
}

/// The groups after the one with the identifier `group_id` became `group`.
pub open spec fn with_changed(
    groups: Seq<GroupView>,
    group_id: Seq<u8>,
    group: GroupView,
) -> Seq<GroupView> {
    groups.update(group_index(groups, group_id), group)
}

/// The group among `groups` with the identifier `group_id`.
pub open spec fn group_of(groups: Seq<GroupView>, group_id: Seq<u8>) -> GroupView {
    groups[group_index(groups, group_id)]
}

/// The groups after `member` came to the group `group_id` at time `now`.
pub open spec fn after_addition(
    groups: Seq<GroupView>,
    group_id: Seq<u8>,
    member: MemberView,
    now: u64,
) -> Seq<GroupView> {
    with_changed(groups, group_id, with_member(group_of(groups, group_id), member, now))
}

/// The groups after the member `member_id` of the group `group_id`, if
/// there is one, got the status `status` at time `now`.
pub open spec fn after_status(
    groups: Seq<GroupView>,
    group_id: Seq<u8>,
    member_id: Seq<u8>,
    status: StatusView,
    now: u64,
) -> Seq<GroupView> {
    with_changed(
        groups,
        group_id,
        with_status(group_of(groups, group_id), member_id, status, now),
    )
}

/// The groups after the member `member_id` of the group `group_id`, if
/// there is one, got the role `role` at time `now`.
pub open spec fn after_role(
    groups: Seq<GroupView>,
    group_id: Seq<u8>,
    member_id: Seq<u8>,
    role: PermissionKey,
    now: u64,
) -> Seq<GroupView> {
    with_changed(groups, group_id, with_role(group_of(groups, group_id), member_id, role, now))
}

/// The groups after the group `group_id` got other settings at time `now`.
pub open spec fn after_settings(
    groups: Seq<GroupView>,
    group_id: Seq<u8>,
    settings: GroupSettings,
    now: u64,
) -> Seq<GroupView> {
    with_changed(groups, group_id, with_settings(group_of(groups, group_id), settings, now))
}

/// The invitation to `group` that its member `admin_id` makes at time `now`.
pub open spec fn invitation_to(
    group: GroupView,
    admin_id: Seq<u8>,
    expires_at: Option<u64>,
    max_uses: Option<u32>,
    now: u64,
) -> InvitationView {
    InvitationView {
        group_id: group.id,
        group_name: group.name,
        inviter_id: admin_id,
        inviter_name: group.members[member_index(group.members, admin_id)].display_name,
        invitation_code: invitation_code_of(group.id, admin_id, now),
        expires_at,
        max_uses,
        current_uses: 0,
        created_at: now,
    }
}

/// Where the latest of `invitations` with the code `code` stands, if
/// there is one.
pub open spec fn latest_invitation(invitations: Seq<InvitationView>, code: Seq<char>) -> Option<
    int,
>
    decreases invitations.len(),
{
    if invitations.len() == 0 {
        None
    } else if invitations.last().invitation_code == code {
        Some(invitations.len() - 1)
    } else {
        latest_invitation(invitations.drop_last(), code)
    }
}

/// Why `member_id` may not join by the invitation with the code `code` at
/// time `now`, if anything stands against it: the invitation must exist,
/// be in time and have uses left, and its inviter must still be allowed to
/// add the member.
pub open spec fn joining_error(
    groups: Seq<GroupView>,
    invitations: Seq<InvitationView>,
    code: Seq<char>,
    member_id: Seq<u8>,
    now: u64,
) -> Option<GroupError> {
    match latest_invitation(invitations, code) {
        None => Some(GroupError::InvitationNotFound),
        Some(at) => {
            let invitation = invitations[at];
            if invitation.expires_at matches Some(e) && now > e {
                Some(GroupError::InvitationExpired)
            } else if invitation.max_uses matches Some(m) && invitation.current_uses >= m {
                Some(GroupError::InvitationExhausted)
            } else if invitation.current_uses == u32::MAX {
                Some(GroupError::CounterExhausted)
            } else {
                addition_error(groups, invitation.group_id, invitation.inviter_id, member_id)
            }
        },
    }
}

/// An invitation after one more use.
pub open spec fn used_once(invitation: InvitationView) -> InvitationView {
    InvitationView { current_uses: (invitation.current_uses + 1) as u32, ..invitation }
}

/// Whether `member_id` is a member of `group` who neither left nor was
/// removed.
pub open spec fn is_current_member(group: GroupView, member_id: Seq<u8>) -> bool {
    has_member(group.members, member_id) && {
        let status = group.members[member_index(group.members, member_id)].member_status;
        !(status is Left) && !(status is Removed)
    }
}

/// Those of `groups` of which `member_id` is a current member, in order.
pub open spec fn groups_of(groups: Seq<GroupView>, member_id: Seq<u8>) -> Seq<GroupView>
    decreases groups.len(),
{
    if groups.len() == 0 {
        Seq::empty()
    } else if is_current_member(groups.last(), member_id) {
        groups_of(groups.drop_last(), member_id).push(groups.last())
    } else {
        groups_of(groups.drop_last(), member_id)
    }
}

/// Those of `members` who are active, in order.
pub open spec fn active_among(members: Seq<MemberView>) -> Seq<MemberView>
    decreases members.len(),
{
    if members.len() == 0 {
        Seq::empty()
    } else if members.last().member_status is Active {
        active_among(members.drop_last()).push(members.last())
    } else {
        active_among(members.drop_last())
    }
}

/// Whether the keys `after` are the keys `before` but for a new key of
/// the group `group_id`.
pub open spec fn rekeyed(
    before: Map<Seq<u8>, (Seq<u8>, u64)>,
    after: Map<Seq<u8>, (Seq<u8>, u64)>,
    group_id: Seq<u8>,
) -> bool {
    after.contains_key(group_id) && after == before.insert(group_id, after[group_id])
}

/// When the key of the group `group_id` was made.
pub open spec fn key_time(keys: Map<Seq<u8>, (Seq<u8>, u64)>, group_id: Seq<u8>) -> u64 {
    keys[group_id].1
}

/// When the group `group_id` changed last.
pub open spec fn change_time(groups: Seq<GroupView>, group_id: Seq<u8>) -> u64 {
    group_of(groups, group_id).last_updated
}

} // verus!
