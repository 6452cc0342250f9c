//! Groups: their identifiers, kinds, settings and members, and what a
//! member may do.

use vstd::bytes::u64_to_le_bytes;
use vstd::prelude::*;
use vstd::utf8::encode_utf8;

use crate::bytes::{array32, bytes_equal};
use crate::groups::group_crypto::{GroupCrypto, GroupCryptoError, GroupKeyView};
use crate::groups::group_model::{
    active_among, addition_error, after_addition, after_role, after_settings, after_status,
    change_time, create_invites, departure_error, distinct_groups, distinct_members,
    founded_group, founder_name, group_id_label, group_id_of, group_index, group_of, groups_of,
    has_group, has_member, invitation_code_of, invitation_label, invitation_to,
    is_current_member, is_owner, joiner, joining_error, key_time, latest_invitation,
    lemma_group_index, lemma_member_index, member_index, member_role, permission_refusal,
    rekeyed, removal_error, role_change_error, settings_error, touched, used_once, with_group,
    GroupView, InvitationView, MemberView, MetadataView, StatusView,
};
use crate::groups::group_permissions::{granted, GroupPermissions, Permission, PermissionSet, Role};
use crate::identity::identity_key::IdentityId;
use crate::primitives::{
    hasher_fed, hasher_finalize, hasher_new, hasher_update, hex_encode, hex_text, os_random_bytes,
    unix_time_secs,
};
use crate::security::secure_keystore::{freshly_sealed, opened_blob, MAX_SECRET_LEN};

verus! {

/// The identifier of a group.
#[derive(Clone, Copy, PartialEq, Eq, Hash, Debug)]
pub struct GroupId(pub [u8; 32]);

impl GroupId {
    /// The identifier with the bytes handed in.
    pub fn from_bytes(bytes: [u8; 32]) -> (out: Self)
        ensures
            out.0 == bytes,
    {
        GroupId(bytes)
    }

    /// The bytes of the identifier.
    pub fn as_bytes(&self) -> (out: &[u8; 32])
        ensures
            *out == self.0,
    {
        &self.0
    }

    /// The bytes of the identifier, as a slice.
    pub fn as_ref(&self) -> (out: &[u8])
        ensures
            out@ == self.0@,
    {
        self.0.as_slice()
    }

    /// The identifier for display: its first eight bytes in hexadecimal.
    pub fn label(&self) -> (out: String)
        ensures
            out@ == hex_text(self.0@.subrange(0, 8)),
    {
        hex_encode(vstd::slice::slice_subrange(self.0.as_slice(), 0, 8))
    }
}

/// What kind of group a group is.
#[derive(Clone, Copy, PartialEq, Eq, Debug, Structural)]
pub enum GroupType {
    /// Joined by invitation only.
    Private,
    /// Can be found and joined.
    Public,
    /// One speaks, many listen.
    Broadcast,
    /// Only administrators post.
    Announcement,
    /// Ends at a time set in advance.
    Temporary { expires_at: u64 },
}

/// Where a member stands in a group.
#[derive(Clone, PartialEq, Eq, Debug)]
pub enum MemberStatus {
    Active,
    /// Invited, not yet joined.
    Invited,
    Muted { until: Option<u64> },
    Banned { reason: String, until: Option<u64> },
    /// Left of their own accord.
    Left,
    /// Removed by an administrator.
    Removed { reason: String },
}

impl MemberStatus {
    /// Whether the member takes part in the group.
    pub fn is_active(&self) -> (out: bool)
        ensures
            out == (*self is Active),
    {
        match self {
            MemberStatus::Active => true,
            _ => false,
        }
    }
}

/// The settings of a group.
#[derive(Clone, Copy, Debug)]
pub struct GroupSettings {
    pub max_members: Option<usize>,
    /// For how many seconds messages are kept.
    pub message_history_retention: Option<u64>,
    pub allow_member_invites: bool,
    pub require_admin_approval: bool,
    /// After how many seconds messages disappear.
    pub disappearing_messages: Option<u64>,
    pub read_receipts_enabled: bool,
    pub typing_indicators_enabled: bool,
    pub file_sharing_enabled: bool,
    pub voice_calls_enabled: bool,
    pub video_calls_enabled: bool,
    pub screen_sharing_enabled: bool,
}

impl Default for GroupSettings {
    fn default() -> (out: Self)
        ensures
            out.max_members == Some(1000usize),
            out.message_history_retention is None,
            out.allow_member_invites,
            !out.require_admin_approval,
            out.disappearing_messages is None,
            out.read_receipts_enabled,
            out.typing_indicators_enabled,
            out.file_sharing_enabled,
            out.voice_calls_enabled,
            out.video_calls_enabled,
            !out.screen_sharing_enabled,
    {
        GroupSettings {
            max_members: Some(1000),
            message_history_retention: None,
            allow_member_invites: true,
            require_admin_approval: false,
            disappearing_messages: None,
            read_receipts_enabled: true,
            typing_indicators_enabled: true,
            file_sharing_enabled: true,
            voice_calls_enabled: true,
            video_calls_enabled: true,
            screen_sharing_enabled: false,
        }
    }
}

/// What else is known of a group.
pub struct GroupMetadata {
    pub avatar_hash: Option<String>,
    pub tags: Vec<String>,
    pub category: Option<String>,
    pub external_links: Vec<String>,
    pub custom_fields: Vec<(String, String)>,
}

impl Default for GroupMetadata {
    fn default() -> (out: Self)
        ensures
            out.avatar_hash is None,
            out.tags@.len() == 0,
            out.category is None,
            out.external_links@.len() == 0,
            out.custom_fields@.len() == 0,
    {
        GroupMetadata {
            avatar_hash: None,
            tags: Vec::new(),
            category: None,
            external_links: Vec::new(),
            custom_fields: Vec::new(),
        }
    }
}

/// An invitation to a group.
pub struct GroupInvitation {
    pub group_id: GroupId,
    pub group_name: String,
    pub inviter_id: IdentityId,
    pub inviter_name: String,
    pub invitation_code: String,
    pub expires_at: Option<u64>,
    pub max_uses: Option<u32>,
    pub current_uses: u32,
    pub created_at: u64,
}

/// Why a change to a group was refused.
#[derive(Clone, Copy, PartialEq, Eq, Debug, Structural)]
pub enum GroupError {
    /// There is no group with the identifier.
    GroupNotFound,
    /// The group has no member with the identifier.
    MemberNotFound,
    /// The member does not take part in the group at present.
    MemberNotActive,
    /// Neither the member's role nor the member's own permissions allow it.
    PermissionDenied,
    /// The group has a member with the identifier already.
    MemberAlreadyInGroup,
    /// The group has as many members as its settings allow.
    MemberLimitReached,
    /// The owner of a group cannot be removed.
    CannotRemoveOwner,
    /// The role of the owner cannot be changed.
    CannotChangeOwnerRole,
    /// The owner cannot leave the group.
    OwnerCannotLeave,
    /// There is no invitation with the code.
    InvitationNotFound,
    /// The invitation is out of time.
    InvitationExpired,
    /// The invitation has been used as often as it allows.
    InvitationExhausted,
    /// The version of the group, or the count of an invitation's uses, is
    /// at its end.
    CounterExhausted,
    /// The operating system gave no random bytes for the group's key.
    EntropyUnavailable,
}

/// Checks whether a member may do what `permission` stands for: the member
/// must be active, and the permission must be among the member's own
/// permissions or among those of the member's role.
pub fn check_member_permission(
    status: &MemberStatus,
    role: &Role,
    custom_permissions: &Option<PermissionSet>,
    permissions: &GroupPermissions,
    permission: &Permission,
) -> (out: Result<(), GroupError>)
    requires
        permissions.wf(),
    ensures
        !(*status is Active) ==> out == Err::<(), GroupError>(GroupError::MemberNotActive),
        *status is Active ==> out == if (custom_permissions matches Some(own) && own@.contains(
            permission@,
        )) || granted(permissions@, role@).contains(permission@) {
            Ok::<(), GroupError>(())
        } else {
            Err::<(), GroupError>(GroupError::PermissionDenied)
        },
{
    if !status.is_active() {
        return Err(GroupError::MemberNotActive);
    }
    match custom_permissions {
        Some(own) => {
            if own.contains(permission) {
                return Ok(());
            }
        },
        None => {},
    }
    if permissions.role_has_permission(role, permission) {
        Ok(())
    } else {
        Err(GroupError::PermissionDenied)
    }
}

impl View for MemberStatus {
    type V = StatusView;

    open spec fn view(&self) -> StatusView {
        match self {
            MemberStatus::Active => StatusView::Active,
            MemberStatus::Invited => StatusView::Invited,
            MemberStatus::Muted { until } => StatusView::Muted { until: *until },
            MemberStatus::Banned { reason, until } => StatusView::Banned {
                reason: reason@,
                until: *until,
            },
            MemberStatus::Left => StatusView::Left,
            MemberStatus::Removed { reason } => StatusView::Removed { reason: reason@ },
        }
    }
}

/// A member of a group.
pub struct GroupMember {
    pub identity_id: IdentityId,
    /// The member's public identity key.
    pub identity_key: Vec<u8>,
    pub display_name: String,
    pub role: Role,
    pub joined_at: u64,
    pub last_seen: u64,
    pub invited_by: Option<IdentityId>,
    pub member_status: MemberStatus,
    /// What the member may do beyond the member's role.
    pub custom_permissions: Option<PermissionSet>,
}

impl View for GroupMember {
    type V = MemberView;

    open spec fn view(&self) -> MemberView {
        MemberView {
            identity_id: self.identity_id.0@,
            identity_key: self.identity_key@,
            display_name: self.display_name@,
            role: self.role@,
            joined_at: self.joined_at,
            last_seen: self.last_seen,
            invited_by: match self.invited_by {
                Some(id) => Some(id.0@),
                None => None,
            },
            member_status: self.member_status@,
            custom_permissions: match self.custom_permissions {
                Some(own) => Some(own@),
                None => None,
            },
        }
    }
}

/// The text of `text`, if there is one.
pub open spec fn optional_text(text: Option<String>) -> Option<Seq<char>> {
    match text {
        Some(t) => Some(t@),
        None => None,
    }
}

impl View for GroupMetadata {
    type V = MetadataView;

    open spec fn view(&self) -> MetadataView {
        MetadataView {
            avatar_hash: optional_text(self.avatar_hash),
            tags: Seq::new(self.tags@.len(), |i: int| self.tags@[i]@),
            category: optional_text(self.category),
            external_links: Seq::new(self.external_links@.len(), |i: int| self.external_links@[i]@),
            custom_fields: Seq::new(
                self.custom_fields@.len(),
                |i: int| (self.custom_fields@[i].0@, self.custom_fields@[i].1@),
            ),
        }
    }
}

impl View for GroupInvitation {
    type V = InvitationView;

    open spec fn view(&self) -> InvitationView {
        InvitationView {
            group_id: self.group_id.0@,
            group_name: self.group_name@,
            inviter_id: self.inviter_id.0@,
            inviter_name: self.inviter_name@,
            invitation_code: self.invitation_code@,
            expires_at: self.expires_at,
            max_uses: self.max_uses,
            current_uses: self.current_uses,
            created_at: self.created_at,
        }
    }
}

/// The members of `members` as plain values, one for one.
pub open spec fn member_views(members: Seq<GroupMember>) -> Seq<MemberView> {
    Seq::new(members.len(), |i: int| members[i]@)
}

/// A group: what it is called, who is in it, and what its members may do.
pub struct Group {
    pub id: GroupId,
    pub name: String,
    pub description: String,
    pub group_type: GroupType,
    /// The members, in the order in which they came.
    pub members: Vec<GroupMember>,
    pub permissions: GroupPermissions,
    pub settings: GroupSettings,
    pub metadata: GroupMetadata,
    pub created_at: u64,
    pub last_updated: u64,
    /// How often the group has changed, starting at one.
    pub version: u64,
}

impl View for Group {
    type V = GroupView;

    open spec fn view(&self) -> GroupView {
        GroupView {
            id: self.id.0@,
            name: self.name@,
            description: self.description@,
            group_type: self.group_type,
            members: member_views(self.members@),
            permissions: self.permissions@,
            settings: self.settings,
            metadata: self.metadata@,
            created_at: self.created_at,
            last_updated: self.last_updated,
            version: self.version,
        }
    }
}

fn find_member(members: &Vec<GroupMember>, id: &IdentityId) -> (out: Option<usize>)
    requires
        distinct_members(member_views(members@)),
    ensures
        out is Some <==> has_member(member_views(members@), id.0@),
        out matches Some(at) ==> at < members@.len() && at == member_index(
            member_views(members@),
            id.0@,
        ),
{
    let mut i: usize = 0;
    while i < members.len()
        invariant
            i <= members@.len(),
            distinct_members(member_views(members@)),
            forall|j: int|
                0 <= j < i ==> (#[trigger] member_views(members@)[j]).identity_id != id.0@,
        decreases members@.len() - i,
    {
        if bytes_equal(members[i].identity_id.0.as_slice(), id.0.as_slice()) {
            proof {
                assert(member_views(members@)[i as int].identity_id == id.0@);
                lemma_member_index(member_views(members@), i as int);
            }
            return Some(i);
        }
        i += 1;
    }
    None
}

impl Group {
    /// No two members have the same identifier, and the permissions are in
    /// order.
    pub open spec fn wf(&self) -> bool {
        distinct_members(self@.members) && self.permissions.wf()
    }

    /// How many members the group has, whatever their status.
    pub fn member_count(&self) -> (out: usize)
        ensures
            out == self@.members.len(),
    {
        self.members.len()
    }

    /// The member with the identifier `id`, if the group has one.
    pub fn member(&self, id: &IdentityId) -> (out: Option<&GroupMember>)
        requires
            self.wf(),
        ensures
            out is Some <==> has_member(self@.members, id.0@),
            out matches Some(m) ==> m@ == self@.members[member_index(self@.members, id.0@)],
    {
        match find_member(&self.members, id) {
            Some(at) => Some(&self.members[at]),
            None => None,
        }
    }
}

/// The groups of `groups` as plain values, one for one.
pub open spec fn group_views(groups: Seq<Group>) -> Seq<GroupView> {
    Seq::new(groups.len(), |i: int| groups[i]@)
}

/// The invitations of `invitations` as plain values, one for one.
pub open spec fn invitation_views(invitations: Seq<GroupInvitation>) -> Seq<InvitationView> {
    Seq::new(invitations.len(), |i: int| invitations[i]@)
}

/// Thirty-two random bytes of the operating system for a group's key,
/// where it gives them.
fn fresh_key() -> (out: Option<[u8; 32]>) {
    match os_random_bytes(32) {
        Some(bytes) => Some(array32(bytes.as_slice())),
        None => None,
    }
}

/// Derives the identifier of a group from its name, its founder and the
/// time of its founding.
fn generate_group_id(name: &str, creator_id: &IdentityId, now: u64) -> (out: GroupId)
    ensures
        out.0@ == group_id_of(name@, creator_id.0@, now),
{
    let label: [u8; 14] = [113, 117, 98, 101, 101, 95, 103, 114, 111, 117, 112, 95, 105, 100];
    assert(label@ =~= group_id_label());
    let time = u64_to_le_bytes(now);
    let mut hasher = hasher_new();
    hasher_update(&mut hasher, name.as_bytes());
    hasher_update(&mut hasher, creator_id.0.as_slice());
    hasher_update(&mut hasher, time.as_slice());
    hasher_update(&mut hasher, label.as_slice());
    assert(hasher_fed(hasher) =~= encode_utf8(name@) + creator_id.0@ + time@ + label@);
    GroupId(hasher_finalize(&hasher))
}

/// Derives the code of an invitation from the group, the inviter and the
/// time of its making.
fn generate_invitation_code(group_id: &GroupId, admin_id: &IdentityId, now: u64) -> (out: String)
    ensures
        out@ == invitation_code_of(group_id.0@, admin_id.0@, now),
{
    let label: [u8; 16] = [
        113, 117, 98, 101, 101, 95, 105, 110, 118, 105, 116, 97, 116, 105, 111, 110,
    ];
    assert(label@ =~= invitation_label());
    let time = u64_to_le_bytes(now);
    let mut hasher = hasher_new();
    hasher_update(&mut hasher, group_id.0.as_slice());
    hasher_update(&mut hasher, admin_id.0.as_slice());
    hasher_update(&mut hasher, time.as_slice());
    hasher_update(&mut hasher, label.as_slice());
    assert(hasher_fed(hasher) =~= group_id.0@ + admin_id.0@ + time@ + label@);
    let digest = hasher_finalize(&hasher);
    hex_encode(vstd::slice::slice_subrange(digest.as_slice(), 0, 16))
}

/// The groups a party knows of, the invitations to them, and their keys.
pub struct GroupManager {
    groups: Vec<Group>,
    invitations: Vec<GroupInvitation>,
    group_crypto: GroupCrypto,
}

impl GroupManager {
    /// The groups, in the order in which they were founded.
    pub closed spec fn groups(&self) -> Seq<GroupView> {
        group_views(self.groups@)
    }

    /// The invitations, in the order in which they were made.
    pub closed spec fn invitations(&self) -> Seq<InvitationView> {
        invitation_views(self.invitations@)
    }

    /// The key of every group, with the time of its making.
    pub closed spec fn keys(&self) -> GroupKeyView {
        self.group_crypto@
    }

    /// No two groups have the same identifier, no group has two members
    /// with the same identifier, and the permissions and keys are in order.
    pub closed spec fn wf(&self) -> bool {
        &&& distinct_groups(self.groups())
        &&& forall|i: int| 0 <= i < self.groups@.len() ==> (#[trigger] self.groups@[i]).permissions.wf()
        &&& self.group_crypto.wf()
    }

    /// The groups of a manager in order are distinct.
    pub proof fn lemma_distinct(&self)
        requires
            self.wf(),
        ensures
            distinct_groups(self.groups()),
    {
    }

    /// A manager without groups.
    pub fn new() -> (out: Self)
        ensures
            out.wf(),
            out.groups() == Seq::<GroupView>::empty(),
            out.invitations() == Seq::<InvitationView>::empty(),
            out.keys() == GroupKeyView::empty(),
    {
        let group_crypto = match GroupCrypto::new() {
            Ok(crypto) => crypto,
            Err(_) => unreached(),
        };
        let out = GroupManager { groups: Vec::new(), invitations: Vec::new(), group_crypto };
        assert(out.groups() =~= Seq::<GroupView>::empty());
        assert(out.invitations() =~= Seq::<InvitationView>::empty());
        out
    }

    fn find_group(&self, id: &GroupId) -> (out: Option<usize>)
        requires
            self.wf(),
        ensures
            out is Some <==> has_group(self.groups(), id.0@),
            out matches Some(at) ==> at < self.groups@.len() && at == group_index(
                self.groups(),
                id.0@,
            ),
    {
        let mut i: usize = 0;
        while i < self.groups.len()
            invariant
                self.wf(),
                i <= self.groups@.len(),
                forall|j: int| 0 <= j < i ==> (#[trigger] self.groups()[j]).id != id.0@,
            decreases self.groups@.len() - i,
        {
            if bytes_equal(self.groups[i].id.0.as_slice(), id.0.as_slice()) {
                proof {
                    assert(self.groups()[i as int].id == id.0@);
                    lemma_group_index(self.groups(), i as int);
                }
                return Some(i);
            }
            i += 1;
        }
        None
    }

    /// The group with the identifier `group_id`, if there is one.
    pub fn get_group(&self, group_id: &GroupId) -> (out: Option<&Group>)
        requires
            self.wf(),
        ensures
            out is Some <==> has_group(self.groups(), group_id.0@),
            out matches Some(g) ==> g@ == group_of(self.groups(), group_id.0@) && g.wf(),
    {
        match self.find_group(group_id) {
            Some(at) => {
                assert(self.groups()[at as int] == self.groups@[at as int]@);
                Some(&self.groups[at])
            },
            None => None,
        }
    }

    /// Checks whether a member may do what `permission` stands for in a
    /// group.
    pub fn check_permission(
        &self,
        group_id: GroupId,
        member_id: IdentityId,
        permission: Permission,
    ) -> (out: Result<(), GroupError>)
        requires
            self.wf(),
        ensures
            out == match permission_refusal(
                self.groups(),
                group_id.0@,
                member_id.0@,
                permission@,
            ) {
                Some(e) => Err::<(), GroupError>(e),
                None => Ok::<(), GroupError>(()),
            },
    {
        let group = match self.get_group(&group_id) {
            Some(g) => g,
            None => {
                return Err(GroupError::GroupNotFound);
            },
        };
        let member = match group.member(&member_id) {
            Some(m) => m,
            None => {
                return Err(GroupError::MemberNotFound);
            },
        };
        check_member_permission(
            &member.member_status,
            &member.role,
            &member.custom_permissions,
            &group.permissions,
            &permission,
        )
    }

    proof fn lemma_changed(&self, before: &GroupManager, at: int, group: Group)
        requires
            before.wf(),
            0 <= at < before.groups@.len(),
            self.groups@ == before.groups@.remove(at).insert(at, group),
            self.group_crypto.wf(),
            group.wf(),
            group.id.0@ == before.groups@[at].id.0@,
        ensures
            self.wf(),
            self.groups() == before.groups().update(at, group@),
    {
        let old_groups = before.groups();
        let new_groups = self.groups();
        assert(self.groups@ =~= before.groups@.update(at, group));
        assert(new_groups =~= old_groups.update(at, group@));
        assert forall|i: int, j: int| 0 <= i < j < new_groups.len() implies (
        #[trigger] new_groups[i]).id != (#[trigger] new_groups[j]).id by {
            assert(new_groups[i].id == old_groups[i].id);
            assert(new_groups[j].id == old_groups[j].id);
        }
        assert forall|i: int| 0 <= i < new_groups.len() implies distinct_members(
            (#[trigger] new_groups[i]).members,
        ) by {
            if i != at {
                assert(new_groups[i] == old_groups[i]);
            }
        }
        assert forall|i: int| 0 <= i < self.groups@.len() implies (
        #[trigger] self.groups@[i]).permissions.wf() by {
            if i != at {
                assert(self.groups@[i] == before.groups@[i]);
            }
        }
    }

    /// Founds a group at time `now`, with `creator_id` as its owner and
    /// only member, and gives it the key `key`. A group that had the same
    /// identifier gives way to the new one.
    pub fn create_group_with(
        &mut self,
        creator_id: IdentityId,
        creator_key: Vec<u8>,
        name: String,
        description: String,
        group_type: GroupType,
        settings: GroupSettings,
        key: [u8; 32],
        now: u64,
    ) -> (out: GroupId)
        requires
            old(self).wf(),
        ensures
            final(self).wf(),
            out.0@ == group_id_of(name@, creator_id.0@, now),
            final(self).groups() == with_group(
                old(self).groups(),
                founded_group(
                    creator_id.0@,
                    creator_key@,
                    name@,
                    description@,
                    group_type,
                    settings,
                    now,
                ),
            ),
            final(self).keys() == old(self).keys().insert(out.0@, (key@, now)),
            final(self).invitations() == old(self).invitations(),
    {
        let group_id = generate_group_id(name.as_str(), &creator_id, now);
        let creator = GroupMember {
            identity_id: creator_id,
            identity_key: creator_key,
            display_name: "Creator".to_string(),
            role: Role::Owner,
            joined_at: now,
            last_seen: now,
            invited_by: None,
            member_status: MemberStatus::Active,
            custom_permissions: None,
        };
        proof {
            reveal_strlit("Creator");
            assert(creator.display_name@ =~= founder_name());
        }
        let mut members: Vec<GroupMember> = Vec::new();
        members.push(creator);
        let group = Group {
            id: group_id,
            name,
            description,
            group_type,
            members,
            permissions: GroupPermissions::default(),
            settings,
            metadata: GroupMetadata::default(),
            created_at: now,
            last_updated: now,
            version: 1,
        };
        let ghost founded = founded_group(
            creator_id.0@,
            creator_key@,
            name@,
            description@,
            group_type,
            settings,
            now,
        );
        proof {
            assert(group@.members =~= founded.members);
            assert(group@.metadata.tags =~= Seq::<Seq<char>>::empty());
            assert(group@.metadata.external_links =~= Seq::<Seq<char>>::empty());
            assert(group@.metadata.custom_fields =~= Seq::<(Seq<char>, Seq<char>)>::empty());
            assert(group@ == founded);
        }
        let place = self.find_group(&group_id);
        self.group_crypto.create_group_key_with(group_id, key, now);
        match place {
            Some(at) => {
                let _ = self.groups.remove(at);
                self.groups.insert(at, group);
                proof {
                    self.lemma_changed(old(self), at as int, group);
                }
            },
            None => {
                self.groups.push(group);
                proof {
                    let old_groups = old(self).groups();
                    let new_groups = self.groups();
                    assert(new_groups =~= old_groups.push(group@));
                    assert forall|i: int, j: int| 0 <= i < j < new_groups.len() implies (
                    #[trigger] new_groups[i]).id != (#[trigger] new_groups[j]).id by {
                        assert(new_groups[i] == old_groups[i]);
                        if j < old_groups.len() {
                            assert(new_groups[j] == old_groups[j]);
                        }
                    }
                    assert forall|i: int| 0 <= i < new_groups.len() implies distinct_members(
                        (#[trigger] new_groups[i]).members,
                    ) by {
                        if i < old_groups.len() {
                            assert(new_groups[i] == old_groups[i]);
                        }
                    }
                    assert forall|i: int| 0 <= i < self.groups@.len() implies (
                    #[trigger] self.groups@[i]).permissions.wf() by {
                        if i < old_groups.len() {
                            assert(self.groups@[i] == old(self).groups@[i]);
                        }
                    }
                }
            },
        }
        group_id
    }

    /// Adds a member to a group at time `now` and replaces the group's key
    /// by `key`. The one who adds must be allowed to; the one who is added
    /// must be new to the group, and the group must have room.
    pub fn add_member_with(
        &mut self,
        group_id: GroupId,
        admin_id: IdentityId,
        new_member_id: IdentityId,
        new_member_key: Vec<u8>,
        display_name: String,
        role: Role,
        key: [u8; 32],
        now: u64,
    ) -> (out: Result<(), GroupError>)
        requires
            old(self).wf(),
        ensures
            final(self).wf(),
            final(self).invitations() == old(self).invitations(),
            match addition_error(old(self).groups(), group_id.0@, admin_id.0@, new_member_id.0@) {
                Some(e) => out == Err::<(), GroupError>(e) && final(self).groups() == old(self).groups() && final(self).keys() == old(self).keys(),
                None => out is Ok && final(self).groups() == after_addition(
                    old(self).groups(),
                    group_id.0@,
                    joiner(
                        new_member_id.0@,
                        new_member_key@,
                        display_name@,
                        role@,
                        admin_id.0@,
                        now,
                    ),
                    now,
                ) && final(self).keys() == old(self).keys().insert(group_id.0@, (key@, now)),
            },
    {
        match self.check_permission(group_id, admin_id, Permission::AddMembers) {
            Err(e) => {
                return Err(e);
            },
            Ok(()) => {},
        }
        let at = match self.find_group(&group_id) {
            Some(at) => at,
            None => {
                return Err(GroupError::GroupNotFound);
            },
        };
        assert(self.groups()[at as int] == self.groups@[at as int]@);
        if find_member(&self.groups[at].members, &new_member_id).is_some() {
            return Err(GroupError::MemberAlreadyInGroup);
        }
        match self.groups[at].settings.max_members {
            Some(limit) => {
                if self.groups[at].members.len() >= limit {
                    return Err(GroupError::MemberLimitReached);
                }
            },
            None => {},
        }
        if self.groups[at].version == u64::MAX {
            return Err(GroupError::CounterExhausted);
        }
        let member = GroupMember {
            identity_id: new_member_id,
            identity_key: new_member_key,
            display_name,
            role,
            joined_at: now,
            last_seen: now,
            invited_by: Some(admin_id),
            member_status: MemberStatus::Active,
            custom_permissions: None,
        };
        let mut group = self.groups.remove(at);
        let ghost before = group@;
        group.members.push(member);
        group.last_updated = now;
        group.version = group.version + 1;
        proof {
            let after = group@.members;
            assert(after =~= before.members.push(member@));
            assert forall|i: int, j: int| 0 <= i < j < after.len() implies (
            #[trigger] after[i]).identity_id != (#[trigger] after[j]).identity_id by {
                assert(after[i] == before.members[i]);
                if j < before.members.len() {
                    assert(after[j] == before.members[j]);
                }
            }
        }
        self.groups.insert(at, group);
        let _ = self.group_crypto.rotate_group_key_with(group_id, key, now);
        proof {
            self.lemma_changed(old(self), at as int, group);
        }
        Ok(())
    }

    /// Removes a member from a group at time `now`, for the reason given,
    /// and replaces the group's key by `key`. The member stays on the
    /// group's list, as removed. The owner cannot be removed.
    pub fn remove_member_with(
        &mut self,
        group_id: GroupId,
        admin_id: IdentityId,
        member_id: IdentityId,
        reason: String,
        key: [u8; 32],
        now: u64,
    ) -> (out: Result<(), GroupError>)
        requires
            old(self).wf(),
        ensures
            final(self).wf(),
            final(self).invitations() == old(self).invitations(),
            match removal_error(old(self).groups(), group_id.0@, admin_id.0@, member_id.0@) {
                Some(e) => out == Err::<(), GroupError>(e) && final(self).groups() == old(self).groups() && final(self).keys() == old(self).keys(),
                None => out is Ok && final(self).groups() == after_status(
                    old(self).groups(),
                    group_id.0@,
                    member_id.0@,
                    StatusView::Removed { reason: reason@ },
                    now,
                ) && final(self).keys() == old(self).keys().insert(group_id.0@, (key@, now)),
            },
    {
        match self.check_permission(group_id, admin_id, Permission::RemoveMembers) {
            Err(e) => {
                return Err(e);
            },
            Ok(()) => {},
        }
        let at = match self.find_group(&group_id) {
            Some(at) => at,
            None => {
                return Err(GroupError::GroupNotFound);
            },
        };
        assert(self.groups()[at as int] == self.groups@[at as int]@);
        let place = find_member(&self.groups[at].members, &member_id);
        match place {
            Some(m) => {
                if self.groups[at].members[m].role.is_owner() {
                    return Err(GroupError::CannotRemoveOwner);
                }
            },
            None => {},
        }
        if self.groups[at].version == u64::MAX {
            return Err(GroupError::CounterExhausted);
        }
        self.set_status(at, place, MemberStatus::Removed { reason }, now);
        let _ = self.group_crypto.rotate_group_key_with(group_id, key, now);
        Ok(())
    }

    /// Gives the member at `place` of the group at `at` a status, and
    /// moves the group one version on.
    fn set_status(&mut self, at: usize, place: Option<usize>, status: MemberStatus, now: u64)
        requires
            old(self).wf(),
            at < old(self).groups@.len(),
            old(self).groups@[at as int].version < u64::MAX,
            place matches Some(m) ==> m < old(self).groups@[at as int].members@.len(),
        ensures
            final(self).wf(),
            final(self).invitations() == old(self).invitations(),
            final(self).keys() == old(self).keys(),
            final(self).groups@.len() == old(self).groups@.len(),
            final(self).groups() == old(self).groups().update(
                at as int,
                match place {
                    Some(m) => touched(
                        GroupView {
                            members: old(self).groups()[at as int].members.update(
                                m as int,
                                MemberView {
                                    member_status: status@,
                                    last_seen: now,
                                    ..old(self).groups()[at as int].members[m as int]
                                },
                            ),
                            ..old(self).groups()[at as int]
                        },
                        now,
                    ),
                    None => touched(old(self).groups()[at as int], now),
                },
            ),
    {
        assert(self.groups()[at as int] == self.groups@[at as int]@);
        let mut group = self.groups.remove(at);
        let ghost before = group@;
        match place {
            Some(m) => {
                let mut member = group.members.remove(m);
                member.member_status = status;
                member.last_seen = now;
                group.members.insert(m, member);
                proof {
                    let after = group@.members;
                    assert(after =~= before.members.update(m as int, member@));
                    assert forall|i: int, j: int| 0 <= i < j < after.len() implies (
                    #[trigger] after[i]).identity_id != (#[trigger] after[j]).identity_id by {
                        assert(after[i].identity_id == before.members[i].identity_id);
                        assert(after[j].identity_id == before.members[j].identity_id);
                    }
                }
            },
            None => {
                assert(group@.members =~= before.members);
            },
        }
        group.last_updated = now;
        group.version = group.version + 1;
        self.groups.insert(at, group);
        proof {
            self.lemma_changed(old(self), at as int, group);
        }
    }

    /// Lets a member leave a group at time `now` and replaces the group's
    /// key by `key`. The member stays on the group's list, as one who left.
    /// The owner cannot leave.
    pub fn leave_group_with(
        &mut self,
        group_id: GroupId,
        member_id: IdentityId,
        key: [u8; 32],
        now: u64,
    ) -> (out: Result<(), GroupError>)
        requires
            old(self).wf(),
        ensures
            final(self).wf(),
            final(self).invitations() == old(self).invitations(),
            match departure_error(old(self).groups(), group_id.0@, member_id.0@) {
                Some(e) => out == Err::<(), GroupError>(e) && final(self).groups() == old(self).groups() && final(self).keys() == old(self).keys(),
                None => out is Ok && final(self).groups() == after_status(
                    old(self).groups(),
                    group_id.0@,
                    member_id.0@,
                    StatusView::Left,
                    now,
                ) && final(self).keys() == old(self).keys().insert(group_id.0@, (key@, now)),
            },
    {
        let at = match self.find_group(&group_id) {
            Some(at) => at,
            None => {
                return Err(GroupError::GroupNotFound);
            },
        };
        assert(self.groups()[at as int] == self.groups@[at as int]@);
        let place = find_member(&self.groups[at].members, &member_id);
        match place {
            Some(m) => {
                if self.groups[at].members[m].role.is_owner() {
                    return Err(GroupError::OwnerCannotLeave);
                }
            },
            None => {},
        }
        if self.groups[at].version == u64::MAX {
            return Err(GroupError::CounterExhausted);
        }
        self.set_status(at, place, MemberStatus::Left, now);
        let _ = self.group_crypto.rotate_group_key_with(group_id, key, now);
        Ok(())
    }

    /// Gives a member of a group another role at time `now`. The one who
    /// does so must be allowed to manage roles; the owner's role cannot be
    /// changed.
    pub fn update_member_role_at(
        &mut self,
        group_id: GroupId,
        admin_id: IdentityId,
        member_id: IdentityId,
        new_role: Role,
        now: u64,
    ) -> (out: Result<(), GroupError>)
        requires
            old(self).wf(),
        ensures
            final(self).wf(),
            final(self).invitations() == old(self).invitations(),
            final(self).keys() == old(self).keys(),
            match role_change_error(old(self).groups(), group_id.0@, admin_id.0@, member_id.0@) {
                Some(e) => out == Err::<(), GroupError>(e) && final(self).groups() == old(self).groups(),
                None => out is Ok && final(self).groups() == after_role(
                    old(self).groups(),
                    group_id.0@,
                    member_id.0@,
                    new_role@,
                    now,
                ),
            },
    {
        match self.check_permission(group_id, admin_id, Permission::ManageRoles) {
            Err(e) => {
                return Err(e);
            },
            Ok(()) => {},
        }
        let at = match self.find_group(&group_id) {
            Some(at) => at,
            None => {
                return Err(GroupError::GroupNotFound);
            },
        };
        assert(self.groups()[at as int] == self.groups@[at as int]@);
        let place = find_member(&self.groups[at].members, &member_id);
        match place {
            Some(m) => {
                if self.groups[at].members[m].role.is_owner() {
                    return Err(GroupError::CannotChangeOwnerRole);
                }
            },
            None => {},
        }
        if self.groups[at].version == u64::MAX {
            return Err(GroupError::CounterExhausted);
        }
        let mut group = self.groups.remove(at);
        let ghost before = group@;
        match place {
            Some(m) => {
                let mut member = group.members.remove(m);
                member.role = new_role;
                group.members.insert(m, member);
                proof {
                    let after = group@.members;
                    assert(after =~= before.members.update(m as int, member@));
                    assert forall|i: int, j: int| 0 <= i < j < after.len() implies (
                    #[trigger] after[i]).identity_id != (#[trigger] after[j]).identity_id by {
                        assert(after[i].identity_id == before.members[i].identity_id);
                        assert(after[j].identity_id == before.members[j].identity_id);
                    }
                }
            },
            None => {
                assert(group@.members =~= before.members);
            },
        }
        group.last_updated = now;
        group.version = group.version + 1;
        self.groups.insert(at, group);
        proof {
            self.lemma_changed(old(self), at as int, group);
        }
        Ok(())
    }

    /// Gives a group other settings at time `now`. The one who does so
    /// must be allowed to manage the settings.
    pub fn update_group_settings_at(
        &mut self,
        group_id: GroupId,
        admin_id: IdentityId,
        new_settings: GroupSettings,
        now: u64,
    ) -> (out: Result<(), GroupError>)
        requires
            old(self).wf(),
        ensures
            final(self).wf(),
            final(self).invitations() == old(self).invitations(),
            final(self).keys() == old(self).keys(),
            match settings_error(old(self).groups(), group_id.0@, admin_id.0@) {
                Some(e) => out == Err::<(), GroupError>(e) && final(self).groups() == old(self).groups(),
                None => out is Ok && final(self).groups() == after_settings(
                    old(self).groups(),
                    group_id.0@,
                    new_settings,
                    now,
                ),
            },
    {
        match self.check_permission(group_id, admin_id, Permission::ManageSettings) {
            Err(e) => {
                return Err(e);
            },
            Ok(()) => {},
        }
        let at = match self.find_group(&group_id) {
            Some(at) => at,
            None => {
                return Err(GroupError::GroupNotFound);
            },
        };
        assert(self.groups()[at as int] == self.groups@[at as int]@);
        if self.groups[at].version == u64::MAX {
            return Err(GroupError::CounterExhausted);
        }
        let mut group = self.groups.remove(at);
        let ghost before = group@;
        group.settings = new_settings;
        group.last_updated = now;
        group.version = group.version + 1;
        assert(group@.members =~= before.members);
        self.groups.insert(at, group);
        proof {
            self.lemma_changed(old(self), at as int, group);
        }
        Ok(())
    }

    /// Makes an invitation to a group at time `now` and keeps it. The one
    /// who invites must be allowed to.
    pub fn create_invitation_at(
        &mut self,
        group_id: GroupId,
        admin_id: IdentityId,
        expires_at: Option<u64>,
        max_uses: Option<u32>,
        now: u64,
    ) -> (out: Result<GroupInvitation, GroupError>)
        requires
            old(self).wf(),
        ensures
            final(self).wf(),
            final(self).groups() == old(self).groups(),
            final(self).keys() == old(self).keys(),
            match permission_refusal(
                old(self).groups(),
                group_id.0@,
                admin_id.0@,
                create_invites(),
            ) {
                Some(e) => out == Err::<GroupInvitation, GroupError>(e) && final(self).invitations() == old(self).invitations(),
                None => out matches Ok(invitation) && invitation@ == invitation_to(
                    group_of(old(self).groups(), group_id.0@),
                    admin_id.0@,
                    expires_at,
                    max_uses,
                    now,
                ) && final(self).invitations() == old(self).invitations().push(invitation@),
            },
    {
        match self.check_permission(group_id, admin_id, Permission::CreateInvites) {
            Err(e) => {
                return Err(e);
            },
            Ok(()) => {},
        }
        let group = match self.get_group(&group_id) {
            Some(g) => g,
            None => {
                return Err(GroupError::GroupNotFound);
            },
        };
        let admin = match group.member(&admin_id) {
            Some(m) => m,
            None => {
                return Err(GroupError::MemberNotFound);
            },
        };
        let code = generate_invitation_code(&group_id, &admin_id, now);
        let kept = GroupInvitation {
            group_id,
            group_name: group.name.clone(),
            inviter_id: admin_id,
            inviter_name: admin.display_name.clone(),
            invitation_code: code.clone(),
            expires_at,
            max_uses,
            current_uses: 0,
            created_at: now,
        };
        let invitation = GroupInvitation {
            group_id,
            group_name: group.name.clone(),
            inviter_id: admin_id,
            inviter_name: admin.display_name.clone(),
            invitation_code: code,
            expires_at,
            max_uses,
            current_uses: 0,
            created_at: now,
        };
        self.invitations.push(kept);
        proof {
            assert(self.invitations() =~= old(self).invitations().push(invitation@));
            assert(self.groups() =~= old(self).groups());
        }
        Ok(invitation)
    }

    fn find_invitation(&self, code: &String) -> (out: Option<usize>)
        ensures
            out matches Some(at) ==> at < self.invitations@.len() && latest_invitation(
                self.invitations(),
                code@,
            ) == Some(at as int),
            out is None ==> latest_invitation(self.invitations(), code@) is None,
    {
        let mut i: usize = self.invitations.len();
        assert(self.invitations().take(i as int) =~= self.invitations());
        while i > 0
            invariant
                i <= self.invitations@.len(),
                latest_invitation(self.invitations(), code@) == latest_invitation(
                    self.invitations().take(i as int),
                    code@,
                ),
            decreases i,
        {
            let ghost prefix = self.invitations().take(i as int);
            assert(prefix.last() == self.invitations@[i - 1]@);
            if self.invitations[i - 1].invitation_code == *code {
                return Some(i - 1);
            }
            assert(prefix.drop_last() =~= self.invitations().take(i - 1));
            i -= 1;
        }
        assert(self.invitations().take(0) =~= Seq::<InvitationView>::empty());
        None
    }

    /// Lets `member_id` join a group at time `now` by the invitation with
    /// the code `invitation_code`, as a regular member brought in by the
    /// inviter, and replaces the group's key by `key`. The invitation must
    /// be in time and have uses left; it then counts one more use.
    pub fn join_group_with_invitation_with(
        &mut self,
        invitation_code: String,
        member_id: IdentityId,
        member_key: Vec<u8>,
        display_name: String,
        key: [u8; 32],
        now: u64,
    ) -> (out: Result<GroupId, GroupError>)
        requires
            old(self).wf(),
        ensures
            final(self).wf(),
            match joining_error(
                old(self).groups(),
                old(self).invitations(),
                invitation_code@,
                member_id.0@,
                now,
            ) {
                Some(e) => out == Err::<GroupId, GroupError>(e) && final(self).groups() == old(self).groups() && final(self).keys() == old(self).keys() && final(self).invitations() == old(self).invitations(),
                None => {
                    let at = latest_invitation(old(self).invitations(), invitation_code@)->Some_0;
                    let invitation = old(self).invitations()[at];
                    &&& out matches Ok(id) && id.0@ == invitation.group_id
                    &&& final(self).groups() == after_addition(
                        old(self).groups(),
                        invitation.group_id,
                        joiner(
                            member_id.0@,
                            member_key@,
                            display_name@,
                            member_role(),
                            invitation.inviter_id,
                            now,
                        ),
                        now,
                    )
                    &&& final(self).keys() == old(self).keys().insert(
                        invitation.group_id,
                        (key@, now),
                    )
                    &&& final(self).invitations() == old(self).invitations().update(
                        at,
                        used_once(invitation),
                    )
                },
            },
    {
        let at = match self.find_invitation(&invitation_code) {
            Some(at) => at,
            None => {
                return Err(GroupError::InvitationNotFound);
            },
        };
        assert(self.invitations()[at as int] == self.invitations@[at as int]@);
        match self.invitations[at].expires_at {
            Some(e) => {
                if now > e {
                    return Err(GroupError::InvitationExpired);
                }
            },
            None => {},
        }
        match self.invitations[at].max_uses {
            Some(m) => {
                if self.invitations[at].current_uses >= m {
                    return Err(GroupError::InvitationExhausted);
                }
            },
            None => {},
        }
        if self.invitations[at].current_uses == u32::MAX {
            return Err(GroupError::CounterExhausted);
        }
        let group_id = self.invitations[at].group_id;
        let inviter_id = self.invitations[at].inviter_id;
        match self.add_member_with(
            group_id,
            inviter_id,
            member_id,
            member_key,
            display_name,
            Role::Member,
            key,
            now,
        ) {
            Err(e) => {
                return Err(e);
            },
            Ok(()) => {},
        }
        let ghost kept = self.invitations@;
        assert(self.invitations().len() == old(self).invitations().len());
        assert(self.invitations()[at as int] == kept[at as int]@);
        let mut invitation = self.invitations.remove(at);
        invitation.current_uses = invitation.current_uses + 1;
        self.invitations.insert(at, invitation);
        proof {
            assert(self.invitations@ =~= kept.update(at as int, invitation));
            assert forall|i: int| 0 <= i < kept.len() && i != at implies (
            #[trigger] self.invitations()[i]) == old(self).invitations()[i] by {
                assert(self.invitations()[i] == kept[i]@);
                assert(invitation_views(kept)[i] == kept[i]@);
            }
            assert(self.invitations() =~= old(self).invitations().update(
                at as int,
                used_once(old(self).invitations()[at as int]),
            ));
        }
        Ok(group_id)
    }

    /// The groups of which `member_id` is a member who neither left nor
    /// was removed, in the order in which they were founded.
    pub fn get_member_groups(&self, member_id: &IdentityId) -> (out: Vec<&Group>)
        requires
            self.wf(),
        ensures
            out@.len() == groups_of(self.groups(), member_id.0@).len(),
            forall|i: int|
                0 <= i < out@.len() ==> (#[trigger] out@[i])@ == groups_of(
                    self.groups(),
                    member_id.0@,
                )[i],
    {
        let mut out: Vec<&Group> = Vec::new();
        let mut i: usize = 0;
        while i < self.groups.len()
            invariant
                self.wf(),
                i <= self.groups@.len(),
                out@.len() == groups_of(self.groups().take(i as int), member_id.0@).len(),
                forall|j: int|
                    0 <= j < out@.len() ==> (#[trigger] out@[j])@ == groups_of(
                        self.groups().take(i as int),
                        member_id.0@,
                    )[j],
            decreases self.groups@.len() - i,
        {
            let ghost prefix = self.groups().take(i + 1);
            assert(prefix.last() == self.groups@[i as int]@);
            assert(prefix.drop_last() =~= self.groups().take(i as int));
            let group = &self.groups[i];
            let current = match find_member(&group.members, member_id) {
                Some(m) => match group.members[m].member_status {
                    MemberStatus::Left => false,
                    MemberStatus::Removed { .. } => false,
                    _ => true,
                },
                None => false,
            };
            assert(current == is_current_member(group@, member_id.0@));
            if current {
                out.push(group);
            }
            i += 1;
        }
        assert(self.groups().take(i as int) =~= self.groups());
        out
    }

    /// The active members of a group, in the order in which they came;
    /// none where there is no such group.
    pub fn get_active_members(&self, group_id: &GroupId) -> (out: Vec<&GroupMember>)
        requires
            self.wf(),
        ensures
            !has_group(self.groups(), group_id.0@) ==> out@.len() == 0,
            has_group(self.groups(), group_id.0@) ==> out@.len() == active_among(
                group_of(self.groups(), group_id.0@).members,
            ).len() && forall|i: int|
                0 <= i < out@.len() ==> (#[trigger] out@[i])@ == active_among(
                    group_of(self.groups(), group_id.0@).members,
                )[i],
    {
        let mut out: Vec<&GroupMember> = Vec::new();
        let group = match self.get_group(group_id) {
            Some(g) => g,
            None => {
                return out;
            },
        };
        let mut i: usize = 0;
        while i < group.members.len()
            invariant
                i <= group.members@.len(),
                out@.len() == active_among(group@.members.take(i as int)).len(),
                forall|j: int|
                    0 <= j < out@.len() ==> (#[trigger] out@[j])@ == active_among(
                        group@.members.take(i as int),
                    )[j],
            decreases group.members@.len() - i,
        {
            let ghost prefix = group@.members.take(i + 1);
            assert(prefix.last() == group.members@[i as int]@);
            assert(prefix.drop_last() =~= group@.members.take(i as int));
            if group.members[i].member_status.is_active() {
                out.push(&group.members[i]);
            }
            i += 1;
        }
        assert(group@.members.take(i as int) =~= group@.members);
        out
    }

    /// Encrypts a message for a group under the group's key, with a fresh
    /// nonce in front of the ciphertext.
    pub fn encrypt_group_message(&self, group_id: &GroupId, plaintext: &[u8]) -> (out: Result<
        Vec<u8>,
        GroupCryptoError,
    >)
        requires
            self.wf(),
        ensures
            !self.keys().contains_key(group_id.0@) ==> out == Err::<Vec<u8>, GroupCryptoError>(
                GroupCryptoError::KeyNotFound,
            ),
            self.keys().contains_key(group_id.0@) && plaintext@.len() > MAX_SECRET_LEN ==> out
                == Err::<Vec<u8>, GroupCryptoError>(GroupCryptoError::MessageTooLong),
            self.keys().contains_key(group_id.0@) && plaintext@.len() <= MAX_SECRET_LEN ==> out
                == Err::<Vec<u8>, GroupCryptoError>(GroupCryptoError::EntropyUnavailable) || (out
                matches Ok(message) && freshly_sealed(
                self.keys()[group_id.0@].0,
                plaintext@,
                message@,
            )),
            out matches Ok(message) ==> self.keys().contains_key(group_id.0@) && opened_blob(
                self.keys()[group_id.0@].0,
                message@,
            ) == Some(plaintext@),
    {
        self.group_crypto.encrypt_message(group_id, plaintext)
    }

    /// Decrypts a message of a group. Refused where the group has no key,
    /// and where the message is shorter than a nonce or does not open
    /// under the group's key.
    pub fn decrypt_group_message(&self, group_id: &GroupId, data: &[u8]) -> (out: Result<
        Vec<u8>,
        GroupCryptoError,
    >)
        requires
            self.wf(),
        ensures
            data@.len() < 12 ==> out == Err::<Vec<u8>, GroupCryptoError>(
                GroupCryptoError::DecryptionFailed,
            ),
            data@.len() >= 12 && !self.keys().contains_key(group_id.0@) ==> out == Err::<
                Vec<u8>,
                GroupCryptoError,
            >(GroupCryptoError::KeyNotFound),
            data@.len() >= 12 && self.keys().contains_key(group_id.0@) ==> match opened_blob(
                self.keys()[group_id.0@].0,
                data@,
            ) {
                Some(plaintext) => out matches Ok(p) && p@ == plaintext,
                None => out == Err::<Vec<u8>, GroupCryptoError>(
                    GroupCryptoError::DecryptionFailed,
                ),
            },
    {
        self.group_crypto.decrypt_message(group_id, data)
    }

    /// Founds a group now, with `creator_id` as its owner and only member,
    /// and gives it a fresh key. Fails only where the operating system
    /// gives no random bytes; then nothing changes.
    pub fn create_group(
        &mut self,
        creator_id: IdentityId,
        creator_key: Vec<u8>,
        name: String,
        description: String,
        group_type: GroupType,
        settings: GroupSettings,
    ) -> (out: Result<GroupId, GroupError>)
        requires
            old(self).wf(),
        ensures
            final(self).wf(),
            final(self).invitations() == old(self).invitations(),
            out is Err ==> out == Err::<GroupId, GroupError>(GroupError::EntropyUnavailable)
                && final(self).groups() == old(self).groups() && final(self).keys() == old(self).keys(),
            out matches Ok(id) ==> rekeyed(old(self).keys(), final(self).keys(), id.0@) && id.0@
                == group_id_of(name@, creator_id.0@, key_time(final(self).keys(), id.0@)) && final(self).groups() == with_group(
                old(self).groups(),
                founded_group(
                    creator_id.0@,
                    creator_key@,
                    name@,
                    description@,
                    group_type,
                    settings,
                    key_time(final(self).keys(), id.0@),
                ),
            ),
    {
        let key = match fresh_key() {
            Some(k) => k,
            None => {
                return Err(GroupError::EntropyUnavailable);
            },
        };
        let now = unix_time_secs();
        Ok(
            self.create_group_with(
                creator_id,
                creator_key,
                name,
                description,
                group_type,
                settings,
                key,
                now,
            ),
        )
    }

    /// Adds a member to a group now and gives the group a fresh key.
    /// Where it fails nothing changes.
    pub fn add_member(
        &mut self,
        group_id: GroupId,
        admin_id: IdentityId,
        new_member_id: IdentityId,
        new_member_key: Vec<u8>,
        display_name: String,
        role: Role,
    ) -> (out: Result<(), GroupError>)
        requires
            old(self).wf(),
        ensures
            final(self).wf(),
            final(self).invitations() == old(self).invitations(),
            out is Err ==> final(self).groups() == old(self).groups() && final(self).keys() == old(self).keys(),
            out matches Err(e) ==> e == GroupError::EntropyUnavailable || addition_error(
                old(self).groups(),
                group_id.0@,
                admin_id.0@,
                new_member_id.0@,
            ) == Some(e),
            out is Ok ==> addition_error(
                old(self).groups(),
                group_id.0@,
                admin_id.0@,
                new_member_id.0@,
            ) is None && rekeyed(old(self).keys(), final(self).keys(), group_id.0@) && final(self).groups() == after_addition(
                old(self).groups(),
                group_id.0@,
                joiner(
                    new_member_id.0@,
                    new_member_key@,
                    display_name@,
                    role@,
                    admin_id.0@,
                    key_time(final(self).keys(), group_id.0@),
                ),
                key_time(final(self).keys(), group_id.0@),
            ),
    {
        let key = match fresh_key() {
            Some(k) => k,
            None => {
                return Err(GroupError::EntropyUnavailable);
            },
        };
        let now = unix_time_secs();
        self.add_member_with(
            group_id,
            admin_id,
            new_member_id,
            new_member_key,
            display_name,
            role,
            key,
            now,
        )
    }

    /// Removes a member from a group now, for the reason given, and gives
    /// the group a fresh key. Where it fails nothing changes.
    pub fn remove_member(
        &mut self,
        group_id: GroupId,
        admin_id: IdentityId,
        member_id: IdentityId,
        reason: String,
    ) -> (out: Result<(), GroupError>)
        requires
            old(self).wf(),
        ensures
            final(self).wf(),
            final(self).invitations() == old(self).invitations(),
            out is Err ==> final(self).groups() == old(self).groups() && final(self).keys() == old(self).keys(),
            out matches Err(e) ==> e == GroupError::EntropyUnavailable || removal_error(
                old(self).groups(),
                group_id.0@,
                admin_id.0@,
                member_id.0@,
            ) == Some(e),
            out is Ok ==> removal_error(
                old(self).groups(),
                group_id.0@,
                admin_id.0@,
                member_id.0@,
            ) is None && rekeyed(old(self).keys(), final(self).keys(), group_id.0@) && final(self).groups() == after_status(
                old(self).groups(),
                group_id.0@,
                member_id.0@,
                StatusView::Removed { reason: reason@ },
                key_time(final(self).keys(), group_id.0@),
            ),
    {
        let key = match fresh_key() {
            Some(k) => k,
            None => {
                return Err(GroupError::EntropyUnavailable);
            },
        };
        let now = unix_time_secs();
        self.remove_member_with(group_id, admin_id, member_id, reason, key, now)
    }

    /// Lets a member leave a group now and gives the group a fresh key.
    /// Where it fails nothing changes.
    pub fn leave_group(&mut self, group_id: GroupId, member_id: IdentityId) -> (out: Result<
        (),
        GroupError,
    >)
        requires
            old(self).wf(),
        ensures
            final(self).wf(),
            final(self).invitations() == old(self).invitations(),
            out is Err ==> final(self).groups() == old(self).groups() && final(self).keys() == old(self).keys(),
            out matches Err(e) ==> e == GroupError::EntropyUnavailable || departure_error(
                old(self).groups(),
                group_id.0@,
                member_id.0@,
            ) == Some(e),
            out is Ok ==> departure_error(old(self).groups(), group_id.0@, member_id.0@) is None
                && rekeyed(old(self).keys(), final(self).keys(), group_id.0@) && final(self).groups() == after_status(
                old(self).groups(),
                group_id.0@,
                member_id.0@,
                StatusView::Left,
                key_time(final(self).keys(), group_id.0@),
            ),
    {
        let key = match fresh_key() {
            Some(k) => k,
            None => {
                return Err(GroupError::EntropyUnavailable);
            },
        };
        let now = unix_time_secs();
        self.leave_group_with(group_id, member_id, key, now)
    }

    /// Gives a member of a group another role now.
    pub fn update_member_role(
        &mut self,
        group_id: GroupId,
        admin_id: IdentityId,
        member_id: IdentityId,
        new_role: Role,
    ) -> (out: Result<(), GroupError>)
        requires
            old(self).wf(),
        ensures
            final(self).wf(),
            final(self).invitations() == old(self).invitations(),
            final(self).keys() == old(self).keys(),
            match role_change_error(old(self).groups(), group_id.0@, admin_id.0@, member_id.0@) {
                Some(e) => out == Err::<(), GroupError>(e) && final(self).groups() == old(self).groups(),
                None => out is Ok && final(self).groups() == after_role(
                    old(self).groups(),
                    group_id.0@,
                    member_id.0@,
                    new_role@,
                    change_time(final(self).groups(), group_id.0@),
                ),
            },
    {
        let now = unix_time_secs();
        let out = self.update_member_role_at(group_id, admin_id, member_id, new_role, now);
        proof {
            if out is Ok {
                let at = group_index(old(self).groups(), group_id.0@);
                lemma_group_index(self.groups(), at);
            }
        }
        out
    }

    /// Gives a group other settings now.
    pub fn update_group_settings(
        &mut self,
        group_id: GroupId,
        admin_id: IdentityId,
        new_settings: GroupSettings,
    ) -> (out: Result<(), GroupError>)
        requires
            old(self).wf(),
        ensures
            final(self).wf(),
            final(self).invitations() == old(self).invitations(),
            final(self).keys() == old(self).keys(),
            match settings_error(old(self).groups(), group_id.0@, admin_id.0@) {
                Some(e) => out == Err::<(), GroupError>(e) && final(self).groups() == old(self).groups(),
                None => out is Ok && final(self).groups() == after_settings(
                    old(self).groups(),
                    group_id.0@,
                    new_settings,
                    change_time(final(self).groups(), group_id.0@),
                ),
            },
    {
        let now = unix_time_secs();
        let out = self.update_group_settings_at(group_id, admin_id, new_settings, now);
        proof {
            if out is Ok {
                let at = group_index(old(self).groups(), group_id.0@);
                lemma_group_index(self.groups(), at);
            }
        }
        out
    }

    /// Makes an invitation to a group now and keeps it.
    pub fn create_invitation(
        &mut self,
        group_id: GroupId,
        admin_id: IdentityId,
        expires_at: Option<u64>,
        max_uses: Option<u32>,
    ) -> (out: Result<GroupInvitation, GroupError>)
        requires
            old(self).wf(),
        ensures
            final(self).wf(),
            final(self).groups() == old(self).groups(),
            final(self).keys() == old(self).keys(),
            match permission_refusal(
                old(self).groups(),
                group_id.0@,
                admin_id.0@,
                create_invites(),
            ) {
                Some(e) => out == Err::<GroupInvitation, GroupError>(e) && final(self).invitations() == old(self).invitations(),
                None => out matches Ok(invitation) && invitation@ == invitation_to(
                    group_of(old(self).groups(), group_id.0@),
                    admin_id.0@,
                    expires_at,
                    max_uses,
                    invitation.created_at,
                ) && final(self).invitations() == old(self).invitations().push(invitation@),
            },
    {
        self.create_invitation_at(group_id, admin_id, expires_at, max_uses, unix_time_secs())
    }

    /// Lets `member_id` join a group now by the invitation with the code
    /// `invitation_code`, and gives the group a fresh key. Where it fails
    /// nothing changes.
    pub fn join_group_with_invitation(
        &mut self,
        invitation_code: String,
        member_id: IdentityId,
        member_key: Vec<u8>,
        display_name: String,
    ) -> (out: Result<GroupId, GroupError>)
        requires
            old(self).wf(),
        ensures
            final(self).wf(),
            out is Err ==> final(self).groups() == old(self).groups() && final(self).keys() == old(self).keys() && final(self).invitations() == old(self).invitations(),
            latest_invitation(old(self).invitations(), invitation_code@) is None ==> out is Err,
            out matches Err(e) ==> e == GroupError::EntropyUnavailable || exists|now: u64|
                #[trigger] joining_error(
                    old(self).groups(),
                    old(self).invitations(),
                    invitation_code@,
                    member_id.0@,
                    now,
                ) == Some(e),
            out matches Ok(id) ==> {
                let at = latest_invitation(old(self).invitations(), invitation_code@)->Some_0;
                let invitation = old(self).invitations()[at];
                let now = key_time(final(self).keys(), id.0@);
                &&& id.0@ == invitation.group_id
                &&& joining_error(
                    old(self).groups(),
                    old(self).invitations(),
                    invitation_code@,
                    member_id.0@,
                    now,
                ) is None
                &&& rekeyed(old(self).keys(), final(self).keys(), id.0@)
                &&& final(self).groups() == after_addition(
                    old(self).groups(),
                    invitation.group_id,
                    joiner(
                        member_id.0@,
                        member_key@,
                        display_name@,
                        member_role(),
                        invitation.inviter_id,
                        now,
                    ),
                    now,
                )
                &&& final(self).invitations() == old(self).invitations().update(
                    at,
                    used_once(invitation),
                )
            },
    {
        let key = match fresh_key() {
            Some(k) => k,
            None => {
                return Err(GroupError::EntropyUnavailable);
            },
        };
        let now = unix_time_secs();
        let ghost code = invitation_code@;
        let out = self.join_group_with_invitation_with(
            invitation_code,
            member_id,
            member_key,
            display_name,
            key,
            now,
        );
        proof {
            if out is Err {
                assert(joining_error(
                    old(self).groups(),
                    old(self).invitations(),
                    code,
                    member_id.0@,
                    now,
                ) == Some(out->Err_0));
            }
        }
        out
    }
}

} // verus!
