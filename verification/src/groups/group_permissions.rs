//! Role-based permissions of a group.

use vstd::prelude::*;
use vstd::string::StringExecFns;

verus! {

/// A permission or a role as plain values: its number among the variants
/// and, for a custom one, its name.
pub type PermissionKey = (int, Seq<char>);

/// The key of a standard permission or role.
pub open spec fn unit_key(code: int) -> PermissionKey {
    (code, Seq::<char>::empty())
}

/// A role within a group.
#[derive(Clone, PartialEq, Eq, Hash, Debug)]
pub enum Role {
    /// The owner, with every permission.
    Owner,
    /// An administrator, with most permissions.
    Admin,
    /// A moderator, with some of an administrator's permissions.
    Moderator,
    /// A regular member.
    Member,
    /// A member who can only read.
    Observer,
    /// A role of the group's own making.
    Custom(String),
}

/// What a member of a group may be allowed to do.
#[derive(Clone, PartialEq, Eq, Hash, Debug)]
pub enum Permission {
    AddMembers,
    RemoveMembers,
    BanMembers,
    UnbanMembers,
    ManageRoles,
    AssignModerator,
    AssignAdmin,
    ManageSettings,
    ChangeGroupName,
    ChangeGroupDescription,
    ChangeGroupAvatar,
    DeleteGroup,
    CreateInvites,
    RevokeInvites,
    ManageInviteSettings,
    SendMessages,
    DeleteOwnMessages,
    DeleteAnyMessage,
    EditOwnMessages,
    EditAnyMessage,
    PinMessages,
    UnpinMessages,
    SendFiles,
    SendImages,
    SendVideos,
    SendAudio,
    SendDocuments,
    StartVoiceCall,
    StartVideoCall,
    StartScreenShare,
    ManageCallSettings,
    MuteMembers,
    UnmuteMembers,
    SetSlowMode,
    ManageAutoModeration,
    CreatePolls,
    ManagePolls,
    CreateEvents,
    ManageEvents,
    AccessAuditLog,
    ManageIntegrations,
    ReadMessages,
    ReadMemberList,
    ReadGroupInfo,
    /// A permission of the group's own making.
    Custom(String),
}

/// How far a grant reaches.
#[derive(Clone, Copy, PartialEq, Eq, Debug, Structural)]
pub enum PermissionLevel {
    /// No access at all.
    NoAccess,
    Read,
    Write,
    Admin,
}

/// When an action is allowed.
#[derive(Clone)]
pub struct TimeRestriction {
    /// Allowed hours of the day, 0 to 23.
    pub allowed_hours: Option<Vec<u8>>,
    /// Allowed days of the week, 0 to 6 from Sunday.
    pub allowed_days: Option<Vec<u8>>,
    /// Seconds that must pass between two actions.
    pub cooldown_period: Option<u64>,
}

/// For how many members an action is allowed.
#[derive(Clone)]
pub struct MemberCountRestriction {
    pub min_members: Option<usize>,
    pub max_members: Option<usize>,
}

/// What content an action may carry.
#[derive(Clone)]
pub struct ContentRestriction {
    /// Largest file, in bytes.
    pub max_file_size: Option<u64>,
    pub allowed_file_types: Option<Vec<String>>,
    pub max_message_length: Option<usize>,
}

/// The conditions under which a permission applies.
#[derive(Clone)]
pub struct PermissionContext {
    pub time_restrictions: Option<TimeRestriction>,
    pub member_count_restrictions: Option<MemberCountRestriction>,
    pub content_restrictions: Option<ContentRestriction>,
}

impl Default for PermissionContext {
    fn default() -> (out: Self)
        ensures
            out.time_restrictions is None,
            out.member_count_restrictions is None,
            out.content_restrictions is None,
    {
        PermissionContext {
            time_restrictions: None,
            member_count_restrictions: None,
            content_restrictions: None,
        }
    }
}

/// The label of a custom role or permission: its name in `Custom(..)`.
fn custom_label(name: &String) -> (out: String)
    ensures
        out@ == "Custom("@ + name@ + ")"@,
{
    "Custom(".to_string().concat(name.as_str()).concat(")")
}

impl View for Role {
    type V = PermissionKey;

    open spec fn view(&self) -> PermissionKey {
        match self {
            Role::Owner => unit_key(0),
            Role::Admin => unit_key(1),
            Role::Moderator => unit_key(2),
            Role::Member => unit_key(3),
            Role::Observer => unit_key(4),
            Role::Custom(name) => (5, name@),
        }
    }
}

impl Role {
    /// Whether the role is that of the owner.
    pub fn is_owner(&self) -> (out: bool)
        ensures
            out == (self@ == unit_key(0)),
    {
        match self {
            Role::Owner => true,
            _ => false,
        }
    }

    /// The number of the variant.
    pub fn code(&self) -> (out: u8)
        ensures
            out == self@.0,
    {
        match self {
            Role::Owner => 0,
            Role::Admin => 1,
            Role::Moderator => 2,
            Role::Member => 3,
            Role::Observer => 4,
            Role::Custom(_) => 5,
        }
    }

    /// Whether two roles are the same.
    pub fn same(&self, other: &Role) -> (out: bool)
        ensures
            out == (self@ == other@),
    {
        if self.code() != other.code() {
            return false;
        }
        match (self, other) {
            (Role::Custom(a), Role::Custom(b)) => {
                proof {
                    assert(self@.1 == a@ && other@.1 == b@);
                }
                *a == *b
            },
            _ => {
                proof {
                    assert(self@.1 =~= other@.1);
                }
                true
            },
        }
    }

    /// A copy of the role.
    pub fn duplicate(&self) -> (out: Role)
        ensures
            out@ == self@,
    {
        match self {
            Role::Owner => Role::Owner,
            Role::Admin => Role::Admin,
            Role::Moderator => Role::Moderator,
            Role::Member => Role::Member,
            Role::Observer => Role::Observer,
            Role::Custom(name) => Role::Custom(name.clone()),
        }
    }

    /// The rank of a role: the owner's is highest, a custom role has none.
    pub fn level(&self) -> (out: u8)
        ensures
            out == role_level(self@),
    {
        match self {
            Role::Owner => 100,
            Role::Admin => 80,
            Role::Moderator => 60,
            Role::Member => 40,
            Role::Observer => 20,
            Role::Custom(_) => 0,
        }
    }

    /// The role's name for display, as plain text.
    pub open spec fn label_text(&self) -> Seq<char> {
        match self {
            Role::Owner => "Owner"@,
            Role::Admin => "Admin"@,
            Role::Moderator => "Moderator"@,
            Role::Member => "Member"@,
            Role::Observer => "Observer"@,
            Role::Custom(name) => "Custom("@ + name@ + ")"@,
        }
    }

    /// The role's name for display.
    pub fn label(&self) -> (out: String)
        ensures
            out@ == self.label_text(),
    {
        match self {
            Role::Owner => "Owner".to_string(),
            Role::Admin => "Admin".to_string(),
            Role::Moderator => "Moderator".to_string(),
            Role::Member => "Member".to_string(),
            Role::Observer => "Observer".to_string(),
            Role::Custom(name) => custom_label(name),
        }
    }
}

/// The rank of a role by its key.
pub open spec fn role_level(role: PermissionKey) -> int {
    if role.0 == 0 {
        100
    } else if role.0 == 1 {
        80
    } else if role.0 == 2 {
        60
    } else if role.0 == 3 {
        40
    } else if role.0 == 4 {
        20
    } else {
        0
    }
}

/// Whether a holder of role `modifier` may change the role of a holder of
/// role `target`: an owner anyone's, an administrator anyone's below
/// administrator, a moderator a member's or an observer's.
pub open spec fn may_modify(modifier: PermissionKey, target: PermissionKey) -> bool {
    if modifier.0 == 0 {
        true
    } else if modifier.0 == 1 {
        target.0 != 0 && target.0 != 1
    } else if modifier.0 == 2 {
        target.0 == 3 || target.0 == 4
    } else {
        false
    }
}

impl View for Permission {
    type V = PermissionKey;

    open spec fn view(&self) -> PermissionKey {
        match self {
            Permission::AddMembers => unit_key(0),
            Permission::RemoveMembers => unit_key(1),
            Permission::BanMembers => unit_key(2),
            Permission::UnbanMembers => unit_key(3),
            Permission::ManageRoles => unit_key(4),
            Permission::AssignModerator => unit_key(5),
            Permission::AssignAdmin => unit_key(6),
            Permission::ManageSettings => unit_key(7),
            Permission::ChangeGroupName => unit_key(8),
            Permission::ChangeGroupDescription => unit_key(9),
            Permission::ChangeGroupAvatar => unit_key(10),
            Permission::DeleteGroup => unit_key(11),
            Permission::CreateInvites => unit_key(12),
            Permission::RevokeInvites => unit_key(13),
            Permission::ManageInviteSettings => unit_key(14),
            Permission::SendMessages => unit_key(15),
            Permission::DeleteOwnMessages => unit_key(16),
            Permission::DeleteAnyMessage => unit_key(17),
            Permission::EditOwnMessages => unit_key(18),
            Permission::EditAnyMessage => unit_key(19),
            Permission::PinMessages => unit_key(20),
            Permission::UnpinMessages => unit_key(21),
            Permission::SendFiles => unit_key(22),
            Permission::SendImages => unit_key(23),
            Permission::SendVideos => unit_key(24),
            Permission::SendAudio => unit_key(25),
            Permission::SendDocuments => unit_key(26),
            Permission::StartVoiceCall => unit_key(27),
            Permission::StartVideoCall => unit_key(28),
            Permission::StartScreenShare => unit_key(29),
            Permission::ManageCallSettings => unit_key(30),
            Permission::MuteMembers => unit_key(31),
            Permission::UnmuteMembers => unit_key(32),
            Permission::SetSlowMode => unit_key(33),
            Permission::ManageAutoModeration => unit_key(34),
            Permission::CreatePolls => unit_key(35),
            Permission::ManagePolls => unit_key(36),
            Permission::CreateEvents => unit_key(37),
            Permission::ManageEvents => unit_key(38),
            Permission::AccessAuditLog => unit_key(39),
            Permission::ManageIntegrations => unit_key(40),
            Permission::ReadMessages => unit_key(41),
            Permission::ReadMemberList => unit_key(42),
            Permission::ReadGroupInfo => unit_key(43),
            Permission::Custom(name) => (44, name@),
        }
    }
}

impl Permission {
    /// The number of the variant.
    pub fn code(&self) -> (out: u8)
        ensures
            out == self@.0,
    {
        match self {
            Permission::AddMembers => 0,
            Permission::RemoveMembers => 1,
            Permission::BanMembers => 2,
            Permission::UnbanMembers => 3,
            Permission::ManageRoles => 4,
            Permission::AssignModerator => 5,
            Permission::AssignAdmin => 6,
            Permission::ManageSettings => 7,
            Permission::ChangeGroupName => 8,
            Permission::ChangeGroupDescription => 9,
            Permission::ChangeGroupAvatar => 10,
            Permission::DeleteGroup => 11,
            Permission::CreateInvites => 12,
            Permission::RevokeInvites => 13,
            Permission::ManageInviteSettings => 14,
            Permission::SendMessages => 15,
            Permission::DeleteOwnMessages => 16,
            Permission::DeleteAnyMessage => 17,
            Permission::EditOwnMessages => 18,
            Permission::EditAnyMessage => 19,
            Permission::PinMessages => 20,
            Permission::UnpinMessages => 21,
            Permission::SendFiles => 22,
            Permission::SendImages => 23,
            Permission::SendVideos => 24,
            Permission::SendAudio => 25,
            Permission::SendDocuments => 26,
            Permission::StartVoiceCall => 27,
            Permission::StartVideoCall => 28,
            Permission::StartScreenShare => 29,
            Permission::ManageCallSettings => 30,
            Permission::MuteMembers => 31,
            Permission::UnmuteMembers => 32,
            Permission::SetSlowMode => 33,
            Permission::ManageAutoModeration => 34,
            Permission::CreatePolls => 35,
            Permission::ManagePolls => 36,
            Permission::CreateEvents => 37,
            Permission::ManageEvents => 38,
            Permission::AccessAuditLog => 39,
            Permission::ManageIntegrations => 40,
            Permission::ReadMessages => 41,
            Permission::ReadMemberList => 42,
            Permission::ReadGroupInfo => 43,
            Permission::Custom(_) => 44,
        }
    }

    /// Whether two permissions are the same.
    pub fn same(&self, other: &Permission) -> (out: bool)
        ensures
            out == (self@ == other@),
    {
        if self.code() != other.code() {
            return false;
        }
        match (self, other) {
            (Permission::Custom(a), Permission::Custom(b)) => {
                proof {
                    assert(self@.1 == a@ && other@.1 == b@);
                }
                *a == *b
            },
            _ => {
                proof {
                    assert(self@.1 =~= other@.1);
                }
                true
            },
        }
    }

    /// A copy of the permission.
    pub fn duplicate(&self) -> (out: Permission)
        ensures
            out@ == self@,
    {
        match self {
            Permission::AddMembers => Permission::AddMembers,
            Permission::RemoveMembers => Permission::RemoveMembers,
            Permission::BanMembers => Permission::BanMembers,
            Permission::UnbanMembers => Permission::UnbanMembers,
            Permission::ManageRoles => Permission::ManageRoles,
            Permission::AssignModerator => Permission::AssignModerator,
            Permission::AssignAdmin => Permission::AssignAdmin,
            Permission::ManageSettings => Permission::ManageSettings,
            Permission::ChangeGroupName => Permission::ChangeGroupName,
            Permission::ChangeGroupDescription => Permission::ChangeGroupDescription,
            Permission::ChangeGroupAvatar => Permission::ChangeGroupAvatar,
            Permission::DeleteGroup => Permission::DeleteGroup,
            Permission::CreateInvites => Permission::CreateInvites,
            Permission::RevokeInvites => Permission::RevokeInvites,
            Permission::ManageInviteSettings => Permission::ManageInviteSettings,
            Permission::SendMessages => Permission::SendMessages,
            Permission::DeleteOwnMessages => Permission::DeleteOwnMessages,
            Permission::DeleteAnyMessage => Permission::DeleteAnyMessage,
            Permission::EditOwnMessages => Permission::EditOwnMessages,
            Permission::EditAnyMessage => Permission::EditAnyMessage,
            Permission::PinMessages => Permission::PinMessages,
            Permission::UnpinMessages => Permission::UnpinMessages,
            Permission::SendFiles => Permission::SendFiles,
            Permission::SendImages => Permission::SendImages,
            Permission::SendVideos => Permission::SendVideos,
            Permission::SendAudio => Permission::SendAudio,
            Permission::SendDocuments => Permission::SendDocuments,
            Permission::StartVoiceCall => Permission::StartVoiceCall,
            Permission::StartVideoCall => Permission::StartVideoCall,
            Permission::StartScreenShare => Permission::StartScreenShare,
            Permission::ManageCallSettings => Permission::ManageCallSettings,
            Permission::MuteMembers => Permission::MuteMembers,
            Permission::UnmuteMembers => Permission::UnmuteMembers,
            Permission::SetSlowMode => Permission::SetSlowMode,
            Permission::ManageAutoModeration => Permission::ManageAutoModeration,
            Permission::CreatePolls => Permission::CreatePolls,
            Permission::ManagePolls => Permission::ManagePolls,
            Permission::CreateEvents => Permission::CreateEvents,
            Permission::ManageEvents => Permission::ManageEvents,
            Permission::AccessAuditLog => Permission::AccessAuditLog,
            Permission::ManageIntegrations => Permission::ManageIntegrations,
            Permission::ReadMessages => Permission::ReadMessages,
            Permission::ReadMemberList => Permission::ReadMemberList,
            Permission::ReadGroupInfo => Permission::ReadGroupInfo,
            Permission::Custom(name) => Permission::Custom(name.clone()),
        }
    }

    /// The permission's name for display, as plain text.
    pub open spec fn label_text(&self) -> Seq<char> {
        match self {
            Permission::AddMembers => "Add Members"@,
            Permission::RemoveMembers => "Remove Members"@,
            Permission::BanMembers => "Ban Members"@,
            Permission::UnbanMembers => "Unban Members"@,
            Permission::ManageRoles => "Manage Roles"@,
            Permission::AssignModerator => "Assign Moderator"@,
            Permission::AssignAdmin => "Assign Admin"@,
            Permission::ManageSettings => "Manage Settings"@,
            Permission::ChangeGroupName => "Change Group Name"@,
            Permission::ChangeGroupDescription => "Change Group Description"@,
            Permission::ChangeGroupAvatar => "Change Group Avatar"@,
            Permission::DeleteGroup => "Delete Group"@,
            Permission::CreateInvites => "Create Invites"@,
            Permission::RevokeInvites => "Revoke Invites"@,
            Permission::ManageInviteSettings => "Manage Invite Settings"@,
            Permission::SendMessages => "Send Messages"@,
            Permission::DeleteOwnMessages => "Delete Own Messages"@,
            Permission::DeleteAnyMessage => "Delete Any Message"@,
            Permission::EditOwnMessages => "Edit Own Messages"@,
            Permission::EditAnyMessage => "Edit Any Message"@,
            Permission::PinMessages => "Pin Messages"@,
            Permission::UnpinMessages => "Unpin Messages"@,
            Permission::SendFiles => "Send Files"@,
            Permission::SendImages => "Send Images"@,
            Permission::SendVideos => "Send Videos"@,
            Permission::SendAudio => "Send Audio"@,
            Permission::SendDocuments => "Send Documents"@,
            Permission::StartVoiceCall => "Start Voice Call"@,
            Permission::StartVideoCall => "Start Video Call"@,
            Permission::StartScreenShare => "Start Screen Share"@,
            Permission::ManageCallSettings => "Manage Call Settings"@,
            Permission::MuteMembers => "Mute Members"@,
            Permission::UnmuteMembers => "Unmute Members"@,
            Permission::SetSlowMode => "Set Slow Mode"@,
            Permission::ManageAutoModeration => "Manage Auto Moderation"@,
            Permission::CreatePolls => "Create Polls"@,
            Permission::ManagePolls => "Manage Polls"@,
            Permission::CreateEvents => "Create Events"@,
            Permission::ManageEvents => "Manage Events"@,
            Permission::AccessAuditLog => "Access Audit Log"@,
            Permission::ManageIntegrations => "Manage Integrations"@,
            Permission::ReadMessages => "Read Messages"@,
            Permission::ReadMemberList => "Read Member List"@,
            Permission::ReadGroupInfo => "Read Group Info"@,
            Permission::Custom(name) => "Custom("@ + name@ + ")"@,
        }
    }

    /// The permission's name for display.
    pub fn label(&self) -> (out: String)
        ensures
            out@ == self.label_text(),
    {
        match self {
            Permission::AddMembers => "Add Members".to_string(),
            Permission::RemoveMembers => "Remove Members".to_string(),
            Permission::BanMembers => "Ban Members".to_string(),
            Permission::UnbanMembers => "Unban Members".to_string(),
            Permission::ManageRoles => "Manage Roles".to_string(),
            Permission::AssignModerator => "Assign Moderator".to_string(),
            Permission::AssignAdmin => "Assign Admin".to_string(),
            Permission::ManageSettings => "Manage Settings".to_string(),
            Permission::ChangeGroupName => "Change Group Name".to_string(),
            Permission::ChangeGroupDescription => "Change Group Description".to_string(),
            Permission::ChangeGroupAvatar => "Change Group Avatar".to_string(),
            Permission::DeleteGroup => "Delete Group".to_string(),
            Permission::CreateInvites => "Create Invites".to_string(),
            Permission::RevokeInvites => "Revoke Invites".to_string(),
            Permission::ManageInviteSettings => "Manage Invite Settings".to_string(),
            Permission::SendMessages => "Send Messages".to_string(),
            Permission::DeleteOwnMessages => "Delete Own Messages".to_string(),
            Permission::DeleteAnyMessage => "Delete Any Message".to_string(),
            Permission::EditOwnMessages => "Edit Own Messages".to_string(),
            Permission::EditAnyMessage => "Edit Any Message".to_string(),
            Permission::PinMessages => "Pin Messages".to_string(),
            Permission::UnpinMessages => "Unpin Messages".to_string(),
            Permission::SendFiles => "Send Files".to_string(),
            Permission::SendImages => "Send Images".to_string(),
            Permission::SendVideos => "Send Videos".to_string(),
            Permission::SendAudio => "Send Audio".to_string(),
            Permission::SendDocuments => "Send Documents".to_string(),
            Permission::StartVoiceCall => "Start Voice Call".to_string(),
            Permission::StartVideoCall => "Start Video Call".to_string(),
            Permission::StartScreenShare => "Start Screen Share".to_string(),
            Permission::ManageCallSettings => "Manage Call Settings".to_string(),
            Permission::MuteMembers => "Mute Members".to_string(),
            Permission::UnmuteMembers => "Unmute Members".to_string(),
            Permission::SetSlowMode => "Set Slow Mode".to_string(),
            Permission::ManageAutoModeration => "Manage Auto Moderation".to_string(),
            Permission::CreatePolls => "Create Polls".to_string(),
            Permission::ManagePolls => "Manage Polls".to_string(),
            Permission::CreateEvents => "Create Events".to_string(),
            Permission::ManageEvents => "Manage Events".to_string(),
            Permission::AccessAuditLog => "Access Audit Log".to_string(),
            Permission::ManageIntegrations => "Manage Integrations".to_string(),
            Permission::ReadMessages => "Read Messages".to_string(),
            Permission::ReadMemberList => "Read Member List".to_string(),
            Permission::ReadGroupInfo => "Read Group Info".to_string(),
            Permission::Custom(name) => custom_label(name),
        }
    }
}

/// A set of permissions.
pub struct PermissionSet {
    items: Vec<Permission>,
}

impl PermissionSet {
    /// No permission occurs twice.
    pub closed spec fn wf(&self) -> bool {
        forall|i: int, j: int|
            0 <= i < j < self.items@.len() ==> (#[trigger] self.items@[i])@ != (
            #[trigger] self.items@[j])@
    }

    /// The permissions in the set.
    pub closed spec fn view(&self) -> Set<PermissionKey> {
        Set::new(
            |key: PermissionKey|
                exists|i: int| 0 <= i < self.items@.len() && (#[trigger] self.items@[i])@ == key,
        )
    }

    /// The empty set.
    pub fn new() -> (out: Self)
        ensures
            out.wf(),
            out@ == Set::<PermissionKey>::empty(),
    {
        let out = PermissionSet { items: Vec::new() };
        proof {
            assert(out@ =~= Set::<PermissionKey>::empty());
        }
        out
    }

    fn find(&self, permission: &Permission) -> (out: Option<usize>)
        ensures
            out is Some <==> self@.contains(permission@),
            out matches Some(i) ==> i < self.items@.len() && self.items@[i as int]@
                == permission@,
    {
        let mut i: usize = 0;
        while i < self.items.len()
            invariant
                i <= self.items@.len(),
                forall|j: int| 0 <= j < i ==> (#[trigger] self.items@[j])@ != permission@,
            decreases self.items@.len() - i,
        {
            if self.items[i].same(permission) {
                return Some(i);
            }
            i += 1;
        }
        None
    }

    /// Whether the set holds `permission`.
    pub fn contains(&self, permission: &Permission) -> (out: bool)
        ensures
            out == self@.contains(permission@),
    {
        self.find(permission).is_some()
    }

    /// Puts `permission` into the set. Returns whether it was new.
    pub fn insert(&mut self, permission: Permission) -> (out: bool)
        requires
            old(self).wf(),
        ensures
            final(self).wf(),
            final(self)@ == old(self)@.insert(permission@),
            out == !old(self)@.contains(permission@),
    {
        if self.find(&permission).is_some() {
            proof {
                assert(self@ =~= old(self)@.insert(permission@));
            }
            return false;
        }
        let ghost key = permission@;
        self.items.push(permission);
        proof {
            let before = old(self).items@;
            let after = self.items@;
            assert forall|i: int, j: int| 0 <= i < j < after.len() implies (
            #[trigger] after[i])@ != (#[trigger] after[j])@ by {
                assert(after[i] == before[i]);
                if j < before.len() {
                    assert(after[j] == before[j]);
                }
            }
            assert forall|k: PermissionKey| #[trigger]
                self@.contains(k) == old(self)@.insert(key).contains(k) by {
                if self@.contains(k) {
                    let i = choose|i: int| 0 <= i < after.len() && (#[trigger] after[i])@ == k;
                    if i < before.len() {
                        assert(before[i] == after[i]);
                    }
                }
                if old(self)@.contains(k) {
                    let i = choose|i: int| 0 <= i < before.len() && (#[trigger] before[i])@ == k;
                    assert(after[i] == before[i]);
                }
                if k == key {
                    assert(after[after.len() - 1]@ == key);
                }
            }
            assert(self@ =~= old(self)@.insert(key));
        }
        true
    }

    /// Takes `permission` out of the set. Returns whether it was there.
    pub fn remove(&mut self, permission: &Permission) -> (out: bool)
        requires
            old(self).wf(),
        ensures
            final(self).wf(),
            final(self)@ == old(self)@.remove(permission@),
            out == old(self)@.contains(permission@),
    {
        match self.find(permission) {
            Some(at) => {
                let _ = self.items.remove(at);
                proof {
                    let before = old(self).items@;
                    let after = self.items@;
                    assert forall|i: int, j: int| 0 <= i < j < after.len() implies (
                    #[trigger] after[i])@ != (#[trigger] after[j])@ by {
                        let oi = if i < at { i } else { i + 1 };
                        let oj = if j < at { j } else { j + 1 };
                        assert(after[i] == before[oi]);
                        assert(after[j] == before[oj]);
                    }
                    assert forall|k: PermissionKey| #[trigger]
                        self@.contains(k) == old(self)@.remove(permission@).contains(k) by {
                        if self@.contains(k) {
                            let i = choose|i: int|
                                0 <= i < after.len() && (#[trigger] after[i])@ == k;
                            let oi = if i < at { i } else { i + 1 };
                            assert(after[i] == before[oi]);
                            if oi < at {
                                assert(before[oi]@ != before[at as int]@);
                            } else {
                                assert(before[at as int]@ != before[oi]@);
                            }
                        }
                        if old(self)@.remove(permission@).contains(k) {
                            let oi = choose|i: int|
                                0 <= i < before.len() && (#[trigger] before[i])@ == k;
                            assert(oi != at);
                            let i = if oi < at { oi } else { oi - 1 };
                            assert(after[i] == before[oi]);
                        }
                    }
                    assert(self@ =~= old(self)@.remove(permission@));
                }
                true
            },
            None => {
                proof {
                    assert(self@ =~= old(self)@.remove(permission@));
                }
                false
            },
        }
    }

    /// The keys of the first `n` permissions.
    spec fn keys_upto(&self, n: int) -> Set<PermissionKey>
        decreases n,
    {
        if n <= 0 {
            Set::empty()
        } else {
            self.keys_upto(n - 1).insert(self.items@[n - 1]@)
        }
    }

    proof fn lemma_keys(&self, n: int)
        requires
            self.wf(),
            0 <= n <= self.items@.len(),
        ensures
            self.keys_upto(n).finite(),
            self.keys_upto(n).len() == n,
            forall|key: PermissionKey|
                self.keys_upto(n).contains(key) <==> exists|i: int|
                    0 <= i < n && (#[trigger] self.items@[i])@ == key,
        decreases n,
    {
        if n > 0 {
            self.lemma_keys(n - 1);
            let last = self.items@[n - 1]@;
            if self.keys_upto(n - 1).contains(last) {
                let i = choose|i: int| 0 <= i < n - 1 && (#[trigger] self.items@[i])@ == last;
                assert(self.items@[i]@ != self.items@[n - 1]@);
            }
            assert forall|key: PermissionKey|
                self.keys_upto(n).contains(key) <==> exists|i: int|
                    0 <= i < n && (#[trigger] self.items@[i])@ == key by {
                if self.keys_upto(n).contains(key) {
                    if key == last {
                        assert(self.items@[n - 1]@ == key);
                    } else {
                        let i = choose|i: int| 0 <= i < n - 1 && (#[trigger] self.items@[i])@ == key;
                        assert(0 <= i < n && self.items@[i]@ == key);
                    }
                }
                if exists|i: int| 0 <= i < n && (#[trigger] self.items@[i])@ == key {
                    let i = choose|i: int| 0 <= i < n && (#[trigger] self.items@[i])@ == key;
                    if i < n - 1 {
                        assert(self.keys_upto(n - 1).contains(key));
                    }
                }
            }
        }
    }

    /// How many permissions the set holds.
    pub fn len(&self) -> (out: usize)
        ensures
            self.wf() ==> self@.finite() && out == self@.len(),
    {
        proof {
            if self.wf() {
                self.lemma_keys(self.items@.len() as int);
                assert(self@ =~= self.keys_upto(self.items@.len() as int));
            }
        }
        self.items.len()
    }

    /// A copy of the set.
    pub fn duplicate(&self) -> (out: PermissionSet)
        requires
            self.wf(),
        ensures
            out.wf(),
            out@ == self@,
    {
        let mut items: Vec<Permission> = Vec::new();
        let mut i: usize = 0;
        while i < self.items.len()
            invariant
                i <= self.items@.len(),
                items@.len() == i,
                forall|j: int| 0 <= j < i ==> (#[trigger] items@[j])@ == self.items@[j]@,
            decreases self.items@.len() - i,
        {
            items.push(self.items[i].duplicate());
            i += 1;
        }
        let out = PermissionSet { items };
        proof {
            assert forall|a: int, b: int| 0 <= a < b < out.items@.len() implies (
            #[trigger] out.items@[a])@ != (#[trigger] out.items@[b])@ by {
                assert(self.items@[a]@ != self.items@[b]@);
            }
            assert forall|k: PermissionKey| #[trigger] out@.contains(k) == self@.contains(k) by {
                if out@.contains(k) {
                    let i = choose|i: int|
                        0 <= i < out.items@.len() && (#[trigger] out.items@[i])@ == k;
                    assert(self.items@[i]@ == k);
                }
                if self@.contains(k) {
                    let i = choose|i: int|
                        0 <= i < self.items@.len() && (#[trigger] self.items@[i])@ == k;
                    assert(out.items@[i]@ == k);
                }
            }
            assert(out@ =~= self@);
        }
        out
    }

    /// The set of the permissions in `permissions`.
    pub fn from_vec(permissions: Vec<Permission>) -> (out: PermissionSet)
        ensures
            out.wf(),
            forall|k: PermissionKey|
                out@.contains(k) <==> exists|i: int|
                    0 <= i < permissions@.len() && (#[trigger] permissions@[i])@ == k,
    {
        let mut out = PermissionSet::new();
        let mut i: usize = 0;
        while i < permissions.len()
            invariant
                i <= permissions@.len(),
                out.wf(),
                forall|k: PermissionKey|
                    out@.contains(k) <==> exists|j: int|
                        0 <= j < i && (#[trigger] permissions@[j])@ == k,
            decreases permissions@.len() - i,
        {
            let ghost before = out@;
            out.insert(permissions[i].duplicate());
            proof {
                assert forall|k: PermissionKey| out@.contains(k) <==> exists|j: int|
                    0 <= j < i + 1 && (#[trigger] permissions@[j])@ == k by {
                    if out@.contains(k) {
                        if before.contains(k) {
                            let j = choose|j: int| 0 <= j < i && (#[trigger] permissions@[j])@ == k;
                            assert(0 <= j < i + 1 && permissions@[j]@ == k);
                        } else {
                            assert(permissions@[i as int]@ == k);
                        }
                    }
                    if exists|j: int| 0 <= j < i + 1 && (#[trigger] permissions@[j])@ == k {
                        let j = choose|j: int|
                            0 <= j < i + 1 && (#[trigger] permissions@[j])@ == k;
                        if j < i {
                            assert(before.contains(k));
                        }
                    }
                }
            }
            i += 1;
        }
        out
    }

    /// Whether two sets hold the same permissions.
    pub fn same_as(&self, other: &PermissionSet) -> (out: bool)
        requires
            self.wf(),
            other.wf(),
        ensures
            out == (self@ == other@),
    {
        let mut i: usize = 0;
        while i < self.items.len()
            invariant
                i <= self.items@.len(),
                forall|j: int| 0 <= j < i ==> other@.contains((#[trigger] self.items@[j])@),
            decreases self.items@.len() - i,
        {
            if !other.contains(&self.items[i]) {
                proof {
                    assert(self@.contains(self.items@[i as int]@));
                }
                return false;
            }
            i += 1;
        }
        let mut k: usize = 0;
        while k < other.items.len()
            invariant
                k <= other.items@.len(),
                forall|j: int|
                    0 <= j < self.items@.len() ==> other@.contains((#[trigger] self.items@[j])@),
                forall|j: int| 0 <= j < k ==> self@.contains((#[trigger] other.items@[j])@),
            decreases other.items@.len() - k,
        {
            if !self.contains(&other.items[k]) {
                proof {
                    assert(other@.contains(other.items@[k as int]@));
                }
                return false;
            }
            k += 1;
        }
        proof {
            assert forall|key: PermissionKey| self@.contains(key) == other@.contains(key) by {
                if self@.contains(key) {
                    let j = choose|j: int|
                        0 <= j < self.items@.len() && (#[trigger] self.items@[j])@ == key;
                    assert(other@.contains(self.items@[j]@));
                }
                if other@.contains(key) {
                    let j = choose|j: int|
                        0 <= j < other.items@.len() && (#[trigger] other.items@[j])@ == key;
                    assert(self@.contains(other.items@[j]@));
                }
            }
            assert(self@ =~= other@);
        }
        true
    }
}

/// Every standard permission.
pub open spec fn all_permission_keys() -> Set<PermissionKey> {
    set![
        unit_key(0),
        unit_key(1),
        unit_key(2),
        unit_key(3),
        unit_key(4),
        unit_key(5),
        unit_key(6),
        unit_key(7),
        unit_key(8),
        unit_key(9),
        unit_key(10),
        unit_key(11),
        unit_key(12),
        unit_key(13),
        unit_key(14),
        unit_key(15),
        unit_key(16),
        unit_key(17),
        unit_key(18),
        unit_key(19),
        unit_key(20),
        unit_key(21),
        unit_key(22),
        unit_key(23),
        unit_key(24),
        unit_key(25),
        unit_key(26),
        unit_key(27),
        unit_key(28),
        unit_key(29),
        unit_key(30),
        unit_key(31),
        unit_key(32),
        unit_key(33),
        unit_key(34),
        unit_key(35),
        unit_key(36),
        unit_key(37),
        unit_key(38),
        unit_key(39),
        unit_key(40),
        unit_key(41),
        unit_key(42),
        unit_key(43),
    ]
}

/// What an administrator may do by default: everything but deleting the group and appointing administrators.
pub open spec fn admin_permission_keys() -> Set<PermissionKey> {
    set![
        unit_key(0),
        unit_key(1),
        unit_key(2),
        unit_key(3),
        unit_key(4),
        unit_key(5),
        unit_key(7),
        unit_key(8),
        unit_key(9),
        unit_key(10),
        unit_key(12),
        unit_key(13),
        unit_key(14),
        unit_key(15),
        unit_key(16),
        unit_key(17),
        unit_key(18),
        unit_key(19),
        unit_key(20),
        unit_key(21),
        unit_key(22),
        unit_key(23),
        unit_key(24),
        unit_key(25),
        unit_key(26),
        unit_key(27),
        unit_key(28),
        unit_key(29),
        unit_key(30),
        unit_key(31),
        unit_key(32),
        unit_key(33),
        unit_key(34),
        unit_key(35),
        unit_key(36),
        unit_key(37),
        unit_key(38),
        unit_key(39),
        unit_key(40),
        unit_key(41),
        unit_key(42),
        unit_key(43),
    ]
}

/// What a moderator may do by default.
pub open spec fn moderator_permission_keys() -> Set<PermissionKey> {
    set![
        unit_key(0),
        unit_key(1),
        unit_key(2),
        unit_key(3),
        unit_key(31),
        unit_key(32),
        unit_key(17),
        unit_key(20),
        unit_key(21),
        unit_key(33),
        unit_key(34),
        unit_key(15),
        unit_key(16),
        unit_key(18),
        unit_key(22),
        unit_key(23),
        unit_key(24),
        unit_key(25),
        unit_key(26),
        unit_key(27),
        unit_key(28),
        unit_key(41),
        unit_key(42),
        unit_key(43),
    ]
}

/// What a member may do by default.
pub open spec fn member_permission_keys() -> Set<PermissionKey> {
    set![
        unit_key(15),
        unit_key(16),
        unit_key(18),
        unit_key(22),
        unit_key(23),
        unit_key(24),
        unit_key(25),
        unit_key(26),
        unit_key(27),
        unit_key(28),
        unit_key(35),
        unit_key(41),
        unit_key(42),
        unit_key(43),
    ]
}

/// What an observer may do by default: read.
pub open spec fn observer_permission_keys() -> Set<PermissionKey> {
    set![
        unit_key(41),
        unit_key(42),
        unit_key(43),
    ]
}

/// What an administrator may do in an announcement channel.
pub open spec fn announcement_admin_permission_keys() -> Set<PermissionKey> {
    set![
        unit_key(0),
        unit_key(1),
        unit_key(2),
        unit_key(3),
        unit_key(31),
        unit_key(32),
        unit_key(4),
        unit_key(7),
        unit_key(12),
        unit_key(13),
        unit_key(41),
        unit_key(42),
        unit_key(43),
        unit_key(39),
    ]
}

/// Every standard permission.
pub fn all_permissions() -> (out: PermissionSet)
    ensures
        out.wf(),
        out@ == all_permission_keys(),
{
    let mut out = PermissionSet::new();
    out.insert(Permission::AddMembers);
    out.insert(Permission::RemoveMembers);
    out.insert(Permission::BanMembers);
    out.insert(Permission::UnbanMembers);
    out.insert(Permission::ManageRoles);
    out.insert(Permission::AssignModerator);
    out.insert(Permission::AssignAdmin);
    out.insert(Permission::ManageSettings);
    out.insert(Permission::ChangeGroupName);
    out.insert(Permission::ChangeGroupDescription);
    out.insert(Permission::ChangeGroupAvatar);
    out.insert(Permission::DeleteGroup);
    out.insert(Permission::CreateInvites);
    out.insert(Permission::RevokeInvites);
    out.insert(Permission::ManageInviteSettings);
    out.insert(Permission::SendMessages);
    out.insert(Permission::DeleteOwnMessages);
    out.insert(Permission::DeleteAnyMessage);
    out.insert(Permission::EditOwnMessages);
    out.insert(Permission::EditAnyMessage);
    out.insert(Permission::PinMessages);
    out.insert(Permission::UnpinMessages);
    out.insert(Permission::SendFiles);
    out.insert(Permission::SendImages);
    out.insert(Permission::SendVideos);
    out.insert(Permission::SendAudio);
    out.insert(Permission::SendDocuments);
    out.insert(Permission::StartVoiceCall);
    out.insert(Permission::StartVideoCall);
    out.insert(Permission::StartScreenShare);
    out.insert(Permission::ManageCallSettings);
    out.insert(Permission::MuteMembers);
    out.insert(Permission::UnmuteMembers);
    out.insert(Permission::SetSlowMode);
    out.insert(Permission::ManageAutoModeration);
    out.insert(Permission::CreatePolls);
    out.insert(Permission::ManagePolls);
    out.insert(Permission::CreateEvents);
    out.insert(Permission::ManageEvents);
    out.insert(Permission::AccessAuditLog);
    out.insert(Permission::ManageIntegrations);
    out.insert(Permission::ReadMessages);
    out.insert(Permission::ReadMemberList);
    out.insert(Permission::ReadGroupInfo);
    proof {
        assert(out@ =~= all_permission_keys());
    }
    out
}

/// The default permissions of an administrator.
pub fn admin_permissions() -> (out: PermissionSet)
    ensures
        out.wf(),
        out@ == admin_permission_keys(),
{
    let mut out = PermissionSet::new();
    out.insert(Permission::AddMembers);
    out.insert(Permission::RemoveMembers);
    out.insert(Permission::BanMembers);
    out.insert(Permission::UnbanMembers);
    out.insert(Permission::ManageRoles);
    out.insert(Permission::AssignModerator);
    out.insert(Permission::ManageSettings);
    out.insert(Permission::ChangeGroupName);
    out.insert(Permission::ChangeGroupDescription);
    out.insert(Permission::ChangeGroupAvatar);
    out.insert(Permission::CreateInvites);
    out.insert(Permission::RevokeInvites);
    out.insert(Permission::ManageInviteSettings);
    out.insert(Permission::SendMessages);
    out.insert(Permission::DeleteOwnMessages);
    out.insert(Permission::DeleteAnyMessage);
    out.insert(Permission::EditOwnMessages);
    out.insert(Permission::EditAnyMessage);
    out.insert(Permission::PinMessages);
    out.insert(Permission::UnpinMessages);
    out.insert(Permission::SendFiles);
    out.insert(Permission::SendImages);
    out.insert(Permission::SendVideos);
    out.insert(Permission::SendAudio);
    out.insert(Permission::SendDocuments);
    out.insert(Permission::StartVoiceCall);
    out.insert(Permission::StartVideoCall);
    out.insert(Permission::StartScreenShare);
    out.insert(Permission::ManageCallSettings);
    out.insert(Permission::MuteMembers);
    out.insert(Permission::UnmuteMembers);
    out.insert(Permission::SetSlowMode);
    out.insert(Permission::ManageAutoModeration);
    out.insert(Permission::CreatePolls);
    out.insert(Permission::ManagePolls);
    out.insert(Permission::CreateEvents);
    out.insert(Permission::ManageEvents);
    out.insert(Permission::AccessAuditLog);
    out.insert(Permission::ManageIntegrations);
    out.insert(Permission::ReadMessages);
    out.insert(Permission::ReadMemberList);
    out.insert(Permission::ReadGroupInfo);
    proof {
        assert(out@ =~= admin_permission_keys());
    }
    out
}

/// The default permissions of a moderator.
pub fn moderator_permissions() -> (out: PermissionSet)
    ensures
        out.wf(),
        out@ == moderator_permission_keys(),
{
    let mut out = PermissionSet::new();
    out.insert(Permission::AddMembers);
    out.insert(Permission::RemoveMembers);
    out.insert(Permission::BanMembers);
    out.insert(Permission::UnbanMembers);
    out.insert(Permission::MuteMembers);
    out.insert(Permission::UnmuteMembers);
    out.insert(Permission::DeleteAnyMessage);
    out.insert(Permission::PinMessages);
    out.insert(Permission::UnpinMessages);
    out.insert(Permission::SetSlowMode);
    out.insert(Permission::ManageAutoModeration);
    out.insert(Permission::SendMessages);
    out.insert(Permission::DeleteOwnMessages);
    out.insert(Permission::EditOwnMessages);
    out.insert(Permission::SendFiles);
    out.insert(Permission::SendImages);
    out.insert(Permission::SendVideos);
    out.insert(Permission::SendAudio);
    out.insert(Permission::SendDocuments);
    out.insert(Permission::StartVoiceCall);
    out.insert(Permission::StartVideoCall);
    out.insert(Permission::ReadMessages);
    out.insert(Permission::ReadMemberList);
    out.insert(Permission::ReadGroupInfo);
    proof {
        assert(out@ =~= moderator_permission_keys());
    }
    out
}

/// The default permissions of a member.
pub fn member_permissions() -> (out: PermissionSet)
    ensures
        out.wf(),
        out@ == member_permission_keys(),
{
    let mut out = PermissionSet::new();
    out.insert(Permission::SendMessages);
    out.insert(Permission::DeleteOwnMessages);
    out.insert(Permission::EditOwnMessages);
    out.insert(Permission::SendFiles);
    out.insert(Permission::SendImages);
    out.insert(Permission::SendVideos);
    out.insert(Permission::SendAudio);
    out.insert(Permission::SendDocuments);
    out.insert(Permission::StartVoiceCall);
    out.insert(Permission::StartVideoCall);
    out.insert(Permission::CreatePolls);
    out.insert(Permission::ReadMessages);
    out.insert(Permission::ReadMemberList);
    out.insert(Permission::ReadGroupInfo);
    proof {
        assert(out@ =~= member_permission_keys());
    }
    out
}

/// The default permissions of an observer.
pub fn observer_permissions() -> (out: PermissionSet)
    ensures
        out.wf(),
        out@ == observer_permission_keys(),
{
    let mut out = PermissionSet::new();
    out.insert(Permission::ReadMessages);
    out.insert(Permission::ReadMemberList);
    out.insert(Permission::ReadGroupInfo);
    proof {
        assert(out@ =~= observer_permission_keys());
    }
    out
}

/// The permissions of an administrator in an announcement channel.
pub fn announcement_admin_permissions() -> (out: PermissionSet)
    ensures
        out.wf(),
        out@ == announcement_admin_permission_keys(),
{
    let mut out = PermissionSet::new();
    out.insert(Permission::AddMembers);
    out.insert(Permission::RemoveMembers);
    out.insert(Permission::BanMembers);
    out.insert(Permission::UnbanMembers);
    out.insert(Permission::MuteMembers);
    out.insert(Permission::UnmuteMembers);
    out.insert(Permission::ManageRoles);
    out.insert(Permission::ManageSettings);
    out.insert(Permission::CreateInvites);
    out.insert(Permission::RevokeInvites);
    out.insert(Permission::ReadMessages);
    out.insert(Permission::ReadMemberList);
    out.insert(Permission::ReadGroupInfo);
    out.insert(Permission::AccessAuditLog);
    proof {
        assert(out@ =~= announcement_admin_permission_keys());
    }
    out
}

/// The permissions of one role.
pub struct RoleGrant {
    role: Role,
    permissions: PermissionSet,
}

/// What each role may do, as plain values.
pub type GrantView = Map<PermissionKey, Set<PermissionKey>>;

/// The default grants of a standard group.
pub open spec fn default_grants() -> GrantView {
    Map::<PermissionKey, Set<PermissionKey>>::empty().insert(
        unit_key(0),
        all_permission_keys(),
    ).insert(unit_key(1), admin_permission_keys()).insert(
        unit_key(2),
        moderator_permission_keys(),
    ).insert(unit_key(3), member_permission_keys()).insert(
        unit_key(4),
        observer_permission_keys(),
    )
}

/// The grants of a broadcast channel: members can only read.
pub open spec fn broadcast_grants() -> GrantView {
    default_grants().insert(unit_key(3), observer_permission_keys())
}

/// The grants of an announcement channel: members can only read, and
/// administrators manage but do not post.
pub open spec fn announcement_grants() -> GrantView {
    broadcast_grants().insert(unit_key(1), announcement_admin_permission_keys())
}

/// The permissions of `role`: none where the role has no grant.
pub open spec fn granted(grants: GrantView, role: PermissionKey) -> Set<PermissionKey> {
    if grants.contains_key(role) {
        grants[role]
    } else {
        Set::empty()
    }
}

/// Role-based access control of a group.
pub struct GroupPermissions {
    role_permissions: Vec<RoleGrant>,
}

impl GroupPermissions {
    /// No role has two grants, and every grant is a set.
    pub closed spec fn wf(&self) -> bool {
        &&& forall|i: int, j: int|
            0 <= i < j < self.role_permissions@.len() ==> (
            #[trigger] self.role_permissions@[i]).role@ != (
            #[trigger] self.role_permissions@[j]).role@
        &&& forall|i: int|
            0 <= i < self.role_permissions@.len() ==> (
            #[trigger] self.role_permissions@[i]).permissions.wf()
    }

    spec fn position(&self, role: PermissionKey) -> int {
        choose|i: int|
            0 <= i < self.role_permissions@.len() && (#[trigger] self.role_permissions@[i]).role@
                == role
    }

    /// What each role may do.
    pub closed spec fn view(&self) -> GrantView {
        Map::new(
            |role: PermissionKey|
                exists|i: int|
                    0 <= i < self.role_permissions@.len() && (
                    #[trigger] self.role_permissions@[i]).role@ == role,
            |role: PermissionKey| self.role_permissions@[self.position(role)].permissions@,
        )
    }

    proof fn lemma_grant(&self, i: int)
        requires
            self.wf(),
            0 <= i < self.role_permissions@.len(),
        ensures
            self@.contains_key(self.role_permissions@[i].role@),
            self@[self.role_permissions@[i].role@] == self.role_permissions@[i].permissions@,
    {
        let role = self.role_permissions@[i].role@;
        let p = self.position(role);
        assert(0 <= p < self.role_permissions@.len() && self.role_permissions@[p].role@ == role);
        if p < i {
            assert(self.role_permissions@[p].role@ != self.role_permissions@[i].role@);
        } else if i < p {
            assert(self.role_permissions@[i].role@ != self.role_permissions@[p].role@);
        }
    }

    /// No role may do anything.
    pub fn empty() -> (out: Self)
        ensures
            out.wf(),
            out@ == GrantView::empty(),
    {
        let out = GroupPermissions { role_permissions: Vec::new() };
        proof {
            assert(out@ =~= GrantView::empty());
        }
        out
    }

    fn find(&self, role: &Role) -> (out: Option<usize>)
        requires
            self.wf(),
        ensures
            out is Some <==> self@.contains_key(role@),
            out matches Some(i) ==> i < self.role_permissions@.len()
                && self.role_permissions@[i as int].role@ == role@ && self@[role@]
                == self.role_permissions@[i as int].permissions@,
    {
        let mut i: usize = 0;
        while i < self.role_permissions.len()
            invariant
                self.wf(),
                i <= self.role_permissions@.len(),
                forall|j: int| 0 <= j < i ==> (#[trigger] self.role_permissions@[j]).role@ != role@,
            decreases self.role_permissions@.len() - i,
        {
            if self.role_permissions[i].role.same(role) {
                proof {
                    self.lemma_grant(i as int);
                }
                return Some(i);
            }
            i += 1;
        }
        None
    }

    /// Gives `role` exactly the permissions in `permissions`.
    pub fn set_role(&mut self, role: Role, permissions: PermissionSet)
        requires
            old(self).wf(),
            permissions.wf(),
        ensures
            final(self).wf(),
            final(self)@ == old(self)@.insert(role@, permissions@),
    {
        let ghost key = role@;
        let ghost granted = permissions@;
        match self.find(&role) {
            Some(at) => {
                let _ = self.role_permissions.remove(at);
            },
            None => {},
        }
        let ghost middle = self.role_permissions@;
        proof {
            let before = old(self).role_permissions@;
            assert forall|i: int| 0 <= i < middle.len() implies (#[trigger] middle[i]).role@ != key
                && exists|j: int| 0 <= j < before.len() && before[j] == middle[i] by {
                if old(self)@.contains_key(key) {
                    let at = choose|at: int|
                        0 <= at < before.len() && before[at].role@ == key && middle
                            == before.remove(at);
                    let oi = if i < at { i } else { i + 1 };
                    assert(middle[i] == before[oi]);
                    if oi < at {
                        assert(before[oi].role@ != before[at].role@);
                    } else {
                        assert(before[at].role@ != before[oi].role@);
                    }
                } else {
                    assert(middle[i] == before[i]);
                }
            }
            assert forall|i: int, j: int| 0 <= i < j < middle.len() implies (
            #[trigger] middle[i]).role@ != (#[trigger] middle[j]).role@ by {
                if old(self)@.contains_key(key) {
                    let at = choose|at: int|
                        0 <= at < before.len() && before[at].role@ == key && middle
                            == before.remove(at);
                    let oi = if i < at { i } else { i + 1 };
                    let oj = if j < at { j } else { j + 1 };
                    assert(middle[i] == before[oi]);
                    assert(middle[j] == before[oj]);
                } else {
                    assert(middle[i] == before[i]);
                    assert(middle[j] == before[j]);
                }
            }
        }
        self.role_permissions.push(RoleGrant { role, permissions });
        proof {
            let before = old(self).role_permissions@;
            let after = self.role_permissions@;
            let last = after.len() - 1;
            assert forall|i: int, j: int| 0 <= i < j < after.len() implies (
            #[trigger] after[i]).role@ != (#[trigger] after[j]).role@ by {
                assert(after[i] == middle[i]);
                if j < last {
                    assert(after[j] == middle[j]);
                }
            }
            assert forall|i: int| 0 <= i < after.len() implies (
            #[trigger] after[i]).permissions.wf() by {
                if i < last {
                    assert(after[i] == middle[i]);
                    let j = choose|j: int| 0 <= j < before.len() && before[j] == middle[i];
                    assert(before[j].permissions.wf());
                }
            }
            self.lemma_grant(last);
            assert forall|r: PermissionKey| #[trigger]
                self@.contains_key(r) == old(self)@.insert(key, granted).contains_key(r) && (
                self@.contains_key(r) ==> self@[r] == old(self)@.insert(key, granted)[r]) by {
                if r != key {
                    if self@.contains_key(r) {
                        let p = self.position(r);
                        assert(0 <= p < after.len() && after[p].role@ == r);
                        assert(p != last);
                        assert(after[p] == middle[p]);
                        let j = choose|j: int| 0 <= j < before.len() && before[j] == middle[p];
                        self.lemma_grant(p);
                        old(self).lemma_grant(j);
                    }
                    if old(self)@.contains_key(r) {
                        let j = old(self).position(r);
                        assert(0 <= j < before.len() && before[j].role@ == r);
                        old(self).lemma_grant(j);
                        if old(self)@.contains_key(key) {
                            let at = choose|at: int|
                                0 <= at < before.len() && before[at].role@ == key && middle
                                    == before.remove(at);
                            assert(j != at);
                            let p = if j < at { j } else { j - 1 };
                            assert(middle[p] == before[j]);
                            assert(after[p] == middle[p]);
                            self.lemma_grant(p);
                        } else {
                            assert(middle[j] == before[j]);
                            assert(after[j] == middle[j]);
                            self.lemma_grant(j);
                        }
                    }
                }
            }
            assert(self@ =~= old(self)@.insert(key, granted));
        }
    }

    /// The default permissions of a standard group.
    pub fn default() -> (out: Self)
        ensures
            out.wf(),
            out@ == default_grants(),
    {
        let mut out = GroupPermissions::empty();
        out.set_role(Role::Owner, all_permissions());
        out.set_role(Role::Admin, admin_permissions());
        out.set_role(Role::Moderator, moderator_permissions());
        out.set_role(Role::Member, member_permissions());
        out.set_role(Role::Observer, observer_permissions());
        out
    }

    /// The permissions of a broadcast channel.
    pub fn broadcast_channel() -> (out: Self)
        ensures
            out.wf(),
            out@ == broadcast_grants(),
    {
        let mut out = GroupPermissions::default();
        out.set_role(Role::Member, observer_permissions());
        out
    }

    /// The permissions of an announcement channel.
    pub fn announcement_channel() -> (out: Self)
        ensures
            out.wf(),
            out@ == announcement_grants(),
    {
        let mut out = GroupPermissions::broadcast_channel();
        out.set_role(Role::Admin, announcement_admin_permissions());
        out
    }

    /// Whether `role` has `permission`.
    pub fn role_has_permission(&self, role: &Role, permission: &Permission) -> (out: bool)
        requires
            self.wf(),
        ensures
            out == granted(self@, role@).contains(permission@),
    {
        match self.find(role) {
            Some(i) => self.role_permissions[i].permissions.contains(permission),
            None => false,
        }
    }

    /// All permissions of `role`: none where the role has no grant.
    pub fn get_role_permissions(&self, role: &Role) -> (out: PermissionSet)
        requires
            self.wf(),
        ensures
            out.wf(),
            out@ == granted(self@, role@),
    {
        match self.find(role) {
            Some(i) => self.role_permissions[i].permissions.duplicate(),
            None => PermissionSet::new(),
        }
    }

    /// Gives `role` one more permission. A role without a grant gets one.
    pub fn add_permission_to_role(&mut self, role: Role, permission: Permission)
        requires
            old(self).wf(),
        ensures
            final(self).wf(),
            final(self)@ == old(self)@.insert(
                role@,
                granted(old(self)@, role@).insert(permission@),
            ),
    {
        let mut permissions = self.get_role_permissions(&role);
        permissions.insert(permission);
        self.set_role(role, permissions);
    }

    /// Takes one permission from `role`. A role without a grant stays without.
    pub fn remove_permission_from_role(&mut self, role: &Role, permission: &Permission)
        requires
            old(self).wf(),
        ensures
            final(self).wf(),
            old(self)@.contains_key(role@) ==> final(self)@ == old(self)@.insert(
                role@,
                old(self)@[role@].remove(permission@),
            ),
            !old(self)@.contains_key(role@) ==> final(self)@ == old(self)@,
    {
        if self.find(role).is_some() {
            let mut permissions = self.get_role_permissions(role);
            permissions.remove(permission);
            self.set_role(role.duplicate(), permissions);
        }
    }

    /// Makes a custom role with the permissions in `permissions`.
    pub fn create_custom_role(&mut self, role_name: String, permissions: PermissionSet)
        requires
            old(self).wf(),
            permissions.wf(),
        ensures
            final(self).wf(),
            final(self)@ == old(self)@.insert((5, role_name@), permissions@),
    {
        self.set_role(Role::Custom(role_name), permissions);
    }

    /// Whether a permission can be granted in this group: every one can.
    pub fn is_permission_valid(&self, permission: &Permission) -> (out: bool)
        ensures
            out,
    {
        true
    }

    /// Whether `role1` ranks above `role2`.
    pub fn is_role_higher(&self, role1: &Role, role2: &Role) -> (out: bool)
        ensures
            out == (role_level(role1@) > role_level(role2@)),
    {
        role1.level() > role2.level()
    }

    /// Whether a holder of `modifier_role` may change the role of a holder
    /// of `target_role`.
    pub fn can_modify_role(&self, modifier_role: &Role, target_role: &Role) -> (out: bool)
        ensures
            out == may_modify(modifier_role@, target_role@),
    {
        let modifier = modifier_role.code();
        let target = target_role.code();
        if modifier == 0 {
            true
        } else if modifier == 1 {
            target != 0 && target != 1
        } else if modifier == 2 {
            target == 3 || target == 4
        } else {
            false
        }
    }
}

/// Who may change whose role follows the ranks: a role can only be changed
/// by a holder of a strictly higher role.
pub proof fn law_modifier_ranks_higher(modifier: PermissionKey, target: PermissionKey)
    requires
        0 <= modifier.0 <= 5,
        0 <= target.0 <= 5,
        may_modify(modifier, target),
        modifier.0 != 0,
    ensures
        role_level(modifier) > role_level(target) || target.0 == 5,
{
}

} // verus!
