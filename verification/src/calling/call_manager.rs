//! Calls and their participants.

use vstd::prelude::*;

use crate::bytes::{array16, bytes_equal};
use crate::calling::call_model::{
    acceptance_error, accepted, all_left, call_index, call_of, counts, distinct_calls,
    distinct_participants, ended, has_call, has_participant, initiated, initiation_error,
    invitations, invited, is_departure, left_reason, lemma_call_index, lemma_participant_index,
    live_calls, live_count, media_actions, mute_toggled, participant_index, participants_of,
    rejected, rejected_reason, ringing_actions, screen_shared, screen_sharing, tally_of,
    timed_out, toggled_mute, toggled_video, video_toggled, with_call, with_changed_call,
    with_quality, CallView, Tally,
};
use crate::groups::group_manager::GroupId;
use crate::identity::identity_key::IdentityId;
use crate::primitives::{os_random_bytes, unix_time_secs};

verus! {

/// The identifier of a call.
#[derive(Clone, Copy, PartialEq, Eq, Hash, Debug)]
pub struct CallId(pub [u8; 16]);

/// What kind of call a call is.
#[derive(Clone, Copy, PartialEq, Eq, Debug, Structural)]
pub enum CallType {
    VoiceCall,
    VideoCall,
    GroupVoiceCall,
    GroupVideoCall,
    ScreenShare,
    Conference,
}

/// Where a call stands.
#[derive(Clone, PartialEq, Eq, Debug)]
pub enum CallState {
    Initiating,
    Ringing,
    Active,
    OnHold,
    Transferring,
    Ended,
    Cancelled,
    Failed { reason: String },
    Rejected,
    TimedOut,
}

/// Where a participant of a call stands.
#[derive(Clone, Copy, PartialEq, Eq, Debug, Structural)]
pub enum ParticipantState {
    Invited,
    Connecting,
    Connected,
    Disconnected,
    Left,
    Kicked,
}

/// What media a participant sends.
pub struct MediaState {
    pub audio_enabled: bool,
    pub video_enabled: bool,
    pub screen_share_enabled: bool,
    pub audio_codec: Option<String>,
    pub video_codec: Option<String>,
    pub bitrate: Option<u32>,
    pub resolution: Option<(u32, u32)>,
    pub frame_rate: Option<u32>,
}

impl Default for MediaState {
    fn default() -> (out: Self)
        ensures
            out.audio_enabled,
            !out.video_enabled,
            !out.screen_share_enabled,
            out.audio_codec is None,
            out.video_codec is None,
            out.bitrate is None,
            out.resolution is None,
            out.frame_rate is None,
    {
        MediaState {
            audio_enabled: true,
            video_enabled: false,
            screen_share_enabled: false,
            audio_codec: None,
            video_codec: None,
            bitrate: None,
            resolution: None,
            frame_rate: None,
        }
    }
}

/// The picture quality of a call.
#[derive(Clone, Copy, PartialEq, Eq, Debug, Structural)]
pub enum VideoQuality {
    Low,
    Medium,
    High,
    HD,
    UHD,
    Auto,
}

/// The sound quality of a call.
#[derive(Clone, Copy, PartialEq, Eq, Debug, Structural)]
pub enum AudioQuality {
    Low,
    Medium,
    High,
    Studio,
    Auto,
}

/// The settings of a call.
#[derive(Clone, Copy, Debug)]
pub struct CallSettings {
    pub max_participants: Option<usize>,
    pub require_encryption: bool,
    pub allow_recording: bool,
    pub auto_mute_on_join: bool,
    pub enable_noise_cancellation: bool,
    pub enable_echo_cancellation: bool,
    pub video_quality: VideoQuality,
    pub audio_quality: AudioQuality,
    pub bandwidth_limit: Option<u32>,
}

impl Default for CallSettings {
    fn default() -> (out: Self)
        ensures
            out.max_participants == Some(8usize),
            out.require_encryption,
            !out.allow_recording,
            !out.auto_mute_on_join,
            out.enable_noise_cancellation,
            out.enable_echo_cancellation,
            out.video_quality == VideoQuality::Auto,
            out.audio_quality == AudioQuality::Auto,
            out.bandwidth_limit is None,
    {
        CallSettings {
            max_participants: Some(8),
            require_encryption: true,
            allow_recording: false,
            auto_mute_on_join: false,
            enable_noise_cancellation: true,
            enable_echo_cancellation: true,
            video_quality: VideoQuality::Auto,
            audio_quality: AudioQuality::Auto,
            bandwidth_limit: None,
        }
    }
}

/// A TURN server and how to log in to it.
pub struct TurnServer {
    pub url: String,
    pub username: String,
    pub credential: String,
}

/// The settings of the call manager.
pub struct CallManagerConfig {
    pub max_concurrent_calls: usize,
    /// After how many seconds a call without activity ends.
    pub call_timeout_secs: u64,
    /// For how many seconds a call rings.
    pub ring_timeout_secs: u64,
    pub reconnection_attempts: u32,
    pub enable_p2p_optimization: bool,
    pub stun_servers: Vec<String>,
    pub turn_servers: Vec<TurnServer>,
}

impl Default for CallManagerConfig {
    fn default() -> (out: Self)
        ensures
            out.max_concurrent_calls == 10,
            out.call_timeout_secs == 300,
            out.ring_timeout_secs == 60,
            out.reconnection_attempts == 3,
            out.enable_p2p_optimization,
            out.stun_servers@.len() == 2,
            out.stun_servers@[0]@ == "stun:stun.l.google.com:19302"@,
            out.stun_servers@[1]@ == "stun:stun1.l.google.com:19302"@,
            out.turn_servers@.len() == 0,
    {
        let mut stun_servers: Vec<String> = Vec::new();
        stun_servers.push("stun:stun.l.google.com:19302".to_string());
        stun_servers.push("stun:stun1.l.google.com:19302".to_string());
        CallManagerConfig {
            max_concurrent_calls: 10,
            call_timeout_secs: 300,
            ring_timeout_secs: 60,
            reconnection_attempts: 3,
            enable_p2p_optimization: true,
            stun_servers,
            turn_servers: Vec::new(),
        }
    }
}

/// Whether one more call can be held beside `active` calls.
pub fn can_start_call(active: usize, config: &CallManagerConfig) -> (out: bool)
    ensures
        out == (active < config.max_concurrent_calls),
{
    active < config.max_concurrent_calls
}

impl MediaState {
    /// A copy of the state.
    pub fn duplicate(&self) -> (out: MediaState)
        ensures
            out == *self,
    {
        MediaState {
            audio_enabled: self.audio_enabled,
            video_enabled: self.video_enabled,
            screen_share_enabled: self.screen_share_enabled,
            audio_codec: match &self.audio_codec {
                Some(codec) => Some(codec.clone()),
                None => None,
            },
            video_codec: match &self.video_codec {
                Some(codec) => Some(codec.clone()),
                None => None,
            },
            bitrate: self.bitrate,
            resolution: self.resolution,
            frame_rate: self.frame_rate,
        }
    }
}

/// How good a participant's connection is.
#[derive(Clone, Copy, PartialEq, Eq, Debug, Structural)]
pub struct ConnectionQuality {
    /// From 0 to 100.
    pub signal_strength: u8,
    /// The share of packets lost, in hundredths of a percent.
    pub packet_loss: u32,
    /// In milliseconds.
    pub latency: u32,
    /// In milliseconds.
    pub jitter: u32,
    /// In kilobits per second.
    pub bandwidth: u32,
    /// From 0 to 5, the best.
    pub quality_score: u8,
}

impl Default for ConnectionQuality {
    fn default() -> (out: Self)
        ensures
            out == (ConnectionQuality {
                signal_strength: 100,
                packet_loss: 0,
                latency: 0,
                jitter: 0,
                bandwidth: 0,
                quality_score: 5,
            }),
    {
        ConnectionQuality {
            signal_strength: 100,
            packet_loss: 0,
            latency: 0,
            jitter: 0,
            bandwidth: 0,
            quality_score: 5,
        }
    }
}

/// What was measured over a call.
#[derive(Clone, Copy, PartialEq, Eq, Debug, Structural)]
pub struct CallQualityStats {
    pub duration: Option<u64>,
    /// The share of packets lost on average, in hundredths of a percent.
    pub avg_packet_loss: u32,
    pub avg_latency: u32,
    pub avg_jitter: u32,
    pub total_bytes_sent: u64,
    pub total_bytes_received: u64,
    pub reconnection_count: u32,
    pub quality_degradation_events: u32,
}

impl Default for CallQualityStats {
    fn default() -> (out: Self)
        ensures
            out == (CallQualityStats {
                duration: None,
                avg_packet_loss: 0,
                avg_latency: 0,
                avg_jitter: 0,
                total_bytes_sent: 0,
                total_bytes_received: 0,
                reconnection_count: 0,
                quality_degradation_events: 0,
            }),
    {
        CallQualityStats {
            duration: None,
            avg_packet_loss: 0,
            avg_latency: 0,
            avg_jitter: 0,
            total_bytes_sent: 0,
            total_bytes_received: 0,
            reconnection_count: 0,
            quality_degradation_events: 0,
        }
    }
}

/// One who is asked into a call: who it is, with which key, under which
/// name.
pub struct Invitee {
    pub identity_id: IdentityId,
    pub identity_key: Vec<u8>,
    pub display_name: String,
}

/// A participant of a call.
pub struct CallParticipant {
    pub identity_id: IdentityId,
    /// The participant's public identity key.
    pub identity_key: Vec<u8>,
    pub display_name: String,
    pub participant_state: ParticipantState,
    pub media_state: MediaState,
    pub connection_quality: ConnectionQuality,
    pub joined_at: Option<u64>,
    pub left_at: Option<u64>,
    pub is_muted: bool,
    pub is_video_enabled: bool,
    pub is_screen_sharing: bool,
}

/// A call.
pub struct Call {
    pub id: CallId,
    pub call_type: CallType,
    pub state: CallState,
    /// The participants, in the order in which they were asked.
    pub participants: Vec<CallParticipant>,
    pub initiator: IdentityId,
    pub group_id: Option<GroupId>,
    pub created_at: u64,
    pub started_at: Option<u64>,
    pub ended_at: Option<u64>,
    pub settings: CallSettings,
    pub quality_stats: CallQualityStats,
}

impl View for Call {
    type V = CallView;

    open spec fn view(&self) -> CallView {
        CallView {
            id: self.id.0@,
            call_type: self.call_type,
            state: self.state,
            participants: self.participants@,
            initiator: self.initiator.0@,
            group_id: self.group_id,
            created_at: self.created_at,
            started_at: self.started_at,
            ended_at: self.ended_at,
            settings: self.settings,
            quality_stats: self.quality_stats,
        }
    }
}

/// What happened in a call, for those who watch it.
pub enum CallEvent {
    IncomingCall { call_id: CallId, caller: IdentityId, call_type: CallType },
    CallStateChanged { call_id: CallId, old_state: CallState, new_state: CallState },
    ParticipantJoined { call_id: CallId, participant: IdentityId },
    ParticipantLeft { call_id: CallId, participant: IdentityId, reason: String },
    MediaStateChanged { call_id: CallId, participant: IdentityId, media_state: MediaState },
    QualityChanged { call_id: CallId, participant: IdentityId, quality: ConnectionQuality },
    CallError { call_id: CallId, error: String },
}

/// What is to be done after a change to a call.
pub enum CallAction {
    /// Ask `to` into the call.
    SendInvitation {
        to: IdentityId,
        call_id: CallId,
        caller: IdentityId,
        call_type: CallType,
        settings: CallSettings,
    },
    /// Tell those who watch.
    Notify { event: CallEvent },
    /// Let the call ring for so many seconds, then report that the time is up.
    StartRingTimer { call_id: CallId, seconds: u64 },
    /// Set up the media connection of a participant.
    OpenConnection { call_id: CallId, participant: IdentityId },
    /// Take down the media connection of a participant.
    CloseConnection { call_id: CallId, participant: IdentityId },
    /// Switch a participant's sound on or off.
    SetAudio { call_id: CallId, participant: IdentityId, enabled: bool },
    /// Switch a participant's picture on or off.
    SetVideo { call_id: CallId, participant: IdentityId, enabled: bool },
    /// Start to capture a participant's screen.
    StartScreenCapture { call_id: CallId, participant: IdentityId },
}

/// Why a change to a call was refused.
#[derive(Clone, Copy, PartialEq, Eq, Debug, Structural)]
pub enum CallError {
    /// Nobody was asked into the call.
    NoParticipants,
    /// More were asked than the call's settings allow.
    TooManyParticipants,
    /// As many calls ring or run as the manager's settings allow.
    TooManyCalls,
    /// There is no call with the identifier.
    CallNotFound,
    /// The one who answers was not asked into the call.
    NotInvited,
    /// The call does not ring.
    NotRinging,
    /// The call has no participant with the identifier.
    ParticipantNotFound,
    /// The operating system gave no random bytes for the call's identifier.
    EntropyUnavailable,
}

fn find_participant(participants: &Vec<CallParticipant>, id: &IdentityId) -> (out: Option<usize>)
    requires
        distinct_participants(participants@),
    ensures
        out is Some <==> has_participant(participants@, id.0@),
        out matches Some(at) ==> at < participants@.len() && at == participant_index(
            participants@,
            id.0@,
        ),
{
    let mut i: usize = 0;
    while i < participants.len()
        invariant
            i <= participants@.len(),
            distinct_participants(participants@),
            forall|j: int| 0 <= j < i ==> (#[trigger] participants@[j]).identity_id.0@ != id.0@,
        decreases participants@.len() - i,
    {
        if bytes_equal(participants[i].identity_id.0.as_slice(), id.0.as_slice()) {
            proof {
                lemma_participant_index(participants@, i as int);
            }
            return Some(i);
        }
        i += 1;
    }
    None
}

fn counts_for(state: ParticipantState, tally: &Tally) -> (out: bool)
    ensures
        out == counts(state, *tally),
{
    match tally {
        Tally::Connecting => match state {
            ParticipantState::Connecting => true,
            _ => false,
        },
        Tally::Connected => match state {
            ParticipantState::Connected => true,
            _ => false,
        },
        Tally::Engaged => match state {
            ParticipantState::Invited => true,
            ParticipantState::Connecting => true,
            ParticipantState::Connected => true,
            _ => false,
        },
    }
}

fn tally(participants: &Vec<CallParticipant>, which: &Tally) -> (out: usize)
    ensures
        out == tally_of(participants@, *which),
{
    let mut count: usize = 0;
    let mut i: usize = 0;
    while i < participants.len()
        invariant
            i <= participants@.len(),
            count == tally_of(participants@.take(i as int), *which),
            count <= i,
        decreases participants@.len() - i,
    {
        assert(participants@.take(i + 1).drop_last() =~= participants@.take(i as int));
        if counts_for(participants[i].participant_state, which) {
            count += 1;
        }
        i += 1;
    }
    assert(participants@.take(i as int) =~= participants@);
    count
}

impl Call {
    /// No two participants have the same identifier.
    pub open spec fn wf(&self) -> bool {
        distinct_participants(self.participants@)
    }

    /// The participant with the identifier `id`, if the call has one.
    pub fn participant(&self, id: &IdentityId) -> (out: Option<&CallParticipant>)
        requires
            self.wf(),
        ensures
            out is Some <==> has_participant(self.participants@, id.0@),
            out matches Some(p) ==> *p == self.participants@[participant_index(
                self.participants@,
                id.0@,
            )],
    {
        match find_participant(&self.participants, id) {
            Some(at) => Some(&self.participants[at]),
            None => None,
        }
    }

    /// The participant at `at` with the state `state`, having left at
    /// time `now`.
    fn leave_at(&mut self, at: usize, now: u64)
        requires
            old(self).wf(),
            at < old(self).participants@.len(),
        ensures
            final(self).wf(),
            final(self).id == old(self).id,
            final(self)@ == (CallView {
                participants: old(self).participants@.update(
                    at as int,
                    CallParticipant {
                        participant_state: ParticipantState::Left,
                        left_at: Some(now),
                        ..old(self).participants@[at as int]
                    },
                ),
                ..old(self)@
            }),
    {
        let mut p = self.participants.remove(at);
        p.participant_state = ParticipantState::Left;
        p.left_at = Some(now);
        self.participants.insert(at, p);
        proof {
            let before = old(self).participants@;
            let after = self.participants@;
            assert(after =~= before.update(at as int, p));
            assert forall|i: int, j: int| 0 <= i < j < after.len() implies (
            #[trigger] after[i]).identity_id.0@ != (#[trigger] after[j]).identity_id.0@ by {
                assert(after[i].identity_id == before[i].identity_id);
                assert(after[j].identity_id == before[j].identity_id);
            }
        }
    }

    /// Puts `participant` in the place of the participant at `at`, who
    /// has the same identifier.
    fn put(&mut self, at: usize, participant: CallParticipant)
        requires
            old(self).wf(),
            at < old(self).participants@.len(),
            participant.identity_id == old(self).participants@[at as int].identity_id,
        ensures
            final(self).wf(),
            final(self).id == old(self).id,
            final(self)@ == (CallView {
                participants: old(self).participants@.update(at as int, participant),
                ..old(self)@
            }),
    {
        let _ = self.participants.remove(at);
        self.participants.insert(at, participant);
        proof {
            let before = old(self).participants@;
            let after = self.participants@;
            assert(after =~= before.update(at as int, participant));
            assert forall|i: int, j: int| 0 <= i < j < after.len() implies (
            #[trigger] after[i]).identity_id.0@ != (#[trigger] after[j]).identity_id.0@ by {
                assert(after[i].identity_id == before[i].identity_id);
                assert(after[j].identity_id == before[j].identity_id);
            }
        }
    }

    /// Lets one who was asked accept the call at time `now`. The call
    /// must ring. With the first to accept it runs.
    pub fn accept(&mut self, participant: IdentityId, now: u64) -> (out: Result<
        Vec<CallAction>,
        CallError,
    >)
        requires
            old(self).wf(),
        ensures
            final(self).wf(),
            match acceptance_error(old(self)@, participant.0@) {
                Some(e) => out == Err::<Vec<CallAction>, CallError>(e) && *final(self) == *old(self),
                None => out matches Ok(actions) && actions@ == seq![
                    CallAction::OpenConnection { call_id: old(self).id, participant },
                    CallAction::Notify {
                        event: CallEvent::ParticipantJoined { call_id: old(self).id, participant },
                    },
                ] && final(self)@ == accepted(old(self)@, participant.0@, now),
            },
    {
        let at = match find_participant(&self.participants, &participant) {
            Some(at) => at,
            None => {
                return Err(CallError::NotInvited);
            },
        };
        match self.state {
            CallState::Ringing => {},
            _ => {
                return Err(CallError::NotRinging);
            },
        }
        let mut p = self.participants.remove(at);
        p.participant_state = ParticipantState::Connecting;
        p.joined_at = Some(now);
        self.participants.insert(at, p);
        proof {
            let before = old(self).participants@;
            let after = self.participants@;
            assert(after =~= before.update(at as int, p));
            assert forall|i: int, j: int| 0 <= i < j < after.len() implies (
            #[trigger] after[i]).identity_id.0@ != (#[trigger] after[j]).identity_id.0@ by {
                assert(after[i].identity_id == before[i].identity_id);
                assert(after[j].identity_id == before[j].identity_id);
            }
        }
        if tally(&self.participants, &Tally::Connecting) == 1 {
            self.state = CallState::Active;
            self.started_at = Some(now);
        }
        let mut actions: Vec<CallAction> = Vec::new();
        actions.push(CallAction::OpenConnection { call_id: self.id, participant });
        actions.push(
            CallAction::Notify {
                event: CallEvent::ParticipantJoined { call_id: self.id, participant },
            },
        );
        Ok(actions)
    }

    /// Lets one who was asked reject the call at time `now`. When nobody
    /// is left who was asked, is connecting or is connected, the call is
    /// rejected.
    pub fn reject(&mut self, participant: IdentityId, now: u64) -> (out: Result<
        Vec<CallAction>,
        CallError,
    >)
        requires
            old(self).wf(),
        ensures
            final(self).wf(),
            !has_participant(old(self)@.participants, participant.0@) ==> out == Err::<
                Vec<CallAction>,
                CallError,
            >(CallError::NotInvited) && *final(self) == *old(self),
            has_participant(old(self)@.participants, participant.0@) ==> (out matches Ok(actions)
                && actions@.len() == 1 && is_departure(
                actions@[0],
                old(self).id,
                participant,
                rejected_reason(),
            )) && final(self)@ == rejected(old(self)@, participant.0@, now),
    {
        let at = match find_participant(&self.participants, &participant) {
            Some(at) => at,
            None => {
                return Err(CallError::NotInvited);
            },
        };
        self.leave_at(at, now);
        if tally(&self.participants, &Tally::Engaged) == 0 {
            self.state = CallState::Rejected;
            self.ended_at = Some(now);
        }
        let reason = "Rejected".to_string();
        proof {
            reveal_strlit("Rejected");
            assert(reason@ =~= rejected_reason());
        }
        let mut actions: Vec<CallAction> = Vec::new();
        actions.push(
            CallAction::Notify {
                event: CallEvent::ParticipantLeft { call_id: self.id, participant, reason },
            },
        );
        Ok(actions)
    }

    /// Lets everyone who is connected leave at time `now`.
    fn leave_all(&mut self, now: u64)
        requires
            old(self).wf(),
        ensures
            final(self).wf(),
            final(self).id == old(self).id,
            final(self)@ == (CallView {
                participants: all_left(old(self).participants@, now),
                ..old(self)@
            }),
    {
        let mut i: usize = 0;
        while i < self.participants.len()
            invariant
                i <= self.participants@.len(),
                self.participants@.len() == old(self).participants@.len(),
                forall|j: int|
                    0 <= j < i ==> (#[trigger] self.participants@[j]) == all_left(
                        old(self).participants@,
                        now,
                    )[j],
                forall|j: int|
                    i <= j < self.participants@.len() ==> (#[trigger] self.participants@[j]) == old(self).participants@[j],
                (CallView { participants: old(self).participants@, ..self@ }) == old(self)@,
                self.id == old(self).id,
                old(self).wf(),
            decreases self.participants@.len() - i,
        {
            let ghost before = self.participants@;
            let mut p = self.participants.remove(i);
            match p.participant_state {
                ParticipantState::Connected => {
                    p.participant_state = ParticipantState::Left;
                    p.left_at = Some(now);
                },
                _ => {},
            }
            self.participants.insert(i, p);
            assert(self.participants@ =~= before.update(i as int, p));
            i += 1;
        }
        proof {
            let before = old(self).participants@;
            let after = self.participants@;
            assert(after =~= all_left(before, now));
            assert forall|a: int, b: int| 0 <= a < b < after.len() implies (
            #[trigger] after[a]).identity_id.0@ != (#[trigger] after[b]).identity_id.0@ by {
                assert(after[a].identity_id == before[a].identity_id);
                assert(after[b].identity_id == before[b].identity_id);
            }
        }
    }

    /// Ends the call for `participant` at time `now`. The initiator ends
    /// it for everyone. Anyone else leaves alone, and the call ends when
    /// at most one is still connected.
    pub fn end(&mut self, participant: IdentityId, now: u64) -> (out: Vec<CallAction>)
        requires
            old(self).wf(),
        ensures
            final(self).wf(),
            final(self)@ == ended(old(self)@, participant.0@, now),
            out@.len() == 2,
            out@[0] == (CallAction::CloseConnection { call_id: old(self).id, participant }),
            is_departure(out@[1], old(self).id, participant, left_reason()),
    {
        if bytes_equal(participant.0.as_slice(), self.initiator.0.as_slice()) {
            self.state = CallState::Ended;
            self.ended_at = Some(now);
            self.leave_all(now);
        } else {
            match find_participant(&self.participants, &participant) {
                Some(at) => {
                    self.leave_at(at, now);
                },
                None => {},
            }
            if tally(&self.participants, &Tally::Connected) <= 1 {
                self.state = CallState::Ended;
                self.ended_at = Some(now);
            }
        }
        let reason = "Left call".to_string();
        proof {
            reveal_strlit("Left call");
            assert(reason@ =~= left_reason());
        }
        let mut actions: Vec<CallAction> = Vec::new();
        actions.push(CallAction::CloseConnection { call_id: self.id, participant });
        actions.push(
            CallAction::Notify {
                event: CallEvent::ParticipantLeft { call_id: self.id, participant, reason },
            },
        );
        actions
    }

    /// Switches the sound of a participant. Returns whether the
    /// participant is muted now, and what is to be done.
    pub fn toggle_mute(&mut self, participant: IdentityId) -> (out: Result<
        (bool, Vec<CallAction>),
        CallError,
    >)
        requires
            old(self).wf(),
        ensures
            final(self).wf(),
            !has_participant(old(self)@.participants, participant.0@) ==> out == Err::<
                (bool, Vec<CallAction>),
                CallError,
            >(CallError::ParticipantNotFound) && *final(self) == *old(self),
            has_participant(old(self)@.participants, participant.0@) ==> {
                let now = mute_toggled(
                    old(self)@.participants[participant_index(
                        old(self)@.participants,
                        participant.0@,
                    )],
                );
                &&& final(self)@ == toggled_mute(old(self)@, participant.0@)
                &&& out matches Ok(done)
                &&& done.0 == now.is_muted
                &&& done.1@ == media_actions(
                    CallAction::SetAudio {
                        call_id: old(self).id,
                        participant,
                        enabled: !now.is_muted,
                    },
                    old(self).id,
                    participant,
                    now.media_state,
                )
            },
    {
        let at = match find_participant(&self.participants, &participant) {
            Some(at) => at,
            None => {
                return Err(CallError::ParticipantNotFound);
            },
        };
        let mut p = self.participants.remove(at);
        p.is_muted = !p.is_muted;
        p.media_state.audio_enabled = !p.is_muted;
        let muted = p.is_muted;
        let media_state = p.media_state.duplicate();
        self.participants.insert(at, p);
        proof {
            let before = old(self).participants@;
            let after = self.participants@;
            assert(after =~= before.update(at as int, p));
            assert(p == mute_toggled(before[at as int]));
            assert forall|i: int, j: int| 0 <= i < j < after.len() implies (
            #[trigger] after[i]).identity_id.0@ != (#[trigger] after[j]).identity_id.0@ by {
                assert(after[i].identity_id == before[i].identity_id);
                assert(after[j].identity_id == before[j].identity_id);
            }
        }
        let mut actions: Vec<CallAction> = Vec::new();
        actions.push(CallAction::SetAudio { call_id: self.id, participant, enabled: !muted });
        actions.push(
            CallAction::Notify {
                event: CallEvent::MediaStateChanged { call_id: self.id, participant, media_state },
            },
        );
        Ok((muted, actions))
    }

    /// Switches the picture of a participant. Returns whether the
    /// participant shows a picture now, and what is to be done.
    pub fn toggle_video(&mut self, participant: IdentityId) -> (out: Result<
        (bool, Vec<CallAction>),
        CallError,
    >)
        requires
            old(self).wf(),
        ensures
            final(self).wf(),
            !has_participant(old(self)@.participants, participant.0@) ==> out == Err::<
                (bool, Vec<CallAction>),
                CallError,
            >(CallError::ParticipantNotFound) && *final(self) == *old(self),
            has_participant(old(self)@.participants, participant.0@) ==> {
                let now = video_toggled(
                    old(self)@.participants[participant_index(
                        old(self)@.participants,
                        participant.0@,
                    )],
                );
                &&& final(self)@ == toggled_video(old(self)@, participant.0@)
                &&& out matches Ok(done)
                &&& done.0 == now.is_video_enabled
                &&& done.1@ == media_actions(
                    CallAction::SetVideo {
                        call_id: old(self).id,
                        participant,
                        enabled: now.is_video_enabled,
                    },
                    old(self).id,
                    participant,
                    now.media_state,
                )
            },
    {
        let at = match find_participant(&self.participants, &participant) {
            Some(at) => at,
            None => {
                return Err(CallError::ParticipantNotFound);
            },
        };
        let mut p = self.participants.remove(at);
        p.is_video_enabled = !p.is_video_enabled;
        p.media_state.video_enabled = p.is_video_enabled;
        let shown = p.is_video_enabled;
        let media_state = p.media_state.duplicate();
        self.participants.insert(at, p);
        proof {
            let before = old(self).participants@;
            let after = self.participants@;
            assert(after =~= before.update(at as int, p));
            assert(p == video_toggled(before[at as int]));
            assert forall|i: int, j: int| 0 <= i < j < after.len() implies (
            #[trigger] after[i]).identity_id.0@ != (#[trigger] after[j]).identity_id.0@ by {
                assert(after[i].identity_id == before[i].identity_id);
                assert(after[j].identity_id == before[j].identity_id);
            }
        }
        let mut actions: Vec<CallAction> = Vec::new();
        actions.push(CallAction::SetVideo { call_id: self.id, participant, enabled: shown });
        actions.push(
            CallAction::Notify {
                event: CallEvent::MediaStateChanged { call_id: self.id, participant, media_state },
            },
        );
        Ok((shown, actions))
    }

    /// Lets a participant begin to share the screen.
    pub fn start_screen_share(&mut self, participant: IdentityId) -> (out: Result<
        Vec<CallAction>,
        CallError,
    >)
        requires
            old(self).wf(),
        ensures
            final(self).wf(),
            !has_participant(old(self)@.participants, participant.0@) ==> out == Err::<
                Vec<CallAction>,
                CallError,
            >(CallError::ParticipantNotFound) && *final(self) == *old(self),
            has_participant(old(self)@.participants, participant.0@) ==> final(self)@
                == screen_shared(old(self)@, participant.0@) && (out matches Ok(actions)
                && actions@ == media_actions(
                CallAction::StartScreenCapture { call_id: old(self).id, participant },
                old(self).id,
                participant,
                screen_sharing(
                    old(self)@.participants[participant_index(
                        old(self)@.participants,
                        participant.0@,
                    )],
                ).media_state,
            )),
    {
        let at = match find_participant(&self.participants, &participant) {
            Some(at) => at,
            None => {
                return Err(CallError::ParticipantNotFound);
            },
        };
        let mut p = self.participants.remove(at);
        p.is_screen_sharing = true;
        p.media_state.screen_share_enabled = true;
        let media_state = p.media_state.duplicate();
        self.participants.insert(at, p);
        proof {
            let before = old(self).participants@;
            let after = self.participants@;
            assert(after =~= before.update(at as int, p));
            assert(p == screen_sharing(before[at as int]));
            assert forall|i: int, j: int| 0 <= i < j < after.len() implies (
            #[trigger] after[i]).identity_id.0@ != (#[trigger] after[j]).identity_id.0@ by {
                assert(after[i].identity_id == before[i].identity_id);
                assert(after[j].identity_id == before[j].identity_id);
            }
        }
        let mut actions: Vec<CallAction> = Vec::new();
        actions.push(CallAction::StartScreenCapture { call_id: self.id, participant });
        actions.push(
            CallAction::Notify {
                event: CallEvent::MediaStateChanged { call_id: self.id, participant, media_state },
            },
        );
        Ok(actions)
    }

    /// Records how good the connection of a participant is. Nothing
    /// changes and nothing is to be done where the call has no such
    /// participant.
    pub fn update_quality(&mut self, participant: IdentityId, quality: ConnectionQuality) -> (out:
        Vec<CallAction>)
        requires
            old(self).wf(),
        ensures
            final(self).wf(),
            final(self)@ == with_quality(old(self)@, participant.0@, quality),
            out@ == if has_participant(old(self)@.participants, participant.0@) {
                seq![
                    CallAction::Notify {
                        event: CallEvent::QualityChanged {
                            call_id: old(self).id,
                            participant,
                            quality,
                        },
                    },
                ]
            } else {
                Seq::<CallAction>::empty()
            },
    {
        let mut actions: Vec<CallAction> = Vec::new();
        match find_participant(&self.participants, &participant) {
            Some(at) => {
                let mut p = self.participants.remove(at);
                p.connection_quality = quality;
                self.participants.insert(at, p);
                proof {
                    let before = old(self).participants@;
                    let after = self.participants@;
                    assert(after =~= before.update(at as int, p));
                    assert forall|i: int, j: int| 0 <= i < j < after.len() implies (
                    #[trigger] after[i]).identity_id.0@ != (#[trigger] after[j]).identity_id.0@ by {
                        assert(after[i].identity_id == before[i].identity_id);
                        assert(after[j].identity_id == before[j].identity_id);
                    }
                }
                actions.push(
                    CallAction::Notify {
                        event: CallEvent::QualityChanged { call_id: self.id, participant, quality },
                    },
                );
            },
            None => {},
        }
        actions
    }

    /// Ends the ringing at time `now`: a call that still rings has timed
    /// out; any other stays as it is.
    pub fn ring_timeout(&mut self, now: u64) -> (out: Vec<CallAction>)
        requires
            old(self).wf(),
        ensures
            final(self).wf(),
            final(self)@ == timed_out(old(self)@, now),
            out@ == if old(self).state is Ringing {
                seq![
                    CallAction::Notify {
                        event: CallEvent::CallStateChanged {
                            call_id: old(self).id,
                            old_state: CallState::Ringing,
                            new_state: CallState::TimedOut,
                        },
                    },
                ]
            } else {
                Seq::<CallAction>::empty()
            },
    {
        let mut actions: Vec<CallAction> = Vec::new();
        let rings = match self.state {
            CallState::Ringing => true,
            _ => false,
        };
        if rings {
            self.state = CallState::TimedOut;
            self.ended_at = Some(now);
            actions.push(
                CallAction::Notify {
                    event: CallEvent::CallStateChanged {
                        call_id: self.id,
                        old_state: CallState::Ringing,
                        new_state: CallState::TimedOut,
                    },
                },
            );
        }
        actions
    }
}

/// The calls of `calls` as plain values, one for one.
pub open spec fn call_views(calls: Seq<Call>) -> Seq<CallView> {
    Seq::new(calls.len(), |i: int| calls[i]@)
}

/// Makes those who are asked into a call its participants. One who is
/// asked twice is in it once, as asked last.
fn invite_all(invitees: Vec<Invitee>, call_type: CallType, settings: &CallSettings) -> (out: Vec<
    CallParticipant,
>)
    ensures
        out@ == participants_of(invitees@, call_type, *settings),
        distinct_participants(out@),
{
    let with_video = match call_type {
        CallType::VideoCall => true,
        CallType::GroupVideoCall => true,
        _ => false,
    };
    let mut rest = invitees;
    let mut out: Vec<CallParticipant> = Vec::new();
    let ghost mut done: int = 0;
    assert(invitees@.take(0) =~= Seq::<Invitee>::empty());
    while rest.len() > 0
        invariant
            0 <= done <= invitees@.len(),
            rest@ == invitees@.skip(done),
            out@ == participants_of(invitees@.take(done), call_type, *settings),
            distinct_participants(out@),
            with_video == (call_type == CallType::VideoCall || call_type
                == CallType::GroupVideoCall),
        decreases rest@.len(),
    {
        let invitee = rest.remove(0);
        proof {
            assert(invitee == invitees@[done]);
            assert(rest@ =~= invitees@.skip(done + 1));
            assert(invitees@.take(done + 1).drop_last() =~= invitees@.take(done));
            assert(invitees@.take(done + 1).last() == invitee);
        }
        let participant = CallParticipant {
            identity_id: invitee.identity_id,
            identity_key: invitee.identity_key,
            display_name: invitee.display_name,
            participant_state: ParticipantState::Invited,
            media_state: MediaState::default(),
            connection_quality: ConnectionQuality::default(),
            joined_at: None,
            left_at: None,
            is_muted: settings.auto_mute_on_join,
            is_video_enabled: with_video,
            is_screen_sharing: false,
        };
        assert(participant == invited(invitee, call_type, *settings));
        let ghost before = out@;
        match find_participant(&out, &participant.identity_id) {
            Some(at) => {
                let _ = out.remove(at);
                out.insert(at, participant);
                proof {
                    assert(out@ =~= before.update(at as int, participant));
                    assert forall|i: int, j: int| 0 <= i < j < out@.len() implies (
                    #[trigger] out@[i]).identity_id.0@ != (#[trigger] out@[j]).identity_id.0@ by {
                        assert(out@[i].identity_id.0@ == before[i].identity_id.0@);
                        assert(out@[j].identity_id.0@ == before[j].identity_id.0@);
                    }
                }
            },
            None => {
                out.push(participant);
                proof {
                    assert forall|i: int, j: int| 0 <= i < j < out@.len() implies (
                    #[trigger] out@[i]).identity_id.0@ != (#[trigger] out@[j]).identity_id.0@ by {
                        assert(out@[i] == before[i]);
                        if j < before.len() {
                            assert(out@[j] == before[j]);
                        }
                    }
                }
            },
        }
        proof {
            done = done + 1;
        }
    }
    assert(invitees@.take(done) =~= invitees@);
    out
}

/// What is to be done to ask `participants` into a call.
fn invite_actions(
    participants: &Vec<CallParticipant>,
    call_id: CallId,
    initiator: IdentityId,
    call_type: CallType,
    settings: CallSettings,
) -> (out: Vec<CallAction>)
    ensures
        out@ == invitations(participants@, call_id, initiator, call_type, settings),
{
    let mut out: Vec<CallAction> = Vec::new();
    let mut i: usize = 0;
    assert(participants@.take(0) =~= Seq::<CallParticipant>::empty());
    while i < participants.len()
        invariant
            i <= participants@.len(),
            out@ == invitations(
                participants@.take(i as int),
                call_id,
                initiator,
                call_type,
                settings,
            ),
        decreases participants@.len() - i,
    {
        assert(participants@.take(i + 1).drop_last() =~= participants@.take(i as int));
        assert(participants@.take(i + 1).last() == participants@[i as int]);
        if !bytes_equal(participants[i].identity_id.0.as_slice(), initiator.0.as_slice()) {
            out.push(
                CallAction::SendInvitation {
                    to: participants[i].identity_id,
                    call_id,
                    caller: initiator,
                    call_type,
                    settings,
                },
            );
            out.push(
                CallAction::Notify {
                    event: CallEvent::IncomingCall { call_id, caller: initiator, call_type },
                },
            );
        }
        i += 1;
    }
    assert(participants@.take(i as int) =~= participants@);
    out
}

/// Sixteen random bytes of the operating system as the identifier of a
/// call, where it gives them.
fn generate_call_id() -> (out: Option<CallId>) {
    match os_random_bytes(16) {
        Some(bytes) => Some(CallId(array16(bytes.as_slice()))),
        None => None,
    }
}

/// The calls a party holds, and the settings under which it holds them.
pub struct CallManager {
    calls: Vec<Call>,
    config: CallManagerConfig,
}

impl CallManager {
    /// The calls, in the order in which they were started.
    pub closed spec fn calls(&self) -> Seq<CallView> {
        call_views(self.calls@)
    }

    /// The settings.
    pub closed spec fn config(&self) -> CallManagerConfig {
        self.config
    }

    /// No two calls have the same identifier, and no call has two
    /// participants with the same identifier.
    pub closed spec fn wf(&self) -> bool {
        distinct_calls(self.calls())
    }

    /// The calls of a manager in order are distinct.
    pub proof fn lemma_distinct(&self)
        requires
            self.wf(),
        ensures
            distinct_calls(self.calls()),
    {
    }

    /// A manager without calls.
    pub fn new(config: CallManagerConfig) -> (out: Self)
        ensures
            out.wf(),
            out.calls() == Seq::<CallView>::empty(),
            out.config() == config,
    {
        let out = CallManager { calls: Vec::new(), config };
        assert(out.calls() =~= Seq::<CallView>::empty());
        out
    }

    fn find_call(&self, id: &CallId) -> (out: Option<usize>)
        requires
            self.wf(),
        ensures
            out is Some <==> has_call(self.calls(), id.0@),
            out matches Some(at) ==> at < self.calls@.len() && at == call_index(
                self.calls(),
                id.0@,
            ) && self.calls@[at as int].id == *id,
    {
        let mut i: usize = 0;
        while i < self.calls.len()
            invariant
                self.wf(),
                i <= self.calls@.len(),
                forall|j: int| 0 <= j < i ==> (#[trigger] self.calls()[j]).id != id.0@,
            decreases self.calls@.len() - i,
        {
            if bytes_equal(self.calls[i].id.0.as_slice(), id.0.as_slice()) {
                proof {
                    assert(self.calls()[i as int].id == id.0@);
                    assert(self.calls@[i as int].id.0 =~= id.0);
                    lemma_call_index(self.calls(), i as int);
                }
                return Some(i);
            }
            i += 1;
        }
        None
    }

    proof fn lemma_changed(&self, before: &CallManager, at: int, call: Call)
        requires
            before.wf(),
            0 <= at < before.calls@.len(),
            self.calls@ == before.calls@.remove(at).insert(at, call),
            call.wf(),
            call.id.0@ == before.calls@[at].id.0@,
        ensures
            self.wf(),
            self.calls() == before.calls().update(at, call@),
    {
        let old_calls = before.calls();
        let new_calls = self.calls();
        assert(self.calls@ =~= before.calls@.update(at, call));
        assert(new_calls =~= old_calls.update(at, call@));
        assert forall|i: int, j: int| 0 <= i < j < new_calls.len() implies (
        #[trigger] new_calls[i]).id != (#[trigger] new_calls[j]).id by {
            assert(new_calls[i].id == old_calls[i].id);
            assert(new_calls[j].id == old_calls[j].id);
        }
        assert forall|i: int| 0 <= i < new_calls.len() implies distinct_participants(
            (#[trigger] new_calls[i]).participants,
        ) by {
            if i != at {
                assert(new_calls[i] == old_calls[i]);
            }
        }
    }

    /// The call with the identifier `call_id`, if there is one.
    pub fn get_call(&self, call_id: &CallId) -> (out: Option<&Call>)
        requires
            self.wf(),
        ensures
            out is Some <==> has_call(self.calls(), call_id.0@),
            out matches Some(call) ==> call@ == call_of(self.calls(), call_id.0@) && call.wf(),
    {
        match self.find_call(call_id) {
            Some(at) => {
                assert(self.calls()[at as int] == self.calls@[at as int]@);
                Some(&self.calls[at])
            },
            None => None,
        }
    }

    /// The calls that ring or run, in the order in which they were
    /// started.
    pub fn get_active_calls(&self) -> (out: Vec<&Call>)
        ensures
            out@.len() == live_calls(self.calls()).len(),
            out@.len() == live_count(self.calls()),
            forall|i: int| 0 <= i < out@.len() ==> (#[trigger] out@[i])@ == live_calls(self.calls())[i],
    {
        let mut out: Vec<&Call> = Vec::new();
        let mut i: usize = 0;
        assert(self.calls().take(0) =~= Seq::<CallView>::empty());
        while i < self.calls.len()
            invariant
                i <= self.calls@.len(),
                out@.len() == live_calls(self.calls().take(i as int)).len(),
                out@.len() == live_count(self.calls().take(i as int)),
                out@.len() <= i,
                forall|j: int|
                    0 <= j < out@.len() ==> (#[trigger] out@[j])@ == live_calls(
                        self.calls().take(i as int),
                    )[j],
            decreases self.calls@.len() - i,
        {
            let ghost prefix = self.calls().take(i + 1);
            assert(prefix.last() == self.calls@[i as int]@);
            assert(prefix.drop_last() =~= self.calls().take(i as int));
            let live = match self.calls[i].state {
                CallState::Active => true,
                CallState::Ringing => true,
                _ => false,
            };
            if live {
                out.push(&self.calls[i]);
            }
            i += 1;
        }
        assert(self.calls().take(i as int) =~= self.calls());
        out
    }

    /// Starts a call with the identifier `call_id` at time `now`: the
    /// call rings, and everyone asked but the initiator is to get an
    /// invitation. A call that had the same identifier gives way to the
    /// new one.
    pub fn initiate_call_with(
        &mut self,
        call_id: CallId,
        initiator: IdentityId,
        participants: Vec<Invitee>,
        call_type: CallType,
        group_id: Option<GroupId>,
        settings: CallSettings,
        now: u64,
    ) -> (out: Result<Vec<CallAction>, CallError>)
        requires
            old(self).wf(),
        ensures
            final(self).wf(),
            final(self).config() == old(self).config(),
            match initiation_error(
                old(self).calls(),
                participants@,
                settings,
                old(self).config().max_concurrent_calls,
            ) {
                Some(e) => out == Err::<Vec<CallAction>, CallError>(e) && final(self).calls()
                    == old(self).calls(),
                None => (out matches Ok(actions) && actions@ == ringing_actions(
                    participants_of(participants@, call_type, settings),
                    call_id,
                    initiator,
                    call_type,
                    settings,
                    old(self).config().ring_timeout_secs,
                )) && final(self).calls() == with_call(
                    old(self).calls(),
                    initiated(
                        call_id.0@,
                        initiator.0@,
                        participants@,
                        call_type,
                        group_id,
                        settings,
                        now,
                    ),
                ),
            },
    {
        if participants.len() == 0 {
            return Err(CallError::NoParticipants);
        }
        match settings.max_participants {
            Some(limit) => {
                if participants.len() > limit {
                    return Err(CallError::TooManyParticipants);
                }
            },
            None => {},
        }
        let live = self.get_active_calls().len();
        if !can_start_call(live, &self.config) {
            return Err(CallError::TooManyCalls);
        }
        let members = invite_all(participants, call_type, &settings);
        let mut actions = invite_actions(&members, call_id, initiator, call_type, settings);
        actions.push(
            CallAction::Notify {
                event: CallEvent::CallStateChanged {
                    call_id,
                    old_state: CallState::Initiating,
                    new_state: CallState::Ringing,
                },
            },
        );
        actions.push(CallAction::StartRingTimer { call_id, seconds: self.config.ring_timeout_secs });
        let call = Call {
            id: call_id,
            call_type,
            state: CallState::Ringing,
            participants: members,
            initiator,
            group_id,
            created_at: now,
            started_at: None,
            ended_at: None,
            settings,
            quality_stats: CallQualityStats::default(),
        };
        match self.find_call(&call_id) {
            Some(at) => {
                let _ = self.calls.remove(at);
                self.calls.insert(at, call);
                proof {
                    self.lemma_changed(old(self), at as int, call);
                }
            },
            None => {
                self.calls.push(call);
                proof {
                    let old_calls = old(self).calls();
                    let new_calls = self.calls();
                    assert(new_calls =~= old_calls.push(call@));
                    assert forall|i: int, j: int| 0 <= i < j < new_calls.len() implies (
                    #[trigger] new_calls[i]).id != (#[trigger] new_calls[j]).id by {
                        assert(new_calls[i] == old_calls[i]);
                        if j < old_calls.len() {
                            assert(new_calls[j] == old_calls[j]);
                        }
                    }
                    assert forall|i: int| 0 <= i < new_calls.len() implies distinct_participants(
                        (#[trigger] new_calls[i]).participants,
                    ) by {
                        if i < old_calls.len() {
                            assert(new_calls[i] == old_calls[i]);
                        }
                    }
                }
            },
        }
        Ok(actions)
    }

    /// Lets one who was asked accept a call at time `now`.
    pub fn accept_call_at(&mut self, call_id: CallId, participant: IdentityId, now: u64) -> (out:
        Result<Vec<CallAction>, CallError>)
        requires
            old(self).wf(),
        ensures
            final(self).wf(),
            final(self).config() == old(self).config(),
            !has_call(old(self).calls(), call_id.0@) ==> out == Err::<Vec<CallAction>, CallError>(
                CallError::CallNotFound,
            ) && final(self).calls() == old(self).calls(),
            has_call(old(self).calls(), call_id.0@) ==> match acceptance_error(
                call_of(old(self).calls(), call_id.0@),
                participant.0@,
            ) {
                Some(e) => out == Err::<Vec<CallAction>, CallError>(e) && final(self).calls()
                    == old(self).calls(),
                None => (out matches Ok(actions) && actions@ == seq![
                    CallAction::OpenConnection { call_id, participant },
                    CallAction::Notify {
                        event: CallEvent::ParticipantJoined { call_id, participant },
                    },
                ]) && final(self).calls() == with_changed_call(
                    old(self).calls(),
                    call_id.0@,
                    accepted(call_of(old(self).calls(), call_id.0@), participant.0@, now),
                ),
            },
    {
        let at = match self.find_call(&call_id) {
            Some(at) => at,
            None => {
                return Err(CallError::CallNotFound);
            },
        };
        assert(self.calls()[at as int] == self.calls@[at as int]@);
        let mut call = self.calls.remove(at);
        let out = call.accept(participant, now);
        self.calls.insert(at, call);
        proof {
            self.lemma_changed(old(self), at as int, call);
            if out is Err {
                assert(self.calls() =~= old(self).calls());
            }
        }
        out
    }

    /// Lets one who was asked reject a call at time `now`.
    pub fn reject_call_at(&mut self, call_id: CallId, participant: IdentityId, now: u64) -> (out:
        Result<Vec<CallAction>, CallError>)
        requires
            old(self).wf(),
        ensures
            final(self).wf(),
            final(self).config() == old(self).config(),
            !has_call(old(self).calls(), call_id.0@) ==> out == Err::<Vec<CallAction>, CallError>(
                CallError::CallNotFound,
            ) && final(self).calls() == old(self).calls(),
            has_call(old(self).calls(), call_id.0@) && !has_participant(
                call_of(old(self).calls(), call_id.0@).participants,
                participant.0@,
            ) ==> out == Err::<Vec<CallAction>, CallError>(CallError::NotInvited) && final(self).calls() == old(self).calls(),
            has_call(old(self).calls(), call_id.0@) && has_participant(
                call_of(old(self).calls(), call_id.0@).participants,
                participant.0@,
            ) ==> (out matches Ok(actions) && actions@.len() == 1 && is_departure(
                actions@[0],
                call_id,
                participant,
                rejected_reason(),
            )) && final(self).calls() == with_changed_call(
                old(self).calls(),
                call_id.0@,
                rejected(call_of(old(self).calls(), call_id.0@), participant.0@, now),
            ),
    {
        let at = match self.find_call(&call_id) {
            Some(at) => at,
            None => {
                return Err(CallError::CallNotFound);
            },
        };
        assert(self.calls()[at as int] == self.calls@[at as int]@);
        let mut call = self.calls.remove(at);
        let out = call.reject(participant, now);
        self.calls.insert(at, call);
        proof {
            self.lemma_changed(old(self), at as int, call);
            if out is Err {
                assert(self.calls() =~= old(self).calls());
            }
        }
        out
    }

    /// Ends a call for `participant` at time `now`.
    pub fn end_call_at(&mut self, call_id: CallId, participant: IdentityId, now: u64) -> (out:
        Result<Vec<CallAction>, CallError>)
        requires
            old(self).wf(),
        ensures
            final(self).wf(),
            final(self).config() == old(self).config(),
            !has_call(old(self).calls(), call_id.0@) ==> out == Err::<Vec<CallAction>, CallError>(
                CallError::CallNotFound,
            ) && final(self).calls() == old(self).calls(),
            has_call(old(self).calls(), call_id.0@) ==> (out matches Ok(actions) && actions@.len()
                == 2 && actions@[0] == (CallAction::CloseConnection { call_id, participant })
                && is_departure(actions@[1], call_id, participant, left_reason())) && final(self).calls() == with_changed_call(
                old(self).calls(),
                call_id.0@,
                ended(call_of(old(self).calls(), call_id.0@), participant.0@, now),
            ),
    {
        let at = match self.find_call(&call_id) {
            Some(at) => at,
            None => {
                return Err(CallError::CallNotFound);
            },
        };
        assert(self.calls()[at as int] == self.calls@[at as int]@);
        let mut call = self.calls.remove(at);
        let actions = call.end(participant, now);
        self.calls.insert(at, call);
        proof {
            self.lemma_changed(old(self), at as int, call);
        }
        Ok(actions)
    }

    /// Switches the sound of a participant of a call. Returns whether the
    /// participant is muted now, and what is to be done.
    pub fn toggle_mute(&mut self, call_id: CallId, participant: IdentityId) -> (out: Result<
        (bool, Vec<CallAction>),
        CallError,
    >)
        requires
            old(self).wf(),
        ensures
            final(self).wf(),
            final(self).config() == old(self).config(),
            !has_call(old(self).calls(), call_id.0@) ==> out == Err::<
                (bool, Vec<CallAction>),
                CallError,
            >(CallError::CallNotFound) && final(self).calls() == old(self).calls(),
            has_call(old(self).calls(), call_id.0@) && !has_participant(
                call_of(old(self).calls(), call_id.0@).participants,
                participant.0@,
            ) ==> out == Err::<(bool, Vec<CallAction>), CallError>(
                CallError::ParticipantNotFound,
            ) && final(self).calls() == old(self).calls(),
            has_call(old(self).calls(), call_id.0@) && has_participant(
                call_of(old(self).calls(), call_id.0@).participants,
                participant.0@,
            ) ==> {
                let call = call_of(old(self).calls(), call_id.0@);
                let now = mute_toggled(
                    call.participants[participant_index(call.participants, participant.0@)],
                );
                &&& final(self).calls() == with_changed_call(
                    old(self).calls(),
                    call_id.0@,
                    toggled_mute(call, participant.0@),
                )
                &&& out matches Ok(done)
                &&& done.0 == now.is_muted
                &&& done.1@ == media_actions(
                    CallAction::SetAudio { call_id, participant, enabled: !now.is_muted },
                    call_id,
                    participant,
                    now.media_state,
                )
            },
    {
        let at = match self.find_call(&call_id) {
            Some(at) => at,
            None => {
                return Err(CallError::CallNotFound);
            },
        };
        assert(self.calls()[at as int] == self.calls@[at as int]@);
        let mut call = self.calls.remove(at);
        let out = call.toggle_mute(participant);
        self.calls.insert(at, call);
        proof {
            self.lemma_changed(old(self), at as int, call);
            if out is Err {
                assert(self.calls() =~= old(self).calls());
            }
        }
        out
    }

    /// Switches the picture of a participant of a call. Returns whether
    /// the participant shows a picture now, and what is to be done.
    pub fn toggle_video(&mut self, call_id: CallId, participant: IdentityId) -> (out: Result<
        (bool, Vec<CallAction>),
        CallError,
    >)
        requires
            old(self).wf(),
        ensures
            final(self).wf(),
            final(self).config() == old(self).config(),
            !has_call(old(self).calls(), call_id.0@) ==> out == Err::<
                (bool, Vec<CallAction>),
                CallError,
            >(CallError::CallNotFound) && final(self).calls() == old(self).calls(),
            has_call(old(self).calls(), call_id.0@) && !has_participant(
                call_of(old(self).calls(), call_id.0@).participants,
                participant.0@,
            ) ==> out == Err::<(bool, Vec<CallAction>), CallError>(
                CallError::ParticipantNotFound,
            ) && final(self).calls() == old(self).calls(),
            has_call(old(self).calls(), call_id.0@) && has_participant(
                call_of(old(self).calls(), call_id.0@).participants,
                participant.0@,
            ) ==> {
                let call = call_of(old(self).calls(), call_id.0@);
                let now = video_toggled(
                    call.participants[participant_index(call.participants, participant.0@)],
                );
                &&& final(self).calls() == with_changed_call(
                    old(self).calls(),
                    call_id.0@,
                    toggled_video(call, participant.0@),
                )
                &&& out matches Ok(done)
                &&& done.0 == now.is_video_enabled
                &&& done.1@ == media_actions(
                    CallAction::SetVideo { call_id, participant, enabled: now.is_video_enabled },
                    call_id,
                    participant,
                    now.media_state,
                )
            },
    {
        let at = match self.find_call(&call_id) {
            Some(at) => at,
            None => {
                return Err(CallError::CallNotFound);
            },
        };
        assert(self.calls()[at as int] == self.calls@[at as int]@);
        let mut call = self.calls.remove(at);
        let out = call.toggle_video(participant);
        self.calls.insert(at, call);
        proof {
            self.lemma_changed(old(self), at as int, call);
            if out is Err {
                assert(self.calls() =~= old(self).calls());
            }
        }
        out
    }

    /// Lets a participant of a call begin to share the screen.
    pub fn start_screen_share(&mut self, call_id: CallId, participant: IdentityId) -> (out: Result<
        Vec<CallAction>,
        CallError,
    >)
        requires
            old(self).wf(),
        ensures
            final(self).wf(),
            final(self).config() == old(self).config(),
            !has_call(old(self).calls(), call_id.0@) ==> out == Err::<Vec<CallAction>, CallError>(
                CallError::CallNotFound,
            ) && final(self).calls() == old(self).calls(),
            has_call(old(self).calls(), call_id.0@) && !has_participant(
                call_of(old(self).calls(), call_id.0@).participants,
                participant.0@,
            ) ==> out == Err::<Vec<CallAction>, CallError>(CallError::ParticipantNotFound)
                && final(self).calls() == old(self).calls(),
            has_call(old(self).calls(), call_id.0@) && has_participant(
                call_of(old(self).calls(), call_id.0@).participants,
                participant.0@,
            ) ==> {
                let call = call_of(old(self).calls(), call_id.0@);
                &&& final(self).calls() == with_changed_call(
                    old(self).calls(),
                    call_id.0@,
                    screen_shared(call, participant.0@),
                )
                &&& out matches Ok(actions)
                &&& actions@ == media_actions(
                    CallAction::StartScreenCapture { call_id, participant },
                    call_id,
                    participant,
                    screen_sharing(
                        call.participants[participant_index(call.participants, participant.0@)],
                    ).media_state,
                )
            },
    {
        let at = match self.find_call(&call_id) {
            Some(at) => at,
            None => {
                return Err(CallError::CallNotFound);
            },
        };
        assert(self.calls()[at as int] == self.calls@[at as int]@);
        let mut call = self.calls.remove(at);
        let out = call.start_screen_share(participant);
        self.calls.insert(at, call);
        proof {
            self.lemma_changed(old(self), at as int, call);
            if out is Err {
                assert(self.calls() =~= old(self).calls());
            }
        }
        out
    }

    /// Records how good the connection of a participant of a call is.
    /// Nothing changes and nothing is to be done where there is no such
    /// call or no such participant.
    pub fn update_quality_stats(
        &mut self,
        call_id: CallId,
        participant: IdentityId,
        quality: ConnectionQuality,
    ) -> (out: Vec<CallAction>)
        requires
            old(self).wf(),
        ensures
            final(self).wf(),
            final(self).config() == old(self).config(),
            !has_call(old(self).calls(), call_id.0@) ==> out@ == Seq::<CallAction>::empty()
                && final(self).calls() == old(self).calls(),
            has_call(old(self).calls(), call_id.0@) ==> final(self).calls() == with_changed_call(
                old(self).calls(),
                call_id.0@,
                with_quality(call_of(old(self).calls(), call_id.0@), participant.0@, quality),
            ) && out@ == if has_participant(
                call_of(old(self).calls(), call_id.0@).participants,
                participant.0@,
            ) {
                seq![
                    CallAction::Notify {
                        event: CallEvent::QualityChanged { call_id, participant, quality },
                    },
                ]
            } else {
                Seq::<CallAction>::empty()
            },
    {
        let at = match self.find_call(&call_id) {
            Some(at) => at,
            None => {
                return Vec::new();
            },
        };
        assert(self.calls()[at as int] == self.calls@[at as int]@);
        let mut call = self.calls.remove(at);
        let out = call.update_quality(participant, quality);
        self.calls.insert(at, call);
        proof {
            self.lemma_changed(old(self), at as int, call);
        }
        out
    }

    /// Ends the ringing of a call at time `now`: a call that still rings
    /// has timed out. Nothing changes and nothing is to be done where
    /// there is no such call, or where it rings no more.
    pub fn ring_timed_out_at(&mut self, call_id: CallId, now: u64) -> (out: Vec<CallAction>)
        requires
            old(self).wf(),
        ensures
            final(self).wf(),
            final(self).config() == old(self).config(),
            !has_call(old(self).calls(), call_id.0@) ==> out@ == Seq::<CallAction>::empty()
                && final(self).calls() == old(self).calls(),
            has_call(old(self).calls(), call_id.0@) ==> final(self).calls() == with_changed_call(
                old(self).calls(),
                call_id.0@,
                timed_out(call_of(old(self).calls(), call_id.0@), now),
            ) && out@ == if call_of(old(self).calls(), call_id.0@).state is Ringing {
                seq![
                    CallAction::Notify {
                        event: CallEvent::CallStateChanged {
                            call_id,
                            old_state: CallState::Ringing,
                            new_state: CallState::TimedOut,
                        },
                    },
                ]
            } else {
                Seq::<CallAction>::empty()
            },
    {
        let at = match self.find_call(&call_id) {
            Some(at) => at,
            None => {
                return Vec::new();
            },
        };
        assert(self.calls()[at as int] == self.calls@[at as int]@);
        let mut call = self.calls.remove(at);
        let out = call.ring_timeout(now);
        self.calls.insert(at, call);
        proof {
            self.lemma_changed(old(self), at as int, call);
        }
        out
    }

    /// Starts a call now, under a fresh identifier. Returns the
    /// identifier and what is to be done. Where it fails nothing changes.
    pub fn initiate_call(
        &mut self,
        initiator: IdentityId,
        participants: Vec<Invitee>,
        call_type: CallType,
        group_id: Option<GroupId>,
        settings: CallSettings,
    ) -> (out: Result<(CallId, Vec<CallAction>), CallError>)
        requires
            old(self).wf(),
        ensures
            final(self).wf(),
            final(self).config() == old(self).config(),
            out is Err ==> final(self).calls() == old(self).calls(),
            out matches Err(e) ==> e == CallError::EntropyUnavailable || initiation_error(
                old(self).calls(),
                participants@,
                settings,
                old(self).config().max_concurrent_calls,
            ) == Some(e),
            out matches Ok(started) ==> initiation_error(
                old(self).calls(),
                participants@,
                settings,
                old(self).config().max_concurrent_calls,
            ) is None && started.1@ == ringing_actions(
                participants_of(participants@, call_type, settings),
                started.0,
                initiator,
                call_type,
                settings,
                old(self).config().ring_timeout_secs,
            ) && exists|now: u64|
                final(self).calls() == with_call(
                    old(self).calls(),
                    #[trigger] initiated(
                        started.0.0@,
                        initiator.0@,
                        participants@,
                        call_type,
                        group_id,
                        settings,
                        now,
                    ),
                ),
    {
        let call_id = match generate_call_id() {
            Some(id) => id,
            None => {
                return Err(CallError::EntropyUnavailable);
            },
        };
        let now = unix_time_secs();
        let ghost invitees = participants@;
        let out = self.initiate_call_with(
            call_id,
            initiator,
            participants,
            call_type,
            group_id,
            settings,
            now,
        );
        match out {
            Ok(actions) => {
                assert(self.calls() == with_call(
                    old(self).calls(),
                    initiated(
                        call_id.0@,
                        initiator.0@,
                        invitees,
                        call_type,
                        group_id,
                        settings,
                        now,
                    ),
                ));
                Ok((call_id, actions))
            },
            Err(e) => Err(e),
        }
    }

    /// Lets one who was asked accept a call now.
    pub fn accept_call(&mut self, call_id: CallId, participant: IdentityId) -> (out: Result<
        Vec<CallAction>,
        CallError,
    >)
        requires
            old(self).wf(),
        ensures
            final(self).wf(),
            final(self).config() == old(self).config(),
            !has_call(old(self).calls(), call_id.0@) ==> out == Err::<Vec<CallAction>, CallError>(
                CallError::CallNotFound,
            ) && final(self).calls() == old(self).calls(),
            has_call(old(self).calls(), call_id.0@) ==> match acceptance_error(
                call_of(old(self).calls(), call_id.0@),
                participant.0@,
            ) {
                Some(e) => out == Err::<Vec<CallAction>, CallError>(e) && final(self).calls()
                    == old(self).calls(),
                None => (out matches Ok(actions) && actions@ == seq![
                    CallAction::OpenConnection { call_id, participant },
                    CallAction::Notify {
                        event: CallEvent::ParticipantJoined { call_id, participant },
                    },
                ]) && exists|now: u64|
                    final(self).calls() == with_changed_call(
                        old(self).calls(),
                        call_id.0@,
                        #[trigger] accepted(
                            call_of(old(self).calls(), call_id.0@),
                            participant.0@,
                            now,
                        ),
                    ),
            },
    {
        self.accept_call_at(call_id, participant, unix_time_secs())
    }

    /// Lets one who was asked reject a call now.
    pub fn reject_call(&mut self, call_id: CallId, participant: IdentityId) -> (out: Result<
        Vec<CallAction>,
        CallError,
    >)
        requires
            old(self).wf(),
        ensures
            final(self).wf(),
            final(self).config() == old(self).config(),
            !has_call(old(self).calls(), call_id.0@) ==> out == Err::<Vec<CallAction>, CallError>(
                CallError::CallNotFound,
            ) && final(self).calls() == old(self).calls(),
            has_call(old(self).calls(), call_id.0@) && !has_participant(
                call_of(old(self).calls(), call_id.0@).participants,
                participant.0@,
            ) ==> out == Err::<Vec<CallAction>, CallError>(CallError::NotInvited) && final(self).calls() == old(self).calls(),
            has_call(old(self).calls(), call_id.0@) && has_participant(
                call_of(old(self).calls(), call_id.0@).participants,
                participant.0@,
            ) ==> (out matches Ok(actions) && actions@.len() == 1 && is_departure(
                actions@[0],
                call_id,
                participant,
                rejected_reason(),
            )) && exists|now: u64|
                final(self).calls() == with_changed_call(
                    old(self).calls(),
                    call_id.0@,
                    #[trigger] rejected(
                        call_of(old(self).calls(), call_id.0@),
                        participant.0@,
                        now,
                    ),
                ),
    {
        self.reject_call_at(call_id, participant, unix_time_secs())
    }

    /// Ends a call for `participant` now.
    pub fn end_call(&mut self, call_id: CallId, participant: IdentityId) -> (out: Result<
        Vec<CallAction>,
        CallError,
    >)
        requires
            old(self).wf(),
        ensures
            final(self).wf(),
            final(self).config() == old(self).config(),
            !has_call(old(self).calls(), call_id.0@) ==> out == Err::<Vec<CallAction>, CallError>(
                CallError::CallNotFound,
            ) && final(self).calls() == old(self).calls(),
            has_call(old(self).calls(), call_id.0@) ==> (out matches Ok(actions) && actions@.len()
                == 2 && actions@[0] == (CallAction::CloseConnection { call_id, participant })
                && is_departure(actions@[1], call_id, participant, left_reason()))
                && exists|now: u64|
                final(self).calls() == with_changed_call(
                    old(self).calls(),
                    call_id.0@,
                    #[trigger] ended(call_of(old(self).calls(), call_id.0@), participant.0@, now),
                ),
    {
        self.end_call_at(call_id, participant, unix_time_secs())
    }

    /// Ends the ringing of a call now.
    pub fn ring_timed_out(&mut self, call_id: CallId) -> (out: Vec<CallAction>)
        requires
            old(self).wf(),
        ensures
            final(self).wf(),
            final(self).config() == old(self).config(),
            !has_call(old(self).calls(), call_id.0@) ==> out@ == Seq::<CallAction>::empty()
                && final(self).calls() == old(self).calls(),
            has_call(old(self).calls(), call_id.0@) ==> (exists|now: u64|
                final(self).calls() == with_changed_call(
                    old(self).calls(),
                    call_id.0@,
                    #[trigger] timed_out(call_of(old(self).calls(), call_id.0@), now),
                )) && out@ == if call_of(old(self).calls(), call_id.0@).state is Ringing {
                seq![
                    CallAction::Notify {
                        event: CallEvent::CallStateChanged {
                            call_id,
                            old_state: CallState::Ringing,
                            new_state: CallState::TimedOut,
                        },
                    },
                ]
            } else {
                Seq::<CallAction>::empty()
            },
    {
        self.ring_timed_out_at(call_id, unix_time_secs())
    }
}

} // verus!
