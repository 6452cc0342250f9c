//! Calls as plain values, and what each answer and each change does to
//! them.

use vstd::prelude::*;

use crate::calling::call_manager::{
    CallAction, CallError, CallEvent, CallId, CallParticipant, CallQualityStats, CallSettings,
    CallState, CallType, ConnectionQuality, Invitee, MediaState, ParticipantState,
};
use crate::groups::group_manager::GroupId;
use crate::identity::identity_key::IdentityId;

verus! {

/// A call as plain values. The participants stand in the order in which
/// they were asked.
pub struct CallView {
    pub id: Seq<u8>,
    pub call_type: CallType,
    pub state: CallState,
    pub participants: Seq<CallParticipant>,
    pub initiator: Seq<u8>,
    pub group_id: Option<GroupId>,
    pub created_at: u64,
    pub started_at: Option<u64>,
    pub ended_at: Option<u64>,
    pub settings: CallSettings,
    pub quality_stats: CallQualityStats,
}

/// Which participants a count takes in.
pub enum Tally {
    /// Those who are connecting.
    Connecting,
    /// Those who are connected.
    Connected,
    /// Those who were asked, are connecting or are connected.
    Engaged,
}

/// Whether a participant in the state `state` counts for `tally`.
pub open spec fn counts(state: ParticipantState, tally: Tally) -> bool {
    match tally {
        Tally::Connecting => state == ParticipantState::Connecting,
        Tally::Connected => state == ParticipantState::Connected,
        Tally::Engaged => state == ParticipantState::Invited || state
            == ParticipantState::Connecting || state == ParticipantState::Connected,
    }
}

/// How many of `participants` count for `tally`.
pub open spec fn tally_of(participants: Seq<CallParticipant>, tally: Tally) -> nat
    decreases participants.len(),
{
    if participants.len() == 0 {
        0
    } else {
        tally_of(participants.drop_last(), tally) + if counts(
            participants.last().participant_state,
            tally,
        ) {
            1nat
        } else {
            0nat
        }
    }
}

/// Whether one of `participants` has the identifier `id`.
pub open spec fn has_participant(participants: Seq<CallParticipant>, id: Seq<u8>) -> bool {
    exists|i: int| 0 <= i < participants.len() && (#[trigger] participants[i]).identity_id.0@ == id
}

/// Where among `participants` the one with the identifier `id` stands.
pub open spec fn participant_index(participants: Seq<CallParticipant>, id: Seq<u8>) -> int {
    choose|i: int| 0 <= i < participants.len() && (#[trigger] participants[i]).identity_id.0@ == id
}

/// No two of `participants` have the same identifier.
pub open spec fn distinct_participants(participants: Seq<CallParticipant>) -> bool {
    forall|i: int, j: int|
        0 <= i < j < participants.len() ==> (#[trigger] participants[i]).identity_id.0@ != (
        #[trigger] participants[j]).identity_id.0@
}

/// Among distinct participants, a participant is found where it stands.
pub proof fn lemma_participant_index(participants: Seq<CallParticipant>, i: int)
    requires
        distinct_participants(participants),
        0 <= i < participants.len(),
    ensures
        has_participant(participants, participants[i].identity_id.0@),
        participant_index(participants, participants[i].identity_id.0@) == i,
{
    let id = participants[i].identity_id.0@;
    let p = participant_index(participants, id);
    assert(0 <= p < participants.len() && participants[p].identity_id.0@ == id);
    if p < i {
        assert(participants[p].identity_id.0@ != participants[i].identity_id.0@);
    } else if i < p {
        assert(participants[i].identity_id.0@ != participants[p].identity_id.0@);
    }
}

/// Whether one of `calls` has the identifier `id`.
pub open spec fn has_call(calls: Seq<CallView>, id: Seq<u8>) -> bool {
    exists|i: int| 0 <= i < calls.len() && (#[trigger] calls[i]).id == id
}

/// Where among `calls` the one with the identifier `id` stands.
pub open spec fn call_index(calls: Seq<CallView>, id: Seq<u8>) -> int {
    choose|i: int| 0 <= i < calls.len() && (#[trigger] calls[i]).id == id
}

/// The call among `calls` with the identifier `id`.
pub open spec fn call_of(calls: Seq<CallView>, id: Seq<u8>) -> CallView {
    calls[call_index(calls, id)]
}

/// No two of `calls` have the same identifier, and in none of them two
/// participants have.
pub open spec fn distinct_calls(calls: Seq<CallView>) -> bool {
    &&& forall|i: int, j: int|
        0 <= i < j < calls.len() ==> (#[trigger] calls[i]).id != (#[trigger] calls[j]).id
    &&& forall|i: int|
        0 <= i < calls.len() ==> distinct_participants((#[trigger] calls[i]).participants)
}

/// In a sequence of distinct calls, a call is found where it stands.
pub proof fn lemma_call_index(calls: Seq<CallView>, i: int)
    requires
        distinct_calls(calls),
        0 <= i < calls.len(),
    ensures
        has_call(calls, calls[i].id),
        call_index(calls, calls[i].id) == i,
{
    let p = call_index(calls, calls[i].id);
    assert(0 <= p < calls.len() && calls[p].id == calls[i].id);
    if p < i {
        assert(calls[p].id != calls[i].id);
    } else if i < p {
        assert(calls[i].id != calls[p].id);
    }
}

/// The calls with `call` among them: in the place of the call that had
/// its identifier, or behind the others.
pub open spec fn with_call(calls: Seq<CallView>, call: CallView) -> Seq<CallView> {
    if has_call(calls, call.id) {
        calls.update(call_index(calls, call.id), call)
    } else {
        calls.push(call)
    }
}

/// Whether a call in the state `state` rings or runs.
pub open spec fn is_live(state: CallState) -> bool {
    state is Active || state is Ringing
}

/// How many of `calls` ring or run.
pub open spec fn live_count(calls: Seq<CallView>) -> nat
    decreases calls.len(),
{
    if calls.len() == 0 {
        0
    } else {
        live_count(calls.drop_last()) + if is_live(calls.last().state) {
            1nat
        } else {
            0nat
        }
    }
}

/// Those of `calls` that ring or run, in order.
pub open spec fn live_calls(calls: Seq<CallView>) -> Seq<CallView>
    decreases calls.len(),
{
    if calls.len() == 0 {
        Seq::empty()
    } else if is_live(calls.last().state) {
        live_calls(calls.drop_last()).push(calls.last())
    } else {
        live_calls(calls.drop_last())
    }
}

/// Whether a call of the kind `call_type` shows pictures from the start.
pub open spec fn starts_with_video(call_type: CallType) -> bool {
    call_type == CallType::VideoCall || call_type == CallType::GroupVideoCall
}

/// What a participant sends at first: sound only.
pub open spec fn first_media() -> MediaState {
    MediaState {
        audio_enabled: true,
        video_enabled: false,
        screen_share_enabled: false,
        audio_codec: None,
        video_codec: None,
        bitrate: None,
        resolution: None,
        frame_rate: None,
    }
}

/// A connection of which nothing bad is known.
pub open spec fn first_quality() -> ConnectionQuality {
    ConnectionQuality {
        signal_strength: 100,
        packet_loss: 0,
        latency: 0,
        jitter: 0,
        bandwidth: 0,
        quality_score: 5,
    }
}

/// A call of which nothing was measured.
pub open spec fn no_stats() -> CallQualityStats {
    CallQualityStats {
        duration: None,
        avg_packet_loss: 0,
        avg_latency: 0,
        avg_jitter: 0,
        total_bytes_sent: 0,
        total_bytes_received: 0,
        reconnection_count: 0,
        quality_degradation_events: 0,
    }
}

/// The participant that `invitee` is when asked into a call.
pub open spec fn invited(
    invitee: Invitee,
    call_type: CallType,
    settings: CallSettings,
) -> CallParticipant {
    CallParticipant {
        identity_id: invitee.identity_id,
        identity_key: invitee.identity_key,
        display_name: invitee.display_name,
        participant_state: ParticipantState::Invited,
        media_state: first_media(),
        connection_quality: first_quality(),
        joined_at: None,
        left_at: None,
        is_muted: settings.auto_mute_on_join,
        is_video_enabled: starts_with_video(call_type),
        is_screen_sharing: false,
    }
}

/// The participants with `participant` among them: in the place of the
/// one that had its identifier, or behind the others.
pub open spec fn with_participant(
    participants: Seq<CallParticipant>,
    participant: CallParticipant,
) -> Seq<CallParticipant> {
    if has_participant(participants, participant.identity_id.0@) {
        participants.update(
            participant_index(participants, participant.identity_id.0@),
            participant,
        )
    } else {
        participants.push(participant)
    }
}

/// The participants of a call into which `invitees` are asked. One who is
/// asked twice is in it once, as asked last.
pub open spec fn participants_of(
    invitees: Seq<Invitee>,
    call_type: CallType,
    settings: CallSettings,
) -> Seq<CallParticipant>
    decreases invitees.len(),
{
    if invitees.len() == 0 {
        Seq::empty()
    } else {
        with_participant(
            participants_of(invitees.drop_last(), call_type, settings),
            invited(invitees.last(), call_type, settings),
        )
    }
}

/// What is to be done to ask `participants` into a call: an invitation
/// to, and a notice of an incoming call for, everyone but the initiator.
pub open spec fn invitations(
    participants: Seq<CallParticipant>,
    call_id: CallId,
    initiator: IdentityId,
    call_type: CallType,
    settings: CallSettings,
) -> Seq<CallAction>
    decreases participants.len(),
{
    if participants.len() == 0 {
        Seq::empty()
    } else {
        let before = invitations(participants.drop_last(), call_id, initiator, call_type, settings);
        if participants.last().identity_id.0@ == initiator.0@ {
            before
        } else {
            before.push(
                CallAction::SendInvitation {
                    to: participants.last().identity_id,
                    call_id,
                    caller: initiator,
                    call_type,
                    settings,
                },
            ).push(
                CallAction::Notify {
                    event: CallEvent::IncomingCall { call_id, caller: initiator, call_type },
                },
            )
        }
    }
}

/// The call that `initiator` starts at time `now`, once it rings.
pub open spec fn initiated(
    call_id: Seq<u8>,
    initiator: Seq<u8>,
    invitees: Seq<Invitee>,
    call_type: CallType,
    group_id: Option<GroupId>,
    settings: CallSettings,
    now: u64,
) -> CallView {
    CallView {
        id: call_id,
        call_type,
        state: CallState::Ringing,
        participants: participants_of(invitees, call_type, settings),
        initiator,
        group_id,
        created_at: now,
        started_at: None,
        ended_at: None,
        settings,
        quality_stats: no_stats(),
    }
}

/// The call after `participant`, one of those asked, accepted at time
/// `now`: the participant is connecting, and with the first to accept the
/// call runs.
pub open spec fn accepted(call: CallView, participant: Seq<u8>, now: u64) -> CallView {
    let at = participant_index(call.participants, participant);
    let participants = call.participants.update(
        at,
        CallParticipant {
            participant_state: ParticipantState::Connecting,
            joined_at: Some(now),
            ..call.participants[at]
        },
    );
    if tally_of(participants, Tally::Connecting) == 1 && call.state is Ringing {
        CallView { participants, state: CallState::Active, started_at: Some(now), ..call }
    } else {
        CallView { participants, ..call }
    }
}

/// The call after `participant`, one of those asked, rejected at time
/// `now`: the participant has left, and when nobody is left who was
/// asked, is connecting or is connected, the call is rejected.
pub open spec fn rejected(call: CallView, participant: Seq<u8>, now: u64) -> CallView {
    let at = participant_index(call.participants, participant);
    let participants = call.participants.update(
        at,
        CallParticipant {
            participant_state: ParticipantState::Left,
            left_at: Some(now),
            ..call.participants[at]
        },
    );
    if tally_of(participants, Tally::Engaged) == 0 {
        CallView { participants, state: CallState::Rejected, ended_at: Some(now), ..call }
    } else {
        CallView { participants, ..call }
    }
}

/// The participants after everyone who was connected left at time `now`.
pub open spec fn all_left(participants: Seq<CallParticipant>, now: u64) -> Seq<CallParticipant> {
    Seq::new(
        participants.len(),
        |i: int|
            if participants[i].participant_state == ParticipantState::Connected {
                CallParticipant {
                    participant_state: ParticipantState::Left,
                    left_at: Some(now),
                    ..participants[i]
                }
            } else {
                participants[i]
            },
    )
}

/// The call after `participant` ended it at time `now`. The initiator
/// ends it for everyone. Anyone else leaves alone, and the call ends when
/// at most one is still connected.
pub open spec fn ended(call: CallView, participant: Seq<u8>, now: u64) -> CallView {
    if participant == call.initiator {
        CallView {
            participants: all_left(call.participants, now),
            state: CallState::Ended,
            ended_at: Some(now),
            ..call
        }
    } else {
        let participants = if has_participant(call.participants, participant) {
            let at = participant_index(call.participants, participant);
            call.participants.update(
                at,
                CallParticipant {
                    participant_state: ParticipantState::Left,
                    left_at: Some(now),
                    ..call.participants[at]
                },
            )
        } else {
            call.participants
        };
        if tally_of(participants, Tally::Connected) <= 1 {
            CallView { participants, state: CallState::Ended, ended_at: Some(now), ..call }
        } else {
            CallView { participants, ..call }
        }
    }
}

/// A participant after the sound was switched: muted if it was not, and
/// the other way round.
pub open spec fn mute_toggled(participant: CallParticipant) -> CallParticipant {
    CallParticipant {
        is_muted: !participant.is_muted,
        media_state: MediaState { audio_enabled: participant.is_muted, ..participant.media_state },
        ..participant
    }
}

/// A participant after the picture was switched.
pub open spec fn video_toggled(participant: CallParticipant) -> CallParticipant {
    CallParticipant {
        is_video_enabled: !participant.is_video_enabled,
        media_state: MediaState {
            video_enabled: !participant.is_video_enabled,
            ..participant.media_state
        },
        ..participant
    }
}

/// A participant who shares the screen.
pub open spec fn screen_sharing(participant: CallParticipant) -> CallParticipant {
    CallParticipant {
        is_screen_sharing: true,
        media_state: MediaState { screen_share_enabled: true, ..participant.media_state },
        ..participant
    }
}

/// The call after the participant at `at` became `participant`.
pub open spec fn with_changed(call: CallView, at: int, participant: CallParticipant) -> CallView {
    CallView { participants: call.participants.update(at, participant), ..call }
}

/// The call after `participant`, one of its participants, switched the
/// sound.
pub open spec fn toggled_mute(call: CallView, participant: Seq<u8>) -> CallView {
    let at = participant_index(call.participants, participant);
    with_changed(call, at, mute_toggled(call.participants[at]))
}

/// The call after `participant`, one of its participants, switched the
/// picture.
pub open spec fn toggled_video(call: CallView, participant: Seq<u8>) -> CallView {
    let at = participant_index(call.participants, participant);
    with_changed(call, at, video_toggled(call.participants[at]))
}

/// The call after `participant`, one of its participants, began to share
/// the screen.
pub open spec fn screen_shared(call: CallView, participant: Seq<u8>) -> CallView {
    let at = participant_index(call.participants, participant);
    with_changed(call, at, screen_sharing(call.participants[at]))
}

/// The call after the connection of `participant`, if it is one of its
/// participants, was measured as `quality`.
pub open spec fn with_quality(
    call: CallView,
    participant: Seq<u8>,
    quality: ConnectionQuality,
) -> CallView {
    if has_participant(call.participants, participant) {
        let at = participant_index(call.participants, participant);
        with_changed(
            call,
            at,
            CallParticipant { connection_quality: quality, ..call.participants[at] },
        )
    } else {
        call
    }
}

/// The call after its time to ring was up at time `now`: timed out if it
/// still rang.
pub open spec fn timed_out(call: CallView, now: u64) -> CallView {
    if call.state is Ringing {
        CallView { state: CallState::TimedOut, ended_at: Some(now), ..call }
    } else {
        call
    }
}

/// `"Rejected"`: why one who rejects a call leaves it.
pub open spec fn rejected_reason() -> Seq<char> {
    seq!['R', 'e', 'j', 'e', 'c', 't', 'e', 'd']
}

/// `"Left call"`: why one who ends a call leaves it.
pub open spec fn left_reason() -> Seq<char> {
    seq!['L', 'e', 'f', 't', ' ', 'c', 'a', 'l', 'l']
}

/// Whether `action` is the notice that `participant` left the call
/// `call_id` for the reason `reason`.
pub open spec fn is_departure(
    action: CallAction,
    call_id: CallId,
    participant: IdentityId,
    reason: Seq<char>,
) -> bool {
    action matches CallAction::Notify {
        event: CallEvent::ParticipantLeft { call_id: c, participant: p, reason: r },
    } && c == call_id && p == participant && r@ == reason
}

/// Why a call into which `invitees` are asked cannot start beside
/// `calls`, if anything stands against it: somebody must be asked, no more
/// than the call's settings allow, and fewer calls must ring or run than
/// `max_concurrent_calls`.
pub open spec fn initiation_error(
    calls: Seq<CallView>,
    invitees: Seq<Invitee>,
    settings: CallSettings,
    max_concurrent_calls: usize,
) -> Option<CallError> {
    if invitees.len() == 0 {
        Some(CallError::NoParticipants)
    } else if settings.max_participants matches Some(limit) && invitees.len() > limit {
        Some(CallError::TooManyParticipants)
    } else if live_count(calls) >= max_concurrent_calls {
        Some(CallError::TooManyCalls)
    } else {
        None
    }
}

/// Why `participant` cannot accept `call`, if anything stands against
/// it: the participant must have been asked, and the call must ring.
pub open spec fn acceptance_error(call: CallView, participant: Seq<u8>) -> Option<CallError> {
    if !has_participant(call.participants, participant) {
        Some(CallError::NotInvited)
    } else if !(call.state is Ringing) {
        Some(CallError::NotRinging)
    } else {
        None
    }
}

/// What is to be done once a call rings: the invitations, a notice that
/// the call rings, and a timer for as long as it may ring.
pub open spec fn ringing_actions(
    participants: Seq<CallParticipant>,
    call_id: CallId,
    initiator: IdentityId,
    call_type: CallType,
    settings: CallSettings,
    ring_seconds: u64,
) -> Seq<CallAction> {
    invitations(participants, call_id, initiator, call_type, settings).push(
        CallAction::Notify {
            event: CallEvent::CallStateChanged {
                call_id,
                old_state: CallState::Initiating,
                new_state: CallState::Ringing,
            },
        },
    ).push(CallAction::StartRingTimer { call_id, seconds: ring_seconds })
}

/// What is to be done after a switch of a participant's media: the switch
/// itself, and a notice of what the participant now sends.
pub open spec fn media_actions(
    switch: CallAction,
    call_id: CallId,
    participant: IdentityId,
    media_state: MediaState,
) -> Seq<CallAction> {
    seq![
        switch,
        CallAction::Notify {
            event: CallEvent::MediaStateChanged { call_id, participant, media_state },
        },
    ]
}

/// The calls after the one with the identifier `id` became `call`.
pub open spec fn with_changed_call(calls: Seq<CallView>, id: Seq<u8>, call: CallView) -> Seq<
    CallView,
> {
    calls.update(call_index(calls, id), call)
}

} // verus!
