use vstd::prelude::*;

use crate::model::{
    AudioConfig, AudioConfigView, DeviceInfoView, DeviceType, Participant, SessionAudioQuality, ParticipantView, SessionConfig, SessionConfigUpdate,
    SessionConfigView, SessionInfo, SessionInfoView, SessionStats, TeleconferenceError,
    participants_view,
};
use crate::quality::{
    apply_latency, audio_for_latency, audio_recomputed, recompute_quality, stats_for_latency,
    stats_recomputed,
};

verus! {

/// What holds of every session at all times: the owner moderates, the
/// capacity is respected, some device type is allowed, the peak is at least
/// the current count, no admitted participant uses a banned device, and the
/// quality is up to date with the latest measured latency.
pub open spec fn session_wf(s: SessionInfoView) -> bool {
    &&& with_recomputed_quality(s) == s
    &&& s.moderators.contains(s.owner_id)
    &&& s.participants.len() <= s.config.max_participants
    &&& s.config.allowed_device_types.len() > 0
    &&& s.participants.len() <= s.session_stats.peak_participants
    &&& forall|i: int|
        0 <= i < s.participants.len() ==> !s.banned_devices.contains(
            #[trigger] s.participants[i].device_info.device_id,
        )
}

/// Time from `from` to `now`, or zero if `now` is earlier.
pub open spec fn elapsed(from: u64, now: u64) -> u64 {
    if now >= from {
        (now - from) as u64
    } else {
        0
    }
}

/// The error that an admission attempt meets, in the order the rules are
/// checked, or `None` when the participant is admitted.
pub open spec fn admission_error(s: SessionInfoView, device: DeviceInfoView) -> Option<
    TeleconferenceError,
> {
    if !s.config.allowed_device_types.contains(device.device_type) {
        Some(TeleconferenceError::InvalidDeviceType)
    } else if s.banned_devices.contains(device.device_id) {
        Some(TeleconferenceError::UnauthorizedAction)
    } else if s.participants.len() >= s.config.max_participants {
        Some(TeleconferenceError::SessionFull)
    } else {
        None
    }
}

/// Statistics with the peak raised to `count` where it is lower.
pub open spec fn peak_after(stats: SessionStats, count: nat) -> SessionStats {
    if count > stats.peak_participants {
        SessionStats { peak_participants: count as u8, ..stats }
    } else {
        stats
    }
}

/// The session after quality is recomputed from its latest measured latency.
pub open spec fn with_recomputed_quality(s: SessionInfoView) -> SessionInfoView {
    SessionInfoView {
        session_stats: stats_recomputed(s.session_stats),
        config: SessionConfigView {
            audio_config: audio_recomputed(
                s.session_stats,
                s.config.adaptive_bitrate,
                s.config.audio_config,
            ),
            ..s.config
        },
        ..s
    }
}

/// The session after `p` is admitted at time `now`.
pub open spec fn admitted(s: SessionInfoView, p: ParticipantView, now: u64) -> SessionInfoView {
    let parts = s.participants.push(p);
    with_recomputed_quality(
        SessionInfoView {
            participants: parts,
            session_stats: peak_after(s.session_stats, parts.len()),
            active_duration: elapsed(s.created_at, now),
            ..s
        },
    )
}

/// The session after `p` is placed in the waiting room.
pub open spec fn waiting(s: SessionInfoView, p: ParticipantView) -> SessionInfoView {
    SessionInfoView { waiting_room: s.waiting_room.push(p), ..s }
}

/// The session after a latency report.
pub open spec fn with_latency(s: SessionInfoView, latency: u32) -> SessionInfoView {
    SessionInfoView {
        session_stats: stats_for_latency(latency, s.session_stats),
        config: SessionConfigView {
            audio_config: audio_for_latency(
                latency,
                s.config.adaptive_bitrate,
                s.config.audio_config,
            ),
            ..s.config
        },
        ..s
    }
}

pub open spec fn other_participant(id: u128) -> spec_fn(ParticipantView) -> bool {
    |p: ParticipantView| p.participant_id != id
}

pub open spec fn other_device(device_id: Seq<char>) -> spec_fn(ParticipantView) -> bool {
    |p: ParticipantView| p.device_info.device_id != device_id
}

/// The session with participant `id` gone from the participants and the waiting room.
pub open spec fn without_participant(s: SessionInfoView, id: u128) -> SessionInfoView {
    SessionInfoView {
        participants: s.participants.filter(other_participant(id)),
        waiting_room: s.waiting_room.filter(other_participant(id)),
        ..s
    }
}

/// Whether participant `id` is admitted or waiting.
pub open spec fn has_participant(s: SessionInfoView, id: u128) -> bool {
    (exists|i: int| 0 <= i < s.participants.len() && s.participants[i].participant_id == id)
        || (exists|i: int|
        0 <= i < s.waiting_room.len() && s.waiting_room[i].participant_id == id)
}

/// The configuration after a partial update: each present field replaces the
/// current one, each absent field leaves it as it is.
pub open spec fn patched_config(c: SessionConfigView, u: SessionConfigUpdate) -> SessionConfigView {
    SessionConfigView {
        max_participants: match u.optional_max_participants {
            Some(v) => v,
            None => c.max_participants,
        },
        requires_moderator: match u.optional_requires_moderator {
            Some(v) => v,
            None => c.requires_moderator,
        },
        audio_config: match u.optional_audio_config {
            Some(v) => v@,
            None => c.audio_config,
        },
        enable_recording: match u.optional_enable_recording {
            Some(v) => v,
            None => c.enable_recording,
        },
        allowed_device_types: match u.optional_allowed_device_types {
            Some(v) => v@,
            None => c.allowed_device_types,
        },
        adaptive_bitrate: match u.optional_adaptive_bitrate {
            Some(v) => v,
            None => c.adaptive_bitrate,
        },
        enable_transcription: match u.optional_enable_transcription {
            Some(v) => v,
            None => c.enable_transcription,
        },
    }
}

/// Whether an update would leave the session with no allowed device type,
/// or with a capacity below its current participant count.
pub open spec fn update_rejected(s: SessionInfoView, u: SessionConfigUpdate) -> bool {
    let c = patched_config(s.config, u);
    c.allowed_device_types.len() == 0 || s.participants.len() > c.max_participants
}

/// The session after an accepted update: the patched configuration, then quality recomputed.
pub open spec fn updated(s: SessionInfoView, u: SessionConfigUpdate) -> SessionInfoView {
    with_recomputed_quality(SessionInfoView { config: patched_config(s.config, u), ..s })
}

/// The session with `id` among its moderators.
pub open spec fn with_moderator(s: SessionInfoView, id: u128) -> SessionInfoView {
    if s.moderators.contains(id) {
        s
    } else {
        SessionInfoView { moderators: s.moderators.push(id), ..s }
    }
}

/// The session with device `device_id` banned: whoever uses it is gone from
/// the participants and the waiting room, and it is on the ban list.
pub open spec fn with_banned_device(s: SessionInfoView, device_id: Seq<char>) -> SessionInfoView {
    SessionInfoView {
        participants: s.participants.filter(other_device(device_id)),
        waiting_room: s.waiting_room.filter(other_device(device_id)),
        banned_devices: if s.banned_devices.contains(device_id) {
            s.banned_devices
        } else {
            s.banned_devices.push(device_id)
        },
        ..s
    }
}

/// Keeping a part of the participants keeps a session well formed.
proof fn lemma_filter_keeps_wf(s: SessionInfoView, t: SessionInfoView, pred: spec_fn(ParticipantView) -> bool)
    requires
        session_wf(s),
        t.participants == s.participants.filter(pred),
        t.owner_id == s.owner_id,
        t.moderators == s.moderators,
        t.config == s.config,
        t.session_stats == s.session_stats,
        forall|d: Seq<char>|
            t.banned_devices.contains(d) ==> s.banned_devices.contains(d) || (forall|i: int|
                0 <= i < t.participants.len() ==> (#[trigger] t.participants[i]).device_info.device_id
                    != d),
    ensures
        session_wf(t),
{
    broadcast use vstd::seq_lib::group_filter_ensures;

    assert forall|i: int| 0 <= i < t.participants.len() implies !t.banned_devices.contains(
        #[trigger] t.participants[i].device_info.device_id,
    ) by {
        let p = t.participants[i];
        assert(t.participants.contains(p));
        s.participants.lemma_filter_contains_rev(pred, p);
        let k = choose|k: int| 0 <= k < s.participants.len() && s.participants[k] == p;
        assert(!s.banned_devices.contains(s.participants[k].device_info.device_id));
    }
}

pub(crate) proof fn lemma_filter_step<A>(v: Seq<A>, i: int, pred: spec_fn(A) -> bool)
    requires
        0 <= i < v.len(),
    ensures
        v.subrange(0, i + 1).filter(pred) == if pred(v[i]) {
            v.subrange(0, i).filter(pred).push(v[i])
        } else {
            v.subrange(0, i).filter(pred)
        },
{
    assert(v.subrange(0, i + 1) =~= v.subrange(0, i).push(v[i]));
    v.subrange(0, i).lemma_filter_push(v[i], pred);
}

/// The participants of `v` that do not carry `id` (or, `by_device`, that do
/// not use device `device_id`), in order.
fn retain_participants(
    v: &Vec<Participant>,
    id: u128,
    device_id: &String,
    by_device: bool,
) -> (r: Vec<Participant>)
    ensures
        participants_view(r@) == participants_view(v@).filter(
            if by_device {
                other_device(device_id@)
            } else {
                other_participant(id)
            },
        ),
{
    let ghost pred = if by_device {
        other_device(device_id@)
    } else {
        other_participant(id)
    };
    let ghost pv = participants_view(v@);
    let mut r: Vec<Participant> = Vec::new();
    let mut i: usize = 0;
    while i < v.len()
        invariant
            i <= v@.len(),
            pv == participants_view(v@),
            pred == (if by_device {
                other_device(device_id@)
            } else {
                other_participant(id)
            }),
            participants_view(r@) == pv.subrange(0, i as int).filter(pred),
        decreases v@.len() - i,
    {
        let keep = if by_device {
            !(v[i].device_info.device_id == *device_id)
        } else {
            v[i].participant_id != id
        };
        proof {
            lemma_filter_step(pv, i as int, pred);
            assert(pv[i as int] == v@[i as int]@);
        }
        if keep {
            let ghost before = r@;
            let p = v[i].duplicate();
            r.push(p);
            proof {
                assert(participants_view(r@) =~= participants_view(before).push(pv[i as int]));
            }
        }
        i += 1;
    }
    proof {
        assert(pv.subrange(0, v@.len() as int) =~= pv);
    }
    r
}

/// A new session: no participants, quality unavailable, the owner as sole moderator.
pub open spec fn fresh_session(
    session_id: u128,
    owner_id: u128,
    config: SessionConfigView,
    now: u64,
) -> SessionInfoView {
    SessionInfoView {
        session_id,
        owner_id,
        participants: Seq::empty(),
        config,
        created_at: now,
        active_duration: 0,
        session_stats: SessionStats {
            audio_quality: SessionAudioQuality::Unavailable,
            network_latency: 0,
            peak_participants: 0,
            total_data_used: 0,
        },
        waiting_room: Seq::empty(),
        banned_devices: Seq::empty(),
        moderators: seq![owner_id],
    }
}

/// Replaces each field of `config` for which `update` holds a value.
pub fn patch_config(config: &mut SessionConfig, update: SessionConfigUpdate)
    ensures
        final(config)@ == patched_config(old(config)@, update),
{
    let ghost target = patched_config(config@, update);
    let SessionConfigUpdate {
        optional_max_participants,
        optional_requires_moderator,
        optional_audio_config,
        optional_enable_recording,
        optional_allowed_device_types,
        optional_adaptive_bitrate,
        optional_enable_transcription,
    } = update;
    if let Some(v) = optional_max_participants {
        config.max_participants = v;
    }
    assert(config.max_participants == target.max_participants);
    if let Some(v) = optional_requires_moderator {
        config.requires_moderator = v;
    }
    assert(config.requires_moderator == target.requires_moderator);
    if let Some(v) = optional_audio_config {
        config.audio_config = v;
    }
    assert(config.audio_config@ == target.audio_config);
    if let Some(v) = optional_enable_recording {
        config.enable_recording = v;
    }
    assert(config.enable_recording == target.enable_recording);
    if let Some(v) = optional_allowed_device_types {
        config.allowed_device_types = v;
    }
    assert(config.allowed_device_types@ == target.allowed_device_types);
    if let Some(v) = optional_adaptive_bitrate {
        config.adaptive_bitrate = v;
    }
    assert(config.adaptive_bitrate == target.adaptive_bitrate);
    if let Some(v) = optional_enable_transcription {
        config.enable_transcription = v;
    }
}

impl SessionInfo {
    /// Creates a session; fails when the configuration allows no device type.
    pub fn create(session_id: u128, owner_id: u128, config: SessionConfig, now: u64) -> (r: Result<
        SessionInfo,
        TeleconferenceError,
    >)
        ensures
            config@.allowed_device_types.len() == 0 <==> r is Err,
            r is Err ==> r matches Err(TeleconferenceError::InvalidConfigurationException(_)),
            r matches Ok(s) ==> s@ == fresh_session(session_id, owner_id, config@, now) && session_wf(
                s@,
            ),
    {
        if config.allowed_device_types.len() == 0 {
            return Err(
                TeleconferenceError::InvalidConfigurationException(
                    "Allowed device types can't be empty".to_string(),
                ),
            );
        }
        let mut moderators: Vec<u128> = Vec::new();
        moderators.push(owner_id);
        let s = SessionInfo {
            session_id,
            owner_id,
            participants: Vec::new(),
            config,
            created_at: now,
            active_duration: 0,
            session_stats: SessionStats {
                audio_quality: SessionAudioQuality::Unavailable,
                network_latency: 0,
                peak_participants: 0,
                total_data_used: 0,
            },
            waiting_room: Vec::new(),
            banned_devices: Vec::new(),
            moderators,
        };
        proof {
            assert(s@.moderators[0] == owner_id);
            assert(s@.participants =~= Seq::<ParticipantView>::empty());
            assert(s@.waiting_room =~= Seq::<ParticipantView>::empty());
            assert(s@.banned_devices =~= Seq::<Seq<char>>::empty());
            assert(s@.moderators =~= seq![owner_id]);
        }
        Ok(s)
    }

    /// Whether the configuration allows device type `t`.
    pub fn allows_device_type(&self, t: DeviceType) -> (r: bool)
        ensures
            r == self@.config.allowed_device_types.contains(t),
    {
        let mut i: usize = 0;
        while i < self.config.allowed_device_types.len()
            invariant
                i <= self.config.allowed_device_types@.len(),
                forall|j: int| 0 <= j < i ==> self.config.allowed_device_types@[j] != t,
            decreases self.config.allowed_device_types@.len() - i,
        {
            if self.config.allowed_device_types[i] == t {
                return true;
            }
            i += 1;
        }
        false
    }

    /// Whether device `device_id` is banned.
    pub fn is_device_banned(&self, device_id: &String) -> (r: bool)
        ensures
            r == self@.banned_devices.contains(device_id@),
    {
        let mut i: usize = 0;
        while i < self.banned_devices.len()
            invariant
                i <= self.banned_devices@.len(),
                forall|j: int| 0 <= j < i ==> self.banned_devices@[j]@ != device_id@,
            decreases self.banned_devices@.len() - i,
        {
            if self.banned_devices[i] == *device_id {
                proof {
                    assert(self@.banned_devices[i as int] == device_id@);
                }
                return true;
            }
            i += 1;
        }
        proof {
            if self@.banned_devices.contains(device_id@) {
                let k = choose|k: int|
                    0 <= k < self@.banned_devices.len() && self@.banned_devices[k] == device_id@;
                assert(self.banned_devices@[k]@ == device_id@);
            }
        }
        false
    }

    /// Whether `id` is a moderator.
    pub fn is_moderator(&self, id: u128) -> (r: bool)
        ensures
            r == self@.moderators.contains(id),
    {
        let mut i: usize = 0;
        while i < self.moderators.len()
            invariant
                i <= self.moderators@.len(),
                forall|j: int| 0 <= j < i ==> self.moderators@[j] != id,
            decreases self.moderators@.len() - i,
        {
            if self.moderators[i] == id {
                return true;
            }
            i += 1;
        }
        false
    }

    /// Recomputes quality from the latest measured latency.
    pub fn update_quality(&mut self)
        ensures
            final(self)@ == with_recomputed_quality(old(self)@),
    {
        let adaptive = self.config.adaptive_bitrate;
        recompute_quality(&mut self.session_stats, &mut self.config.audio_config, adaptive);
    }

    /// Records a measured latency and adapts tier, bitrate and jitter buffer.
    pub fn handle_network_conditions(&mut self, latency: u32)
        ensures
            final(self)@ == with_latency(old(self)@, latency),
    {
        let adaptive = self.config.adaptive_bitrate;
        apply_latency(&mut self.session_stats, &mut self.config.audio_config, adaptive, latency);
    }

    /// Runs the admission rules for `participant` at time `now` and admits
    /// it when none of them fails.
    pub fn try_admit(&mut self, participant: Participant, now: u64) -> (r: Result<(), TeleconferenceError>)
        requires
            session_wf(old(self)@),
        ensures
            session_wf(final(self)@),
            match admission_error(old(self)@, participant.device_info@) {
                Some(e) => r == Err::<(), TeleconferenceError>(e) && final(self)@ == old(self)@,
                None => r is Ok && final(self)@ == admitted(old(self)@, participant@, now),
            },
    {
        if !self.allows_device_type(participant.device_info.device_type) {
            return Err(TeleconferenceError::InvalidDeviceType);
        }
        if self.is_device_banned(&participant.device_info.device_id) {
            return Err(TeleconferenceError::UnauthorizedAction);
        }
        if self.participants.len() >= self.config.max_participants as usize {
            return Err(TeleconferenceError::SessionFull);
        }
        let ghost before = self@;
        self.participants.push(participant);
        let count = self.participants.len() as u8;
        if count > self.session_stats.peak_participants {
            self.session_stats.peak_participants = count;
        }
        self.active_duration = if now >= self.created_at {
            now - self.created_at
        } else {
            0
        };
        proof {
            assert(self@.participants =~= before.participants.push(participant@));
        }
        self.update_quality();
        proof {
            assert forall|i: int| 0 <= i < self@.participants.len() implies !self@.banned_devices.contains(
                #[trigger] self@.participants[i].device_info.device_id,
            ) by {
                if i < before.participants.len() {
                    assert(self@.participants[i] == before.participants[i]);
                }
            }
        }
        Ok(())
    }

    /// Places `participant` in the waiting room, with no admission check.
    pub fn enqueue_waiting(&mut self, participant: Participant)
        ensures
            final(self)@ == waiting(old(self)@, participant@),
    {
        let ghost before = self@;
        self.waiting_room.push(participant);
        proof {
            assert(self@.waiting_room =~= before.waiting_room.push(participant@));
        }
    }
    /// Removes participant `id` from the participants and the waiting room;
    /// nothing happens where it is absent.
    pub fn remove_participant(&mut self, id: u128)
        requires
            session_wf(old(self)@),
        ensures
            session_wf(final(self)@),
            final(self)@ == without_participant(old(self)@, id),
    {
        let none = String::new();
        let kept = retain_participants(&self.participants, id, &none, false);
        let waiting = retain_participants(&self.waiting_room, id, &none, false);
        let ghost before = self@;
        self.participants = kept;
        self.waiting_room = waiting;
        proof {
            lemma_filter_keeps_wf(before, self@, other_participant(id));
        }
    }

    /// Applies a partial configuration update, then recomputes quality.
    /// Fails, changing nothing, when the result would allow no device type
    /// or hold fewer places than there are participants.
    pub fn apply_config_update(&mut self, update: SessionConfigUpdate) -> (r: Result<(), TeleconferenceError>)
        requires
            session_wf(old(self)@),
        ensures
            session_wf(final(self)@),
            update_rejected(old(self)@, update) <==> r is Err,
            r is Err ==> (r matches Err(TeleconferenceError::InvalidConfigurationException(_)))
                && final(self)@ == old(self)@,
            r is Ok ==> final(self)@ == updated(old(self)@, update),
    {
        let new_max = match update.optional_max_participants {
            Some(v) => v,
            None => self.config.max_participants,
        };
        let no_types = match &update.optional_allowed_device_types {
            Some(v) => v.len() == 0,
            None => self.config.allowed_device_types.len() == 0,
        };
        if no_types || self.participants.len() > new_max as usize {
            return Err(
                TeleconferenceError::InvalidConfigurationException(
                    "The update leaves the session without a valid configuration".to_string(),
                ),
            );
        }
        let ghost before = self@;
        patch_config(&mut self.config, update);
        proof {
            assert(self@ == SessionInfoView { config: patched_config(before.config, update), ..before });
        }
        self.update_quality();
        Ok(())
    }

    /// Adds `moderator_id` to the moderators; `caller_id` must be a moderator
    /// or the owner.
    pub fn authorize_moderator(&mut self, caller_id: u128, moderator_id: u128) -> (r: Result<
        (),
        TeleconferenceError,
    >)
        requires
            session_wf(old(self)@),
        ensures
            session_wf(final(self)@),
            (old(self)@.moderators.contains(caller_id) || caller_id == old(self)@.owner_id)
                <==> r is Ok,
            r is Err ==> r == Err::<(), TeleconferenceError>(
                TeleconferenceError::UnauthorizedAction,
            ) && final(self)@ == old(self)@,
            r is Ok ==> final(self)@ == with_moderator(old(self)@, moderator_id),
    {
        if !(caller_id == self.owner_id || self.is_moderator(caller_id)) {
            return Err(TeleconferenceError::UnauthorizedAction);
        }
        if !self.is_moderator(moderator_id) {
            self.moderators.push(moderator_id);
        }
        proof {
            let s = old(self)@;
            if !s.moderators.contains(moderator_id) {
                let k = choose|k: int| 0 <= k < s.moderators.len() && s.moderators[k] == s.owner_id;
                assert(self@.moderators[k] == s.owner_id);
            }
        }
        Ok(())
    }

    /// Whether participant `id` is admitted or waiting.
    pub fn has_participant(&self, id: u128) -> (r: bool)
        ensures
            r == has_participant(self@, id),
    {
        let mut i: usize = 0;
        while i < self.participants.len()
            invariant
                i <= self.participants@.len(),
                forall|j: int| 0 <= j < i ==> self@.participants[j].participant_id != id,
            decreases self.participants@.len() - i,
        {
            if self.participants[i].participant_id == id {
                proof {
                    assert(self@.participants[i as int].participant_id == id);
                }
                return true;
            }
            i += 1;
        }
        let mut k: usize = 0;
        while k < self.waiting_room.len()
            invariant
                k <= self.waiting_room@.len(),
                forall|j: int| 0 <= j < self@.participants.len() ==> self@.participants[j].participant_id != id,
                forall|j: int| 0 <= j < k ==> self@.waiting_room[j].participant_id != id,
            decreases self.waiting_room@.len() - k,
        {
            if self.waiting_room[k].participant_id == id {
                proof {
                    assert(self@.waiting_room[k as int].participant_id == id);
                }
                return true;
            }
            k += 1;
        }
        false
    }

    /// Bans participant `participant_id` on behalf of `moderator_id`: it is
    /// removed from the participants and the waiting room.
    pub fn ban_participant(&mut self, moderator_id: u128, participant_id: u128) -> (r: Result<
        (),
        TeleconferenceError,
    >)
        requires
            session_wf(old(self)@),
        ensures
            session_wf(final(self)@),
            !old(self)@.moderators.contains(moderator_id) ==> r == Err::<(), TeleconferenceError>(
                TeleconferenceError::UnauthorizedAction,
            ),
            old(self)@.moderators.contains(moderator_id) && !has_participant(old(self)@, participant_id)
                ==> r == Err::<(), TeleconferenceError>(TeleconferenceError::ParticipantNotFound),
            r is Err ==> final(self)@ == old(self)@,
            r is Ok <==> old(self)@.moderators.contains(moderator_id) && has_participant(
                old(self)@,
                participant_id,
            ),
            r is Ok ==> final(self)@ == without_participant(old(self)@, participant_id),
    {
        if !self.is_moderator(moderator_id) {
            return Err(TeleconferenceError::UnauthorizedAction);
        }
        if !self.has_participant(participant_id) {
            return Err(TeleconferenceError::ParticipantNotFound);
        }
        self.remove_participant(participant_id);
        Ok(())
    }

    /// Bans device `device_id` on behalf of `moderator_id`: whoever uses it
    /// is removed, and later admissions from it fail.
    pub fn ban_device(&mut self, moderator_id: u128, device_id: &str) -> (r: Result<
        (),
        TeleconferenceError,
    >)
        requires
            session_wf(old(self)@),
        ensures
            session_wf(final(self)@),
            old(self)@.moderators.contains(moderator_id) <==> r is Ok,
            r is Err ==> r == Err::<(), TeleconferenceError>(
                TeleconferenceError::UnauthorizedAction,
            ) && final(self)@ == old(self)@,
            r is Ok ==> final(self)@ == with_banned_device(old(self)@, device_id@),
    {
        if !self.is_moderator(moderator_id) {
            return Err(TeleconferenceError::UnauthorizedAction);
        }
        let device = device_id.to_owned();
        let kept = retain_participants(&self.participants, 0, &device, true);
        let waiting = retain_participants(&self.waiting_room, 0, &device, true);
        let ghost before = self@;
        let already = self.is_device_banned(&device);
        self.participants = kept;
        self.waiting_room = waiting;
        if !already {
            self.banned_devices.push(device);
            proof {
                assert(self@.banned_devices =~= before.banned_devices.push(device_id@));
            }
        }
        proof {
            broadcast use vstd::seq_lib::group_filter_ensures;

            assert forall|d: Seq<char>| self@.banned_devices.contains(d) implies before.banned_devices.contains(d)
                || (forall|i: int|
                0 <= i < self@.participants.len() ==> (#[trigger] self@.participants[i]).device_info.device_id
                    != d) by {
                if !before.banned_devices.contains(d) {
                    assert(d == device_id@);
                    assert forall|i: int| 0 <= i < self@.participants.len() implies (
                    #[trigger] self@.participants[i]).device_info.device_id != d by {
                        before.participants.lemma_filter_pred(other_device(device_id@), i);
                    }
                }
            }
            lemma_filter_keeps_wf(before, self@, other_device(device_id@));
        }
        Ok(())
    }
}

/// Every admission attempt on a well-formed session, successful or not,
/// leaves it well formed, so with no more participants than its capacity.
pub proof fn lemma_admission_keeps_capacity(s: SessionInfoView, p: ParticipantView, now: u64)
    requires
        session_wf(s),
    ensures
        admission_error(s, p.device_info) is None ==> session_wf(admitted(s, p, now))
            && admitted(s, p, now).participants.len() <= admitted(
            s,
            p,
            now,
        ).config.max_participants,
        s.participants.len() <= s.config.max_participants,
{
    if admission_error(s, p.device_info) is None {
        let t = admitted(s, p, now);
        assert forall|i: int| 0 <= i < t.participants.len() implies !t.banned_devices.contains(
            #[trigger] t.participants[i].device_info.device_id,
        ) by {
            if i < s.participants.len() {
                assert(t.participants[i] == s.participants[i]);
            }
        }
    }
}

/// Admission leaves the session's configuration, its audio parameters
/// included, as it was.
pub proof fn lemma_admission_keeps_config(s: SessionInfoView, p: ParticipantView, now: u64)
    requires
        session_wf(s),
    ensures
        admitted(s, p, now).config == s.config,
{
}

/// A participant whose device type the session does not allow is refused
/// with `InvalidDeviceType`, whatever else holds of it.
pub proof fn lemma_disallowed_device_type_refused(s: SessionInfoView, p: ParticipantView)
    requires
        !s.config.allowed_device_types.contains(p.device_info.device_type),
    ensures
        admission_error(s, p.device_info) == Some(TeleconferenceError::InvalidDeviceType),
{
}

/// Once a moderator bans a device, an admission attempt from that device
/// (of an allowed type) is refused with `UnauthorizedAction`.
pub proof fn lemma_banned_device_refused(
    s: SessionInfoView,
    device_id: Seq<char>,
    p: ParticipantView,
)
    requires
        p.device_info.device_id == device_id,
        s.config.allowed_device_types.contains(p.device_info.device_type),
    ensures
        admission_error(with_banned_device(s, device_id), p.device_info) == Some(
            TeleconferenceError::UnauthorizedAction,
        ),
{
    let t = with_banned_device(s, device_id);
    if !s.banned_devices.contains(device_id) {
        assert(t.banned_devices[s.banned_devices.len() as int] == device_id);
    }
}

/// A configuration update that only turns recording on changes exactly that
/// field of the configuration.
pub proof fn lemma_recording_only_update(c: SessionConfigView, u: SessionConfigUpdate)
    requires
        u.optional_enable_recording == Some(true),
        u.optional_max_participants is None,
        u.optional_requires_moderator is None,
        u.optional_audio_config is None,
        u.optional_allowed_device_types is None,
        u.optional_adaptive_bitrate is None,
        u.optional_enable_transcription is None,
    ensures
        patched_config(c, u) == (SessionConfigView { enable_recording: true, ..c }),
{
}

/// On a well-formed session, an update that only turns recording on changes
/// nothing else of the session.
pub proof fn lemma_recording_only_update_session(s: SessionInfoView, u: SessionConfigUpdate)
    requires
        session_wf(s),
        u.optional_enable_recording == Some(true),
        u.optional_max_participants is None,
        u.optional_requires_moderator is None,
        u.optional_audio_config is None,
        u.optional_allowed_device_types is None,
        u.optional_adaptive_bitrate is None,
        u.optional_enable_transcription is None,
    ensures
        updated(s, u) == (SessionInfoView {
            config: SessionConfigView { enable_recording: true, ..s.config },
            ..s
        }),
{
}

/// A list all of whose items pass a filter is its own filtering.
pub proof fn lemma_filter_all_pass<A>(t: Seq<A>, pred: spec_fn(A) -> bool)
    requires
        forall|i: int| 0 <= i < t.len() ==> pred(#[trigger] t[i]),
    ensures
        t.filter(pred) == t,
    decreases t.len(),
{
    if t.len() > 0 {
        let pre = t.drop_last();
        lemma_filter_all_pass(pre, pred);
        pre.lemma_filter_push(t.last(), pred);
        assert(pre.push(t.last()) =~= t);
    }
}

/// Filtering twice by the same test is filtering once.
pub proof fn lemma_filter_twice<A>(t: Seq<A>, pred: spec_fn(A) -> bool)
    ensures
        t.filter(pred).filter(pred) == t.filter(pred),
{
    broadcast use vstd::seq_lib::group_filter_ensures;

    lemma_filter_all_pass(t.filter(pred), pred);
}

/// Removing a participant twice is removing it once.
pub proof fn lemma_remove_participant_twice(s: SessionInfoView, id: u128)
    ensures
        without_participant(without_participant(s, id), id) == without_participant(s, id),
{
    lemma_filter_twice(s.participants, other_participant(id));
    lemma_filter_twice(s.waiting_room, other_participant(id));
}

/// Lowest and highest sample rate (Hz) a participant may ask for.
pub const MIN_SAMPLE_RATE: u32 = 8000;

pub const MAX_SAMPLE_RATE: u32 = 48000;

/// Whether a bit depth is one a participant may ask for.
pub open spec fn supported_bit_depth(d: u8) -> bool {
    d == 16 || d == 24 || d == 32
}

/// The audio parameters accepted for a participant: the requested ones, with
/// an out-of-range sample rate or an unsupported bit depth replaced by the
/// session's own.
pub open spec fn negotiated_audio(
    requested: AudioConfigView,
    session_default: AudioConfigView,
) -> AudioConfigView {
    AudioConfigView {
        sample_rate: if MIN_SAMPLE_RATE <= requested.sample_rate <= MAX_SAMPLE_RATE {
            requested.sample_rate
        } else {
            session_default.sample_rate
        },
        bit_depth: if supported_bit_depth(requested.bit_depth) {
            requested.bit_depth
        } else {
            session_default.bit_depth
        },
        ..requested
    }
}

/// Validates a participant's requested audio parameters against the session's.
pub fn negotiate_audio_config(requested: AudioConfig, session_default: &AudioConfig) -> (r:
    AudioConfig)
    ensures
        r@ == negotiated_audio(requested@, session_default@),
{
    let mut r = requested;
    if r.sample_rate < MIN_SAMPLE_RATE || r.sample_rate > MAX_SAMPLE_RATE {
        r.sample_rate = session_default.sample_rate;
    }
    if r.bit_depth != 16 && r.bit_depth != 24 && r.bit_depth != 32 {
        r.bit_depth = session_default.bit_depth;
    }
    r
}

} // verus!
