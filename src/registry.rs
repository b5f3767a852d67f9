use vstd::prelude::*;

use std::collections::HashMap;

use crate::ids::{parse_uuid, random_uuid, uuid_value};
use crate::model::{
    DeviceUpgradeType,
    ChatMessage, JoinRequestType,
    AudioConfigView, Participant, ParticipantView, SessionConfig, SessionConfigUpdate, SessionInfo, SessionInfoView,
    TeleconferenceError,
};
use crate::session::{
    negotiate_audio_config, negotiated_audio,
    lemma_filter_step,
    lemma_banned_device_refused, lemma_disallowed_device_type_refused,
    lemma_remove_participant_twice,
    elapsed,
    admitted, admission_error, fresh_session, session_wf, updated, update_rejected, waiting,
    with_banned_device, with_latency, with_moderator, without_participant, has_participant,
};

verus! {

/// The time every session operation is stamped with (seconds since the epoch).
pub const CLOCK_SECONDS: u64 = 1719811200;

/// The clock that stamps session creation and activity.
pub fn get_current_timestamp() -> (r: u64)
    ensures
        r == CLOCK_SECONDS,
{
    CLOCK_SECONDS
}

/// The registry of sessions, keyed by session identifier.
pub struct VoidAgentTeleconference {
    sessions: HashMap<u128, SessionInfo>,
    active_sessions: Vec<u128>,
}

impl View for VoidAgentTeleconference {
    type V = Map<u128, SessionInfoView>;

    closed spec fn view(&self) -> Map<u128, SessionInfoView> {
        self.sessions@.map_values(|s: SessionInfo| s@)
    }
}

/// The registry after an admission attempt into session `id`, or the error it meets.
pub open spec fn join_outcome(m: Map<u128, SessionInfoView>, id: u128, p: ParticipantView) -> Result<
    Map<u128, SessionInfoView>,
    TeleconferenceError,
> {
    if !m.contains_key(id) {
        Err(TeleconferenceError::SessionNotFound)
    } else {
        match admission_error(m[id], p.device_info) {
            Some(e) => Err(e),
            None => Ok(m.insert(id, admitted(m[id], p, CLOCK_SECONDS))),
        }
    }
}

/// The participant with `accepted` recorded as its audio parameters.
pub open spec fn with_accepted_audio(p: ParticipantView, accepted: AudioConfigView) -> ParticipantView {
    ParticipantView { accepted_audio: Some(accepted), ..p }
}

/// The registry after a join request for session `id`, or the error it meets.
pub open spec fn request_outcome(
    m: Map<u128, SessionInfoView>,
    id: u128,
    p: ParticipantView,
    request: JoinRequestType,
) -> Result<Map<u128, SessionInfoView>, TeleconferenceError> {
    if !m.contains_key(id) {
        Err(TeleconferenceError::SessionNotFound)
    } else {
        match request {
            JoinRequestType::PendingApproval => Ok(m.insert(id, waiting(m[id], p))),
            JoinRequestType::DirectJoin => join_outcome(m, id, p),
            JoinRequestType::JoinWithCustomConfig(requested) => join_outcome(
                m,
                id,
                with_accepted_audio(p, negotiated_audio(requested@, m[id].config.audio_config)),
            ),
        }
    }
}

/// The registry after participant `id` leaves every session.
pub open spec fn left_everywhere(m: Map<u128, SessionInfoView>, id: u128) -> Map<
    u128,
    SessionInfoView,
> {
    m.map_values(|s: SessionInfoView| without_participant(s, id))
}

/// The identifiers of a list of participants, in order.
pub open spec fn participant_ids(ps: Seq<ParticipantView>) -> Seq<u128> {
    ps.map_values(|p: ParticipantView| p.participant_id)
}

/// Who receives a chat message sent in session `s` by `sender_id`: the whole
/// session, or, for a whisper, the sender and the recipient.
pub open spec fn chat_recipients(s: SessionInfoView, sender_id: u128, recipient: Option<u128>) -> Seq<
    u128,
> {
    match recipient {
        None => participant_ids(s.participants),
        Some(to) => seq![sender_id, to],
    }
}

/// Leaving every session twice is leaving once: the second call changes nothing.
pub proof fn lemma_leave_session_idempotent(m: Map<u128, SessionInfoView>, id: u128)
    ensures
        left_everywhere(left_everywhere(m, id), id) == left_everywhere(m, id),
{
    assert forall|k: u128| #[trigger] m.contains_key(k) implies without_participant(
        without_participant(m[k], id),
        id,
    ) == without_participant(m[k], id) by {
        lemma_remove_participant_twice(m[k], id);
    }
    assert(left_everywhere(left_everywhere(m, id), id) =~= left_everywhere(m, id));
}

/// An admission attempt into an open session with a device type it does not
/// allow fails with `InvalidDeviceType`, and so (by the contract of
/// `join_session`) leaves the registry as it was.
pub proof fn lemma_disallowed_device_type_leaves_registry(
    m: Map<u128, SessionInfoView>,
    id: u128,
    p: ParticipantView,
)
    requires
        m.contains_key(id),
        !m[id].config.allowed_device_types.contains(p.device_info.device_type),
    ensures
        join_outcome(m, id, p) == Err::<Map<u128, SessionInfoView>, TeleconferenceError>(
            TeleconferenceError::InvalidDeviceType,
        ),
{
    lemma_disallowed_device_type_refused(m[id], p);
}

/// After a moderator bans a device in an open session, an admission attempt
/// there from that device (of an allowed type) fails with `UnauthorizedAction`.
pub proof fn lemma_banned_device_join_refused(
    m: Map<u128, SessionInfoView>,
    id: u128,
    device_id: Seq<char>,
    p: ParticipantView,
)
    requires
        m.contains_key(id),
        p.device_info.device_id == device_id,
        m[id].config.allowed_device_types.contains(p.device_info.device_type),
    ensures
        join_outcome(m.insert(id, with_banned_device(m[id], device_id)), id, p) == Err::<
            Map<u128, SessionInfoView>,
            TeleconferenceError,
        >(TeleconferenceError::UnauthorizedAction),
{
    lemma_banned_device_refused(m[id], device_id, p);
}

pub open spec fn other_id(id: u128) -> spec_fn(u128) -> bool {
    |k: u128| k != id
}

/// Every session of a registry is well formed and stored under its own identifier.
pub open spec fn sessions_wf(m: Map<u128, SessionInfoView>) -> bool {
    forall|id: u128| #[trigger]
        m.contains_key(id) ==> session_wf(m[id]) && m[id].session_id == id
}

impl VoidAgentTeleconference {
    /// The registry's own invariant.
    pub closed spec fn wf(&self) -> bool {
        &&& sessions_wf(self@)
        &&& self.active_sessions@.no_duplicates()
        &&& forall|id: u128|
            self.sessions@.contains_key(id) <==> #[trigger] self.active_sessions@.contains(id)
    }

    /// The invariant while session `id` is taken out to be changed.
    closed spec fn detached(&self, id: u128) -> bool {
        &&& sessions_wf(self@)
        &&& self.active_sessions@.no_duplicates()
        &&& !self.sessions@.contains_key(id)
        &&& forall|k: u128|
            (self.sessions@.contains_key(k) || k == id) <==> #[trigger] self.active_sessions@.contains(
                k,
            )
    }

    /// Takes session `id` out of the map, if it is there.
    fn take(&mut self, id: u128) -> (r: Option<SessionInfo>)
        requires
            old(self).wf(),
        ensures
            r is None ==> !old(self)@.contains_key(id) && *final(self) == *old(self),
            r matches Some(s) ==> {
                &&& old(self)@.contains_key(id)
                &&& s@ == old(self)@[id]
                &&& final(self).detached(id)
                &&& final(self)@ == old(self)@.remove(id)
                &&& final(self).active_sessions == old(self).active_sessions
            },
    {
        if !self.sessions.contains_key(&id) {
            return None;
        }
        let r = self.sessions.remove(&id);
        proof {
            assert(self@ =~= old(self)@.remove(id));
        }
        r
    }

    /// Puts session `s` back under identifier `id`.
    fn restore(&mut self, id: u128, s: SessionInfo)
        requires
            old(self).detached(id),
            session_wf(s@),
            s@.session_id == id,
        ensures
            final(self).wf(),
            final(self)@ == old(self)@.insert(id, s@),
            final(self).active_sessions == old(self).active_sessions,
    {
        self.sessions.insert(id, s);
        proof {
            assert(self@ =~= old(self)@.insert(id, s@));
        }
    }

    /// A registry's invariant gives that of each of its sessions.
    pub proof fn lemma_wf(&self)
        requires
            self.wf(),
        ensures
            sessions_wf(self@),
    {
    }

    /// An empty registry.
    pub fn new() -> (r: Self)
        ensures
            r.wf(),
            r@ == Map::<u128, SessionInfoView>::empty(),
    {
        let r = VoidAgentTeleconference { sessions: HashMap::new(), active_sessions: Vec::new() };
        proof {
            assert(r@ =~= Map::<u128, SessionInfoView>::empty());
        }
        r
    }

    /// Creates a session under identifier `session_id`; fails when the
    /// configuration allows no device type, or when the identifier is taken.
    pub fn initialize_session_with_id(
        &mut self,
        session_id: u128,
        owner_id: u128,
        config: SessionConfig,
    ) -> (r: Result<SessionInfo, TeleconferenceError>)
        requires
            old(self).wf(),
        ensures
            final(self).wf(),
            r is Ok <==> config@.allowed_device_types.len() > 0 && !old(self)@.contains_key(
                session_id,
            ),
            config@.allowed_device_types.len() == 0 ==> (r matches Err(
                TeleconferenceError::InvalidConfigurationException(_),
            )),
            config@.allowed_device_types.len() > 0 && old(self)@.contains_key(session_id) ==> (
            r matches Err(TeleconferenceError::InternalError(_))),
            r is Err ==> final(self)@ == old(self)@,
            r matches Ok(s) ==> {
                let fresh = fresh_session(session_id, owner_id, config@, CLOCK_SECONDS);
                &&& s@ == fresh
                &&& final(self)@ == old(self)@.insert(session_id, fresh)
            },
    {
        let now = get_current_timestamp();
        let created = SessionInfo::create(session_id, owner_id, config, now);
        match created {
            Err(e) => Err(e),
            Ok(info) => {
                if self.sessions.contains_key(&session_id) {
                    return Err(
                        TeleconferenceError::InternalError("Session id already in use".to_string()),
                    );
                }
                let snapshot = info.duplicate();
                let ghost before = self.sessions@;
                self.sessions.insert(session_id, info);
                self.active_sessions.push(session_id);
                proof {
                    assert(self@ =~= old(self)@.insert(session_id, snapshot@));
                    assert(!old(self).active_sessions@.contains(session_id));
                    assert(self.active_sessions@ == old(self).active_sessions@.push(session_id));
                    assert(self.active_sessions@.no_duplicates());
                    assert(sessions_wf(self@));
                    assert forall|id: u128|
                        self.sessions@.contains_key(id) <==> #[trigger] self.active_sessions@.contains(
                            id,
                        ) by {
                        if id != session_id {
                            assert(self.active_sessions@.contains(id) ==> old(
                                self,
                            ).active_sessions@.contains(id)) by {
                                if self.active_sessions@.contains(id) {
                                    let k = choose|k: int|
                                        0 <= k < self.active_sessions@.len()
                                            && self.active_sessions@[k] == id;
                                    assert(old(self).active_sessions@[k] == id);
                                }
                            }
                            assert(old(self).active_sessions@.contains(id)
                                ==> self.active_sessions@.contains(id)) by {
                                if old(self).active_sessions@.contains(id) {
                                    let k = choose|k: int|
                                        0 <= k < old(self).active_sessions@.len()
                                            && old(self).active_sessions@[k] == id;
                                    assert(self.active_sessions@[k] == id);
                                }
                            }
                        } else {
                            assert(self.active_sessions@[self.active_sessions@.len() - 1]
                                == session_id);
                        }
                    }
                }
                Ok(snapshot)
            },
        }
    }

    /// The smallest identifier that no session uses.
    pub fn free_id(&self) -> (r: u128)
        requires
            self.wf(),
        ensures
            !self@.contains_key(r),
    {
        let n = self.active_sessions.len();
        let mut c: u128 = 0;
        while self.sessions.contains_key(&c)
            invariant
                self.wf(),
                n == self.active_sessions@.len(),
                c <= n,
                forall|x: u128| x < c ==> #[trigger] self.sessions@.contains_key(x),
            decreases n - c,
        {
            proof {
                let tried = Seq::new((c + 1) as nat, |i: int| i as u128);
                let active = self.active_sessions@;
                assert(tried.no_duplicates());
                assert(tried.to_set().subset_of(active.to_set())) by {
                    assert forall|x: u128| tried.to_set().contains(x) implies active.to_set().contains(
                        x,
                    ) by {
                        let i = choose|i: int| 0 <= i < tried.len() && tried[i] == x;
                        assert(self.sessions@.contains_key(x));
                        assert(active.contains(x));
                    }
                }
                tried.unique_seq_to_set();
                active.unique_seq_to_set();
                vstd::set_lib::lemma_len_subset(tried.to_set(), active.to_set());
            }
            c = c + 1;
        }
        c
    }

    /// Creates a session of `owner_id` under a fresh identifier: a random one,
    /// or, where that one is taken, the smallest free one. Fails only when the
    /// configuration allows no device type.
    pub fn initialize_session(&mut self, owner_id: u128, config: SessionConfig) -> (r: Result<
        SessionInfo,
        TeleconferenceError,
    >)
        requires
            old(self).wf(),
        ensures
            final(self).wf(),
            config@.allowed_device_types.len() > 0 <==> r is Ok,
            config@.allowed_device_types.len() == 0 ==> (r matches Err(
                TeleconferenceError::InvalidConfigurationException(_),
            )),
            r is Err ==> final(self)@ == old(self)@,
            r matches Ok(s) ==> {
                let fresh = fresh_session(s.session_id, owner_id, config@, CLOCK_SECONDS);
                &&& !old(self)@.contains_key(s.session_id)
                &&& s@ == fresh
                &&& final(self)@ == old(self)@.insert(s.session_id, fresh)
            },
    {
        let drawn = random_uuid();
        let session_id = if self.sessions.contains_key(&drawn) {
            self.free_id()
        } else {
            drawn
        };
        self.initialize_session_with_id(session_id, owner_id, config)
    }

    /// Runs the admission rules for `participant` against session `session_id`.
    pub fn join_session_by_id(&mut self, session_id: u128, participant: Participant) -> (r: Result<
        SessionInfo,
        TeleconferenceError,
    >)
        requires
            old(self).wf(),
        ensures
            final(self).wf(),
            match join_outcome(old(self)@, session_id, participant@) {
                Err(e) => r == Err::<SessionInfo, TeleconferenceError>(e) && final(self)@ == old(
                    self,
                )@,
                Ok(m) => final(self)@ == m && (r matches Ok(s) && s@ == m[session_id]),
            },
    {
        let ghost p = participant@;
        match self.take(session_id) {
            None => Err(TeleconferenceError::SessionNotFound),
            Some(mut s) => {
                let now = get_current_timestamp();
                let outcome = s.try_admit(participant, now);
                let snapshot = s.duplicate();
                self.restore(session_id, s);
                proof {
                    if outcome is Err {
                        assert(self@ =~= old(self)@);
                    }
                }
                match outcome {
                    Err(e) => Err(e),
                    Ok(()) => Ok(snapshot),
                }
            },
        }
    }

    /// Admits `participant` into the session whose identifier its device
    /// identifier spells; fails with `InternalError` where it spells none.
    pub fn join_session(&mut self, participant: Participant) -> (r: Result<
        SessionInfo,
        TeleconferenceError,
    >)
        requires
            old(self).wf(),
        ensures
            final(self).wf(),
            match uuid_value(participant.device_info.device_id@) {
                None => (r matches Err(TeleconferenceError::InternalError(_))) && final(self)@ == old(
                    self,
                )@,
                Some(id) => match join_outcome(old(self)@, id, participant@) {
                    Err(e) => r == Err::<SessionInfo, TeleconferenceError>(e) && final(self)@ == old(
                        self,
                    )@,
                    Ok(m) => final(self)@ == m && (r matches Ok(s) && s@ == m[id]),
                },
            },
    {
        match parse_uuid(participant.device_info.device_id.as_str()) {
            Err(_) => Err(TeleconferenceError::InternalError("Invalid device ID".to_string())),
            Ok(session_id) => self.join_session_by_id(session_id, participant),
        }
    }

    /// Places `participant` in the waiting room of session `session_id`.
    pub fn enqueue_waiting_by_id(&mut self, session_id: u128, participant: Participant) -> (r:
        Result<SessionInfo, TeleconferenceError>)
        requires
            old(self).wf(),
        ensures
            final(self).wf(),
            !old(self)@.contains_key(session_id) ==> r == Err::<SessionInfo, TeleconferenceError>(
                TeleconferenceError::SessionNotFound,
            ) && final(self)@ == old(self)@,
            old(self)@.contains_key(session_id) ==> {
                let w = waiting(old(self)@[session_id], participant@);
                &&& final(self)@ == old(self)@.insert(session_id, w)
                &&& (r matches Ok(s) && s@ == w)
            },
    {
        match self.take(session_id) {
            None => Err(TeleconferenceError::SessionNotFound),
            Some(mut s) => {
                s.enqueue_waiting(participant);
                let snapshot = s.duplicate();
                self.restore(session_id, s);
                Ok(snapshot)
            },
        }
    }

    /// Handles a join request for session `session_id`: a direct join goes
    /// through the admission rules; one with the participant's own audio
    /// parameters has them checked against the session's (see
    /// `negotiate_audio_config`), records the accepted ones on the
    /// participant, then goes through the admission rules; one pending
    /// approval goes to the waiting room with no check.
    pub fn join_session_with_request_by_id(
        &mut self,
        session_id: u128,
        participant: Participant,
        join_request: JoinRequestType,
    ) -> (r: Result<SessionInfo, TeleconferenceError>)
        requires
            old(self).wf(),
        ensures
            final(self).wf(),
            match request_outcome(old(self)@, session_id, participant@, join_request) {
                Err(e) => r == Err::<SessionInfo, TeleconferenceError>(e) && final(self)@ == old(
                    self,
                )@,
                Ok(m) => final(self)@ == m && (r matches Ok(s) && s@ == m[session_id]),
            },
    {
        match join_request {
            JoinRequestType::PendingApproval => self.enqueue_waiting_by_id(session_id, participant),
            JoinRequestType::DirectJoin => self.join_session_by_id(session_id, participant),
            JoinRequestType::JoinWithCustomConfig(requested) => {
                let accepted = match self.sessions.get(&session_id) {
                    None => {
                        return Err(TeleconferenceError::SessionNotFound);
                    },
                    Some(s) => negotiate_audio_config(requested, &s.config.audio_config),
                };
                let mut participant = participant;
                participant.accepted_audio = Some(accepted);
                self.join_session_by_id(session_id, participant)
            },
        }
    }

    /// Handles a join request as `join_session_with_request_by_id` does, for
    /// the session whose identifier the device identifier spells; fails with
    /// `InternalError` where it spells none.
    pub fn join_session_with_request(
        &mut self,
        participant: Participant,
        join_request: JoinRequestType,
    ) -> (r: Result<SessionInfo, TeleconferenceError>)
        requires
            old(self).wf(),
        ensures
            final(self).wf(),
            match uuid_value(participant.device_info.device_id@) {
                None => (r matches Err(TeleconferenceError::InternalError(_))) && final(self)@ == old(
                    self,
                )@,
                Some(id) => match request_outcome(old(self)@, id, participant@, join_request) {
                    Err(e) => r == Err::<SessionInfo, TeleconferenceError>(e) && final(self)@
                        == old(self)@,
                    Ok(m) => final(self)@ == m && (r matches Ok(s) && s@ == m[id]),
                },
            },
    {
        match parse_uuid(participant.device_info.device_id.as_str()) {
            Err(_) => Err(TeleconferenceError::InternalError("Invalid device ID".to_string())),
            Ok(session_id) => self.join_session_with_request_by_id(
                session_id,
                participant,
                join_request,
            ),
        }
    }

    /// Removes participant `participant_id` from every session it is in;
    /// succeeds whether or not it is in any.
    pub fn leave_session(&mut self, participant_id: u128) -> (r: Result<(), TeleconferenceError>)
        requires
            old(self).wf(),
        ensures
            final(self).wf(),
            r is Ok,
            final(self)@ == left_everywhere(old(self)@, participant_id),
    {
        let ghost start = self@;
        let ghost ids = self.active_sessions@;
        let n = self.active_sessions.len();
        let mut i: usize = 0;
        while i < n
            invariant
                self.wf(),
                n == ids.len(),
                i <= n,
                self.active_sessions@ == ids,
                self@.dom() == start.dom(),
                forall|k: u128| #[trigger]
                    start.contains_key(k) ==> self@[k] == if ids.subrange(0, i as int).contains(k) {
                        without_participant(start[k], participant_id)
                    } else {
                        start[k]
                    },
            decreases n - i,
        {
            let id = self.active_sessions[i];
            proof {
                assert(ids.contains(id));
                assert(!ids.subrange(0, i as int).contains(id)) by {
                    if ids.subrange(0, i as int).contains(id) {
                        let k = choose|k: int| 0 <= k < i && ids.subrange(0, i as int)[k] == id;
                        assert(ids[k] == ids[i as int]);
                    }
                }
            }
            let ghost before = self@;
            match self.take(id) {
                None => {},
                Some(mut s) => {
                    s.remove_participant(participant_id);
                    self.restore(id, s);
                },
            }
            proof {
                assert(self@.dom() =~= start.dom());
                assert forall|k: u128| #[trigger]
                    start.contains_key(k) implies self@[k] == if ids.subrange(
                        0,
                        i + 1,
                    ).contains(k) {
                        without_participant(start[k], participant_id)
                    } else {
                        start[k]
                    } by {
                    assert(ids.subrange(0, i + 1) =~= ids.subrange(0, i as int).push(id));
                    if k != id {
                        assert(ids.subrange(0, i + 1).contains(k) == ids.subrange(
                            0,
                            i as int,
                        ).contains(k));
                    } else {
                        assert(ids.subrange(0, i + 1)[i as int] == id);
                    }
                }
            }
            i += 1;
        }
        proof {
            assert(ids.subrange(0, n as int) =~= ids);
            assert(self@ =~= left_everywhere(start, participant_id));
        }
        Ok(())
    }
    /// A snapshot of session `session_id`, its active duration brought up to date.
    pub fn get_session_info(&self, session_id: u128) -> (r: Result<SessionInfo, TeleconferenceError>)
        requires
            self.wf(),
        ensures
            !self@.contains_key(session_id) ==> r == Err::<SessionInfo, TeleconferenceError>(
                TeleconferenceError::SessionNotFound,
            ),
            self@.contains_key(session_id) ==> (r matches Ok(s) && s@ == SessionInfoView {
                active_duration: elapsed(self@[session_id].created_at, CLOCK_SECONDS),
                ..self@[session_id]
            }),
    {
        match self.sessions.get(&session_id) {
            None => Err(TeleconferenceError::SessionNotFound),
            Some(s) => {
                let mut info = s.duplicate();
                let now = get_current_timestamp();
                info.active_duration = if now >= info.created_at {
                    now - info.created_at
                } else {
                    0
                };
                Ok(info)
            },
        }
    }

    /// Applies a partial configuration update to session `session_id`, then
    /// recomputes its quality.
    pub fn update_session_config(
        &mut self,
        session_id: u128,
        config_update: SessionConfigUpdate,
    ) -> (r: Result<SessionInfo, TeleconferenceError>)
        requires
            old(self).wf(),
        ensures
            final(self).wf(),
            !old(self)@.contains_key(session_id) ==> r == Err::<SessionInfo, TeleconferenceError>(
                TeleconferenceError::SessionNotFound,
            ) && final(self)@ == old(self)@,
            old(self)@.contains_key(session_id) && update_rejected(
                old(self)@[session_id],
                config_update,
            ) ==> (r matches Err(TeleconferenceError::InvalidConfigurationException(_)))
                && final(self)@ == old(self)@,
            old(self)@.contains_key(session_id) && !update_rejected(
                old(self)@[session_id],
                config_update,
            ) ==> {
                let u = updated(old(self)@[session_id], config_update);
                &&& final(self)@ == old(self)@.insert(session_id, u)
                &&& (r matches Ok(s) && s@ == u)
            },
    {
        match self.take(session_id) {
            None => Err(TeleconferenceError::SessionNotFound),
            Some(mut s) => {
                let outcome = s.apply_config_update(config_update);
                let snapshot = s.duplicate();
                self.restore(session_id, s);
                proof {
                    if outcome is Err {
                        assert(self@ =~= old(self)@);
                    }
                }
                match outcome {
                    Err(e) => Err(e),
                    Ok(()) => Ok(snapshot),
                }
            },
        }
    }

    /// Records a latency report for session `session_id`.
    pub fn handle_network_conditions(&mut self, session_id: u128, latency: u32) -> (r: Result<
        (),
        TeleconferenceError,
    >)
        requires
            old(self).wf(),
        ensures
            final(self).wf(),
            !old(self)@.contains_key(session_id) ==> r == Err::<(), TeleconferenceError>(
                TeleconferenceError::SessionNotFound,
            ) && final(self)@ == old(self)@,
            old(self)@.contains_key(session_id) ==> r is Ok && final(self)@ == old(self)@.insert(
                session_id,
                with_latency(old(self)@[session_id], latency),
            ),
    {
        match self.take(session_id) {
            None => Err(TeleconferenceError::SessionNotFound),
            Some(mut s) => {
                s.handle_network_conditions(latency);
                self.restore(session_id, s);
                Ok(())
            },
        }
    }

    /// Makes `moderator_id` a moderator of session `session_id`; `caller_id`
    /// must be a moderator or the owner.
    pub fn authorize_moderator(&mut self, session_id: u128, caller_id: u128, moderator_id: u128) -> (r:
        Result<(), TeleconferenceError>)
        requires
            old(self).wf(),
        ensures
            final(self).wf(),
            !old(self)@.contains_key(session_id) ==> r == Err::<(), TeleconferenceError>(
                TeleconferenceError::SessionNotFound,
            ) && final(self)@ == old(self)@,
            old(self)@.contains_key(session_id) ==> {
                let s = old(self)@[session_id];
                &&& (s.moderators.contains(caller_id) || caller_id == s.owner_id) <==> r is Ok
                &&& r is Err ==> r == Err::<(), TeleconferenceError>(
                    TeleconferenceError::UnauthorizedAction,
                ) && final(self)@ == old(self)@
                &&& r is Ok ==> final(self)@ == old(self)@.insert(
                    session_id,
                    with_moderator(s, moderator_id),
                )
            },
    {
        match self.take(session_id) {
            None => Err(TeleconferenceError::SessionNotFound),
            Some(mut s) => {
                let outcome = s.authorize_moderator(caller_id, moderator_id);
                self.restore(session_id, s);
                proof {
                    if outcome is Err {
                        assert(self@ =~= old(self)@);
                    }
                }
                outcome
            },
        }
    }

    /// Bans participant `participant_id` from session `session_id` on behalf
    /// of `moderator_id`.
    pub fn ban_participant(&mut self, session_id: u128, moderator_id: u128, participant_id: u128) -> (r:
        Result<(), TeleconferenceError>)
        requires
            old(self).wf(),
        ensures
            final(self).wf(),
            !old(self)@.contains_key(session_id) ==> r == Err::<(), TeleconferenceError>(
                TeleconferenceError::SessionNotFound,
            ) && final(self)@ == old(self)@,
            old(self)@.contains_key(session_id) ==> {
                let s = old(self)@[session_id];
                &&& !s.moderators.contains(moderator_id) ==> r == Err::<(), TeleconferenceError>(
                    TeleconferenceError::UnauthorizedAction,
                )
                &&& s.moderators.contains(moderator_id) && !has_participant(s, participant_id)
                    ==> r == Err::<(), TeleconferenceError>(
                    TeleconferenceError::ParticipantNotFound,
                )
                &&& r is Err ==> final(self)@ == old(self)@
                &&& r is Ok <==> s.moderators.contains(moderator_id) && has_participant(
                    s,
                    participant_id,
                )
                &&& r is Ok ==> final(self)@ == old(self)@.insert(
                    session_id,
                    without_participant(s, participant_id),
                )
            },
    {
        match self.take(session_id) {
            None => Err(TeleconferenceError::SessionNotFound),
            Some(mut s) => {
                let outcome = s.ban_participant(moderator_id, participant_id);
                self.restore(session_id, s);
                proof {
                    if outcome is Err {
                        assert(self@ =~= old(self)@);
                    }
                }
                outcome
            },
        }
    }

    /// Bans device `device_id` from session `session_id` on behalf of
    /// `moderator_id`: whoever uses it leaves, and later admissions from it fail.
    pub fn ban_device(&mut self, session_id: u128, moderator_id: u128, device_id: &str) -> (r:
        Result<(), TeleconferenceError>)
        requires
            old(self).wf(),
        ensures
            final(self).wf(),
            !old(self)@.contains_key(session_id) ==> r == Err::<(), TeleconferenceError>(
                TeleconferenceError::SessionNotFound,
            ) && final(self)@ == old(self)@,
            old(self)@.contains_key(session_id) ==> {
                let s = old(self)@[session_id];
                &&& s.moderators.contains(moderator_id) <==> r is Ok
                &&& r is Err ==> r == Err::<(), TeleconferenceError>(
                    TeleconferenceError::UnauthorizedAction,
                ) && final(self)@ == old(self)@
                &&& r is Ok ==> final(self)@ == old(self)@.insert(
                    session_id,
                    with_banned_device(s, device_id@),
                )
            },
    {
        match self.take(session_id) {
            None => Err(TeleconferenceError::SessionNotFound),
            Some(mut s) => {
                let outcome = s.ban_device(moderator_id, device_id);
                self.restore(session_id, s);
                proof {
                    if outcome is Err {
                        assert(self@ =~= old(self)@);
                    }
                }
                outcome
            },
        }
    }
    /// Routes a chat message of `sender_id` in session `session_id`: returns
    /// who receives it. The sender must be admitted to the session.
    pub fn send_chat_message(&self, session_id: u128, sender_id: u128, message: &ChatMessage) -> (r:
        Result<Vec<u128>, TeleconferenceError>)
        requires
            self.wf(),
        ensures
            !self@.contains_key(session_id) ==> r == Err::<Vec<u128>, TeleconferenceError>(
                TeleconferenceError::SessionNotFound,
            ),
            self@.contains_key(session_id) ==> {
                let s = self@[session_id];
                &&& !participant_ids(s.participants).contains(sender_id) ==> r == Err::<
                    Vec<u128>,
                    TeleconferenceError,
                >(TeleconferenceError::ParticipantNotFound)
                &&& participant_ids(s.participants).contains(sender_id) ==> (r matches Ok(v) && v@
                    == chat_recipients(s, sender_id, message.recipient_id))
            },
    {
        match self.sessions.get(&session_id) {
            None => Err(TeleconferenceError::SessionNotFound),
            Some(s) => {
                let ghost ids = participant_ids(s@.participants);
                let mut all: Vec<u128> = Vec::new();
                let mut found = false;
                let mut i: usize = 0;
                while i < s.participants.len()
                    invariant
                        i <= s.participants@.len(),
                        ids == participant_ids(s@.participants),
                        all@ == ids.subrange(0, i as int),
                        found == ids.subrange(0, i as int).contains(sender_id),
                    decreases s.participants@.len() - i,
                {
                    let id = s.participants[i].participant_id;
                    proof {
                        assert(ids.subrange(0, i + 1) =~= ids.subrange(0, i as int).push(id));
                        vstd::seq_lib::lemma_seq_contains_after_push(
                            ids.subrange(0, i as int),
                            id,
                            sender_id,
                        );
                    }
                    if id == sender_id {
                        found = true;
                    }
                    all.push(id);
                    i += 1;
                }
                proof {
                    assert(ids.subrange(0, i as int) =~= ids);
                }
                if !found {
                    return Err(TeleconferenceError::ParticipantNotFound);
                }
                match message.recipient_id {
                    None => Ok(all),
                    Some(to) => {
                        let mut pair: Vec<u128> = Vec::new();
                        pair.push(sender_id);
                        pair.push(to);
                        proof {
                            assert(pair@ =~= seq![sender_id, to]);
                        }
                        Ok(pair)
                    },
                }
            },
        }
    }
    /// Routes a block of audio samples of `participant_id` in session
    /// `session_id`: returns the other participants, who receive it as it is.
    pub fn send_audio_data(&self, session_id: u128, participant_id: u128, data: &[i16]) -> (r:
        Result<Vec<u128>, TeleconferenceError>)
        requires
            self.wf(),
        ensures
            !self@.contains_key(session_id) ==> r == Err::<Vec<u128>, TeleconferenceError>(
                TeleconferenceError::SessionNotFound,
            ),
            self@.contains_key(session_id) ==> {
                let ids = participant_ids(self@[session_id].participants);
                &&& !ids.contains(participant_id) ==> r == Err::<Vec<u128>, TeleconferenceError>(
                    TeleconferenceError::ParticipantNotFound,
                )
                &&& ids.contains(participant_id) ==> (r matches Ok(v) && v@ == ids.filter(
                    other_id(participant_id),
                ))
            },
    {
        match self.sessions.get(&session_id) {
            None => Err(TeleconferenceError::SessionNotFound),
            Some(s) => {
                let ghost ids = participant_ids(s@.participants);
                let ghost pred = other_id(participant_id);
                let mut others: Vec<u128> = Vec::new();
                let mut found = false;
                let mut i: usize = 0;
                while i < s.participants.len()
                    invariant
                        i <= s.participants@.len(),
                        ids == participant_ids(s@.participants),
                        pred == other_id(participant_id),
                        others@ == ids.subrange(0, i as int).filter(pred),
                        found == ids.subrange(0, i as int).contains(participant_id),
                    decreases s.participants@.len() - i,
                {
                    let id = s.participants[i].participant_id;
                    proof {
                        lemma_filter_step(ids, i as int, pred);
                        assert(ids.subrange(0, i + 1) =~= ids.subrange(0, i as int).push(id));
                        vstd::seq_lib::lemma_seq_contains_after_push(
                            ids.subrange(0, i as int),
                            id,
                            participant_id,
                        );
                    }
                    if id == participant_id {
                        found = true;
                    } else {
                        others.push(id);
                    }
                    i += 1;
                }
                proof {
                    assert(ids.subrange(0, i as int) =~= ids);
                }
                if !found {
                    return Err(TeleconferenceError::ParticipantNotFound);
                }
                Ok(others)
            },
        }
    }
    /// Accepts a device upgrade request; the sessions stay as they are.
    pub fn request_device_upgrade(&self, device_id: &str, upgrade_type: DeviceUpgradeType) -> (r:
        Result<(), TeleconferenceError>)
        ensures
            r is Ok,
    {
        Ok(())
    }
}

} // verus!
