//! The patrol tracker: per officer, an open log of the voice channels they
//! have been in since going on duty, turned into a closed patrol record when
//! they leave the monitored channels.
use crate::channels::{get_main_channel, is_monitored, main_index, monitored};
use crate::clock::now_timestamp;
use crate::config::Config;
use std::collections::HashMap;
use vstd::prelude::*;

verus! {

broadcast use vstd::std_specs::hash::group_hash_axioms;

/// A stretch of time that an officer spent in one voice channel. Times are
/// seconds since the Unix epoch; `end` is `None` while the officer is still
/// in the channel.
#[derive(Clone, Copy, Debug, PartialEq, Eq, Structural)]
pub struct ChannelLog {
    pub guild_id: u64,
    pub channel_id: u64,
    pub start: i64,
    pub end: Option<i64>,
}

/// The channels an officer has been in during one patrol, oldest first.
#[derive(Clone, Debug)]
pub struct PatrolLog {
    pub officer_id: u64,
    pub voice_log: Vec<ChannelLog>,
}

/// Each stretch ends when the next one starts.
pub open spec fn contiguous(log: Seq<ChannelLog>) -> bool {
    forall|i: int| 0 <= i < log.len() - 1 ==> #[trigger] log[i].end == Some(log[i + 1].start)
}

/// The stretches start in order of time.
pub open spec fn sorted_starts(log: Seq<ChannelLog>) -> bool {
    forall|i: int, j: int|
        #![trigger log[i], log[j]]
        0 <= i <= j < log.len() ==> log[i].start <= log[j].start
}

/// The log of a patrol in progress: not empty, in order of time, each
/// stretch ends where the next begins, and only the last one is still open.
pub open spec fn open_log(log: Seq<ChannelLog>) -> bool {
    &&& log.len() > 0
    &&& contiguous(log)
    &&& sorted_starts(log)
    &&& log.last().end is None
}

/// The log of a finished patrol: not empty, in order of time, contiguous,
/// every stretch closed, and the last one ends no earlier than it starts.
pub open spec fn closed_log(log: Seq<ChannelLog>) -> bool {
    &&& log.len() > 0
    &&& contiguous(log)
    &&& sorted_starts(log)
    &&& log.last().end is Some
    &&& log.last().start <= log.last().end->0
}

/// Every stretch of a finished log ends no earlier than it starts.
pub proof fn lemma_closed_stretches_ordered(log: Seq<ChannelLog>)
    requires
        closed_log(log),
    ensures
        forall|i: int| 0 <= i < log.len() ==> #[trigger] log[i].end is Some && log[i].start
            <= log[i].end->0,
        log[0].start <= log.last().end->0,
{
    assert forall|i: int| 0 <= i < log.len() implies #[trigger] log[i].end is Some && log[i].start
        <= log[i].end->0 by {
        if i < log.len() - 1 {
            assert(log[i].end == Some(log[i + 1].start));
            assert(log[i].start <= log[i + 1].start);
        }
    }
    assert(log[0].start <= log[log.len() - 1].start);
}

/// The officer's open log can be closed, or moved on from, at `now`: the
/// clock has not gone back before the start of its last stretch.
pub open spec fn not_before_last(logs: Map<u64, Seq<ChannelLog>>, officer_id: u64, now: i64) -> bool {
    logs.contains_key(officer_id) ==> logs[officer_id].last().start <= now
}

/// The open patrols after `action` was applied at `now` for `officer_id` in
/// `guild_id`: going on duty opens a one-stretch log, a move extends the log,
/// and nothing else changes the tracker (going off duty is applied
/// separately).
pub open spec fn applied(
    logs: Map<u64, Seq<ChannelLog>>,
    officer_id: u64,
    guild_id: u64,
    action: VoiceAction,
    now: i64,
) -> Map<u64, Seq<ChannelLog>> {
    match action {
        VoiceAction::GoOnDuty(c) => logs.insert(
            officer_id,
            seq![ChannelLog { guild_id, channel_id: c, start: now, end: None }],
        ),
        VoiceAction::MoveOnDutyVc(c) => logs.insert(
            officer_id,
            moved(logs[officer_id], guild_id, c, now),
        ),
        _ => logs,
    }
}

/// An open log after a move to `channel_id` at `now`: the last stretch
/// closes and a new open one follows it.
pub open spec fn moved(log: Seq<ChannelLog>, guild_id: u64, channel_id: u64, now: i64) -> Seq<
    ChannelLog,
> {
    log.drop_last().push(ChannelLog { end: Some(now), ..log.last() }).push(
        ChannelLog { guild_id, channel_id, start: now, end: None },
    )
}

/// Errors of the tracker. Each means that its state and the events it was
/// given disagree.
#[derive(Clone, Copy, Debug, PartialEq, Eq, Structural)]
pub enum TrackerError {
    /// An officer went on duty while a patrol of theirs was still open.
    AlreadyOnDuty,
    /// No open patrol where one was needed, or inputs that do not match it.
    InvariantViolation,
}

/// A patrol that has ended, ready to be stored: the officer, the platform id
/// of the channel chosen to represent it, its bounds, and each stretch.
#[derive(Clone, Debug)]
pub struct PatrolRecord {
    pub officer_id: u64,
    pub main_channel_id: u64,
    pub start: i64,
    pub end: i64,
    pub voice_log: Vec<ChannelLog>,
}

impl PatrolRecord {
    /// The shape of every stored patrol: its stretches are contiguous and
    /// all closed, it starts when the first one starts and ends when the
    /// last one ends.
    pub open spec fn wf(&self) -> bool {
        &&& closed_log(self.voice_log@)
        &&& self.start == self.voice_log@[0].start
        &&& self.voice_log@.last().end == Some(self.end)
        &&& self.start <= self.end
    }
}

/// An open log closed at `now`.
pub open spec fn closed_at(log: Seq<ChannelLog>, now: i64) -> Seq<ChannelLog> {
    log.drop_last().push(ChannelLog { end: Some(now), ..log.last() })
}

/// The open patrols, keyed by officer.
pub struct PatrolTracker {
    logs: HashMap<u64, PatrolLog>,
}

impl PatrolTracker {
    /// The open patrol of each officer on duty.
    pub closed spec fn view(&self) -> Map<u64, Seq<ChannelLog>> {
        Map::new(|k: u64| self.logs@.contains_key(k), |k: u64| self.logs@[k].voice_log@)
    }

    /// Every tracked log belongs to its key and is the log of a patrol in
    /// progress.
    pub closed spec fn wf(&self) -> bool {
        forall|k: u64| #[trigger] self.logs@.contains_key(k) ==> {
            &&& self.logs@[k].officer_id == k
            &&& open_log(self.logs@[k].voice_log@)
        }
    }

    /// The channel an officer is on duty in, or `None` when off duty.
    pub open spec fn state(&self, officer_id: u64) -> Option<u64> {
        if self@.contains_key(officer_id) {
            Some(self@[officer_id].last().channel_id)
        } else {
            None
        }
    }

    proof fn lemma_view(&self)
        requires
            self.wf(),
        ensures
            forall|k: u64| #[trigger] self@.contains_key(k) <==> self.logs@.contains_key(k),
            forall|k: u64| #[trigger]
                self@.contains_key(k) ==> self@[k] == self.logs@[k].voice_log@ && open_log(
                    self@[k],
                ),
    {
    }

    /// A tracker with nobody on duty.
    pub fn new() -> (r: Self)
        ensures
            r.wf(),
            r@ == Map::<u64, Seq<ChannelLog>>::empty(),
    {
        let r = PatrolTracker { logs: HashMap::new() };
        assert(r@ =~= Map::<u64, Seq<ChannelLog>>::empty());
        r
    }


    /// Whether the officer is on duty: whether the last stretch of their open
    /// patrol is still open.
    pub fn is_on_patrol(&self, officer_id: u64) -> (r: Result<bool, TrackerError>)
        requires
            self.wf(),
        ensures
            r == Ok::<bool, TrackerError>(self@.contains_key(officer_id)),
    {
        match self.logs.get(&officer_id) {
            Some(log) => {
                let n = log.voice_log.len();
                if n == 0 {
                    return Err(TrackerError::InvariantViolation);
                }
                Ok(log.voice_log[n - 1].end.is_none())
            },
            None => Ok(false),
        }
    }

    /// The channels of an officer's open patrol, oldest first; empty when
    /// they are off duty.
    pub fn voice_log(&self, officer_id: u64) -> (r: Vec<ChannelLog>)
        requires
            self.wf(),
        ensures
            self@.contains_key(officer_id) ==> r@ == self@[officer_id],
            !self@.contains_key(officer_id) ==> r@.len() == 0,
    {
        let mut out: Vec<ChannelLog> = Vec::new();
        match self.logs.get(&officer_id) {
            Some(log) => {
                let mut i: usize = 0;
                while i < log.voice_log.len()
                    invariant
                        i <= log.voice_log@.len(),
                        out@ == log.voice_log@.subrange(0, i as int),
                    decreases log.voice_log@.len() - i,
                {
                    out.push(log.voice_log[i]);
                    i = i + 1;
                }
                assert(out@ =~= log.voice_log@);
            },
            None => {},
        }
        out
    }

    /// An officer enters a monitored channel while off duty: a patrol opens
    /// with one open stretch in `channel_id` from `now`. Where a patrol of
    /// theirs is already open, an off-duty move was lost: that patrol is
    /// dropped, the officer is left off duty, and the call fails.
    pub fn go_on_duty(&mut self, officer_id: u64, guild_id: u64, channel_id: u64, now: i64) -> (r:
        Result<(), TrackerError>)
        requires
            old(self).wf(),
        ensures
            final(self).wf(),
            old(self)@.contains_key(officer_id) ==> r == Err::<(), TrackerError>(
                TrackerError::AlreadyOnDuty,
            ) && final(self)@ == old(self)@.remove(officer_id),
            !old(self)@.contains_key(officer_id) ==> r is Ok && final(self)@ == old(self)@.insert(
                officer_id,
                seq![ChannelLog { guild_id, channel_id, start: now, end: None }],
            ),
    {
        if self.logs.contains_key(&officer_id) {
            self.logs.remove(&officer_id);
            assert(self@ =~= old(self)@.remove(officer_id));
            return Err(TrackerError::AlreadyOnDuty);
        }
        let mut voice_log: Vec<ChannelLog> = Vec::new();
        voice_log.push(ChannelLog { guild_id, channel_id, start: now, end: None });
        self.logs.insert(officer_id, PatrolLog { officer_id, voice_log });
        assert(self@ =~= old(self)@.insert(
            officer_id,
            seq![ChannelLog { guild_id, channel_id, start: now, end: None }],
        ));
        Ok(())
    }

    /// An officer on duty moves to another monitored channel: the open
    /// stretch ends at `now` and a new one opens in `channel_id`. Fails when
    /// the officer has no open patrol.
    pub fn move_on_duty_vc(
        &mut self,
        officer_id: u64,
        guild_id: u64,
        channel_id: u64,
        now: i64,
    ) -> (r: Result<(), TrackerError>)
        requires
            old(self).wf(),
            not_before_last(old(self)@, officer_id, now),
        ensures
            final(self).wf(),
            !old(self)@.contains_key(officer_id) ==> r == Err::<(), TrackerError>(
                TrackerError::InvariantViolation,
            ) && final(self)@ == old(self)@,
            old(self)@.contains_key(officer_id) ==> r is Ok && final(self)@ == old(self)@.insert(
                officer_id,
                moved(old(self)@[officer_id], guild_id, channel_id, now),
            ),
    {
        let log = self.logs.remove(&officer_id);
        match log {
            None => {
                assert(self@ =~= old(self)@);
                Err(TrackerError::InvariantViolation)
            },
            Some(log) => {
                let mut voice_log = log.voice_log;
                let ghost before = voice_log@;
                let last = voice_log.pop().unwrap();
                voice_log.push(ChannelLog { end: Some(now), ..last });
                voice_log.push(ChannelLog { guild_id, channel_id, start: now, end: None });
                assert(voice_log@ =~= moved(before, guild_id, channel_id, now));
                assert(sorted_starts(voice_log@)) by {
                    assert forall|a: int, b: int|
                        #![trigger voice_log@[a], voice_log@[b]]
                        0 <= a <= b < voice_log@.len() implies voice_log@[a].start
                        <= voice_log@[b].start by {
                        let n = before.len();
                        if b < n {
                            assert(voice_log@[a].start == before[a].start);
                            assert(voice_log@[b].start == before[b].start);
                        } else if a < n {
                            assert(voice_log@[a].start == before[a].start);
                            assert(before[a].start <= before[n - 1].start);
                        }
                    }
                }
                assert(contiguous(voice_log@)) by {
                    assert forall|a: int| 0 <= a < voice_log@.len() - 1 implies #[trigger] voice_log@[a].end
                        == Some(voice_log@[a + 1].start) by {
                        let n = before.len();
                        if a < n - 1 {
                            assert(voice_log@[a] == before[a]);
                            assert(before[a].end == Some(before[a + 1].start));
                        }
                    }
                }
                self.logs.insert(officer_id, PatrolLog { officer_id, voice_log });
                assert(self@ =~= old(self)@.insert(
                    officer_id,
                    moved(old(self)@[officer_id], guild_id, channel_id, now),
                ));
                Ok(())
            },
        }
    }

    /// First half of going off duty: the officer's patrol, closed at `now`,
    /// as a record to store. `names[i]` is the name of the channel of the
    /// `i`-th stretch (see [`PatrolTracker::voice_log`]), if known; the main
    /// channel is chosen from them. The tracker is left as it is until
    /// [`PatrolTracker::finish_off_duty`]. Fails when the officer has no
    /// open patrol or the names do not match it.
    pub fn go_off_duty(
        &self,
        officer_id: u64,
        names: &Vec<Option<String>>,
        bad_starts: &Vec<String>,
        now: i64,
    ) -> (r: Result<PatrolRecord, TrackerError>)
        requires
            self.wf(),
            not_before_last(self@, officer_id, now),
        ensures
            !self@.contains_key(officer_id) || names@.len() != self@[officer_id].len() ==> r
                is Err && r->Err_0 == TrackerError::InvariantViolation,
            self@.contains_key(officer_id) && names@.len() == self@[officer_id].len() ==> r is Ok
                && ({
                let log = self@[officer_id];
                let rec = r->Ok_0;
                &&& rec.wf()
                &&& rec.officer_id == officer_id
                &&& rec.voice_log@ == closed_at(log, now)
                &&& rec.start == log[0].start
                &&& rec.end == now
                &&& rec.main_channel_id == log[main_index(names@, bad_starts@)].channel_id
            }),
    {
        proof {
            self.lemma_view();
        }
        let voice_log = self.voice_log(officer_id);
        let n = voice_log.len();
        if n == 0 || names.len() != n {
            return Err(TrackerError::InvariantViolation);
        }
        let main_channel_id = match get_main_channel(&voice_log, names, bad_starts) {
            Ok(c) => c,
            Err(e) => {
                return Err(e);
            },
        };
        let start = voice_log[0].start;
        let mut closed = voice_log;
        let ghost before = closed@;
        let last = closed.pop().unwrap();
        closed.push(ChannelLog { end: Some(now), ..last });
        assert(closed@ =~= closed_at(before, now));
        assert(contiguous(closed@)) by {
            assert forall|i: int| 0 <= i < closed@.len() - 1 implies #[trigger] closed@[i].end
                == Some(closed@[i + 1].start) by {
                assert(closed@[i] == before[i]);
            }
        }
        assert(sorted_starts(closed@)) by {
            assert forall|a: int, b: int|
                #![trigger closed@[a], closed@[b]]
                0 <= a <= b < closed@.len() implies closed@[a].start <= closed@[b].start by {
                assert(closed@[a].start == before[a].start);
                assert(closed@[b].start == before[b].start);
            }
        }
        proof {
            lemma_closed_stretches_ordered(closed@);
        }
        Ok(PatrolRecord { officer_id, main_channel_id, start, end: now, voice_log: closed })
    }

    /// Handles a voice-state update of the configured guild for one officer
    /// (see [`decide_voice_update`]): on duty and hops are applied at `now`;
    /// going off duty is returned as [`VoiceAction::GoOffDuty`] for the
    /// caller to run through [`PatrolTracker::go_off_duty`] and
    /// [`PatrolTracker::finish_off_duty`]. `category_id` is the category of
    /// `new_channel`, if any. Updates of other guilds are ignored.
    pub fn voice_state_update(
        &mut self,
        config: &Config,
        officer_id: u64,
        guild_id: Option<u64>,
        new_channel: Option<u64>,
        category_id: Option<u64>,
        now: i64,
    ) -> (r: Result<VoiceAction, TrackerError>)
        requires
            old(self).wf(),
            not_before_last(old(self)@, officer_id, now),
        ensures
            final(self).wf(),
            r is Ok,
            guild_id != Some(config.guild_id) ==> r->Ok_0 == VoiceAction::Nothing && final(self)@
                == old(self)@,
            guild_id == Some(config.guild_id) ==> {
                let mon = new_channel is Some && monitored(
                    &config.patrol_time,
                    new_channel->0,
                    category_id,
                );
                &&& r->Ok_0 == voice_action(old(self).state(officer_id), new_channel, mon)
                &&& final(self)@ == applied(old(self)@, officer_id, config.guild_id, r->Ok_0, now)
                &&& r->Ok_0 != VoiceAction::GoOffDuty ==> final(self).state(officer_id)
                    == next_state(old(self).state(officer_id), new_channel, mon)
            },
    {
        if guild_id != Some(config.guild_id) {
            return Ok(VoiceAction::Nothing);
        }
        let g = config.guild_id;
        let mon = match new_channel {
            Some(c) => is_monitored(&config.patrol_time, c, category_id),
            None => false,
        };
        let current = match self.logs.get(&officer_id) {
            Some(log) => {
                let n = log.voice_log.len();
                Some(log.voice_log[n - 1].channel_id)
            },
            None => None,
        };
        let action = decide_voice_update(current, new_channel, mon);
        match action {
            VoiceAction::GoOnDuty(c) => {
                let _ = self.go_on_duty(officer_id, g, c, now);
            },
            VoiceAction::MoveOnDutyVc(c) => {
                let _ = self.move_on_duty_vc(officer_id, g, c, now);
            },
            _ => {},
        }
        proof {
            self.lemma_view();
        }
        Ok(action)
    }

    /// Whether the officer's open log, if any, can be closed or moved on
    /// from at `now` (see [`not_before_last`]).
    pub fn is_not_before_last(&self, officer_id: u64, now: i64) -> (r: bool)
        requires
            self.wf(),
        ensures
            r == not_before_last(self@, officer_id, now),
    {
        match self.logs.get(&officer_id) {
            Some(log) => {
                let n = log.voice_log.len();
                log.voice_log[n - 1].start <= now
            },
            None => true,
        }
    }

    /// [`PatrolTracker::voice_state_update`] at the current time. Fails,
    /// changing nothing, when the clock reads earlier than the start of the
    /// officer's last stretch.
    pub fn voice_state_update_now(
        &mut self,
        config: &Config,
        officer_id: u64,
        guild_id: Option<u64>,
        new_channel: Option<u64>,
        category_id: Option<u64>,
    ) -> (r: Result<VoiceAction, TrackerError>)
        requires
            old(self).wf(),
        ensures
            final(self).wf(),
            !old(self)@.contains_key(officer_id) ==> r is Ok,
            r is Err ==> r->Err_0 == TrackerError::InvariantViolation && final(self)@ == old(
                self,
            )@,
            r is Ok && guild_id != Some(config.guild_id) ==> r->Ok_0 == VoiceAction::Nothing
                && final(self)@ == old(self)@,
            r is Ok && guild_id == Some(config.guild_id) ==> {
                let mon = new_channel is Some && monitored(
                    &config.patrol_time,
                    new_channel->0,
                    category_id,
                );
                &&& r->Ok_0 == voice_action(old(self).state(officer_id), new_channel, mon)
                &&& exists|now: i64|
                    #![trigger applied(old(self)@, officer_id, config.guild_id, r->Ok_0, now)]
                    not_before_last(old(self)@, officer_id, now) && final(self)@ == applied(
                        old(self)@,
                        officer_id,
                        config.guild_id,
                        r->Ok_0,
                        now,
                    )
                &&& r->Ok_0 != VoiceAction::GoOffDuty ==> final(self).state(officer_id)
                    == next_state(old(self).state(officer_id), new_channel, mon)
            },
    {
        let now = now_timestamp();
        if !self.is_not_before_last(officer_id, now) {
            return Err(TrackerError::InvariantViolation);
        }
        self.voice_state_update(config, officer_id, guild_id, new_channel, category_id, now)
    }

    /// [`PatrolTracker::go_off_duty`] at the current time. Also fails when
    /// the clock reads earlier than the start of the officer's last stretch.
    pub fn go_off_duty_now(
        &self,
        officer_id: u64,
        names: &Vec<Option<String>>,
        bad_starts: &Vec<String>,
    ) -> (r: Result<PatrolRecord, TrackerError>)
        requires
            self.wf(),
        ensures
            r is Err ==> r->Err_0 == TrackerError::InvariantViolation,
            !self@.contains_key(officer_id) || names@.len() != self@[officer_id].len() ==> r
                is Err,
            self@.contains_key(officer_id) && names@.len() == self@[officer_id].len() && r is Ok
                ==> ({
                let log = self@[officer_id];
                let rec = r->Ok_0;
                &&& rec.wf()
                &&& rec.officer_id == officer_id
                &&& rec.voice_log@ == closed_at(log, rec.end)
                &&& rec.start == log[0].start
                &&& rec.main_channel_id == log[main_index(names@, bad_starts@)].channel_id
            }),
    {
        let now = now_timestamp();
        if !self.is_not_before_last(officer_id, now) {
            return Err(TrackerError::InvariantViolation);
        }
        self.go_off_duty(officer_id, names, bad_starts, now)
    }

    /// Second half of going off duty, once the record from
    /// [`PatrolTracker::go_off_duty`] is stored: the officer's patrol is
    /// forgotten.
    pub fn finish_off_duty(&mut self, officer_id: u64)
        requires
            old(self).wf(),
        ensures
            final(self).wf(),
            final(self)@ == old(self)@.remove(officer_id),
    {
        self.logs.remove(&officer_id);
        assert(self@ =~= old(self)@.remove(officer_id));
    }

    /// Whatever updates brought a tracker to its state, an officer is in it
    /// exactly when they are on duty in some channel, exactly when the last
    /// stretch of their log is open.
    pub proof fn lemma_tracked_iff_on_duty(&self, officer_id: u64)
        requires
            self.wf(),
        ensures
            self@.contains_key(officer_id) <==> self.state(officer_id) is Some,
            self@.contains_key(officer_id) <==> (self@.contains_key(officer_id)
                && self@[officer_id].len() > 0 && self@[officer_id].last().end is None),
    {
    }
}

/// What a voice-state update asks of the tracker.
#[derive(Clone, Copy, Debug, PartialEq, Eq, Structural)]
pub enum VoiceAction {
    Nothing,
    GoOnDuty(u64),
    MoveOnDutyVc(u64),
    GoOffDuty,
}

/// The transition table of one officer: `current` is the channel they are on
/// duty in (`None`: off duty), `new_channel` the channel the update puts them
/// in, and `monitored_new` whether that channel is monitored. An update to
/// the channel they are already in (a mute, a deafen) changes nothing.
pub open spec fn voice_action(current: Option<u64>, new_channel: Option<u64>, monitored_new: bool) -> VoiceAction {
    match (current, new_channel) {
        (None, Some(c)) => if monitored_new {
            VoiceAction::GoOnDuty(c)
        } else {
            VoiceAction::Nothing
        },
        (None, None) => VoiceAction::Nothing,
        (Some(p), Some(c)) => if c == p {
            VoiceAction::Nothing
        } else if monitored_new {
            VoiceAction::MoveOnDutyVc(c)
        } else {
            VoiceAction::GoOffDuty
        },
        (Some(_), None) => VoiceAction::GoOffDuty,
    }
}

/// The officer's state after the transition: the channel they are on duty
/// in, or `None`.
pub open spec fn next_state(current: Option<u64>, new_channel: Option<u64>, monitored_new: bool) -> Option<u64> {
    match voice_action(current, new_channel, monitored_new) {
        VoiceAction::Nothing => current,
        VoiceAction::GoOnDuty(c) => Some(c),
        VoiceAction::MoveOnDutyVc(c) => Some(c),
        VoiceAction::GoOffDuty => None,
    }
}

/// After an update (and the off-duty half it may ask for), an officer is on
/// duty in `c` exactly when the update put them in `c` and either `c` is
/// monitored or they were already on duty in `c` (a mute or deafen there).
pub proof fn lemma_on_duty_after_update(
    current: Option<u64>,
    new_channel: Option<u64>,
    monitored_new: bool,
    c: u64,
)
    ensures
        next_state(current, new_channel, monitored_new) == Some(c) <==> (new_channel == Some(c) && (
        monitored_new || current == Some(c))),
        next_state(current, new_channel, monitored_new) is None <==> (new_channel is None || (
        !monitored_new && current != new_channel)),
{
}

/// Decides what a voice-state update does, by the transition table.
pub fn decide_voice_update(current: Option<u64>, new_channel: Option<u64>, monitored_new: bool) -> (r:
    VoiceAction)
    ensures
        r == voice_action(current, new_channel, monitored_new),
{
    match (current, new_channel) {
        (None, Some(c)) => if monitored_new {
            VoiceAction::GoOnDuty(c)
        } else {
            VoiceAction::Nothing
        },
        (None, None) => VoiceAction::Nothing,
        (Some(p), Some(c)) => if c == p {
            VoiceAction::Nothing
        } else if monitored_new {
            VoiceAction::MoveOnDutyVc(c)
        } else {
            VoiceAction::GoOffDuty
        },
        (Some(_), None) => VoiceAction::GoOffDuty,
    }
}

} // verus!
