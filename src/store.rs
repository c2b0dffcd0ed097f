//! Rows of the relational store, how a finished patrol becomes rows, and the
//! decisions of the saved-voice-channel resolver, whose queries the caller
//! runs.
use crate::tracker::{ChannelLog, PatrolRecord, closed_log, lemma_closed_stretches_ordered};
use vstd::prelude::*;

verus! {

/// A voice channel known to the store, under a surrogate id. At most one row
/// exists per guild and channel.
#[derive(Debug)]
pub struct SavedVoiceChannel {
    pub id: i32,
    pub channel_id: u64,
    pub guild_id: u64,
    pub name: String,
}

/// A stored patrol. `main_channel_id` is the surrogate id of a saved voice
/// channel; times are seconds since the Unix epoch.
#[derive(Clone, Copy, Debug, PartialEq, Eq, Structural)]
pub struct Patrol {
    pub id: i32,
    pub officer_id: u64,
    pub main_channel_id: i32,
    pub start: i64,
    pub end: i64,
    pub event_id: Option<i32>,
}

/// A stored stretch of a patrol in one channel (a saved voice channel id).
#[derive(Clone, Copy, Debug, PartialEq, Eq, Structural)]
pub struct PatrolVoice {
    pub id: i32,
    pub patrol_id: i32,
    pub channel_id: i32,
    pub start: i64,
    pub end: i64,
}

/// A patrol row to insert; the store assigns its id.
#[derive(Clone, Copy, Debug, PartialEq, Eq, Structural)]
pub struct NewPatrol {
    pub officer_id: u64,
    pub main_channel_id: i32,
    pub start: i64,
    pub end: i64,
    pub event_id: Option<i32>,
}

/// A patrol-voice row to insert; the store assigns its id.
#[derive(Clone, Copy, Debug, PartialEq, Eq, Structural)]
pub struct NewPatrolVoice {
    pub patrol_id: i32,
    pub channel_id: i32,
    pub start: i64,
    pub end: i64,
}

/// The patrol row of a finished patrol whose main channel is saved under
/// `main_channel_id`; it ends no earlier than it starts.
pub fn patrol_row(record: &PatrolRecord, main_channel_id: i32) -> (r: NewPatrol)
    requires
        record.wf(),
    ensures
        r.start <= r.end,
        r == (NewPatrol {
            officer_id: record.officer_id,
            main_channel_id,
            start: record.start,
            end: record.end,
            event_id: None,
        }),
{
    NewPatrol {
        officer_id: record.officer_id,
        main_channel_id,
        start: record.start,
        end: record.end,
        event_id: None,
    }
}

/// The row of one stretch of the patrol `patrol_id`, in the channel saved
/// under `channel_id`. A stretch still open ends at `now`.
pub fn create_patrol_voice(patrol_id: i32, log: &ChannelLog, channel_id: i32, now: i64) -> (r:
    NewPatrolVoice)
    ensures
        r == (NewPatrolVoice {
            patrol_id,
            channel_id,
            start: log.start,
            end: match log.end {
                Some(e) => e,
                None => now,
            },
        }),
{
    let end = match log.end {
        Some(e) => e,
        None => now,
    };
    NewPatrolVoice { patrol_id, channel_id, start: log.start, end }
}

/// The stretch rows of a stored patrol: `channel_ids[i]` is the saved id of
/// the channel of `record.voice_log[i]`.
pub open spec fn voice_rows_of(record: PatrolRecord, patrol_id: i32, channel_ids: Seq<i32>) -> Seq<
    NewPatrolVoice,
> {
    Seq::new(
        record.voice_log@.len(),
        |i: int|
            NewPatrolVoice {
                patrol_id,
                channel_id: channel_ids[i],
                start: record.voice_log@[i].start,
                end: record.voice_log@[i].end->0,
            },
    )
}

/// The stretch rows of the stored patrol `patrol_id`, one per stretch of the
/// record, in order. Each ends where the next begins; the first starts with
/// the patrol and the last ends with it.
pub fn patrol_voice_rows(record: &PatrolRecord, patrol_id: i32, channel_ids: &Vec<i32>) -> (r: Vec<
    NewPatrolVoice,
>)
    requires
        record.wf(),
        channel_ids@.len() == record.voice_log@.len(),
    ensures
        r@ == voice_rows_of(*record, patrol_id, channel_ids@),
        r@.len() > 0,
        r@[0].start == record.start,
        r@.last().end == record.end,
        forall|i: int| 0 <= i < r@.len() - 1 ==> #[trigger] r@[i].end == r@[i + 1].start,
        forall|i: int| 0 <= i < r@.len() ==> #[trigger] r@[i].start <= r@[i].end,
{
    proof {
        lemma_closed_stretches_ordered(record.voice_log@);
    }
    let mut rows: Vec<NewPatrolVoice> = Vec::new();
    let n = record.voice_log.len();
    let mut i: usize = 0;
    while i < n
        invariant
            i <= n,
            n == record.voice_log@.len(),
            n == channel_ids@.len(),
            closed_log(record.voice_log@),
            rows@ == voice_rows_of(*record, patrol_id, channel_ids@).subrange(0, i as int),
        decreases n - i,
    {
        // every stretch of a finished patrol is closed
        let end = match record.voice_log[i].end {
            Some(e) => e,
            None => record.end,
        };
        assert(record.voice_log@[i as int].end is Some) by {
            if i + 1 < n {
                assert(record.voice_log@[i as int].end == Some(record.voice_log@[i + 1].start));
            }
        }
        rows.push(NewPatrolVoice { patrol_id, channel_id: channel_ids[i], start: record.voice_log[i].start, end });
        i = i + 1;
        assert(rows@ =~= voice_rows_of(*record, patrol_id, channel_ids@).subrange(0, i as int));
    }
    assert(rows@ =~= voice_rows_of(*record, patrol_id, channel_ids@));
    assert forall|i: int| 0 <= i < rows@.len() - 1 implies #[trigger] rows@[i].end == rows@[i + 1].start by {
        assert(record.voice_log@[i].end == Some(record.voice_log@[i + 1].start));
    }
    rows
}

/// A saved voice channel as plain values.
pub ghost struct ChannelRow {
    pub id: i32,
    pub channel_id: u64,
    pub guild_id: u64,
    pub name: Seq<char>,
}

impl View for SavedVoiceChannel {
    type V = ChannelRow;

    open spec fn view(&self) -> ChannelRow {
        ChannelRow {
            id: self.id,
            channel_id: self.channel_id,
            guild_id: self.guild_id,
            name: self.name@,
        }
    }
}

/// The kinds of store error that the resolver tells apart.
#[derive(Clone, Copy, Debug, PartialEq, Eq, Structural)]
pub enum DbErrorKind {
    /// The insert broke a constraint: another writer stored the row first.
    InsertConflict,
    /// Anything else.
    Other,
}

/// Why resolving a saved voice channel failed.
#[derive(Clone, Copy, Debug, PartialEq, Eq, Structural)]
pub enum ResolveError {
    /// The insert conflicted, yet the row could not be found afterwards.
    ResolverLost,
    /// The store failed otherwise.
    Db,
}

/// The answer of a store query that the resolver asked for.
#[derive(Debug)]
pub enum ResolveStep {
    /// The first select by guild and channel answered.
    Selected(Option<SavedVoiceChannel>),
    /// The insert of a new row answered with its id, or failed.
    Inserted(Result<i32, DbErrorKind>),
    /// The select after a conflicting insert answered.
    Reselected(Option<SavedVoiceChannel>),
}

/// What the resolver does next.
#[derive(Debug)]
pub enum ResolveAction {
    /// Insert a row for the guild and channel, with an empty name.
    Insert,
    /// Select by guild and channel again.
    Reselect,
    /// This row is the channel's.
    Done(SavedVoiceChannel),
    Fail(ResolveError),
}

pub ghost enum StepView {
    Selected(Option<ChannelRow>),
    Inserted(Result<i32, DbErrorKind>),
    Reselected(Option<ChannelRow>),
}

pub ghost enum ActionView {
    Insert,
    Reselect,
    Done(ChannelRow),
    Fail(ResolveError),
}

pub open spec fn opt_channel(o: Option<SavedVoiceChannel>) -> Option<ChannelRow> {
    match o {
        Some(c) => Some(c@),
        None => None,
    }
}

impl View for ResolveStep {
    type V = StepView;

    open spec fn view(&self) -> StepView {
        match self {
            ResolveStep::Selected(o) => StepView::Selected(opt_channel(*o)),
            ResolveStep::Inserted(r) => StepView::Inserted(*r),
            ResolveStep::Reselected(o) => StepView::Reselected(opt_channel(*o)),
        }
    }
}

impl View for ResolveAction {
    type V = ActionView;

    open spec fn view(&self) -> ActionView {
        match self {
            ResolveAction::Insert => ActionView::Insert,
            ResolveAction::Reselect => ActionView::Reselect,
            ResolveAction::Done(c) => ActionView::Done(c@),
            ResolveAction::Fail(e) => ActionView::Fail(*e),
        }
    }
}

/// Looking up or creating the saved voice channel of `channel_id` in
/// `guild_id`: a row found is returned; otherwise one with an empty name is
/// inserted; an insert that conflicts with another writer's is followed by a
/// second select, which must find the row; any other store error ends it.
pub open spec fn resolve_action(guild_id: u64, channel_id: u64, step: StepView) -> ActionView {
    match step {
        StepView::Selected(Some(row)) => ActionView::Done(row),
        StepView::Selected(None) => ActionView::Insert,
        StepView::Inserted(Ok(id)) => ActionView::Done(
            ChannelRow { id, channel_id, guild_id, name: Seq::empty() },
        ),
        StepView::Inserted(Err(DbErrorKind::InsertConflict)) => ActionView::Reselect,
        StepView::Inserted(Err(DbErrorKind::Other)) => ActionView::Fail(ResolveError::Db),
        StepView::Reselected(Some(row)) => ActionView::Done(row),
        StepView::Reselected(None) => ActionView::Fail(ResolveError::ResolverLost),
    }
}

/// The resolver's next move after the answer `step` (see
/// [`resolve_action`]). It starts with a select by guild and channel.
pub fn get_saved_voice_channel(guild_id: u64, channel_id: u64, step: ResolveStep) -> (r:
    ResolveAction)
    ensures
        r@ == resolve_action(guild_id, channel_id, step@),
{
    match step {
        ResolveStep::Selected(Some(row)) => ResolveAction::Done(row),
        ResolveStep::Selected(None) => ResolveAction::Insert,
        ResolveStep::Inserted(Ok(id)) => ResolveAction::Done(
            SavedVoiceChannel { id, channel_id, guild_id, name: String::new() },
        ),
        ResolveStep::Inserted(Err(DbErrorKind::InsertConflict)) => ResolveAction::Reselect,
        ResolveStep::Inserted(Err(DbErrorKind::Other)) => ResolveAction::Fail(ResolveError::Db),
        ResolveStep::Reselected(Some(row)) => ResolveAction::Done(row),
        ResolveStep::Reselected(None) => ResolveAction::Fail(ResolveError::ResolverLost),
    }
}

/// The answer `step` agrees with a store whose unique index maps the guild
/// and channel to `id`: a row found is that row, and an insert that
/// succeeded created it.
pub open spec fn agrees_with_index(step: StepView, guild_id: u64, channel_id: u64, id: i32) -> bool {
    match step {
        StepView::Selected(Some(row)) => row.id == id && row.guild_id == guild_id && row.channel_id
            == channel_id,
        StepView::Reselected(Some(row)) => row.id == id && row.guild_id == guild_id
            && row.channel_id == channel_id,
        StepView::Inserted(Ok(i)) => i == id,
        _ => true,
    }
}

/// However many resolutions of one guild and channel run, and however
/// their queries interleave, every one that completes returns the single
/// row that the unique index holds for them: the same surrogate id.
pub proof fn lemma_resolver_idempotent(
    guild_id: u64,
    channel_id: u64,
    id: i32,
    first: StepView,
    second: StepView,
)
    requires
        agrees_with_index(first, guild_id, channel_id, id),
        agrees_with_index(second, guild_id, channel_id, id),
        resolve_action(guild_id, channel_id, first) is Done,
        resolve_action(guild_id, channel_id, second) is Done,
    ensures
        resolve_action(guild_id, channel_id, first)->Done_0.id == id,
        resolve_action(guild_id, channel_id, second)->Done_0.id == id,
        resolve_action(guild_id, channel_id, first)->Done_0.guild_id == guild_id,
        resolve_action(guild_id, channel_id, first)->Done_0.channel_id == channel_id,
        resolve_action(guild_id, channel_id, second)->Done_0.guild_id == guild_id,
        resolve_action(guild_id, channel_id, second)->Done_0.channel_id == channel_id,
{
}

} // verus!
