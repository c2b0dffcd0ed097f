//! The officer roster: every user who holds, or once held, the officer role,
//! with a seven-day grace window that keeps the profile of a returning
//! officer.
use crate::clock::now_timestamp;
use crate::config::RoleConfig;
use std::collections::HashMap;
use vstd::prelude::*;

verus! {

broadcast use vstd::std_specs::hash::group_hash_axioms;

/// How long, in seconds, a former officer keeps their profile: seven days.
pub const GRACE_SECS: i64 = 604800;

/// One officer's row. Times are seconds since the Unix epoch; `deleted_at`
/// is `None` exactly while they hold the role.
#[derive(Debug)]
pub struct Officer {
    pub id: u64,
    pub vrchat_name: String,
    pub vrchat_id: String,
    pub started_monitoring: i64,
    pub deleted_at: Option<i64>,
}

/// An officer's row as plain values.
pub ghost struct OfficerRow {
    pub id: u64,
    pub vrchat_name: Seq<char>,
    pub vrchat_id: Seq<char>,
    pub started_monitoring: i64,
    pub deleted_at: Option<i64>,
}

impl View for Officer {
    type V = OfficerRow;

    open spec fn view(&self) -> OfficerRow {
        OfficerRow {
            id: self.id,
            vrchat_name: self.vrchat_name@,
            vrchat_id: self.vrchat_id@,
            started_monitoring: self.started_monitoring,
            deleted_at: self.deleted_at,
        }
    }
}

impl Officer {
    /// A copy of this row.
    pub fn copy(&self) -> (r: Officer)
        ensures
            r == *self,
    {
        Officer {
            id: self.id,
            vrchat_name: self.vrchat_name.clone(),
            vrchat_id: self.vrchat_id.clone(),
            started_monitoring: self.started_monitoring,
            deleted_at: self.deleted_at,
        }
    }
}

/// Errors of the roster.
#[derive(Clone, Copy, Debug, PartialEq, Eq, Structural)]
pub enum RosterError {
    /// The user to add is an officer already.
    AlreadyActive,
    /// The user to remove is not in the roster.
    NotFound,
    /// The start of the grace window is out of the range of times.
    TimeOverflow,
}

/// A write to the stored officer rows that a roster change asks for.
#[derive(Debug)]
pub enum OfficerWrite {
    /// Update the row to this one: the returning officer's own row with
    /// `deleted_at` cleared.
    Reactivate(Officer),
    /// Store this fresh row in place of whatever was there.
    Insert(Officer),
    /// Set `deleted_at` of the row of `id` to `at`, and nothing else.
    MarkDeleted { id: u64, at: i64 },
}

/// A write as plain values.
pub ghost enum WriteView {
    Reactivate(OfficerRow),
    Insert(OfficerRow),
    MarkDeleted { id: u64, at: i64 },
}

impl View for OfficerWrite {
    type V = WriteView;

    open spec fn view(&self) -> WriteView {
        match self {
            OfficerWrite::Reactivate(o) => WriteView::Reactivate(o@),
            OfficerWrite::Insert(o) => WriteView::Insert(o@),
            OfficerWrite::MarkDeleted { id, at } => WriteView::MarkDeleted { id: *id, at: *at },
        }
    }
}

/// The row of a newly added officer: an empty profile, monitored from `now`.
pub open spec fn fresh_officer(user_id: u64, now: i64) -> OfficerRow {
    OfficerRow {
        id: user_id,
        vrchat_name: Seq::empty(),
        vrchat_id: Seq::empty(),
        started_monitoring: now,
        deleted_at: None,
    }
}

/// What adding `user_id` at `now` does, given their earlier row if any: a
/// row removed less than seven days ago comes back as it was; a user with no
/// row, or removed longer ago, starts afresh; an active officer cannot be
/// added again.
pub open spec fn add_outcome(member: Option<OfficerRow>, user_id: u64, now: i64) -> Result<
    WriteView,
    RosterError,
> {
    if now - GRACE_SECS < i64::MIN {
        Err(RosterError::TimeOverflow)
    } else {
        match member {
            Some(m) => match m.deleted_at {
                None => Err(RosterError::AlreadyActive),
                Some(d) => if d > now - GRACE_SECS {
                    Ok(WriteView::Reactivate(OfficerRow { deleted_at: None, ..m }))
                } else {
                    Ok(WriteView::Insert(fresh_officer(user_id, now)))
                },
            },
            None => Ok(WriteView::Insert(fresh_officer(user_id, now))),
        }
    }
}

/// The row that a write leaves behind, for writes that carry a whole row.
pub open spec fn written_row(w: WriteView) -> Option<OfficerRow> {
    match w {
        WriteView::Reactivate(o) => Some(o),
        WriteView::Insert(o) => Some(o),
        WriteView::MarkDeleted { .. } => None,
    }
}

/// A row after its officer lost the role at `now`.
pub open spec fn removed_at(o: OfficerRow, now: i64) -> OfficerRow {
    OfficerRow { deleted_at: Some(now), ..o }
}

/// The view of an optional row.
pub open spec fn opt_row(member: Option<Officer>) -> Option<OfficerRow> {
    match member {
        Some(m) => Some(m@),
        None => None,
    }
}

/// The view of the outcome of a roster change.
pub open spec fn outcome_view(r: Result<OfficerWrite, RosterError>) -> Result<WriteView, RosterError> {
    match r {
        Ok(w) => Ok(w@),
        Err(e) => Err(e),
    }
}

/// Decides how to add `user_id` at `now`, given the row the roster holds for
/// them, if any (see [`add_outcome`]).
pub fn plan_add(member: &Option<Officer>, user_id: u64, now: i64) -> (r: Result<
    OfficerWrite,
    RosterError,
>)
    ensures
        outcome_view(r) == add_outcome(opt_row(*member), user_id, now),
{
    let last_allowed_return = match now.checked_sub(GRACE_SECS) {
        Some(t) => t,
        None => {
            return Err(RosterError::TimeOverflow);
        },
    };
    match member {
        Some(m) => match m.deleted_at {
            None => Err(RosterError::AlreadyActive),
            Some(d) => if d > last_allowed_return {
                let mut row = m.copy();
                row.deleted_at = None;
                assert(row@ == OfficerRow { deleted_at: None, ..m@ });
                Ok(OfficerWrite::Reactivate(row))
            } else {
                Ok(OfficerWrite::Insert(new_officer(user_id, now)))
            },
        },
        None => Ok(OfficerWrite::Insert(new_officer(user_id, now))),
    }
}

fn new_officer(user_id: u64, now: i64) -> (r: Officer)
    ensures
        r@ == fresh_officer(user_id, now),
{
    Officer {
        id: user_id,
        vrchat_name: String::new(),
        vrchat_id: String::new(),
        started_monitoring: now,
        deleted_at: None,
    }
}

/// The rows of `rows` keyed by officer; a later row of the same officer
/// replaces an earlier one.
pub open spec fn rows_map(rows: Seq<Officer>) -> Map<u64, OfficerRow>
    decreases rows.len(),
{
    if rows.len() == 0 {
        Map::empty()
    } else {
        rows_map(rows.drop_last()).insert(rows.last().id, rows.last()@)
    }
}

/// The officers, active and former, keyed by user id.
pub struct Roster {
    officers: HashMap<u64, Officer>,
}

impl Roster {
    /// Each officer's row, keyed by user id.
    pub closed spec fn view(&self) -> Map<u64, OfficerRow> {
        Map::new(|k: u64| self.officers@.contains_key(k), |k: u64| self.officers@[k]@)
    }

    /// Every row is filed under its own id.
    pub closed spec fn wf(&self) -> bool {
        forall|k: u64| #[trigger] self.officers@.contains_key(k) ==> self.officers@[k].id == k
    }

    /// Whether `user_id` currently holds the officer role, by the roster.
    pub open spec fn is_active(&self, user_id: u64) -> bool {
        self@.contains_key(user_id) && self@[user_id].deleted_at is None
    }

    /// A snapshot of the row of `user_id`, if the roster has one.
    pub fn get_member_from_cache(&self, user_id: u64) -> (r: Option<Officer>)
        requires
            self.wf(),
        ensures
            opt_row(r) == (if self@.contains_key(user_id) {
                Some(self@[user_id])
            } else {
                None
            }),
    {
        match self.officers.get(&user_id) {
            Some(o) => Some(o.copy()),
            None => None,
        }
    }

    /// Whether the roster has a row for `user_id`, active or not.
    pub fn is_in_cache(&self, user_id: u64) -> (r: bool)
        requires
            self.wf(),
        ensures
            r == self@.contains_key(user_id),
    {
        self.officers.contains_key(&user_id)
    }

    /// Whether `user_id` is an active officer by the roster.
    pub fn is_lpd_in_cache(&self, user_id: u64) -> (r: bool)
        requires
            self.wf(),
        ensures
            r == self.is_active(user_id),
    {
        match self.officers.get(&user_id) {
            Some(o) => o.deleted_at.is_none(),
            None => false,
        }
    }

    /// Files `officer` under its id, replacing any row there (the row that
    /// the store returned after a write is the authoritative one).
    pub fn insert_officer(&mut self, officer: Officer)
        requires
            old(self).wf(),
        ensures
            final(self).wf(),
            final(self)@ == old(self)@.insert(officer.id, officer@),
    {
        let ghost row = officer@;
        let id = officer.id;
        self.officers.insert(id, officer);
        assert(self@ =~= old(self)@.insert(id, row));
    }

    /// A user acquired the officer role: decides the write by
    /// [`add_outcome`] from `member`, the row the roster held for them, and
    /// files the resulting row. The caller performs the write (a caller that
    /// must write to the store first uses [`plan_add`] and then
    /// [`Roster::insert_officer`]).
    pub fn add_member(&mut self, member: &Option<Officer>, user_id: u64, now: i64) -> (r: Result<
        OfficerWrite,
        RosterError,
    >)
        requires
            old(self).wf(),
            member is Some ==> member->0.id == user_id,
        ensures
            final(self).wf(),
            outcome_view(r) == add_outcome(opt_row(*member), user_id, now),
            r is Err ==> final(self)@ == old(self)@,
            r is Ok ==> ({
                let row = written_row(r->Ok_0@)->0;
                final(self)@ == old(self)@.insert(row.id, row)
            }),
    {
        let plan = plan_add(member, user_id, now);
        match plan {
            Ok(OfficerWrite::Reactivate(row)) => {
                let stored = row.copy();
                self.insert_officer(stored);
                Ok(OfficerWrite::Reactivate(row))
            },
            Ok(OfficerWrite::Insert(row)) => {
                let stored = row.copy();
                self.insert_officer(stored);
                Ok(OfficerWrite::Insert(row))
            },
            other => other,
        }
    }

    /// [`Roster::add_member`] at the current time.
    pub fn add_member_now(&mut self, member: &Option<Officer>, user_id: u64) -> (r: Result<
        OfficerWrite,
        RosterError,
    >)
        requires
            old(self).wf(),
            member is Some ==> member->0.id == user_id,
        ensures
            final(self).wf(),
            exists|now: i64| now >= 0 && outcome_view(r) == add_outcome(opt_row(*member), user_id, now),
            r is Err ==> r->Err_0 != RosterError::TimeOverflow,
            r is Err ==> final(self)@ == old(self)@,
            r is Ok ==> ({
                let row = written_row(r->Ok_0@)->0;
                final(self)@ == old(self)@.insert(row.id, row)
            }),
    {
        let now = now_timestamp();
        self.add_member(member, user_id, now)
    }

    /// [`Roster::remove_member`] at the current time.
    pub fn remove_member_now(&mut self, user_id: u64) -> (r: Result<OfficerWrite, RosterError>)
        requires
            old(self).wf(),
        ensures
            final(self).wf(),
            !old(self)@.contains_key(user_id) ==> r is Err && r->Err_0 == RosterError::NotFound
                && final(self)@ == old(self)@,
            old(self)@.contains_key(user_id) ==> r is Ok && exists|now: i64|
                r->Ok_0@ == (WriteView::MarkDeleted { id: user_id, at: now }) && final(self)@
                    == old(self)@.insert(user_id, removed_at(old(self)@[user_id], now)),
    {
        let now = now_timestamp();
        self.remove_member(user_id, now)
    }

    /// A user lost the officer role or left the guild: their row is marked
    /// deleted at `now`, and the caller stores that mark. Fails when the
    /// roster has no row for them.
    pub fn remove_member(&mut self, user_id: u64, now: i64) -> (r: Result<OfficerWrite, RosterError>)
        requires
            old(self).wf(),
        ensures
            final(self).wf(),
            !old(self)@.contains_key(user_id) ==> r is Err && r->Err_0 == RosterError::NotFound
                && final(self)@ == old(self)@,
            old(self)@.contains_key(user_id) ==> r is Ok && r->Ok_0@ == (WriteView::MarkDeleted {
                id: user_id,
                at: now,
            }) && final(self)@ == old(self)@.insert(user_id, removed_at(old(self)@[user_id], now)),
    {
        match self.officers.remove(&user_id) {
            None => {
                assert(self@ =~= old(self)@);
                Err(RosterError::NotFound)
            },
            Some(o) => {
                let mut o = o;
                o.deleted_at = Some(now);
                self.insert_officer(o);
                assert(self@ =~= old(self)@.insert(user_id, removed_at(old(self)@[user_id], now)));
                Ok(OfficerWrite::MarkDeleted { id: user_id, at: now })
            },
        }
    }

    /// What a member update asks of the roster: a user who is not an active
    /// officer but has the role is added; an active officer without it is
    /// removed.
    pub fn member_update_action(&self, user_id: u64, roles: &[u64], config: &RoleConfig) -> (r:
        MemberAction)
        requires
            self.wf(),
        ensures
            r == member_action(self.is_active(user_id), roles@.contains(config.lpd)),
    {
        let active = self.is_lpd_in_cache(user_id);
        let has_role = has_lpd_role(roles, config);
        if !active && has_role {
            MemberAction::Add
        } else if active && !has_role {
            MemberAction::Remove
        } else {
            MemberAction::Nothing
        }
    }

    /// The roster of the stored rows.
    pub fn new(rows: Vec<Officer>) -> (r: Self)
        ensures
            r.wf(),
            r@ == rows_map(rows@),
            forall|k: u64| #[trigger] r@.contains_key(k) ==> r@[k].id == k,
    {
        let mut officers: HashMap<u64, Officer> = HashMap::new();
        let ghost all = rows@;
        let mut rows = rows;
        let ghost mut k: int = 0;
        while rows.len() > 0
            invariant
                0 <= k <= all.len(),
                rows@ == all.subrange(k, all.len() as int),
                forall|j: u64| #[trigger] officers@.contains_key(j) ==> officers@[j].id == j,
                Map::new(|j: u64| officers@.contains_key(j), |j: u64| officers@[j]@) == rows_map(
                    all.subrange(0, k),
                ),
            decreases rows@.len(),
        {
            let o = rows.remove(0);
            proof {
                assert(all.subrange(0, k + 1).drop_last() =~= all.subrange(0, k));
                k = k + 1;
            }
            officers.insert(o.id, o);
            assert(rows@ =~= all.subrange(k, all.len() as int));
            assert(Map::new(|j: u64| officers@.contains_key(j), |j: u64| officers@[j]@) =~= rows_map(
                all.subrange(0, k),
            ));
        }
        assert(all.subrange(0, k) =~= all);
        Roster { officers }
    }
}

/// What a member update asks of the roster.
#[derive(Clone, Copy, Debug, PartialEq, Eq, Structural)]
pub enum MemberAction {
    Add,
    Remove,
    Nothing,
}

/// The roster follows the role: add a holder who is not active, remove an
/// active officer who no longer holds it.
pub open spec fn member_action(active: bool, has_role: bool) -> MemberAction {
    if !active && has_role {
        MemberAction::Add
    } else if active && !has_role {
        MemberAction::Remove
    } else {
        MemberAction::Nothing
    }
}

/// Whether `roles` holds the officer role.
pub fn has_lpd_role(roles: &[u64], config: &RoleConfig) -> (r: bool)
    ensures
        r == roles@.contains(config.lpd),
{
    let mut i: usize = 0;
    while i < roles.len()
        invariant
            i <= roles@.len(),
            forall|j: int| 0 <= j < i ==> roles@[j] != config.lpd,
        decreases roles@.len() - i,
    {
        if roles[i] == config.lpd {
            return true;
        }
        i = i + 1;
    }
    false
}

/// Adding a user, removing them, and adding them back less than seven days
/// after the removal gives back the very row that the first addition wrote,
/// active again.
pub proof fn lemma_roster_round_trip(user_id: u64, added: i64, removed: i64, readded: i64)
    requires
        added - GRACE_SECS >= i64::MIN,
        readded - GRACE_SECS >= i64::MIN,
        removed > readded - GRACE_SECS,
    ensures
        add_outcome(None, user_id, added) is Ok,
        ({
            let row = written_row(add_outcome(None, user_id, added)->Ok_0)->0;
            &&& row.deleted_at is None
            &&& add_outcome(Some(removed_at(row, removed)), user_id, readded) == Ok::<
                WriteView,
                RosterError,
            >(WriteView::Reactivate(row))
        }),
{
}

} // verus!
