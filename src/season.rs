use vstd::prelude::*;
use crate::error::TourError;
use crate::phase::{lifecycle_edge, next_status, phase_allowed, phase_target, PhaseOp, SeasonStatus};
use crate::store::{Season, Tournament};

verus! {

/// What the status display shows of the active season.
pub struct SeasonDetails {
    pub id: usize,
    pub name: String,
    pub start_date: String,
    pub max_players: i32,
    pub status: SeasonStatus,
}

/// The row of a season that was just stopped.
pub open spec fn closed_row(s: Season, now: String) -> Season {
    Season { active: false, status: SeasonStatus::Closed, stop_date: Some(now), ..s }
}

/// A season row with another status.
pub open spec fn with_status(s: Season, st: SeasonStatus) -> Season {
    Season { status: st, ..s }
}

/// The row a new season starts with.
pub open spec fn fresh_season(id: usize, name: String, max_players: i32, now: String) -> Season {
    Season {
        id,
        name,
        active: true,
        max_players,
        start_date: now,
        stop_date: None,
        status: SeasonStatus::Initial,
    }
}

/// What a phase change does: refused without an active season or from a
/// status outside the operation's sources (nothing changes then); otherwise
/// only the active season's status moves to the operation's target.
pub open spec fn phase_outcome(op: PhaseOp, before: Tournament, after: Tournament, r: Result<(), TourError>) -> bool {
    &&& !before.has_active() ==> r == Err::<(), TourError>(TourError::NoActiveSeason) && after == before
    &&& before.has_active() && !phase_allowed(op, before.active_season().status) ==> r == Err::<(), TourError>(
        TourError::InvalidPhaseTransition,
    ) && after == before
    &&& before.has_active() && phase_allowed(op, before.active_season().status) ==> {
        &&& r == Ok::<(), TourError>(())
        &&& after.seasons@ == before.seasons@.update(
            before.active_index(),
            with_status(before.active_season(), phase_target(op)),
        )
        &&& after.same_but_seasons(&before)
    }
}

impl Tournament {
    /// Every table but the seasons is the same in `self` and `other`.
    pub open spec fn same_but_seasons(&self, other: &Tournament) -> bool {
        &&& self.candidates@ == other.candidates@
        &&& self.players@ == other.players@
        &&& self.rounds@ == other.rounds@
        &&& self.moves@ == other.moves@
        &&& self.admins == other.admins
        &&& self.broadcast_channel == other.broadcast_channel
        &&& self.group_channel == other.group_channel
    }

    /// Starts a season named `name`, unless one is already active.
    pub fn start_new_season(&mut self, name: String, max_players: i32, now: String) -> (r: Result<usize, TourError>)
        requires
            old(self).wf(),
        ensures
            final(self).wf(),
            old(self).has_active() ==> r == Err::<usize, TourError>(TourError::AlreadyActive) && *final(self) == *old(self),
            !old(self).has_active() && old(self).seasons@.len() == usize::MAX ==> r == Err::<usize, TourError>(TourError::StoreError)
                && *final(self) == *old(self),
            !old(self).has_active() && old(self).seasons@.len() < usize::MAX ==> {
                &&& r == Ok::<usize, TourError>((old(self).seasons@.len() + 1) as usize)
                &&& final(self).seasons@ == old(self).seasons@.push(
                    fresh_season((old(self).seasons@.len() + 1) as usize, name, max_players, now))
                &&& final(self).same_but_seasons(old(self))
            },
    {
        if self.find_active().is_some() {
            return Err(TourError::AlreadyActive);
        }
        if self.seasons.len() == usize::MAX {
            return Err(TourError::StoreError);
        }
        let ghost before = *self;
        let id = self.seasons.len() + 1;
        self.seasons.push(Season {
            id,
            name,
            active: true,
            max_players,
            start_date: now,
            stop_date: None,
            status: SeasonStatus::Initial,
        });
        proof {
            assert forall|i: int| 0 <= i < self.rounds@.len() implies self.seasons@[self.rounds@[i].season_id - 1]
                == before.seasons@[before.rounds@[i].season_id - 1] by {
                assert(before.rounds_wf());
                assert(1 <= before.rounds@[i].season_id <= before.seasons@.len());
            }
            assert forall|i: int, j: int|
                0 <= i < self.seasons@.len() && 0 <= j < self.seasons@.len() && (#[trigger] self.seasons@[i]).active
                    && (#[trigger] self.seasons@[j]).active implies i == j by {
                if i < before.seasons@.len() {
                    assert(before.seasons@[i].active);
                }
                if j < before.seasons@.len() {
                    assert(before.seasons@[j].active);
                }
            }
        }
        assert(self.seasons_wf());
        assert(self.rounds_wf());
        assert(self.moves_wf());
        proof {
            before.lemma_roster_frame(self);
        }
        Ok(id)
    }

    /// Ends the active season: it becomes inactive and closed.
    pub fn stop_current_season(&mut self, now: String) -> (r: Result<usize, TourError>)
        requires
            old(self).wf(),
        ensures
            final(self).wf(),
            !old(self).has_active() ==> r == Err::<usize, TourError>(TourError::NoActiveSeason) && *final(self) == *old(self),
            old(self).has_active() ==> {
                &&& r == Ok::<usize, TourError>(old(self).active_season().id)
                &&& final(self).seasons@ == old(self).seasons@.update(
                    old(self).active_index(),
                    closed_row(old(self).active_season(), now),
                )
                &&& final(self).same_but_seasons(old(self))
                &&& !final(self).has_active()
            },
    {
        let i = match self.find_active() {
            Some(i) => i,
            None => return Err(TourError::NoActiveSeason),
        };
        let ghost before = *self;
        let id = self.seasons[i].id;
        self.seasons[i].active = false;
        self.seasons[i].status = SeasonStatus::Closed;
        self.seasons[i].stop_date = Some(now);
        proof {
            assert(self.seasons@ =~= before.seasons@.update(i as int, closed_row(before.seasons@[i as int], now)));
            assert forall|k: int| 0 <= k < self.seasons@.len() implies !(#[trigger] self.seasons@[k]).active by {
                if k != i {
                    assert(before.seasons@[k].active ==> k == i);
                }
            }
        }
        assert(self.seasons_wf());
        assert(self.rounds_wf());
        assert(self.moves_wf());
        proof {
            before.lemma_roster_frame(self);
        }
        Ok(id)
    }

    /// Applies a phase change to the active season.
    fn change_phase(&mut self, op: PhaseOp) -> (r: Result<(), TourError>)
        requires
            old(self).wf(),
        ensures
            final(self).wf(),
            phase_outcome(op, *old(self), *final(self), r),
    {
        let i = match self.find_active() {
            Some(i) => i,
            None => return Err(TourError::NoActiveSeason),
        };
        let ghost before = *self;
        match next_status(op, self.seasons[i].status) {
            Ok(t) => {
                self.seasons[i].status = t;
                proof {
                    assert(self.seasons@ =~= before.seasons@.update(i as int, with_status(before.seasons@[i as int], t)));
                    assert forall|k: int| 0 <= k < self.rounds@.len() && (#[trigger] self.rounds@[k]).end_time is None
                        implies {
                            let st = self.seasons@[self.rounds@[k].season_id - 1].status;
                            st == SeasonStatus::RoundOngoing || st == SeasonStatus::Closed
                        } by {
                        assert(before.rounds_wf());
                    }
                    assert forall|a: int, b: int|
                        0 <= a < self.seasons@.len() && 0 <= b < self.seasons@.len() && (#[trigger] self.seasons@[a]).active
                            && (#[trigger] self.seasons@[b]).active implies a == b by {
                        assert(before.seasons@[a].active && before.seasons@[b].active);
                    }
                }
                assert(self.seasons_wf());
                assert(self.rounds_wf());
                assert(self.moves_wf());
                proof {
            before.lemma_roster_frame(self);
        }
                Ok(())
            },
            Err(e) => Err(e),
        }
    }

    /// Opens signups: allowed from `initial` and `stopped_signup`.
    pub fn start_signup_phase(&mut self) -> (r: Result<(), TourError>)
        requires
            old(self).wf(),
        ensures
            final(self).wf(),
            phase_outcome(PhaseOp::StartSignup, *old(self), *final(self), r),
    {
        self.change_phase(PhaseOp::StartSignup)
    }

    /// Closes signups: allowed from `start_signup`.
    pub fn stop_signup_phase(&mut self) -> (r: Result<(), TourError>)
        requires
            old(self).wf(),
        ensures
            final(self).wf(),
            phase_outcome(PhaseOp::StopSignup, *old(self), *final(self), r),
    {
        self.change_phase(PhaseOp::StopSignup)
    }

    /// Opens play: allowed from `stopped_signup` and `stopped_gaming`.
    pub fn start_gaming_phase(&mut self) -> (r: Result<(), TourError>)
        requires
            old(self).wf(),
        ensures
            final(self).wf(),
            phase_outcome(PhaseOp::StartGaming, *old(self), *final(self), r),
    {
        self.change_phase(PhaseOp::StartGaming)
    }

    /// Ends play: allowed from `start_gaming`.
    pub fn stop_gaming_phase(&mut self) -> (r: Result<(), TourError>)
        requires
            old(self).wf(),
        ensures
            final(self).wf(),
            phase_outcome(PhaseOp::StopGaming, *old(self), *final(self), r),
    {
        self.change_phase(PhaseOp::StopGaming)
    }
}

/// A phase operation only ever follows an edge of the season lifecycle
/// graph, never starts from or leads to `round_ongoing` or `closed`, and a
/// refused one leaves the season's status as it was.
pub proof fn lemma_phase_graph(op: PhaseOp, before: Tournament, after: Tournament, r: Result<(), TourError>)
    requires
        before.wf(),
        phase_outcome(op, before, after, r),
    ensures
        phase_target(op) != SeasonStatus::RoundOngoing && phase_target(op) != SeasonStatus::Closed,
        !phase_allowed(op, SeasonStatus::RoundOngoing) && !phase_allowed(op, SeasonStatus::Closed),
        r is Err ==> after.seasons@ == before.seasons@,
        r is Ok ==> before.has_active() && lifecycle_edge(
            before.active_season().status,
            after.seasons@[before.active_index()].status,
        ),
{
    if r is Ok {
        assert(phase_allowed(op, before.active_season().status) && phase_target(op) == after.seasons@[before.active_index()].status);
    }
}

/// At most one season is active in a well-formed store, so starting a
/// season while one is active never makes a second one: it is refused and
/// the store is left as it was; a season started with none active is the
/// only active one.
pub proof fn lemma_single_active(t: Tournament, i: int, j: int, name: String, max_players: i32, now: String)
    requires
        t.wf(),
    ensures
        0 <= i < t.seasons@.len() && 0 <= j < t.seasons@.len() && t.seasons@[i].active && t.seasons@[j].active ==> i
            == j,
        !t.has_active() ==> {
            let s = t.seasons@.push(fresh_season((t.seasons@.len() + 1) as usize, name, max_players, now));
            forall|k: int| 0 <= k < s.len() && #[trigger] s[k].active ==> k == t.seasons@.len()
        },
{
    if !t.has_active() {
        let s = t.seasons@.push(fresh_season((t.seasons@.len() + 1) as usize, name, max_players, now));
        assert forall|k: int| 0 <= k < s.len() && #[trigger] s[k].active implies k == t.seasons@.len() by {
            if k < t.seasons@.len() {
                assert(t.seasons@[k] == s[k]);
            }
        }
    }
}

} // verus!
