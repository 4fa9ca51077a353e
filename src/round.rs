use vstd::prelude::*;
use crate::error::TourError;
use crate::phase::SeasonStatus;
use crate::season::{with_status, SeasonDetails};
use crate::store::{Round, Tournament};

verus! {

/// Round `r` is the open round of season `sid`.
pub open spec fn is_open_round_of(r: Round, sid: usize) -> bool {
    r.season_id == sid && r.end_time is None
}

/// The highest round number among the rounds of season `sid` (0 when none).
pub open spec fn max_round_number(rounds: Seq<Round>, sid: usize) -> int
    decreases rounds.len(),
{
    if rounds.len() == 0 {
        0
    } else {
        let rest = max_round_number(rounds.drop_last(), sid);
        let last = rounds.last();
        if last.season_id == sid && last.round_number > rest {
            last.round_number as int
        } else {
            rest
        }
    }
}

/// A round row after it was closed at `now`.
pub open spec fn ended_row(r: Round, now: String) -> Round {
    Round { end_time: Some(now), ..r }
}

impl Tournament {
    /// Every table but the seasons and rounds is the same in `self` and `other`.
    pub open spec fn same_but_seasons_rounds(&self, other: &Tournament) -> bool {
        &&& self.candidates@ == other.candidates@
        &&& self.players@ == other.players@
        &&& self.moves@ == other.moves@
        &&& self.admins == other.admins
        &&& self.broadcast_channel == other.broadcast_channel
        &&& self.group_channel == other.group_channel
    }

    /// The active season's name.
    pub fn current_active_season(&self) -> (r: Option<String>)
        requires
            self.wf(),
        ensures
            match r {
                Some(n) => self.has_active() && n@ == self.active_season().name@,
                None => !self.has_active(),
            },
    {
        match self.find_active() {
            Some(i) => Some(self.seasons[i].name.clone()),
            None => None,
        }
    }

    /// The active season's id.
    pub fn current_active_season_id(&self) -> (r: Option<usize>)
        requires
            self.wf(),
        ensures
            match r {
                Some(id) => self.has_active() && id == self.active_season().id,
                None => !self.has_active(),
            },
    {
        match self.find_active() {
            Some(i) => Some(self.seasons[i].id),
            None => None,
        }
    }

    /// The active season's id, name, start date, player limit and status.
    pub fn current_active_season_details(&self) -> (r: Option<SeasonDetails>)
        requires
            self.wf(),
        ensures
            match r {
                Some(d) => {
                    let s = self.active_season();
                    &&& self.has_active()
                    &&& d.id == s.id
                    &&& d.name@ == s.name@
                    &&& d.start_date@ == s.start_date@
                    &&& d.max_players == s.max_players
                    &&& d.status == s.status
                },
                None => !self.has_active(),
            },
    {
        match self.find_active() {
            Some(i) => {
                let s = &self.seasons[i];
                Some(SeasonDetails {
                    id: s.id,
                    name: s.name.clone(),
                    start_date: s.start_date.clone(),
                    max_players: s.max_players,
                    status: s.status,
                })
            },
            None => None,
        }
    }

    /// The active season's status and id.
    pub fn current_game_status_and_season_id(&self) -> (r: Option<(SeasonStatus, usize)>)
        requires
            self.wf(),
        ensures
            match r {
                Some((st, id)) => self.has_active() && st == self.active_season().status && id
                    == self.active_season().id,
                None => !self.has_active(),
            },
    {
        match self.find_active() {
            Some(i) => Some((self.seasons[i].status, self.seasons[i].id)),
            None => None,
        }
    }

    /// One more than the highest round number of season `season_id`, or 1.
    pub fn get_next_round_number(&self, season_id: usize) -> (r: Result<u64, TourError>)
        ensures
            max_round_number(self.rounds@, season_id) < u64::MAX ==> r == Ok::<u64, TourError>(
                (max_round_number(self.rounds@, season_id) + 1) as u64,
            ),
            max_round_number(self.rounds@, season_id) >= u64::MAX ==> r == Err::<u64, TourError>(TourError::StoreError),
    {
        let mut best: u64 = 0;
        let mut i: usize = 0;
        while i < self.rounds.len()
            invariant
                i <= self.rounds@.len(),
                best == max_round_number(self.rounds@.take(i as int), season_id),
            decreases self.rounds@.len() - i,
        {
            assert(self.rounds@.take(i + 1).drop_last() =~= self.rounds@.take(i as int));
            if self.rounds[i].season_id == season_id && self.rounds[i].round_number > best {
                best = self.rounds[i].round_number;
            }
            i += 1;
        }
        assert(self.rounds@.take(i as int) =~= self.rounds@);
        if best == u64::MAX {
            Err(TourError::StoreError)
        } else {
            Ok(best + 1)
        }
    }

    /// The id of season `season_id`'s open round, if it has one.
    pub fn get_current_round_id(&self, season_id: usize) -> (r: Option<usize>)
        requires
            self.wf(),
        ensures
            match r {
                Some(id) => 1 <= id <= self.rounds@.len() && is_open_round_of(self.rounds@[id - 1], season_id),
                None => forall|k: int| 0 <= k < self.rounds@.len() ==> !is_open_round_of(#[trigger] self.rounds@[k], season_id),
            },
    {
        let mut i: usize = 0;
        while i < self.rounds.len()
            invariant
                self.wf(),
                i <= self.rounds@.len(),
                forall|k: int| 0 <= k < i ==> !is_open_round_of(#[trigger] self.rounds@[k], season_id),
            decreases self.rounds@.len() - i,
        {
            if self.rounds[i].season_id == season_id && self.rounds[i].end_time.is_none() {
                return Some(self.rounds[i].id);
            }
            i += 1;
        }
        None
    }
    /// Opens the next round of season `season_id`, which must be in
    /// `start_gaming`; the season moves to `round_ongoing`. Returns the
    /// round's id.
    pub fn start_new_round(&mut self, season_id: usize, now: String) -> (r: Result<usize, TourError>)
        requires
            old(self).wf(),
        ensures
            final(self).wf(),
            !(1 <= season_id <= old(self).seasons@.len() && old(self).seasons@[season_id - 1].status
                == SeasonStatus::StartGaming) ==> r == Err::<usize, TourError>(TourError::WrongPhase) && *final(self)
                == *old(self),
            1 <= season_id <= old(self).seasons@.len() && old(self).seasons@[season_id - 1].status
                == SeasonStatus::StartGaming ==> {
                let n = max_round_number(old(self).rounds@, season_id);
                let id = old(self).rounds@.len() + 1;
                if n >= u64::MAX || old(self).rounds@.len() == usize::MAX {
                    r == Err::<usize, TourError>(TourError::StoreError) && *final(self) == *old(self)
                } else {
                    &&& r == Ok::<usize, TourError>(id as usize)
                    &&& final(self).rounds@ == old(self).rounds@.push(
                        Round { id: id as usize, season_id, round_number: (n + 1) as u64, start_time: now, end_time: None },
                    )
                    &&& final(self).seasons@ == old(self).seasons@.update(
                        season_id - 1,
                        with_status(old(self).seasons@[season_id - 1], SeasonStatus::RoundOngoing),
                    )
                    &&& final(self).same_but_seasons_rounds(old(self))
                }
            },
    {
        if season_id == 0 || season_id > self.seasons.len() {
            return Err(TourError::WrongPhase);
        }
        let si = season_id - 1;
        if self.seasons[si].status != SeasonStatus::StartGaming {
            return Err(TourError::WrongPhase);
        }
        let number = match self.get_next_round_number(season_id) {
            Ok(n) => n,
            Err(e) => return Err(e),
        };
        if self.rounds.len() == usize::MAX {
            return Err(TourError::StoreError);
        }
        let ghost before = *self;
        let id = self.rounds.len() + 1;
        self.rounds.push(Round { id, season_id, round_number: number, start_time: now, end_time: None });
        self.seasons[si].status = SeasonStatus::RoundOngoing;
        proof {
            assert(self.seasons@ =~= before.seasons@.update(
                si as int,
                with_status(before.seasons@[si as int], SeasonStatus::RoundOngoing),
            ));
            assert forall|k: int| 0 <= k < before.rounds@.len() implies !is_open_round_of(
                #[trigger] before.rounds@[k],
                season_id,
            ) by {
                if is_open_round_of(before.rounds@[k], season_id) {
                    assert(before.rounds@[k].end_time is None);
                }
            }
            assert forall|a: int, b: int|
                0 <= a < self.seasons@.len() && 0 <= b < self.seasons@.len() && (#[trigger] self.seasons@[a]).active
                    && (#[trigger] self.seasons@[b]).active implies a == b by {
                assert(before.seasons@[a].active && before.seasons@[b].active);
            }
            assert forall|k: int| 0 <= k < self.rounds@.len() && (#[trigger] self.rounds@[k]).end_time is None implies {
                let st = self.seasons@[self.rounds@[k].season_id - 1].status;
                st == SeasonStatus::RoundOngoing || st == SeasonStatus::Closed
            } by {
                if k < before.rounds@.len() {
                    assert(before.rounds@[k] == self.rounds@[k]);
                }
            }
            assert forall|a: int, b: int|
                0 <= a < self.rounds@.len() && 0 <= b < self.rounds@.len() && (#[trigger] self.rounds@[a]).end_time is None
                    && (#[trigger] self.rounds@[b]).end_time is None && self.rounds@[a].season_id
                    == self.rounds@[b].season_id implies a == b by {
                if a < before.rounds@.len() {
                    assert(before.rounds@[a] == self.rounds@[a]);
                }
                if b < before.rounds@.len() {
                    assert(before.rounds@[b] == self.rounds@[b]);
                }
            }
            before.lemma_roster_frame(self);
        }
        Ok(id)
    }

    /// Closes season `season_id`'s open round at `now`; the season, which
    /// must be in `round_ongoing`, goes back to `start_gaming`.
    pub fn end_current_round(&mut self, season_id: usize, now: String) -> (r: Result<(), TourError>)
        requires
            old(self).wf(),
        ensures
            final(self).wf(),
            !(1 <= season_id <= old(self).seasons@.len() && old(self).seasons@[season_id - 1].status
                == SeasonStatus::RoundOngoing) ==> r == Err::<(), TourError>(TourError::WrongPhase) && *final(self)
                == *old(self),
            1 <= season_id <= old(self).seasons@.len() && old(self).seasons@[season_id - 1].status
                == SeasonStatus::RoundOngoing ==> {
                &&& r == Ok::<(), TourError>(())
                &&& final(self).rounds@.len() == old(self).rounds@.len()
                &&& forall|k: int| 0 <= k < old(self).rounds@.len() ==> (#[trigger] final(self).rounds@[k]) == if is_open_round_of(old(self).rounds@[k], season_id) {
                    ended_row(old(self).rounds@[k], now)
                } else {
                    old(self).rounds@[k]
                }
                &&& final(self).seasons@ == old(self).seasons@.update(
                    season_id - 1,
                    with_status(old(self).seasons@[season_id - 1], SeasonStatus::StartGaming),
                )
                &&& final(self).same_but_seasons_rounds(old(self))
            },
    {
        if season_id == 0 || season_id > self.seasons.len() {
            return Err(TourError::WrongPhase);
        }
        let si = season_id - 1;
        if self.seasons[si].status != SeasonStatus::RoundOngoing {
            return Err(TourError::WrongPhase);
        }
        let ghost before = *self;
        match self.get_current_round_id(season_id) {
            Some(id) => {
                self.rounds[id - 1].end_time = Some(now);
            },
            None => {},
        }
        self.seasons[si].status = SeasonStatus::StartGaming;
        proof {
            assert(self.seasons@ =~= before.seasons@.update(
                si as int,
                with_status(before.seasons@[si as int], SeasonStatus::StartGaming),
            ));
            assert forall|k: int| 0 <= k < self.rounds@.len() implies (#[trigger] self.rounds@[k]) == if is_open_round_of(before.rounds@[k], season_id) {
                ended_row(before.rounds@[k], now)
            } else {
                before.rounds@[k]
            } by {
                if is_open_round_of(before.rounds@[k], season_id) {
                    assert(before.rounds@[k].end_time is None);
                }
            }
            assert forall|a: int, b: int|
                0 <= a < self.seasons@.len() && 0 <= b < self.seasons@.len() && (#[trigger] self.seasons@[a]).active
                    && (#[trigger] self.seasons@[b]).active implies a == b by {
                assert(before.seasons@[a].active && before.seasons@[b].active);
            }
            assert forall|k: int| 0 <= k < self.rounds@.len() && (#[trigger] self.rounds@[k]).end_time is None implies {
                let st = self.seasons@[self.rounds@[k].season_id - 1].status;
                st == SeasonStatus::RoundOngoing || st == SeasonStatus::Closed
            } by {
                assert(before.rounds@[k].end_time is None);
            }
            assert forall|a: int, b: int|
                0 <= a < self.rounds@.len() && 0 <= b < self.rounds@.len() && (#[trigger] self.rounds@[a]).end_time is None
                    && (#[trigger] self.rounds@[b]).end_time is None && self.rounds@[a].season_id
                    == self.rounds@[b].season_id implies a == b by {
                assert(before.rounds@[a].end_time is None && before.rounds@[b].end_time is None);
            }
            before.lemma_roster_frame(self);
        }
        Ok(())
    }
}

} // verus!
