use vstd::prelude::*;
use crate::error::TourError;
use vstd::string::StringExecFns;
use crate::phase::SeasonStatus;
use crate::store::{Candidate, CandidateStatus, Player, Tournament, has_accepted_signup, signup_of};

verus! {

/// Season `sid` exists and takes signups.
pub open spec fn signup_open(t: Tournament, sid: usize) -> bool {
    1 <= sid <= t.seasons@.len() && t.seasons@[sid - 1].status == SeasonStatus::StartSignup
}

/// Player `pid` holds a signup row for season `sid`.
pub open spec fn signed_up(cands: Seq<Candidate>, sid: usize, pid: i64) -> bool {
    exists|k: int| 0 <= k < cands.len() && (#[trigger] cands[k]).season_id == sid && cands[k].player_id == pid
}

/// Signup `c` is a pending one of season `sid` under username `u`.
pub open spec fn pending_match(c: Candidate, sid: usize, u: Seq<char>) -> bool {
    c.season_id == sid && c.username@ == u && c.status == CandidateStatus::Pending
}

/// The first pending signup of season `sid` under username `u` at or after
/// position `i`, or -1.
pub open spec fn first_pending_from(cands: Seq<Candidate>, sid: usize, u: Seq<char>, i: int) -> int
    decreases cands.len() - i,
{
    if i < 0 || i >= cands.len() {
        -1
    } else if pending_match(cands[i], sid, u) {
        i
    } else {
        first_pending_from(cands, sid, u, i + 1)
    }
}

/// The first pending signup of season `sid` under username `u`, or -1.
pub open spec fn first_pending(cands: Seq<Candidate>, sid: usize, u: Seq<char>) -> int {
    first_pending_from(cands, sid, u, 0)
}

/// A signup row with a decided status.
pub open spec fn decided(c: Candidate, st: CandidateStatus) -> Candidate {
    Candidate { status: st, ..c }
}

/// The roster row an accepted signup creates.
pub open spec fn roster_row(c: Candidate) -> Player {
    Player { season_id: c.season_id, player_id: c.player_id, username: c.username, score: 0, wallet: c.wallet }
}

proof fn lemma_first_pending(cands: Seq<Candidate>, sid: usize, u: Seq<char>, i: int)
    requires
        0 <= i,
    ensures
        first_pending_from(cands, sid, u, i) == -1 ==> forall|k: int| i <= k < cands.len() ==> !pending_match(#[trigger] cands[k], sid, u),
        first_pending_from(cands, sid, u, i) != -1 ==> i <= first_pending_from(cands, sid, u, i) < cands.len()
            && pending_match(cands[first_pending_from(cands, sid, u, i)], sid, u),
    decreases cands.len() - i,
{
    if i < cands.len() {
        lemma_first_pending(cands, sid, u, i + 1);
    }
}

/// The signups after every pending one of season `sid` under username `u`
/// was refused.
pub open spec fn refused_all(cands: Seq<Candidate>, sid: usize, u: Seq<char>) -> Seq<Candidate> {
    cands.map_values(
        |c: Candidate|
            if pending_match(c, sid, u) {
                decided(c, CandidateStatus::Refused)
            } else {
                c
            },
    )
}

/// What a decision on a signup does: refused outside `start_signup`
/// (`WrongPhase`) or without a pending signup of that username
/// (`NoPendingCandidate`), with nothing changed. Otherwise an acceptance
/// takes the first such signup and adds its roster row; a refusal refuses
/// every pending signup of the season under that username (players without
/// a username share one). Either returns the first such signup's player.
pub open spec fn decision_outcome(
    before: Tournament,
    after: Tournament,
    sid: usize,
    u: Seq<char>,
    accept: bool,
    r: Result<i64, TourError>,
) -> bool {
    let k = first_pending(before.candidates@, sid, u);
    let st = if accept { CandidateStatus::Accepted } else { CandidateStatus::Refused };
    &&& !signup_open(before, sid) ==> r == Err::<i64, TourError>(TourError::WrongPhase) && after == before
    &&& signup_open(before, sid) && k == -1 ==> r == Err::<i64, TourError>(TourError::NoPendingCandidate) && after
        == before
    &&& signup_open(before, sid) && k != -1 ==> {
        &&& r == Ok::<i64, TourError>(before.candidates@[k].player_id)
        &&& accept ==> after.candidates@ == before.candidates@.update(k, decided(before.candidates@[k], st))
        &&& !accept ==> after.candidates@ == refused_all(before.candidates@, sid, u)
        &&& accept ==> after.players@.len() == before.players@.len() + 1
            && after.players@.drop_last() == before.players@
            && after.players@.last().season_id == sid
            && after.players@.last().player_id == before.candidates@[k].player_id
            && after.players@.last().username@ == before.candidates@[k].username@
            && after.players@.last().score == 0
        &&& !accept ==> after.players@ == before.players@
        &&& after.same_but_signups(&before)
    }
}

impl Tournament {
    /// Every table but the signups and the roster is the same in `self` and `other`.
    pub open spec fn same_but_signups(&self, other: &Tournament) -> bool {
        &&& self.seasons@ == other.seasons@
        &&& self.rounds@ == other.rounds@
        &&& self.moves@ == other.moves@
        &&& self.admins == other.admins
        &&& self.broadcast_channel == other.broadcast_channel
        &&& self.group_channel == other.group_channel
    }

    /// Signs player `player_id` up for season `season_id` as a pending
    /// candidate. A second signup of the same player is refused, never
    /// overwritten.
    pub fn sign_up(&mut self, season_id: usize, player_id: i64, username: String) -> (r: Result<(), TourError>)
        requires
            old(self).wf(),
        ensures
            final(self).wf(),
            !signup_open(*old(self), season_id) ==> r == Err::<(), TourError>(TourError::WrongPhase) && *final(self)
                == *old(self),
            signup_open(*old(self), season_id) && signed_up(old(self).candidates@, season_id, player_id) ==> r
                == Err::<(), TourError>(TourError::AlreadySignedUp) && *final(self) == *old(self),
            signup_open(*old(self), season_id) && !signed_up(old(self).candidates@, season_id, player_id) ==> {
                &&& r == Ok::<(), TourError>(())
                &&& final(self).candidates@.len() == old(self).candidates@.len() + 1
                &&& final(self).candidates@.drop_last() == old(self).candidates@
                &&& final(self).candidates@.last().season_id == season_id
                &&& final(self).candidates@.last().player_id == player_id
                &&& final(self).candidates@.last().username@ == username@
                &&& final(self).candidates@.last().wallet@.len() == 0
                &&& final(self).candidates@.last().status == CandidateStatus::Pending
                &&& final(self).players@ == old(self).players@
                &&& final(self).same_but_signups(old(self))
            },
    {
        if season_id == 0 || season_id > self.seasons.len() {
            return Err(TourError::WrongPhase);
        }
        if self.seasons[season_id - 1].status != SeasonStatus::StartSignup {
            return Err(TourError::WrongPhase);
        }
        let mut i: usize = 0;
        while i < self.candidates.len()
            invariant
                *self == *old(self),
                self.wf(),
                signup_open(*self, season_id),
                i <= self.candidates@.len(),
                forall|k: int| 0 <= k < i ==> !((#[trigger] self.candidates@[k]).season_id == season_id
                    && self.candidates@[k].player_id == player_id),
            decreases self.candidates@.len() - i,
        {
            if self.candidates[i].season_id == season_id && self.candidates[i].player_id == player_id {
                return Err(TourError::AlreadySignedUp);
            }
            i += 1;
        }
        let ghost before = *self;
        self.candidates.push(Candidate {
            season_id,
            player_id,
            username,
            wallet: String::new(),
            status: CandidateStatus::Pending,
        });
        proof {
            assert(self.candidates@.drop_last() =~= before.candidates@);
            assert forall|a: int, b: int|
                0 <= a < self.candidates@.len() && 0 <= b < self.candidates@.len()
                    && (#[trigger] self.candidates@[a]).season_id == (#[trigger] self.candidates@[b]).season_id
                    && self.candidates@[a].player_id == self.candidates@[b].player_id implies a == b by {
                if a < before.candidates@.len() {
                    assert(before.candidates@[a] == self.candidates@[a]);
                }
                if b < before.candidates@.len() {
                    assert(before.candidates@[b] == self.candidates@[b]);
                }
            }
            assert forall|k: int| 0 <= k < self.players@.len() implies has_accepted_signup(
                self.candidates@,
                #[trigger] self.players@[k],
            ) by {
                assert(has_accepted_signup(before.candidates@, before.players@[k]));
                let w = choose|w: int| 0 <= w < before.candidates@.len() && signup_of(#[trigger] before.candidates@[w], before.players@[k]);
                assert(self.candidates@[w] == before.candidates@[w]);
            }
            assert(self.seasons_wf());
            assert(self.rounds_wf());
            assert(self.moves_wf());
            assert(self.roster_wf());
        }
        Ok(())
    }

    /// Refuses every pending signup of season `season_id` under username `u`.
    fn refuse_pending(&mut self, season_id: usize, u: &String)
        requires
            old(self).wf(),
        ensures
            final(self).wf(),
            final(self).candidates@ == refused_all(old(self).candidates@, season_id, u@),
            final(self).players@ == old(self).players@,
            final(self).same_but_signups(old(self)),
    {
        let ghost before = *self;
        let mut j: usize = 0;
        while j < self.candidates.len()
            invariant
                before.wf(),
                self.same_but_signups(&before),
                self.players@ == before.players@,
                self.candidates@.len() == before.candidates@.len(),
                j <= self.candidates@.len(),
                forall|k: int| 0 <= k < j ==> #[trigger] self.candidates@[k] == refused_all(before.candidates@, season_id, u@)[k],
                forall|k: int| j <= k < self.candidates@.len() ==> #[trigger] self.candidates@[k] == before.candidates@[k],
            decreases self.candidates@.len() - j,
        {
            if self.candidates[j].season_id == season_id && self.candidates[j].username == *u
                && self.candidates[j].status == CandidateStatus::Pending {
                self.candidates[j].status = CandidateStatus::Refused;
            }
            j += 1;
        }
        proof {
            let rc = refused_all(before.candidates@, season_id, u@);
            assert(self.candidates@ =~= rc);
            assert forall|a: int, b: int|
                0 <= a < self.candidates@.len() && 0 <= b < self.candidates@.len()
                    && (#[trigger] self.candidates@[a]).season_id == (#[trigger] self.candidates@[b]).season_id
                    && self.candidates@[a].player_id == self.candidates@[b].player_id implies a == b by {
                assert(before.candidates@[a].season_id == self.candidates@[a].season_id);
                assert(before.candidates@[b].season_id == self.candidates@[b].season_id);
                assert(before.candidates@[a].player_id == self.candidates@[a].player_id);
                assert(before.candidates@[b].player_id == self.candidates@[b].player_id);
            }
            assert forall|k: int| 0 <= k < self.players@.len() implies has_accepted_signup(
                self.candidates@,
                #[trigger] self.players@[k],
            ) by {
                assert(has_accepted_signup(before.candidates@, before.players@[k]));
                let w = choose|w: int| 0 <= w < before.candidates@.len() && signup_of(#[trigger] before.candidates@[w], before.players@[k]);
                assert(self.candidates@[w] == before.candidates@[w]);
            }
            assert(self.seasons_wf());
            assert(self.rounds_wf());
            assert(self.moves_wf());
            assert(self.roster_wf());
        }
    }

    /// Decides the first pending signup of season `season_id` under
    /// `username`; on acceptance it also joins the roster with score 0.
    /// Returns the player's id.
    fn decide(&mut self, season_id: usize, username: &str, accept: bool) -> (r: Result<i64, TourError>)
        requires
            old(self).wf(),
        ensures
            final(self).wf(),
            decision_outcome(*old(self), *final(self), season_id, username@, accept, r),
    {
        if season_id == 0 || season_id > self.seasons.len() {
            return Err(TourError::WrongPhase);
        }
        if self.seasons[season_id - 1].status != SeasonStatus::StartSignup {
            return Err(TourError::WrongPhase);
        }
        let u = String::from_str(username);
        let ghost cands = self.candidates@;
        let mut i: usize = 0;
        while i < self.candidates.len() && !(self.candidates[i].season_id == season_id && self.candidates[i].username
            == u && self.candidates[i].status == CandidateStatus::Pending)
            invariant
                *self == *old(self),
                self.wf(),
                signup_open(*self, season_id),
                self.candidates@ == cands,
                u@ == username@,
                i <= cands.len(),
                first_pending(cands, season_id, username@) == first_pending_from(cands, season_id, username@, i as int),
            decreases cands.len() - i,
        {
            i += 1;
        }
        proof {
            lemma_first_pending(cands, season_id, username@, i as int);
        }
        if i == self.candidates.len() {
            return Err(TourError::NoPendingCandidate);
        }
        let pid = self.candidates[i].player_id;
        if !accept {
            proof {
                assert(first_pending(cands, season_id, username@) == i);
            }
            self.refuse_pending(season_id, &u);
            return Ok(pid);
        }
        let ghost before = *self;
        if accept {
            let row = Player {
                season_id,
                player_id: pid,
                username: self.candidates[i].username.clone(),
                score: 0,
                wallet: self.candidates[i].wallet.clone(),
            };
            self.candidates[i].status = CandidateStatus::Accepted;
            self.players.push(row);
        } else {
            self.candidates[i].status = CandidateStatus::Refused;
        }
        proof {
            let st = if accept { CandidateStatus::Accepted } else { CandidateStatus::Refused };
            assert(self.candidates@ =~= before.candidates@.update(i as int, decided(before.candidates@[i as int], st)));
            assert forall|a: int, b: int|
                0 <= a < self.candidates@.len() && 0 <= b < self.candidates@.len()
                    && (#[trigger] self.candidates@[a]).season_id == (#[trigger] self.candidates@[b]).season_id
                    && self.candidates@[a].player_id == self.candidates@[b].player_id implies a == b by {
                assert(before.candidates@[a].season_id == self.candidates@[a].season_id);
                assert(before.candidates@[b].season_id == self.candidates@[b].season_id);
            }
            assert forall|k: int| 0 <= k < before.players@.len() implies !(before.players@[k].season_id == season_id
                && before.players@[k].player_id == pid) by {
                if before.players@[k].season_id == season_id && before.players@[k].player_id == pid {
                    assert(has_accepted_signup(before.candidates@, before.players@[k]));
                    let w = choose|w: int| 0 <= w < before.candidates@.len() && signup_of(#[trigger] before.candidates@[w], before.players@[k]);
                    assert(before.candidates@[w].season_id == before.candidates@[i as int].season_id);
                }
            }
            assert forall|a: int, b: int|
                0 <= a < self.players@.len() && 0 <= b < self.players@.len()
                    && (#[trigger] self.players@[a]).season_id == (#[trigger] self.players@[b]).season_id
                    && self.players@[a].player_id == self.players@[b].player_id implies a == b by {
                if a < before.players@.len() {
                    assert(before.players@[a] == self.players@[a]);
                }
                if b < before.players@.len() {
                    assert(before.players@[b] == self.players@[b]);
                }
            }
            assert forall|k: int| 0 <= k < self.players@.len() implies has_accepted_signup(
                self.candidates@,
                #[trigger] self.players@[k],
            ) by {
                if k < before.players@.len() {
                    assert(before.players@[k] == self.players@[k]);
                    assert(has_accepted_signup(before.candidates@, before.players@[k]));
                    let w = choose|w: int| 0 <= w < before.candidates@.len() && signup_of(#[trigger] before.candidates@[w], before.players@[k]);
                    assert(w != i);
                    assert(self.candidates@[w] == before.candidates@[w]);
                } else {
                    assert(signup_of(self.candidates@[i as int], self.players@[k]));
                }
            }
            assert(self.seasons_wf());
            assert(self.rounds_wf());
            assert(self.moves_wf());
            assert(self.roster_wf());
            assert(self.wf());
            assert(first_pending(cands, season_id, username@) == i);
            if accept {
                assert(self.players@.drop_last() =~= before.players@);
            }
        }
        Ok(pid)
    }

    /// Accepts a pending signup during `start_signup`; the player joins the
    /// roster with score 0. Returns the player's id, to notify them.
    pub fn update_player_status_to_accepted(&mut self, season_id: usize, username: &str) -> (r: Result<i64, TourError>)
        requires
            old(self).wf(),
        ensures
            final(self).wf(),
            decision_outcome(*old(self), *final(self), season_id, username@, true, r),
    {
        self.decide(season_id, username, true)
    }

    /// Refuses a pending signup during `start_signup`; the roster is left as is.
    pub fn update_player_status_to_refused(&mut self, season_id: usize, username: &str) -> (r: Result<i64, TourError>)
        requires
            old(self).wf(),
        ensures
            final(self).wf(),
            decision_outcome(*old(self), *final(self), season_id, username@, false, r),
    {
        self.decide(season_id, username, false)
    }
}

} // verus!
