use vstd::prelude::*;
use crate::admin::Admins;
use crate::hand::{Hand, Outcome};
use crate::phase::SeasonStatus;

verus! {

/// One tournament instance.
pub struct Season {
    pub id: usize,
    pub name: String,
    pub active: bool,
    pub max_players: i32,
    pub start_date: String,
    pub stop_date: Option<String>,
    pub status: SeasonStatus,
}

/// Where a signup stands.
#[derive(Debug, Clone, Copy, PartialEq, Eq, Structural)]
pub enum CandidateStatus {
    Pending,
    Accepted,
    Refused,
}

/// A signup for a season.
pub struct Candidate {
    pub season_id: usize,
    pub player_id: i64,
    pub username: String,
    pub wallet: String,
    pub status: CandidateStatus,
}

/// A member of a season's roster.
pub struct Player {
    pub season_id: usize,
    pub player_id: i64,
    pub username: String,
    pub score: i64,
    pub wallet: String,
}

/// One round of a season; `end_time` is `None` while the round is open.
pub struct Round {
    pub id: usize,
    pub season_id: usize,
    pub round_number: u64,
    pub start_time: String,
    pub end_time: Option<String>,
}

/// A player's move in a round, and once resolved, how it went.
pub struct Move {
    pub round_id: usize,
    pub player_id: i64,
    pub hand: Hand,
    pub opponent: Option<i64>,
    pub opponent_hand: Option<Hand>,
    pub game_status: Option<Outcome>,
    pub player_username: Option<String>,
    pub opponent_username: Option<String>,
    pub timestamp: String,
}

/// All tournament state: the relational tables the engine reads and writes.
pub struct Tournament {
    pub seasons: Vec<Season>,
    pub candidates: Vec<Candidate>,
    pub players: Vec<Player>,
    pub rounds: Vec<Round>,
    pub moves: Vec<Move>,
    pub admins: Admins,
    pub broadcast_channel: Option<String>,
    pub group_channel: Option<String>,
}

/// Signup `c` is the accepted signup behind roster row `p`.
pub open spec fn signup_of(c: Candidate, p: Player) -> bool {
    c.season_id == p.season_id && c.player_id == p.player_id && c.status == CandidateStatus::Accepted
}

/// Some accepted signup stands behind roster row `p`.
pub open spec fn has_accepted_signup(cands: Seq<Candidate>, p: Player) -> bool {
    exists|k: int| 0 <= k < cands.len() && signup_of(#[trigger] cands[k], p)
}

impl Tournament {
    /// At most one season is active, and a season is active exactly while it is not closed.
    pub open spec fn seasons_wf(&self) -> bool {
        &&& forall|i: int| 0 <= i < self.seasons@.len() ==> (#[trigger] self.seasons@[i]).id == i + 1
        &&& forall|i: int| 0 <= i < self.seasons@.len() ==> ((#[trigger] self.seasons@[i]).active
            <==> self.seasons@[i].status != SeasonStatus::Closed)
        &&& forall|i: int, j: int|
            0 <= i < self.seasons@.len() && 0 <= j < self.seasons@.len() && (#[trigger] self.seasons@[i]).active
                && (#[trigger] self.seasons@[j]).active ==> i == j
    }

    /// Rounds are numbered by position, belong to a season, and a season has
    /// at most one open round, which only a season with a round going on (or
    /// a closed one) holds.
    pub open spec fn rounds_wf(&self) -> bool {
        &&& forall|i: int| 0 <= i < self.rounds@.len() ==> (#[trigger] self.rounds@[i]).id == i + 1
        &&& forall|i: int| 0 <= i < self.rounds@.len() ==> 1 <= (#[trigger] self.rounds@[i]).season_id
            <= self.seasons@.len()
        &&& forall|i: int| 0 <= i < self.rounds@.len() && (#[trigger] self.rounds@[i]).end_time is None
            ==> {
            let st = self.seasons@[self.rounds@[i].season_id - 1].status;
            st == SeasonStatus::RoundOngoing || st == SeasonStatus::Closed
        }
        &&& forall|i: int, j: int|
            0 <= i < self.rounds@.len() && 0 <= j < self.rounds@.len() && (#[trigger] self.rounds@[i]).end_time is None
                && (#[trigger] self.rounds@[j]).end_time is None && self.rounds@[i].season_id
                == self.rounds@[j].season_id ==> i == j
    }

    /// One move per player and round.
    pub open spec fn moves_wf(&self) -> bool {
        forall|i: int, j: int|
            0 <= i < self.moves@.len() && 0 <= j < self.moves@.len() && (#[trigger] self.moves@[i]).round_id
                == (#[trigger] self.moves@[j]).round_id && self.moves@[i].player_id == self.moves@[j].player_id
                ==> i == j
    }

    /// One signup per player and season, and one roster row per player and
    /// season, each for an accepted signup.
    pub open spec fn roster_wf(&self) -> bool {
        &&& forall|i: int, j: int|
            0 <= i < self.candidates@.len() && 0 <= j < self.candidates@.len()
                && (#[trigger] self.candidates@[i]).season_id == (#[trigger] self.candidates@[j]).season_id
                && self.candidates@[i].player_id == self.candidates@[j].player_id ==> i == j
        &&& forall|i: int, j: int|
            0 <= i < self.players@.len() && 0 <= j < self.players@.len()
                && (#[trigger] self.players@[i]).season_id == (#[trigger] self.players@[j]).season_id
                && self.players@[i].player_id == self.players@[j].player_id ==> i == j
        &&& forall|i: int| 0 <= i < self.players@.len() ==> has_accepted_signup(self.candidates@, #[trigger] self.players@[i])
    }

    pub open spec fn wf(&self) -> bool {
        &&& self.seasons_wf()
        &&& self.rounds_wf()
        &&& self.moves_wf()
        &&& self.roster_wf()
        &&& self.admins.wf()
    }

    /// The roster invariant depends on the signup and roster tables alone.
    pub proof fn lemma_roster_frame(&self, other: &Tournament)
        requires
            self.roster_wf(),
            self.candidates@ == other.candidates@,
            self.players@ == other.players@,
        ensures
            other.roster_wf(),
    {
        assert forall|i: int, j: int|
            0 <= i < other.candidates@.len() && 0 <= j < other.candidates@.len()
                && (#[trigger] other.candidates@[i]).season_id == (#[trigger] other.candidates@[j]).season_id
                && other.candidates@[i].player_id == other.candidates@[j].player_id implies i == j by {
            assert(self.candidates@[i] == other.candidates@[i] && self.candidates@[j] == other.candidates@[j]);
        }
        assert forall|i: int, j: int|
            0 <= i < other.players@.len() && 0 <= j < other.players@.len()
                && (#[trigger] other.players@[i]).season_id == (#[trigger] other.players@[j]).season_id
                && other.players@[i].player_id == other.players@[j].player_id implies i == j by {
            assert(self.players@[i] == other.players@[i] && self.players@[j] == other.players@[j]);
        }
        assert forall|i: int| 0 <= i < other.players@.len() implies has_accepted_signup(
            other.candidates@,
            #[trigger] other.players@[i],
        ) by {
            assert(self.players@[i] == other.players@[i]);
        }
    }

    /// Every table holds the same rows in `self` and `other`.
    pub open spec fn same_as(&self, other: &Tournament) -> bool {
        &&& self.seasons@ == other.seasons@
        &&& self.candidates@ == other.candidates@
        &&& self.players@ == other.players@
        &&& self.rounds@ == other.rounds@
        &&& self.moves@ == other.moves@
        &&& self.admins == other.admins
        &&& self.broadcast_channel == other.broadcast_channel
        &&& self.group_channel == other.group_channel
    }

    /// A season is active.
    pub open spec fn has_active(&self) -> bool {
        exists|i: int| 0 <= i < self.seasons@.len() && (#[trigger] self.seasons@[i]).active
    }

    /// The position of the active season (meaningful when one is active).
    pub open spec fn active_index(&self) -> int {
        choose|i: int| 0 <= i < self.seasons@.len() && (#[trigger] self.seasons@[i]).active
    }

    /// The active season's row.
    pub open spec fn active_season(&self) -> Season {
        self.seasons@[self.active_index()]
    }

    /// An empty store with the two owners as administrators.
    pub fn new() -> (r: Tournament)
        ensures
            r.wf(),
            r.seasons@.len() == 0,
            r.candidates@.len() == 0,
            r.players@.len() == 0,
            r.rounds@.len() == 0,
            r.moves@.len() == 0,
            r.broadcast_channel is None,
            r.group_channel is None,
    {
        let r = Tournament {
            seasons: Vec::new(),
            candidates: Vec::new(),
            players: Vec::new(),
            rounds: Vec::new(),
            moves: Vec::new(),
            admins: Admins::with_owners(),
            broadcast_channel: None,
            group_channel: None,
        };
        assert(r.seasons_wf());
        assert(r.rounds_wf());
        assert(r.moves_wf());
        assert(r.roster_wf());
        r
    }

    /// Finds the active season's position.
    pub fn find_active(&self) -> (r: Option<usize>)
        requires
            self.wf(),
        ensures
            match r {
                Some(i) => self.has_active() && i == self.active_index() && self.seasons@[i as int].active,
                None => !self.has_active(),
            },
    {
        let mut i: usize = 0;
        while i < self.seasons.len()
            invariant
                self.wf(),
                i <= self.seasons@.len(),
                forall|k: int| 0 <= k < i ==> !(#[trigger] self.seasons@[k]).active,
            decreases self.seasons@.len() - i,
        {
            if self.seasons[i].active {
                assert(self.has_active());
                assert(self.seasons@[i as int].active);
                assert(self.seasons@[self.active_index()].active);
                assert(i == self.active_index());
                return Some(i);
            }
            i += 1;
        }
        None
    }
}

impl Tournament {
    /// Whether the tables satisfy the store's invariants, for tables read
    /// back from storage.
    pub fn check_wf(&self) -> (r: bool)
        ensures
            r == self.wf(),
    {
        self.seasons_ok() && self.rounds_ok() && self.moves_ok() && self.signups_ok() && self.roster_ok()
            && self.roster_backed() && self.admins_ok()
    }

    fn seasons_ok(&self) -> (r: bool)
        ensures
            r == self.seasons_wf(),
    {
        let n = self.seasons.len();
        let mut i: usize = 0;
        while i < n
            invariant
                n == self.seasons@.len(),
                i <= n,
                forall|k: int| 0 <= k < i ==> (#[trigger] self.seasons@[k]).id == k + 1,
                forall|k: int| 0 <= k < i ==> ((#[trigger] self.seasons@[k]).active <==> self.seasons@[k].status
                    != SeasonStatus::Closed),
                forall|a: int, b: int|
                    0 <= a < i && 0 <= b < i && (#[trigger] self.seasons@[a]).active && (#[trigger] self.seasons@[b]).active
                        ==> a == b,
            decreases n - i,
        {
            let s = &self.seasons[i];
            if s.id != i + 1 || s.active != (s.status != SeasonStatus::Closed) {
                return false;
            }
            if s.active {
                let mut j: usize = 0;
                while j < i
                    invariant
                        n == self.seasons@.len(),
                        j <= i < n,
                        self.seasons@[i as int].active,
                        forall|k: int| 0 <= k < j ==> !(#[trigger] self.seasons@[k]).active,
                    decreases i - j,
                {
                    if self.seasons[j].active {
                        return false;
                    }
                    j += 1;
                }
            }
            i += 1;
        }
        true
    }

    fn rounds_ok(&self) -> (r: bool)
        ensures
            r == self.rounds_wf(),
    {
        let n = self.rounds.len();
        let mut i: usize = 0;
        while i < n
            invariant
                n == self.rounds@.len(),
                i <= n,
                forall|k: int| 0 <= k < i ==> (#[trigger] self.rounds@[k]).id == k + 1,
                forall|k: int| 0 <= k < i ==> 1 <= (#[trigger] self.rounds@[k]).season_id <= self.seasons@.len(),
                forall|k: int| 0 <= k < i && (#[trigger] self.rounds@[k]).end_time is None ==> {
                    let st = self.seasons@[self.rounds@[k].season_id - 1].status;
                    st == SeasonStatus::RoundOngoing || st == SeasonStatus::Closed
                },
                forall|a: int, b: int|
                    0 <= a < i && 0 <= b < i && (#[trigger] self.rounds@[a]).end_time is None
                        && (#[trigger] self.rounds@[b]).end_time is None && self.rounds@[a].season_id
                        == self.rounds@[b].season_id ==> a == b,
            decreases n - i,
        {
            let r = &self.rounds[i];
            if r.id != i + 1 || r.season_id == 0 || r.season_id > self.seasons.len() {
                return false;
            }
            if r.end_time.is_none() {
                let st = self.seasons[r.season_id - 1].status;
                if st != SeasonStatus::RoundOngoing && st != SeasonStatus::Closed {
                    return false;
                }
                let mut j: usize = 0;
                while j < i
                    invariant
                        n == self.rounds@.len(),
                        j <= i < n,
                        *r == self.rounds@[i as int],
                        self.rounds@[i as int].end_time is None,
                        forall|k: int| 0 <= k < j ==> !((#[trigger] self.rounds@[k]).end_time is None
                            && self.rounds@[k].season_id == self.rounds@[i as int].season_id),
                    decreases i - j,
                {
                    if self.rounds[j].end_time.is_none() && self.rounds[j].season_id == r.season_id {
                        return false;
                    }
                    j += 1;
                }
            }
            i += 1;
        }
        true
    }

    fn moves_ok(&self) -> (r: bool)
        ensures
            r == self.moves_wf(),
    {
        let n = self.moves.len();
        let mut i: usize = 0;
        while i < n
            invariant
                n == self.moves@.len(),
                i <= n,
                forall|a: int, b: int|
                    0 <= a < i && 0 <= b < i && (#[trigger] self.moves@[a]).round_id == (#[trigger] self.moves@[b]).round_id
                        && self.moves@[a].player_id == self.moves@[b].player_id ==> a == b,
            decreases n - i,
        {
            let mut j: usize = 0;
            while j < i
                invariant
                    n == self.moves@.len(),
                    j <= i < n,
                    forall|k: int| 0 <= k < j ==> !((#[trigger] self.moves@[k]).round_id == self.moves@[i as int].round_id
                        && self.moves@[k].player_id == self.moves@[i as int].player_id),
                decreases i - j,
            {
                if self.moves[j].round_id == self.moves[i].round_id && self.moves[j].player_id == self.moves[i].player_id {
                    return false;
                }
                j += 1;
            }
            i += 1;
        }
        true
    }

    fn signups_ok(&self) -> (r: bool)
        ensures
            r == forall|a: int, b: int|
                0 <= a < self.candidates@.len() && 0 <= b < self.candidates@.len()
                    && (#[trigger] self.candidates@[a]).season_id == (#[trigger] self.candidates@[b]).season_id
                    && self.candidates@[a].player_id == self.candidates@[b].player_id ==> a == b,
    {
        let n = self.candidates.len();
        let mut i: usize = 0;
        while i < n
            invariant
                n == self.candidates@.len(),
                i <= n,
                forall|a: int, b: int|
                    0 <= a < i && 0 <= b < i && (#[trigger] self.candidates@[a]).season_id
                        == (#[trigger] self.candidates@[b]).season_id && self.candidates@[a].player_id
                        == self.candidates@[b].player_id ==> a == b,
            decreases n - i,
        {
            let mut j: usize = 0;
            while j < i
                invariant
                    n == self.candidates@.len(),
                    j <= i < n,
                    forall|k: int| 0 <= k < j ==> !((#[trigger] self.candidates@[k]).season_id
                        == self.candidates@[i as int].season_id && self.candidates@[k].player_id
                        == self.candidates@[i as int].player_id),
                decreases i - j,
            {
                if self.candidates[j].season_id == self.candidates[i].season_id && self.candidates[j].player_id
                    == self.candidates[i].player_id {
                    return false;
                }
                j += 1;
            }
            i += 1;
        }
        true
    }

    fn roster_ok(&self) -> (r: bool)
        ensures
            r == forall|a: int, b: int|
                0 <= a < self.players@.len() && 0 <= b < self.players@.len()
                    && (#[trigger] self.players@[a]).season_id == (#[trigger] self.players@[b]).season_id
                    && self.players@[a].player_id == self.players@[b].player_id ==> a == b,
    {
        let n = self.players.len();
        let mut i: usize = 0;
        while i < n
            invariant
                n == self.players@.len(),
                i <= n,
                forall|a: int, b: int|
                    0 <= a < i && 0 <= b < i && (#[trigger] self.players@[a]).season_id == (#[trigger] self.players@[b]).season_id
                        && self.players@[a].player_id == self.players@[b].player_id ==> a == b,
            decreases n - i,
        {
            let mut j: usize = 0;
            while j < i
                invariant
                    n == self.players@.len(),
                    j <= i < n,
                    forall|k: int| 0 <= k < j ==> !((#[trigger] self.players@[k]).season_id == self.players@[i as int].season_id
                        && self.players@[k].player_id == self.players@[i as int].player_id),
                decreases i - j,
            {
                if self.players[j].season_id == self.players[i].season_id && self.players[j].player_id
                    == self.players[i].player_id {
                    return false;
                }
                j += 1;
            }
            i += 1;
        }
        true
    }

    fn roster_backed(&self) -> (r: bool)
        ensures
            r == forall|i: int| 0 <= i < self.players@.len() ==> has_accepted_signup(self.candidates@, #[trigger] self.players@[i]),
    {
        let n = self.players.len();
        let mut i: usize = 0;
        while i < n
            invariant
                n == self.players@.len(),
                i <= n,
                forall|k: int| 0 <= k < i ==> has_accepted_signup(self.candidates@, #[trigger] self.players@[k]),
            decreases n - i,
        {
            let p = &self.players[i];
            let mut j: usize = 0;
            let mut found = false;
            while j < self.candidates.len() && !found
                invariant
                    j <= self.candidates@.len(),
                    i < n,
                    n == self.players@.len(),
                    *p == self.players@[i as int],
                    found ==> has_accepted_signup(self.candidates@, *p),
                    !found ==> forall|k: int| 0 <= k < j ==> !signup_of(#[trigger] self.candidates@[k], *p),
                decreases self.candidates@.len() - j,
            {
                let c = &self.candidates[j];
                if c.season_id == p.season_id && c.player_id == p.player_id && c.status == CandidateStatus::Accepted {
                    assert(signup_of(self.candidates@[j as int], *p));
                    found = true;
                }
                j += 1;
            }
            if !found {
                return false;
            }
            i += 1;
        }
        true
    }

    fn admins_ok(&self) -> (r: bool)
        ensures
            r == self.admins.wf(),
    {
        let v = &self.admins.names;
        let n = v.len();
        let mut i: usize = 0;
        while i < n
            invariant
                n == v@.len(),
                i <= n,
                *v == self.admins.names,
                forall|a: int, b: int| 0 <= a < i && 0 <= b < i && a != b ==> self.admins@[a] != self.admins@[b],
            decreases n - i,
        {
            let mut j: usize = 0;
            while j < i
                invariant
                    n == v@.len(),
                    j <= i < n,
                    *v == self.admins.names,
                    forall|k: int| 0 <= k < j ==> self.admins@[k] != self.admins@[i as int],
                decreases i - j,
            {
                if v[j] == v[i] {
                    assert(self.admins@[j as int] == self.admins@[i as int]);
                    return false;
                }
                j += 1;
            }
            i += 1;
        }
        true
    }
}

} // verus!
