use vstd::prelude::*;
use crate::error::TourError;
use crate::hand::{evaluate, flip, flipped, outcome_of, points, score_increment, Hand, Outcome};
use crate::moves::on_roster;
use crate::pairing::Pairing;
use crate::store::{Move, Player, Tournament, has_accepted_signup, signup_of};

verus! {

/// One resolved match, seen from the first-listed player.
#[derive(Debug, Clone, Copy, PartialEq, Eq, Structural)]
pub struct MatchResult {
    pub player_id: i64,
    pub player_hand: Hand,
    pub opponent_id: i64,
    pub opponent_hand: Hand,
    pub game_status: Outcome,
    pub round_id: usize,
}

/// The result of pair `p` in round `rid`.
pub open spec fn result_of(p: Pairing, rid: usize) -> MatchResult {
    MatchResult {
        player_id: p.0.0,
        player_hand: p.0.1,
        opponent_id: p.1.0,
        opponent_hand: p.1.1,
        game_status: outcome_of(p.0.1, p.1.1),
        round_id: rid,
    }
}

/// Points a player earns over a list of results; a player listed on both
/// sides of a result (a self-match) earns for both roles.
pub open spec fn total_points(rs: Seq<MatchResult>, pid: i64) -> int
    decreases rs.len(),
{
    if rs.len() == 0 {
        0
    } else {
        let r = rs.last();
        total_points(rs.drop_last(), pid) + (if r.player_id == pid { points(r.game_status) } else { 0 }) + (if r.opponent_id
            == pid {
            points(flipped(r.game_status))
        } else {
            0
        })
    }
}

/// The position of player `pid`'s roster row in season `sid`.
pub open spec fn roster_pos(players: Seq<Player>, sid: usize, pid: i64) -> int {
    choose|k: int| 0 <= k < players.len() && (#[trigger] players[k]).season_id == sid && players[k].player_id == pid
}

/// Player `pid`'s username in season `sid`.
pub open spec fn roster_name(players: Seq<Player>, sid: usize, pid: i64) -> String {
    players[roster_pos(players, sid, pid)].username
}

/// A move row after result `r` was written to it: first the listed player's
/// row, then the opponent's row with the roles swapped.
pub open spec fn apply_result(m: Move, r: MatchResult, pname: String, oname: String) -> Move {
    let m1 = if m.round_id == r.round_id && m.player_id == r.player_id {
        Move {
            opponent: Some(r.opponent_id),
            opponent_hand: Some(r.opponent_hand),
            game_status: Some(r.game_status),
            player_username: Some(pname),
            opponent_username: Some(oname),
            ..m
        }
    } else {
        m
    };
    if m1.round_id == r.round_id && m1.player_id == r.opponent_id {
        Move {
            opponent: Some(r.player_id),
            opponent_hand: Some(r.player_hand),
            game_status: Some(flipped(r.game_status)),
            player_username: Some(oname),
            opponent_username: Some(pname),
            ..m1
        }
    } else {
        m1
    }
}

/// A move row after all of `rs` were written, in order.
pub open spec fn resolved_move(m: Move, rs: Seq<MatchResult>, players: Seq<Player>, sid: usize) -> Move
    decreases rs.len(),
{
    if rs.len() == 0 {
        m
    } else {
        let r = rs.last();
        apply_result(
            resolved_move(m, rs.drop_last(), players, sid),
            r,
            roster_name(players, sid, r.player_id),
            roster_name(players, sid, r.opponent_id),
        )
    }
}

/// Every player of every result is on the roster of season `sid`.
pub open spec fn results_on_roster(rs: Seq<MatchResult>, players: Seq<Player>, sid: usize) -> bool {
    forall|j: int| 0 <= j < rs.len() ==> on_roster(players, sid, (#[trigger] rs[j]).player_id) && on_roster(
        players,
        sid,
        rs[j].opponent_id,
    )
}

/// Every roster score of season `sid`, raised by what `rs` earns, fits an `i64`.
pub open spec fn scores_fit(rs: Seq<MatchResult>, players: Seq<Player>, sid: usize) -> bool {
    forall|k: int| 0 <= k < players.len() && (#[trigger] players[k]).season_id == sid ==> players[k].score + total_points(
        rs,
        players[k].player_id,
    ) <= i64::MAX
}

/// A roster row after the results were scored.
pub open spec fn scored_player(p: Player, rs: Seq<MatchResult>, sid: usize) -> Player {
    if p.season_id == sid {
        Player { score: (p.score + total_points(rs, p.player_id)) as i64, ..p }
    } else {
        p
    }
}

/// Resolves each pair of round `round_id`.
pub fn evaluate_matches(matches: &Vec<Pairing>, round_id: usize) -> (r: Vec<MatchResult>)
    ensures
        r@.len() == matches@.len(),
        forall|j: int| 0 <= j < matches@.len() ==> r@[j] == result_of(#[trigger] matches@[j], round_id),
{
    let mut r: Vec<MatchResult> = Vec::new();
    let mut i: usize = 0;
    while i < matches.len()
        invariant
            i <= matches@.len(),
            r@.len() == i,
            forall|j: int| 0 <= j < i ==> r@[j] == result_of(#[trigger] matches@[j], round_id),
        decreases matches@.len() - i,
    {
        let (a, b) = matches[i];
        r.push(MatchResult {
            player_id: a.0,
            player_hand: a.1,
            opponent_id: b.0,
            opponent_hand: b.1,
            game_status: evaluate(a.1, b.1),
            round_id,
        });
        i += 1;
    }
    r
}

proof fn lemma_total_points_prefix(rs: Seq<MatchResult>, pid: i64, k: int)
    requires
        0 <= k <= rs.len(),
    ensures
        0 <= total_points(rs.take(k), pid) <= total_points(rs, pid),
    decreases rs.len(),
{
    if rs.len() > 0 {
        if k == rs.len() {
            assert(rs.take(k) =~= rs);
            lemma_total_points_prefix(rs.drop_last(), pid, k - 1);
            assert(rs.drop_last().take(k - 1) =~= rs.drop_last());
        } else {
            lemma_total_points_prefix(rs.drop_last(), pid, k);
            assert(rs.drop_last().take(k) =~= rs.take(k));
        }
    } else {
        assert(rs.take(k) =~= rs);
    }
}

/// Player `pid`'s score `base` raised by what `rs` earns, unless the sum
/// leaves `i64`.
fn raised_score(rs: &Vec<MatchResult>, pid: i64, base: i64) -> (r: Option<i64>)
    ensures
        base + total_points(rs@, pid) <= i64::MAX ==> r == Some((base + total_points(rs@, pid)) as i64),
        base + total_points(rs@, pid) > i64::MAX ==> r is None,
{
    let mut acc: i64 = base;
    let mut i: usize = 0;
    while i < rs.len()
        invariant
            i <= rs@.len(),
            acc == base + total_points(rs@.take(i as int), pid),
        decreases rs@.len() - i,
    {
        assert(rs@.take(i + 1).drop_last() =~= rs@.take(i as int));
        let r = rs[i];
        let a = if r.player_id == pid { score_increment(r.game_status) } else { 0 };
        let b = if r.opponent_id == pid { score_increment(flip(r.game_status)) } else { 0 };
        proof {
            lemma_total_points_prefix(rs@, pid, i + 1);
        }
        if acc > i64::MAX - (a + b) {
            return None;
        }
        acc = acc + a + b;
        i += 1;
    }
    assert(rs@.take(i as int) =~= rs@);
    Some(acc)
}

impl Tournament {
    /// Every table but the roster and the moves is the same in `self` and `other`.
    pub open spec fn same_but_scores(&self, other: &Tournament) -> bool {
        &&& self.seasons@ == other.seasons@
        &&& self.candidates@ == other.candidates@
        &&& self.rounds@ == other.rounds@
        &&& self.admins == other.admins
        &&& self.broadcast_channel == other.broadcast_channel
        &&& self.group_channel == other.group_channel
    }

    /// The position of player `pid`'s roster row in season `sid`, if any.
    pub fn find_roster(&self, sid: usize, pid: i64) -> (r: Option<usize>)
        requires
            self.wf(),
        ensures
            match r {
                Some(k) => k == roster_pos(self.players@, sid, pid) && on_roster(self.players@, sid, pid)
                    && k < self.players@.len() && self.players@[k as int].season_id == sid
                    && self.players@[k as int].player_id == pid,
                None => !on_roster(self.players@, sid, pid),
            },
    {
        let mut k: usize = 0;
        while k < self.players.len()
            invariant
                self.wf(),
                k <= self.players@.len(),
                forall|q: int| 0 <= q < k ==> !((#[trigger] self.players@[q]).season_id == sid
                    && self.players@[q].player_id == pid),
            decreases self.players@.len() - k,
        {
            if self.players[k].season_id == sid && self.players[k].player_id == pid {
                assert(on_roster(self.players@, sid, pid));
                let ghost c = roster_pos(self.players@, sid, pid);
                assert(self.players@[c].season_id == sid && self.players@[c].player_id == pid);
                assert(self.roster_wf());
                assert(c == k);
                return Some(k);
            }
            k += 1;
        }
        None
    }

    /// Scores a round's results in one all-or-nothing step: each player
    /// earns two points for a win, one for a draw and none for a loss (a
    /// self-matched player earns for both roles), and both move rows of each
    /// result record the opponent, the opponent's hand, the outcome and both
    /// usernames. Fails with `StoreError`, changing nothing, when a result
    /// names a player off the roster or a score would leave `i64`.
    pub fn update_player_score(&mut self, match_results: &Vec<MatchResult>, season_id: usize) -> (r: Result<(), TourError>)
        requires
            old(self).wf(),
        ensures
            final(self).wf(),
            (r is Ok) <==> (results_on_roster(match_results@, old(self).players@, season_id) && scores_fit(
                match_results@,
                old(self).players@,
                season_id,
            )),
            r is Err ==> r == Err::<(), TourError>(TourError::StoreError) && *final(self) == *old(self),
            r is Ok ==> {
                &&& final(self).players@.len() == old(self).players@.len()
                &&& forall|k: int| 0 <= k < old(self).players@.len() ==> #[trigger] final(self).players@[k] == scored_player(
                    old(self).players@[k],
                    match_results@,
                    season_id,
                )
                &&& final(self).moves@.len() == old(self).moves@.len()
                &&& forall|i: int| 0 <= i < old(self).moves@.len() ==> #[trigger] final(self).moves@[i] == resolved_move(
                    old(self).moves@[i],
                    match_results@,
                    old(self).players@,
                    season_id,
                )
                &&& final(self).same_but_scores(old(self))
            },
    {
        let mut names: Vec<(String, String)> = Vec::new();
        let mut j: usize = 0;
        while j < match_results.len()
            invariant
                self.wf(),
                *self == *old(self),
                j <= match_results@.len(),
                names@.len() == j,
                forall|q: int| 0 <= q < j ==> on_roster(self.players@, season_id, (#[trigger] match_results@[q]).player_id)
                    && on_roster(self.players@, season_id, match_results@[q].opponent_id),
                forall|q: int| 0 <= q < j ==> (#[trigger] names@[q]).0 == roster_name(self.players@, season_id, match_results@[q].player_id)
                    && names@[q].1 == roster_name(self.players@, season_id, match_results@[q].opponent_id),
            decreases match_results@.len() - j,
        {
            let a = match self.find_roster(season_id, match_results[j].player_id) {
                Some(a) => a,
                None => {
                    assert(!results_on_roster(match_results@, self.players@, season_id)) by {
                        assert(!on_roster(self.players@, season_id, match_results@[j as int].player_id));
                    }
                    assert(self.players@ == old(self).players@);
                    return Err(TourError::StoreError);
                },
            };
            let b = match self.find_roster(season_id, match_results[j].opponent_id) {
                Some(b) => b,
                None => {
                    assert(!results_on_roster(match_results@, self.players@, season_id)) by {
                        assert(!on_roster(self.players@, season_id, match_results@[j as int].opponent_id));
                    }
                    assert(self.players@ == old(self).players@);
                    return Err(TourError::StoreError);
                },
            };
            names.push((self.players[a].username.clone(), self.players[b].username.clone()));
            j += 1;
        }
        let mut scores: Vec<i64> = Vec::new();
        let mut k: usize = 0;
        while k < self.players.len()
            invariant
                self.wf(),
                *self == *old(self),
                results_on_roster(match_results@, self.players@, season_id),
                k <= self.players@.len(),
                scores@.len() == k,
                forall|q: int| 0 <= q < k ==> (#[trigger] scores@[q]) == scored_player(self.players@[q], match_results@, season_id).score,
                forall|q: int| 0 <= q < k && (#[trigger] self.players@[q]).season_id == season_id ==> self.players@[q].score
                    + total_points(match_results@, self.players@[q].player_id) <= i64::MAX,
            decreases self.players@.len() - k,
        {
            if self.players[k].season_id == season_id {
                match raised_score(match_results, self.players[k].player_id, self.players[k].score) {
                    Some(v) => scores.push(v),
                    None => {
                        assert(!scores_fit(match_results@, self.players@, season_id)) by {
                            assert(self.players@[k as int].season_id == season_id);
                        }
                        assert(self.players@ == old(self).players@);
                        return Err(TourError::StoreError);
                    },
                }
            } else {
                scores.push(self.players[k].score);
            }
            k += 1;
        }
        assert(scores_fit(match_results@, self.players@, season_id));
        let ghost before = *self;
        let mut k: usize = 0;
        while k < self.players.len()
            invariant
                before.wf(),
                self.same_but_scores(&before),
                self.moves@ == before.moves@,
                self.players@.len() == before.players@.len(),
                scores@.len() == before.players@.len(),
                forall|q: int| 0 <= q < before.players@.len() ==> (#[trigger] scores@[q]) == scored_player(before.players@[q], match_results@, season_id).score,
                k <= self.players@.len(),
                forall|q: int| 0 <= q < k ==> #[trigger] self.players@[q] == scored_player(before.players@[q], match_results@, season_id),
                forall|q: int| k <= q < self.players@.len() ==> #[trigger] self.players@[q] == before.players@[q],
            decreases self.players@.len() - k,
        {
            self.players[k].score = scores[k];
            k += 1;
        }
        let mut j: usize = 0;
        while j < match_results.len()
            invariant
                before.wf(),
                self.same_but_scores(&before),
                names@.len() == match_results@.len(),
                forall|q: int| 0 <= q < match_results@.len() ==> (#[trigger] names@[q]).0 == roster_name(before.players@, season_id, match_results@[q].player_id)
                    && names@[q].1 == roster_name(before.players@, season_id, match_results@[q].opponent_id),
                self.players@.len() == before.players@.len(),
                forall|q: int| 0 <= q < before.players@.len() ==> #[trigger] self.players@[q] == scored_player(before.players@[q], match_results@, season_id),
                j <= match_results@.len(),
                self.moves@.len() == before.moves@.len(),
                forall|i: int| 0 <= i < before.moves@.len() ==> #[trigger] self.moves@[i] == resolved_move(
                    before.moves@[i],
                    match_results@.take(j as int),
                    before.players@,
                    season_id,
                ),
            decreases match_results@.len() - j,
        {
            let r = match_results[j];
            let ghost done = match_results@.take(j as int);
            assert(match_results@.take(j + 1).drop_last() =~= done);
            let mut i: usize = 0;
            while i < self.moves.len()
                invariant
                    before.wf(),
                    self.same_but_scores(&before),
                    self.players@.len() == before.players@.len(),
                    forall|q: int| 0 <= q < before.players@.len() ==> #[trigger] self.players@[q] == scored_player(before.players@[q], match_results@, season_id),
                    j < match_results@.len(),
                    r == match_results@[j as int],
                    names@.len() == match_results@.len(),
                    names@[j as int].0 == roster_name(before.players@, season_id, r.player_id),
                    names@[j as int].1 == roster_name(before.players@, season_id, r.opponent_id),
                    match_results@.take(j + 1).drop_last() == done,
                    i <= self.moves@.len(),
                    self.moves@.len() == before.moves@.len(),
                    forall|q: int| 0 <= q < i ==> #[trigger] self.moves@[q] == resolved_move(
                        before.moves@[q],
                        match_results@.take(j + 1),
                        before.players@,
                        season_id,
                    ),
                    forall|q: int| i <= q < before.moves@.len() ==> #[trigger] self.moves@[q] == resolved_move(
                        before.moves@[q],
                        done,
                        before.players@,
                        season_id,
                    ),
                decreases self.moves@.len() - i,
            {
                if self.moves[i].round_id == r.round_id && self.moves[i].player_id == r.player_id {
                    self.moves[i].opponent = Some(r.opponent_id);
                    self.moves[i].opponent_hand = Some(r.opponent_hand);
                    self.moves[i].game_status = Some(r.game_status);
                    self.moves[i].player_username = Some(names[j].0.clone());
                    self.moves[i].opponent_username = Some(names[j].1.clone());
                }
                if self.moves[i].round_id == r.round_id && self.moves[i].player_id == r.opponent_id {
                    self.moves[i].opponent = Some(r.player_id);
                    self.moves[i].opponent_hand = Some(r.player_hand);
                    self.moves[i].game_status = Some(flip(r.game_status));
                    self.moves[i].player_username = Some(names[j].1.clone());
                    self.moves[i].opponent_username = Some(names[j].0.clone());
                }
                i += 1;
            }
            j += 1;
        }
        assert(match_results@.take(j as int) =~= match_results@);
        proof {
            assert forall|a: int, b: int|
                0 <= a < self.moves@.len() && 0 <= b < self.moves@.len() && (#[trigger] self.moves@[a]).round_id
                    == (#[trigger] self.moves@[b]).round_id && self.moves@[a].player_id == self.moves@[b].player_id
                    implies a == b by {
                lemma_resolved_keys(before.moves@[a], match_results@, before.players@, season_id);
                lemma_resolved_keys(before.moves@[b], match_results@, before.players@, season_id);
            }
            assert forall|a: int, b: int|
                0 <= a < self.players@.len() && 0 <= b < self.players@.len()
                    && (#[trigger] self.players@[a]).season_id == (#[trigger] self.players@[b]).season_id
                    && self.players@[a].player_id == self.players@[b].player_id implies a == b by {
                assert(before.players@[a].season_id == self.players@[a].season_id);
                assert(before.players@[b].season_id == self.players@[b].season_id);
            }
            assert forall|k: int| 0 <= k < self.players@.len() implies has_accepted_signup(
                self.candidates@,
                #[trigger] self.players@[k],
            ) by {
                assert(has_accepted_signup(before.candidates@, before.players@[k]));
                let w = choose|w: int| 0 <= w < before.candidates@.len() && signup_of(#[trigger] before.candidates@[w], before.players@[k]);
                assert(signup_of(self.candidates@[w], self.players@[k]));
            }
        }
        Ok(())
    }
}

pub proof fn lemma_resolved_keys(m: Move, rs: Seq<MatchResult>, players: Seq<Player>, sid: usize)
    ensures
        resolved_move(m, rs, players, sid).round_id == m.round_id,
        resolved_move(m, rs, players, sid).player_id == m.player_id,
        resolved_move(m, rs, players, sid).hand == m.hand,
    decreases rs.len(),
{
    if rs.len() > 0 {
        lemma_resolved_keys(m, rs.drop_last(), players, sid);
    }
}

} // verus!
