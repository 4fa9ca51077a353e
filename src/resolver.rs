use vstd::prelude::*;
use crate::error::TourError;
use crate::hand::{lemma_evaluate_laws, outcome_of, Hand, Outcome};
use crate::moves::{
    forfeit_rows, forfeiters, fresh_move, hands_of, has_move, lemma_forfeit_count, lemma_forfeiters_facts, on_roster, played_count,
    roster_size, roster_unique,
};
use crate::pairing::{paired, random_match_players, Entry, Pairing};
use crate::phase::SeasonStatus;
use crate::round::{ended_row, is_open_round_of};
use crate::scoring::{evaluate_matches, lemma_resolved_keys, resolved_move, result_of, results_on_roster, scored_player, scores_fit, total_points, MatchResult};
use crate::season::with_status;
use crate::store::{Move, Player, Tournament};

verus! {

/// What closing a round produced: the round, who forfeited, and the results.
pub struct RoundClose {
    pub round_id: usize,
    pub forfeited: Vec<i64>,
    pub results: Vec<MatchResult>,
}

/// Season `sid` exists and has a round going on.
pub open spec fn round_ongoing(t: Tournament, sid: usize) -> bool {
    1 <= sid <= t.seasons@.len() && t.seasons@[sid - 1].status == SeasonStatus::RoundOngoing
}

/// What settling a round with given pairs does: `WrongPhase` unless the
/// season has a round going on, `StoreError` when scoring fails (nothing
/// changes either way); otherwise the pairs are resolved and scored, the
/// open round ends at `now` and the season goes back to `start_gaming`.
pub open spec fn settled(
    before: Tournament,
    after: Tournament,
    sid: usize,
    rid: usize,
    pairs: Seq<Pairing>,
    now: String,
    r: Result<Vec<MatchResult>, TourError>,
) -> bool {
    let rs = pairs.map_values(|p: Pairing| result_of(p, rid));
    &&& !round_ongoing(before, sid) ==> r == Err::<Vec<MatchResult>, TourError>(TourError::WrongPhase) && after == before
    &&& round_ongoing(before, sid) && !(results_on_roster(rs, before.players@, sid) && scores_fit(rs, before.players@, sid))
        ==> r == Err::<Vec<MatchResult>, TourError>(TourError::StoreError) && after == before
    &&& round_ongoing(before, sid) && results_on_roster(rs, before.players@, sid) && scores_fit(rs, before.players@, sid)
        ==> match r {
        Ok(v) => {
            &&& v@ == rs
            &&& after.players@.len() == before.players@.len()
            &&& forall|k: int| 0 <= k < before.players@.len() ==> #[trigger] after.players@[k] == scored_player(
                before.players@[k],
                rs,
                sid,
            )
            &&& after.moves@.len() == before.moves@.len()
            &&& forall|i: int| 0 <= i < before.moves@.len() ==> #[trigger] after.moves@[i] == resolved_move(
                before.moves@[i],
                rs,
                before.players@,
                sid,
            )
            &&& after.rounds@.len() == before.rounds@.len()
            &&& forall|k: int| 0 <= k < before.rounds@.len() ==> (#[trigger] after.rounds@[k]) == if is_open_round_of(before.rounds@[k], sid) {
                ended_row(before.rounds@[k], now)
            } else {
                before.rounds@[k]
            }
            &&& after.seasons@ == before.seasons@.update(
                sid - 1,
                with_status(before.seasons@[sid - 1], SeasonStatus::StartGaming),
            )
            &&& after.candidates@ == before.candidates@
            &&& after.admins == before.admins
            &&& after.broadcast_channel == before.broadcast_channel
            &&& after.group_channel == before.group_channel
        },
        Err(_) => false,
    }
}

/// The pairs that a list of results was made from.
pub open spec fn as_pairs(rs: Seq<MatchResult>) -> Seq<Pairing> {
    rs.map_values(|m: MatchResult| ((m.player_id, m.player_hand), (m.opponent_id, m.opponent_hand)))
}

/// Round `rid` of season `sid` can be scored: every move in it is by a
/// roster player, and no roster score of the season can leave `i64` by what
/// a round earns at most (four points per move, counting forfeits).
pub open spec fn close_ready(t: Tournament, sid: usize, rid: usize) -> bool {
    &&& forall|i: int| 0 <= i < t.moves@.len() && (#[trigger] t.moves@[i]).round_id == rid ==> on_roster(
        t.players@,
        sid,
        t.moves@[i].player_id,
    )
    &&& forall|k: int| 0 <= k < t.players@.len() && (#[trigger] t.players@[k]).season_id == sid ==> t.players@[k].score + 4 * (
    t.moves@.len() + t.players@.len()) <= i64::MAX
}

/// Entry `e` is the player and hand of a move of round `rid` in `ms`.
pub open spec fn entry_of_round(ms: Seq<Move>, rid: usize, e: Entry) -> bool {
    exists|i: int| 0 <= i < ms.len() && ms[i].round_id == rid && e == (ms[i].player_id, ms[i].hand)
}

proof fn lemma_hands_of(ms: Seq<Move>, rid: usize)
    ensures
        hands_of(ms, rid).len() <= ms.len(),
        forall|j: int| 0 <= j < hands_of(ms, rid).len() ==> entry_of_round(ms, rid, #[trigger] hands_of(ms, rid)[j]),
    decreases ms.len(),
{
    if ms.len() > 0 {
        let rest = ms.drop_last();
        lemma_hands_of(rest, rid);
        let h = hands_of(ms, rid);
        let hr = hands_of(rest, rid);
        assert forall|j: int| 0 <= j < h.len() implies entry_of_round(ms, rid, #[trigger] h[j]) by {
            if ms.last().round_id == rid {
                assert(h == hr.push((ms.last().player_id, ms.last().hand)));
            } else {
                assert(h == hr);
            }
            if j < hr.len() {
                assert(h[j] == hr[j]);
                assert(entry_of_round(rest, rid, hr[j]));
                let i = choose|i: int| 0 <= i < rest.len() && rest[i].round_id == rid && hr[j] == (rest[i].player_id, rest[i].hand);
                assert(ms[i] == rest[i]);
            } else {
                assert(ms[ms.len() - 1] == ms.last());
            }
        }
    }
}

proof fn lemma_forfeiters_len(players: Seq<Player>, sid: usize, rid: usize, moves: Seq<Move>)
    ensures
        forfeiters(players, sid, rid, moves).len() <= players.len(),
    decreases players.len(),
{
    if players.len() > 0 {
        lemma_forfeiters_len(players.drop_last(), sid, rid, moves);
    }
}

proof fn lemma_total_points_bound(rs: Seq<MatchResult>, pid: i64)
    ensures
        0 <= total_points(rs, pid) <= 4 * rs.len(),
    decreases rs.len(),
{
    if rs.len() > 0 {
        lemma_total_points_bound(rs.drop_last(), pid);
    }
}

/// A ready round's pairs pass the scoring checks.
proof fn lemma_ready_settles(t: Tournament, sid: usize, rid: usize, now: String, hands: Seq<Entry>, pairs: Seq<Pairing>)
    requires
        t.wf(),
        close_ready(t, sid, rid),
        hands == hands_of(t.moves@ + forfeit_rows(forfeiters(t.players@, sid, rid, t.moves@), rid, now), rid),
        pairs.len() == (hands.len() + 1) / 2,
        forall|j: int| 0 <= j < pairs.len() ==> hands.contains((#[trigger] pairs[j]).0) && hands.contains(pairs[j].1),
    ensures
        results_on_roster(pairs.map_values(|p: Pairing| result_of(p, rid)), t.players@, sid),
        scores_fit(pairs.map_values(|p: Pairing| result_of(p, rid)), t.players@, sid),
{
    let f = forfeiters(t.players@, sid, rid, t.moves@);
    let played = t.moves@ + forfeit_rows(f, rid, now);
    let rs = pairs.map_values(|p: Pairing| result_of(p, rid));
    assert(roster_unique(t.players@, sid)) by {
        assert(t.roster_wf());
    }
    lemma_forfeiters_facts(t.players@, sid, rid, t.moves@);
    lemma_forfeiters_len(t.players@, sid, rid, t.moves@);
    lemma_hands_of(played, rid);
    assert forall|e: Entry| hands.contains(e) implies on_roster(t.players@, sid, e.0) by {
        let j = choose|j: int| 0 <= j < hands.len() && hands[j] == e;
        assert(entry_of_round(played, rid, hands[j]));
        let i = choose|i: int| 0 <= i < played.len() && played[i].round_id == rid && hands[j] == (played[i].player_id, played[i].hand);
        if i < t.moves@.len() {
            assert(played[i] == t.moves@[i]);
        } else {
            let q = i - t.moves@.len();
            assert(played[i] == fresh_move(rid, f[q], Hand::Empty, now));
            assert(f.contains(f[q]));
        }
    }
    assert forall|j: int| 0 <= j < rs.len() implies on_roster(t.players@, sid, (#[trigger] rs[j]).player_id) && on_roster(
        t.players@,
        sid,
        rs[j].opponent_id,
    ) by {
        assert(rs[j] == result_of(pairs[j], rid));
        assert(hands.contains(pairs[j].0) && hands.contains(pairs[j].1));
    }
    assert forall|k: int| 0 <= k < t.players@.len() && (#[trigger] t.players@[k]).season_id == sid implies t.players@[k].score
        + total_points(rs, t.players@[k].player_id) <= i64::MAX by {
        lemma_total_points_bound(rs, t.players@[k].player_id);
    }
}

/// What closing the open round of season `sid` did, given what it
/// reports: the forfeit rows were added for the roster players without a
/// move, every move of the round was paired (each in some pair), each pair
/// resolved by the hand rules and scored, both move rows of each result
/// updated, the round ended at `now`, the season back in `start_gaming`, and
/// nothing else changed.
pub open spec fn round_closed(before: Tournament, after: Tournament, sid: usize, now: String, c: RoundClose) -> bool {
    let forfeit = forfeiters(before.players@, sid, c.round_id, before.moves@);
    let played = before.moves@ + forfeit_rows(forfeit, c.round_id, now);
    let hands = hands_of(played, c.round_id);
    &&& round_ongoing(before, sid)
    &&& 1 <= c.round_id <= before.rounds@.len()
    &&& is_open_round_of(before.rounds@[c.round_id - 1], sid)
    &&& c.forfeited@ == forfeit
    &&& c.results@.len() == (hands.len() + 1) / 2
    &&& forall|k: int| 0 <= k < hands.len() ==> paired(as_pairs(c.results@), #[trigger] hands[k])
    &&& forall|j: int| 0 <= j < c.results@.len() ==> (#[trigger] c.results@[j]).game_status == outcome_of(
        c.results@[j].player_hand,
        c.results@[j].opponent_hand,
    ) && c.results@[j].round_id == c.round_id
    &&& after.players@.len() == before.players@.len()
    &&& forall|k: int| 0 <= k < before.players@.len() ==> #[trigger] after.players@[k] == scored_player(
        before.players@[k],
        c.results@,
        sid,
    )
    &&& after.moves@.len() == played.len()
    &&& forall|i: int| 0 <= i < played.len() ==> #[trigger] after.moves@[i] == resolved_move(
        played[i],
        c.results@,
        before.players@,
        sid,
    )
    &&& after.rounds@[c.round_id - 1] == ended_row(before.rounds@[c.round_id - 1], now)
    &&& after.seasons@ == before.seasons@.update(
        sid - 1,
        with_status(before.seasons@[sid - 1], SeasonStatus::StartGaming),
    )
    &&& results_on_roster(c.results@, before.players@, sid)
    &&& after.rounds@.len() == before.rounds@.len()
    &&& forall|k: int| 0 <= k < before.rounds@.len() && k != c.round_id - 1 ==> #[trigger] after.rounds@[k] == before.rounds@[k]
    &&& after.candidates@ == before.candidates@
    &&& after.admins == before.admins
    &&& after.broadcast_channel == before.broadcast_channel
    &&& after.group_channel == before.group_channel
}

/// The players of a closed round's results are still on the roster after
/// scoring.
pub proof fn lemma_closed_roster(before: Tournament, after: Tournament, sid: usize, now: String, c: RoundClose)
    requires
        round_closed(before, after, sid, now, c),
    ensures
        results_on_roster(c.results@, after.players@, sid),
{
    assert forall|pid: i64| on_roster(before.players@, sid, pid) implies on_roster(after.players@, sid, pid) by {
        let k = choose|k: int| 0 <= k < before.players@.len() && (#[trigger] before.players@[k]).season_id == sid
            && before.players@[k].player_id == pid;
        assert(after.players@[k] == scored_player(before.players@[k], c.results@, sid));
    }
    assert forall|j: int| 0 <= j < c.results@.len() implies on_roster(after.players@, sid, (#[trigger] c.results@[j]).player_id)
        && on_roster(after.players@, sid, c.results@[j].opponent_id) by {
        assert(on_roster(before.players@, sid, c.results@[j].player_id));
        assert(on_roster(before.players@, sid, c.results@[j].opponent_id));
    }
}

/// A closed round's forfeits: exactly one empty-hand row was added for
/// each roster player who had no move (roster size less the players who
/// moved), after the close every roster player holds a move in the round,
/// and a forfeit loses to a real hand and draws against another forfeit
/// (a self-matched forfeiter included).
pub proof fn lemma_closed_forfeits(before: Tournament, after: Tournament, sid: usize, now: String, c: RoundClose)
    requires
        before.wf(),
        round_closed(before, after, sid, now, c),
    ensures
        after.moves@.len() == before.moves@.len() + roster_size(before.players@, sid) - played_count(
            before.players@,
            sid,
            c.round_id,
            before.moves@,
        ),
        forall|i: int| 0 <= i < before.moves@.len() ==> (#[trigger] after.moves@[i]).round_id == before.moves@[i].round_id
            && after.moves@[i].player_id == before.moves@[i].player_id && after.moves@[i].hand == before.moves@[i].hand,
        forall|i: int| before.moves@.len() <= i < after.moves@.len() ==> (#[trigger] after.moves@[i]).round_id == c.round_id
            && after.moves@[i].hand == Hand::Empty && after.moves@[i].player_id == c.forfeited@[i - before.moves@.len()]
            && !has_move(before.moves@, c.round_id, after.moves@[i].player_id),
        forall|pid: i64| on_roster(before.players@, sid, pid) ==> #[trigger] has_move(after.moves@, c.round_id, pid),
        forall|j: int| 0 <= j < c.results@.len() ==> {
            let m = #[trigger] c.results@[j];
            &&& m.player_hand == Hand::Empty && m.opponent_hand != Hand::Empty ==> m.game_status == Outcome::Lost
            &&& m.player_hand != Hand::Empty && m.opponent_hand == Hand::Empty ==> m.game_status == Outcome::Won
            &&& m.player_hand == Hand::Empty && m.opponent_hand == Hand::Empty ==> m.game_status == Outcome::Draw
        },
{
    let rid = c.round_id;
    let f = forfeiters(before.players@, sid, rid, before.moves@);
    let played = before.moves@ + forfeit_rows(f, rid, now);
    assert(roster_unique(before.players@, sid)) by {
        assert(before.roster_wf());
    }
    lemma_forfeit_count(before.players@, sid, rid, before.moves@, now);
    lemma_forfeiters_facts(before.players@, sid, rid, before.moves@);
    assert forall|i: int| 0 <= i < played.len() implies (#[trigger] after.moves@[i]).round_id == played[i].round_id
        && after.moves@[i].player_id == played[i].player_id && after.moves@[i].hand == played[i].hand by {
        lemma_resolved_keys(played[i], c.results@, before.players@, sid);
    }
    assert forall|i: int| 0 <= i < before.moves@.len() implies (#[trigger] after.moves@[i]).round_id == before.moves@[i].round_id
        && after.moves@[i].player_id == before.moves@[i].player_id && after.moves@[i].hand == before.moves@[i].hand by {
        assert(played[i] == before.moves@[i]);
    }
    assert forall|i: int| before.moves@.len() <= i < after.moves@.len() implies (#[trigger] after.moves@[i]).round_id == rid
        && after.moves@[i].hand == Hand::Empty && after.moves@[i].player_id == c.forfeited@[i - before.moves@.len()]
        && !has_move(before.moves@, rid, after.moves@[i].player_id) by {
        let q = i - before.moves@.len();
        assert(played[i] == fresh_move(rid, f[q], Hand::Empty, now));
        assert(f.contains(f[q]));
    }
    assert forall|pid: i64| on_roster(before.players@, sid, pid) implies #[trigger] has_move(after.moves@, rid, pid) by {
        assert(has_move(played, rid, pid));
        let k = choose|k: int| 0 <= k < played.len() && (#[trigger] played[k]).round_id == rid && played[k].player_id == pid;
        assert(after.moves@[k].round_id == played[k].round_id);
    }
    assert forall|j: int| 0 <= j < c.results@.len() implies {
        let m = #[trigger] c.results@[j];
        &&& m.player_hand == Hand::Empty && m.opponent_hand != Hand::Empty ==> m.game_status == Outcome::Lost
        &&& m.player_hand != Hand::Empty && m.opponent_hand == Hand::Empty ==> m.game_status == Outcome::Won
        &&& m.player_hand == Hand::Empty && m.opponent_hand == Hand::Empty ==> m.game_status == Outcome::Draw
    } by {
        lemma_evaluate_laws(c.results@[j].player_hand, c.results@[j].opponent_hand);
        lemma_evaluate_laws(c.results@[j].opponent_hand, c.results@[j].player_hand);
    }
}

impl Tournament {
    /// Resolves the given pairs of round `round_id`, scores them and ends
    /// the round, all or nothing.
    pub fn settle_round(&mut self, season_id: usize, round_id: usize, pairs: &Vec<Pairing>, now: String) -> (r: Result<Vec<MatchResult>, TourError>)
        requires
            old(self).wf(),
        ensures
            final(self).wf(),
            settled(*old(self), *final(self), season_id, round_id, pairs@, now, r),
    {
        if season_id == 0 || season_id > self.seasons.len() || self.seasons[season_id - 1].status != SeasonStatus::RoundOngoing {
            return Err(TourError::WrongPhase);
        }
        let results = evaluate_matches(pairs, round_id);
        let ghost rs = pairs@.map_values(|p: Pairing| result_of(p, round_id));
        assert(results@ =~= rs);
        match self.update_player_score(&results, season_id) {
            Ok(()) => {},
            Err(e) => return Err(e),
        }
        let ended = self.end_current_round(season_id, now);
        assert(ended is Ok);
        Ok(results)
    }

    /// Closes the open round of season `season_id`: every roster player who
    /// did not play gets an empty-hand move, the round's moves are paired at
    /// random, resolved and scored, the round ends at `now` and the season
    /// goes back to `start_gaming`. All or nothing: on an error the store is
    /// left as it was.
    pub fn close_round(&mut self, season_id: usize, now: String) -> (r: Result<RoundClose, TourError>)
        requires
            old(self).wf(),
        ensures
            final(self).wf(),
            !round_ongoing(*old(self), season_id) ==> r == Err::<RoundClose, TourError>(TourError::WrongPhase),
            r is Err ==> final(self).same_as(old(self)),
            forall|rid: usize|
                1 <= rid <= old(self).rounds@.len() && #[trigger] is_open_round_of(old(self).rounds@[rid - 1], season_id)
                    && round_ongoing(*old(self), season_id) && close_ready(*old(self), season_id, rid) ==> r is Ok,
            round_ongoing(*old(self), season_id) && r is Err ==> r == Err::<RoundClose, TourError>(TourError::StoreError),
            r matches Ok(c) ==> round_closed(*old(self), *final(self), season_id, now, c),
    {
        if season_id == 0 || season_id > self.seasons.len() || self.seasons[season_id - 1].status != SeasonStatus::RoundOngoing {
            return Err(TourError::WrongPhase);
        }
        let round_id = match self.get_current_round_id(season_id) {
            Some(id) => id,
            None => return Err(TourError::StoreError),
        };
        let ghost before = *self;
        let old_len = self.moves.len();
        let forfeited = self.play_empty_hands_for_players(season_id, round_id, now.clone());
        let hands = self.get_player_hands(round_id, season_id);
        let ghost hs = hands@;
        let pairs = random_match_players(hands);
        let ghost ps = pairs@;
        match self.settle_round(season_id, round_id, &pairs, now) {
            Ok(results) => {
                proof {
                    assert(as_pairs(results@) =~= ps);
                    assert forall|j: int| 0 <= j < results@.len() implies (#[trigger] results@[j]).game_status == outcome_of(
                        results@[j].player_hand,
                        results@[j].opponent_hand,
                    ) && results@[j].round_id == round_id by {
                        assert(results@[j] == result_of(ps[j], round_id));
                    }
                }
                Ok(RoundClose { round_id, forfeited, results })
            },
            Err(e) => {
                proof {
                    if close_ready(before, season_id, round_id) {
                        lemma_ready_settles(before, season_id, round_id, now, hs, ps);
                    }
                }
                self.moves.truncate(old_len);
                proof {
                    assert(self.moves@ =~= before.moves@);
                }
                Err(e)
            },
        }
    }
}

} // verus!
