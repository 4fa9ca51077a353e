use vstd::prelude::*;
use crate::hand::Hand;
use crate::store::{Move, Player, Tournament};

verus! {

/// Player `pid` holds a move in round `rid`.
pub open spec fn has_move(moves: Seq<Move>, rid: usize, pid: i64) -> bool {
    exists|k: int| 0 <= k < moves.len() && (#[trigger] moves[k]).round_id == rid && moves[k].player_id == pid
}

/// The row a submitted (or forfeited) hand starts as: not yet resolved.
pub open spec fn fresh_move(rid: usize, pid: i64, hand: Hand, now: String) -> Move {
    Move {
        round_id: rid,
        player_id: pid,
        hand,
        opponent: None,
        opponent_hand: None,
        game_status: None,
        player_username: None,
        opponent_username: None,
        timestamp: now,
    }
}

/// Player `pid` is on the roster of season `sid`.
pub open spec fn on_roster(players: Seq<Player>, sid: usize, pid: i64) -> bool {
    exists|k: int| 0 <= k < players.len() && (#[trigger] players[k]).season_id == sid && players[k].player_id == pid
}

/// The roster players of season `sid` without a move in round `rid`, in roster order.
pub open spec fn forfeiters(players: Seq<Player>, sid: usize, rid: usize, moves: Seq<Move>) -> Seq<i64>
    decreases players.len(),
{
    if players.len() == 0 {
        Seq::empty()
    } else {
        let rest = forfeiters(players.drop_last(), sid, rid, moves);
        let p = players.last();
        if p.season_id == sid && !has_move(moves, rid, p.player_id) {
            rest.push(p.player_id)
        } else {
            rest
        }
    }
}

/// How many roster rows season `sid` has.
pub open spec fn roster_size(players: Seq<Player>, sid: usize) -> int
    decreases players.len(),
{
    if players.len() == 0 {
        0
    } else {
        roster_size(players.drop_last(), sid) + if players.last().season_id == sid { 1int } else { 0 }
    }
}

/// How many roster players of season `sid` already hold a move in round `rid`.
pub open spec fn played_count(players: Seq<Player>, sid: usize, rid: usize, moves: Seq<Move>) -> int
    decreases players.len(),
{
    if players.len() == 0 {
        0
    } else {
        played_count(players.drop_last(), sid, rid, moves) + if players.last().season_id == sid && has_move(
            moves,
            rid,
            players.last().player_id,
        ) {
            1int
        } else {
            0
        }
    }
}

/// The (player, hand) pairs of the moves of round `rid`, in table order.
pub open spec fn hands_of(moves: Seq<Move>, rid: usize) -> Seq<(i64, Hand)>
    decreases moves.len(),
{
    if moves.len() == 0 {
        Seq::empty()
    } else {
        let rest = hands_of(moves.drop_last(), rid);
        if moves.last().round_id == rid {
            rest.push((moves.last().player_id, moves.last().hand))
        } else {
            rest
        }
    }
}

/// The forfeit rows for the players `pids` in round `rid`.
pub open spec fn forfeit_rows(pids: Seq<i64>, rid: usize, now: String) -> Seq<Move> {
    pids.map_values(|pid: i64| fresh_move(rid, pid, Hand::Empty, now))
}

/// The roster rows of season `sid` carry distinct player ids.
pub open spec fn roster_unique(players: Seq<Player>, sid: usize) -> bool {
    forall|a: int, b: int|
        0 <= a < players.len() && 0 <= b < players.len() && (#[trigger] players[a]).season_id == sid
            && (#[trigger] players[b]).season_id == sid && players[a].player_id == players[b].player_id ==> a == b
}

pub proof fn lemma_forfeiters_facts(players: Seq<Player>, sid: usize, rid: usize, moves: Seq<Move>)
    requires
        roster_unique(players, sid),
    ensures
        forfeiters(players, sid, rid, moves).no_duplicates(),
        forall|x: i64| #[trigger] forfeiters(players, sid, rid, moves).contains(x) ==> !has_move(moves, rid, x)
            && on_roster(players, sid, x),
    decreases players.len(),
{
    if players.len() > 0 {
        let ps = players.drop_last();
        assert(roster_unique(ps, sid)) by {
            assert forall|a: int, b: int|
                0 <= a < ps.len() && 0 <= b < ps.len() && (#[trigger] ps[a]).season_id == sid
                    && (#[trigger] ps[b]).season_id == sid && ps[a].player_id == ps[b].player_id implies a == b by {
                assert(players[a] == ps[a] && players[b] == ps[b]);
            }
        }
        lemma_forfeiters_facts(ps, sid, rid, moves);
        let rest = forfeiters(ps, sid, rid, moves);
        let p = players.last();
        assert forall|x: i64| rest.contains(x) implies on_roster(players, sid, x) by {
            let k = choose|k: int| 0 <= k < ps.len() && (#[trigger] ps[k]).season_id == sid && ps[k].player_id == x;
            assert(players[k] == ps[k]);
        }
        if p.season_id == sid && !has_move(moves, rid, p.player_id) {
            assert(forfeiters(players, sid, rid, moves) == rest.push(p.player_id));
            if rest.contains(p.player_id) {
                let k = choose|k: int| 0 <= k < ps.len() && (#[trigger] ps[k]).season_id == sid && ps[k].player_id == p.player_id;
                assert(players[k] == ps[k]);
                assert(players[players.len() - 1] == p);
            }
            assert forall|x: i64| #[trigger] forfeiters(players, sid, rid, moves).contains(x) implies !has_move(moves, rid, x)
                && on_roster(players, sid, x) by {
                if x != p.player_id {
                    let k = choose|k: int| 0 <= k < rest.push(p.player_id).len() && rest.push(p.player_id)[k] == x;
                    assert(rest[k] == x);
                    assert(rest.contains(x));
                } else {
                    assert(players[players.len() - 1] == p);
                }
            }
        } else {
            assert(forfeiters(players, sid, rid, moves) == rest);
        }
    }
}

/// The forfeits of a round are exactly the roster players who did not
/// play: their number is the roster size less the number of roster players
/// who submitted a move, and after they are written every roster player
/// holds a move in the round.
pub proof fn lemma_forfeit_count(players: Seq<Player>, sid: usize, rid: usize, moves: Seq<Move>, now: String)
    requires
        roster_unique(players, sid),
    ensures
        forfeiters(players, sid, rid, moves).len() == roster_size(players, sid) - played_count(players, sid, rid, moves),
        forall|pid: i64| on_roster(players, sid, pid) ==> #[trigger] has_move(
            moves + forfeit_rows(forfeiters(players, sid, rid, moves), rid, now),
            rid,
            pid,
        ),
    decreases players.len(),
{
    let all = moves + forfeit_rows(forfeiters(players, sid, rid, moves), rid, now);
    let f = forfeiters(players, sid, rid, moves);
    if players.len() > 0 {
        let ps = players.drop_last();
        assert(roster_unique(ps, sid)) by {
            assert forall|a: int, b: int|
                0 <= a < ps.len() && 0 <= b < ps.len() && (#[trigger] ps[a]).season_id == sid
                    && (#[trigger] ps[b]).season_id == sid && ps[a].player_id == ps[b].player_id implies a == b by {
                assert(players[a] == ps[a] && players[b] == ps[b]);
            }
        }
        lemma_forfeit_count(ps, sid, rid, moves, now);
    }
    assert forall|pid: i64| on_roster(players, sid, pid) implies #[trigger] has_move(all, rid, pid) by {
        if has_move(moves, rid, pid) {
            let k = choose|k: int| 0 <= k < moves.len() && (#[trigger] moves[k]).round_id == rid && moves[k].player_id == pid;
            assert(all[k] == moves[k]);
        } else {
            lemma_forfeiters_contains(players, sid, rid, moves, pid);
            let j = choose|j: int| 0 <= j < f.len() && f[j] == pid;
            assert(all[moves.len() + j] == fresh_move(rid, pid, Hand::Empty, now));
        }
    }
}

proof fn lemma_forfeiters_contains(players: Seq<Player>, sid: usize, rid: usize, moves: Seq<Move>, pid: i64)
    requires
        on_roster(players, sid, pid),
        !has_move(moves, rid, pid),
    ensures
        forfeiters(players, sid, rid, moves).contains(pid),
    decreases players.len(),
{
    let ps = players.drop_last();
    let rest = forfeiters(ps, sid, rid, moves);
    if players.last().season_id == sid && players.last().player_id == pid {
        assert(forfeiters(players, sid, rid, moves) == rest.push(pid));
        assert(forfeiters(players, sid, rid, moves)[rest.len() as int] == pid);
    } else {
        let k = choose|k: int| 0 <= k < players.len() && (#[trigger] players[k]).season_id == sid && players[k].player_id == pid;
        assert(k < ps.len());
        assert(ps[k] == players[k]);
        lemma_forfeiters_contains(ps, sid, rid, moves, pid);
        let j = choose|j: int| 0 <= j < rest.len() && rest[j] == pid;
        if players.last().season_id == sid && !has_move(moves, rid, players.last().player_id) {
            assert(forfeiters(players, sid, rid, moves)[j] == pid);
        }
    }
}

/// Only the first move of a player in a round counts: once it is stored,
/// the player holds a move in that round whatever rows follow, so every
/// later submission for the same round and player is refused and writes
/// nothing (see `insert_player_hand_choice`).
pub proof fn lemma_first_move_wins(moves: Seq<Move>, rid: usize, pid: i64, hand: Hand, now: String, later: Seq<Move>)
    ensures
        has_move(moves.push(fresh_move(rid, pid, hand, now)) + later, rid, pid),
{
    let all = moves.push(fresh_move(rid, pid, hand, now)) + later;
    assert(all[moves.len() as int] == fresh_move(rid, pid, hand, now));
}

/// The move table after player `pid` submits `hand` in round `rid` at
/// `now`: the move is added only when the player holds none in that round.
pub open spec fn after_submission(moves: Seq<Move>, rid: usize, pid: i64, hand: Hand, now: String) -> Seq<Move> {
    if has_move(moves, rid, pid) {
        moves
    } else {
        moves.push(fresh_move(rid, pid, hand, now))
    }
}

/// The move table after a run of submissions by one player in one round,
/// in order; each is a hand and the time it came.
pub open spec fn after_submissions(moves: Seq<Move>, rid: usize, pid: i64, subs: Seq<(Hand, String)>) -> Seq<Move>
    decreases subs.len(),
{
    if subs.len() == 0 {
        moves
    } else {
        after_submissions(after_submission(moves, rid, pid, subs[0].0, subs[0].1), rid, pid, subs.drop_first())
    }
}

/// How many moves player `pid` holds in round `rid`.
pub open spec fn move_count(moves: Seq<Move>, rid: usize, pid: i64) -> nat
    decreases moves.len(),
{
    if moves.len() == 0 {
        0
    } else {
        move_count(moves.drop_last(), rid, pid) + if moves.last().round_id == rid && moves.last().player_id == pid {
            1nat
        } else {
            0
        }
    }
}

proof fn lemma_no_move_count(moves: Seq<Move>, rid: usize, pid: i64)
    requires
        !has_move(moves, rid, pid),
    ensures
        move_count(moves, rid, pid) == 0,
    decreases moves.len(),
{
    if moves.len() > 0 {
        let ms = moves.drop_last();
        assert(!has_move(ms, rid, pid)) by {
            if has_move(ms, rid, pid) {
                let k = choose|k: int| 0 <= k < ms.len() && (#[trigger] ms[k]).round_id == rid && ms[k].player_id == pid;
                assert(moves[k] == ms[k]);
            }
        }
        lemma_no_move_count(ms, rid, pid);
        assert(moves[moves.len() - 1] == moves.last());
    }
}

proof fn lemma_held_move_stays(moves: Seq<Move>, rid: usize, pid: i64, subs: Seq<(Hand, String)>)
    requires
        has_move(moves, rid, pid),
    ensures
        after_submissions(moves, rid, pid, subs) == moves,
    decreases subs.len(),
{
    if subs.len() > 0 {
        lemma_held_move_stays(moves, rid, pid, subs.drop_first());
    }
}

/// Only the first of any run of submissions by one player in one round is
/// recorded: the player holds no move before it and one after it, so every
/// later submission is refused (`insert_player_hand_choice` returns
/// `false` then) and writes nothing; the round ends up with exactly one move
/// of the player, carrying the first hand.
pub proof fn lemma_submissions(moves: Seq<Move>, rid: usize, pid: i64, subs: Seq<(Hand, String)>)
    requires
        !has_move(moves, rid, pid),
        subs.len() >= 1,
    ensures
        after_submissions(moves, rid, pid, subs) == moves.push(fresh_move(rid, pid, subs[0].0, subs[0].1)),
        forall|i: int| 1 <= i < subs.len() ==> has_move(#[trigger] after_submissions(moves, rid, pid, subs.take(i)), rid, pid),
        move_count(after_submissions(moves, rid, pid, subs), rid, pid) == 1,
{
    let first = moves.push(fresh_move(rid, pid, subs[0].0, subs[0].1));
    lemma_first_move_wins(moves, rid, pid, subs[0].0, subs[0].1, Seq::empty());
    assert(first + Seq::<Move>::empty() =~= first);
    lemma_held_move_stays(first, rid, pid, subs.drop_first());
    assert forall|i: int| 1 <= i < subs.len() implies has_move(#[trigger] after_submissions(moves, rid, pid, subs.take(i)), rid, pid) by {
        let t = subs.take(i);
        assert(t[0] == subs[0]);
        lemma_held_move_stays(first, rid, pid, t.drop_first());
    }
    lemma_no_move_count(moves, rid, pid);
    assert(first.drop_last() =~= moves);
}

impl Tournament {
    /// Every table but the moves is the same in `self` and `other`.
    pub open spec fn same_but_moves(&self, other: &Tournament) -> bool {
        &&& self.seasons@ == other.seasons@
        &&& self.candidates@ == other.candidates@
        &&& self.players@ == other.players@
        &&& self.rounds@ == other.rounds@
        &&& self.admins == other.admins
        &&& self.broadcast_channel == other.broadcast_channel
        &&& self.group_channel == other.group_channel
    }

    /// Finds whether player `player_id` holds a move in round `round_id`.
    pub fn has_played(&self, round_id: usize, player_id: i64) -> (r: bool)
        ensures
            r == has_move(self.moves@, round_id, player_id),
    {
        let mut i: usize = 0;
        while i < self.moves.len()
            invariant
                i <= self.moves@.len(),
                forall|k: int| 0 <= k < i ==> !((#[trigger] self.moves@[k]).round_id == round_id
                    && self.moves@[k].player_id == player_id),
            decreases self.moves@.len() - i,
        {
            if self.moves[i].round_id == round_id && self.moves[i].player_id == player_id {
                return true;
            }
            i += 1;
        }
        false
    }

    /// Records `hand` as player `player_id`'s move in round `round_id`. The
    /// first move of a player in a round wins: a later one is refused
    /// (`false`) and writes nothing.
    pub fn insert_player_hand_choice(&mut self, round_id: usize, player_id: i64, hand: Hand, now: String) -> (r: bool)
        requires
            old(self).wf(),
        ensures
            final(self).wf(),
            r == !has_move(old(self).moves@, round_id, player_id),
            !r ==> *final(self) == *old(self),
            final(self).moves@ == after_submission(old(self).moves@, round_id, player_id, hand, now),
            r ==> final(self).moves@ == old(self).moves@.push(fresh_move(round_id, player_id, hand, now))
                && final(self).same_but_moves(old(self)),
    {
        if self.has_played(round_id, player_id) {
            return false;
        }
        let ghost before = *self;
        self.moves.push(Move {
            round_id,
            player_id,
            hand,
            opponent: None,
            opponent_hand: None,
            game_status: None,
            player_username: None,
            opponent_username: None,
            timestamp: now,
        });
        proof {
            assert forall|a: int, b: int|
                0 <= a < self.moves@.len() && 0 <= b < self.moves@.len() && (#[trigger] self.moves@[a]).round_id
                    == (#[trigger] self.moves@[b]).round_id && self.moves@[a].player_id == self.moves@[b].player_id
                    implies a == b by {
                if a < before.moves@.len() {
                    assert(before.moves@[a] == self.moves@[a]);
                }
                if b < before.moves@.len() {
                    assert(before.moves@[b] == self.moves@[b]);
                }
            }
            before.lemma_roster_frame(self);
        }
        true
    }

    /// Whether player `player_id` is on the roster of season `season_id`.
    pub fn check_player_in_game(&self, player_id: i64, season_id: usize) -> (r: bool)
        ensures
            r == on_roster(self.players@, season_id, player_id),
    {
        let mut i: usize = 0;
        while i < self.players.len()
            invariant
                i <= self.players@.len(),
                forall|k: int| 0 <= k < i ==> !((#[trigger] self.players@[k]).season_id == season_id
                    && self.players@[k].player_id == player_id),
            decreases self.players@.len() - i,
        {
            if self.players[i].season_id == season_id && self.players[i].player_id == player_id {
                return true;
            }
            i += 1;
        }
        false
    }

    /// The (player, hand) pairs of round `round_id`, provided it belongs to
    /// season `season_id` (none otherwise).
    pub fn get_player_hands(&self, round_id: usize, season_id: usize) -> (r: Vec<(i64, Hand)>)
        ensures
            1 <= round_id <= self.rounds@.len() && self.rounds@[round_id - 1].season_id == season_id ==> r@
                == hands_of(self.moves@, round_id),
            !(1 <= round_id <= self.rounds@.len() && self.rounds@[round_id - 1].season_id == season_id) ==> r@.len()
                == 0,
    {
        let mut r: Vec<(i64, Hand)> = Vec::new();
        if round_id == 0 || round_id > self.rounds.len() || self.rounds[round_id - 1].season_id != season_id {
            return r;
        }
        let mut i: usize = 0;
        while i < self.moves.len()
            invariant
                i <= self.moves@.len(),
                r@ == hands_of(self.moves@.take(i as int), round_id),
            decreases self.moves@.len() - i,
        {
            assert(self.moves@.take(i + 1).drop_last() =~= self.moves@.take(i as int));
            if self.moves[i].round_id == round_id {
                r.push((self.moves[i].player_id, self.moves[i].hand));
            }
            i += 1;
        }
        assert(self.moves@.take(i as int) =~= self.moves@);
        r
    }
    /// Writes an empty-hand move for every roster player of season
    /// `season_id` who has no move in round `round_id`, and returns their
    /// ids in roster order.
    pub fn play_empty_hands_for_players(&mut self, season_id: usize, round_id: usize, now: String) -> (r: Vec<i64>)
        requires
            old(self).wf(),
        ensures
            final(self).wf(),
            r@ == forfeiters(old(self).players@, season_id, round_id, old(self).moves@),
            final(self).moves@ == old(self).moves@ + forfeit_rows(r@, round_id, now),
            final(self).same_but_moves(old(self)),
    {
        let mut ids: Vec<i64> = Vec::new();
        let mut i: usize = 0;
        while i < self.players.len()
            invariant
                i <= self.players@.len(),
                ids@ == forfeiters(self.players@.take(i as int), season_id, round_id, self.moves@),
            decreases self.players@.len() - i,
        {
            assert(self.players@.take(i + 1).drop_last() =~= self.players@.take(i as int));
            if self.players[i].season_id == season_id && !self.has_played(round_id, self.players[i].player_id) {
                ids.push(self.players[i].player_id);
            }
            i += 1;
        }
        assert(self.players@.take(i as int) =~= self.players@);
        let ghost before = *self;
        proof {
            assert(roster_unique(before.players@, season_id)) by {
                assert(before.roster_wf());
            }
            lemma_forfeiters_facts(before.players@, season_id, round_id, before.moves@);
        }
        let mut j: usize = 0;
        while j < ids.len()
            invariant
                before.wf(),
                ids@ == forfeiters(before.players@, season_id, round_id, before.moves@),
                ids@.no_duplicates(),
                forall|x: i64| #[trigger] ids@.contains(x) ==> !has_move(before.moves@, round_id, x),
                j <= ids@.len(),
                self.moves@ == before.moves@ + forfeit_rows(ids@.take(j as int), round_id, now),
                self.same_but_moves(&before),
                self.moves_wf(),
            decreases ids@.len() - j,
        {
            let ghost prev = self.moves@;
            let pid = ids[j];
            self.moves.push(Move {
                round_id,
                player_id: pid,
                hand: Hand::Empty,
                opponent: None,
                opponent_hand: None,
                game_status: None,
                player_username: None,
                opponent_username: None,
                timestamp: now.clone(),
            });
            proof {
                assert(forfeit_rows(ids@.take(j + 1), round_id, now) =~= forfeit_rows(ids@.take(j as int), round_id, now).push(
                    fresh_move(round_id, pid, Hand::Empty, now),
                ));
                assert(self.moves@ =~= before.moves@ + forfeit_rows(ids@.take(j + 1), round_id, now));
                assert(ids@.contains(pid));
                assert forall|k: int| 0 <= k < prev.len() implies !((#[trigger] prev[k]).round_id == round_id
                    && prev[k].player_id == pid) by {
                    if k < before.moves@.len() {
                        assert(prev[k] == before.moves@[k]);
                    } else {
                        let q = k - before.moves@.len();
                        assert(prev[k] == fresh_move(round_id, ids@[q], Hand::Empty, now));
                        assert(ids@[q] != ids@[j as int]);
                    }
                }
                assert forall|a: int, b: int|
                    0 <= a < self.moves@.len() && 0 <= b < self.moves@.len() && (#[trigger] self.moves@[a]).round_id
                        == (#[trigger] self.moves@[b]).round_id && self.moves@[a].player_id == self.moves@[b].player_id
                        implies a == b by {
                    if a < prev.len() {
                        assert(prev[a] == self.moves@[a]);
                    }
                    if b < prev.len() {
                        assert(prev[b] == self.moves@[b]);
                    }
                }
            }
            j += 1;
        }
        assert(ids@.take(j as int) =~= ids@);
        proof {
            before.lemma_roster_frame(self);
        }
        ids
    }
}

} // verus!
