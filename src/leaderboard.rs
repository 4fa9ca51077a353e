use vstd::prelude::*;
use vstd::string::StringExecFns;
use crate::moves::roster_size;
use crate::store::{Player, Tournament};
use crate::text::{decimal, decimal_text, signed_decimal, signed_text};

verus! {

/// One line of the standings.
pub struct LeaderEntry {
    pub player_id: i64,
    pub username: String,
    pub score: i64,
}

/// Standings order: higher score first, then lower player id.
pub open spec fn ranks_before(a: LeaderEntry, b: LeaderEntry) -> bool {
    a.score > b.score || (a.score == b.score && a.player_id < b.player_id)
}

/// Entry `e` shows roster row `p`.
pub open spec fn shows(e: LeaderEntry, p: Player) -> bool {
    e.player_id == p.player_id && e.username@ == p.username@ && e.score == p.score
}

/// No entry of `s` ranks before an earlier one.
pub open spec fn in_rank_order(s: Seq<LeaderEntry>) -> bool {
    forall|i: int, j: int| 0 <= i < j < s.len() ==> !ranks_before(#[trigger] s[j], #[trigger] s[i])
}

/// Some entry of `s` shows roster row `p`.
pub open spec fn shown_in(s: Seq<LeaderEntry>, p: Player) -> bool {
    exists|j: int| 0 <= j < s.len() && shows(s[j], p)
}

/// Entry `e` shows one of the first `i` roster rows, one of season `sid`.
pub open spec fn from_roster(players: Seq<Player>, sid: usize, i: int, e: LeaderEntry) -> bool {
    exists|k: int| 0 <= k < i && players[k].season_id == sid && shows(e, players[k])
}

/// The standings of season `sid`: one entry per roster row, nothing else.
pub open spec fn is_standings(s: Seq<LeaderEntry>, players: Seq<Player>, sid: usize) -> bool {
    &&& s.len() == roster_size(players, sid)
    &&& forall|k: int| 0 <= k < players.len() && (#[trigger] players[k]).season_id == sid ==> shown_in(s, players[k])
    &&& forall|j: int| 0 <= j < s.len() ==> from_roster(players, sid, players.len() as int, #[trigger] s[j])
    &&& in_rank_order(s)
}

/// The standings title, with one line per entry: rank, username, points.
pub open spec fn standings_lines(s: Seq<LeaderEntry>) -> Seq<char>
    decreases s.len(),
{
    if s.len() == 0 {
        Seq::empty()
    } else {
        let e = s.last();
        standings_lines(s.drop_last()) + decimal_text(s.len()) + ". @"@ + e.username@ + " - "@ + signed_text(
            e.score as int,
        ) + " points\n"@
    }
}

/// The standings text under a title line.
pub open spec fn standings_text(title: Seq<char>, s: Seq<LeaderEntry>) -> Seq<char> {
    title + "\n"@ + standings_lines(s)
}

/// The title of the running standings.
pub open spec fn board_title() -> Seq<char> {
    "🏆 Leaderboard 🏆"@
}

/// The title of the final standings of a season.
pub open spec fn final_title(name: Seq<char>) -> Seq<char> {
    "🏆 Final "@ + name + " Leaderboard 🏆"@
}

proof fn lemma_roster_size_prefix(players: Seq<Player>, sid: usize, i: int)
    requires
        0 <= i < players.len(),
    ensures
        roster_size(players.take(i + 1), sid) == roster_size(players.take(i), sid) + if players[i].season_id == sid { 1int } else { 0 },
{
    assert(players.take(i + 1).drop_last() =~= players.take(i));
}

/// `s` lists exactly the roster rows of season `sid` among the first `i` rows.
pub open spec fn lists_prefix(s: Seq<LeaderEntry>, players: Seq<Player>, sid: usize, i: int) -> bool {
    &&& s.len() == roster_size(players.take(i), sid)
    &&& forall|k: int| 0 <= k < i && (#[trigger] players[k]).season_id == sid ==> shown_in(s, players[k])
    &&& forall|j: int| 0 <= j < s.len() ==> from_roster(players, sid, i, #[trigger] s[j])
}

proof fn lemma_lists_skip(s: Seq<LeaderEntry>, players: Seq<Player>, sid: usize, i: int)
    requires
        0 <= i < players.len(),
        players[i].season_id != sid,
        lists_prefix(s, players, sid, i),
    ensures
        lists_prefix(s, players, sid, i + 1),
{
    lemma_roster_size_prefix(players, sid, i);
    assert forall|j: int| 0 <= j < s.len() implies from_roster(players, sid, i + 1, #[trigger] s[j]) by {
        assert(from_roster(players, sid, i, s[j]));
        let k = choose|k: int| 0 <= k < i && players[k].season_id == sid && shows(s[j], players[k]);
    }
}

proof fn lemma_lists_insert(prev: Seq<LeaderEntry>, out: Seq<LeaderEntry>, e: LeaderEntry, pos: int, players: Seq<Player>, sid: usize, i: int)
    requires
        0 <= i < players.len(),
        players[i].season_id == sid,
        shows(e, players[i]),
        lists_prefix(prev, players, sid, i),
        0 <= pos <= prev.len(),
        out == prev.insert(pos, e),
    ensures
        lists_prefix(out, players, sid, i + 1),
{
    lemma_roster_size_prefix(players, sid, i);
    assert forall|k: int| 0 <= k < i + 1 && (#[trigger] players[k]).season_id == sid implies shown_in(out, players[k]) by {
        if k == i {
            assert(out[pos] == e);
            assert(shows(out[pos], players[k]));
        } else {
            assert(shown_in(prev, players[k]));
            let j = choose|j: int| 0 <= j < prev.len() && shows(prev[j], players[k]);
            if j < pos {
                assert(out[j] == prev[j]);
                assert(shows(out[j], players[k]));
            } else {
                assert(out[j + 1] == prev[j]);
                assert(shows(out[j + 1], players[k]));
            }
        }
    }
    assert forall|j: int| 0 <= j < out.len() implies from_roster(players, sid, i + 1, #[trigger] out[j]) by {
        if j == pos {
            assert(out[j] == e);
            assert(shows(out[j], players[i]));
        } else {
            let jj = if j < pos { j } else { j - 1 };
            assert(out[j] == prev[jj]);
            assert(from_roster(players, sid, i, prev[jj]));
            let k = choose|k: int| 0 <= k < i && players[k].season_id == sid && shows(prev[jj], players[k]);
            assert(shows(out[j], players[k]));
        }
    }
}

impl Tournament {
    /// The roster of season `season_id` from the highest score down; equal
    /// scores are listed by player id, lowest first.
    pub fn fetch_leaderboard(&self, season_id: usize) -> (r: Vec<LeaderEntry>)
        ensures
            is_standings(r@, self.players@, season_id),
    {
        let mut out: Vec<LeaderEntry> = Vec::new();
        let mut i: usize = 0;
        assert(lists_prefix(out@, self.players@, season_id, 0)) by {
            assert(self.players@.take(0) =~= Seq::<Player>::empty());
        }
        while i < self.players.len()
            invariant
                i <= self.players@.len(),
                lists_prefix(out@, self.players@, season_id, i as int),
                in_rank_order(out@),
            decreases self.players@.len() - i,
        {
            if self.players[i].season_id == season_id {
                let e = LeaderEntry {
                    player_id: self.players[i].player_id,
                    username: self.players[i].username.clone(),
                    score: self.players[i].score,
                };
                let ghost prev = out@;
                let ghost eg = e;
                insert_ranked(&mut out, e);
                proof {
                    let pos = choose|pos: int| 0 <= pos <= prev.len() && out@ == prev.insert(pos, eg);
                    lemma_lists_insert(prev, out@, eg, pos, self.players@, season_id, i as int);
                }
            } else {
                proof {
                    lemma_lists_skip(out@, self.players@, season_id, i as int);
                }
            }
            i += 1;
        }
        assert(self.players@.take(i as int) =~= self.players@);
        out
    }
}

/// Inserts `e` into standings kept in rank order, keeping the order.
fn insert_ranked(out: &mut Vec<LeaderEntry>, e: LeaderEntry)
    requires
        in_rank_order(old(out)@),
    ensures
        in_rank_order(final(out)@),
        exists|pos: int| 0 <= pos <= old(out)@.len() && final(out)@ == old(out)@.insert(pos, e),
{
    let mut pos: usize = 0;
    while pos < out.len() && !ranks_before_exec(&e, &out[pos])
        invariant
            pos <= out@.len(),
            forall|q: int| 0 <= q < pos ==> !ranks_before(e, #[trigger] out@[q]),
        decreases out@.len() - pos,
    {
        pos += 1;
    }
    let ghost prev = out@;
    out.insert(pos, e);
    proof {
        assert(out@ == prev.insert(pos as int, e));
        assert forall|a: int, b: int| 0 <= a < b < out@.len() implies !ranks_before(#[trigger] out@[b], #[trigger] out@[a]) by {
            if a < pos && b < pos {
                assert(out@[a] == prev[a] && out@[b] == prev[b]);
            } else if a < pos && b == pos {
                assert(out@[a] == prev[a]);
            } else if a < pos {
                assert(out@[a] == prev[a] && out@[b] == prev[b - 1]);
                assert(ranks_before(e, prev[pos as int]));
                assert(!ranks_before(prev[b - 1], prev[pos as int]) || b - 1 == pos);
            } else if a == pos {
                assert(out@[b] == prev[b - 1]);
                assert(ranks_before(e, prev[pos as int]));
                assert(!ranks_before(prev[b - 1], prev[pos as int]) || b - 1 == pos);
            } else {
                assert(out@[a] == prev[a - 1] && out@[b] == prev[b - 1]);
            }
        }
    }
}

/// Whether entry `a` ranks before entry `b`.
fn ranks_before_exec(a: &LeaderEntry, b: &LeaderEntry) -> (r: bool)
    ensures
        r == ranks_before(*a, *b),
{
    a.score > b.score || (a.score == b.score && a.player_id < b.player_id)
}

/// The standings under a given title line.
pub fn render_leaderboard(title: &str, leaderboard: &Vec<LeaderEntry>) -> (r: String)
    ensures
        r@ == standings_text(title@, leaderboard@),
{
    let mut out = String::from_str(title).concat("\n");
    let mut i: usize = 0;
    while i < leaderboard.len()
        invariant
            i <= leaderboard@.len(),
            out@ == title@ + "\n"@ + standings_lines(leaderboard@.take(i as int)),
        decreases leaderboard@.len() - i,
    {
        let e = &leaderboard[i];
        assert(leaderboard@.take(i + 1).drop_last() =~= leaderboard@.take(i as int));
        let rank = decimal((i + 1) as u64);
        out.append(rank.as_str());
        out.append(". @");
        out.append(e.username.as_str());
        out.append(" - ");
        out.append(signed_decimal(e.score).as_str());
        out.append(" points\n");
        proof {
            assert(leaderboard@.take(i + 1).last() == *e);
            assert(out@ =~= title@ + "\n"@ + standings_lines(leaderboard@.take(i + 1)));
        }
        i += 1;
    }
    assert(leaderboard@.take(i as int) =~= leaderboard@);
    out
}

/// The running standings.
pub fn prepare_leaderboard_string(leaderboard: &Vec<LeaderEntry>) -> (r: String)
    ensures
        r@ == standings_text(board_title(), leaderboard@),
{
    proof {
        reveal_strlit("🏆 Leaderboard 🏆");
    }
    render_leaderboard("🏆 Leaderboard 🏆", leaderboard)
}

/// The final standings of the season named `season_name`.
pub fn final_leaderboard_string(season_name: &str, leaderboard: &Vec<LeaderEntry>) -> (r: String)
    ensures
        r@ == standings_text(final_title(season_name@), leaderboard@),
{
    let title = String::from_str("🏆 Final ").concat(season_name).concat(" Leaderboard 🏆");
    render_leaderboard(title.as_str(), leaderboard)
}

} // verus!
