use vstd::prelude::*;
use vstd::string::StringExecFns;
use crate::error::TourError;
use crate::hand::{Hand, Outcome};
use crate::scoring::{roster_name, results_on_roster, MatchResult};
use crate::store::{Candidate, CandidateStatus, Tournament};

verus! {

/// The text of a decimal digit.
pub open spec fn digit_text(d: nat) -> Seq<char> {
    if d == 0 { "0"@ } else if d == 1 { "1"@ } else if d == 2 { "2"@ } else if d == 3 { "3"@ } else if d == 4 {
        "4"@
    } else if d == 5 { "5"@ } else if d == 6 { "6"@ } else if d == 7 { "7"@ } else if d == 8 { "8"@ } else { "9"@ }
}

/// The decimal text of a natural number.
pub open spec fn decimal_text(n: nat) -> Seq<char>
    decreases n,
{
    if n < 10 {
        digit_text(n)
    } else {
        decimal_text(n / 10) + digit_text(n % 10)
    }
}

/// The decimal text of an integer, with a minus sign when negative.
pub open spec fn signed_text(n: int) -> Seq<char> {
    if n < 0 {
        "-"@ + decimal_text((-n) as nat)
    } else {
        decimal_text(n as nat)
    }
}

fn digit_str(d: u64) -> (r: &'static str)
    requires
        d < 10,
    ensures
        r@ == digit_text(d as nat),
{
    if d == 0 { "0" } else if d == 1 { "1" } else if d == 2 { "2" } else if d == 3 { "3" } else if d == 4 {
        "4"
    } else if d == 5 { "5" } else if d == 6 { "6" } else if d == 7 { "7" } else if d == 8 { "8" } else { "9" }
}

/// The decimal text of `n`.
pub fn decimal(n: u64) -> (r: String)
    ensures
        r@ == decimal_text(n as nat),
    decreases n,
{
    if n < 10 {
        String::from_str(digit_str(n))
    } else {
        let high = decimal(n / 10);
        high.concat(digit_str(n % 10))
    }
}

/// The decimal text of `n`, signed.
pub fn signed_decimal(n: i64) -> (r: String)
    ensures
        r@ == signed_text(n as int),
{
    if n < 0 {
        let magnitude: u64 = if n == i64::MIN { 9223372036854775808u64 } else { (-n) as u64 };
        String::from_str("-").concat(decimal(magnitude).as_str())
    } else {
        decimal(n as u64)
    }
}

/// The symbol shown for a hand.
pub open spec fn emoji_text(h: Hand) -> Seq<char> {
    match h {
        Hand::Rock => "🪨"@,
        Hand::Paper => "📜"@,
        Hand::Scissors => "✂️"@,
        Hand::Empty => "🚫"@,
    }
}

/// The symbol shown for a hand.
pub fn hand_to_emoji(hand: Hand) -> (r: &'static str)
    ensures
        r@ == emoji_text(hand),
{
    match hand {
        Hand::Rock => "🪨",
        Hand::Paper => "📜",
        Hand::Scissors => "✂️",
        Hand::Empty => "🚫",
    }
}

/// The stored name of a hand; a forfeit is stored as the empty string.
pub open spec fn hand_text(h: Hand) -> Seq<char> {
    match h {
        Hand::Rock => "rock"@,
        Hand::Paper => "paper"@,
        Hand::Scissors => "scissors"@,
        Hand::Empty => ""@,
    }
}

/// The stored name of a hand.
pub fn hand_name(hand: Hand) -> (r: &'static str)
    ensures
        r@ == hand_text(hand),
{
    match hand {
        Hand::Rock => "rock",
        Hand::Paper => "paper",
        Hand::Scissors => "scissors",
        Hand::Empty => "",
    }
}

/// The hand with a stored name.
pub fn hand_from_name(name: &str) -> (r: Option<Hand>)
    ensures
        match r {
            Some(h) => hand_text(h) == name@,
            None => forall|h: Hand| hand_text(h) != name@,
        },
{
    let n = String::from_str(name);
    if n == String::from_str("rock") {
        Some(Hand::Rock)
    } else if n == String::from_str("paper") {
        Some(Hand::Paper)
    } else if n == String::from_str("scissors") {
        Some(Hand::Scissors)
    } else if n == String::from_str("") {
        Some(Hand::Empty)
    } else {
        None
    }
}

/// The announcement line of one result, given both usernames; a player
/// who forfeited (an empty hand) is announced as such whatever the outcome.
pub open spec fn result_line(r: MatchResult, p: Seq<char>, o: Seq<char>) -> Seq<char> {
    let pe = emoji_text(r.player_hand);
    let oe = emoji_text(r.opponent_hand);
    if r.player_hand == Hand::Empty {
        "@"@ + p + " did not play a hand and lost."@
    } else {
        match r.game_status {
            Outcome::Won => "@"@ + p + " played "@ + pe + " and won against @"@ + o + "'s "@ + oe,
            Outcome::Lost => "@"@ + p + " played "@ + pe + " and lost against @"@ + o + "'s "@ + oe,
            Outcome::Draw => "@"@ + p + " played "@ + pe + " and drew with @"@ + o + "'s "@ + oe,
        }
    }
}

/// The announcement of a list of results: one line each, in order.
pub open spec fn announcement_text(rs: Seq<MatchResult>, players: Seq<crate::store::Player>, sid: usize) -> Seq<char>
    decreases rs.len(),
{
    if rs.len() == 0 {
        Seq::empty()
    } else {
        let r = rs.last();
        announcement_text(rs.drop_last(), players, sid) + result_line(
            r,
            roster_name(players, sid, r.player_id)@,
            roster_name(players, sid, r.opponent_id)@,
        ) + "\n"@
    }
}

/// Builds the announcement line of one result.
fn render_result(r: MatchResult, p: &String, o: &String) -> (s: String)
    ensures
        s@ == result_line(r, p@, o@),
{
    let pe = hand_to_emoji(r.player_hand);
    let oe = hand_to_emoji(r.opponent_hand);
    let head = String::from_str("@").concat(p.as_str());
    if r.player_hand == Hand::Empty {
        return head.concat(" did not play a hand and lost.");
    }
    match r.game_status {
        Outcome::Won => head.concat(" played ").concat(pe).concat(" and won against @").concat(o.as_str()).concat("'s ").concat(
            oe,
        ),
        Outcome::Lost => head.concat(" played ").concat(pe).concat(" and lost against @").concat(o.as_str()).concat("'s ").concat(
            oe,
        ),
        Outcome::Draw => head.concat(" played ").concat(pe).concat(" and drew with @").concat(o.as_str()).concat("'s ").concat(
            oe,
        ),
    }
}

impl Tournament {
    /// Narrates a round's results, one line per result, with the usernames
    /// of season `season_id`'s roster. Fails with `StoreError` when a
    /// result names a player off the roster.
    pub fn announce_results(&self, season_id: usize, match_results: &Vec<MatchResult>) -> (r: Result<String, TourError>)
        requires
            self.wf(),
        ensures
            (r is Ok) <==> results_on_roster(match_results@, self.players@, season_id),
            r matches Ok(s) ==> s@ == announcement_text(match_results@, self.players@, season_id),
            r is Err ==> r == Err::<String, TourError>(TourError::StoreError),
    {
        let mut out = String::new();
        let mut j: usize = 0;
        while j < match_results.len()
            invariant
                self.wf(),
                j <= match_results@.len(),
                results_on_roster(match_results@.take(j as int), self.players@, season_id),
                out@ == announcement_text(match_results@.take(j as int), self.players@, season_id),
            decreases match_results@.len() - j,
        {
            let r = match_results[j];
            assert(match_results@.take(j + 1).drop_last() =~= match_results@.take(j as int));
            let a = match self.find_roster(season_id, r.player_id) {
                Some(a) => a,
                None => {
                    assert(!results_on_roster(match_results@, self.players@, season_id)) by {
                        assert(match_results@[j as int] == r);
                    }
                    return Err(TourError::StoreError);
                },
            };
            let b = match self.find_roster(season_id, r.opponent_id) {
                Some(b) => b,
                None => {
                    assert(!results_on_roster(match_results@, self.players@, season_id)) by {
                        assert(match_results@[j as int] == r);
                    }
                    return Err(TourError::StoreError);
                },
            };
            let line = render_result(r, &self.players[a].username, &self.players[b].username);
            out.append(line.as_str());
            out.append("\n");
            proof {
                let t = match_results@.take(j + 1);
                assert(t.last() == r);
                assert forall|q: int| 0 <= q < t.len() implies crate::moves::on_roster(self.players@, season_id, (#[trigger] t[q]).player_id)
                    && crate::moves::on_roster(self.players@, season_id, t[q].opponent_id) by {
                    if q < j {
                        assert(t[q] == match_results@.take(j as int)[q]);
                    }
                }
            }
            j += 1;
        }
        assert(match_results@.take(j as int) =~= match_results@);
        Ok(out)
    }
}

/// Which signups a listing shows.
#[derive(Debug, Clone, Copy, PartialEq, Eq, Structural)]
pub enum SignupFilter {
    All,
    Pending,
    Accepted,
    Refused,
}

/// The stored name of a signup status.
pub open spec fn candidate_status_text(st: CandidateStatus) -> Seq<char> {
    match st {
        CandidateStatus::Pending => "pending"@,
        CandidateStatus::Accepted => "accepted"@,
        CandidateStatus::Refused => "refused"@,
    }
}

/// The stored name of a signup status.
pub fn candidate_status_name(st: CandidateStatus) -> (r: &'static str)
    ensures
        r@ == candidate_status_text(st),
{
    match st {
        CandidateStatus::Pending => "pending",
        CandidateStatus::Accepted => "accepted",
        CandidateStatus::Refused => "refused",
    }
}

/// Signup `c` belongs to season `sid` and passes `filter`.
pub open spec fn listed(c: Candidate, sid: usize, filter: SignupFilter) -> bool {
    c.season_id == sid && match filter {
        SignupFilter::All => true,
        SignupFilter::Pending => c.status == CandidateStatus::Pending,
        SignupFilter::Accepted => c.status == CandidateStatus::Accepted,
        SignupFilter::Refused => c.status == CandidateStatus::Refused,
    }
}

/// One line per listed signup, each opened by a line break.
pub open spec fn signup_lines(cands: Seq<Candidate>, sid: usize, filter: SignupFilter) -> Seq<char>
    decreases cands.len(),
{
    if cands.len() == 0 {
        Seq::empty()
    } else {
        let c = cands.last();
        signup_lines(cands.drop_last(), sid, filter) + if listed(c, sid, filter) {
            "\n@"@ + c.username@ + " - "@ + candidate_status_text(c.status)
        } else {
            Seq::empty()
        }
    }
}

/// What the signup listing says: a header over the listed signups, or a
/// filter-specific note when there are none.
pub open spec fn signup_list_text(cands: Seq<Candidate>, sid: usize, filter: SignupFilter) -> Seq<char> {
    let lines = signup_lines(cands, sid, filter);
    if lines.len() == 0 {
        match filter {
            SignupFilter::All => "No player candidates have signed up yet."@,
            SignupFilter::Pending => "No player candidates found with status 'pending'."@,
            SignupFilter::Accepted => "No player candidates found with status 'accepted'."@,
            SignupFilter::Refused => "No player candidates found with status 'refused'."@,
        }
    } else {
        "List of players who have signed up:"@ + lines
    }
}

impl Tournament {
    /// Lists the signups of season `season_id` that pass `filter`, in
    /// signup order, one `@username - status` line each.
    pub fn get_signup_list_for_season(&self, season_id: usize, filter: SignupFilter) -> (r: String)
        ensures
            r@ == signup_list_text(self.candidates@, season_id, filter),
    {
        let mut lines = String::new();
        let mut any = false;
        let mut i: usize = 0;
        while i < self.candidates.len()
            invariant
                i <= self.candidates@.len(),
                any <==> lines@.len() > 0,
                lines@ == signup_lines(self.candidates@.take(i as int), season_id, filter),
            decreases self.candidates@.len() - i,
        {
            let c = &self.candidates[i];
            assert(self.candidates@.take(i + 1).drop_last() =~= self.candidates@.take(i as int));
            assert(self.candidates@.take(i + 1).last() == *c);
            let shown = c.season_id == season_id && match filter {
                SignupFilter::All => true,
                SignupFilter::Pending => c.status == CandidateStatus::Pending,
                SignupFilter::Accepted => c.status == CandidateStatus::Accepted,
                SignupFilter::Refused => c.status == CandidateStatus::Refused,
            };
            if shown {
                lines.append("\n@");
                lines.append(c.username.as_str());
                lines.append(" - ");
                lines.append(candidate_status_name(c.status));
                any = true;
                proof {
                    reveal_strlit("\n@");
                    reveal_strlit(" - ");
                }
            }
            proof {
                assert(lines@ =~= signup_lines(self.candidates@.take(i + 1), season_id, filter));
            }
            i += 1;
        }
        assert(self.candidates@.take(i as int) =~= self.candidates@);
        if !any {
            match filter {
                SignupFilter::All => String::from_str("No player candidates have signed up yet."),
                SignupFilter::Pending => String::from_str("No player candidates found with status 'pending'."),
                SignupFilter::Accepted => String::from_str("No player candidates found with status 'accepted'."),
                SignupFilter::Refused => String::from_str("No player candidates found with status 'refused'."),
            }
        } else {
            String::from_str("List of players who have signed up:").concat(lines.as_str())
        }
    }
}

/// The characters that MarkdownV2 reserves.
pub open spec fn markdown_reserved(c: char) -> bool {
    c == '_' || c == '*' || c == '[' || c == ']' || c == '(' || c == ')' || c == '~' || c == '`' || c == '>' || c == '#'
        || c == '+' || c == '-' || c == '=' || c == '|' || c == '{' || c == '}' || c == '.' || c == '!'
}

/// `s` with a backslash before every reserved character.
pub open spec fn escaped_text(s: Seq<char>) -> Seq<char>
    decreases s.len(),
{
    if s.len() == 0 {
        Seq::empty()
    } else {
        escaped_text(s.drop_last()) + if markdown_reserved(s.last()) {
            seq!['\\', s.last()]
        } else {
            seq![s.last()]
        }
    }
}

/// Escapes `s` for MarkdownV2 messages.
pub fn escape_markdown(s: &str) -> (r: String)
    ensures
        r@ == escaped_text(s@),
{
    let n = s.unicode_len();
    let mut out = String::new();
    let mut i: usize = 0;
    while i < n
        invariant
            n == s@.len(),
            i <= n,
            out@ == escaped_text(s@.take(i as int)),
        decreases n - i,
    {
        let c = s.get_char(i);
        assert(s@.take(i + 1).drop_last() =~= s@.take(i as int));
        assert(s@.take(i + 1).last() == c);
        if c == '_' || c == '*' || c == '[' || c == ']' || c == '(' || c == ')' || c == '~' || c == '`' || c == '>' || c
            == '#' || c == '+' || c == '-' || c == '=' || c == '|' || c == '{' || c == '}' || c == '.' || c == '!' {
            out.append("\\");
            proof {
                reveal_strlit("\\");
            }
        }
        out.append(s.substring_char(i, i + 1));
        proof {
            assert(s@.subrange(i as int, i + 1) =~= seq![c]);
            assert(out@ =~= escaped_text(s@.take(i + 1)));
        }
        i += 1;
    }
    assert(s@.take(n as int) =~= s@);
    out
}

/// The signup status with a stored name.
pub fn candidate_status_from_name(name: &str) -> (r: Option<CandidateStatus>)
    ensures
        match r {
            Some(st) => candidate_status_text(st) == name@,
            None => forall|st: CandidateStatus| candidate_status_text(st) != name@,
        },
{
    let n = String::from_str(name);
    if n == String::from_str("pending") {
        Some(CandidateStatus::Pending)
    } else if n == String::from_str("accepted") {
        Some(CandidateStatus::Accepted)
    } else if n == String::from_str("refused") {
        Some(CandidateStatus::Refused)
    } else {
        None
    }
}

/// The stored name of an outcome.
pub open spec fn outcome_text(o: Outcome) -> Seq<char> {
    match o {
        Outcome::Won => "won"@,
        Outcome::Lost => "lost"@,
        Outcome::Draw => "draw"@,
    }
}

/// The stored name of an outcome.
pub fn outcome_name(o: Outcome) -> (r: &'static str)
    ensures
        r@ == outcome_text(o),
{
    match o {
        Outcome::Won => "won",
        Outcome::Lost => "lost",
        Outcome::Draw => "draw",
    }
}

/// The outcome with a stored name.
pub fn outcome_from_name(name: &str) -> (r: Option<Outcome>)
    ensures
        match r {
            Some(o) => outcome_text(o) == name@,
            None => forall|o: Outcome| outcome_text(o) != name@,
        },
{
    let n = String::from_str(name);
    if n == String::from_str("won") {
        Some(Outcome::Won)
    } else if n == String::from_str("lost") {
        Some(Outcome::Lost)
    } else if n == String::from_str("draw") {
        Some(Outcome::Draw)
    } else {
        None
    }
}

} // verus!
