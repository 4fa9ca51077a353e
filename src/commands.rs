use vstd::prelude::*;
use vstd::string::StringExecFns;
use crate::admin::{add_admin, is_admin, is_authorized_sender, list_admins, names_of, remove_admin, without, CO_OWNER, DEVELOPER};
use crate::error::TourError;
use crate::hand::Hand;
use crate::leaderboard::{board_title, final_leaderboard_string, final_title, is_standings, prepare_leaderboard_string, standings_text, LeaderEntry};
use crate::moves::{fresh_move, has_move, on_roster};
use crate::parse::{int_text, parse_i32, parse_i64, split_words, words_of};
use crate::phase::{next_status, phase_allowed, refusal_message, refusal_text, status_name, status_text, PhaseOp, SeasonStatus};
use crate::registration::{decision_outcome, first_pending, signed_up};
use crate::resolver::{close_ready, lemma_closed_roster, round_closed, RoundClose};
use crate::round::{is_open_round_of, max_round_number};
use crate::season::{closed_row, phase_outcome, with_status};
use crate::store::{CandidateStatus, Player, Round, Tournament};
use crate::text::{announcement_text, signed_decimal, signed_text, signup_list_text, SignupFilter};

verus! {

/// A message to send: to the chat the command came from (`to` is `None`)
/// or straight to a player.
pub struct Reply {
    pub to: Option<i64>,
    pub text: String,
}

/// The replies are exactly one message, `t`, to the sender's chat.
pub open spec fn told(r: Seq<Reply>, t: Seq<char>) -> bool {
    r.len() == 1 && r[0].to is None && r[0].text@ == t
}

/// The sender may use administrator commands.
pub open spec fn admin_sender(t: Tournament, sender: Option<&str>) -> bool {
    match sender {
        Some(u) => u@ == DEVELOPER@ || u@ == CO_OWNER@ || t.admins@.contains(u@),
        None => false,
    }
}

/// One message to the sender's chat.
fn say(text: String) -> (r: Vec<Reply>)
    ensures
        told(r@, text@),
{
    let mut r: Vec<Reply> = Vec::new();
    r.push(Reply { to: None, text });
    r
}

/// One message to the sender's chat, from a literal.
fn say_str(text: &str) -> (r: Vec<Reply>)
    ensures
        told(r@, text@),
{
    say(String::from_str(text))
}

/// Adds an administrator, given as one username.
pub fn add_admin_command(t: &mut Tournament, sender: Option<&str>, username: &str) -> (r: Vec<Reply>)
    requires
        old(t).wf(),
    ensures
        final(t).wf(),
        !admin_sender(*old(t), sender) ==> r@.len() == 0 && *final(t) == *old(t),
        admin_sender(*old(t), sender) ==> {
            let w = words_of(username@);
            &&& w.len() == 0 ==> told(r@, "Please provide a non-empty username."@) && *final(t) == *old(t)
            &&& w.len() > 1 ==> told(r@, "Only one username please, no spaces."@) && *final(t) == *old(t)
            &&& w.len() == 1 && old(t).admins@.contains(w[0]) ==> told(r@, "@"@ + w[0] + " is already an admin."@)
                && *final(t) == *old(t)
            &&& w.len() == 1 && !old(t).admins@.contains(w[0]) ==> told(r@, "Added @"@ + w[0] + " to admin list."@)
                && final(t).admins@ == old(t).admins@.push(w[0])
        },
{
    if !is_authorized_sender(&t.admins, sender) {
        return Vec::new();
    }
    let words = split_words(username);
    if words.len() == 0 {
        return say_str("Please provide a non-empty username.");
    }
    if words.len() != 1 {
        return say_str("Only one username please, no spaces.");
    }
    let name = words[0].clone();
    assert(name@ == words_of(username@)[0]);
    if is_admin(&t.admins, name.as_str()) {
        return say(String::from_str("@").concat(name.as_str()).concat(" is already an admin."));
    }
    let text = String::from_str("Added @").concat(name.as_str()).concat(" to admin list.");
    add_admin(&mut t.admins, name);
    say(text)
}

/// Removes an administrator, given as one username.
pub fn remove_admin_command(t: &mut Tournament, sender: Option<&str>, username: &str) -> (r: Vec<Reply>)
    requires
        old(t).wf(),
    ensures
        final(t).wf(),
        !admin_sender(*old(t), sender) ==> r@.len() == 0 && *final(t) == *old(t),
        admin_sender(*old(t), sender) ==> {
            let w = words_of(username@);
            &&& w.len() == 0 ==> told(r@, "Your command is empty, we need 1 username here."@) && *final(t) == *old(t)
            &&& w.len() > 1 ==> told(r@, "Only one username please, no spaces."@) && *final(t) == *old(t)
            &&& w.len() == 1 && !old(t).admins@.contains(w[0]) ==> told(r@, "User @"@ + w[0] + " is not in the admin list."@)
                && *final(t) == *old(t)
            &&& w.len() == 1 && old(t).admins@.contains(w[0]) ==> told(r@, "Removed @"@ + w[0] + " from admin list."@)
                && final(t).admins@ == without(old(t).admins@, w[0])
        },
{
    if !is_authorized_sender(&t.admins, sender) {
        return Vec::new();
    }
    let words = split_words(username);
    if words.len() == 0 {
        return say_str("Your command is empty, we need 1 username here.");
    }
    if words.len() != 1 {
        return say_str("Only one username please, no spaces.");
    }
    let name = words[0].clone();
    assert(name@ == words_of(username@)[0]);
    if !is_admin(&t.admins, name.as_str()) {
        return say(String::from_str("User @").concat(name.as_str()).concat(" is not in the admin list."));
    }
    remove_admin(&mut t.admins, name.as_str());
    say(String::from_str("Removed @").concat(name.as_str()).concat(" from admin list."))
}

/// The administrator list text: a title, then one `@name` line each.
pub open spec fn admin_lines(names: Seq<Seq<char>>) -> Seq<char>
    decreases names.len(),
{
    if names.len() == 0 {
        Seq::empty()
    } else {
        admin_lines(names.drop_last()) + "@"@ + names.last() + "\n"@
    }
}

/// Lists the administrators.
pub fn list_admins_command(t: &Tournament, sender: Option<&str>) -> (r: Vec<Reply>)
    ensures
        !admin_sender(*t, sender) ==> r@.len() == 0,
        admin_sender(*t, sender) ==> told(r@, "Admins:\n"@ + admin_lines(t.admins@)),
{
    if !is_authorized_sender(&t.admins, sender) {
        return Vec::new();
    }
    let admins = list_admins(&t.admins);
    let mut text = String::from_str("Admins:\n");
    let mut i: usize = 0;
    while i < admins.len()
        invariant
            i <= admins@.len(),
            names_of(admins@) == t.admins@,
            text@ == "Admins:\n"@ + admin_lines(names_of(admins@).take(i as int)),
        decreases admins@.len() - i,
    {
        assert(names_of(admins@).take(i + 1).drop_last() =~= names_of(admins@).take(i as int));
        text.append("@");
        text.append(admins[i].as_str());
        text.append("\n");
        proof {
            assert(names_of(admins@).take(i + 1).last() == admins@[i as int]@);
            assert(text@ =~= "Admins:\n"@ + admin_lines(names_of(admins@).take(i + 1)));
        }
        i += 1;
    }
    assert(names_of(admins@).take(i as int) =~= names_of(admins@));
    say(text)
}

/// A short description of an error, for failure messages.
pub open spec fn error_text(e: TourError) -> Seq<char> {
    match e {
        TourError::AlreadyActive => "a season is already active"@,
        TourError::NoActiveSeason => "there is no active season"@,
        TourError::InvalidPhaseTransition => "the phase change is not allowed now"@,
        TourError::AlreadySignedUp => "the player has already signed up"@,
        TourError::NoPendingCandidate => "no pending candidate has that username"@,
        TourError::WrongPhase => "the season is not in the right phase"@,
        TourError::StoreError => "the store could not take the change"@,
    }
}

/// A short description of an error, for failure messages.
pub fn error_message(e: TourError) -> (r: &'static str)
    ensures
        r@ == error_text(e),
{
    match e {
        TourError::AlreadyActive => "a season is already active",
        TourError::NoActiveSeason => "there is no active season",
        TourError::InvalidPhaseTransition => "the phase change is not allowed now",
        TourError::AlreadySignedUp => "the player has already signed up",
        TourError::NoPendingCandidate => "no pending candidate has that username",
        TourError::WrongPhase => "the season is not in the right phase",
        TourError::StoreError => "the store could not take the change",
    }
}

/// Starts a season from `<Title> <Number of Players>`.
pub fn start_new_season_command(t: &mut Tournament, sender: Option<&str>, season_info: &str, now: String) -> (r: Vec<Reply>)
    requires
        old(t).wf(),
    ensures
        final(t).wf(),
        !admin_sender(*old(t), sender) ==> r@.len() == 0 && *final(t) == *old(t),
        admin_sender(*old(t), sender) ==> {
            let w = words_of(season_info@);
            &&& w.len() != 2 ==> told(r@, "The command should be used like this '/startnewseason <Title> <Number of Players>'."@)
                && *final(t) == *old(t)
            &&& w.len() == 2 && !(int_text(w[1]) matches Some(v) && i32::MIN <= v <= i32::MAX) ==> told(
                r@,
                "Invalid number format for max players."@,
            ) && *final(t) == *old(t)
            &&& w.len() == 2 && (int_text(w[1]) matches Some(v) && i32::MIN <= v <= i32::MAX) && old(t).has_active()
                ==> told(
                r@,
                "A season is already in progress: '"@ + old(t).active_season().name@
                    + "'. Another season cannot be started until the current one is concluded."@,
            ) && *final(t) == *old(t)
            &&& w.len() == 2 && (int_text(w[1]) matches Some(v) && i32::MIN <= v <= i32::MAX) && !old(t).has_active()
                && old(t).seasons@.len() < usize::MAX ==> {
                &&& told(
                    r@,
                    "A new rock-paper-scissors season '"@ + w[0] + "' has started! Maximum players allowed: "@
                        + signed_text(int_text(w[1])->0) + ". Let the games begin."@,
                )
                &&& final(t).seasons@.len() == old(t).seasons@.len() + 1
                &&& final(t).seasons@.drop_last() == old(t).seasons@
                &&& final(t).seasons@.last().id == old(t).seasons@.len() + 1
                &&& final(t).seasons@.last().start_date == now
                &&& final(t).seasons@.last().stop_date is None
                &&& final(t).seasons@.last().name@ == w[0]
                &&& final(t).seasons@.last().max_players == int_text(w[1])->0
                &&& final(t).seasons@.last().status == SeasonStatus::Initial
                &&& final(t).seasons@.last().active
                &&& final(t).same_but_seasons(old(t))
            }
        },
{
    if !is_authorized_sender(&t.admins, sender) {
        return Vec::new();
    }
    let words = split_words(season_info);
    if words.len() != 2 {
        return say_str("The command should be used like this '/startnewseason <Title> <Number of Players>'.");
    }
    assert(words@[1]@ == words_of(season_info@)[1]);
    assert(words@[0]@ == words_of(season_info@)[0]);
    let max_players = match parse_i32(words[1].as_str()) {
        Some(v) => v,
        None => return say_str("Invalid number format for max players."),
    };
    match t.current_active_season() {
        Some(active) => {
            return say(String::from_str("A season is already in progress: '").concat(active.as_str()).concat(
                "'. Another season cannot be started until the current one is concluded.",
            ));
        },
        None => {},
    }
    let name = words[0].clone();
    let text = String::from_str("A new rock-paper-scissors season '").concat(name.as_str()).concat(
        "' has started! Maximum players allowed: ",
    ).concat(signed_decimal(max_players as i64).as_str()).concat(". Let the games begin.");
    let failure = String::from_str("Failed to start new season '").concat(name.as_str()).concat("': ");
    match t.start_new_season(name, max_players, now) {
        Ok(_) => say(text),
        Err(e) => say(failure.concat(error_message(e))),
    }
}

/// Ends the active season and shows its final standings.
pub fn stop_new_season_command(t: &mut Tournament, sender: Option<&str>, now: String) -> (r: Vec<Reply>)
    requires
        old(t).wf(),
    ensures
        final(t).wf(),
        !admin_sender(*old(t), sender) ==> r@.len() == 0 && *final(t) == *old(t),
        admin_sender(*old(t), sender) && !old(t).has_active() ==> told(r@, "There is no active season to conclude."@)
            && *final(t) == *old(t),
        admin_sender(*old(t), sender) && old(t).has_active() ==> {
            let name = old(t).active_season().name@;
            &&& !final(t).has_active()
            &&& final(t).seasons@ == old(t).seasons@.update(
                old(t).active_index(),
                closed_row(old(t).active_season(), now),
            )
            &&& final(t).same_but_seasons(old(t))
            &&& r@.len() == 2
            &&& r@[0].to is None && r@[0].text@ == "The season '"@ + name + "' has been successfully concluded."@
            &&& r@[1].to is None && exists|l: Seq<LeaderEntry>| is_standings(l, old(t).players@, old(t).active_season().id)
                && r@[1].text@ == standings_text(final_title(name), l)
        },
{
    if !is_authorized_sender(&t.admins, sender) {
        return Vec::new();
    }
    let details = match t.current_active_season_details() {
        Some(d) => d,
        None => return say_str("There is no active season to conclude."),
    };
    let _stopped = t.stop_current_season(now);
    let mut r = say(String::from_str("The season '").concat(details.name.as_str()).concat("' has been successfully concluded."));
    let board = t.fetch_leaderboard(details.id);
    let text = final_leaderboard_string(details.name.as_str(), &board);
    r.push(Reply { to: None, text });
    r
}

/// What the status display says of the active season.
pub open spec fn status_report(t: Tournament) -> Seq<char> {
    let s = t.active_season();
    "Current active season: '"@ + s.name@ + "'\nStarted on: "@ + s.start_date@ + "\nMax players: "@ + signed_text(
        s.max_players as int,
    ) + "\nStatus: "@ + status_text(s.status)
}

/// Shows the active season's name, start, player limit and status.
pub fn status_command(t: &Tournament) -> (r: Vec<Reply>)
    requires
        t.wf(),
    ensures
        t.has_active() ==> told(r@, status_report(*t)),
        !t.has_active() ==> told(r@, "There is no active season currently."@),
{
    match t.current_active_season_details() {
        Some(d) => say(String::from_str("Current active season: '").concat(d.name.as_str()).concat("'\nStarted on: ").concat(
            d.start_date.as_str(),
        ).concat("\nMax players: ").concat(signed_decimal(d.max_players as i64).as_str()).concat("\nStatus: ").concat(
            status_name(d.status),
        )),
        None => say_str("There is no active season currently."),
    }
}

/// The status display, for administrators.
pub fn current_season_status_command(t: &Tournament, sender: Option<&str>) -> (r: Vec<Reply>)
    requires
        t.wf(),
    ensures
        !admin_sender(*t, sender) ==> r@.len() == 0,
        admin_sender(*t, sender) && t.has_active() ==> told(r@, status_report(*t)),
        admin_sender(*t, sender) && !t.has_active() ==> told(r@, "There is no active season currently."@),
{
    if !is_authorized_sender(&t.admins, sender) {
        return Vec::new();
    }
    status_command(t)
}

/// What an administrator is told after phase change `op` in season `name`.
pub open spec fn phase_done_text(op: PhaseOp, name: Seq<char>) -> Seq<char> {
    match op {
        PhaseOp::StartSignup => "The signup phase for the new rock-paper-scissors season '"@ + name
            + "' is now open. Interested players can register."@,
        PhaseOp::StopSignup => "The signup phase is now closed. Preparations for the '"@ + name + "' game will now commence."@,
        PhaseOp::StartGaming => "The gaming phase has begun! Welcome to '"@ + name + "'. Players, get ready to challenge each other."@,
        PhaseOp::StopGaming => "The gaming phase has ended. Thank you to all participants! Remember to /stopnewseason when you're done."@,
    }
}

/// What a phase command does: nothing for a sender who is not an
/// administrator; otherwise the phase change, with a reply that explains a
/// refusal by the current status or confirms the change.
pub open spec fn phase_command_outcome(op: PhaseOp, before: Tournament, after: Tournament, sender: Option<&str>, r: Seq<Reply>) -> bool {
    &&& !admin_sender(before, sender) ==> r.len() == 0 && after == before
    &&& admin_sender(before, sender) ==> {
        &&& !before.has_active() ==> told(r, "There is no active season currently."@) && after == before
        &&& before.has_active() && !phase_allowed(op, before.active_season().status) ==> told(
            r,
            refusal_text(op, before.active_season().status),
        ) && after == before
        &&& before.has_active() && phase_allowed(op, before.active_season().status) ==> told(
            r,
            phase_done_text(op, before.active_season().name@),
        ) && phase_outcome(op, before, after, Ok(()))
    }
}

fn phase_command(t: &mut Tournament, sender: Option<&str>, op: PhaseOp) -> (r: Vec<Reply>)
    requires
        old(t).wf(),
    ensures
        final(t).wf(),
        phase_command_outcome(op, *old(t), *final(t), sender, r@),
{
    if !is_authorized_sender(&t.admins, sender) {
        return Vec::new();
    }
    let details = match t.current_active_season_details() {
        Some(d) => d,
        None => return say_str("There is no active season currently."),
    };
    if next_status(op, details.status).is_err() {
        return say_str(refusal_message(op, details.status));
    }
    let name = details.name;
    let text = match op {
        PhaseOp::StartSignup => String::from_str("The signup phase for the new rock-paper-scissors season '").concat(
            name.as_str(),
        ).concat("' is now open. Interested players can register."),
        PhaseOp::StopSignup => String::from_str("The signup phase is now closed. Preparations for the '").concat(name.as_str()).concat(
            "' game will now commence.",
        ),
        PhaseOp::StartGaming => String::from_str("The gaming phase has begun! Welcome to '").concat(name.as_str()).concat(
            "'. Players, get ready to challenge each other.",
        ),
        PhaseOp::StopGaming => String::from_str(
            "The gaming phase has ended. Thank you to all participants! Remember to /stopnewseason when you're done.",
        ),
    };
    let _changed = match op {
        PhaseOp::StartSignup => t.start_signup_phase(),
        PhaseOp::StopSignup => t.stop_signup_phase(),
        PhaseOp::StartGaming => t.start_gaming_phase(),
        PhaseOp::StopGaming => t.stop_gaming_phase(),
    };
    say(text)
}

/// Opens signups.
pub fn startsignupphase_command(t: &mut Tournament, sender: Option<&str>) -> (r: Vec<Reply>)
    requires
        old(t).wf(),
    ensures
        final(t).wf(),
        phase_command_outcome(PhaseOp::StartSignup, *old(t), *final(t), sender, r@),
{
    phase_command(t, sender, PhaseOp::StartSignup)
}

/// Closes signups.
pub fn stopsignupphase_command(t: &mut Tournament, sender: Option<&str>) -> (r: Vec<Reply>)
    requires
        old(t).wf(),
    ensures
        final(t).wf(),
        phase_command_outcome(PhaseOp::StopSignup, *old(t), *final(t), sender, r@),
{
    phase_command(t, sender, PhaseOp::StopSignup)
}

/// Opens play.
pub fn startgamingphase_command(t: &mut Tournament, sender: Option<&str>) -> (r: Vec<Reply>)
    requires
        old(t).wf(),
    ensures
        final(t).wf(),
        phase_command_outcome(PhaseOp::StartGaming, *old(t), *final(t), sender, r@),
{
    phase_command(t, sender, PhaseOp::StartGaming)
}

/// Ends play.
pub fn stopgamingphase_command(t: &mut Tournament, sender: Option<&str>) -> (r: Vec<Reply>)
    requires
        old(t).wf(),
    ensures
        final(t).wf(),
        phase_command_outcome(PhaseOp::StopGaming, *old(t), *final(t), sender, r@),
{
    phase_command(t, sender, PhaseOp::StopGaming)
}

/// Opens the next round of the active season.
pub fn start_round_command(t: &mut Tournament, sender: Option<&str>, now: String) -> (r: Vec<Reply>)
    requires
        old(t).wf(),
    ensures
        final(t).wf(),
        !admin_sender(*old(t), sender) ==> r@.len() == 0 && *final(t) == *old(t),
        admin_sender(*old(t), sender) && !old(t).has_active() ==> told(r@, "No active season found."@) && *final(t) == *old(t),
        admin_sender(*old(t), sender) && old(t).has_active() && old(t).active_season().status != SeasonStatus::StartGaming
            ==> told(r@, "There is no active season in the 'start_gaming' phase."@) && *final(t) == *old(t),
        admin_sender(*old(t), sender) && old(t).has_active() && old(t).active_season().status == SeasonStatus::StartGaming
            ==> {
            let sid = old(t).active_season().id;
            if max_round_number(old(t).rounds@, sid) >= u64::MAX || old(t).rounds@.len() == usize::MAX {
                told(r@, "Failed to start the round: "@ + error_text(TourError::StoreError)) && *final(t) == *old(t)
            } else {
                &&& told(r@, "Finally, let us start the round!"@)
                &&& final(t).rounds@ == old(t).rounds@.push(
                    Round {
                        id: (old(t).rounds@.len() + 1) as usize,
                        season_id: sid,
                        round_number: (max_round_number(old(t).rounds@, sid) + 1) as u64,
                        start_time: now,
                        end_time: None,
                    },
                )
                &&& final(t).seasons@ == old(t).seasons@.update(
                    old(t).active_index(),
                    with_status(old(t).active_season(), SeasonStatus::RoundOngoing),
                )
                &&& final(t).same_but_seasons_rounds(old(t))
            }
        },
{
    if !is_authorized_sender(&t.admins, sender) {
        return Vec::new();
    }
    let (status, sid) = match t.current_game_status_and_season_id() {
        Some(p) => p,
        None => return say_str("No active season found."),
    };
    if status != SeasonStatus::StartGaming {
        return say_str("There is no active season in the 'start_gaming' phase.");
    }
    match t.start_new_round(sid, now) {
        Ok(_) => say_str("Finally, let us start the round!"),
        Err(e) => say(String::from_str("Failed to start the round: ").concat(error_message(e))),
    }
}

/// The notices to players whose hand was empty, one each, in order.
pub open spec fn forfeit_notices(r: Seq<Reply>, pids: Seq<i64>) -> bool {
    &&& r.len() >= pids.len()
    &&& forall|k: int| 0 <= k < pids.len() ==> (#[trigger] r[k]).to == Some(pids[k]) && r[k].text@
        == "Your hand was empty for this round."@
}

/// The replies to a closed round: a notice to each forfeiter in order, the
/// end-of-round message, then the announcement of the results when there
/// are any, and nothing else.
pub open spec fn round_replies(r: Seq<Reply>, c: RoundClose, players: Seq<Player>, sid: usize) -> bool {
    let f = c.forfeited@;
    &&& r.len() == f.len() + 1 + (if c.results@.len() > 0 { 1int } else { 0 })
    &&& forfeit_notices(r, f)
    &&& r[f.len() as int].to is None
    &&& r[f.len() as int].text@ == "Round is over, everyone back to their corner!"@
    &&& c.results@.len() > 0 ==> r[f.len() + 1int].to is None && r[f.len() + 1int].text@ == announcement_text(
        c.results@,
        players,
        sid,
    )
}

/// Closes the active season's round: forfeits, random pairing, scoring and
/// the announcement of the results. When the round cannot be scored the
/// store is left as it was and the reply says so; a round that is ready to
/// close always closes.
pub fn stop_round_command(t: &mut Tournament, sender: Option<&str>, now: String) -> (r: Vec<Reply>)
    requires
        old(t).wf(),
    ensures
        final(t).wf(),
        !admin_sender(*old(t), sender) ==> r@.len() == 0 && *final(t) == *old(t),
        admin_sender(*old(t), sender) && !(old(t).has_active() && old(t).active_season().status == SeasonStatus::RoundOngoing)
            ==> told(r@, "There is no active season in the 'round_ongoing' phase."@) && *final(t) == *old(t),
        admin_sender(*old(t), sender) && old(t).has_active() && old(t).active_season().status == SeasonStatus::RoundOngoing
            ==> {
            ||| final(t).same_as(old(t)) && told(r@, "Failed to close the round: "@ + error_text(TourError::StoreError))
            ||| exists|c: RoundClose|
                #[trigger] round_closed(*old(t), *final(t), old(t).active_season().id, now, c) && round_replies(
                    r@,
                    c,
                    final(t).players@,
                    old(t).active_season().id,
                )
        },
        admin_sender(*old(t), sender) && old(t).has_active() && old(t).active_season().status == SeasonStatus::RoundOngoing
            ==> forall|rid: usize|
            1 <= rid <= old(t).rounds@.len() && #[trigger] is_open_round_of(old(t).rounds@[rid - 1], old(t).active_season().id)
                && close_ready(*old(t), old(t).active_season().id, rid) ==> exists|c: RoundClose|
                #[trigger] round_closed(*old(t), *final(t), old(t).active_season().id, now, c) && round_replies(
                    r@,
                    c,
                    final(t).players@,
                    old(t).active_season().id,
                ),
{
    if !is_authorized_sender(&t.admins, sender) {
        return Vec::new();
    }
    let (status, sid) = match t.current_game_status_and_season_id() {
        Some(p) => p,
        None => return say_str("There is no active season in the 'round_ongoing' phase."),
    };
    if status != SeasonStatus::RoundOngoing {
        return say_str("There is no active season in the 'round_ongoing' phase.");
    }
    let ghost before = *t;
    let ghost at = now;
    let closed = match t.close_round(sid, now) {
        Ok(c) => c,
        Err(e) => return say(String::from_str("Failed to close the round: ").concat(error_message(e))),
    };
    proof {
        lemma_closed_roster(before, *t, sid, at, closed);
    }
    let mut r: Vec<Reply> = Vec::new();
    let mut i: usize = 0;
    while i < closed.forfeited.len()
        invariant
            i <= closed.forfeited@.len(),
            r@.len() == i,
            forall|k: int| 0 <= k < i ==> (#[trigger] r@[k]).to == Some(closed.forfeited@[k]) && r@[k].text@
                == "Your hand was empty for this round."@,
        decreases closed.forfeited@.len() - i,
    {
        r.push(Reply { to: Some(closed.forfeited[i]), text: String::from_str("Your hand was empty for this round.") });
        i += 1;
    }
    r.push(Reply { to: None, text: String::from_str("Round is over, everyone back to their corner!") });
    assert(r@[i as int].text@ == "Round is over, everyone back to their corner!"@);
    if closed.results.len() > 0 {
        match t.announce_results(sid, &closed.results) {
            Ok(text) => r.push(Reply { to: None, text }),
            Err(_) => {},
        }
    }
    proof {
        assert(round_replies(r@, closed, t.players@, sid));
    }
    r
}

/// Signs the sender up for the active season; a sender without a username
/// is listed as `unknown`.
pub fn signup_command(t: &mut Tournament, player_id: i64, username: Option<&str>) -> (r: Vec<Reply>)
    requires
        old(t).wf(),
    ensures
        final(t).wf(),
        !old(t).has_active() ==> told(r@, "There is no active season currently."@) && *final(t) == *old(t),
        old(t).has_active() && old(t).active_season().status != SeasonStatus::StartSignup ==> told(
            r@,
            "Signups are currently closed."@,
        ) && *final(t) == *old(t),
        old(t).has_active() && old(t).active_season().status == SeasonStatus::StartSignup && signed_up(
            old(t).candidates@,
            old(t).active_season().id,
            player_id,
        ) ==> told(r@, "You are already on the waitinglist for this game."@) && *final(t) == *old(t),
        old(t).has_active() && old(t).active_season().status == SeasonStatus::StartSignup && !signed_up(
            old(t).candidates@,
            old(t).active_season().id,
            player_id,
        ) ==> {
            &&& told(r@, "You have successfully signed up to the waitinglist for the game!"@)
            &&& final(t).candidates@.len() == old(t).candidates@.len() + 1
            &&& final(t).candidates@.last().season_id == old(t).active_season().id
            &&& final(t).candidates@.last().player_id == player_id
            &&& final(t).candidates@.last().username@ == match username {
                Some(u) => u@,
                None => "unknown"@,
            }
            &&& final(t).candidates@.last().status == CandidateStatus::Pending
            &&& final(t).candidates@.last().wallet@.len() == 0
            &&& final(t).candidates@.drop_last() == old(t).candidates@
            &&& final(t).players@ == old(t).players@
            &&& final(t).same_but_signups(old(t))
        },
{
    let (status, sid) = match t.current_game_status_and_season_id() {
        Some(p) => p,
        None => return say_str("There is no active season currently."),
    };
    if status != SeasonStatus::StartSignup {
        return say_str("Signups are currently closed.");
    }
    let name = match username {
        Some(u) => String::from_str(u),
        None => String::from_str("unknown"),
    };
    match t.sign_up(sid, player_id, name) {
        Ok(()) => say_str("You have successfully signed up to the waitinglist for the game!"),
        Err(_) => say_str("You are already on the waitinglist for this game."),
    }
}

/// The confirmation a player gets for a recorded hand.
pub open spec fn played_text(h: Hand) -> Seq<char> {
    match h {
        Hand::Rock => "Playing the rock hand 🪨."@,
        Hand::Paper => "Playing the paper hand 📜."@,
        Hand::Scissors => "Playing the scissors hand ✂️."@,
        Hand::Empty => "Playing no hand."@,
    }
}

/// What a play command does.
pub open spec fn play_outcome(before: Tournament, after: Tournament, player_id: i64, hand: Hand, now: String, r: Seq<Reply>) -> bool {
    let s = before.active_season();
    &&& !before.has_active() ==> told(r, "No active season found."@) && after == before
    &&& before.has_active() && s.status != SeasonStatus::RoundOngoing ==> told(r, "There is no round currently ongoing."@)
        && after == before
    &&& before.has_active() && s.status == SeasonStatus::RoundOngoing && !on_roster(before.players@, s.id, player_id)
        ==> told(r, "You are not part of the current game."@) && after == before
    &&& before.has_active() && s.status == SeasonStatus::RoundOngoing && on_roster(before.players@, s.id, player_id)
        ==> {
        ||| (forall|k: int| 0 <= k < before.rounds@.len() ==> !is_open_round_of(#[trigger] before.rounds@[k], s.id))
            && told(r, "No active round found."@) && after == before
        ||| exists|rid: usize| {
            &&& 1 <= rid <= before.rounds@.len()
            &&& is_open_round_of(before.rounds@[rid - 1], s.id)
            &&& has_move(before.moves@, rid, player_id) ==> told(r, "You have already played this round."@) && after
                == before
            &&& !has_move(before.moves@, rid, player_id) ==> told(r, played_text(hand)) && after.moves@
                == before.moves@.push(fresh_move(rid, player_id, hand, now)) && after.same_but_moves(&before)
        }
    }
}

/// Records the sender's hand in the active season's open round.
pub fn play_hand_command(t: &mut Tournament, player_id: i64, hand: Hand, now: String) -> (r: Vec<Reply>)
    requires
        old(t).wf(),
    ensures
        final(t).wf(),
        play_outcome(*old(t), *final(t), player_id, hand, now, r@),
{
    let (status, sid) = match t.current_game_status_and_season_id() {
        Some(p) => p,
        None => return say_str("No active season found."),
    };
    if status != SeasonStatus::RoundOngoing {
        return say_str("There is no round currently ongoing.");
    }
    if !t.check_player_in_game(player_id, sid) {
        return say_str("You are not part of the current game.");
    }
    let rid = match t.get_current_round_id(sid) {
        Some(rid) => rid,
        None => return say_str("No active round found."),
    };
    if t.insert_player_hand_choice(rid, player_id, hand, now) {
        match hand {
            Hand::Rock => say_str("Playing the rock hand 🪨."),
            Hand::Paper => say_str("Playing the paper hand 📜."),
            Hand::Scissors => say_str("Playing the scissors hand ✂️."),
            Hand::Empty => say_str("Playing no hand."),
        }
    } else {
        say_str("You have already played this round.")
    }
}

/// Plays rock.
pub fn playrock_command(t: &mut Tournament, player_id: i64, now: String) -> (r: Vec<Reply>)
    requires
        old(t).wf(),
    ensures
        final(t).wf(),
        play_outcome(*old(t), *final(t), player_id, Hand::Rock, now, r@),
{
    play_hand_command(t, player_id, Hand::Rock, now)
}

/// Plays paper.
pub fn playpaper_command(t: &mut Tournament, player_id: i64, now: String) -> (r: Vec<Reply>)
    requires
        old(t).wf(),
    ensures
        final(t).wf(),
        play_outcome(*old(t), *final(t), player_id, Hand::Paper, now, r@),
{
    play_hand_command(t, player_id, Hand::Paper, now)
}

/// Plays scissors.
pub fn playscissors_command(t: &mut Tournament, player_id: i64, now: String) -> (r: Vec<Reply>)
    requires
        old(t).wf(),
    ensures
        final(t).wf(),
        play_outcome(*old(t), *final(t), player_id, Hand::Scissors, now, r@),
{
    play_hand_command(t, player_id, Hand::Scissors, now)
}

/// What a decision command does: nothing for a sender who is not an
/// administrator; a usage note unless the argument is one username;
/// otherwise the decision on that username's pending signup, if the active
/// season takes signups.
pub open spec fn decision_command_outcome(
    before: Tournament,
    after: Tournament,
    sender: Option<&str>,
    arg: Seq<char>,
    accept: bool,
    r: Seq<Reply>,
) -> bool {
    let w = words_of(arg);
    let s = before.active_season();
    &&& !admin_sender(before, sender) ==> r.len() == 0 && after == before
    &&& admin_sender(before, sender) && w.len() != 1 ==> after == before && told(
        r,
        if accept {
            "The command should be used like this '/approveplayer <username>'. Make sure the player username is correct and pending."@
        } else {
            "The command should be used like this '/refuseplayer <username>'. Make sure the player username is correct and pending."@
        },
    )
    &&& admin_sender(before, sender) && w.len() == 1 && !before.has_active() ==> told(r, "No active season found."@)
        && after == before
    &&& admin_sender(before, sender) && w.len() == 1 && before.has_active() && s.status != SeasonStatus::StartSignup
        ==> after == before && told(
        r,
        if accept {
            "Approvals are only allowed during the 'start_signup' phase."@
        } else {
            "Refusals are only allowed during the 'start_signup' phase."@
        },
    )
    &&& admin_sender(before, sender) && w.len() == 1 && before.has_active() && s.status == SeasonStatus::StartSignup
        ==> {
        let k = first_pending(before.candidates@, s.id, w[0]);
        &&& k == -1 ==> told(r, "No pending player found with the given username for the current season."@) && after
            == before
        &&& k != -1 ==> {
            &&& exists|res: Result<i64, TourError>| #[trigger] decision_outcome(before, after, s.id, w[0], accept, res)
            &&& accept ==> r.len() == 2 && r[0].to is None && r[0].text@ == "Player '"@ + w[0]
                + "' has been accepted for participation."@ && r[1].to == Some(before.candidates@[k].player_id)
                && r[1].text@ == "Your registration to the new game "@ + s.name@ + " has been accepted!"@
            &&& !accept ==> told(r, "Player '"@ + w[0] + "' has been refused participation."@)
        }
    }
}

fn decision_command(t: &mut Tournament, sender: Option<&str>, player_username: &str, accept: bool) -> (r: Vec<Reply>)
    requires
        old(t).wf(),
    ensures
        final(t).wf(),
        decision_command_outcome(*old(t), *final(t), sender, player_username@, accept, r@),
{
    if !is_authorized_sender(&t.admins, sender) {
        return Vec::new();
    }
    let words = split_words(player_username);
    if words.len() != 1 {
        if accept {
            return say_str(
                "The command should be used like this '/approveplayer <username>'. Make sure the player username is correct and pending.",
            );
        } else {
            return say_str(
                "The command should be used like this '/refuseplayer <username>'. Make sure the player username is correct and pending.",
            );
        }
    }
    let name = words[0].clone();
    assert(name@ == words_of(player_username@)[0]);
    let details = match t.current_active_season_details() {
        Some(d) => d,
        None => return say_str("No active season found."),
    };
    if details.status != SeasonStatus::StartSignup {
        if accept {
            return say_str("Approvals are only allowed during the 'start_signup' phase.");
        } else {
            return say_str("Refusals are only allowed during the 'start_signup' phase.");
        }
    }
    let res = if accept {
        t.update_player_status_to_accepted(details.id, name.as_str())
    } else {
        t.update_player_status_to_refused(details.id, name.as_str())
    };
    match res {
        Ok(pid) => {
            if accept {
                let mut r = say(String::from_str("Player '").concat(name.as_str()).concat("' has been accepted for participation."));
                r.push(Reply {
                    to: Some(pid),
                    text: String::from_str("Your registration to the new game ").concat(details.name.as_str()).concat(
                        " has been accepted!",
                    ),
                });
                r
            } else {
                say(String::from_str("Player '").concat(name.as_str()).concat("' has been refused participation."))
            }
        },
        Err(_) => say_str("No pending player found with the given username for the current season."),
    }
}

/// Accepts a pending signup, given its username, and notifies the player.
pub fn approveplayer_command(t: &mut Tournament, sender: Option<&str>, player_username: &str) -> (r: Vec<Reply>)
    requires
        old(t).wf(),
    ensures
        final(t).wf(),
        decision_command_outcome(*old(t), *final(t), sender, player_username@, true, r@),
{
    decision_command(t, sender, player_username, true)
}

/// Refuses a pending signup, given its username.
pub fn refuseplayer_command(t: &mut Tournament, sender: Option<&str>, player_username: &str) -> (r: Vec<Reply>)
    requires
        old(t).wf(),
    ensures
        final(t).wf(),
        decision_command_outcome(*old(t), *final(t), sender, player_username@, false, r@),
{
    decision_command(t, sender, player_username, false)
}

fn list_command(t: &Tournament, sender: Option<&str>, filter: SignupFilter) -> (r: Vec<Reply>)
    requires
        t.wf(),
    ensures
        !admin_sender(*t, sender) ==> r@.len() == 0,
        admin_sender(*t, sender) && !t.has_active() ==> told(r@, "No active season found."@),
        admin_sender(*t, sender) && t.has_active() ==> told(r@, signup_list_text(t.candidates@, t.active_season().id, filter)),
{
    if !is_authorized_sender(&t.admins, sender) {
        return Vec::new();
    }
    match t.current_active_season_id() {
        Some(sid) => say(t.get_signup_list_for_season(sid, filter)),
        None => say_str("No active season found."),
    }
}

/// Lists every signup of the active season.
pub fn view_signuplist_command(t: &Tournament, sender: Option<&str>) -> (r: Vec<Reply>)
    requires
        t.wf(),
    ensures
        !admin_sender(*t, sender) ==> r@.len() == 0,
        admin_sender(*t, sender) && !t.has_active() ==> told(r@, "No active season found."@),
        admin_sender(*t, sender) && t.has_active() ==> told(r@, signup_list_text(t.candidates@, t.active_season().id, SignupFilter::All)),
{
    list_command(t, sender, SignupFilter::All)
}

/// Lists the accepted signups of the active season.
pub fn view_approved_list_command(t: &Tournament, sender: Option<&str>) -> (r: Vec<Reply>)
    requires
        t.wf(),
    ensures
        !admin_sender(*t, sender) ==> r@.len() == 0,
        admin_sender(*t, sender) && !t.has_active() ==> told(r@, "No active season found."@),
        admin_sender(*t, sender) && t.has_active() ==> told(r@, signup_list_text(t.candidates@, t.active_season().id, SignupFilter::Accepted)),
{
    list_command(t, sender, SignupFilter::Accepted)
}

/// Lists the refused signups of the active season.
pub fn viewrefusedlist_command(t: &Tournament, sender: Option<&str>) -> (r: Vec<Reply>)
    requires
        t.wf(),
    ensures
        !admin_sender(*t, sender) ==> r@.len() == 0,
        admin_sender(*t, sender) && !t.has_active() ==> told(r@, "No active season found."@),
        admin_sender(*t, sender) && t.has_active() ==> told(r@, signup_list_text(t.candidates@, t.active_season().id, SignupFilter::Refused)),
{
    list_command(t, sender, SignupFilter::Refused)
}

/// Shows the active season's standings.
pub fn viewleaderboard_command(t: &Tournament) -> (r: Vec<Reply>)
    requires
        t.wf(),
    ensures
        !t.has_active() ==> told(r@, "Leaderboards only work during active games. Check the main channel for logs"@),
        t.has_active() ==> r@.len() == 1 && r@[0].to is None && exists|l: Seq<LeaderEntry>| is_standings(l, t.players@, t.active_season().id)
            && r@[0].text@ == standings_text(board_title(), l),
{
    match t.current_active_season_id() {
        Some(sid) => {
            let board = t.fetch_leaderboard(sid);
            say(prepare_leaderboard_string(&board))
        },
        None => say_str("Leaderboards only work during active games. Check the main channel for logs"),
    }
}

/// Whether `c` has a Unicode numeric general category (`Nd`, `Nl` or `No`).
pub uninterp spec fn numeric_char(c: char) -> bool;

/// Relies on `char::is_numeric`, whose result depends on the character
/// alone; its documentation lists the ASCII digits among the numeric ones.
#[verifier::external_body]
fn char_is_numeric(c: char) -> (r: bool)
    ensures
        r == numeric_char(c),
        '0' <= c && c <= '9' ==> r,
{
    c.is_numeric()
}

/// Every character of `s` is numeric.
pub open spec fn all_numeric(s: Seq<char>) -> bool {
    forall|i: int| 0 <= i < s.len() ==> numeric_char(#[trigger] s[i])
}

fn numeric_text(s: &str) -> (r: bool)
    ensures
        r == all_numeric(s@),
{
    let n = s.unicode_len();
    let mut i: usize = 0;
    while i < n
        invariant
            n == s@.len(),
            i <= n,
            forall|k: int| 0 <= k < i ==> numeric_char(#[trigger] s@[k]),
        decreases n - i,
    {
        if !char_is_numeric(s.get_char(i)) {
            return false;
        }
        i += 1;
    }
    true
}

/// A channel id argument: one word of numeric characters.
pub open spec fn channel_arg(arg: Seq<char>) -> bool {
    words_of(arg).len() == 1 && all_numeric(words_of(arg)[0])
}

/// Sets the broadcast channel, given as one numeric id.
pub fn set_broadcast_channel_command(t: &mut Tournament, sender: Option<&str>, channel_id: &str) -> (r: Vec<Reply>)
    requires
        old(t).wf(),
    ensures
        final(t).wf(),
        !admin_sender(*old(t), sender) ==> r@.len() == 0 && *final(t) == *old(t),
        admin_sender(*old(t), sender) && !channel_arg(channel_id@) ==> told(
            r@,
            "The command should be used like this '/setbroadcastchannel <ChannelID>'. Make sure the ChannelID is a numeric value. Contact the dev if you need help."@,
        ) && *final(t) == *old(t),
        admin_sender(*old(t), sender) && channel_arg(channel_id@) ==> {
            let id = words_of(channel_id@)[0];
            &&& told(r@, "Broadcast channel set to: "@ + id)
            &&& final(t).broadcast_channel matches Some(c) && c@ == id
            &&& final(t).group_channel == old(t).group_channel
            &&& final(t).seasons == old(t).seasons
            &&& final(t).candidates == old(t).candidates
            &&& final(t).players == old(t).players
            &&& final(t).rounds == old(t).rounds
            &&& final(t).moves == old(t).moves
            &&& final(t).admins == old(t).admins
        },
{
    if !is_authorized_sender(&t.admins, sender) {
        return Vec::new();
    }
    let words = split_words(channel_id);
    if words.len() != 1 || !numeric_text(words[0].as_str()) {
        return say_str(
            "The command should be used like this '/setbroadcastchannel <ChannelID>'. Make sure the ChannelID is a numeric value. Contact the dev if you need help.",
        );
    }
    let id = words[0].clone();
    let text = String::from_str("Broadcast channel set to: ").concat(id.as_str());
    t.broadcast_channel = Some(id);
    say(text)
}

/// Sets the group channel, given as one numeric id.
pub fn set_group_channel_command(t: &mut Tournament, sender: Option<&str>, channel_id: &str) -> (r: Vec<Reply>)
    requires
        old(t).wf(),
    ensures
        final(t).wf(),
        !admin_sender(*old(t), sender) ==> r@.len() == 0 && *final(t) == *old(t),
        admin_sender(*old(t), sender) && !channel_arg(channel_id@) ==> told(
            r@,
            "The command should be used like this '/setgroupchannel <ChannelID>'. Make sure the ChannelID is a numeric value. Contact the dev if you need help."@,
        ) && *final(t) == *old(t),
        admin_sender(*old(t), sender) && channel_arg(channel_id@) ==> {
            let id = words_of(channel_id@)[0];
            &&& told(r@, "Group channel set to: "@ + id)
            &&& final(t).group_channel matches Some(c) && c@ == id
            &&& final(t).broadcast_channel == old(t).broadcast_channel
            &&& final(t).seasons == old(t).seasons
            &&& final(t).candidates == old(t).candidates
            &&& final(t).players == old(t).players
            &&& final(t).rounds == old(t).rounds
            &&& final(t).moves == old(t).moves
            &&& final(t).admins == old(t).admins
        },
{
    if !is_authorized_sender(&t.admins, sender) {
        return Vec::new();
    }
    let words = split_words(channel_id);
    if words.len() != 1 || !numeric_text(words[0].as_str()) {
        return say_str(
            "The command should be used like this '/setgroupchannel <ChannelID>'. Make sure the ChannelID is a numeric value. Contact the dev if you need help.",
        );
    }
    let id = words[0].clone();
    let text = String::from_str("Group channel set to: ").concat(id.as_str());
    t.group_channel = Some(id);
    say(text)
}

/// How a channel setting is shown: quoted, or `"Not set"`.
pub open spec fn channel_shown(c: Option<String>) -> Seq<char> {
    match c {
        Some(id) => "\""@ + id@ + "\""@,
        None => "\"Not set\""@,
    }
}

fn show_channel(c: &Option<String>) -> (r: String)
    ensures
        r@ == channel_shown(*c),
{
    match c {
        Some(id) => String::from_str("\"").concat(id.as_str()).concat("\""),
        None => String::from_str("\"Not set\""),
    }
}

/// Shows both channel settings.
pub fn get_group_broadcast_id_command(t: &Tournament, sender: Option<&str>) -> (r: Vec<Reply>)
    ensures
        !admin_sender(*t, sender) ==> r@.len() == 0,
        admin_sender(*t, sender) ==> told(
            r@,
            "Broadcast Channel ID: "@ + channel_shown(t.broadcast_channel) + "\nGroup Channel ID: "@ + channel_shown(
                t.group_channel,
            ),
        ),
{
    if !is_authorized_sender(&t.admins, sender) {
        return Vec::new();
    }
    say(String::from_str("Broadcast Channel ID: ").concat(show_channel(&t.broadcast_channel).as_str()).concat(
        "\nGroup Channel ID: ",
    ).concat(show_channel(&t.group_channel).as_str()))
}

/// Clears both channel settings.
pub fn reset_group_broadcast_command(t: &mut Tournament, sender: Option<&str>) -> (r: Vec<Reply>)
    requires
        old(t).wf(),
    ensures
        final(t).wf(),
        !admin_sender(*old(t), sender) ==> r@.len() == 0 && *final(t) == *old(t),
        admin_sender(*old(t), sender) ==> told(r@, "Group and broadcast channel settings have been reset."@)
            && final(t).broadcast_channel is None && final(t).group_channel is None && final(t).seasons == old(t).seasons
            && final(t).players == old(t).players && final(t).moves == old(t).moves && final(t).candidates
            == old(t).candidates && final(t).rounds == old(t).rounds && final(t).admins == old(t).admins,
{
    if !is_authorized_sender(&t.admins, sender) {
        return Vec::new();
    }
    t.broadcast_channel = None;
    t.group_channel = None;
    say_str("Group and broadcast channel settings have been reset.")
}

/// The chat a stored channel id names: channel ids are kept without their
/// minus sign.
pub open spec fn channel_chat(c: Option<String>) -> Option<int> {
    match c {
        Some(id) => match int_text(id@) {
            Some(v) => if i64::MIN < v <= i64::MAX { Some(-v) } else { None },
            None => None,
        },
        None => None,
    }
}

fn relay(channel: &Option<String>, message_text: String, unset: &str, sent: &str) -> (r: Vec<Reply>)
    ensures
        channel is None ==> told(r@, unset@),
        channel is Some && channel_chat(*channel) is None ==> told(r@, "The channel id is not a number."@),
        channel_chat(*channel) matches Some(chat) ==> r@.len() == 2 && r@[0].to == Some(chat as i64) && r@[0].text@
            == message_text@ && r@[1].to is None && r@[1].text@ == sent@,
{
    match channel {
        Some(id) => match parse_i64(id.as_str()) {
            Some(v) => {
                if v == i64::MIN {
                    return say_str("The channel id is not a number.");
                }
                let mut r: Vec<Reply> = Vec::new();
                r.push(Reply { to: Some(-v), text: message_text });
                r.push(Reply { to: None, text: String::from_str(sent) });
                r
            },
            None => say_str("The channel id is not a number."),
        },
        None => say_str(unset),
    }
}

/// Relays a message to the broadcast channel.
pub fn msg_broadcastchannel_command(t: &Tournament, sender: Option<&str>, message_text: String) -> (r: Vec<Reply>)
    ensures
        !admin_sender(*t, sender) ==> r@.len() == 0,
        admin_sender(*t, sender) && t.broadcast_channel is None ==> told(r@, "Broadcast channel is not set."@),
        admin_sender(*t, sender) && t.broadcast_channel is Some && channel_chat(t.broadcast_channel) is None ==> told(
            r@,
            "The channel id is not a number."@,
        ),
        admin_sender(*t, sender) ==> (channel_chat(t.broadcast_channel) matches Some(chat) ==> r@.len() == 2 && r@[0].to
            == Some(chat as i64) && r@[0].text@ == message_text@ && r@[1].text@
            == "Sends a message to the broadcast channel"@),
{
    if !is_authorized_sender(&t.admins, sender) {
        return Vec::new();
    }
    relay(&t.broadcast_channel, message_text, "Broadcast channel is not set.", "Sends a message to the broadcast channel")
}

/// Relays a message to the group channel.
pub fn msg_group_command(t: &Tournament, sender: Option<&str>, message_text: String) -> (r: Vec<Reply>)
    ensures
        !admin_sender(*t, sender) ==> r@.len() == 0,
        admin_sender(*t, sender) && t.group_channel is None ==> told(r@, "Group channel is not set."@),
        admin_sender(*t, sender) && t.group_channel is Some && channel_chat(t.group_channel) is None ==> told(
            r@,
            "The channel id is not a number."@,
        ),
        admin_sender(*t, sender) ==> (channel_chat(t.group_channel) matches Some(chat) ==> r@.len() == 2 && r@[0].to
            == Some(chat as i64) && r@[0].text@ == message_text@ && r@[1].text@ == "Sent the message to the group channel"@),
{
    if !is_authorized_sender(&t.admins, sender) {
        return Vec::new();
    }
    relay(&t.group_channel, message_text, "Group channel is not set.", "Sent the message to the group channel")
}

} // verus!
