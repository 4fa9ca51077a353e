use rps_tournament::commands::{
    add_admin_command, approveplayer_command, get_group_broadcast_id_command, msg_broadcastchannel_command,
    msg_group_command, reset_group_broadcast_command, set_broadcast_channel_command, set_group_channel_command, list_admins_command, playpaper_command, playrock_command,
    refuseplayer_command, remove_admin_command, signup_command, start_new_season_command, start_round_command,
    startgamingphase_command, startsignupphase_command, status_command, stop_new_season_command, stop_round_command,
    stopgamingphase_command, stopsignupphase_command, view_approved_list_command, view_signuplist_command,
    viewleaderboard_command, viewrefusedlist_command, Reply,
};
use rps_tournament::phase::SeasonStatus;
use rps_tournament::store::Tournament;

const ADMIN: Option<&str> = Some("juno0x153");

fn now() -> String {
    "2024-05-01 12:00:00".to_string()
}

fn text(r: &[Reply]) -> &str {
    assert_eq!(r.len(), 1);
    assert!(r[0].to.is_none());
    &r[0].text
}

#[test]
fn strangers_get_no_answer() {
    let mut t = Tournament::new();
    assert!(start_new_season_command(&mut t, Some("mallory"), "Spring 4", now()).is_empty());
    assert!(start_new_season_command(&mut t, None, "Spring 4", now()).is_empty());
    assert!(t.seasons.is_empty());
}

#[test]
fn season_command_arguments() {
    let mut t = Tournament::new();
    let r = start_new_season_command(&mut t, ADMIN, "Spring", now());
    assert_eq!(text(&r), "The command should be used like this '/startnewseason <Title> <Number of Players>'.");
    let r = start_new_season_command(&mut t, ADMIN, "Spring four", now());
    assert_eq!(text(&r), "Invalid number format for max players.");
    let r = start_new_season_command(&mut t, ADMIN, " Spring  4 ", now());
    assert_eq!(text(&r), "A new rock-paper-scissors season 'Spring' has started! Maximum players allowed: 4. Let the games begin.");
    let r = start_new_season_command(&mut t, ADMIN, "Summer 4", now());
    assert_eq!(
        text(&r),
        "A season is already in progress: 'Spring'. Another season cannot be started until the current one is concluded."
    );
    let r = status_command(&t);
    assert_eq!(text(&r), "Current active season: 'Spring'\nStarted on: 2024-05-01 12:00:00\nMax players: 4\nStatus: initial");
}

#[test]
fn phase_commands_explain_refusals() {
    let mut t = Tournament::new();
    let r = startsignupphase_command(&mut t, ADMIN);
    assert_eq!(text(&r), "There is no active season currently.");
    start_new_season_command(&mut t, ADMIN, "Spring 4", now());
    let r = stopsignupphase_command(&mut t, ADMIN);
    assert_eq!(text(&r), "Signup has not started yet. Start the signup phase first.");
    let r = startsignupphase_command(&mut t, ADMIN);
    assert_eq!(
        text(&r),
        "The signup phase for the new rock-paper-scissors season 'Spring' is now open. Interested players can register."
    );
    let r = startsignupphase_command(&mut t, ADMIN);
    assert_eq!(text(&r), "Signup has already started.");
    let r = startgamingphase_command(&mut t, ADMIN);
    assert_eq!(text(&r), "The signup phase has not been completed. Please finish it first.");
    let r = stopgamingphase_command(&mut t, ADMIN);
    assert_eq!(
        text(&r),
        "The signup phase has not been completed. Please finish it first, and then start the gaming phase."
    );
    assert_eq!(t.seasons[0].status, SeasonStatus::StartSignup);
}

#[test]
fn full_round_through_commands() {
    let mut t = Tournament::new();
    start_new_season_command(&mut t, ADMIN, "Spring 4", now());
    startsignupphase_command(&mut t, ADMIN);
    let r = signup_command(&mut t, 11, Some("alice"));
    assert_eq!(text(&r), "You have successfully signed up to the waitinglist for the game!");
    let r = signup_command(&mut t, 11, Some("alice"));
    assert_eq!(text(&r), "You are already on the waitinglist for this game.");
    signup_command(&mut t, 22, Some("bob"));
    signup_command(&mut t, 33, None);
    let r = approveplayer_command(&mut t, ADMIN, "alice");
    assert_eq!(r.len(), 2);
    assert_eq!(r[0].text, "Player 'alice' has been accepted for participation.");
    assert_eq!(r[1].to, Some(11));
    assert_eq!(r[1].text, "Your registration to the new game Spring has been accepted!");
    approveplayer_command(&mut t, ADMIN, "bob");
    let r = refuseplayer_command(&mut t, ADMIN, "unknown");
    assert_eq!(text(&r), "Player 'unknown' has been refused participation.");
    let r = refuseplayer_command(&mut t, ADMIN, "nobody");
    assert_eq!(text(&r), "No pending player found with the given username for the current season.");
    let r = view_signuplist_command(&t, ADMIN);
    assert_eq!(
        text(&r),
        "List of players who have signed up:\n@alice - accepted\n@bob - accepted\n@unknown - refused"
    );
    let r = view_approved_list_command(&t, ADMIN);
    assert_eq!(text(&r), "List of players who have signed up:\n@alice - accepted\n@bob - accepted");
    let r = viewrefusedlist_command(&t, ADMIN);
    assert_eq!(text(&r), "List of players who have signed up:\n@unknown - refused");
    let r = signup_command(&mut t, 44, Some("dave"));
    stopsignupphase_command(&mut t, ADMIN);
    assert_eq!(r[0].text, "You have successfully signed up to the waitinglist for the game!");
    let r = signup_command(&mut t, 55, Some("erin"));
    assert_eq!(text(&r), "Signups are currently closed.");
    let r = start_round_command(&mut t, ADMIN, now());
    assert_eq!(text(&r), "There is no active season in the 'start_gaming' phase.");
    startgamingphase_command(&mut t, ADMIN);
    let r = start_round_command(&mut t, ADMIN, now());
    assert_eq!(text(&r), "Finally, let us start the round!");
    let r = stopsignupphase_command(&mut t, ADMIN);
    assert_eq!(text(&r), "A round is going on, you cannot stop signing up.");
    assert_eq!(t.seasons[0].status, SeasonStatus::RoundOngoing);
    let r = playrock_command(&mut t, 11, now());
    assert_eq!(text(&r), "Playing the rock hand 🪨.");
    let r = playrock_command(&mut t, 11, now());
    assert_eq!(text(&r), "You have already played this round.");
    let r = playpaper_command(&mut t, 33, now());
    assert_eq!(text(&r), "You are not part of the current game.");
    let r = playpaper_command(&mut t, 22, now());
    assert_eq!(text(&r), "Playing the paper hand 📜.");
    let r = stop_round_command(&mut t, ADMIN, now());
    assert_eq!(r.len(), 2);
    assert_eq!(r[0].text, "Round is over, everyone back to their corner!");
    let line = &r[1].text;
    assert!(
        line == "@bob played 📜 and won against @alice's 🪨\n" || line == "@alice played 🪨 and lost against @bob's 📜\n"
    );
    let r = viewleaderboard_command(&t);
    assert_eq!(text(&r), "🏆 Leaderboard 🏆\n1. @bob - 2 points\n2. @alice - 0 points\n");
    let r = stop_new_season_command(&mut t, ADMIN, now());
    assert_eq!(r.len(), 2);
    assert_eq!(r[0].text, "The season 'Spring' has been successfully concluded.");
    assert_eq!(r[1].text, "🏆 Final Spring Leaderboard 🏆\n1. @bob - 2 points\n2. @alice - 0 points\n");
    let r = stop_new_season_command(&mut t, ADMIN, now());
    assert_eq!(text(&r), "There is no active season to conclude.");
}

#[test]
fn forfeit_notices_go_to_players() {
    let mut t = Tournament::new();
    start_new_season_command(&mut t, ADMIN, "Spring 4", now());
    startsignupphase_command(&mut t, ADMIN);
    signup_command(&mut t, 1, Some("ann"));
    signup_command(&mut t, 2, Some("ben"));
    approveplayer_command(&mut t, ADMIN, "ann");
    approveplayer_command(&mut t, ADMIN, "ben");
    stopsignupphase_command(&mut t, ADMIN);
    startgamingphase_command(&mut t, ADMIN);
    start_round_command(&mut t, ADMIN, now());
    playrock_command(&mut t, 1, now());
    let r = stop_round_command(&mut t, ADMIN, now());
    assert_eq!(r[0].to, Some(2));
    assert_eq!(r[0].text, "Your hand was empty for this round.");
    assert_eq!(r[1].text, "Round is over, everyone back to their corner!");
    assert!(r[2].text == "@ben did not play a hand and lost.\n" || r[2].text == "@ann played 🪨 and won against @ben's 🚫\n");
    let r = stop_round_command(&mut t, ADMIN, now());
    assert_eq!(text(&r), "There is no active season in the 'round_ongoing' phase.");
}

#[test]
fn admin_commands() {
    let mut t = Tournament::new();
    let r = add_admin_command(&mut t, ADMIN, "  ");
    assert_eq!(text(&r), "Please provide a non-empty username.");
    let r = add_admin_command(&mut t, ADMIN, "a b");
    assert_eq!(text(&r), "Only one username please, no spaces.");
    let r = add_admin_command(&mut t, ADMIN, "eve");
    assert_eq!(text(&r), "Added @eve to admin list.");
    let r = add_admin_command(&mut t, Some("eve"), "eve");
    assert_eq!(text(&r), "@eve is already an admin.");
    let r = list_admins_command(&t, ADMIN);
    assert_eq!(text(&r), "Admins:\n@juno0x153\n@novo2424\n@eve\n");
    let r = remove_admin_command(&mut t, ADMIN, "eve");
    assert_eq!(text(&r), "Removed @eve from admin list.");
    let r = remove_admin_command(&mut t, ADMIN, "eve");
    assert_eq!(text(&r), "User @eve is not in the admin list.");
    assert!(list_admins_command(&t, Some("eve")).is_empty());
}

#[test]
fn channel_settings() {
    let mut t = Tournament::new();
    let r = msg_broadcastchannel_command(&t, ADMIN, "hi".to_string());
    assert_eq!(text(&r), "Broadcast channel is not set.");
    let r = set_broadcast_channel_command(&mut t, ADMIN, "12a");
    assert_eq!(
        text(&r),
        "The command should be used like this '/setbroadcastchannel <ChannelID>'. Make sure the ChannelID is a numeric value. Contact the dev if you need help."
    );
    let r = set_broadcast_channel_command(&mut t, ADMIN, " 1001234 ");
    assert_eq!(text(&r), "Broadcast channel set to: 1001234");
    let r = get_group_broadcast_id_command(&t, ADMIN);
    assert_eq!(text(&r), "Broadcast Channel ID: \"1001234\"\nGroup Channel ID: \"Not set\"");
    let r = msg_broadcastchannel_command(&t, ADMIN, "hello".to_string());
    assert_eq!(r.len(), 2);
    assert_eq!(r[0].to, Some(-1001234));
    assert_eq!(r[0].text, "hello");
    assert_eq!(r[1].text, "Sends a message to the broadcast channel");
    let r = set_group_channel_command(&mut t, ADMIN, "77");
    assert_eq!(text(&r), "Group channel set to: 77");
    let r = msg_group_command(&t, ADMIN, "team".to_string());
    assert_eq!(r[0].to, Some(-77));
    let r = reset_group_broadcast_command(&mut t, ADMIN);
    assert_eq!(text(&r), "Group and broadcast channel settings have been reset.");
    assert!(t.broadcast_channel.is_none() && t.group_channel.is_none());
}
