use rusic::config::JellyfinServer;
use rusic::controller::{use_player_controller, PlayAction, PlayerCommand, PlayerController};
use rusic::models::Track;
use rusic::keyed::StrMap;
use rusic::ticker::{count_listen, handle_command, initial_tick_state, tick, BgCmd, CommandEffect, TickInput};

fn track(path: &str) -> Track {
    Track {
        path: path.to_string(),
        album_id: String::new(),
        title: "T".to_string(),
        artist: String::new(),
        album: String::new(),
        duration: 100,
        khz: 0,
        bitrate: 0,
        track_number: None,
        disc_number: None,
        musicbrainz_release_id: None,
        playlist_item_id: None,
    }
}

fn input(secs: u64) -> TickInput {
    TickInput {
        pos_micros: secs * 1_000_000,
        secs_since_ping: 0,
        secs_since_progress_report: 0,
        player_empty: false,
        server_active: true,
    }
}

fn ctrl(paths: &[&str]) -> PlayerController {
    let mut c = use_player_controller();
    c.set_queue(paths.iter().map(|p| track(p)).collect());
    c.current_song_duration = 100;
    c
}

#[test]
fn remote_playback_is_reported_once_per_item() {
    let mut c = ctrl(&["jellyfin:one", "jellyfin:two:tag"]);
    c.is_playing = true;
    let mut s = initial_tick_state();
    let out = tick(&mut s, &mut c, input(10), None);
    assert!(out.report_stopped.is_none());
    assert_eq!(out.report_start.as_deref(), Some("one"));
    // playing changed from false to true: position is reported
    assert_eq!(out.report_progress, Some(("one".to_string(), 100_000_000, false)));
    assert_eq!(c.current_song_progress, 10);
    let out = tick(&mut s, &mut c, input(11), None);
    assert!(out.report_start.is_none());
    assert!(out.report_progress.is_none());
    c.current_queue_index = 1;
    let out = tick(&mut s, &mut c, input(12), None);
    assert_eq!(out.report_stopped, Some(("one".to_string(), 120_000_000)));
    assert_eq!(out.report_start.as_deref(), Some("two"));
    assert_eq!(s.last_jellyfin_id.as_deref(), Some("two"));
}

#[test]
fn leaving_remote_tracks_reports_stop() {
    let mut c = ctrl(&["jellyfin:one", "/local.mp3"]);
    let mut s = initial_tick_state();
    tick(&mut s, &mut c, input(1), None);
    c.current_queue_index = 1;
    let out = tick(&mut s, &mut c, input(2), None);
    assert_eq!(out.report_stopped, Some(("one".to_string(), 20_000_000)));
    assert!(s.last_jellyfin_id.is_none());
}

#[test]
fn ping_every_thirty_seconds_with_a_server() {
    let mut c = ctrl(&[]);
    let mut s = initial_tick_state();
    let mut i = input(0);
    i.secs_since_ping = 30;
    assert!(tick(&mut s, &mut c, i, None).ping);
    i.secs_since_ping = 29;
    assert!(!tick(&mut s, &mut c, i, None).ping);
    i.secs_since_ping = 31;
    i.server_active = false;
    assert!(!tick(&mut s, &mut c, i, None).ping);
}

#[test]
fn finished_local_track_moves_on_and_counts_a_listen() {
    let mut c = ctrl(&["/a.mp3", "/b.mp3"]);
    c.is_playing = true;
    let mut s = initial_tick_state();
    let mut i = input(3);
    i.player_empty = true;
    i.server_active = false;
    let out = tick(&mut s, &mut c, i, None);
    assert_eq!(out.listen_played.as_deref(), Some("/a.mp3"));
    assert!(matches!(out.next, Some(PlayAction::OpenLocal { .. })));
    assert_eq!(c.current_queue_index, 1);
    assert!(c.skip_in_progress);
}

#[test]
fn remote_track_ends_at_its_length_and_position_is_capped() {
    let mut c = ctrl(&["jellyfin:x"]);
    c.is_playing = true;
    let mut s = initial_tick_state();
    let mut i = input(150);
    i.server_active = false;
    i.player_empty = true;
    let out = tick(&mut s, &mut c, i, None);
    assert_eq!(c.current_song_progress, 100);
    assert_eq!(out.listen_played.as_deref(), Some("jellyfin:x"));
    // the only track ended and nothing loops: playback stops
    assert!(matches!(out.next, Some(PlayAction::Nothing)));
    assert!(!c.is_playing);
}

#[test]
fn no_skip_while_loading() {
    let mut c = ctrl(&["/a.mp3"]);
    c.is_playing = true;
    c.is_loading = true;
    let mut s = initial_tick_state();
    let mut i = input(200);
    i.server_active = false;
    let out = tick(&mut s, &mut c, i, None);
    assert!(out.next.is_none());
    assert!(out.listen_played.is_none());
}

#[test]
fn commands_drive_the_controller() {
    let mut c = ctrl(&["/a.mp3", "/b.mp3"]);
    let srv: Option<&JellyfinServer> = None;
    assert!(matches!(handle_command(&mut c, BgCmd::Play, srv), CommandEffect::Player(PlayerCommand::Resume)));
    assert!(c.is_playing);
    assert!(matches!(handle_command(&mut c, BgCmd::Toggle, srv), CommandEffect::Player(PlayerCommand::Pause)));
    assert!(matches!(handle_command(&mut c, BgCmd::Next, srv), CommandEffect::Start(PlayAction::OpenLocal { .. })));
    assert_eq!(c.current_queue_index, 1);
    assert!(matches!(handle_command(&mut c, BgCmd::Prev, srv), CommandEffect::Start(PlayAction::OpenLocal { .. })));
    assert_eq!(c.current_queue_index, 0);
    assert!(matches!(handle_command(&mut c, BgCmd::Pause, srv), CommandEffect::Player(PlayerCommand::Pause)));
    assert!(!c.is_playing);
}

#[test]
fn listens_are_counted_per_path() {
    let mut counts: StrMap<u64> = StrMap::new();
    count_listen(&mut counts, "/a.mp3");
    count_listen(&mut counts, "/a.mp3");
    count_listen(&mut counts, "jellyfin:7");
    assert_eq!(counts.get("/a.mp3"), Some(&2));
    assert_eq!(counts.get("jellyfin:7"), Some(&1));
    assert_eq!(counts.get("/b.mp3"), None);
    assert_eq!(counts.len(), 2);
}
