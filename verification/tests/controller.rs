use rusic::config::JellyfinServer;
use rusic::controller::{
    listen_auth_header, scrobble_threshold_secs, use_player_controller, LoopMode, NextStep, PlayAction,
    PlayerCommand, PlayerController,
};
use rusic::models::Track;

fn track(path: &str, title: &str) -> Track {
    Track {
        path: path.to_string(),
        album_id: "a1".to_string(),
        title: title.to_string(),
        artist: "Artist".to_string(),
        album: "Album".to_string(),
        duration: 200,
        khz: 44100,
        bitrate: 200,
        track_number: None,
        disc_number: None,
        musicbrainz_release_id: None,
        playlist_item_id: None,
    }
}

fn queue_of(n: usize) -> PlayerController {
    let mut c = use_player_controller();
    let q = (0..n).map(|i| track(&format!("/music/{i}.flac"), &format!("T{i}"))).collect();
    c.set_queue(q);
    c
}

fn server() -> JellyfinServer {
    JellyfinServer {
        name: "home".to_string(),
        url: "http://srv:8096".to_string(),
        access_token: Some("tok".to_string()),
        user_id: Some("u1".to_string()),
    }
}

#[test]
fn loop_mode_cycles_through_three_modes() {
    assert_eq!(LoopMode::Off.next(), LoopMode::Queue);
    assert_eq!(LoopMode::Queue.next(), LoopMode::Track);
    assert_eq!(LoopMode::Track.next(), LoopMode::Off);
    let mut c = use_player_controller();
    c.toggle_loop();
    c.toggle_loop();
    c.toggle_loop();
    assert_eq!(c.loop_mode, LoopMode::Off);
}

#[test]
fn initial_controller_is_empty() {
    let c = use_player_controller();
    assert!(!c.is_playing);
    assert!(c.queue.is_empty());
    assert!(c.history.is_empty());
    assert_eq!(c.play_generation, 0);
    assert_eq!(c.loop_mode, LoopMode::Off);
}

#[test]
fn local_track_is_opened_and_reported() {
    let mut c = queue_of(3);
    let a = c.play_track(2, None);
    match a {
        PlayAction::OpenLocal { track, generation } => {
            assert_eq!(track.path, "/music/2.flac");
            assert_eq!(generation, 1);
        }
        other => panic!("unexpected {:?}", other),
    }
    assert_eq!(c.current_queue_index, 2);
    assert_eq!(c.history, vec![0]);
    let t = c.queue[2].clone();
    c.local_started(&t, "artwork://local?p=x".to_string());
    assert!(c.is_playing);
    assert_eq!(c.current_song_title, "T2");
    assert_eq!(c.current_song_progress, 0);
    assert_eq!(c.current_song_cover_url, "artwork://local?p=x");
}

#[test]
fn remote_track_builds_stream_and_cover_urls() {
    let mut c = use_player_controller();
    c.set_queue(vec![track("jellyfin:abc:tag9", "Remote")]);
    let srv = server();
    let a = c.play_track_no_history(0, Some(&srv));
    match a {
        PlayAction::StreamRemote { stream_url, cover_url, generation, track } => {
            assert_eq!(stream_url, "http://srv:8096/Audio/abc/stream?static=true&api_key=tok");
            assert_eq!(cover_url, "http://srv:8096/Items/abc/Images/Primary?tag=tag9&api_key=tok");
            assert_eq!(generation, 1);
            assert_eq!(track.title, "Remote");
        }
        other => panic!("unexpected {:?}", other),
    }
    assert!(c.is_loading);
    assert!(!c.is_playing);
    assert_eq!(c.current_song_title, "Remote");
    assert!(c.remote_ready(1));
    assert!(c.is_playing);
    assert!(!c.is_loading);
}

#[test]
fn remote_cover_without_token_has_no_query() {
    let mut c = use_player_controller();
    c.set_queue(vec![track("jellyfin:abc:tag9", "Remote")]);
    let mut srv = server();
    srv.access_token = None;
    match c.play_track_no_history(0, Some(&srv)) {
        PlayAction::StreamRemote { stream_url, cover_url, .. } => {
            assert_eq!(stream_url, "http://srv:8096/Audio/abc/stream?static=true");
            assert_eq!(cover_url, "http://srv:8096/Items/abc/Images/Primary");
        }
        other => panic!("unexpected {:?}", other),
    }
}

#[test]
fn remote_track_without_server_does_nothing_but_bump_generation() {
    let mut c = use_player_controller();
    c.set_queue(vec![track("jellyfin:abc", "Remote")]);
    let a = c.play_track_no_history(0, None);
    assert!(matches!(a, PlayAction::Nothing));
    assert_eq!(c.play_generation, 1);
    assert!(!c.is_loading);
}

#[test]
fn stale_stream_is_not_played() {
    let mut c = use_player_controller();
    c.set_queue(vec![track("jellyfin:a", "A"), track("jellyfin:b", "B")]);
    let srv = server();
    c.play_track(0, Some(&srv));
    c.play_track(1, Some(&srv));
    assert!(!c.remote_ready(1));
    assert!(!c.is_playing);
    assert!(c.remote_ready(2));
    c.remote_failed();
    assert!(!c.is_loading);
}

#[test]
fn next_goes_forward_and_stops_at_end() {
    let mut c = queue_of(2);
    assert!(matches!(c.play_next(None), PlayAction::OpenLocal { .. }));
    assert_eq!(c.current_queue_index, 1);
    c.is_playing = true;
    assert!(matches!(c.play_next(None), PlayAction::Nothing));
    assert!(!c.is_playing);
    assert_eq!(c.current_queue_index, 1);
}

#[test]
fn next_wraps_when_looping_queue_and_repeats_when_looping_track() {
    let mut c = queue_of(3);
    c.current_queue_index = 2;
    c.loop_mode = LoopMode::Queue;
    c.play_next(None);
    assert_eq!(c.current_queue_index, 0);
    c.loop_mode = LoopMode::Track;
    c.play_next(None);
    assert_eq!(c.current_queue_index, 0);
}

#[test]
fn next_step_is_exact() {
    let mut c = queue_of(4);
    c.current_queue_index = 1;
    assert_eq!(c.next_step(0), NextStep::Play(2));
    c.shuffle = true;
    assert_eq!(c.next_step(0), NextStep::Play(0));
    assert_eq!(c.next_step(1), NextStep::Play(2));
    assert_eq!(c.next_step(2), NextStep::Play(3));
    let empty = use_player_controller();
    assert_eq!(empty.next_step(0), NextStep::Nothing);
}

#[test]
fn shuffle_never_repeats_the_current_track() {
    let mut c = queue_of(3);
    c.shuffle = true;
    for _ in 0..50 {
        let before = c.current_queue_index;
        c.play_next(None);
        assert_ne!(c.current_queue_index, before);
        assert!(c.current_queue_index < 3);
    }
}

#[test]
fn previous_returns_through_history() {
    let mut c = queue_of(5);
    c.play_track(3, None);
    c.play_track(1, None);
    assert_eq!(c.history, vec![0, 3]);
    c.play_prev(None);
    assert_eq!(c.current_queue_index, 3);
    c.play_prev(None);
    assert_eq!(c.current_queue_index, 0);
    assert!(c.history.is_empty());
    c.play_prev(None);
    assert_eq!(c.current_queue_index, 0);
    c.loop_mode = LoopMode::Queue;
    c.play_prev(None);
    assert_eq!(c.current_queue_index, 4);
    c.play_prev(None);
    assert_eq!(c.current_queue_index, 3);
}

#[test]
fn history_does_not_record_the_same_entry_twice() {
    let mut c = queue_of(3);
    c.play_track(0, None);
    c.play_track(0, None);
    assert_eq!(c.history, vec![0]);
}

#[test]
fn toggle_pauses_and_resumes() {
    let mut c = use_player_controller();
    assert_eq!(c.toggle(), PlayerCommand::Resume);
    assert!(c.is_playing);
    assert_eq!(c.toggle(), PlayerCommand::Pause);
    assert!(!c.is_playing);
    c.toggle_shuffle();
    assert!(c.shuffle);
    c.toggle_shuffle();
    assert!(!c.shuffle);
}

#[test]
fn scrobble_threshold_is_half_capped_at_four_minutes() {
    assert_eq!(scrobble_threshold_secs(200), 100);
    assert_eq!(scrobble_threshold_secs(1000), 240);
    assert_eq!(scrobble_threshold_secs(481), 240);
    assert_eq!(scrobble_threshold_secs(0), 0);
}

#[test]
fn listen_auth_header_adds_token_scheme() {
    assert_eq!(listen_auth_header(""), None);
    assert_eq!(listen_auth_header("abc"), Some("Token abc".to_string()));
    assert_eq!(listen_auth_header("Bearer xyz"), Some("Bearer xyz".to_string()));
}

#[test]
fn listens_check_the_play_generation() {
    let mut c = queue_of(2);
    c.play_track(0, None);
    assert!(c.is_current_generation(1));
    c.play_next(None);
    assert!(!c.is_current_generation(1));
    assert!(c.is_current_generation(2));
}
