use rusic::presence::{cover_resolved, initial_presence_state, presence_step, PresenceInput, PresenceUpdate};

fn input(playing: bool, enabled: bool, title: &str, cover: &str) -> PresenceInput {
    PresenceInput {
        is_playing: playing,
        enabled,
        has_presence: true,
        title: title.to_string(),
        artist: "Ar".to_string(),
        album: "Al".to_string(),
        progress_secs: 5,
        duration: 100,
        cover: cover.to_string(),
    }
}

#[test]
fn new_song_with_web_cover_is_shown_with_it() {
    let mut s = initial_presence_state();
    let out = presence_step(&mut s, input(true, true, "Song", "http://img/x.jpg"));
    assert!(!out.resolve_cover);
    match out.update {
        Some(PresenceUpdate::NowPlaying { title, cover, progress, duration, .. }) => {
            assert_eq!(title, "Song");
            assert_eq!(cover.as_deref(), Some("http://img/x.jpg"));
            assert_eq!((progress, duration), (5, 100));
        }
        other => panic!("unexpected {:?}", other),
    }
    assert!(s.cover_sent);
    // same song, nothing new: no update
    let out = presence_step(&mut s, input(true, true, "Song", "http://img/x.jpg"));
    assert!(out.update.is_none());
}

#[test]
fn local_cover_is_resolved_then_sent() {
    let mut s = initial_presence_state();
    let out = presence_step(&mut s, input(true, true, "Song", "artwork://local?p=x"));
    assert!(out.resolve_cover);
    assert!(matches!(out.update, Some(PresenceUpdate::NowPlaying { cover: None, .. })));
    cover_resolved(&mut s, Some("http://caa/1.jpg".to_string()));
    let out = presence_step(&mut s, input(true, true, "Song", "artwork://local?p=x"));
    match out.update {
        Some(PresenceUpdate::NowPlaying { cover, .. }) => assert_eq!(cover.as_deref(), Some("http://caa/1.jpg")),
        other => panic!("unexpected {:?}", other),
    }
}

#[test]
fn pausing_and_disabling() {
    let mut s = initial_presence_state();
    presence_step(&mut s, input(true, true, "Song", "http://c"));
    let out = presence_step(&mut s, input(false, true, "Song", "http://c"));
    assert!(matches!(out.update, Some(PresenceUpdate::Paused { .. })));
    let out = presence_step(&mut s, input(false, false, "Song", "http://c"));
    assert!(matches!(out.update, Some(PresenceUpdate::Clear)));
    let out = presence_step(&mut s, input(false, false, "Song", "http://c"));
    assert!(out.update.is_none());
    let out = presence_step(&mut s, input(false, true, "Song", "http://c"));
    assert!(matches!(out.update, Some(PresenceUpdate::Paused { .. })));
}

#[test]
fn without_presence_nothing_is_sent() {
    let mut s = initial_presence_state();
    let mut i = input(true, true, "Song", "http://c");
    i.has_presence = false;
    let out = presence_step(&mut s, i);
    assert!(out.update.is_none() && !out.resolve_cover);
    assert!(s.was_playing && s.last_enabled);
}
