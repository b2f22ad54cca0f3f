use rusic::album_queue::album_queue;
use rusic::models::Track;

fn t(title: &str, album: &str, disc: Option<u32>, no: Option<u32>) -> Track {
    Track {
        path: format!("/m/{title}"),
        album_id: album.to_string(),
        title: title.to_string(),
        artist: String::new(),
        album: String::new(),
        duration: 0,
        khz: 0,
        bitrate: 0,
        track_number: no,
        disc_number: disc,
        musicbrainz_release_id: None,
        playlist_item_id: None,
    }
}

#[test]
fn album_tracks_are_ordered_by_disc_then_number_stably() {
    let local = vec![
        t("c", "A", Some(2), Some(1)),
        t("x", "B", Some(1), Some(1)),
        t("b", "A", None, Some(2)),
        t("a", "A", Some(1), Some(1)),
        t("d", "A", None, None),
        t("e", "A", Some(1), None),
    ];
    let q = album_queue(&local, &vec![], "A");
    let titles: Vec<&str> = q.iter().map(|t| t.title.as_str()).collect();
    assert_eq!(titles, vec!["d", "e", "a", "b", "c"]);
}

#[test]
fn remote_albums_use_the_server_list() {
    let remote = vec![t("r2", "jellyfin:9", None, Some(2)), t("r1", "jellyfin:9", None, Some(1))];
    let local = vec![t("l", "jellyfin:9", None, Some(1))];
    let q = album_queue(&local, &remote, "jellyfin:9");
    let titles: Vec<&str> = q.iter().map(|t| t.title.as_str()).collect();
    assert_eq!(titles, vec!["r1", "r2"]);
    assert!(album_queue(&local, &remote, "none").is_empty());
}
