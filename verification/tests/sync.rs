use rusic::jellyfin::{AlbumItem, Genre, Item, ViewItem};
use rusic::models::{Album, Track};
use rusic::sync::{sync_start, RequestCounter, SyncAction, SyncEvent, SyncPhase};

fn view(id: &str) -> ViewItem {
    ViewItem { name: id.to_string(), id: id.to_string(), collection_type: Some("music".to_string()) }
}

fn album_item(id: &str) -> AlbumItem {
    AlbumItem {
        name: format!("Album {id}"),
        id: id.to_string(),
        album_artist: Some("Artist".to_string()),
        artists: None,
        production_year: Some(2001),
        genres: None,
        image_tags: None,
        child_count: None,
    }
}

fn item(id: &str) -> Item {
    Item {
        name: format!("Song {id}"),
        id: id.to_string(),
        item_type: "Audio".to_string(),
        run_time_ticks: Some(1_800_000_000),
        album: None,
        album_id: None,
        artists: None,
        album_artist: None,
        image_tags: None,
        index_number: None,
        parent_index_number: None,
        production_year: None,
        genres: None,
        container: None,
        bitrate: None,
        sample_rate: None,
    }
}

fn is_albums(a: &SyncAction, lib: &str, start: usize) -> bool {
    matches!(a, SyncAction::FetchAlbums { library_id, start: s, limit: 100 } if library_id == lib && *s == start)
}

fn is_tracks(a: &SyncAction, lib: &str, start: usize) -> bool {
    matches!(a, SyncAction::FetchTracks { library_id, start: s, limit: 200 } if library_id == lib && *s == start)
}

#[test]
fn sync_walks_every_library() {
    let libs = vec![view("L1"), view("L2")];
    let (mut s, a) = sync_start(&libs, Vec::<Track>::new(), Vec::<Album>::new());
    assert!(is_albums(&a, "L1", 0));

    let a = s.step(SyncEvent::Albums(Some(vec![album_item("a1"), album_item("a2"), album_item("a1")])));
    assert!(is_tracks(&a, "L1", 0));
    let ids: Vec<&str> = s.albums.iter().map(|a| a.id.as_str()).collect();
    assert_eq!(ids, vec!["jellyfin:a1", "jellyfin:a2"]);

    let a = s.step(SyncEvent::Tracks(Some(vec![item("t1")])));
    assert!(matches!(a, SyncAction::FetchGenres));
    assert_eq!(s.tracks.len(), 1);
    assert_eq!(s.tracks[0].path, "jellyfin:t1");
    assert_eq!(s.tracks[0].duration, 180);

    let a = s.step(SyncEvent::Genres(Some(vec![Genre { name: "Rock".to_string(), id: "g1".to_string() }])));
    assert!(is_albums(&a, "L2", 0));
    assert_eq!(s.genres, Some(vec![("Rock".to_string(), "g1".to_string())]));

    let a = s.step(SyncEvent::Albums(None));
    assert!(is_tracks(&a, "L2", 0));
    let a = s.step(SyncEvent::Tracks(Some(vec![])));
    assert!(matches!(a, SyncAction::FetchGenres));
    let a = s.step(SyncEvent::Genres(None));
    assert!(matches!(a, SyncAction::Done));
    assert_eq!(s.phase, SyncPhase::Finished);
    assert_eq!(s.genres, Some(vec![("Rock".to_string(), "g1".to_string())]));
    assert!(matches!(s.step(SyncEvent::Genres(None)), SyncAction::Done));
}

#[test]
fn full_pages_ask_for_more() {
    let (mut s, _) = sync_start(&vec![view("L")], vec![], vec![]);
    let page: Vec<AlbumItem> = (0..100).map(|i| album_item(&format!("a{i}"))).collect();
    let a = s.step(SyncEvent::Albums(Some(page)));
    assert!(is_albums(&a, "L", 100));
    let a = s.step(SyncEvent::Albums(Some(vec![album_item("last")])));
    assert!(is_tracks(&a, "L", 0));
    assert_eq!(s.albums.len(), 101);

    let page: Vec<Item> = (0..200).map(|i| item(&format!("t{i}"))).collect();
    let a = s.step(SyncEvent::Tracks(Some(page)));
    assert!(is_tracks(&a, "L", 200));
    let a = s.step(SyncEvent::Tracks(Some(vec![item("t0")])));
    assert!(matches!(a, SyncAction::FetchGenres));
    assert_eq!(s.tracks.len(), 200);
}

#[test]
fn no_libraries_means_nothing_to_fetch() {
    let (s, a) = sync_start(&vec![], vec![], vec![]);
    assert!(matches!(a, SyncAction::Done));
    assert_eq!(s.phase, SyncPhase::Finished);
}

#[test]
fn answers_out_of_turn_change_nothing() {
    let (mut s, _) = sync_start(&vec![view("L")], vec![], vec![]);
    let a = s.step(SyncEvent::Tracks(Some(vec![item("t")])));
    assert!(is_albums(&a, "L", 0));
    assert!(s.tracks.is_empty());
}

#[test]
fn answers_of_a_replaced_fetch_are_dropped() {
    let (mut s, _) = sync_start(&vec![view("L")], vec![], vec![]);
    let a = s.step_if_current(SyncEvent::Albums(Some(vec![album_item("a1")])), 1, 2);
    assert!(matches!(a, SyncAction::Done));
    assert!(s.albums.is_empty());
    assert_eq!(s.phase, SyncPhase::Finished);
    let (mut s, _) = sync_start(&vec![view("L")], vec![], vec![]);
    let a = s.step_if_current(SyncEvent::Albums(Some(vec![album_item("a1")])), 2, 2);
    assert!(is_tracks(&a, "L", 0));
    assert_eq!(s.albums.len(), 1);
}

#[test]
fn only_the_latest_request_counts() {
    let mut c = RequestCounter::new();
    let first = c.start();
    assert!(c.is_latest(first));
    let second = c.start();
    assert_eq!(second, first + 1);
    assert!(!c.is_latest(first));
    assert!(c.is_latest(second));
}
