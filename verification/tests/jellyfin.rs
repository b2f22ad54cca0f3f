use rusic::jellyfin::{
    album_item_to_album, item_to_track, merge_albums, merge_tracks, music_libraries, next_page_start,
    AlbumItem, HttpMethod, Item, JellyfinRemote, RequestBody, ViewItem,
};
use rusic::keyed::StrMap;
use rusic::models::{Album, Track};

fn remote() -> JellyfinRemote {
    JellyfinRemote::new("http://srv:8096//", Some("tok"), "dev-1", Some("u1"))
}

fn pairs(q: &[(String, String)]) -> Vec<(&str, &str)> {
    q.iter().map(|(a, b)| (a.as_str(), b.as_str())).collect()
}

const AUTH: &str = "MediaBrowser Client=\"Rusic\", Device=\"Rusic\", DeviceId=\"dev-1\", Version=\"0.3.1\", Token=\"tok\"";

#[test]
fn new_trims_trailing_slashes() {
    let r = remote();
    assert_eq!(r.base_url, "http://srv:8096");
    assert_eq!(r.device_id, "dev-1");
    assert_eq!(r.user_id.as_deref(), Some("u1"));
    assert_eq!(r.access_token.as_deref(), Some("tok"));
}

#[test]
fn missing_credentials_are_reported() {
    let r = JellyfinRemote::new("http://srv", None, "d", None);
    assert_eq!(r.get_views().unwrap_err(), "No user ID available");
    assert_eq!(r.ping().unwrap_err(), "No access token available");
    let r = JellyfinRemote::new("http://srv", None, "d", Some("u"));
    assert_eq!(r.get_views().unwrap_err(), "No access token available");
    let r = JellyfinRemote::new("http://srv", Some("t"), "d", None);
    assert_eq!(r.get_genres().unwrap_err(), "No user ID available");
    assert!(r.report_playback_start("i").is_ok());
    assert!(r.get_metadata("u", "i").is_ok());
}

#[test]
fn login_request_has_no_token() {
    let r = JellyfinRemote::new("http://srv/", None, "dev-1", None);
    let q = r.login("alice", "pw");
    assert_eq!(q.method, HttpMethod::Post);
    assert_eq!(q.url, "http://srv/Users/AuthenticateByName");
    assert_eq!(q.auth_header, "MediaBrowser Client=\"Rusic\", Device=\"Rusic\", DeviceId=\"dev-1\", Version=\"0.3.1\"");
    match q.body {
        RequestBody::Login { username, password } => {
            assert_eq!(username, "alice");
            assert_eq!(password, "pw");
        }
        _ => panic!("wrong body"),
    }
    assert!(q.failure_with_text);
}

#[test]
fn complete_login_keeps_credentials() {
    let mut r = JellyfinRemote::new("http://srv", None, "d", None);
    let (t, u) = r.complete_login("T".to_string(), "U".to_string());
    assert_eq!((t.as_str(), u.as_str()), ("T", "U"));
    assert_eq!(r.access_token.as_deref(), Some("T"));
    assert_eq!(r.user_id.as_deref(), Some("U"));
    assert!(r.get_views().is_ok());
}

#[test]
fn views_and_metadata_urls() {
    let r = remote();
    let v = r.get_views().unwrap();
    assert_eq!(v.method, HttpMethod::Get);
    assert_eq!(v.url, "http://srv:8096/Users/u1/Views");
    assert_eq!(v.auth_header, AUTH);
    assert!(v.query.is_empty());
    assert_eq!(v.failure_prefix, "Failed to get views: ");
    let m = r.get_metadata("u2", "it").unwrap();
    assert_eq!(m.url, "http://srv:8096/Users/u2/Items/it/Metadata");
}

#[test]
fn paginated_items_query() {
    let r = remote();
    let q = r.get_music_library_items_paginated("lib", 200, 50).unwrap();
    assert_eq!(q.url, "http://srv:8096/Users/u1/Items");
    assert_eq!(
        pairs(&q.query),
        vec![
            ("ParentId", "lib"),
            ("Recursive", "true"),
            ("IncludeItemTypes", "Audio"),
            ("Fields", "DateCreated,DateLastMediaAdded,MediaSources,ImageTags,Genres,ParentIndexNumber,IndexNumber,AlbumId,AlbumArtist,ProductionYear,Container"),
            ("StartIndex", "200"),
            ("Limit", "50"),
        ]
    );
    let a = r.get_albums_paginated("lib", 0, 100).unwrap();
    assert_eq!(pairs(&a.query)[4..].to_vec(), vec![("SortBy", "SortName"), ("SortOrder", "Ascending"), ("StartIndex", "0"), ("Limit", "100")]);
}

#[test]
fn playlist_requests() {
    let r = remote();
    let c = r.create_playlist("Mix", &vec!["x".to_string(), "y".to_string()]).unwrap();
    assert_eq!(c.url, "http://srv:8096/Playlists");
    match c.body {
        RequestBody::CreatePlaylist { name, user_id, media_type, is_public, ids } => {
            assert_eq!(name, "Mix");
            assert_eq!(user_id, "u1");
            assert_eq!(media_type, "Audio");
            assert!(is_public);
            assert_eq!(ids, vec!["x".to_string(), "y".to_string()]);
        }
        _ => panic!("wrong body"),
    }
    let a = r.add_to_playlist("p1", "i1").unwrap();
    assert_eq!(a.method, HttpMethod::Post);
    assert_eq!(a.url, "http://srv:8096/Playlists/p1/Items");
    assert_eq!(pairs(&a.query), vec![("Ids", "i1"), ("UserId", "u1")]);
    let g = r.get_playlist_items("p1").unwrap();
    assert_eq!(g.method, HttpMethod::Get);
    assert_eq!(g.url, "http://srv:8096/Playlists/p1/Items");
    let p = r.get_playlists().unwrap();
    assert_eq!(pairs(&p.query), vec![("IncludeItemTypes", "Playlist"), ("Recursive", "true"), ("Fields", "DateCreated,DateLastMediaAdded"), ("MediaTypes", "Audio")]);
}

#[test]
fn session_reports() {
    let r = remote();
    let s = r.report_playback_start("it").unwrap();
    assert_eq!(s.url, "http://srv:8096/Sessions/Playing");
    match s.body {
        RequestBody::PlaybackProgress { item_id, position_ticks, is_paused, can_seek } => {
            assert_eq!(item_id, "it");
            assert_eq!(position_ticks, Some(0));
            assert_eq!(is_paused, Some(false));
            assert_eq!(can_seek, Some(true));
        }
        _ => panic!("wrong body"),
    }
    let p = r.report_playback_progress("it", 1234, true).unwrap();
    assert_eq!(p.url, "http://srv:8096/Sessions/Playing/Progress");
    match p.body {
        RequestBody::PlaybackProgress { position_ticks, is_paused, .. } => {
            assert_eq!(position_ticks, Some(1234));
            assert_eq!(is_paused, Some(true));
        }
        _ => panic!("wrong body"),
    }
    let st = r.report_playback_stopped("it", 99).unwrap();
    assert_eq!(st.url, "http://srv:8096/Sessions/Playing/Stopped");
    assert!(matches!(st.body, RequestBody::PlaybackStop { position_ticks: Some(99), .. }));
    assert_eq!(r.ping().unwrap().url, "http://srv:8096/Sessions/Ping");
}

#[test]
fn favorites_requests() {
    let r = remote();
    let m = r.mark_favorite("it").unwrap();
    assert_eq!((m.method, m.url.as_str()), (HttpMethod::Post, "http://srv:8096/Users/u1/FavoriteItems/it"));
    let u = r.unmark_favorite("it").unwrap();
    assert_eq!((u.method, u.url.as_str()), (HttpMethod::Delete, "http://srv:8096/Users/u1/FavoriteItems/it"));
    let f = r.get_favorite_items().unwrap();
    assert_eq!(pairs(&f.query)[0], ("Filters", "IsFavorite"));
    let g = r.get_genres().unwrap();
    assert_eq!(g.url, "http://srv:8096/Genres");
    assert_eq!(pairs(&g.query), vec![("UserId", "u1"), ("Recursive", "true"), ("IncludeItemTypes", "Audio")]);
}

fn tags(primary: Option<&str>) -> Option<StrMap<String>> {
    primary.map(|p| {
        let mut m = StrMap::new();
        m.insert("Primary".to_string(), p.to_string());
        m
    })
}

fn item(id: &str) -> Item {
    Item {
        name: "Song".to_string(),
        id: id.to_string(),
        item_type: "Audio".to_string(),
        run_time_ticks: Some(2_450_000_000),
        album: Some("Alb".to_string()),
        album_id: Some("al9".to_string()),
        artists: Some(vec!["A".to_string(), "B".to_string()]),
        album_artist: None,
        image_tags: tags(Some("t1")),
        index_number: Some(3),
        parent_index_number: Some(1),
        production_year: Some(2001),
        genres: None,
        container: None,
        bitrate: Some(320_000),
        sample_rate: Some(48000),
    }
}

#[test]
fn item_becomes_track() {
    let t = item_to_track(item("i1"));
    assert_eq!(t.path, "jellyfin:i1:t1");
    assert_eq!(t.album_id, "jellyfin:al9");
    assert_eq!(t.title, "Song");
    assert_eq!(t.artist, "A, B");
    assert_eq!(t.album, "Alb");
    assert_eq!(t.duration, 245);
    assert_eq!(t.khz, 48000);
    assert_eq!(t.bitrate, 255);
    assert_eq!(t.track_number, Some(3));
    assert_eq!(t.disc_number, Some(1));
    let mut plain = item("i2");
    plain.image_tags = None;
    plain.bitrate = Some(128_000);
    plain.album_artist = Some("AA".to_string());
    plain.album_id = None;
    let t = item_to_track(plain);
    assert_eq!(t.path, "jellyfin:i2");
    assert_eq!(t.bitrate, 128);
    assert_eq!(t.artist, "AA");
    assert_eq!(t.album_id, "");
}

#[test]
fn album_item_becomes_album() {
    let a = album_item_to_album(AlbumItem {
        name: "Alb".to_string(),
        id: "al9".to_string(),
        album_artist: None,
        artists: None,
        production_year: None,
        genres: Some(vec!["Rock".to_string(), "Pop".to_string()]),
        image_tags: tags(Some("c7")),
        child_count: Some(10),
    });
    assert_eq!(a.id, "jellyfin:al9");
    assert_eq!(a.artist, "");
    assert_eq!(a.genre, "Rock, Pop");
    assert_eq!(a.year, 0);
    assert_eq!(a.cover_path.as_deref(), Some("jellyfin:al9:c7"));
}

#[test]
fn only_music_views_are_libraries() {
    let v = |n: &str, c: Option<&str>| ViewItem { name: n.to_string(), id: n.to_string(), collection_type: c.map(|s| s.to_string()) };
    let libs = music_libraries(vec![v("a", Some("music")), v("b", Some("movies")), v("c", None), v("d", Some("music"))]);
    let names: Vec<&str> = libs.iter().map(|l| l.name.as_str()).collect();
    assert_eq!(names, vec!["a", "d"]);
}

fn t(path: &str) -> Track {
    Track {
        path: path.to_string(),
        album_id: String::new(),
        title: String::new(),
        artist: String::new(),
        album: String::new(),
        duration: 0,
        khz: 0,
        bitrate: 0,
        track_number: None,
        disc_number: None,
        musicbrainz_release_id: None,
        playlist_item_id: None,
    }
}

#[test]
fn merging_skips_known_paths_and_ids() {
    let mut list = vec![t("x"), t("y")];
    merge_tracks(&mut list, vec![t("y"), t("z"), t("z")]);
    let paths: Vec<&str> = list.iter().map(|t| t.path.as_str()).collect();
    assert_eq!(paths, vec!["x", "y", "z"]);
    let al = |id: &str| Album { id: id.to_string(), title: String::new(), artist: String::new(), genre: String::new(), year: 0, cover_path: None };
    let mut albums = vec![al("1")];
    merge_albums(&mut albums, vec![al("2"), al("1")]);
    let ids: Vec<&str> = albums.iter().map(|a| a.id.as_str()).collect();
    assert_eq!(ids, vec!["1", "2"]);
}

#[test]
fn paging_stops_on_short_or_empty_page() {
    assert_eq!(next_page_start(0, 100, 100), Some(100));
    assert_eq!(next_page_start(100, 40, 100), None);
    assert_eq!(next_page_start(100, 0, 100), None);
}
