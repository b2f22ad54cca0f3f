use rusic::config::{JellyfinServer, SortOrder};
use rusic::listing::{
    library_stats, home_album_row, home_featured, recent_playlist_indices, set_favorite, add_missing, album_is_favorite, album_track_paths, item_ids, artist_album, artist_index, artist_tracks, distinct_albums,
    favorite_remote_tracks, home_artists, playlist_cover_url, scroll_window, sort_server_tracks, sort_tracks, ScrollWindow,
};
use rusic::media::{album_cover_url, cover_for_track, CoverLookup};
use rusic::ordering::text_le_exec;
use rusic::models::{find_album, Album, Track};

fn track(path: &str, title: &str, artist: &str, album: &str, album_id: &str) -> Track {
    Track {
        path: path.to_string(),
        album_id: album_id.to_string(),
        title: title.to_string(),
        artist: artist.to_string(),
        album: album.to_string(),
        duration: 0,
        khz: 0,
        bitrate: 0,
        track_number: None,
        disc_number: None,
        musicbrainz_release_id: None,
        playlist_item_id: None,
    }
}

fn album(id: &str, title: &str, artist: &str, cover: Option<&str>) -> Album {
    Album {
        id: id.to_string(),
        title: title.to_string(),
        artist: artist.to_string(),
        genre: String::new(),
        year: 0,
        cover_path: cover.map(|c| c.to_string()),
    }
}

fn server(token: Option<&str>) -> JellyfinServer {
    JellyfinServer {
        name: "home".to_string(),
        url: "http://h:8096".to_string(),
        access_token: token.map(|t| t.to_string()),
        user_id: None,
    }
}

#[test]
fn text_order_is_by_code_point_with_prefixes_first() {
    assert!(text_le_exec("abc", "abd"));
    assert!(!text_le_exec("abd", "abc"));
    assert!(text_le_exec("ab", "abc"));
    assert!(!text_le_exec("abc", "ab"));
    assert!(text_le_exec("", ""));
    assert!(text_le_exec("Z", "a"));
    assert!(text_le_exec("same", "same"));
}

#[test]
fn tracks_sort_by_lower_case_field_stably() {
    let tracks = vec![
        track("1", "beta", "Zed", "x", ""),
        track("2", "Alpha", "amy", "y", ""),
        track("3", "alpha", "Bob", "w", ""),
        track("4", "Gamma", "AMY", "v", ""),
    ];
    let by_title: Vec<String> = sort_tracks(tracks.clone(), SortOrder::Title).into_iter().map(|t| t.path).collect();
    assert_eq!(by_title, vec!["2", "3", "1", "4"]);
    let by_artist: Vec<String> = sort_tracks(tracks.clone(), SortOrder::Artist).into_iter().map(|t| t.path).collect();
    assert_eq!(by_artist, vec!["2", "4", "3", "1"]);
    let by_album: Vec<String> = sort_tracks(tracks, SortOrder::Album).into_iter().map(|t| t.path).collect();
    assert_eq!(by_album, vec!["4", "3", "1", "2"]);
    assert!(sort_tracks(vec![], SortOrder::Title).is_empty());
}

#[test]
fn albums_are_sorted_and_one_per_title() {
    let albums = vec![
        album("jellyfin:3", "Zoo", "A", None),
        album("jellyfin:1", " abbey road ", "B", None),
        album("jellyfin:2", "Abbey Road", "C", None),
        album("jellyfin:4", "help", "D", None),
    ];
    let ids: Vec<String> = distinct_albums(albums).into_iter().map(|a| a.id).collect();
    assert_eq!(ids, vec!["jellyfin:1", "jellyfin:4", "jellyfin:3"]);
}

#[test]
fn home_artists_are_the_first_ten_distinct() {
    let mut tracks = Vec::new();
    for i in 0..15 {
        tracks.push(track(&format!("jellyfin:t{i}"), "", &format!("artist{}", i / 1), "", ""));
        tracks.push(track(&format!("jellyfin:u{i}"), "", &format!("artist{}", i), "", ""));
    }
    let srv = server(Some("tok"));
    let cards = home_artists(&tracks, Some(&srv));
    assert_eq!(cards.len(), 10);
    assert_eq!(cards[0].name, "artist0");
    assert_eq!(cards[9].name, "artist9");
    assert_eq!(cards[3].cover_url.as_deref(), Some("http://h:8096/Items/t3/Images/Primary?api_key=tok"));
    let few = vec![track("jellyfin:a:tag", "", "X", "", ""), track("jellyfin:b", "", "X", "", ""), track("local", "", "Y", "", "")];
    let cards = home_artists(&few, Some(&server(None)));
    assert_eq!(cards.len(), 2);
    assert_eq!(cards[0].cover_url.as_deref(), Some("http://h:8096/Items/a/Images/Primary"));
    assert_eq!(cards[1].name, "Y");
    assert_eq!(cards[1].cover_url, None);
    assert!(home_artists(&few, None).iter().all(|c| c.cover_url.is_none()));
}

#[test]
fn artist_page_matches_names_up_to_case() {
    let tracks = vec![
        track("1", "", "ABBA", "", ""),
        track("2", "", "Queen", "", ""),
        track("3", "", "abba", "", ""),
    ];
    let paths: Vec<String> = artist_tracks(&tracks, "Abba").into_iter().map(|t| t.path).collect();
    assert_eq!(paths, vec!["1", "3"]);
    assert!(artist_tracks(&tracks, "").is_empty());
    assert!(artist_tracks(&tracks, "Nobody").is_empty());

    let albums = vec![album("a", "", "queen", None), album("b", "", "ABBA", None)];
    assert_eq!(artist_album(&albums, "Abba"), Some(1));
    assert_eq!(artist_album(&albums, "QUEEN"), Some(0));
    assert_eq!(artist_album(&albums, ""), None);
    assert_eq!(artist_album(&albums, "Nobody"), None);
}

#[test]
fn artist_index_keeps_first_album_per_artist_sorted() {
    let albums = vec![
        album("1", "", "Queen", Some("/c/q1")),
        album("2", "", "abba", Some("/c/a")),
        album("3", "", "Queen", Some("/c/q2")),
        album("4", "", "Beatles", None),
    ];
    let idx = artist_index(&albums);
    let pairs: Vec<(String, Option<String>)> = idx.into_iter().map(|a| (a.artist, a.cover_path)).collect();
    assert_eq!(
        pairs,
        vec![
            ("abba".to_string(), Some("/c/a".to_string())),
            ("Beatles".to_string(), None),
            ("Queen".to_string(), Some("/c/q1".to_string())),
        ]
    );
}

#[test]
fn favorites_follow_the_server_ids() {
    let tracks = vec![
        track("jellyfin:1:tag", "", "", "", "jellyfin:A"),
        track("jellyfin:2", "", "", "", "jellyfin:A"),
        track("jellyfin:3", "", "", "", "jellyfin:B"),
        track("/local/4", "", "", "", "jellyfin:C"),
    ];
    let favs = vec!["1".to_string(), "3".to_string()];
    let paths: Vec<String> = favorite_remote_tracks(&tracks, &favs).into_iter().map(|t| t.path).collect();
    assert_eq!(paths, vec!["jellyfin:1:tag", "jellyfin:3"]);
    assert!(!album_is_favorite(&tracks, "jellyfin:A", &favs));
    assert!(album_is_favorite(&tracks, "jellyfin:B", &favs));
    assert!(!album_is_favorite(&tracks, "jellyfin:C", &favs));
    assert!(!album_is_favorite(&tracks, "jellyfin:none", &favs));
    let all = vec!["1".to_string(), "2".to_string()];
    assert!(album_is_favorite(&tracks, "jellyfin:A", &all));
}

#[test]
fn scroll_window_covers_view_and_buffer() {
    assert_eq!(scroll_window(0, 5, 14), ScrollWindow { start: 0, count: 0, rows_below: 0 });
    assert_eq!(scroll_window(1000, 0, 14), ScrollWindow { start: 0, count: 34, rows_below: 966 });
    assert_eq!(scroll_window(1000, 100, 14), ScrollWindow { start: 100, count: 34, rows_below: 866 });
    assert_eq!(scroll_window(50, 40, 14), ScrollWindow { start: 40, count: 10, rows_below: 0 });
    assert_eq!(scroll_window(50, 400, 14), ScrollWindow { start: 49, count: 1, rows_below: 0 });
}

#[test]
fn playlist_cards_take_the_picture_of_their_first_item() {
    let tracks = vec![
        track("jellyfin:aa1:t", "", "", "", ""),
        track("jellyfin:bb2", "", "", "", ""),
        track("jellyfin:xbb2", "", "", "", ""),
    ];
    let srv = server(Some("k"));
    assert_eq!(
        playlist_cover_url(&tracks, Some("bb2"), Some(&srv)).as_deref(),
        Some("http://h:8096/Items/bb2/Images/Primary?api_key=k")
    );
    assert_eq!(
        playlist_cover_url(&tracks, Some("aa1"), Some(&srv)).as_deref(),
        Some("http://h:8096/Items/aa1/Images/Primary?api_key=k")
    );
    assert_eq!(playlist_cover_url(&tracks, Some("zz"), Some(&srv)), None);
    assert_eq!(playlist_cover_url(&tracks, None, Some(&srv)), None);
    assert_eq!(playlist_cover_url(&tracks, Some("bb2"), None), None);
}

#[test]
fn album_cards_show_the_server_image_with_tag_and_token() {
    let srv = server(Some("k"));
    let tagged = "jellyfin:al1:tg".to_string();
    let plain = "jellyfin:al2".to_string();
    let local = "/covers/x.jpg".to_string();
    assert_eq!(
        album_cover_url(Some(&srv), Some(&tagged)).as_deref(),
        Some("http://h:8096/Items/al1/Images/Primary?tag=tg&api_key=k")
    );
    assert_eq!(
        album_cover_url(Some(&server(None)), Some(&plain)).as_deref(),
        Some("http://h:8096/Items/al2/Images/Primary")
    );
    assert_eq!(album_cover_url(Some(&srv), Some(&local)), None);
    assert_eq!(album_cover_url(None, Some(&tagged)), None);
    assert_eq!(album_cover_url(Some(&srv), None), None);
}

#[test]
fn track_rows_take_server_covers_or_album_artwork() {
    let srv = server(None);
    match cover_for_track(Some(&srv), "jellyfin:t9:tag") {
        CoverLookup::Url(u) => assert_eq!(u, "http://h:8096/Items/t9/Images/Primary?tag=tag"),
        other => panic!("unexpected {other:?}"),
    }
    assert!(matches!(cover_for_track(Some(&srv), "/music/a.flac"), CoverLookup::AlbumArtwork));
    assert!(matches!(cover_for_track(None, "jellyfin:t9"), CoverLookup::NoCover));
}

#[test]
fn albums_are_found_by_id() {
    let albums = vec![album("x", "", "", None), album("y", "", "", None), album("y", "", "", None)];
    assert_eq!(find_album(&albums, "y"), Some(1));
    assert_eq!(find_album(&albums, "x"), Some(0));
    assert_eq!(find_album(&albums, "z"), None);
}

fn numbered(path: &str, title: &str, artist: &str, album: &str, disc: Option<u32>, no: Option<u32>) -> Track {
    let mut t = track(path, title, artist, album, "");
    t.disc_number = disc;
    t.track_number = no;
    t
}

#[test]
fn server_view_sorts_by_compound_keys() {
    let tracks = vec![
        numbered("1", "b", "X", "Al", Some(1), Some(2)),
        numbered("2", "A", "y", "Al", Some(1), Some(1)),
        numbered("3", "a", "X", "al", Some(2), Some(1)),
        numbered("4", "c", "X", "AL", None, Some(5)),
    ];
    let paths = |v: Vec<Track>| v.into_iter().map(|t| t.path).collect::<Vec<String>>();
    assert_eq!(paths(sort_server_tracks(tracks.clone(), SortOrder::Title)), vec!["3", "2", "1", "4"]);
    assert_eq!(paths(sort_server_tracks(tracks.clone(), SortOrder::Artist)), vec!["4", "1", "3", "2"]);
    assert_eq!(paths(sort_server_tracks(tracks, SortOrder::Album)), vec!["4", "2", "1", "3"]);
}

#[test]
fn album_tracks_go_into_playlists_once() {
    let local = vec![
        track("/m/1.flac", "", "", "Help", ""),
        track("/m/2.flac", "", "", "Abbey", ""),
        track("/m/3.flac", "", "", "Help", ""),
    ];
    let remote = vec![
        track("jellyfin:r1:tag", "", "", "", "jellyfin:A"),
        track("jellyfin:r2", "", "", "", "jellyfin:B"),
        track("odd", "", "", "", "jellyfin:A"),
    ];
    let albums = vec![album("loc-1", "Help", "", None), album("loc-1", "Abbey", "", None)];
    assert_eq!(album_track_paths(&local, &remote, &albums, "loc-1", false), vec!["/m/1.flac", "/m/3.flac"]);
    assert!(album_track_paths(&local, &remote, &albums, "none", false).is_empty());
    let server_paths = album_track_paths(&local, &remote, &albums, "jellyfin:A", true);
    assert_eq!(server_paths, vec!["jellyfin:r1:tag", "odd"]);
    assert_eq!(item_ids(&server_paths), vec!["r1"]);

    let mut playlist = vec!["/m/3.flac".to_string()];
    add_missing(&mut playlist, vec!["/m/1.flac".to_string(), "/m/3.flac".to_string(), "/m/1.flac".to_string()]);
    assert_eq!(playlist, vec!["/m/3.flac", "/m/1.flac"]);
}

#[test]
fn home_rows_are_cut_and_shuffled() {
    let albums: Vec<Album> = (0..30).map(|i| album(&format!("jellyfin:{i}"), &format!("T{:02}", i % 25), "", None)).collect();
    let row = home_album_row(albums.clone());
    assert_eq!(row.len(), 20);
    assert_eq!(row[0].title, "T00");
    assert_eq!(row[19].title, "T19");
    let mut featured: Vec<String> = home_featured(albums).into_iter().map(|a| a.title).collect();
    assert_eq!(featured.len(), 25);
    featured.sort();
    assert_eq!(featured[24], "T24");
    assert!(home_featured(vec![]).is_empty());
    assert_eq!(home_album_row(vec![album("a", "x", "", None)]).len(), 1);
}

#[test]
fn newest_playlists_come_first() {
    assert_eq!(recent_playlist_indices(3), vec![2, 1, 0]);
    assert_eq!(recent_playlist_indices(12), vec![11, 10, 9, 8, 7, 6, 5, 4, 3, 2]);
    assert!(recent_playlist_indices(0).is_empty());
}

#[test]
fn favorite_toggle_and_rollback() {
    let mut ids = vec!["a".to_string(), "b".to_string(), "a".to_string()];
    set_favorite(&mut ids, "c", true);
    assert_eq!(ids, vec!["a", "b", "a", "c"]);
    set_favorite(&mut ids, "c", true);
    assert_eq!(ids, vec!["a", "b", "a", "c"]);
    set_favorite(&mut ids, "a", false);
    assert_eq!(ids, vec!["b", "c"]);
    set_favorite(&mut ids, "c", false);
    assert_eq!(ids, vec!["b"]);
}

#[test]
fn library_stats_count_distinct_artists_and_titles() {
    let albums = vec![album("1", "Help", "Beatles", None), album("2", "HELP", "Queen", None), album("3", "Other", "Beatles", None)];
    let tracks = vec![track("a", "", "Queen", "", ""), track("b", "", "ABBA", "", "")];
    assert_eq!(library_stats(&tracks, &albums), (3, 2));
    assert_eq!(library_stats(&vec![], &vec![]), (0, 0));
}
