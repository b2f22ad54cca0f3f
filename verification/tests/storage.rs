use rusic::storage::{route_from_storage, route_to_storage, ui_state_from_fields, Route, WEB_CONFIG_STORAGE_KEY};

const ALL: [Route; 10] = [
    Route::Home,
    Route::Search,
    Route::Library,
    Route::Album,
    Route::Artist,
    Route::Playlists,
    Route::Favorites,
    Route::Logs,
    Route::Settings,
    Route::ThemeEditor,
];

#[test]
fn routes_round_trip_through_storage_names() {
    for r in ALL {
        assert_eq!(route_from_storage(route_to_storage(r)), Some(r));
    }
    assert_eq!(route_to_storage(Route::ThemeEditor), "theme_editor");
    assert_eq!(route_from_storage("nowhere"), None);
    assert_eq!(WEB_CONFIG_STORAGE_KEY, "rusic.config.v1");
}

#[test]
fn ui_state_defaults() {
    let s = ui_state_from_fields(Some("bogus"), None, Some("pl"), Some("Art"), None);
    assert_eq!(s.route, Route::Home);
    assert_eq!(s.selected_album_id, "");
    assert_eq!(s.selected_playlist_id.as_deref(), Some("pl"));
    assert_eq!(s.selected_artist_name, "Art");
    assert_eq!(s.search_query, "");
    let s = ui_state_from_fields(Some("album"), Some("a1"), None, None, Some("q"));
    assert_eq!(s.route, Route::Album);
    assert_eq!(s.selected_album_id, "a1");
    assert_eq!(s.selected_playlist_id, None);
    assert_eq!(s.search_query, "q");
}
