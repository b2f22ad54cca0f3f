use vstd::prelude::*;
use crate::text::{str_eq, to_string_of};

verus! {

/// The pages of the application.
#[derive(Debug, Clone, Copy, PartialEq, Eq, Structural)]
pub enum Route {
    Home,
    Search,
    Library,
    Album,
    Artist,
    Playlists,
    Favorites,
    Logs,
    Settings,
    ThemeEditor,
}

/// Browser storage key of the configuration.
pub const WEB_CONFIG_STORAGE_KEY: &'static str = "rusic.config.v1";
/// Browser storage key of the interface state.
pub const WEB_UI_STATE_STORAGE_KEY: &'static str = "rusic.ui-state.v1";
/// Browser storage key of the library.
pub const WEB_LIBRARY_STORAGE_KEY: &'static str = "rusic.library.v1";
/// Browser storage key of the playlists.
pub const WEB_PLAYLISTS_STORAGE_KEY: &'static str = "rusic.playlists.v1";
/// Browser storage key of the favourites.
pub const WEB_FAVORITES_STORAGE_KEY: &'static str = "rusic.favorites.v1";

/// The name under which a page is stored.
pub open spec fn route_name(r: Route) -> Seq<char> {
    match r {
        Route::Home => "home"@,
        Route::Search => "search"@,
        Route::Library => "library"@,
        Route::Album => "album"@,
        Route::Artist => "artist"@,
        Route::Playlists => "playlists"@,
        Route::Favorites => "favorites"@,
        Route::Logs => "logs"@,
        Route::Settings => "settings"@,
        Route::ThemeEditor => "theme_editor"@,
    }
}

/// The page stored under a name, if any.
pub open spec fn route_named(name: Seq<char>) -> Option<Route> {
    if name == "home"@ { Some(Route::Home) }
    else if name == "search"@ { Some(Route::Search) }
    else if name == "library"@ { Some(Route::Library) }
    else if name == "album"@ { Some(Route::Album) }
    else if name == "artist"@ { Some(Route::Artist) }
    else if name == "playlists"@ { Some(Route::Playlists) }
    else if name == "favorites"@ { Some(Route::Favorites) }
    else if name == "logs"@ { Some(Route::Logs) }
    else if name == "settings"@ { Some(Route::Settings) }
    else if name == "theme_editor"@ { Some(Route::ThemeEditor) }
    else { None }
}

/// The name under which `route` is stored.
pub fn route_to_storage(route: Route) -> (r: &'static str)
    ensures
        r@ == route_name(route),
{
    match route {
        Route::Home => "home",
        Route::Search => "search",
        Route::Library => "library",
        Route::Album => "album",
        Route::Artist => "artist",
        Route::Playlists => "playlists",
        Route::Favorites => "favorites",
        Route::Logs => "logs",
        Route::Settings => "settings",
        Route::ThemeEditor => "theme_editor",
    }
}

/// The page stored under `name`; `None` for a name no page has.
pub fn route_from_storage(name: &str) -> (r: Option<Route>)
    ensures
        r == route_named(name@),
{
    if str_eq(name, "home") { Some(Route::Home) }
    else if str_eq(name, "search") { Some(Route::Search) }
    else if str_eq(name, "library") { Some(Route::Library) }
    else if str_eq(name, "album") { Some(Route::Album) }
    else if str_eq(name, "artist") { Some(Route::Artist) }
    else if str_eq(name, "playlists") { Some(Route::Playlists) }
    else if str_eq(name, "favorites") { Some(Route::Favorites) }
    else if str_eq(name, "logs") { Some(Route::Logs) }
    else if str_eq(name, "settings") { Some(Route::Settings) }
    else if str_eq(name, "theme_editor") { Some(Route::ThemeEditor) }
    else { None }
}

/// The interface state restored from storage.
#[derive(Debug)]
pub struct UiState {
    pub route: Route,
    pub selected_album_id: String,
    pub selected_playlist_id: Option<String>,
    pub selected_artist_name: String,
    pub search_query: String,
}

/// The interface state from the string fields found in storage: an unknown or
/// missing page is the home page, a missing text is empty.
pub fn ui_state_from_fields(
    route: Option<&str>,
    selected_album_id: Option<&str>,
    selected_playlist_id: Option<&str>,
    selected_artist_name: Option<&str>,
    search_query: Option<&str>,
) -> (s: UiState)
    ensures
        s.route == match route {
            Some(n) => match route_named(n@) { Some(r) => r, None => Route::Home },
            None => Route::Home,
        },
        s.selected_album_id@ == match selected_album_id { Some(a) => a@, None => Seq::<char>::empty() },
        s.selected_playlist_id.is_some() == selected_playlist_id.is_some(),
        selected_playlist_id.is_some() ==> s.selected_playlist_id.unwrap()@ == selected_playlist_id.unwrap()@,
        s.selected_artist_name@ == match selected_artist_name { Some(a) => a@, None => Seq::<char>::empty() },
        s.search_query@ == match search_query { Some(q) => q@, None => Seq::<char>::empty() },
{
    let r = match route {
        Some(n) => match route_from_storage(n) {
            Some(r) => r,
            None => Route::Home,
        },
        None => Route::Home,
    };
    UiState {
        route: r,
        selected_album_id: match selected_album_id { Some(a) => to_string_of(a), None => String::new() },
        selected_playlist_id: match selected_playlist_id { Some(p) => Some(to_string_of(p)), None => None },
        selected_artist_name: match selected_artist_name { Some(a) => to_string_of(a), None => String::new() },
        search_query: match search_query { Some(q) => to_string_of(q), None => String::new() },
    }
}

/// Every page is read back from the name it is stored under.
pub proof fn lemma_route_round_trip(r: Route)
    ensures
        route_named(route_name(r)) == Some(r),
{
    reveal_strlit("home");
    reveal_strlit("search");
    reveal_strlit("library");
    reveal_strlit("album");
    reveal_strlit("artist");
    reveal_strlit("playlists");
    reveal_strlit("favorites");
    reveal_strlit("logs");
    reveal_strlit("settings");
    reveal_strlit("theme_editor");
    assert("home"@.len() == 4 && "search"@.len() == 6 && "library"@.len() == 7 && "album"@.len() == 5);
    assert("artist"@.len() == 6 && "playlists"@.len() == 9 && "favorites"@.len() == 9 && "logs"@.len() == 4);
    assert("settings"@.len() == 8 && "theme_editor"@.len() == 12);
    assert("home"@[0] != "logs"@[0]);
    assert("search"@[0] != "artist"@[0]);
    assert("playlists"@[0] != "favorites"@[0]);
}

} // verus!
