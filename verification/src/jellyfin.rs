use vstd::prelude::*;
use crate::keyed::StrMap;
use crate::models::{Album, Track};
use crate::text::{concat2, decimal, decimal_spec, join, join_spec, str_eq, to_string_of, trim_end_char, trim_end_spec, views};

verus! {

/// Answer of the server to a playlist creation.
#[derive(Debug)]
pub struct PlaylistCreationResult {
    pub id: String,
}

/// The user's views (top-level libraries).
#[derive(Debug)]
pub struct ViewItemsResponse {
    pub items: Vec<ViewItem>,
    pub total_record_count: u32,
}

/// One view of the user.
#[derive(Debug)]
pub struct ViewItem {
    pub name: String,
    pub id: String,
    pub collection_type: Option<String>,
}

/// A page of items.
#[derive(Debug)]
pub struct ItemsResponse {
    pub items: Vec<Item>,
    pub total_record_count: u32,
}

/// One item (a track or a playlist) as the server describes it.
#[derive(Debug)]
pub struct Item {
    pub name: String,
    pub id: String,
    pub item_type: String,
    pub run_time_ticks: Option<u64>,
    pub album: Option<String>,
    pub album_id: Option<String>,
    pub artists: Option<Vec<String>>,
    pub album_artist: Option<String>,
    pub image_tags: Option<StrMap<String>>,
    pub index_number: Option<u32>,
    pub parent_index_number: Option<u32>,
    pub production_year: Option<u16>,
    pub genres: Option<Vec<String>>,
    pub container: Option<String>,
    pub bitrate: Option<u32>,
    pub sample_rate: Option<u32>,
}

/// One album as the server describes it.
#[derive(Debug)]
pub struct AlbumItem {
    pub name: String,
    pub id: String,
    pub album_artist: Option<String>,
    pub artists: Option<Vec<String>>,
    pub production_year: Option<u16>,
    pub genres: Option<Vec<String>>,
    pub image_tags: Option<StrMap<String>>,
    pub child_count: Option<u32>,
}

/// A page of albums.
#[derive(Debug)]
pub struct AlbumsResponse {
    pub items: Vec<AlbumItem>,
    pub total_record_count: u32,
}

/// One genre.
#[derive(Debug)]
pub struct Genre {
    pub name: String,
    pub id: String,
}

/// The genres of the user's music.
#[derive(Debug)]
pub struct GenresResponse {
    pub items: Vec<Genre>,
    pub total_record_count: u32,
}

/// HTTP method of a request to the server.
#[derive(Debug, Clone, Copy, PartialEq, Eq, Structural)]
pub enum HttpMethod {
    Get,
    Post,
    Delete,
}

/// JSON body of a request to the server.
#[derive(Debug)]
pub enum RequestBody {
    /// No body.
    Empty,
    /// `{"Username": .., "Pw": ..}`
    Login { username: String, password: String },
    /// `{"ItemId": .., "PositionTicks": .., "IsPaused": .., "CanSeek": ..}`, absent fields omitted.
    PlaybackProgress { item_id: String, position_ticks: Option<u64>, is_paused: Option<bool>, can_seek: Option<bool> },
    /// `{"ItemId": .., "PositionTicks": ..}`, absent fields omitted.
    PlaybackStop { item_id: String, position_ticks: Option<u64> },
    /// `{"Name", "UserId", "MediaType", "IsPublic", "Ids"}`, `Ids` omitted when empty.
    CreatePlaylist { name: String, user_id: String, media_type: String, is_public: bool, ids: Vec<String> },
}

/// A request to the server, ready to be sent.
#[derive(Debug)]
pub struct ApiRequest {
    pub method: HttpMethod,
    pub url: String,
    /// Value of the `X-Emby-Authorization` header.
    pub auth_header: String,
    /// Query parameters, in order.
    pub query: Vec<(String, String)>,
    pub body: RequestBody,
    /// Start of the error message when the server answers with a failure status.
    pub failure_prefix: String,
    /// Whether the error message also carries the answer's text.
    pub failure_with_text: bool,
}

/// A connection to a Jellyfin server: where it is, and the credentials it gave.
#[derive(Debug)]
pub struct JellyfinRemote {
    pub base_url: String,
    pub device_id: String,
    pub user_id: Option<String>,
    pub access_token: Option<String>,
}

/// Texts of a list of string pairs.
pub open spec fn pair_views(q: Seq<(String, String)>) -> Seq<(Seq<char>, Seq<char>)> {
    q.map_values(|p: (String, String)| (p.0@, p.1@))
}

/// The `X-Emby-Authorization` header the client identifies itself with.
pub open spec fn auth_header_spec(device_id: Seq<char>, token: Option<Seq<char>>) -> Seq<char> {
    "MediaBrowser Client=\"Rusic\", Device=\"Rusic\", DeviceId=\""@ + device_id + "\", Version=\"0.3.1\""@
        + match token {
            Some(t) => ", Token=\""@ + t + "\""@,
            None => Seq::<char>::empty(),
        }
}

pub open spec fn no_token_error() -> Seq<char> {
    "No access token available"@
}

pub open spec fn no_user_error() -> Seq<char> {
    "No user ID available"@
}

/// Fields asked for with audio items.
pub open spec fn audio_fields() -> Seq<char> {
    "DateCreated,DateLastMediaAdded,MediaSources,ImageTags,Genres,ParentIndexNumber,IndexNumber,AlbumId,AlbumArtist,ProductionYear,Container"@
}

/// Fields asked for with favourite items.
pub open spec fn favorite_fields() -> Seq<char> {
    "DateCreated,MediaSources,ImageTags,Genres,ParentIndexNumber,IndexNumber,AlbumId,AlbumArtist,ProductionYear,Container"@
}

/// Fields asked for with albums.
pub open spec fn album_fields() -> Seq<char> {
    "ImageTags,Genres,ProductionYear,AlbumArtist,ChildCount"@
}

/// A progress report for `item` at `ticks`, seekable.
pub open spec fn progress_body(b: RequestBody, item: Seq<char>, ticks: u64, paused: bool) -> bool {
    match b {
        RequestBody::PlaybackProgress { item_id, position_ticks, is_paused, can_seek } =>
            item_id@ == item && position_ticks == Some(ticks) && is_paused == Some(paused) && can_seek == Some(true),
        _ => false,
    }
}

/// A stop report for `item` at `ticks`.
pub open spec fn stop_body(b: RequestBody, item: Seq<char>, ticks: u64) -> bool {
    match b {
        RequestBody::PlaybackStop { item_id, position_ticks } => item_id@ == item && position_ticks == Some(ticks),
        _ => false,
    }
}

/// The creation of a public audio playlist.
pub open spec fn create_body(b: RequestBody, name: Seq<char>, user: Seq<char>, items: Seq<Seq<char>>) -> bool {
    match b {
        RequestBody::CreatePlaylist { name: n, user_id, media_type, is_public, ids } =>
            n@ == name && user_id@ == user && media_type@ == "Audio"@ && is_public && views(ids@) == items,
        _ => false,
    }
}

/// The text of an optional string.
pub open spec fn opt_text(o: Option<String>) -> Option<Seq<char>> {
    match o {
        Some(s) => Some(s@),
        None => None,
    }
}

impl JellyfinRemote {
    /// A request to `url` carrying the access token.
    pub open spec fn is_request(
        self,
        r: ApiRequest,
        method: HttpMethod,
        url: Seq<char>,
        query: Seq<(Seq<char>, Seq<char>)>,
        failure_prefix: Seq<char>,
    ) -> bool {
        &&& r.method == method
        &&& r.url@ == url
        &&& r.auth_header@ == auth_header_spec(self.device_id@, opt_text(self.access_token))
        &&& pair_views(r.query@) == query
        &&& r.failure_prefix@ == failure_prefix
        &&& !r.failure_with_text
    }

    /// The result of building a request that needs the access token (and the
    /// user id when `needs_user`): the error for a missing credential, the user
    /// id checked first; otherwise a request that satisfies `ok`.
    pub open spec fn gated(self, res: Result<ApiRequest, String>, needs_user: bool, ok: bool) -> bool {
        if needs_user && self.user_id.is_none() {
            res matches Err(e) && e@ == no_user_error()
        } else if self.access_token.is_none() {
            res matches Err(e) && e@ == no_token_error()
        } else {
            res is Ok && ok
        }
    }

    /// A client for the server at `base_url` (trailing slashes removed).
    pub fn new(base_url: &str, api_key: Option<&str>, device_id: &str, user_id: Option<&str>) -> (r: Self)
        ensures
            r.base_url@ == trim_end_spec(base_url@, '/'),
            r.device_id@ == device_id@,
            r.user_id.is_some() == user_id.is_some(),
            user_id.is_some() ==> r.user_id.unwrap()@ == user_id.unwrap()@,
            r.access_token.is_some() == api_key.is_some(),
            api_key.is_some() ==> r.access_token.unwrap()@ == api_key.unwrap()@,
    {
        JellyfinRemote {
            base_url: trim_end_char(base_url, '/'),
            device_id: to_string_of(device_id),
            user_id: match user_id { Some(u) => Some(to_string_of(u)), None => None },
            access_token: match api_key { Some(k) => Some(to_string_of(k)), None => None },
        }
    }

    fn auth_header(&self) -> (h: String)
        ensures
            h@ == auth_header_spec(self.device_id@, opt_text(self.access_token)),
    {
        let mut h = concat2("MediaBrowser Client=\"Rusic\", Device=\"Rusic\", DeviceId=\"", self.device_id.as_str());
        h.append("\", Version=\"0.3.1\"");
        match &self.access_token {
            Some(t) => {
                h.append(", Token=\"");
                h.append(t.as_str());
                h.append("\"");
            },
            None => {},
        }
        h
    }

    /// The missing credential, if any (the user id is checked first when it is needed).
    fn check_credentials(&self, needs_user: bool) -> (r: Result<(), String>)
        ensures
            match r {
                Ok(_) => !(needs_user && self.user_id.is_none()) && self.access_token.is_some(),
                Err(e) => (needs_user && self.user_id.is_none() && e@ == no_user_error())
                    || (!(needs_user && self.user_id.is_none()) && self.access_token.is_none()
                        && e@ == no_token_error()),
            },
    {
        if needs_user && self.user_id.is_none() {
            return Err(to_string_of("No user ID available"));
        }
        if self.access_token.is_none() {
            return Err(to_string_of("No access token available"));
        }
        Ok(())
    }

    fn request(&self, method: HttpMethod, url: String, query: Vec<(String, String)>, body: RequestBody, failure_prefix: &str) -> (r: ApiRequest)
        ensures
            r.method == method,
            r.url == url,
            r.auth_header@ == auth_header_spec(self.device_id@, opt_text(self.access_token)),
            r.query == query,
            r.body == body,
            r.failure_prefix@ == failure_prefix@,
            !r.failure_with_text,
    {
        ApiRequest {
            method,
            url,
            auth_header: self.auth_header(),
            query,
            body,
            failure_prefix: to_string_of(failure_prefix),
            failure_with_text: false,
        }
    }

    fn user_url(&self, suffix: &str) -> (u: String)
        requires
            self.user_id.is_some(),
        ensures
            u@ == self.base_url@ + "/Users/"@ + self.user_id.unwrap()@ + suffix@,
    {
        let mut u = concat2(self.base_url.as_str(), "/Users/");
        match &self.user_id {
            Some(uid) => u.append(uid.as_str()),
            None => {},
        }
        u.append(suffix);
        u
    }

    /// The sign-in request for `username` and `password`.
    pub fn login(&self, username: &str, password: &str) -> (r: ApiRequest)
        ensures
            r.method == HttpMethod::Post,
            r.url@ == self.base_url@ + "/Users/AuthenticateByName"@,
            r.auth_header@ == auth_header_spec(self.device_id@, None),
            r.query@.len() == 0,
            r.body matches RequestBody::Login { username: u, password: p } && u@ == username@ && p@ == password@,
            r.failure_prefix@ == "Login failed with status: "@,
            r.failure_with_text,
    {
        let mut h = concat2("MediaBrowser Client=\"Rusic\", Device=\"Rusic\", DeviceId=\"", self.device_id.as_str());
        h.append("\", Version=\"0.3.1\"");
        ApiRequest {
            method: HttpMethod::Post,
            url: concat2(self.base_url.as_str(), "/Users/AuthenticateByName"),
            auth_header: h,
            query: Vec::new(),
            body: RequestBody::Login { username: to_string_of(username), password: to_string_of(password) },
            failure_prefix: to_string_of("Login failed with status: "),
            failure_with_text: true,
        }
    }

    /// Keeps the credentials of a successful sign-in and returns them.
    pub fn complete_login(&mut self, access_token: String, user_id: String) -> (r: (String, String))
        ensures
            final(self).access_token == Some(access_token),
            final(self).user_id == Some(user_id),
            final(self).base_url == old(self).base_url,
            final(self).device_id == old(self).device_id,
            r.0 == access_token,
            r.1 == user_id,
    {
        self.access_token = Some(access_token.clone());
        self.user_id = Some(user_id.clone());
        (access_token, user_id)
    }

    /// Metadata of item `item_id` for user `user_id`.
    pub fn get_metadata(&self, user_id: &str, item_id: &str) -> (r: Result<ApiRequest, String>)
        ensures
            self.gated(r, false, r matches Ok(q) && self.is_request(q, HttpMethod::Get,
                self.base_url@ + "/Users/"@ + user_id@ + "/Items/"@ + item_id@ + "/Metadata"@,
                Seq::empty(), "Failed to get metadata: "@) && q.body is Empty),
    {
        self.check_credentials(false)?;
        let mut u = concat2(self.base_url.as_str(), "/Users/");
        u.append(user_id);
        u.append("/Items/");
        u.append(item_id);
        u.append("/Metadata");
        let q = Vec::new();
        proof { assert(pair_views(q@) =~= Seq::empty()); }
        Ok(self.request(HttpMethod::Get, u, q, RequestBody::Empty, "Failed to get metadata: "))
    }

    /// The user's views.
    pub fn get_views(&self) -> (r: Result<ApiRequest, String>)
        ensures
            self.gated(r, true, r matches Ok(q) && self.is_request(q, HttpMethod::Get,
                self.base_url@ + "/Users/"@ + self.user_id.unwrap()@ + "/Views"@,
                Seq::empty(), "Failed to get views: "@) && q.body is Empty),
    {
        self.check_credentials(true)?;
        let u = self.user_url("/Views");
        let q = Vec::new();
        proof { assert(pair_views(q@) =~= Seq::empty()); }
        Ok(self.request(HttpMethod::Get, u, q, RequestBody::Empty, "Failed to get views: "))
    }
    /// Items of library `parent_id`: `limit` audio tracks from position `start_index`.
    pub fn get_music_library_items_paginated(&self, parent_id: &str, start_index: usize, limit: usize) -> (r: Result<ApiRequest, String>)
        ensures
            self.gated(r, true, r matches Ok(q) && self.is_request(q, HttpMethod::Get,
                self.base_url@ + "/Users/"@ + self.user_id.unwrap()@ + "/Items"@,
                seq![
                    ("ParentId"@, parent_id@),
                    ("Recursive"@, "true"@),
                    ("IncludeItemTypes"@, "Audio"@),
                    ("Fields"@, audio_fields()),
                    ("StartIndex"@, decimal_spec(start_index as nat)),
                    ("Limit"@, decimal_spec(limit as nat)),
                ],
                "Failed to get music items: "@) && q.body is Empty),
    {
        self.check_credentials(true)?;
        let u = self.user_url("/Items");
        let mut q: Vec<(String, String)> = Vec::new();
        q.push(pair("ParentId", parent_id));
        q.push(pair("Recursive", "true"));
        q.push(pair("IncludeItemTypes", "Audio"));
        q.push(pair("Fields", "DateCreated,DateLastMediaAdded,MediaSources,ImageTags,Genres,ParentIndexNumber,IndexNumber,AlbumId,AlbumArtist,ProductionYear,Container"));
        q.push((to_string_of("StartIndex"), decimal(start_index as u64)));
        q.push((to_string_of("Limit"), decimal(limit as u64)));
        let ghost want = seq![
            ("ParentId"@, parent_id@),
            ("Recursive"@, "true"@),
            ("IncludeItemTypes"@, "Audio"@),
            ("Fields"@, audio_fields()),
            ("StartIndex"@, decimal_spec(start_index as nat)),
            ("Limit"@, decimal_spec(limit as nat)),
        ];
        proof { assert(pair_views(q@) =~= want); }
        Ok(self.request(HttpMethod::Get, u, q, RequestBody::Empty, "Failed to get music items: "))
    }

    /// The user's audio playlists.
    pub fn get_playlists(&self) -> (r: Result<ApiRequest, String>)
        ensures
            self.gated(r, true, r matches Ok(q) && self.is_request(q, HttpMethod::Get,
                self.base_url@ + "/Users/"@ + self.user_id.unwrap()@ + "/Items"@,
                seq![
                    ("IncludeItemTypes"@, "Playlist"@),
                    ("Recursive"@, "true"@),
                    ("Fields"@, "DateCreated,DateLastMediaAdded"@),
                    ("MediaTypes"@, "Audio"@),
                ],
                "Failed to get playlists: "@) && q.body is Empty),
    {
        self.check_credentials(true)?;
        let u = self.user_url("/Items");
        let mut q: Vec<(String, String)> = Vec::new();
        q.push(pair("IncludeItemTypes", "Playlist"));
        q.push(pair("Recursive", "true"));
        q.push(pair("Fields", "DateCreated,DateLastMediaAdded"));
        q.push(pair("MediaTypes", "Audio"));
        let ghost want = seq![
            ("IncludeItemTypes"@, "Playlist"@),
            ("Recursive"@, "true"@),
            ("Fields"@, "DateCreated,DateLastMediaAdded"@),
            ("MediaTypes"@, "Audio"@),
        ];
        proof { assert(pair_views(q@) =~= want); }
        Ok(self.request(HttpMethod::Get, u, q, RequestBody::Empty, "Failed to get playlists: "))
    }

    /// Creation of a public audio playlist `name` holding `item_ids`.
    pub fn create_playlist(&self, name: &str, item_ids: &Vec<String>) -> (r: Result<ApiRequest, String>)
        ensures
            self.gated(r, true, r matches Ok(q)
                && q.method == HttpMethod::Post
                && q.url@ == self.base_url@ + "/Playlists"@
                && q.auth_header@ == auth_header_spec(self.device_id@, opt_text(self.access_token))
                && q.query@.len() == 0
                && q.failure_prefix@ == "Failed to create playlist: "@
                && q.failure_with_text
                && create_body(q.body, name@, self.user_id.unwrap()@, views(item_ids@))),
    {
        self.check_credentials(true)?;
        let uid = match &self.user_id { Some(u) => u.clone(), None => String::new() };
        let mut ids: Vec<String> = Vec::new();
        let n = item_ids.len();
        let mut k: usize = 0;
        while k < n
            invariant
                n == item_ids@.len(),
                k <= n,
                views(ids@) == views(item_ids@).subrange(0, k as int),
            decreases n - k,
        {
            let c = item_ids[k].clone();
            let ghost before = ids@;
            ids.push(c);
            assert(ids@ == before.push(c));
            assert(views(ids@) =~= views(before).push(c@));
            assert(views(ids@) =~= views(item_ids@).subrange(0, k + 1));
            k = k + 1;
        }
        assert(views(item_ids@).subrange(0, n as int) =~= views(item_ids@));
        Ok(ApiRequest {
            method: HttpMethod::Post,
            url: concat2(self.base_url.as_str(), "/Playlists"),
            auth_header: self.auth_header(),
            query: Vec::new(),
            body: RequestBody::CreatePlaylist {
                name: to_string_of(name),
                user_id: uid,
                media_type: to_string_of("Audio"),
                is_public: true,
                ids,
            },
            failure_prefix: to_string_of("Failed to create playlist: "),
            failure_with_text: true,
        })
    }

    /// Adding item `item_id` to playlist `playlist_id`.
    pub fn add_to_playlist(&self, playlist_id: &str, item_id: &str) -> (r: Result<ApiRequest, String>)
        ensures
            self.gated(r, true, r matches Ok(q) && self.is_request(q, HttpMethod::Post,
                self.base_url@ + "/Playlists/"@ + playlist_id@ + "/Items"@,
                seq![("Ids"@, item_id@), ("UserId"@, self.user_id.unwrap()@)],
                "Failed to add item to playlist: "@) && q.body is Empty),
    {
        self.check_credentials(true)?;
        let mut u = concat2(self.base_url.as_str(), "/Playlists/");
        u.append(playlist_id);
        u.append("/Items");
        let uid = match &self.user_id { Some(x) => x.clone(), None => String::new() };
        let mut q: Vec<(String, String)> = Vec::new();
        q.push(pair("Ids", item_id));
        q.push((to_string_of("UserId"), uid));
        proof { assert(pair_views(q@) =~= seq![("Ids"@, item_id@), ("UserId"@, self.user_id.unwrap()@)]); }
        Ok(self.request(HttpMethod::Post, u, q, RequestBody::Empty, "Failed to add item to playlist: "))
    }

    /// The tracks of playlist `playlist_id`.
    pub fn get_playlist_items(&self, playlist_id: &str) -> (r: Result<ApiRequest, String>)
        ensures
            self.gated(r, true, r matches Ok(q) && self.is_request(q, HttpMethod::Get,
                self.base_url@ + "/Playlists/"@ + playlist_id@ + "/Items"@,
                seq![("UserId"@, self.user_id.unwrap()@), ("Fields"@, audio_fields())],
                "Failed to get playlist items: "@) && q.body is Empty),
    {
        self.check_credentials(true)?;
        let mut u = concat2(self.base_url.as_str(), "/Playlists/");
        u.append(playlist_id);
        u.append("/Items");
        let uid = match &self.user_id { Some(x) => x.clone(), None => String::new() };
        let mut q: Vec<(String, String)> = Vec::new();
        q.push((to_string_of("UserId"), uid));
        q.push(pair("Fields", "DateCreated,DateLastMediaAdded,MediaSources,ImageTags,Genres,ParentIndexNumber,IndexNumber,AlbumId,AlbumArtist,ProductionYear,Container"));
        proof { assert(pair_views(q@) =~= seq![("UserId"@, self.user_id.unwrap()@), ("Fields"@, audio_fields())]); }
        Ok(self.request(HttpMethod::Get, u, q, RequestBody::Empty, "Failed to get playlist items: "))
    }

    /// The genres of the user's audio.
    pub fn get_genres(&self) -> (r: Result<ApiRequest, String>)
        ensures
            self.gated(r, true, r matches Ok(q) && self.is_request(q, HttpMethod::Get,
                self.base_url@ + "/Genres"@,
                seq![("UserId"@, self.user_id.unwrap()@), ("Recursive"@, "true"@), ("IncludeItemTypes"@, "Audio"@)],
                "Failed to get genres: "@) && q.body is Empty),
    {
        self.check_credentials(true)?;
        let u = concat2(self.base_url.as_str(), "/Genres");
        let uid = match &self.user_id { Some(x) => x.clone(), None => String::new() };
        let mut q: Vec<(String, String)> = Vec::new();
        q.push((to_string_of("UserId"), uid));
        q.push(pair("Recursive", "true"));
        q.push(pair("IncludeItemTypes", "Audio"));
        proof { assert(pair_views(q@) =~= seq![("UserId"@, self.user_id.unwrap()@), ("Recursive"@, "true"@), ("IncludeItemTypes"@, "Audio"@)]); }
        Ok(self.request(HttpMethod::Get, u, q, RequestBody::Empty, "Failed to get genres: "))
    }

    /// Albums of library `parent_id` by name: `limit` of them from position `start_index`.
    pub fn get_albums_paginated(&self, parent_id: &str, start_index: usize, limit: usize) -> (r: Result<ApiRequest, String>)
        ensures
            self.gated(r, true, r matches Ok(q) && self.is_request(q, HttpMethod::Get,
                self.base_url@ + "/Users/"@ + self.user_id.unwrap()@ + "/Items"@,
                seq![
                    ("ParentId"@, parent_id@),
                    ("Recursive"@, "true"@),
                    ("IncludeItemTypes"@, "MusicAlbum"@),
                    ("Fields"@, album_fields()),
                    ("SortBy"@, "SortName"@),
                    ("SortOrder"@, "Ascending"@),
                    ("StartIndex"@, decimal_spec(start_index as nat)),
                    ("Limit"@, decimal_spec(limit as nat)),
                ],
                "Failed to get albums: "@) && q.body is Empty),
    {
        self.check_credentials(true)?;
        let u = self.user_url("/Items");
        let mut q: Vec<(String, String)> = Vec::new();
        q.push(pair("ParentId", parent_id));
        q.push(pair("Recursive", "true"));
        q.push(pair("IncludeItemTypes", "MusicAlbum"));
        q.push(pair("Fields", "ImageTags,Genres,ProductionYear,AlbumArtist,ChildCount"));
        q.push(pair("SortBy", "SortName"));
        q.push(pair("SortOrder", "Ascending"));
        q.push((to_string_of("StartIndex"), decimal(start_index as u64)));
        q.push((to_string_of("Limit"), decimal(limit as u64)));
        let ghost want = seq![
            ("ParentId"@, parent_id@),
            ("Recursive"@, "true"@),
            ("IncludeItemTypes"@, "MusicAlbum"@),
            ("Fields"@, album_fields()),
            ("SortBy"@, "SortName"@),
            ("SortOrder"@, "Ascending"@),
            ("StartIndex"@, decimal_spec(start_index as nat)),
            ("Limit"@, decimal_spec(limit as nat)),
        ];
        proof { assert(pair_views(q@) =~= want); }
        Ok(self.request(HttpMethod::Get, u, q, RequestBody::Empty, "Failed to get albums: "))
    }

    /// Reports that playback of `item_id` started.
    pub fn report_playback_start(&self, item_id: &str) -> (r: Result<ApiRequest, String>)
        ensures
            self.gated(r, false, r matches Ok(q) && self.is_request(q, HttpMethod::Post,
                self.base_url@ + "/Sessions/Playing"@, Seq::empty(), "Failed to report playback start: "@)
                && progress_body(q.body, item_id@, 0, false)),
    {
        self.check_credentials(false)?;
        let u = concat2(self.base_url.as_str(), "/Sessions/Playing");
        let q = Vec::new();
        proof { assert(pair_views(q@) =~= Seq::empty()); }
        let body = RequestBody::PlaybackProgress {
            item_id: to_string_of(item_id),
            position_ticks: Some(0),
            is_paused: Some(false),
            can_seek: Some(true),
        };
        Ok(self.request(HttpMethod::Post, u, q, body, "Failed to report playback start: "))
    }

    /// Reports the playback position of `item_id`.
    pub fn report_playback_progress(&self, item_id: &str, position_ticks: u64, is_paused: bool) -> (r: Result<ApiRequest, String>)
        ensures
            self.gated(r, false, r matches Ok(q) && self.is_request(q, HttpMethod::Post,
                self.base_url@ + "/Sessions/Playing/Progress"@, Seq::empty(), "Failed to report playback progress: "@)
                && progress_body(q.body, item_id@, position_ticks, is_paused)),
    {
        self.check_credentials(false)?;
        let u = concat2(self.base_url.as_str(), "/Sessions/Playing/Progress");
        let q = Vec::new();
        proof { assert(pair_views(q@) =~= Seq::empty()); }
        let body = RequestBody::PlaybackProgress {
            item_id: to_string_of(item_id),
            position_ticks: Some(position_ticks),
            is_paused: Some(is_paused),
            can_seek: Some(true),
        };
        Ok(self.request(HttpMethod::Post, u, q, body, "Failed to report playback progress: "))
    }

    /// Reports that playback of `item_id` stopped at `position_ticks`.
    pub fn report_playback_stopped(&self, item_id: &str, position_ticks: u64) -> (r: Result<ApiRequest, String>)
        ensures
            self.gated(r, false, r matches Ok(q) && self.is_request(q, HttpMethod::Post,
                self.base_url@ + "/Sessions/Playing/Stopped"@, Seq::empty(), "Failed to report playback stopped: "@)
                && stop_body(q.body, item_id@, position_ticks)),
    {
        self.check_credentials(false)?;
        let u = concat2(self.base_url.as_str(), "/Sessions/Playing/Stopped");
        let q = Vec::new();
        proof { assert(pair_views(q@) =~= Seq::empty()); }
        let body = RequestBody::PlaybackStop { item_id: to_string_of(item_id), position_ticks: Some(position_ticks) };
        Ok(self.request(HttpMethod::Post, u, q, body, "Failed to report playback stopped: "))
    }

    /// Keeps the session alive.
    pub fn ping(&self) -> (r: Result<ApiRequest, String>)
        ensures
            self.gated(r, false, r matches Ok(q) && self.is_request(q, HttpMethod::Post,
                self.base_url@ + "/Sessions/Ping"@, Seq::empty(), "Ping failed: "@) && q.body is Empty),
    {
        self.check_credentials(false)?;
        let u = concat2(self.base_url.as_str(), "/Sessions/Ping");
        let q = Vec::new();
        proof { assert(pair_views(q@) =~= Seq::empty()); }
        Ok(self.request(HttpMethod::Post, u, q, RequestBody::Empty, "Ping failed: "))
    }

    /// Marks item `item_id` as a favourite of the user.
    pub fn mark_favorite(&self, item_id: &str) -> (r: Result<ApiRequest, String>)
        ensures
            self.gated(r, true, r matches Ok(q) && self.is_request(q, HttpMethod::Post,
                self.base_url@ + "/Users/"@ + self.user_id.unwrap()@ + "/FavoriteItems/"@ + item_id@,
                Seq::empty(), "Failed to mark favorite: "@) && q.body is Empty),
    {
        self.check_credentials(true)?;
        let mut u = self.user_url("/FavoriteItems/");
        u.append(item_id);
        let q = Vec::new();
        proof { assert(pair_views(q@) =~= Seq::empty()); }
        Ok(self.request(HttpMethod::Post, u, q, RequestBody::Empty, "Failed to mark favorite: "))
    }

    /// Removes item `item_id` from the user's favourites.
    pub fn unmark_favorite(&self, item_id: &str) -> (r: Result<ApiRequest, String>)
        ensures
            self.gated(r, true, r matches Ok(q) && self.is_request(q, HttpMethod::Delete,
                self.base_url@ + "/Users/"@ + self.user_id.unwrap()@ + "/FavoriteItems/"@ + item_id@,
                Seq::empty(), "Failed to unmark favorite: "@) && q.body is Empty),
    {
        self.check_credentials(true)?;
        let mut u = self.user_url("/FavoriteItems/");
        u.append(item_id);
        let q = Vec::new();
        proof { assert(pair_views(q@) =~= Seq::empty()); }
        Ok(self.request(HttpMethod::Delete, u, q, RequestBody::Empty, "Failed to unmark favorite: "))
    }

    /// The user's favourite audio items.
    pub fn get_favorite_items(&self) -> (r: Result<ApiRequest, String>)
        ensures
            self.gated(r, true, r matches Ok(q) && self.is_request(q, HttpMethod::Get,
                self.base_url@ + "/Users/"@ + self.user_id.unwrap()@ + "/Items"@,
                seq![
                    ("Filters"@, "IsFavorite"@),
                    ("IncludeItemTypes"@, "Audio"@),
                    ("Recursive"@, "true"@),
                    ("Fields"@, favorite_fields()),
                ],
                "Failed to get favorite items: "@) && q.body is Empty),
    {
        self.check_credentials(true)?;
        let u = self.user_url("/Items");
        let mut q: Vec<(String, String)> = Vec::new();
        q.push(pair("Filters", "IsFavorite"));
        q.push(pair("IncludeItemTypes", "Audio"));
        q.push(pair("Recursive", "true"));
        q.push(pair("Fields", "DateCreated,MediaSources,ImageTags,Genres,ParentIndexNumber,IndexNumber,AlbumId,AlbumArtist,ProductionYear,Container"));
        let ghost want = seq![
            ("Filters"@, "IsFavorite"@),
            ("IncludeItemTypes"@, "Audio"@),
            ("Recursive"@, "true"@),
            ("Fields"@, favorite_fields()),
        ];
        proof { assert(pair_views(q@) =~= want); }
        Ok(self.request(HttpMethod::Get, u, q, RequestBody::Empty, "Failed to get favorite items: "))
    }
}

fn pair(k: &str, v: &str) -> (p: (String, String))
    ensures
        p.0@ == k@,
        p.1@ == v@,
{
    (to_string_of(k), to_string_of(v))
}

/// The tag of an item's primary image, if it has one.
pub open spec fn primary_tag(tags: Option<StrMap<String>>) -> Option<Seq<char>> {
    match tags {
        Some(m) => if m@.dom().contains("Primary"@) { Some(m@["Primary"@]@) } else { None },
        None => None,
    }
}

/// The artist shown for an item: its album artist, else its artists joined by
/// `, `, else nothing.
pub open spec fn artist_text(album_artist: Option<String>, artists: Option<Vec<String>>) -> Seq<char> {
    match album_artist {
        Some(a) => a@,
        None => match artists {
            Some(v) => join_spec(views(v@), ", "@),
            None => Seq::<char>::empty(),
        },
    }
}

/// The library path of a remote item: `jellyfin:<id>`, with `:<tag>` when it has a primary image.
pub open spec fn remote_path_spec(id: Seq<char>, tag: Option<Seq<char>>) -> Seq<char> {
    "jellyfin:"@ + id + match tag {
        Some(t) => ":"@ + t,
        None => Seq::<char>::empty(),
    }
}

/// A bitrate in bit/s as kbit/s, capped at 255.
pub open spec fn kbps_spec(bitrate: Option<u32>) -> u8 {
    let k = match bitrate { Some(b) => b / 1000, None => 0 };
    if k > 255 { 255 } else { k as u8 }
}

/// Whether a view is a music library.
pub open spec fn is_music_view(v: ViewItem) -> bool {
    v.collection_type is Some && v.collection_type.unwrap()@ == "music"@
}

/// The music libraries among the views, in order.
pub open spec fn music_views(s: Seq<ViewItem>) -> Seq<ViewItem>
    decreases s.len(),
{
    if s.len() == 0 {
        Seq::empty()
    } else if is_music_view(s.last()) {
        music_views(s.drop_last()).push(s.last())
    } else {
        music_views(s.drop_last())
    }
}

/// The list after adding each new track whose path is not yet in it.
pub open spec fn merged_tracks(existing: Seq<Track>, new: Seq<Track>) -> Seq<Track>
    decreases new.len(),
{
    if new.len() == 0 {
        existing
    } else {
        let m = merged_tracks(existing, new.drop_last());
        if exists|i: int| 0 <= i < m.len() && (#[trigger] m[i]).path@ == new.last().path@ {
            m
        } else {
            m.push(new.last())
        }
    }
}

/// The list after adding each new album whose id is not yet in it.
pub open spec fn merged_albums(existing: Seq<Album>, new: Seq<Album>) -> Seq<Album>
    decreases new.len(),
{
    if new.len() == 0 {
        existing
    } else {
        let m = merged_albums(existing, new.drop_last());
        if exists|i: int| 0 <= i < m.len() && (#[trigger] m[i]).id@ == new.last().id@ {
            m
        } else {
            m.push(new.last())
        }
    }
}

/// No two tracks of the list share a path.
pub open spec fn paths_distinct(s: Seq<Track>) -> bool {
    forall|i: int, j: int| 0 <= i < j < s.len() ==> (#[trigger] s[i]).path@ != (#[trigger] s[j]).path@
}

/// No two albums of the list share an id.
pub open spec fn ids_distinct(s: Seq<Album>) -> bool {
    forall|i: int, j: int| 0 <= i < j < s.len() ==> (#[trigger] s[i]).id@ != (#[trigger] s[j]).id@
}

/// Merging pages of server tracks into the library's list keeps the tracks it
/// had, in place, adds every new path, and never lists a path twice.
pub proof fn lemma_merged_tracks(existing: Seq<Track>, new: Seq<Track>)
    requires
        paths_distinct(existing),
    ensures
        paths_distinct(merged_tracks(existing, new)),
        merged_tracks(existing, new).len() >= existing.len(),
        merged_tracks(existing, new).subrange(0, existing.len() as int) == existing,
        forall|k: int| 0 <= k < new.len() ==> exists|i: int| 0 <= i < merged_tracks(existing, new).len()
            && (#[trigger] merged_tracks(existing, new)[i]).path@ == (#[trigger] new[k]).path@,
    decreases new.len(),
{
    let m = merged_tracks(existing, new);
    if new.len() == 0 {
        assert(m.subrange(0, existing.len() as int) =~= existing);
    } else {
        let t = new.drop_last();
        lemma_merged_tracks(existing, t);
        let p = merged_tracks(existing, t);
        assert forall|k: int| 0 <= k < new.len() implies exists|i: int| 0 <= i < m.len()
            && (#[trigger] m[i]).path@ == (#[trigger] new[k]).path@ by {
            if k < new.len() - 1 {
                assert(new[k] == t[k]);
                let i = choose|i: int| 0 <= i < p.len() && (#[trigger] p[i]).path@ == t[k].path@;
                assert(m[i] == p[i]);
            } else if exists|i: int| 0 <= i < p.len() && (#[trigger] p[i]).path@ == new.last().path@ {
                let i = choose|i: int| 0 <= i < p.len() && (#[trigger] p[i]).path@ == new.last().path@;
                assert(m[i] == p[i]);
            } else {
                assert(m[m.len() - 1] == new[k]);
            }
        }
        if m != p {
            assert(m.subrange(0, existing.len() as int) =~= p.subrange(0, existing.len() as int));
        }
    }
}

/// Merging pages of server albums into the library's list keeps the albums it
/// had, in place, adds every new id, and never lists an id twice.
pub proof fn lemma_merged_albums(existing: Seq<Album>, new: Seq<Album>)
    requires
        ids_distinct(existing),
    ensures
        ids_distinct(merged_albums(existing, new)),
        merged_albums(existing, new).len() >= existing.len(),
        merged_albums(existing, new).subrange(0, existing.len() as int) == existing,
        forall|k: int| 0 <= k < new.len() ==> exists|i: int| 0 <= i < merged_albums(existing, new).len()
            && (#[trigger] merged_albums(existing, new)[i]).id@ == (#[trigger] new[k]).id@,
    decreases new.len(),
{
    let m = merged_albums(existing, new);
    if new.len() == 0 {
        assert(m.subrange(0, existing.len() as int) =~= existing);
    } else {
        let t = new.drop_last();
        lemma_merged_albums(existing, t);
        let p = merged_albums(existing, t);
        assert forall|k: int| 0 <= k < new.len() implies exists|i: int| 0 <= i < m.len()
            && (#[trigger] m[i]).id@ == (#[trigger] new[k]).id@ by {
            if k < new.len() - 1 {
                assert(new[k] == t[k]);
                let i = choose|i: int| 0 <= i < p.len() && (#[trigger] p[i]).id@ == t[k].id@;
                assert(m[i] == p[i]);
            } else if exists|i: int| 0 <= i < p.len() && (#[trigger] p[i]).id@ == new.last().id@ {
                let i = choose|i: int| 0 <= i < p.len() && (#[trigger] p[i]).id@ == new.last().id@;
                assert(m[i] == p[i]);
            } else {
                assert(m[m.len() - 1] == new[k]);
            }
        }
        if m != p {
            assert(m.subrange(0, existing.len() as int) =~= p.subrange(0, existing.len() as int));
        }
    }
}

fn primary_image_tag(tags: &Option<StrMap<String>>) -> (r: Option<String>)
    ensures
        opt_text(r) == primary_tag(*tags),
{
    match tags {
        Some(m) => match m.get("Primary") {
            Some(t) => Some(t.clone()),
            None => None,
        },
        None => None,
    }
}

fn artist_of(album_artist: Option<String>, artists: Option<Vec<String>>) -> (r: String)
    ensures
        r@ == artist_text(album_artist, artists),
{
    match album_artist {
        Some(a) => a,
        None => match artists {
            Some(v) => join(&v, ", "),
            None => String::new(),
        },
    }
}

fn remote_path(id: &str, tag: &Option<String>) -> (r: String)
    ensures
        r@ == remote_path_spec(id@, opt_text(*tag)),
{
    let mut p = concat2("jellyfin:", id);
    match tag {
        Some(t) => {
            p.append(":");
            p.append(t.as_str());
        },
        None => {},
    }
    p
}

/// `t` is the library track for the server item `item` (see `item_to_track`).
pub open spec fn track_from_item(item: Item, t: Track) -> bool {
    &&& t.path@ == remote_path_spec(item.id@, primary_tag(item.image_tags))
    &&& t.album_id@ == match item.album_id { Some(a) => "jellyfin:"@ + a@, None => Seq::<char>::empty() }
    &&& t.title == item.name
    &&& t.artist@ == artist_text(item.album_artist, item.artists)
    &&& t.album@ == match item.album { Some(a) => a@, None => Seq::<char>::empty() }
    &&& t.duration == match item.run_time_ticks { Some(x) => x / 10_000_000, None => 0 }
    &&& t.khz == match item.sample_rate { Some(x) => x, None => 0 }
    &&& t.bitrate == kbps_spec(item.bitrate)
    &&& t.track_number == item.index_number
    &&& t.disc_number == item.parent_index_number
    &&& t.musicbrainz_release_id is None
    &&& t.playlist_item_id is None
}

/// `r` is the library album for the server album `a` (see `album_item_to_album`).
pub open spec fn album_from_item(a: AlbumItem, r: Album) -> bool {
    &&& r.id@ == "jellyfin:"@ + a.id@
    &&& r.title == a.name
    &&& r.artist@ == artist_text(a.album_artist, a.artists)
    &&& r.genre@ == match a.genres { Some(g) => join_spec(views(g@), ", "@), None => Seq::<char>::empty() }
    &&& r.year == match a.production_year { Some(y) => y, None => 0 }
    &&& r.cover_path is Some
    &&& r.cover_path.unwrap()@ == remote_path_spec(a.id@, primary_tag(a.image_tags))
}

/// The library track for an audio item of the server.
pub fn item_to_track(item: Item) -> (t: Track)
    ensures
        t.path@ == remote_path_spec(item.id@, primary_tag(item.image_tags)),
        t.album_id@ == match item.album_id { Some(a) => "jellyfin:"@ + a@, None => Seq::<char>::empty() },
        t.title == item.name,
        t.artist@ == artist_text(item.album_artist, item.artists),
        t.album@ == match item.album { Some(a) => a@, None => Seq::<char>::empty() },
        t.duration == match item.run_time_ticks { Some(x) => x / 10_000_000, None => 0 },
        t.khz == match item.sample_rate { Some(x) => x, None => 0 },
        t.bitrate == kbps_spec(item.bitrate),
        t.track_number == item.index_number,
        t.disc_number == item.parent_index_number,
        t.musicbrainz_release_id is None,
        t.playlist_item_id is None,
        track_from_item(item, t),
{
    let tag = primary_image_tag(&item.image_tags);
    let path = remote_path(item.id.as_str(), &tag);
    let duration = match item.run_time_ticks { Some(x) => x / 10_000_000, None => 0 };
    let kbps = match item.bitrate { Some(b) => b / 1000, None => 0 };
    let bitrate: u8 = if kbps > 255 { 255 } else { kbps as u8 };
    let album_id = match &item.album_id {
        Some(a) => concat2("jellyfin:", a.as_str()),
        None => String::new(),
    };
    let album = match item.album { Some(a) => a, None => String::new() };
    let artist = artist_of(item.album_artist, item.artists);
    Track {
        path,
        album_id,
        title: item.name,
        artist,
        album,
        duration,
        khz: match item.sample_rate { Some(x) => x, None => 0 },
        bitrate,
        track_number: item.index_number,
        disc_number: item.parent_index_number,
        musicbrainz_release_id: None,
        playlist_item_id: None,
    }
}

/// The library album for an album of the server; its cover path names the
/// server item (with its image tag when it has one).
pub fn album_item_to_album(a: AlbumItem) -> (r: Album)
    ensures
        r.id@ == "jellyfin:"@ + a.id@,
        r.title == a.name,
        r.artist@ == artist_text(a.album_artist, a.artists),
        r.genre@ == match a.genres { Some(g) => join_spec(views(g@), ", "@), None => Seq::<char>::empty() },
        r.year == match a.production_year { Some(y) => y, None => 0 },
        r.cover_path is Some,
        r.cover_path.unwrap()@ == remote_path_spec(a.id@, primary_tag(a.image_tags)),
        album_from_item(a, r),
{
    let tag = primary_image_tag(&a.image_tags);
    let cover = remote_path(a.id.as_str(), &tag);
    let id = concat2("jellyfin:", a.id.as_str());
    let genre = match &a.genres { Some(g) => join(g, ", "), None => String::new() };
    let artist = artist_of(a.album_artist, a.artists);
    Album {
        id,
        title: a.name,
        artist,
        genre,
        year: match a.production_year { Some(y) => y, None => 0 },
        cover_path: Some(cover),
    }
}

/// The views that are music libraries, in order.
pub fn music_libraries(views: Vec<ViewItem>) -> (r: Vec<ViewItem>)
    ensures
        r@ == music_views(views@),
{
    let ghost all = views@;
    let mut views = views;
    let mut out: Vec<ViewItem> = Vec::new();
    let n = views.len();
    let mut i: usize = 0;
    while i < n
        invariant
            n == all.len(),
            i <= n,
            views@ == all.subrange(i as int, n as int),
            out@ == music_views(all.subrange(0, i as int)),
        decreases n - i,
    {
        assert(views@.len() > 0);
        let v = views.remove(0);
        assert(all.subrange(0, i + 1).drop_last() =~= all.subrange(0, i as int));
        assert(all.subrange(0, i + 1).last() == v);
        let is_music = match &v.collection_type {
            Some(c) => str_eq(c.as_str(), "music"),
            None => false,
        };
        if is_music {
            out.push(v);
        }
        assert(views@ =~= all.subrange(i + 1, n as int));
        i = i + 1;
    }
    assert(all.subrange(0, n as int) =~= all);
    out
}

/// Adds the new tracks whose paths are not in the list yet, in order.
pub fn merge_tracks(existing: &mut Vec<Track>, new: Vec<Track>)
    ensures
        final(existing)@ == merged_tracks(old(existing)@, new@),
{
    let ghost start = existing@;
    let ghost all = new@;
    let mut new = new;
    let n = new.len();
    let mut i: usize = 0;
    while i < n
        invariant
            n == all.len(),
            i <= n,
            new@ == all.subrange(i as int, n as int),
            existing@ == merged_tracks(start, all.subrange(0, i as int)),
        decreases n - i,
    {
        assert(new@.len() > 0);
        let t = new.remove(0);
        assert(all.subrange(0, i + 1).drop_last() =~= all.subrange(0, i as int));
        assert(all.subrange(0, i + 1).last() == t);
        let m = existing.len();
        let mut j: usize = 0;
        let mut found = false;
        while j < m
            invariant
                m == existing@.len(),
                j <= m,
                !found ==> forall|k: int| 0 <= k < j ==> (#[trigger] existing@[k]).path@ != t.path@,
                found ==> exists|k: int| 0 <= k < m && (#[trigger] existing@[k]).path@ == t.path@,
            decreases m - j,
        {
            if !found && str_eq(existing[j].path.as_str(), t.path.as_str()) {
                found = true;
            }
            j = j + 1;
        }
        if !found {
            existing.push(t);
        }
        assert(new@ =~= all.subrange(i + 1, n as int));
        i = i + 1;
    }
    assert(all.subrange(0, n as int) =~= all);
}

/// Adds the new albums whose ids are not in the list yet, in order.
pub fn merge_albums(existing: &mut Vec<Album>, new: Vec<Album>)
    ensures
        final(existing)@ == merged_albums(old(existing)@, new@),
{
    let ghost start = existing@;
    let ghost all = new@;
    let mut new = new;
    let n = new.len();
    let mut i: usize = 0;
    while i < n
        invariant
            n == all.len(),
            i <= n,
            new@ == all.subrange(i as int, n as int),
            existing@ == merged_albums(start, all.subrange(0, i as int)),
        decreases n - i,
    {
        assert(new@.len() > 0);
        let a = new.remove(0);
        assert(all.subrange(0, i + 1).drop_last() =~= all.subrange(0, i as int));
        assert(all.subrange(0, i + 1).last() == a);
        let m = existing.len();
        let mut j: usize = 0;
        let mut found = false;
        while j < m
            invariant
                m == existing@.len(),
                j <= m,
                !found ==> forall|k: int| 0 <= k < j ==> (#[trigger] existing@[k]).id@ != a.id@,
                found ==> exists|k: int| 0 <= k < m && (#[trigger] existing@[k]).id@ == a.id@,
            decreases m - j,
        {
            if !found && str_eq(existing[j].id.as_str(), a.id.as_str()) {
                found = true;
            }
            j = j + 1;
        }
        if !found {
            existing.push(a);
        }
        assert(new@ =~= all.subrange(i + 1, n as int));
        i = i + 1;
    }
    assert(all.subrange(0, n as int) =~= all);
}

/// Where the next page starts after a page of `count` entries fetched from
/// `start` with page size `limit`; `None` once a page is empty or short.
pub fn next_page_start(start: usize, count: usize, limit: usize) -> (r: Option<usize>)
    requires
        start + count <= usize::MAX,
    ensures
        r == if count == 0 || count < limit { None } else { Some((start + count) as usize) },
{
    if count == 0 || count < limit {
        None
    } else {
        Some(start + count)
    }
}

} // verus!
