use vstd::prelude::*;
use crate::text::{concat2, split_on, split_spec, starts_with, is_prefix, views};
use crate::config::JellyfinServer;

verus! {

/// The text view of an optional string.
pub open spec fn opt_view(o: Option<String>) -> Option<Seq<char>> {
    match o {
        Some(s) => Some(s@),
        None => None,
    }
}

/// Whether a track path names an item of a Jellyfin server.
pub open spec fn is_remote_path(p: Seq<char>) -> bool {
    is_prefix("jellyfin:"@, p)
}

/// The `k`-th `:`-separated segment of a track path, if it has one.
pub open spec fn path_segment(p: Seq<char>, k: int) -> Option<Seq<char>> {
    let parts = split_spec(p, ':');
    if 0 <= k < parts.len() {
        Some(parts[k])
    } else {
        None
    }
}

/// The item id of a remote track path; empty when the path has no second segment.
pub open spec fn remote_item_id(p: Seq<char>) -> Seq<char> {
    match path_segment(p, 1) {
        Some(id) => id,
        None => Seq::<char>::empty(),
    }
}

/// URL from which the server streams the stored file of item `id`, unconverted.
pub open spec fn stream_url_spec(base: Seq<char>, id: Seq<char>, token: Option<Seq<char>>) -> Seq<char> {
    base + "/Audio/"@ + id + "/stream?static=true"@ + match token {
        Some(t) => "&api_key="@ + t,
        None => Seq::<char>::empty(),
    }
}

/// Cover URL the player hands to the system while a remote track plays: the tag
/// is only passed along with a token.
pub open spec fn playback_cover_url_spec(
    base: Seq<char>,
    id: Seq<char>,
    tag: Option<Seq<char>>,
    token: Option<Seq<char>>,
) -> Seq<char> {
    base + "/Items/"@ + id + "/Images/Primary"@ + match (tag, token) {
        (Some(g), Some(t)) => "?tag="@ + g + "&api_key="@ + t,
        (None, Some(t)) => "?api_key="@ + t,
        (_, None) => Seq::<char>::empty(),
    }
}

/// Cover URL the views show for a remote track: tag and token each become a
/// query parameter when present.
pub open spec fn display_cover_url_spec(
    base: Seq<char>,
    id: Seq<char>,
    tag: Option<Seq<char>>,
    token: Option<Seq<char>>,
) -> Seq<char> {
    base + "/Items/"@ + id + "/Images/Primary"@ + match (tag, token) {
        (Some(g), Some(t)) => "?tag="@ + g + "&api_key="@ + t,
        (Some(g), None) => "?tag="@ + g,
        (None, Some(t)) => "?api_key="@ + t,
        (None, None) => Seq::<char>::empty(),
    }
}

/// Whether `path` names a Jellyfin item (`starts_with("jellyfin:")`).
pub fn is_remote_track_path(path: &str) -> (r: bool)
    ensures
        r == is_remote_path(path@),
{
    starts_with(path, "jellyfin:")
}

/// The `:`-separated segments of a track path.
pub fn path_segments(path: &str) -> (r: Vec<String>)
    ensures
        views(r@) == split_spec(path@, ':'),
{
    split_on(path, ':')
}

/// Streaming URL of item `id` on the server at `base`.
pub fn stream_url(base: &str, id: &str, token: Option<&String>) -> (r: String)
    ensures
        r@ == stream_url_spec(base@, id@, match token { Some(t) => Some(t@), None => None }),
{
    let mut u = concat2(base, "/Audio/");
    u.append(id);
    u.append("/stream?static=true");
    match token {
        Some(t) => {
            u.append("&api_key=");
            u.append(t.as_str());
        },
        None => {},
    }
    u
}

/// Cover URL used for the system's now-playing display of a remote track.
pub fn playback_cover_url(base: &str, id: &str, tag: Option<&String>, token: Option<&String>) -> (r: String)
    ensures
        r@ == playback_cover_url_spec(
            base@,
            id@,
            match tag { Some(g) => Some(g@), None => None },
            match token { Some(t) => Some(t@), None => None },
        ),
{
    let mut u = concat2(base, "/Items/");
    u.append(id);
    u.append("/Images/Primary");
    match (tag, token) {
        (Some(g), Some(t)) => {
            u.append("?tag=");
            u.append(g.as_str());
            u.append("&api_key=");
            u.append(t.as_str());
        },
        (None, Some(t)) => {
            u.append("?api_key=");
            u.append(t.as_str());
        },
        (_, None) => {},
    }
    u
}

/// Cover URL the views show for a remote track.
pub fn display_cover_url(base: &str, id: &str, tag: Option<&String>, token: Option<&String>) -> (r: String)
    ensures
        r@ == display_cover_url_spec(
            base@,
            id@,
            match tag { Some(g) => Some(g@), None => None },
            match token { Some(t) => Some(t@), None => None },
        ),
{
    let mut u = concat2(base, "/Items/");
    u.append(id);
    u.append("/Images/Primary");
    match (tag, token) {
        (Some(g), Some(t)) => {
            u.append("?tag=");
            u.append(g.as_str());
            u.append("&api_key=");
            u.append(t.as_str());
        },
        (Some(g), None) => {
            u.append("?tag=");
            u.append(g.as_str());
        },
        (None, Some(t)) => {
            u.append("?api_key=");
            u.append(t.as_str());
        },
        (None, None) => {},
    }
    u
}

/// Where the cover of a track comes from.
#[derive(Debug)]
pub enum CoverLookup {
    /// A URL on the Jellyfin server.
    Url(String),
    /// The artwork of the library album with the track's `album_id`.
    AlbumArtwork,
    /// No cover can be shown.
    NoCover,
}

/// Where the views take the cover of the track with `path` from: remote tracks
/// use the server's image URL (when a server is configured and the path has an
/// item id), local tracks their album's artwork.
pub fn cover_for_track(server: Option<&JellyfinServer>, path: &str) -> (r: CoverLookup)
    ensures
        !is_remote_path(path@) ==> r is AlbumArtwork,
        is_remote_path(path@) ==> match r {
            CoverLookup::Url(u) => server.is_some() && path_segment(path@, 1).is_some()
                && u@ == display_cover_url_spec(
                    server.unwrap().url@,
                    remote_item_id(path@),
                    path_segment(path@, 2),
                    opt_view(server.unwrap().access_token),
                ),
            CoverLookup::NoCover => server.is_none() || path_segment(path@, 1).is_none(),
            CoverLookup::AlbumArtwork => false,
        },
{
    if !is_remote_track_path(path) {
        return CoverLookup::AlbumArtwork;
    }
    match server {
        None => CoverLookup::NoCover,
        Some(srv) => {
            let parts = path_segments(path);
            if parts.len() < 2 {
                return CoverLookup::NoCover;
            }
            let tag = if parts.len() >= 3 { Some(&parts[2]) } else { None };
            let token = match &srv.access_token { Some(t) => Some(t), None => None };
            let u = display_cover_url(srv.url.as_str(), parts[1].as_str(), tag, token);
            CoverLookup::Url(u)
        },
    }
}

/// The cover of an album card: for a server and a cover path of the form
/// `jellyfin:<id>[:<tag>]`, the server's image of `<id>`, with the tag and the
/// access token as query parameters where there are any.
pub open spec fn album_cover_spec(server: Option<JellyfinServer>, cover: Option<Seq<char>>) -> Option<Seq<char>> {
    match (server, cover) {
        (Some(s), Some(p)) => if path_segment(p, 1).is_some() {
            Some(display_cover_url_spec(s.url@, remote_item_id(p), path_segment(p, 2), opt_view(s.access_token)))
        } else {
            None
        },
        _ => None,
    }
}

/// The picture that artist and playlist cards show: the server's image of the
/// item that a track path names, with only the access token as query parameter.
pub open spec fn item_picture_spec(server: Option<JellyfinServer>, path: Seq<char>) -> Option<Seq<char>> {
    match server {
        Some(s) => if path_segment(path, 1).is_some() {
            Some(display_cover_url_spec(s.url@, remote_item_id(path), None, opt_view(s.access_token)))
        } else {
            None
        },
        None => None,
    }
}

/// The cover URL of an album card on a server page.
pub fn album_cover_url(server: Option<&JellyfinServer>, cover: Option<&String>) -> (r: Option<String>)
    ensures
        opt_view(r) == album_cover_spec(
            match server { Some(s) => Some(*s), None => None },
            match cover { Some(c) => Some(c@), None => None },
        ),
{
    match (server, cover) {
        (Some(srv), Some(p)) => {
            let parts = path_segments(p.as_str());
            if parts.len() < 2 {
                return None;
            }
            let tag = if parts.len() >= 3 { Some(&parts[2]) } else { None };
            let token = match &srv.access_token { Some(t) => Some(t), None => None };
            Some(display_cover_url(srv.url.as_str(), parts[1].as_str(), tag, token))
        },
        _ => None,
    }
}

/// The card picture URL taken from a track (see `item_picture_spec`).
pub fn item_picture_url(server: Option<&JellyfinServer>, path: &str) -> (r: Option<String>)
    ensures
        opt_view(r) == item_picture_spec(match server { Some(s) => Some(*s), None => None }, path@),
{
    match server {
        Some(srv) => {
            let parts = path_segments(path);
            if parts.len() < 2 {
                return None;
            }
            let token = match &srv.access_token { Some(t) => Some(t), None => None };
            Some(display_cover_url(srv.url.as_str(), parts[1].as_str(), None, token))
        },
        None => None,
    }
}

} // verus!
