use vstd::prelude::*;
use std::time::Duration;

verus! {

/// One playable track of the library. A track served by a Jellyfin server has a
/// `path` of the form `jellyfin:<item id>` or `jellyfin:<item id>:<image tag>`.
#[derive(Debug)]
pub struct Track {
    pub path: String,
    pub album_id: String,
    pub title: String,
    pub artist: String,
    pub album: String,
    pub duration: u64,
    pub khz: u32,
    pub bitrate: u8,
    pub track_number: Option<u32>,
    pub disc_number: Option<u32>,
    pub musicbrainz_release_id: Option<String>,
    pub playlist_item_id: Option<String>,
}

impl Clone for Track {
    fn clone(&self) -> (r: Self)
        ensures
            r == *self,
    {
        Track {
            path: self.path.clone(),
            album_id: self.album_id.clone(),
            title: self.title.clone(),
            artist: self.artist.clone(),
            album: self.album.clone(),
            duration: self.duration,
            khz: self.khz,
            bitrate: self.bitrate,
            track_number: self.track_number,
            disc_number: self.disc_number,
            musicbrainz_release_id: match &self.musicbrainz_release_id {
                Some(s) => Some(s.clone()),
                None => None,
            },
            playlist_item_id: match &self.playlist_item_id {
                Some(s) => Some(s.clone()),
                None => None,
            },
        }
    }
}

/// One album of the library.
#[derive(Debug)]
pub struct Album {
    pub id: String,
    pub title: String,
    pub artist: String,
    pub genre: String,
    pub year: u16,
    pub cover_path: Option<String>,
}

impl Clone for Album {
    fn clone(&self) -> (r: Self)
        ensures
            r == *self,
    {
        Album {
            id: self.id.clone(),
            title: self.title.clone(),
            artist: self.artist.clone(),
            genre: self.genre.clone(),
            year: self.year,
            cover_path: match &self.cover_path {
                Some(s) => Some(s.clone()),
                None => None,
            },
        }
    }
}

/// What the system's now-playing display shows.
#[derive(Debug)]
pub struct NowPlayingMeta {
    pub title: String,
    pub artist: String,
    pub album: String,
    pub duration: Duration,
    pub artwork: Option<String>,
}

/// The duration of `secs` whole seconds (`Duration::from_secs`).
pub uninterp spec fn duration_of_secs(secs: u64) -> Duration;

/// A duration of `secs` whole seconds.
///
/// Trusted wrapper around `std::time::Duration::from_secs`, which never fails;
/// the value is only named, as a function of `secs`.
#[verifier::external_body]
fn duration_from_secs(secs: u64) -> (d: Duration)
    ensures
        d == duration_of_secs(secs),
{
    Duration::from_secs(secs)
}

/// The now-playing description of `track`, with the given artwork.
pub fn now_playing_meta(track: &Track, artwork: Option<String>) -> (m: NowPlayingMeta)
    ensures
        m.title@ == track.title@,
        m.artist@ == track.artist@,
        m.album@ == track.album@,
        m.duration == duration_of_secs(track.duration),
        m.artwork == artwork,
{
    NowPlayingMeta {
        title: track.title.clone(),
        artist: track.artist.clone(),
        album: track.album.clone(),
        duration: duration_from_secs(track.duration),
        artwork,
    }
}

/// Position of the first album with id `id`.
pub fn find_album(albums: &Vec<Album>, id: &str) -> (r: Option<usize>)
    ensures
        match r {
            Some(i) => i < albums@.len() && albums@[i as int].id@ == id@
                && forall|k: int| 0 <= k < i ==> (#[trigger] albums@[k]).id@ != id@,
            None => forall|k: int| 0 <= k < albums@.len() ==> (#[trigger] albums@[k]).id@ != id@,
        },
{
    let n = albums.len();
    let mut i: usize = 0;
    while i < n
        invariant
            n == albums@.len(),
            i <= n,
            forall|k: int| 0 <= k < i ==> (#[trigger] albums@[k]).id@ != id@,
        decreases n - i,
    {
        if crate::text::str_eq(albums[i].id.as_str(), id) {
            return Some(i);
        }
        i = i + 1;
    }
    None
}

} // verus!
