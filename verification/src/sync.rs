use vstd::prelude::*;
use crate::jellyfin::{
    album_from_item, album_item_to_album, ids_distinct, item_to_track, lemma_merged_albums,
    lemma_merged_tracks, merge_albums, merge_tracks, merged_albums, merged_tracks, next_page_start,
    paths_distinct, track_from_item, AlbumItem, Genre, Item, ViewItem,
};
use crate::models::{Album, Track};

verus! {

/// Albums asked for per page.
pub const ALBUM_PAGE: usize = 100;

/// Tracks asked for per page.
pub const TRACK_PAGE: usize = 200;

/// What a library sync is fetching.
#[derive(Debug, Clone, Copy, PartialEq, Eq, Structural)]
pub enum SyncPhase {
    /// Pages of the current library's albums.
    Albums,
    /// Pages of the current library's tracks.
    Tracks,
    /// The genres (after each library's tracks).
    Genres,
    /// Every library was fetched.
    Finished,
}

/// The state of fetching the server's music libraries into the library's
/// lists, one library after another.
#[derive(Debug)]
pub struct LibrarySync {
    /// Ids of the music libraries, in the order they are fetched.
    pub libraries: Vec<String>,
    /// The library being fetched.
    pub current: usize,
    pub phase: SyncPhase,
    /// Index of the next page's first entry.
    pub start: usize,
    pub tracks: Vec<Track>,
    pub albums: Vec<Album>,
    /// The genres (name, id) of the last successful genre request.
    pub genres: Option<Vec<(String, String)>>,
}

/// The request a sync makes next.
#[derive(Debug)]
pub enum SyncAction {
    FetchAlbums { library_id: String, start: usize, limit: usize },
    FetchTracks { library_id: String, start: usize, limit: usize },
    FetchGenres,
    Done,
}

/// The answer to the last request; `None` when it failed.
#[derive(Debug)]
pub enum SyncEvent {
    Albums(Option<Vec<AlbumItem>>),
    Tracks(Option<Vec<Item>>),
    Genres(Option<Vec<Genre>>),
}

/// The new albums are the server albums converted one by one.
pub open spec fn converted_albums(items: Seq<AlbumItem>, new: Seq<Album>) -> bool {
    new.len() == items.len() && forall|i: int| 0 <= i < items.len() ==> album_from_item(items[i], #[trigger] new[i])
}

/// The new tracks are the server items converted one by one.
pub open spec fn converted_tracks(items: Seq<Item>, new: Seq<Track>) -> bool {
    new.len() == items.len() && forall|i: int| 0 <= i < items.len() ==> track_from_item(items[i], #[trigger] new[i])
}

/// The genre pairs (name, id) of the server's genres.
pub open spec fn genre_pairs(g: Seq<Genre>, v: Seq<(String, String)>) -> bool {
    v.len() == g.len() && forall|i: int| 0 <= i < g.len() ==> (#[trigger] v[i]).0 == g[i].name && v[i].1 == g[i].id
}

impl LibrarySync {
    /// A library is being fetched whenever the sync is not finished.
    pub open spec fn wf(self) -> bool {
        self.phase != SyncPhase::Finished ==> self.current < self.libraries@.len()
    }

    /// The request that the state asks for.
    pub open spec fn pending(self) -> SyncAction {
        match self.phase {
            SyncPhase::Albums => SyncAction::FetchAlbums {
                library_id: self.libraries@[self.current as int],
                start: self.start,
                limit: ALBUM_PAGE,
            },
            SyncPhase::Tracks => SyncAction::FetchTracks {
                library_id: self.libraries@[self.current as int],
                start: self.start,
                limit: TRACK_PAGE,
            },
            SyncPhase::Genres => SyncAction::FetchGenres,
            SyncPhase::Finished => SyncAction::Done,
        }
    }

    /// After the genres of the current library: the next library's albums,
    /// or the end.
    pub open spec fn next_library(self) -> Self {
        if self.current + 1 < self.libraries@.len() {
            LibrarySync { current: (self.current + 1) as usize, phase: SyncPhase::Albums, start: 0, ..self }
        } else {
            LibrarySync { phase: SyncPhase::Finished, start: 0, ..self }
        }
    }

    /// `post` is what the answer `event` makes of `pre`: a page of albums or
    /// tracks is converted and merged (no id or path twice) and the next page
    /// is asked for while pages come full; an empty page or a failure moves
    /// on; the genres replace the previous ones; an answer to a request that
    /// was not made changes nothing.
    pub open spec fn after(pre: Self, event: SyncEvent, post: Self) -> bool {
        match (pre.phase, event) {
            (SyncPhase::Albums, SyncEvent::Albums(Some(items))) => if items@.len() > 0 {
                &&& exists|new: Seq<Album>| converted_albums(items@, new) && post.albums@ == #[trigger] merged_albums(pre.albums@, new)
                &&& if items@.len() < ALBUM_PAGE {
                    post == LibrarySync { phase: SyncPhase::Tracks, start: 0, albums: post.albums, ..pre }
                } else {
                    post == LibrarySync { start: (pre.start + items@.len()) as usize, albums: post.albums, ..pre }
                }
            } else {
                post == LibrarySync { phase: SyncPhase::Tracks, start: 0, ..pre }
            },
            (SyncPhase::Albums, SyncEvent::Albums(None)) => post == LibrarySync { phase: SyncPhase::Tracks, start: 0, ..pre },
            (SyncPhase::Tracks, SyncEvent::Tracks(Some(items))) => if items@.len() > 0 {
                &&& exists|new: Seq<Track>| converted_tracks(items@, new) && post.tracks@ == #[trigger] merged_tracks(pre.tracks@, new)
                &&& if items@.len() < TRACK_PAGE {
                    post == LibrarySync { phase: SyncPhase::Genres, start: 0, tracks: post.tracks, ..pre }
                } else {
                    post == LibrarySync { start: (pre.start + items@.len()) as usize, tracks: post.tracks, ..pre }
                }
            } else {
                post == LibrarySync { phase: SyncPhase::Genres, start: 0, ..pre }
            },
            (SyncPhase::Tracks, SyncEvent::Tracks(None)) => post == LibrarySync { phase: SyncPhase::Genres, start: 0, ..pre },
            (SyncPhase::Genres, SyncEvent::Genres(Some(g))) => {
                &&& post.genres matches Some(v) && genre_pairs(g@, v@)
                &&& post == LibrarySync { genres: post.genres, ..pre }.next_library()
            },
            (SyncPhase::Genres, SyncEvent::Genres(None)) => post == pre.next_library(),
            _ => post == pre,
        }
    }
}

/// Every step of a sync keeps the library's lists free of repeats: no path is
/// listed twice among the tracks, no id twice among the albums.
pub proof fn lemma_sync_keeps_lists_distinct(pre: LibrarySync, event: SyncEvent, post: LibrarySync)
    requires
        LibrarySync::after(pre, event, post),
        paths_distinct(pre.tracks@),
        ids_distinct(pre.albums@),
    ensures
        paths_distinct(post.tracks@),
        ids_distinct(post.albums@),
{
    match (pre.phase, event) {
        (SyncPhase::Albums, SyncEvent::Albums(Some(items))) => {
            if items@.len() > 0 {
                let new = choose|new: Seq<Album>| converted_albums(items@, new) && post.albums@ == #[trigger] merged_albums(pre.albums@, new);
                lemma_merged_albums(pre.albums@, new);
            }
        },
        (SyncPhase::Tracks, SyncEvent::Tracks(Some(items))) => {
            if items@.len() > 0 {
                let new = choose|new: Seq<Track>| converted_tracks(items@, new) && post.tracks@ == #[trigger] merged_tracks(pre.tracks@, new);
                lemma_merged_tracks(pre.tracks@, new);
            }
        },
        _ => {},
    }
}

/// The sync of the music libraries `libraries` into the lists `tracks` and
/// `albums`, and its first request.
pub fn sync_start(libraries: &Vec<ViewItem>, tracks: Vec<Track>, albums: Vec<Album>) -> (r: (LibrarySync, SyncAction))
    ensures
        r.0.wf(),
        r.1 == r.0.pending(),
        r.0.libraries@.len() == libraries@.len(),
        forall|i: int| 0 <= i < libraries@.len() ==> (#[trigger] r.0.libraries@[i]) == libraries@[i].id,
        r.0.current == 0,
        r.0.start == 0,
        r.0.phase == if libraries@.len() > 0 { SyncPhase::Albums } else { SyncPhase::Finished },
        r.0.tracks == tracks,
        r.0.albums == albums,
        r.0.genres is None,
{
    let mut ids: Vec<String> = Vec::new();
    let n = libraries.len();
    let mut i: usize = 0;
    while i < n
        invariant
            n == libraries@.len(),
            i <= n,
            ids@.len() == i,
            forall|k: int| 0 <= k < i ==> (#[trigger] ids@[k]) == libraries@[k].id,
        decreases n - i,
    {
        ids.push(libraries[i].id.clone());
        i = i + 1;
    }
    let phase = if n > 0 { SyncPhase::Albums } else { SyncPhase::Finished };
    let s = LibrarySync { libraries: ids, current: 0, phase, start: 0, tracks, albums, genres: None };
    let a = s.action();
    (s, a)
}

fn convert_albums(items: Vec<AlbumItem>) -> (r: Vec<Album>)
    ensures
        converted_albums(items@, r@),
{
    let ghost all = items@;
    let mut items = items;
    let mut rev: Vec<Album> = Vec::new();
    while items.len() > 0
        invariant
            items@ == all.subrange(0, items@.len() as int),
            rev@.len() == all.len() - items@.len(),
            forall|k: int| 0 <= k < rev@.len() ==> album_from_item(all[all.len() - 1 - k], #[trigger] rev@[k]),
        decreases items@.len(),
    {
        let a = items.pop().unwrap();
        assert(a == all[items@.len() as int]);
        rev.push(album_item_to_album(a));
        assert(items@ =~= all.subrange(0, items@.len() as int));
    }
    let mut out: Vec<Album> = Vec::new();
    while rev.len() > 0
        invariant
            rev@.len() + out@.len() == all.len(),
            forall|k: int| 0 <= k < rev@.len() ==> album_from_item(all[all.len() - 1 - k], #[trigger] rev@[k]),
            forall|k: int| 0 <= k < out@.len() ==> album_from_item(all[k], #[trigger] out@[k]),
        decreases rev@.len(),
    {
        let ghost k = rev@.len() - 1;
        let x = rev.pop().unwrap();
        assert(album_from_item(all[all.len() - 1 - k], x));
        out.push(x);
    }
    out
}

fn convert_tracks(items: Vec<Item>) -> (r: Vec<Track>)
    ensures
        converted_tracks(items@, r@),
{
    let ghost all = items@;
    let mut items = items;
    let mut rev: Vec<Track> = Vec::new();
    while items.len() > 0
        invariant
            items@ == all.subrange(0, items@.len() as int),
            rev@.len() == all.len() - items@.len(),
            forall|k: int| 0 <= k < rev@.len() ==> track_from_item(all[all.len() - 1 - k], #[trigger] rev@[k]),
        decreases items@.len(),
    {
        let a = items.pop().unwrap();
        assert(a == all[items@.len() as int]);
        rev.push(item_to_track(a));
        assert(items@ =~= all.subrange(0, items@.len() as int));
    }
    let mut out: Vec<Track> = Vec::new();
    while rev.len() > 0
        invariant
            rev@.len() + out@.len() == all.len(),
            forall|k: int| 0 <= k < rev@.len() ==> track_from_item(all[all.len() - 1 - k], #[trigger] rev@[k]),
            forall|k: int| 0 <= k < out@.len() ==> track_from_item(all[k], #[trigger] out@[k]),
        decreases rev@.len(),
    {
        let ghost k = rev@.len() - 1;
        let x = rev.pop().unwrap();
        assert(track_from_item(all[all.len() - 1 - k], x));
        out.push(x);
    }
    out
}

fn convert_genres(g: Vec<Genre>) -> (r: Vec<(String, String)>)
    ensures
        genre_pairs(g@, r@),
{
    let ghost all = g@;
    let mut g = g;
    let mut rev: Vec<(String, String)> = Vec::new();
    while g.len() > 0
        invariant
            g@ == all.subrange(0, g@.len() as int),
            rev@.len() == all.len() - g@.len(),
            forall|k: int| 0 <= k < rev@.len() ==> (#[trigger] rev@[k]).0 == all[all.len() - 1 - k].name
                && rev@[k].1 == all[all.len() - 1 - k].id,
        decreases g@.len(),
    {
        let x = g.pop().unwrap();
        assert(x == all[g@.len() as int]);
        rev.push((x.name, x.id));
        assert(g@ =~= all.subrange(0, g@.len() as int));
    }
    let mut out: Vec<(String, String)> = Vec::new();
    while rev.len() > 0
        invariant
            rev@.len() + out@.len() == all.len(),
            forall|k: int| 0 <= k < rev@.len() ==> (#[trigger] rev@[k]).0 == all[all.len() - 1 - k].name
                && rev@[k].1 == all[all.len() - 1 - k].id,
            forall|k: int| 0 <= k < out@.len() ==> (#[trigger] out@[k]).0 == all[k].name && out@[k].1 == all[k].id,
        decreases rev@.len(),
    {
        let x = rev.pop().unwrap();
        out.push(x);
    }
    out
}

impl LibrarySync {
    /// The request the sync makes next.
    pub fn action(&self) -> (a: SyncAction)
        requires
            self.wf(),
        ensures
            a == self.pending(),
    {
        match self.phase {
            SyncPhase::Albums => SyncAction::FetchAlbums {
                library_id: self.libraries[self.current].clone(),
                start: self.start,
                limit: ALBUM_PAGE,
            },
            SyncPhase::Tracks => SyncAction::FetchTracks {
                library_id: self.libraries[self.current].clone(),
                start: self.start,
                limit: TRACK_PAGE,
            },
            SyncPhase::Genres => SyncAction::FetchGenres,
            SyncPhase::Finished => SyncAction::Done,
        }
    }

    fn move_to_next_library(&mut self)
        requires
            old(self).wf(),
            old(self).phase != SyncPhase::Finished,
        ensures
            *final(self) == old(self).next_library(),
            final(self).wf(),
    {
        let n = self.libraries.len();
        if self.current + 1 < n {
            self.current = self.current + 1;
            self.phase = SyncPhase::Albums;
        } else {
            self.phase = SyncPhase::Finished;
        }
        self.start = 0;
    }

    /// Takes in the answer to the last request and gives the next one.
    pub fn step(&mut self, event: SyncEvent) -> (a: SyncAction)
        requires
            old(self).wf(),
            old(self).phase == SyncPhase::Albums ==> (event matches SyncEvent::Albums(Some(v))
                ==> old(self).start + v@.len() <= usize::MAX),
            old(self).phase == SyncPhase::Tracks ==> (event matches SyncEvent::Tracks(Some(v))
                ==> old(self).start + v@.len() <= usize::MAX),
        ensures
            final(self).wf(),
            a == final(self).pending(),
            LibrarySync::after(*old(self), event, *final(self)),
    {
        let ghost pre = *self;
        let ghost ev = event;
        match (self.phase, event) {
            (SyncPhase::Albums, SyncEvent::Albums(Some(items))) => {
                let count = items.len();
                if count > 0 {
                    let next = next_page_start(self.start, count, ALBUM_PAGE);
                    let new = convert_albums(items);
                    let ghost newv = new@;
                    merge_albums(&mut self.albums, new);
                    assert(self.albums@ == merged_albums(pre.albums@, newv));
                    match next {
                        Some(s) => self.start = s,
                        None => {
                            self.phase = SyncPhase::Tracks;
                            self.start = 0;
                        },
                    }
                } else {
                    self.phase = SyncPhase::Tracks;
                    self.start = 0;
                }
            },
            (SyncPhase::Albums, SyncEvent::Albums(None)) => {
                self.phase = SyncPhase::Tracks;
                self.start = 0;
            },
            (SyncPhase::Tracks, SyncEvent::Tracks(Some(items))) => {
                let count = items.len();
                if count > 0 {
                    let next = next_page_start(self.start, count, TRACK_PAGE);
                    let new = convert_tracks(items);
                    let ghost newv = new@;
                    merge_tracks(&mut self.tracks, new);
                    assert(self.tracks@ == merged_tracks(pre.tracks@, newv));
                    match next {
                        Some(s) => self.start = s,
                        None => {
                            self.phase = SyncPhase::Genres;
                            self.start = 0;
                        },
                    }
                } else {
                    self.phase = SyncPhase::Genres;
                    self.start = 0;
                }
            },
            (SyncPhase::Tracks, SyncEvent::Tracks(None)) => {
                self.phase = SyncPhase::Genres;
                self.start = 0;
            },
            (SyncPhase::Genres, SyncEvent::Genres(Some(g))) => {
                self.genres = Some(convert_genres(g));
                self.move_to_next_library();
            },
            (SyncPhase::Genres, SyncEvent::Genres(None)) => {
                self.move_to_next_library();
            },
            _ => {},
        }
        self.action()
    }

    /// Takes in an answer of the fetch started as `started` while `now` is the
    /// newest fetch: the answer of a fetch that a newer one replaced is
    /// dropped and ends this fetch, leaving its lists as they are.
    pub fn step_if_current(&mut self, event: SyncEvent, started: usize, now: usize) -> (a: SyncAction)
        requires
            old(self).wf(),
            old(self).phase == SyncPhase::Albums ==> (event matches SyncEvent::Albums(Some(v))
                ==> old(self).start + v@.len() <= usize::MAX),
            old(self).phase == SyncPhase::Tracks ==> (event matches SyncEvent::Tracks(Some(v))
                ==> old(self).start + v@.len() <= usize::MAX),
        ensures
            final(self).wf(),
            a == final(self).pending(),
            started == now ==> LibrarySync::after(*old(self), event, *final(self)),
            started != now ==> *final(self) == (LibrarySync { phase: SyncPhase::Finished, ..*old(self) }),
    {
        if started != now {
            self.phase = SyncPhase::Finished;
            return SyncAction::Done;
        }
        self.step(event)
    }

}

/// Numbers the requests of a page so that only the answer to the latest one
/// is taken in.
#[derive(Debug)]
pub struct RequestCounter {
    pub latest: u64,
}

impl RequestCounter {
    /// No request made yet.
    pub fn new() -> (c: Self)
        ensures
            c.latest == 0,
    {
        RequestCounter { latest: 0 }
    }

    /// Starts a new request: its number is one more than the last one's.
    pub fn start(&mut self) -> (id: u64)
        requires
            old(self).latest < u64::MAX,
        ensures
            id == old(self).latest + 1,
            final(self).latest == id,
    {
        self.latest = self.latest + 1;
        self.latest
    }

    /// Whether request `id` is still the latest one (its answer is taken in).
    pub fn is_latest(&self, id: u64) -> (r: bool)
        ensures
            r == (id == self.latest),
    {
        id == self.latest
    }
}

} // verus!
