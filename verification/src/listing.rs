use vstd::prelude::*;
use rand::seq::SliceRandom;
use crate::compound::{compound_order, lemma_compound_key_order, lemma_compound_order, CompoundKey, KeyPart, KeyPartView};
use crate::ordering::{
    lemma_sort_by, lemma_sort_by_text, lemma_string_order, lemma_text_le_antisym, lemma_text_le_trans, sort_by,
    sort_by_text, sort_keyed, sorted_by, sorted_by_text, text_le,
};
use crate::config::{JellyfinServer, SortOrder};
use crate::media::{item_picture_spec, item_picture_url, opt_view, path_segment, path_segments};
use crate::album_queue::tracks_of_album;
use crate::models::find_album;
use crate::text::views;
use crate::models::{Album, Track};
use crate::text::{contains_str, contains_text, occurs_in, str_eq, to_string_of};
use crate::theme_editor::{lowercase_of, to_lowercase, trim, trim_spec};

verus! {

/// The field of a track that a sort order looks at.
pub open spec fn sort_field(t: Track, order: SortOrder) -> Seq<char> {
    match order {
        SortOrder::Title => t.title@,
        SortOrder::Artist => t.artist@,
        SortOrder::Album => t.album@,
    }
}

/// The key a library view sorts tracks by: the chosen field in lower case.
pub open spec fn track_sort_key(order: SortOrder) -> spec_fn(Track) -> Seq<char> {
    |t: Track| lowercase_of(sort_field(t, order))
}

fn field_of(t: &Track, order: SortOrder) -> (r: &str)
    ensures
        r@ == sort_field(*t, order),
{
    match order {
        SortOrder::Title => t.title.as_str(),
        SortOrder::Artist => t.artist.as_str(),
        SortOrder::Album => t.album.as_str(),
    }
}

/// The tracks as a library view lists them: stably sorted by the lower case
/// of the field that `order` names.
pub fn sort_tracks(tracks: Vec<Track>, order: SortOrder) -> (r: Vec<Track>)
    ensures
        r@ == sort_by_text(tracks@, track_sort_key(order)),
        sorted_by_text(r@, track_sort_key(order)),
        r@.to_multiset() == tracks@.to_multiset(),
{
    let ghost key = track_sort_key(order);
    let mut keys: Vec<String> = Vec::new();
    let n = tracks.len();
    let mut i: usize = 0;
    while i < n
        invariant
            n == tracks@.len(),
            key == track_sort_key(order),
            i <= n,
            keys@.len() == i,
            forall|k: int| 0 <= k < i ==> (#[trigger] keys@[k])@ == key(tracks@[k]),
        decreases n - i,
    {
        keys.push(to_lowercase(field_of(&tracks[i], order)));
        i = i + 1;
    }
    proof {
        lemma_sort_by_text(tracks@, key);
    }
    proof {
        lemma_string_order();
    }
    sort_keyed(tracks, keys, Ghost(key))
}

/// The compound key the server library view sorts tracks by: the chosen
/// field first (in lower case), then the others that tell tracks apart.
pub open spec fn server_track_key(order: SortOrder) -> spec_fn(Track) -> Seq<KeyPartView> {
    |t: Track| {
        let title = KeyPartView::Text(lowercase_of(t.title@));
        let artist = KeyPartView::Text(lowercase_of(t.artist@));
        let album = KeyPartView::Text(lowercase_of(t.album@));
        let disc = KeyPartView::Number(t.disc_number);
        let number = KeyPartView::Number(t.track_number);
        match order {
            SortOrder::Title => seq![title, artist, album, disc, number],
            SortOrder::Artist => seq![artist, album, disc, number, title],
            SortOrder::Album => seq![album, disc, number, title],
        }
    }
}

fn server_key_of(t: &Track, order: SortOrder) -> (k: CompoundKey)
    ensures
        k@ == server_track_key(order)(*t),
{
    let title = KeyPart::Text(to_lowercase(t.title.as_str()));
    let artist = KeyPart::Text(to_lowercase(t.artist.as_str()));
    let album = KeyPart::Text(to_lowercase(t.album.as_str()));
    let disc = KeyPart::Number(t.disc_number);
    let number = KeyPart::Number(t.track_number);
    let mut parts: Vec<KeyPart> = Vec::new();
    match order {
        SortOrder::Title => {
            parts.push(title);
            parts.push(artist);
            parts.push(album);
            parts.push(disc);
            parts.push(number);
        },
        SortOrder::Artist => {
            parts.push(artist);
            parts.push(album);
            parts.push(disc);
            parts.push(number);
            parts.push(title);
        },
        SortOrder::Album => {
            parts.push(album);
            parts.push(disc);
            parts.push(number);
            parts.push(title);
        },
    }
    let k = CompoundKey { parts };
    assert(k@ =~= server_track_key(order)(*t));
    k
}

/// The tracks as the server library view lists them: stably sorted by the
/// compound key of `order`.
pub fn sort_server_tracks(tracks: Vec<Track>, order: SortOrder) -> (r: Vec<Track>)
    ensures
        r@ == sort_by(tracks@, server_track_key(order), compound_order()),
        sorted_by(r@, server_track_key(order), compound_order()),
        r@.to_multiset() == tracks@.to_multiset(),
{
    let ghost key = server_track_key(order);
    let mut keys: Vec<CompoundKey> = Vec::new();
    let n = tracks.len();
    let mut i: usize = 0;
    while i < n
        invariant
            n == tracks@.len(),
            key == server_track_key(order),
            i <= n,
            keys@.len() == i,
            forall|k: int| 0 <= k < i ==> (#[trigger] keys@[k])@ == key(tracks@[k]),
        decreases n - i,
    {
        keys.push(server_key_of(&tracks[i], order));
        i = i + 1;
    }
    proof {
        lemma_compound_order();
        lemma_compound_key_order();
        lemma_sort_by(tracks@, key, compound_order());
    }
    sort_keyed(tracks, keys, Ghost(key))
}

/// The items whose key no earlier item has: the first of each key, in order.
pub open spec fn first_per_key<T>(s: Seq<T>, key: spec_fn(T) -> Seq<char>) -> Seq<T>
    decreases s.len(),
{
    if s.len() == 0 {
        Seq::empty()
    } else if exists|k: int| 0 <= k < s.len() - 1 && key(#[trigger] s[k]) == key(s.last()) {
        first_per_key(s.drop_last(), key)
    } else {
        first_per_key(s.drop_last(), key).push(s.last())
    }
}

/// No two items of the first-of-each-key share a key, and in a list sorted by
/// key they stay sorted.
pub proof fn lemma_first_per_key_distinct<T>(s: Seq<T>, key: spec_fn(T) -> Seq<char>)
    ensures
        forall|i: int, j: int| 0 <= i < j < first_per_key(s, key).len()
            ==> key(#[trigger] first_per_key(s, key)[i]) != key(#[trigger] first_per_key(s, key)[j]),
        sorted_by_text(s, key) ==> sorted_by_text(first_per_key(s, key), key),
    decreases s.len(),
{
    if s.len() > 0 {
        let t = s.drop_last();
        let f = first_per_key(s, key);
        let g = first_per_key(t, key);
        lemma_first_per_key_distinct(t, key);
        if sorted_by_text(s, key) {
            assert(sorted_by_text(t, key));
        }
        if !(exists|k: int| 0 <= k < s.len() - 1 && key(#[trigger] s[k]) == key(s.last())) {
            assert(f == g.push(s.last()));
            assert forall|i: int, j: int| 0 <= i < j < f.len() implies key(#[trigger] f[i]) != key(#[trigger] f[j]) by {
                if j == f.len() - 1 {
                    assert(f[i] == g[i]);
                    lemma_first_per_key_keys(t, key, key(g[i]));
                    if key(g[i]) == key(s.last()) {
                        let k = choose|k: int| 0 <= k < t.len() && key(#[trigger] t[k]) == key(g[i]);
                        assert(s[k] == t[k]);
                    }
                } else {
                    assert(f[i] == g[i] && f[j] == g[j]);
                }
            }
            if sorted_by_text(s, key) {
                assert forall|i: int, j: int| 0 <= i < j < f.len() implies text_le(key(#[trigger] f[i]), key(#[trigger] f[j])) by {
                    if j == f.len() - 1 {
                        assert(f[i] == g[i]);
                        lemma_first_per_key_keys(t, key, key(g[i]));
                        let k = choose|k: int| 0 <= k < t.len() && key(#[trigger] t[k]) == key(g[i]);
                        assert(s[k] == t[k]);
                        assert(text_le(key(s[k]), key(s[s.len() - 1])));
                    } else {
                        assert(f[i] == g[i] && f[j] == g[j]);
                    }
                }
            }
        }
    }
}

/// The key of an album in the server's album row: its title, trimmed, in
/// lower case.
pub open spec fn album_title_key() -> spec_fn(Album) -> Seq<char> {
    |a: Album| lowercase_of(trim_spec(a.title@))
}

/// The albums as the home page's album row shows them: sorted by title key,
/// one album for each title key.
pub open spec fn distinct_album_titles(s: Seq<Album>) -> Seq<Album> {
    first_per_key(sort_by_text(s, album_title_key()), album_title_key())
}

fn album_key(a: &Album) -> (r: String)
    ensures
        r@ == album_title_key()(*a),
{
    let t = trim(a.title.as_str());
    to_lowercase(t.as_str())
}

/// The albums sorted by title (trimmed, in lower case), keeping only the first
/// album of each such title.
pub fn distinct_albums(albums: Vec<Album>) -> (r: Vec<Album>)
    ensures
        r@ == distinct_album_titles(albums@),
        forall|i: int, j: int| 0 <= i < j < r@.len() ==> {
            &&& text_le(album_title_key()(#[trigger] r@[i]), album_title_key()(#[trigger] r@[j]))
            &&& album_title_key()(r@[i]) != album_title_key()(r@[j])
        },
        forall|k: int| 0 <= k < albums@.len() ==> exists|j: int| 0 <= j < r@.len()
            && album_title_key()(#[trigger] r@[j]) == album_title_key()(#[trigger] albums@[k]),
{
    let ghost key = album_title_key();
    let mut keys: Vec<String> = Vec::new();
    let n = albums.len();
    let mut i: usize = 0;
    while i < n
        invariant
            n == albums@.len(),
            key == album_title_key(),
            i <= n,
            keys@.len() == i,
            forall|k: int| 0 <= k < i ==> (#[trigger] keys@[k])@ == key(albums@[k]),
        decreases n - i,
    {
        keys.push(album_key(&albums[i]));
        i = i + 1;
    }
    proof {
        lemma_sort_by_text(albums@, key);
    }
    proof {
        lemma_string_order();
    }
    let mut sorted = sort_keyed(albums, keys, Ghost(key));
    let ghost ss = sorted@;
    let m = sorted.len();
    let mut out: Vec<Album> = Vec::new();
    let mut prev: String = String::new();
    let mut j: usize = 0;
    while j < m
        invariant
            m == ss.len(),
            key == album_title_key(),
            sorted@ == ss,
            sorted_by_text(ss, key),
            j <= m,
            out@ == first_per_key(ss.subrange(0, j as int), key),
            j > 0 ==> prev@ == key(ss[j - 1]),
        decreases m - j,
    {
        let k = album_key(&sorted[j]);
        let ghost pre = ss.subrange(0, j as int);
        assert(ss.subrange(0, j + 1).drop_last() =~= pre);
        assert(ss.subrange(0, j + 1).last() == ss[j as int]);
        let seen = j > 0 && str_eq(prev.as_str(), k.as_str());
        proof {
            let t = ss.subrange(0, j + 1);
            if seen {
                assert(key(t[j - 1]) == key(t.last()));
            } else {
                assert forall|q: int| 0 <= q < t.len() - 1 implies key(#[trigger] t[q]) != key(t.last()) by {
                    if key(t[q]) == key(t.last()) {
                        assert(t[q] == ss[q]);
                        lemma_text_le_trans(key(ss[q]), key(ss[j - 1]), key(ss[j as int]));
                        lemma_text_le_antisym(key(ss[j - 1]), key(ss[j as int]));
                    }
                }
            }
        }
        if !seen {
            out.push(sorted[j].clone());
        }
        prev = k;
        j = j + 1;
    }
    assert(ss.subrange(0, m as int) =~= ss);
    proof {
        lemma_first_per_key_distinct(ss, key);
        assert forall|k: int| 0 <= k < albums@.len() implies exists|j: int| 0 <= j < out@.len()
            && album_title_key()(#[trigger] out@[j]) == album_title_key()(#[trigger] albums@[k]) by {
            broadcast use vstd::seq_lib::group_to_multiset_ensures;
            let a = albums@[k];
            assert(albums@.contains(a));
            assert(albums@.to_multiset().count(a) > 0);
            assert(ss.to_multiset().count(a) > 0);
            assert(ss.contains(a));
            let q = choose|q: int| 0 <= q < ss.len() && ss[q] == a;
            lemma_first_per_key_keys(ss, key, key(a));
            assert(key(ss[q]) == key(a));
        }
    }
    out
}

/// The first-of-each-key of a prefix is a prefix of the first-of-each-key of
/// the whole.
proof fn lemma_first_per_key_prefix<T>(s: Seq<T>, key: spec_fn(T) -> Seq<char>, i: int)
    requires
        0 <= i <= s.len(),
    ensures
        first_per_key(s.subrange(0, i), key).len() <= first_per_key(s, key).len(),
        first_per_key(s, key).subrange(0, first_per_key(s.subrange(0, i), key).len() as int)
            == first_per_key(s.subrange(0, i), key),
    decreases s.len(),
{
    let f = first_per_key(s, key);
    if i == s.len() {
        assert(s.subrange(0, i) =~= s);
        assert(f.subrange(0, f.len() as int) =~= f);
    } else {
        let t = s.drop_last();
        assert(t.subrange(0, i) =~= s.subrange(0, i));
        lemma_first_per_key_prefix(t, key, i);
        let g = first_per_key(t, key);
        let p = first_per_key(s.subrange(0, i), key);
        if f == g {
        } else {
            assert(f == g.push(s.last()));
            assert(f.subrange(0, p.len() as int) =~= g.subrange(0, p.len() as int));
        }
    }
}

/// A key occurs among the first-of-each-key exactly when it occurs at all.
proof fn lemma_first_per_key_keys<T>(s: Seq<T>, key: spec_fn(T) -> Seq<char>, a: Seq<char>)
    ensures
        (exists|k: int| 0 <= k < s.len() && key(#[trigger] s[k]) == a)
            == (exists|j: int| 0 <= j < first_per_key(s, key).len() && key(#[trigger] first_per_key(s, key)[j]) == a),
    decreases s.len(),
{
    let f = first_per_key(s, key);
    if s.len() > 0 {
        let t = s.drop_last();
        let g = first_per_key(t, key);
        lemma_first_per_key_keys(t, key, a);
        lemma_first_per_key_keys(t, key, key(s.last()));
        if exists|k: int| 0 <= k < s.len() && key(#[trigger] s[k]) == a {
            let k = choose|k: int| 0 <= k < s.len() && key(#[trigger] s[k]) == a;
            if k < s.len() - 1 {
                assert(t[k] == s[k]);
                let j = choose|j: int| 0 <= j < g.len() && key(#[trigger] g[j]) == a;
                assert(f[j] == g[j]);
            } else if exists|q: int| 0 <= q < s.len() - 1 && key(#[trigger] s[q]) == key(s.last()) {
                let q = choose|q: int| 0 <= q < s.len() - 1 && key(#[trigger] s[q]) == key(s.last());
                assert(t[q] == s[q]);
                let j = choose|j: int| 0 <= j < g.len() && key(#[trigger] g[j]) == key(s.last());
                assert(f[j] == g[j]);
            } else {
                assert(f[f.len() - 1] == s.last());
            }
        }
        if exists|j: int| 0 <= j < f.len() && key(#[trigger] f[j]) == a {
            let j = choose|j: int| 0 <= j < f.len() && key(#[trigger] f[j]) == a;
            if j < g.len() {
                assert(f[j] == g[j]);
                let k = choose|k: int| 0 <= k < t.len() && key(#[trigger] t[k]) == a;
                assert(s[k] == t[k]);
            } else {
                assert(f[j] == s.last());
                assert(key(s[s.len() - 1]) == a);
            }
        }
    }
}

/// The key that tells artists apart: the artist name as written.
pub open spec fn artist_key() -> spec_fn(Track) -> Seq<char> {
    |t: Track| t.artist@
}

/// Most albums the home page's album row shows.
pub const HOME_ALBUMS: usize = 20;

/// The home page's album row: the first `HOME_ALBUMS` of the albums sorted
/// and kept one per title.
pub open spec fn home_album_row_spec(s: Seq<Album>) -> Seq<Album> {
    let d = distinct_album_titles(s);
    if d.len() <= HOME_ALBUMS { d } else { d.subrange(0, HOME_ALBUMS as int) }
}

/// The albums of the home page's album row.
pub fn home_album_row(albums: Vec<Album>) -> (r: Vec<Album>)
    ensures
        r@ == home_album_row_spec(albums@),
        r@.len() <= HOME_ALBUMS,
{
    let mut d = distinct_albums(albums);
    d.truncate(HOME_ALBUMS);
    d
}

/// The items of `v` in an order drawn at random.
///
/// Trusted wrapper around `rand::seq::SliceRandom::shuffle` on the
/// thread-local generator, which permutes the slice in place (a
/// Fisher-Yates shuffle made of swaps): the same items stay, in an order
/// that depends on chance and is left open.
#[verifier::external_body]
fn shuffle_in_place<T>(v: &mut Vec<T>)
    ensures
        final(v)@.len() == old(v)@.len(),
        final(v)@.to_multiset() == old(v)@.to_multiset(),
{
    v.shuffle(&mut rand::thread_rng());
}

/// The albums the home page features (the first one large, the next ones in
/// a grid): the albums kept one per title, in a random order.
pub fn home_featured(albums: Vec<Album>) -> (r: Vec<Album>)
    ensures
        r@.len() == distinct_album_titles(albums@).len(),
        r@.to_multiset() == distinct_album_titles(albums@).to_multiset(),
{
    let mut d = distinct_albums(albums);
    if d.len() == 0 {
        return d;
    }
    shuffle_in_place(&mut d);
    d
}

/// Most playlists the home page shows.
pub const HOME_PLAYLISTS: usize = 10;

/// Positions of the playlists the home page shows, among `count` playlists:
/// the newest (last) first, at most `HOME_PLAYLISTS` of them.
pub fn recent_playlist_indices(count: usize) -> (r: Vec<usize>)
    ensures
        r@.len() == if count < HOME_PLAYLISTS { count } else { HOME_PLAYLISTS },
        forall|i: int| 0 <= i < r@.len() ==> #[trigger] r@[i] == count - 1 - i,
{
    let n = if count < HOME_PLAYLISTS { count } else { HOME_PLAYLISTS };
    let mut out: Vec<usize> = Vec::new();
    let mut i: usize = 0;
    while i < n
        invariant
            n <= count,
            i <= n,
            out@.len() == i,
            forall|k: int| 0 <= k < i ==> #[trigger] out@[k] == count - 1 - k,
        decreases n - i,
    {
        out.push(count - 1 - i);
        i = i + 1;
    }
    out
}

/// Most artists the home page shows.
pub const HOME_ARTISTS: usize = 10;

/// The tracks whose artists the home page shows: the first track of each
/// artist, at most `HOME_ARTISTS` of them.
pub open spec fn home_artist_picks(s: Seq<Track>) -> Seq<Track> {
    let f = first_per_key(s, artist_key());
    if f.len() <= HOME_ARTISTS { f } else { f.subrange(0, HOME_ARTISTS as int) }
}

/// An artist as a card shows it.
#[derive(Debug)]
pub struct ArtistCard {
    pub name: String,
    pub cover_url: Option<String>,
}

/// The artist cards of the home page: the artists in the order their first
/// tracks come, at most `HOME_ARTISTS` of them, each with the picture of its
/// first track.
pub fn home_artists(tracks: &Vec<Track>, server: Option<&JellyfinServer>) -> (r: Vec<ArtistCard>)
    ensures
        r@.len() == home_artist_picks(tracks@).len(),
        forall|i: int| 0 <= i < r@.len() ==> {
            let t = #[trigger] home_artist_picks(tracks@)[i];
            &&& r@[i].name@ == t.artist@
            &&& opt_view(r@[i].cover_url) == item_picture_spec(
                match server { Some(s) => Some(*s), None => None }, t.path@)
        },
{
    let ghost key = artist_key();
    let n = tracks.len();
    let mut picked: Vec<usize> = Vec::new();
    let mut i: usize = 0;
    assert(tracks@.subrange(0, n as int) =~= tracks@);
    while i < n
        invariant_except_break
            picked@.len() < HOME_ARTISTS,
        invariant
            n == tracks@.len(),
            tracks@.subrange(0, n as int) == tracks@,
            key == artist_key(),
            i <= n,
            picked@.len() == first_per_key(tracks@.subrange(0, i as int), key).len(),
            forall|j: int| 0 <= j < picked@.len() ==> (#[trigger] picked@[j]) < n
                && tracks@[picked@[j] as int] == first_per_key(tracks@.subrange(0, i as int), key)[j],
            picked@.len() <= HOME_ARTISTS,
        ensures
            picked@.len() == home_artist_picks(tracks@).len(),
            forall|j: int| 0 <= j < picked@.len() ==> (#[trigger] picked@[j]) < n
                && tracks@[picked@[j] as int] == home_artist_picks(tracks@)[j],
        decreases n - i,
    {
        let ghost pre = tracks@.subrange(0, i as int);
        let ghost f = first_per_key(pre, key);
        let ghost t = tracks@.subrange(0, i + 1);
        assert(t.drop_last() =~= pre);
        assert(t.last() == tracks@[i as int]);
        let name = tracks[i].artist.as_str();
        let mut seen = false;
        let mut j: usize = 0;
        while j < picked.len()
            invariant
                j <= picked@.len(),
                picked@.len() == f.len(),
                forall|q: int| 0 <= q < picked@.len() ==> (#[trigger] picked@[q]) < n
                    && tracks@[picked@[q] as int] == f[q],
                n == tracks@.len(),
                name@ == tracks@[i as int].artist@,
                key == artist_key(),
                seen == exists|q: int| 0 <= q < j && key(#[trigger] f[q]) == name@,
            decreases picked@.len() - j,
        {
            let p = picked[j];
            if str_eq(tracks[p].artist.as_str(), name) {
                seen = true;
            }
            j = j + 1;
        }
        proof {
            lemma_first_per_key_keys(pre, key, name@);
            if seen {
                let q = choose|q: int| 0 <= q < pre.len() && key(#[trigger] pre[q]) == name@;
                assert(t[q] == pre[q]);
                assert(key(t[q]) == key(t.last()));
            } else {
                assert forall|q: int| 0 <= q < t.len() - 1 implies key(#[trigger] t[q]) != key(t.last()) by {
                    assert(t[q] == pre[q]);
                }
            }
        }
        if !seen {
            picked.push(i);
        }
        i = i + 1;
        if picked.len() >= HOME_ARTISTS {
            proof {
                lemma_first_per_key_prefix(tracks@, key, i as int);
                let g = first_per_key(tracks@, key);
                assert(home_artist_picks(tracks@) =~= g.subrange(0, HOME_ARTISTS as int));
            }
            break;
        }
    }
    let mut out: Vec<ArtistCard> = Vec::new();
    let mut k: usize = 0;
    while k < picked.len()
        invariant
            k <= picked@.len(),
            picked@.len() == home_artist_picks(tracks@).len(),
            forall|j: int| 0 <= j < picked@.len() ==> (#[trigger] picked@[j]) < n
                && tracks@[picked@[j] as int] == home_artist_picks(tracks@)[j],
            n == tracks@.len(),
            out@.len() == k,
            forall|q: int| 0 <= q < k ==> {
                let t = #[trigger] home_artist_picks(tracks@)[q];
                &&& out@[q].name@ == t.artist@
                &&& opt_view(out@[q].cover_url) == item_picture_spec(
                    match server { Some(s) => Some(*s), None => None }, t.path@)
            },
        decreases picked@.len() - k,
    {
        let t = &tracks[picked[k]];
        let card = ArtistCard {
            name: t.artist.clone(),
            cover_url: item_picture_url(server, t.path.as_str()),
        };
        out.push(card);
        k = k + 1;
    }
    out
}

/// Two names that are the same up to case, as `str::to_lowercase` sees it.
pub open spec fn same_name(a: Seq<char>, b: Seq<char>) -> bool {
    lowercase_of(a) == lowercase_of(b)
}

/// The tracks of artist `name` (up to case), in the order they are listed.
pub open spec fn tracks_by_artist(s: Seq<Track>, name: Seq<char>) -> Seq<Track>
    decreases s.len(),
{
    if s.len() == 0 {
        Seq::empty()
    } else if same_name(s.last().artist@, name) {
        tracks_by_artist(s.drop_last(), name).push(s.last())
    } else {
        tracks_by_artist(s.drop_last(), name)
    }
}

/// The tracks an artist page lists: those whose artist is `name` up to case;
/// none for an empty name.
pub fn artist_tracks(tracks: &Vec<Track>, name: &str) -> (r: Vec<Track>)
    ensures
        r@ == if name@.len() == 0 { Seq::<Track>::empty() } else { tracks_by_artist(tracks@, name@) },
{
    let mut out: Vec<Track> = Vec::new();
    if name.unicode_len() == 0 {
        return out;
    }
    let wanted = to_lowercase(name);
    let n = tracks.len();
    let mut i: usize = 0;
    while i < n
        invariant
            n == tracks@.len(),
            i <= n,
            wanted@ == lowercase_of(name@),
            out@ == tracks_by_artist(tracks@.subrange(0, i as int), name@),
        decreases n - i,
    {
        let ghost t = tracks@.subrange(0, i + 1);
        assert(t.drop_last() =~= tracks@.subrange(0, i as int));
        assert(t.last() == tracks@[i as int]);
        let a = to_lowercase(tracks[i].artist.as_str());
        if str_eq(a.as_str(), wanted.as_str()) {
            out.push(tracks[i].clone());
        }
        i = i + 1;
    }
    assert(tracks@.subrange(0, n as int) =~= tracks@);
    out
}

/// The key that tells album artists apart: the artist name as written.
pub open spec fn album_artist_key() -> spec_fn(Album) -> Seq<char> {
    |a: Album| a.artist@
}

/// The key the artist index is sorted by: the artist name in lower case.
pub open spec fn album_artist_sort_key() -> spec_fn(Album) -> Seq<char> {
    |a: Album| lowercase_of(a.artist@)
}

/// The artist index: the first album of each artist, sorted by the artist's
/// name in lower case.
pub open spec fn artist_index_spec(s: Seq<Album>) -> Seq<Album> {
    sort_by_text(first_per_key(s, album_artist_key()), album_artist_sort_key())
}

/// The artist index of an album list: one entry for each artist name, the
/// first album listed for it (whose cover stands for the artist), sorted by
/// the name in lower case. Names that differ only in case come in the order
/// of their first albums.
pub fn artist_index(albums: &Vec<Album>) -> (r: Vec<Album>)
    ensures
        r@ == artist_index_spec(albums@),
        sorted_by_text(r@, album_artist_sort_key()),
{
    let ghost key = album_artist_key();
    let n = albums.len();
    let mut firsts: Vec<Album> = Vec::new();
    let mut i: usize = 0;
    while i < n
        invariant
            n == albums@.len(),
            key == album_artist_key(),
            i <= n,
            firsts@ == first_per_key(albums@.subrange(0, i as int), key),
        decreases n - i,
    {
        let ghost pre = albums@.subrange(0, i as int);
        let ghost t = albums@.subrange(0, i + 1);
        assert(t.drop_last() =~= pre);
        assert(t.last() == albums@[i as int]);
        let name = albums[i].artist.as_str();
        let mut seen = false;
        let mut j: usize = 0;
        while j < firsts.len()
            invariant
                j <= firsts@.len(),
                firsts@ == first_per_key(pre, key),
                key == album_artist_key(),
                name@ == albums@[i as int].artist@,
                seen == exists|q: int| 0 <= q < j && key(#[trigger] firsts@[q]) == name@,
            decreases firsts@.len() - j,
        {
            if str_eq(firsts[j].artist.as_str(), name) {
                seen = true;
            }
            j = j + 1;
        }
        proof {
            lemma_first_per_key_keys(pre, key, name@);
            if seen {
                let q = choose|q: int| 0 <= q < pre.len() && key(#[trigger] pre[q]) == name@;
                assert(t[q] == pre[q]);
                assert(key(t[q]) == key(t.last()));
            } else {
                assert forall|q: int| 0 <= q < t.len() - 1 implies key(#[trigger] t[q]) != key(t.last()) by {
                    assert(t[q] == pre[q]);
                }
            }
        }
        if !seen {
            firsts.push(albums[i].clone());
        }
        i = i + 1;
    }
    assert(albums@.subrange(0, n as int) =~= albums@);
    let ghost skey = album_artist_sort_key();
    let m = firsts.len();
    let mut keys: Vec<String> = Vec::new();
    let mut k: usize = 0;
    while k < m
        invariant
            m == firsts@.len(),
            skey == album_artist_sort_key(),
            k <= m,
            keys@.len() == k,
            forall|q: int| 0 <= q < k ==> (#[trigger] keys@[q])@ == skey(firsts@[q]),
        decreases m - k,
    {
        keys.push(to_lowercase(firsts[k].artist.as_str()));
        k = k + 1;
    }
    proof {
        lemma_sort_by_text(firsts@, skey);
    }
    proof {
        lemma_string_order();
    }
    sort_keyed(firsts, keys, Ghost(skey))
}

/// The index of the first album whose artist is `name` up to case; none for
/// an empty name.
pub fn artist_album(albums: &Vec<Album>, name: &str) -> (r: Option<usize>)
    ensures
        match r {
            Some(i) => name@.len() > 0 && i < albums@.len() && same_name(albums@[i as int].artist@, name@)
                && forall|k: int| 0 <= k < i ==> !same_name(#[trigger] albums@[k].artist@, name@),
            None => name@.len() == 0 || forall|k: int| 0 <= k < albums@.len()
                ==> !same_name(#[trigger] albums@[k].artist@, name@),
        },
{
    if name.unicode_len() == 0 {
        return None;
    }
    let wanted = to_lowercase(name);
    let n = albums.len();
    let mut i: usize = 0;
    while i < n
        invariant
            n == albums@.len(),
            i <= n,
            name@.len() > 0,
            wanted@ == lowercase_of(name@),
            forall|k: int| 0 <= k < i ==> !same_name(#[trigger] albums@[k].artist@, name@),
        decreases n - i,
    {
        let a = to_lowercase(albums[i].artist.as_str());
        if str_eq(a.as_str(), wanted.as_str()) {
            return Some(i);
        }
        i = i + 1;
    }
    None
}

/// Whether `id` is among the ids.
pub open spec fn listed(ids: Seq<String>, id: Seq<char>) -> bool {
    views(ids).contains(id)
}


/// The server item id of a track path is among the favorite ids.
pub open spec fn favorite_remote(path: Seq<char>, favorites: Seq<String>) -> bool {
    match path_segment(path, 1) {
        Some(id) => listed(favorites, id),
        None => false,
    }
}

/// The tracks whose server item ids are favorites, in the order listed.
pub open spec fn favorite_tracks_spec(s: Seq<Track>, favorites: Seq<String>) -> Seq<Track>
    decreases s.len(),
{
    if s.len() == 0 {
        Seq::empty()
    } else if favorite_remote(s.last().path@, favorites) {
        favorite_tracks_spec(s.drop_last(), favorites).push(s.last())
    } else {
        favorite_tracks_spec(s.drop_last(), favorites)
    }
}

fn is_favorite_path(path: &str, favorites: &Vec<String>) -> (r: bool)
    ensures
        r == favorite_remote(path@, favorites@),
{
    let parts = path_segments(path);
    if parts.len() < 2 {
        return false;
    }
    contains_text(favorites, parts[1].as_str())
}

/// The server tracks the favorites page lists: those whose item ids
/// (`jellyfin:<id>[:<tag>]`) are among the favorite ids.
pub fn favorite_remote_tracks(tracks: &Vec<Track>, favorites: &Vec<String>) -> (r: Vec<Track>)
    ensures
        r@ == favorite_tracks_spec(tracks@, favorites@),
{
    let mut out: Vec<Track> = Vec::new();
    let n = tracks.len();
    let mut i: usize = 0;
    while i < n
        invariant
            n == tracks@.len(),
            i <= n,
            out@ == favorite_tracks_spec(tracks@.subrange(0, i as int), favorites@),
        decreases n - i,
    {
        let ghost t = tracks@.subrange(0, i + 1);
        assert(t.drop_last() =~= tracks@.subrange(0, i as int));
        assert(t.last() == tracks@[i as int]);
        if is_favorite_path(tracks[i].path.as_str(), favorites) {
            out.push(tracks[i].clone());
        }
        i = i + 1;
    }
    assert(tracks@.subrange(0, n as int) =~= tracks@);
    out
}

/// The entries other than `x`, in order.
pub open spec fn without(s: Seq<Seq<char>>, x: Seq<char>) -> Seq<Seq<char>>
    decreases s.len(),
{
    if s.len() == 0 {
        Seq::empty()
    } else if s.last() == x {
        without(s.drop_last(), x)
    } else {
        without(s.drop_last(), x).push(s.last())
    }
}

/// The favourite ids after marking `id` as a favourite (`on`) or not: it is
/// added at the end when missing, or every occurrence of it is removed.
pub open spec fn with_favorite(ids: Seq<Seq<char>>, id: Seq<char>, on: bool) -> Seq<Seq<char>> {
    if on {
        if ids.contains(id) { ids } else { ids.push(id) }
    } else {
        without(ids, id)
    }
}

proof fn lemma_without(s: Seq<Seq<char>>, x: Seq<char>, y: Seq<char>)
    ensures
        without(s, x).contains(y) == (y != x && s.contains(y)),
    decreases s.len(),
{
    if s.len() > 0 {
        let t = s.drop_last();
        lemma_without(t, x, y);
        assert(s =~= t.push(s.last()));
        if t.contains(y) {
            let k = choose|k: int| 0 <= k < t.len() && t[k] == y;
            assert(s[k] == y);
        }
        if s.contains(y) && y != s.last() {
            let k = choose|k: int| 0 <= k < s.len() && s[k] == y;
            assert(t[k] == y);
        }
        if s.last() != x {
            let w = without(t, x);
            assert(w.push(s.last())[w.len() as int] == s.last());
            if w.push(s.last()).contains(y) && y != s.last() {
                let k = choose|k: int| 0 <= k < w.len() + 1 && w.push(s.last())[k] == y;
                assert(w[k] == y);
            }
            if w.contains(y) {
                let k = choose|k: int| 0 <= k < w.len() && w[k] == y;
                assert(w.push(s.last())[k] == y);
            }
        }
    }
}

/// Marking a favourite and then undoing it (as when the server refuses the
/// change) gives back the same favourites: every id is a favourite exactly
/// when it was before.
pub proof fn lemma_favorite_rollback(ids: Seq<Seq<char>>, id: Seq<char>, x: Seq<char>)
    ensures
        ({
            let on = !ids.contains(id);
            with_favorite(with_favorite(ids, id, on), id, !on).contains(x) == ids.contains(x)
        }),
{
    let on = !ids.contains(id);
    let once = with_favorite(ids, id, on);
    if on {
        lemma_without(once, id, x);
        if ids.contains(x) {
            let k = choose|k: int| 0 <= k < ids.len() && ids[k] == x;
            assert(once[k] == x);
        }
        if once.contains(x) && x != id {
            let k = choose|k: int| 0 <= k < once.len() && once[k] == x;
            assert(k < ids.len());
            assert(ids[k] == x);
        }
    } else {
        lemma_without(ids, id, x);
        let w = without(ids, id);
        if x == id {
            assert(w.push(id)[w.len() as int] == id);
        }
        if w.push(id).contains(x) && x != id {
            let k = choose|k: int| 0 <= k < w.len() + 1 && w.push(id)[k] == x;
            assert(w[k] == x);
        }
        if w.contains(x) {
            let k = choose|k: int| 0 <= k < w.len() && w[k] == x;
            assert(w.push(id)[k] == x);
        }
    }
}

/// Marks the server item `id` as a favourite (`on`) or not in the favourite
/// ids.
pub fn set_favorite(ids: &mut Vec<String>, id: &str, on: bool)
    ensures
        views(final(ids)@) == with_favorite(views(old(ids)@), id@, on),
{
    if on {
        if !contains_text(ids, id) {
            ids.push(to_string_of(id));
            assert(views(ids@) =~= views(old(ids)@).push(id@));
        }
        return;
    }
    let ghost start = views(ids@);
    let mut kept: Vec<String> = Vec::new();
    let n = ids.len();
    let mut i: usize = 0;
    while i < n
        invariant
            n == ids@.len(),
            start == views(ids@),
            i <= n,
            views(kept@) == without(start.subrange(0, i as int), id@),
        decreases n - i,
    {
        let ghost t = start.subrange(0, i + 1);
        assert(t.drop_last() =~= start.subrange(0, i as int));
        assert(t.last() == ids@[i as int]@);
        if !str_eq(ids[i].as_str(), id) {
            let ghost before = views(kept@);
            kept.push(ids[i].clone());
            assert(views(kept@) =~= before.push(ids@[i as int]@));
        }
        i = i + 1;
    }
    assert(start.subrange(0, n as int) =~= start);
    *ids = kept;
}

/// An album counts as a favorite when it has tracks and every one of them is.
pub open spec fn album_favorite_spec(s: Seq<Track>, album_id: Seq<char>, favorites: Seq<String>) -> bool {
    let ts = tracks_of_album(s, album_id);
    ts.len() > 0 && forall|i: int| 0 <= i < ts.len() ==> favorite_remote(#[trigger] ts[i].path@, favorites)
}

/// Whether the server album `album_id` shows as a favorite: it has tracks and
/// all of them are favorites.
pub fn album_is_favorite(tracks: &Vec<Track>, album_id: &str, favorites: &Vec<String>) -> (r: bool)
    ensures
        r == album_favorite_spec(tracks@, album_id@, favorites@),
{
    let n = tracks.len();
    let mut count: usize = 0;
    let mut all = true;
    let mut i: usize = 0;
    while i < n
        invariant
            n == tracks@.len(),
            i <= n,
            count == tracks_of_album(tracks@.subrange(0, i as int), album_id@).len(),
            count <= i,
            all == forall|k: int| 0 <= k < count
                ==> favorite_remote(#[trigger] tracks_of_album(tracks@.subrange(0, i as int), album_id@)[k].path@, favorites@),
        decreases n - i,
    {
        let ghost pre = tracks_of_album(tracks@.subrange(0, i as int), album_id@);
        let ghost t = tracks@.subrange(0, i + 1);
        assert(t.drop_last() =~= tracks@.subrange(0, i as int));
        assert(t.last() == tracks@[i as int]);
        if str_eq(tracks[i].album_id.as_str(), album_id) {
            let fav = is_favorite_path(tracks[i].path.as_str(), favorites);
            let ghost post = tracks_of_album(t, album_id@);
            assert(post == pre.push(tracks@[i as int]));
            assert((all && fav) == forall|k: int| 0 <= k < count + 1
                ==> favorite_remote(#[trigger] post[k].path@, favorites@)) by {
                assert(forall|k: int| 0 <= k < count ==> #[trigger] post[k] == pre[k]);
                if all && fav {
                    assert forall|k: int| 0 <= k < count + 1 implies favorite_remote(#[trigger] post[k].path@, favorites@) by {
                        if k < count {
                            assert(post[k] == pre[k]);
                        }
                    }
                }
                if !all {
                    let k = choose|k: int| 0 <= k < count && !favorite_remote(#[trigger] pre[k].path@, favorites@);
                    assert(post[k] == pre[k]);
                }
                if !fav {
                    assert(post[count as int] == tracks@[i as int]);
                }
            }
            all = all && fav;
            count = count + 1;
        } else {
            assert(tracks_of_album(t, album_id@) == pre);
        }
        i = i + 1;
    }
    assert(tracks@.subrange(0, n as int) =~= tracks@);
    count > 0 && all
}

/// The first track whose path holds `id`.
pub open spec fn find_containing(s: Seq<Track>, id: Seq<char>) -> Option<Track>
    decreases s.len(),
{
    if s.len() == 0 {
        None
    } else if occurs_in(id, s[0].path@) {
        Some(s[0])
    } else {
        find_containing(s.drop_first(), id)
    }
}

/// The picture of a playlist card: that of the first track whose path holds
/// the playlist's first item id; none for an empty playlist.
pub fn playlist_cover_url(tracks: &Vec<Track>, first_item: Option<&str>, server: Option<&JellyfinServer>) -> (r: Option<String>)
    ensures
        opt_view(r) == match first_item {
            None => None,
            Some(id) => match find_containing(tracks@, id@) {
                Some(t) => item_picture_spec(match server { Some(s) => Some(*s), None => None }, t.path@),
                None => None,
            },
        },
{
    let id = match first_item {
        Some(id) => id,
        None => return None,
    };
    let n = tracks.len();
    let mut i: usize = 0;
    assert(tracks@.subrange(0, n as int) =~= tracks@);
    while i < n
        invariant
            n == tracks@.len(),
            i <= n,
            first_item == Some(id),
            find_containing(tracks@.subrange(i as int, n as int), id@) == find_containing(tracks@, id@),
        decreases n - i,
    {
        let ghost rest = tracks@.subrange(i as int, n as int);
        assert(rest[0] == tracks@[i as int]);
        if contains_str(tracks[i].path.as_str(), id) {
            return item_picture_url(server, tracks[i].path.as_str());
        }
        assert(rest.drop_first() =~= tracks@.subrange(i + 1, n as int));
        i = i + 1;
    }
    None
}

/// The paths of the tracks, in order.
pub open spec fn paths_of(s: Seq<Track>) -> Seq<Seq<char>> {
    s.map_values(|t: Track| t.path@)
}

/// The local tracks whose album name is `title`, in order.
pub open spec fn tracks_titled(s: Seq<Track>, title: Seq<char>) -> Seq<Track>
    decreases s.len(),
{
    if s.len() == 0 {
        Seq::empty()
    } else if s.last().album@ == title {
        tracks_titled(s.drop_last(), title).push(s.last())
    } else {
        tracks_titled(s.drop_last(), title)
    }
}

fn track_paths(s: &Vec<Track>) -> (r: Vec<String>)
    ensures
        r@.map_values(|p: String| p@) == paths_of(s@),
{
    let mut out: Vec<String> = Vec::new();
    let n = s.len();
    let mut i: usize = 0;
    while i < n
        invariant
            n == s@.len(),
            i <= n,
            out@.map_values(|p: String| p@) == paths_of(s@.subrange(0, i as int)),
        decreases n - i,
    {
        let p = s[i].path.clone();
        let ghost before = out@;
        out.push(p);
        assert(out@.map_values(|p: String| p@) =~= before.map_values(|p: String| p@).push(s@[i as int].path@));
        assert(paths_of(s@.subrange(0, i + 1)) =~= paths_of(s@.subrange(0, i as int)).push(s@[i as int].path@));
        i = i + 1;
    }
    assert(s@.subrange(0, n as int) =~= s@);
    out
}

fn tracks_with_album_name(s: &Vec<Track>, title: &str) -> (r: Vec<Track>)
    ensures
        r@ == tracks_titled(s@, title@),
{
    let mut out: Vec<Track> = Vec::new();
    let n = s.len();
    let mut i: usize = 0;
    while i < n
        invariant
            n == s@.len(),
            i <= n,
            out@ == tracks_titled(s@.subrange(0, i as int), title@),
        decreases n - i,
    {
        let ghost t = s@.subrange(0, i + 1);
        assert(t.drop_last() =~= s@.subrange(0, i as int));
        assert(t.last() == s@[i as int]);
        if str_eq(s[i].album.as_str(), title) {
            out.push(s[i].clone());
        }
        i = i + 1;
    }
    assert(s@.subrange(0, n as int) =~= s@);
    out
}

fn tracks_with_album_id(s: &Vec<Track>, id: &str) -> (r: Vec<Track>)
    ensures
        r@ == tracks_of_album(s@, id@),
{
    let mut out: Vec<Track> = Vec::new();
    let n = s.len();
    let mut i: usize = 0;
    while i < n
        invariant
            n == s@.len(),
            i <= n,
            out@ == tracks_of_album(s@.subrange(0, i as int), id@),
        decreases n - i,
    {
        let ghost t = s@.subrange(0, i + 1);
        assert(t.drop_last() =~= s@.subrange(0, i as int));
        assert(t.last() == s@[i as int]);
        if str_eq(s[i].album_id.as_str(), id) {
            out.push(s[i].clone());
        }
        i = i + 1;
    }
    assert(s@.subrange(0, n as int) =~= s@);
    out
}

/// The paths of an album's tracks that go into a playlist: for a server
/// album, the server tracks with its id; for a local one, the local tracks
/// named after the first album with that id (none when there is no such album).
pub fn album_track_paths(local: &Vec<Track>, remote: &Vec<Track>, albums: &Vec<Album>, album_id: &str, from_server: bool) -> (r: Vec<String>)
    ensures
        from_server ==> r@.map_values(|p: String| p@) == paths_of(tracks_of_album(remote@, album_id@)),
        !from_server ==> match find_album_spec(albums@, album_id@) {
            Some(a) => r@.map_values(|p: String| p@) == paths_of(tracks_titled(local@, a.title@)),
            None => r@.len() == 0,
        },
{
    if from_server {
        let ts = tracks_with_album_id(remote, album_id);
        return track_paths(&ts);
    }
    match find_album(albums, album_id) {
        Some(i) => {
            proof {
                lemma_find_album_spec(albums@, album_id@, i as int);
            }
            let ts = tracks_with_album_name(local, albums[i].title.as_str());
            track_paths(&ts)
        },
        None => {
            proof {
                lemma_find_album_spec_none(albums@, album_id@);
            }
            Vec::new()
        },
    }
}

/// The first album with id `id`.
pub open spec fn find_album_spec(s: Seq<Album>, id: Seq<char>) -> Option<Album>
    decreases s.len(),
{
    if s.len() == 0 {
        None
    } else if s[0].id@ == id {
        Some(s[0])
    } else {
        find_album_spec(s.drop_first(), id)
    }
}

proof fn lemma_find_album_spec(s: Seq<Album>, id: Seq<char>, i: int)
    requires
        0 <= i < s.len(),
        s[i].id@ == id,
        forall|k: int| 0 <= k < i ==> (#[trigger] s[k]).id@ != id,
    ensures
        find_album_spec(s, id) == Some(s[i]),
    decreases i,
{
    if i > 0 {
        let t = s.drop_first();
        assert forall|k: int| 0 <= k < i - 1 implies (#[trigger] t[k]).id@ != id by {
            assert(t[k] == s[k + 1]);
        }
        assert(s[0].id@ != id);
        lemma_find_album_spec(t, id, i - 1);
    }
}

proof fn lemma_find_album_spec_none(s: Seq<Album>, id: Seq<char>)
    requires
        forall|k: int| 0 <= k < s.len() ==> (#[trigger] s[k]).id@ != id,
    ensures
        find_album_spec(s, id) is None,
    decreases s.len(),
{
    if s.len() > 0 {
        let t = s.drop_first();
        assert forall|k: int| 0 <= k < t.len() implies (#[trigger] t[k]).id@ != id by {
            assert(t[k] == s[k + 1]);
        }
        assert(s[0].id@ != id);
        lemma_find_album_spec_none(t, id);
    }
}

/// The server item ids of the paths (`jellyfin:<id>[:<tag>]`), skipping paths
/// that name none.
pub open spec fn item_ids_spec(paths: Seq<Seq<char>>) -> Seq<Seq<char>>
    decreases paths.len(),
{
    if paths.len() == 0 {
        Seq::empty()
    } else {
        let init = item_ids_spec(paths.drop_last());
        match path_segment(paths.last(), 1) {
            Some(id) => init.push(id),
            None => init,
        }
    }
}

/// The server item ids of the paths.
pub fn item_ids(paths: &Vec<String>) -> (r: Vec<String>)
    ensures
        r@.map_values(|p: String| p@) == item_ids_spec(paths@.map_values(|p: String| p@)),
{
    let ghost all = paths@.map_values(|p: String| p@);
    let mut out: Vec<String> = Vec::new();
    let n = paths.len();
    let mut i: usize = 0;
    while i < n
        invariant
            n == paths@.len(),
            all == paths@.map_values(|p: String| p@),
            i <= n,
            out@.map_values(|p: String| p@) == item_ids_spec(all.subrange(0, i as int)),
        decreases n - i,
    {
        let ghost t = all.subrange(0, i + 1);
        assert(t.drop_last() =~= all.subrange(0, i as int));
        assert(t.last() == paths@[i as int]@);
        let parts = path_segments(paths[i].as_str());
        if parts.len() >= 2 {
            out.push(parts[1].clone());
            assert(out@.map_values(|p: String| p@) =~= item_ids_spec(all.subrange(0, i as int)).push(parts@[1]@));
        }
        i = i + 1;
    }
    assert(all.subrange(0, n as int) =~= all);
    out
}

/// The list after adding each new entry it does not hold yet, in order.
pub open spec fn with_missing(list: Seq<Seq<char>>, new: Seq<Seq<char>>) -> Seq<Seq<char>>
    decreases new.len(),
{
    if new.len() == 0 {
        list
    } else {
        let m = with_missing(list, new.drop_last());
        if m.contains(new.last()) { m } else { m.push(new.last()) }
    }
}

/// Adds to a playlist's entries each new one it does not hold yet.
pub fn add_missing(list: &mut Vec<String>, new: Vec<String>)
    ensures
        views(final(list)@) == with_missing(views(old(list)@), views(new@)),
{
    let ghost start = views(list@);
    let ghost all = views(new@);
    let n = new.len();
    let mut i: usize = 0;
    assert(all.subrange(0, 0) =~= Seq::<Seq<char>>::empty());
    while i < n
        invariant
            n == new@.len(),
            all == views(new@),
            i <= n,
            views(list@) == with_missing(start, all.subrange(0, i as int)),
        decreases n - i,
    {
        let ghost t = all.subrange(0, i + 1);
        assert(t.drop_last() =~= all.subrange(0, i as int));
        assert(t.last() == new@[i as int]@);
        if !contains_text(list, new[i].as_str()) {
            list.push(new[i].clone());
            assert(views(list@) =~= with_missing(start, all.subrange(0, i as int)).push(new@[i as int]@));
        }
        i = i + 1;
    }
    assert(all.subrange(0, n as int) =~= all);
}

/// Adding the missing entries keeps a list free of repeats: the list stays
/// in front, and the result holds exactly the entries of the list and of the
/// new ones.
pub proof fn lemma_with_missing(list: Seq<Seq<char>>, new: Seq<Seq<char>>)
    requires
        list.no_duplicates(),
    ensures
        with_missing(list, new).no_duplicates(),
        with_missing(list, new).len() >= list.len(),
        with_missing(list, new).subrange(0, list.len() as int) == list,
        forall|x: Seq<char>| #[trigger] with_missing(list, new).contains(x) == (list.contains(x) || new.contains(x)),
    decreases new.len(),
{
    let m = with_missing(list, new);
    if new.len() == 0 {
        assert(m.subrange(0, list.len() as int) =~= list);
    } else {
        let t = new.drop_last();
        lemma_with_missing(list, t);
        let p = with_missing(list, t);
        assert forall|x: Seq<char>| #[trigger] m.contains(x) == (list.contains(x) || new.contains(x)) by {
            if t.contains(x) {
                let k = choose|k: int| 0 <= k < t.len() && t[k] == x;
                assert(new[k] == x);
            }
            if new.contains(x) && x != new.last() {
                let k = choose|k: int| 0 <= k < new.len() && new[k] == x;
                assert(t[k] == x);
            }
            if !p.contains(new.last()) {
                assert(m == p.push(new.last()));
                assert(m[p.len() as int] == new.last());
                if m.contains(x) && x != new.last() {
                    let k = choose|k: int| 0 <= k < m.len() && m[k] == x;
                    assert(p[k] == x);
                }
                if p.contains(x) {
                    let k = choose|k: int| 0 <= k < p.len() && p[k] == x;
                    assert(m[k] == x);
                }
            }
        }
        if !p.contains(new.last()) {
            assert(m.subrange(0, list.len() as int) =~= p.subrange(0, list.len() as int));
            assert forall|i: int, j: int| 0 <= i < m.len() && 0 <= j < m.len() && i != j implies m[i] != m[j] by {
                if i < p.len() && j < p.len() {
                    assert(m[i] == p[i] && m[j] == p[j]);
                } else if i < p.len() {
                    assert(m[i] == p[i]);
                } else {
                    assert(m[j] == p[j]);
                }
            }
        }
    }
}

/// The number of different texts among `s`.
pub open spec fn distinct_count(s: Seq<Seq<char>>) -> nat {
    s.to_set().len()
}

fn count_distinct(values: Vec<String>) -> (r: usize)
    ensures
        r == distinct_count(views(values@)),
{
    let ghost v = views(values@);
    let mut seen: Vec<String> = Vec::new();
    proof {
        lemma_with_missing(Seq::<Seq<char>>::empty(), v);
    }
    add_missing(&mut seen, values);
    proof {
        assert(views(Seq::<String>::empty()) =~= Seq::<Seq<char>>::empty());
        let d = views(seen@);
        d.unique_seq_to_set();
        assert(d.to_set() =~= v.to_set());
    }
    seen.len()
}

/// The artist names the library statistics count: those of the albums, then
/// those of the tracks.
pub open spec fn stat_artists(tracks: Seq<Track>, albums: Seq<Album>) -> Seq<Seq<char>> {
    albums.map_values(|a: Album| a.artist@) + tracks.map_values(|t: Track| t.artist@)
}

/// The album titles the library statistics count, in lower case.
pub open spec fn stat_album_titles(albums: Seq<Album>) -> Seq<Seq<char>> {
    albums.map_values(|a: Album| lowercase_of(a.title@))
}

/// The library's statistics: how many different artists (of albums and
/// tracks, as written) and how many different album titles (in lower case).
pub fn library_stats(tracks: &Vec<Track>, albums: &Vec<Album>) -> (r: (usize, usize))
    ensures
        r.0 == distinct_count(stat_artists(tracks@, albums@)),
        r.1 == distinct_count(stat_album_titles(albums@)),
{
    let mut artists: Vec<String> = Vec::new();
    let mut titles: Vec<String> = Vec::new();
    let m = albums.len();
    let mut i: usize = 0;
    while i < m
        invariant
            m == albums@.len(),
            i <= m,
            views(artists@) == albums@.subrange(0, i as int).map_values(|a: Album| a.artist@),
            views(titles@) == stat_album_titles(albums@.subrange(0, i as int)),
        decreases m - i,
    {
        let ghost a0 = views(artists@);
        let ghost t0 = views(titles@);
        let name = albums[i].artist.clone();
        let lower = to_lowercase(albums[i].title.as_str());
        artists.push(name);
        titles.push(lower);
        assert(views(artists@) =~= a0.push(albums@[i as int].artist@));
        assert(views(titles@) =~= t0.push(lowercase_of(albums@[i as int].title@)));
        assert(albums@.subrange(0, i + 1).map_values(|a: Album| a.artist@)
            =~= albums@.subrange(0, i as int).map_values(|a: Album| a.artist@).push(albums@[i as int].artist@));
        assert(stat_album_titles(albums@.subrange(0, i + 1))
            =~= stat_album_titles(albums@.subrange(0, i as int)).push(lowercase_of(albums@[i as int].title@)));
        i = i + 1;
    }
    assert(albums@.subrange(0, m as int) =~= albums@);
    let n = tracks.len();
    let mut j: usize = 0;
    while j < n
        invariant
            n == tracks@.len(),
            j <= n,
            views(artists@) == albums@.map_values(|a: Album| a.artist@)
                + tracks@.subrange(0, j as int).map_values(|t: Track| t.artist@),
        decreases n - j,
    {
        let ghost a0 = views(artists@);
        let name = tracks[j].artist.clone();
        artists.push(name);
        assert(views(artists@) =~= a0.push(tracks@[j as int].artist@));
        assert(tracks@.subrange(0, j + 1).map_values(|t: Track| t.artist@)
            =~= tracks@.subrange(0, j as int).map_values(|t: Track| t.artist@).push(tracks@[j as int].artist@));
        assert(views(artists@) =~= albums@.map_values(|a: Album| a.artist@)
            + tracks@.subrange(0, j + 1).map_values(|t: Track| t.artist@));
        j = j + 1;
    }
    assert(tracks@.subrange(0, n as int) =~= tracks@);
    (count_distinct(artists), count_distinct(titles))
}

/// Rows drawn beyond the visible ones, above and below, in a long list.
pub const SCROLL_BUFFER_ROWS: usize = 10;

/// The part of a long list that is drawn: rows `start .. start + count`, with
/// `rows_below` rows' worth of empty space after them (and `start` rows' worth
/// before them).
#[derive(Debug, Clone, Copy, PartialEq, Eq, Structural)]
pub struct ScrollWindow {
    pub start: usize,
    pub count: usize,
    pub rows_below: usize,
}

/// The first row drawn: `first_row` (the row `SCROLL_BUFFER_ROWS` above the
/// top of the view, or 0), but no further than the last row.
pub open spec fn window_start(total: int, first_row: int) -> int {
    if total == 0 { 0 } else if first_row < total - 1 { first_row } else { total - 1 }
}

/// The rows of a list of `total` rows that are drawn, when the view shows
/// `view_rows` rows and `first_row` is the row `SCROLL_BUFFER_ROWS` above the
/// top of the view (or 0): the view and the buffer rows around it, within the
/// list.
pub fn scroll_window(total: usize, first_row: usize, view_rows: usize) -> (w: ScrollWindow)
    requires
        window_start(total as int, first_row as int) + 2 * SCROLL_BUFFER_ROWS + view_rows <= usize::MAX,
    ensures
        w.start == window_start(total as int, first_row as int),
        total == 0 ==> w.count == 0,
        total > 0 ==> w.count == (if w.start + 2 * SCROLL_BUFFER_ROWS + view_rows - 1 < total - 1 {
            w.start + 2 * SCROLL_BUFFER_ROWS + view_rows - 1
        } else {
            total - 1
        }) + 1 - w.start,
        w.rows_below == total - w.start - w.count,
        w.start + w.count <= total,
        total > 0 ==> w.count >= 1,
{
    let max_start = if total > 0 { total - 1 } else { 0 };
    let start = if first_row < max_start { first_row } else { max_start };
    let last_index = start + 2 * SCROLL_BUFFER_ROWS + view_rows;
    let last_inclusive = if last_index > 0 { last_index - 1 } else { 0 };
    let end = if total == 0 { 0 } else if last_inclusive < total - 1 { last_inclusive } else { total - 1 };
    let count = if total == 0 { 0 } else if end + 1 > start { end + 1 - start } else { 0 };
    ScrollWindow { start, count, rows_below: total - start - count }
}

} // verus!
