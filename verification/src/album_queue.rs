use vstd::prelude::*;
use crate::models::Track;
use crate::text::{starts_with, str_eq, is_prefix};

verus! {

/// Disc number of a track, 1 when unknown.
pub open spec fn disc_of(t: Track) -> u32 {
    match t.disc_number { Some(d) => d, None => 1 }
}

/// Track number of a track, 0 when unknown.
pub open spec fn number_of(t: Track) -> u32 {
    match t.track_number { Some(n) => n, None => 0 }
}

/// `a` comes strictly before `b` in album order (disc, then track number).
pub open spec fn before(a: Track, b: Track) -> bool {
    disc_of(a) < disc_of(b) || (disc_of(a) == disc_of(b) && number_of(a) < number_of(b))
}

/// The tracks are in album order.
pub open spec fn in_album_order(s: Seq<Track>) -> bool {
    forall|i: int, j: int| 0 <= i < j < s.len() ==> !before(#[trigger] s[j], #[trigger] s[i])
}

/// `x` inserted into `s` after every track that does not come after it.
pub open spec fn insert_in_order(s: Seq<Track>, x: Track) -> Seq<Track>
    decreases s.len(),
{
    if s.len() == 0 {
        seq![x]
    } else if before(x, s.last()) {
        insert_in_order(s.drop_last(), x).push(s.last())
    } else {
        s.push(x)
    }
}

/// The tracks in album order; tracks with the same disc and number keep their
/// relative order (a stable sort).
pub open spec fn album_order(s: Seq<Track>) -> Seq<Track>
    decreases s.len(),
{
    if s.len() == 0 {
        Seq::empty()
    } else {
        insert_in_order(album_order(s.drop_last()), s.last())
    }
}

/// The tracks of album `id`, in the order they are listed.
pub open spec fn tracks_of_album(s: Seq<Track>, id: Seq<char>) -> Seq<Track>
    decreases s.len(),
{
    if s.len() == 0 {
        Seq::empty()
    } else if s.last().album_id@ == id {
        tracks_of_album(s.drop_last(), id).push(s.last())
    } else {
        tracks_of_album(s.drop_last(), id)
    }
}

/// Inserting a track keeps album order.
pub proof fn lemma_insert_keeps_order(s: Seq<Track>, x: Track)
    requires
        in_album_order(s),
    ensures
        in_album_order(insert_in_order(s, x)),
        insert_in_order(s, x).len() == s.len() + 1,
        insert_in_order(s, x).to_multiset() == s.to_multiset().insert(x),
        forall|k: int| 0 <= k < insert_in_order(s, x).len() ==>
            (#[trigger] insert_in_order(s, x)[k]) == x || s.contains(insert_in_order(s, x)[k]),
    decreases s.len(),
{
    let r = insert_in_order(s, x);
    if s.len() == 0 {
        broadcast use vstd::seq_lib::group_to_multiset_ensures;
        assert(r =~= s.push(x));
    } else if before(x, s.last()) {
        let t = s.drop_last();
        assert(in_album_order(t));
        lemma_insert_keeps_order(t, x);
        let rt = insert_in_order(t, x);
        assert(r == rt.push(s.last()));
        assert forall|i: int, j: int| 0 <= i < j < r.len() implies !before(#[trigger] r[j], #[trigger] r[i]) by {
            if j == r.len() - 1 {
                // r[i] is x or an element of t, neither comes after s.last()
                assert(rt[i] == r[i]);
                if rt[i] != x {
                    assert(t.contains(rt[i]));
                    let k = choose|k: int| 0 <= k < t.len() && t[k] == rt[i];
                    assert(s[k] == t[k]);
                    assert(!before(s[s.len() - 1], s[k]));
                }
            } else {
                assert(rt[i] == r[i] && rt[j] == r[j]);
            }
        }
        assert(s =~= t.push(s.last()));
        broadcast use vstd::seq_lib::group_to_multiset_ensures, vstd::multiset::group_multiset_properties;
        assert(r.to_multiset() =~= s.to_multiset().insert(x));
        assert forall|k: int| 0 <= k < r.len() implies (#[trigger] r[k]) == x || s.contains(r[k]) by {
            if k == r.len() - 1 {
                assert(s[s.len() - 1] == r[k]);
            } else {
                assert(rt[k] == r[k]);
                if rt[k] != x {
                    let m = choose|m: int| 0 <= m < t.len() && t[m] == rt[k];
                    assert(s[m] == t[m]);
                }
            }
        }
    } else {
        assert forall|i: int, j: int| 0 <= i < j < r.len() implies !before(#[trigger] r[j], #[trigger] r[i]) by {
            if j == r.len() - 1 {
                assert(r[i] == s[i]);
                if i < s.len() - 1 {
                    assert(!before(s[s.len() - 1], s[i]));
                }
            } else {
                assert(r[i] == s[i] && r[j] == s[j]);
            }
        }
        broadcast use vstd::seq_lib::group_to_multiset_ensures, vstd::multiset::group_multiset_properties;
        assert(r.to_multiset() =~= s.to_multiset().insert(x));
        assert forall|k: int| 0 <= k < r.len() implies (#[trigger] r[k]) == x || s.contains(r[k]) by {
            if k < s.len() {
                assert(r[k] == s[k]);
            }
        }
    }
}

/// Album order puts the tracks in order and keeps every one of them.
pub proof fn lemma_album_order_sorts(s: Seq<Track>)
    ensures
        in_album_order(album_order(s)),
        album_order(s).to_multiset() == s.to_multiset(),
        album_order(s).len() == s.len(),
    decreases s.len(),
{
    if s.len() == 0 {
        assert(album_order(s) =~= s);
    } else {
        lemma_album_order_sorts(s.drop_last());
        lemma_insert_keeps_order(album_order(s.drop_last()), s.last());
        assert(s =~= s.drop_last().push(s.last()));
        broadcast use vstd::seq_lib::group_to_multiset_ensures, vstd::multiset::group_multiset_properties;
    }
}

/// Where `x` goes when inserted into `s`: after the last track that does not
/// come after it.
proof fn lemma_insert_at(s: Seq<Track>, x: Track, j: int)
    requires
        0 <= j <= s.len(),
        forall|k: int| j <= k < s.len() ==> before(x, #[trigger] s[k]),
        j > 0 ==> !before(x, s[j - 1]),
    ensures
        insert_in_order(s, x) == s.subrange(0, j).push(x) + s.subrange(j, s.len() as int),
    decreases s.len(),
{
    if s.len() == 0 {
        assert(s.subrange(0, j).push(x) + s.subrange(j, s.len() as int) =~= seq![x]);
    } else if j == s.len() {
        assert(!before(x, s.last()));
        assert(s.subrange(0, j).push(x) + s.subrange(j, s.len() as int) =~= s.push(x));
    } else {
        assert(before(x, s.last()));
        let t = s.drop_last();
        assert forall|k: int| j <= k < t.len() implies before(x, #[trigger] t[k]) by {
            assert(t[k] == s[k]);
        }
        if j > 0 {
            assert(t[j - 1] == s[j - 1]);
        }
        lemma_insert_at(t, x, j);
        assert(insert_in_order(s, x) =~= s.subrange(0, j).push(x) + s.subrange(j, s.len() as int));
    }
}

fn key_before(a: &Track, b: &Track) -> (r: bool)
    ensures
        r == before(*a, *b),
{
    let da = match a.disc_number { Some(d) => d, None => 1 };
    let db = match b.disc_number { Some(d) => d, None => 1 };
    let na = match a.track_number { Some(n) => n, None => 0 };
    let nb = match b.track_number { Some(n) => n, None => 0 };
    da < db || (da == db && na < nb)
}

/// The tracks of album `album_id` in album order: disc by disc, by track
/// number within a disc; remote albums (`jellyfin:` ids) take their tracks
/// from the server's list, local ones from the local list.
pub fn album_queue(local: &Vec<Track>, remote: &Vec<Track>, album_id: &str) -> (r: Vec<Track>)
    ensures
        r@ == album_order(tracks_of_album(
            if is_prefix("jellyfin:"@, album_id@) { remote@ } else { local@ },
            album_id@,
        )),
{
    let source = if starts_with(album_id, "jellyfin:") { remote } else { local };
    let n = source.len();
    let mut out: Vec<Track> = Vec::new();
    let mut i: usize = 0;
    while i < n
        invariant
            n == source@.len(),
            i <= n,
            out@ == album_order(tracks_of_album(source@.subrange(0, i as int), album_id@)),
            in_album_order(out@),
        decreases n - i,
    {
        let ghost pre = source@.subrange(0, i as int);
        assert(source@.subrange(0, i + 1).drop_last() =~= pre);
        if str_eq(source[i].album_id.as_str(), album_id) {
            let x = source[i].clone();
            let mut j = out.len();
            while j > 0 && key_before(&x, &out[j - 1])
                invariant
                    j <= out@.len(),
                    forall|k: int| j <= k < out@.len() ==> before(x, #[trigger] out@[k]),
                decreases j,
            {
                j = j - 1;
            }
            proof {
                lemma_insert_at(out@, x, j as int);
                lemma_insert_keeps_order(out@, x);
                assert(tracks_of_album(source@.subrange(0, i + 1), album_id@)
                    == tracks_of_album(pre, album_id@).push(x));
                assert(tracks_of_album(pre, album_id@).push(x).drop_last() =~= tracks_of_album(pre, album_id@));
            }
            out.insert(j, x);
            assert(out@ =~= insert_in_order(album_order(tracks_of_album(pre, album_id@)), x));
        } else {
            assert(tracks_of_album(source@.subrange(0, i + 1), album_id@) == tracks_of_album(pre, album_id@));
        }
        i = i + 1;
    }
    assert(source@.subrange(0, n as int) =~= source@);
    out
}

} // verus!
