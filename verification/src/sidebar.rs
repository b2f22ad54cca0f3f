use vstd::prelude::*;
use crate::text::{contains_text, to_string_of, views};

verus! {

/// The keys of the sidebar's main entries, in their default order.
pub fn top_menu_keys() -> (r: Vec<String>)
    ensures
        views(r@) == seq!["home"@, "search"@, "library"@, "albums"@, "artists"@, "playlists"@, "favorites"@, "Activity"@],
{
    let mut r: Vec<String> = Vec::new();
    r.push(to_string_of("home"));
    r.push(to_string_of("search"));
    r.push(to_string_of("library"));
    r.push(to_string_of("albums"));
    r.push(to_string_of("artists"));
    r.push(to_string_of("playlists"));
    r.push(to_string_of("favorites"));
    r.push(to_string_of("Activity"));
    assert(views(r@) =~= seq!["home"@, "search"@, "library"@, "albums"@, "artists"@, "playlists"@, "favorites"@, "Activity"@]);
    r
}

/// The entries of `s` that `keep` holds (`keep_in == true`) or does not
/// hold (`keep_in == false`), in order.
pub open spec fn select(s: Seq<Seq<char>>, keep: Seq<Seq<char>>, keep_in: bool) -> Seq<Seq<char>>
    decreases s.len(),
{
    if s.len() == 0 {
        Seq::empty()
    } else if keep.contains(s.last()) == keep_in {
        select(s.drop_last(), keep, keep_in).push(s.last())
    } else {
        select(s.drop_last(), keep, keep_in)
    }
}

/// The order of the sidebar's main entries: the saved order's keys that name
/// an entry, then the entries the saved order leaves out, in their default
/// order.
pub open spec fn sidebar_order_spec(saved: Seq<Seq<char>>, menu: Seq<Seq<char>>) -> Seq<Seq<char>> {
    select(saved, menu, true) + select(menu, saved, false)
}

fn select_exec(s: &Vec<String>, keep: &Vec<String>, keep_in: bool) -> (r: Vec<String>)
    ensures
        views(r@) == select(views(s@), views(keep@), keep_in),
{
    let ghost all = views(s@);
    let mut out: Vec<String> = Vec::new();
    let n = s.len();
    let mut i: usize = 0;
    while i < n
        invariant
            n == s@.len(),
            all == views(s@),
            i <= n,
            views(out@) == select(all.subrange(0, i as int), views(keep@), keep_in),
        decreases n - i,
    {
        let ghost t = all.subrange(0, i + 1);
        assert(t.drop_last() =~= all.subrange(0, i as int));
        assert(t.last() == s@[i as int]@);
        if contains_text(keep, s[i].as_str()) == keep_in {
            let ghost before = views(out@);
            out.push(s[i].clone());
            assert(views(out@) =~= before.push(s@[i as int]@));
        }
        i = i + 1;
    }
    assert(all.subrange(0, n as int) =~= all);
    out
}

/// The keys of the sidebar's main entries in the order they are shown.
pub fn sidebar_items(saved: &Vec<String>, menu: &Vec<String>) -> (r: Vec<String>)
    ensures
        views(r@) == sidebar_order_spec(views(saved@), views(menu@)),
{
    let mut known = select_exec(saved, menu, true);
    let mut rest = select_exec(menu, saved, false);
    let ghost a = views(known@);
    let ghost b = views(rest@);
    known.append(&mut rest);
    assert(views(known@) =~= a + b);
    known
}

/// Moves the saved entry at `idx` one place up (nothing happens to the first
/// one).
pub fn move_up(order: &mut Vec<String>, idx: usize)
    requires
        idx > 0 ==> idx < old(order)@.len(),
    ensures
        idx == 0 ==> final(order)@ == old(order)@,
        idx > 0 ==> final(order)@ == old(order)@.update(idx as int, old(order)@[idx - 1]).update(idx - 1, old(order)@[idx as int]),
{
    if idx > 0 {
        let a = order[idx - 1].clone();
        let b = order[idx].clone();
        order.set(idx, a);
        order.set(idx - 1, b);
    }
}

/// Moves the saved entry at `idx` one place down (nothing happens to the
/// last one, or past the end).
pub fn move_down(order: &mut Vec<String>, idx: usize)
    ensures
        !(idx + 1 < old(order)@.len()) ==> final(order)@ == old(order)@,
        idx + 1 < old(order)@.len() ==> final(order)@ == old(order)@.update(idx as int, old(order)@[idx + 1]).update(idx + 1, old(order)@[idx as int]),
{
    if idx < order.len() && idx + 1 < order.len() {
        let a = order[idx + 1].clone();
        let b = order[idx].clone();
        order.set(idx, a);
        order.set(idx + 1, b);
    }
}

/// Width of the sidebar when collapsed.
pub const COLLAPSED_WIDTH: i32 = 72;

/// Width the sidebar takes: its own, or `COLLAPSED_WIDTH` when collapsed.
pub fn sidebar_width(collapsed: bool, width: i32) -> (r: i32)
    ensures
        r == if collapsed { COLLAPSED_WIDTH } else { width },
{
    if collapsed { COLLAPSED_WIDTH } else { width }
}

/// Dragging the sidebar's edge to `new_width`: a collapsed sidebar opens
/// beyond 180 pixels; an open one collapses below 150 and follows the drag
/// below 450. Gives whether it is collapsed and its width.
pub fn resize_sidebar(collapsed: bool, width: i32, new_width: i32) -> (r: (bool, i32))
    ensures
        r == if collapsed {
            if new_width > 180 { (false, new_width) } else { (true, width) }
        } else if new_width < 150 {
            (true, width)
        } else if new_width < 450 {
            (false, new_width)
        } else {
            (false, width)
        },
{
    if collapsed {
        if new_width > 180 { (false, new_width) } else { (true, width) }
    } else if new_width < 150 {
        (true, width)
    } else if new_width < 450 {
        (false, new_width)
    } else {
        (false, width)
    }
}

} // verus!
