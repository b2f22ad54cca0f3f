use vstd::prelude::*;
use crate::controller::LoopMode;
use crate::media::{is_remote_path, is_remote_track_path, path_segment, path_segments};
use crate::text::{concat2, decimal, decimal_spec, str_eq};

verus! {

/// `m:ss` for a number of seconds: whole minutes, then the seconds on two digits.
pub open spec fn time_text(seconds: u64) -> Seq<char> {
    let m = seconds / 60;
    let s = seconds % 60;
    decimal_spec(m as nat) + ":"@ + seq![digit_of((s / 10) as nat), digit_of((s % 10) as nat)]
}

pub open spec fn digit_of(d: nat) -> char {
    crate::text::digit_char(d)
}

/// The time `seconds` as the player shows it (`m:ss`).
pub fn format_time(seconds: u64) -> (r: String)
    ensures
        r@ == time_text(seconds),
{
    let m = seconds / 60;
    let s = seconds % 60;
    let mut r = decimal(m);
    r.append(":");
    let tens = decimal(s / 10);
    let ones = decimal(s % 10);
    proof {
        reveal_with_fuel(decimal_spec, 1);
        assert(decimal_spec((s / 10) as nat) == seq![crate::text::digit_char((s / 10) as nat)]);
        assert(decimal_spec((s % 10) as nat) == seq![crate::text::digit_char((s % 10) as nat)]);
    }
    r.append(tens.as_str());
    r.append(ones.as_str());
    r
}

/// Tooltip of the loop button.
pub open spec fn loop_title_text(mode: LoopMode) -> Seq<char> {
    match mode {
        LoopMode::Off => "Repeat: Off"@,
        LoopMode::Queue => "Repeat: Queue"@,
        LoopMode::Track => "Repeat: Track"@,
    }
}

/// Tooltip of the loop button for `mode`.
pub fn loop_title(mode: LoopMode) -> (r: &'static str)
    ensures
        r@ == loop_title_text(mode),
{
    match mode {
        LoopMode::Off => "Repeat: Off",
        LoopMode::Queue => "Repeat: Queue",
        LoopMode::Track => "Repeat: Track",
    }
}

/// Tooltip of the shuffle button.
pub fn shuffle_title(on: bool) -> (r: &'static str)
    ensures
        on ==> r@ == "Shuffle: On"@,
        !on ==> r@ == "Shuffle: Off"@,
{
    if on { "Shuffle: On" } else { "Shuffle: Off" }
}

/// Tooltip of the favourite button.
pub fn favorite_title(is_favorite: bool) -> (r: &'static str)
    ensures
        is_favorite ==> r@ == "Remove from Favorites"@,
        !is_favorite ==> r@ == "Add to Favorites"@,
{
    if is_favorite { "Remove from Favorites" } else { "Add to Favorites" }
}

/// The CSS class of the application's root for the configured theme: the
/// album-art theme draws on the default colours.
pub fn theme_class(theme: &str) -> (r: String)
    ensures
        theme@ == "album-art"@ ==> r@ == "theme-default"@,
        theme@ != "album-art"@ ==> r@ == "theme-"@ + theme@,
{
    if str_eq(theme, "album-art") {
        "theme-default".to_owned()
    } else {
        concat2("theme-", theme)
    }
}

/// Which favourites list a track belongs to.
#[derive(Debug)]
pub enum FavoriteTarget {
    /// The server's favourites, under this item id.
    Remote(String),
    /// The local favourites, under the track's path.
    Local,
    /// A remote path without an item id: it cannot be a favourite.
    Unknown,
}

/// Which favourites list the track with `path` is looked up and toggled in.
pub fn favorite_target(path: &str) -> (r: FavoriteTarget)
    ensures
        !is_remote_path(path@) ==> r is Local,
        is_remote_path(path@) ==> match r {
            FavoriteTarget::Remote(id) => path_segment(path@, 1) == Some(id@),
            FavoriteTarget::Unknown => path_segment(path@, 1).is_none(),
            FavoriteTarget::Local => false,
        },
{
    if !is_remote_track_path(path) {
        return FavoriteTarget::Local;
    }
    let parts = path_segments(path);
    if parts.len() >= 2 {
        FavoriteTarget::Remote(parts[1].clone())
    } else {
        FavoriteTarget::Unknown
    }
}

} // verus!
