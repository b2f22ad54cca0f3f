use vstd::prelude::*;
use crate::text::{concat2, is_prefix, starts_with, str_eq};

verus! {

/// What the Discord presence logic remembers between ticks.
#[derive(Debug)]
pub struct PresenceState {
    pub last_title: String,
    pub was_playing: bool,
    pub cover_url: Option<String>,
    pub resolving_for: String,
    pub cover_sent: bool,
    pub last_enabled: bool,
}

/// What the tick sees of the player and the settings.
#[derive(Debug)]
pub struct PresenceInput {
    pub is_playing: bool,
    pub enabled: bool,
    pub has_presence: bool,
    pub title: String,
    pub artist: String,
    pub album: String,
    pub progress_secs: u64,
    pub duration: u64,
    pub cover: String,
}

/// The activity to show on Discord.
#[derive(Debug)]
pub enum PresenceUpdate {
    NowPlaying { title: String, artist: String, album: String, progress: u64, duration: u64, cover: Option<String> },
    Paused { title: String, artist: String, album: String, cover: Option<String> },
    Clear,
}

/// What the application must do after a presence tick.
#[derive(Debug)]
pub struct PresenceOutput {
    /// Look the cover art up (from the MusicBrainz release or artist and
    /// album) and hand the result to `cover_resolved`.
    pub resolve_cover: bool,
    pub update: Option<PresenceUpdate>,
}

/// The key that tells songs apart: `title|artist|album`.
pub open spec fn song_key(i: PresenceInput) -> Seq<char> {
    i.title@ + "|"@ + i.artist@ + "|"@ + i.album@
}

pub open spec fn opt_text(o: Option<String>) -> Option<Seq<char>> {
    match o {
        Some(s) => Some(s@),
        None => None,
    }
}

/// The presence logic before the first tick.
pub fn initial_presence_state() -> (s: PresenceState)
    ensures
        s.last_title@.len() == 0,
        !s.was_playing,
        s.cover_url is None,
        s.resolving_for@.len() == 0,
        !s.cover_sent,
        !s.last_enabled,
{
    PresenceState {
        last_title: String::new(),
        was_playing: false,
        cover_url: None,
        resolving_for: String::new(),
        cover_sent: false,
        last_enabled: false,
    }
}

/// A cover lookup finished (`None` when nothing was found).
pub fn cover_resolved(state: &mut PresenceState, url: Option<String>)
    ensures
        final(state).cover_url == url,
        final(state).last_title == old(state).last_title,
        final(state).was_playing == old(state).was_playing,
        final(state).resolving_for == old(state).resolving_for,
        final(state).cover_sent == old(state).cover_sent,
        final(state).last_enabled == old(state).last_enabled,
{
    state.cover_url = url;
}

fn key_of(i: &PresenceInput) -> (k: String)
    ensures
        k@ == song_key(*i),
{
    let mut k = concat2(i.title.as_str(), "|");
    k.append(i.artist.as_str());
    k.append("|");
    k.append(i.album.as_str());
    k
}

fn copy_opt(o: &Option<String>) -> (r: Option<String>)
    ensures
        r == *o,
{
    match o {
        Some(s) => Some(s.clone()),
        None => None,
    }
}

/// One tick of the Discord presence: picks the cover, and decides when to show
/// the playing song, the paused song, or nothing.
pub fn presence_step(state: &mut PresenceState, i: PresenceInput) -> (out: PresenceOutput)
    ensures
        ({
            let s0 = *old(state);
            let s1 = *final(state);
            let http = is_prefix("http"@, i.cover@);
            let new_song = i.is_playing && i.has_presence && i.enabled && song_key(i) != s0.resolving_for@;
            // the cover as it stands after the song check
            let cover = if new_song { if http { Some(i.cover@) } else { None } } else { opt_text(s0.cover_url) };
            let sent = if new_song { false } else { s0.cover_sent };
            &&& out.resolve_cover == (new_song && !http)
            &&& s1.was_playing == i.is_playing
            &&& s1.last_enabled == i.enabled
            &&& opt_text(s1.cover_url) == cover
            &&& (new_song ==> s1.resolving_for@ == song_key(i))
            &&& (!new_song ==> s1.resolving_for == s0.resolving_for)
            &&& if !i.has_presence {
                out.update is None && s1.last_title == s0.last_title && s1.cover_sent == s0.cover_sent
            } else if i.is_playing {
                if i.enabled {
                    let due = i.title@ != s0.last_title@ || !s0.was_playing || !s0.last_enabled
                        || (cover.is_some() && !sent);
                    if due {
                        &&& s1.last_title@ == i.title@
                        &&& s1.cover_sent == (sent || cover.is_some())
                        &&& out.update matches Some(PresenceUpdate::NowPlaying { title, artist, album, progress, duration, cover: c })
                            && title@ == i.title@ && artist@ == i.artist@ && album@ == i.album@
                            && progress == i.progress_secs && duration == i.duration
                            && opt_text(c) == (if cover.is_some() { cover } else if http { Some(i.cover@) } else { None })
                    } else {
                        out.update is None && s1.last_title == s0.last_title && s1.cover_sent == sent
                    }
                } else {
                    &&& s1.last_title == s0.last_title
                    &&& s1.cover_sent == s0.cover_sent
                    &&& if s0.last_enabled { out.update matches Some(PresenceUpdate::Clear) } else { out.update is None }
                }
            } else {
                &&& s1.last_title == s0.last_title
                &&& s1.cover_sent == s0.cover_sent
                &&& if s0.was_playing {
                    if i.enabled {
                        out.update matches Some(PresenceUpdate::Paused { title, artist, album, cover: c })
                            && title@ == i.title@ && artist@ == i.artist@ && album@ == i.album@ && opt_text(c) == cover
                    } else if s0.last_enabled {
                        out.update matches Some(PresenceUpdate::Clear)
                    } else {
                        out.update is None
                    }
                } else if !i.enabled && s0.last_enabled {
                    out.update matches Some(PresenceUpdate::Clear)
                } else if i.enabled && !s0.last_enabled && i.title@.len() > 0 {
                    out.update matches Some(PresenceUpdate::Paused { title, artist, album, cover: c })
                        && title@ == i.title@ && artist@ == i.artist@ && album@ == i.album@ && opt_text(c) == cover
                } else {
                    out.update is None
                }
            }
        }),
{
    let http = starts_with(i.cover.as_str(), "http");
    let mut resolve_cover = false;
    let mut update: Option<PresenceUpdate> = None;
    if i.has_presence {
        if i.is_playing {
            let key = key_of(&i);
            if i.enabled && !str_eq(key.as_str(), state.resolving_for.as_str()) {
                state.resolving_for = key;
                state.cover_url = None;
                state.cover_sent = false;
                if http {
                    state.cover_url = Some(i.cover.clone());
                } else {
                    resolve_cover = true;
                }
            }
            if i.enabled {
                let song_changed = !str_eq(i.title.as_str(), state.last_title.as_str());
                let resumed = !state.was_playing;
                let toggled_on = !state.last_enabled;
                let cover_just_resolved = state.cover_url.is_some() && !state.cover_sent;
                if song_changed || resumed || toggled_on || cover_just_resolved {
                    state.last_title = i.title.clone();
                    let resolved = copy_opt(&state.cover_url);
                    let cover_ref = match &resolved {
                        Some(u) => Some(u.clone()),
                        None => if http { Some(i.cover.clone()) } else { None },
                    };
                    if resolved.is_some() {
                        state.cover_sent = true;
                    }
                    update = Some(PresenceUpdate::NowPlaying {
                        title: i.title.clone(),
                        artist: i.artist.clone(),
                        album: i.album.clone(),
                        progress: i.progress_secs,
                        duration: i.duration,
                        cover: cover_ref,
                    });
                }
            } else if state.last_enabled {
                update = Some(PresenceUpdate::Clear);
            }
        } else if state.was_playing {
            if i.enabled {
                update = Some(PresenceUpdate::Paused {
                    title: i.title.clone(),
                    artist: i.artist.clone(),
                    album: i.album.clone(),
                    cover: copy_opt(&state.cover_url),
                });
            } else if state.last_enabled {
                update = Some(PresenceUpdate::Clear);
            }
        } else if !i.enabled && state.last_enabled {
            update = Some(PresenceUpdate::Clear);
        } else if i.enabled && !state.last_enabled && i.title.as_str().unicode_len() > 0 {
            update = Some(PresenceUpdate::Paused {
                title: i.title.clone(),
                artist: i.artist.clone(),
                album: i.album.clone(),
                cover: copy_opt(&state.cover_url),
            });
        }
    }
    state.was_playing = i.is_playing;
    state.last_enabled = i.enabled;
    PresenceOutput { resolve_cover, update }
}

} // verus!
