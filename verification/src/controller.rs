use vstd::prelude::*;
use crate::config::JellyfinServer;
use crate::media::{
    is_remote_path, is_remote_track_path, opt_view, path_segment, path_segments,
    playback_cover_url, playback_cover_url_spec, remote_item_id, stream_url, stream_url_spec,
};
use crate::models::Track;
use crate::text::{concat2, contains_char};

use rand::Rng;

verus! {

/// How playback continues when a track ends.
#[derive(Clone, Copy, PartialEq, Eq, Debug, Structural)]
pub enum LoopMode {
    Off,
    Queue,
    Track,
}

impl LoopMode {
    /// The mode that follows this one in the toggle cycle Off, Queue, Track.
    pub open spec fn following(self) -> LoopMode {
        match self {
            LoopMode::Off => LoopMode::Queue,
            LoopMode::Queue => LoopMode::Track,
            LoopMode::Track => LoopMode::Off,
        }
    }

    pub fn next(&self) -> (r: Self)
        ensures
            r == self.following(),
    {
        match self {
            LoopMode::Off => LoopMode::Queue,
            LoopMode::Queue => LoopMode::Track,
            LoopMode::Track => LoopMode::Off,
        }
    }
}

/// What the application must do after the controller chose a track.
#[derive(Debug)]
pub enum PlayAction {
    /// Nothing to start.
    Nothing,
    /// Stop the player, then decode `stream_url` and play it if `generation` is
    /// still current when decoding finishes.
    StreamRemote { stream_url: String, cover_url: String, generation: usize, track: Track },
    /// Open and decode the file at `track.path`; when that succeeds, play it and
    /// report it with `local_started`.
    OpenLocal { track: Track, generation: usize },
}

/// What the player does to honour a play/pause toggle.
#[derive(Clone, Copy, PartialEq, Eq, Debug, Structural)]
pub enum PlayerCommand {
    Pause,
    Resume,
}

/// Where "next" goes from the current state.
#[derive(Clone, Copy, PartialEq, Eq, Debug, Structural)]
pub enum NextStep {
    /// The queue is empty.
    Nothing,
    /// Play the queue entry with this index.
    Play(usize),
    /// The end of the queue was reached: playback stops.
    Stop,
}

/// The playback queue and the state of what is playing.
#[derive(Debug)]
pub struct PlayerController {
    pub is_playing: bool,
    pub is_loading: bool,
    pub skip_in_progress: bool,
    pub history: Vec<usize>,
    pub queue: Vec<Track>,
    pub shuffle: bool,
    pub loop_mode: LoopMode,
    pub current_queue_index: usize,
    pub current_song_title: String,
    pub current_song_artist: String,
    pub current_song_album: String,
    pub current_song_khz: u32,
    pub current_song_bitrate: u8,
    pub current_song_duration: u64,
    pub current_song_progress: u64,
    pub current_song_cover_url: String,
    pub play_generation: usize,
}

/// The history after leaving the entry `cur`: `cur` is recorded unless it is
/// already the most recent entry.
pub open spec fn history_after(h: Seq<usize>, cur: usize) -> Seq<usize> {
    if h.len() > 0 && h.last() == cur {
        h
    } else {
        h.push(cur)
    }
}

/// The entry "previous" plays: the most recent history entry, else the entry
/// before the current one, else (looping the queue) the last one.
pub open spec fn prev_choice(h: Seq<usize>, idx: usize, len: nat, mode: LoopMode) -> Option<usize> {
    if len == 0 {
        None
    } else if h.len() > 0 {
        Some(h.last())
    } else if idx > 0 {
        Some((idx - 1) as usize)
    } else if mode == LoopMode::Queue {
        Some((len - 1) as usize)
    } else {
        None
    }
}

/// The bound of the random draw that picks a shuffled entry: all entries but
/// the current one are eligible.
pub open spec fn shuffle_bound(idx: usize, len: nat) -> nat {
    if idx < len { (len - 1) as nat } else { len }
}

/// The shuffled entry chosen by the draw `r` (uniform below `shuffle_bound`):
/// draws at or above the current entry skip over it.
pub open spec fn shuffle_pick(r: usize, idx: usize) -> usize {
    if r < idx { r } else { (r + 1) as usize }
}

/// Where "next" goes given the random draw `r` (only read in shuffle mode).
pub open spec fn next_step_spec(idx: usize, len: nat, mode: LoopMode, shuffle: bool, r: usize) -> NextStep {
    if len == 0 {
        NextStep::Nothing
    } else if mode == LoopMode::Track {
        NextStep::Play(idx)
    } else if shuffle && len > 1 {
        NextStep::Play(shuffle_pick(r, idx))
    } else if shuffle && len == 1 {
        NextStep::Play(0)
    } else if idx + 1 < len {
        NextStep::Play((idx + 1) as usize)
    } else if mode == LoopMode::Queue {
        NextStep::Play(0)
    } else {
        NextStep::Stop
    }
}

/// The listen threshold of a track: half its length, at most four minutes.
pub open spec fn scrobble_threshold_spec(duration: u64) -> u64 {
    if duration / 2 < 240 { (duration / 2) as u64 } else { 240 }
}

/// The Authorization header for a ListenBrainz token: a token that already
/// holds a scheme (a space) is sent as is, a bare one gets the `Token ` scheme.
pub open spec fn listen_auth_spec(token: Seq<char>) -> Option<Seq<char>> {
    if token.len() == 0 {
        None
    } else if token.contains(' ') {
        Some(token)
    } else {
        Some("Token "@ + token)
    }
}

impl PlayerController {
    /// The fields that describe what is playing are those of `self`.
    pub open spec fn same_now_playing(self, other: Self) -> bool {
        &&& other.is_playing == self.is_playing
        &&& other.is_loading == self.is_loading
        &&& other.skip_in_progress == self.skip_in_progress
        &&& other.current_queue_index == self.current_queue_index
        &&& other.current_song_title == self.current_song_title
        &&& other.current_song_artist == self.current_song_artist
        &&& other.current_song_album == self.current_song_album
        &&& other.current_song_khz == self.current_song_khz
        &&& other.current_song_bitrate == self.current_song_bitrate
        &&& other.current_song_duration == self.current_song_duration
        &&& other.current_song_progress == self.current_song_progress
        &&& other.current_song_cover_url == self.current_song_cover_url
    }

    /// Queue, shuffle and loop settings of `other` are those of `self`.
    pub open spec fn same_settings(self, other: Self) -> bool {
        &&& other.queue == self.queue
        &&& other.shuffle == self.shuffle
        &&& other.loop_mode == self.loop_mode
    }

    /// `post` and `action` are what starting queue entry `idx` from `pre` gives,
    /// the history aside: a new play generation; for a remote entry (with a
    /// server) the now-playing fields show it and it is loading; for a local
    /// entry only the index moves until the file is open.
    pub open spec fn started(
        pre: Self,
        post: Self,
        idx: usize,
        server: Option<JellyfinServer>,
        action: PlayAction,
    ) -> bool {
        &&& post.play_generation == pre.play_generation + 1
        &&& pre.same_settings(post)
        &&& if idx >= pre.queue@.len() {
            &&& action is Nothing
            &&& pre.same_now_playing(post)
        } else {
            let track = pre.queue@[idx as int];
            if is_remote_path(track.path@) {
                match server {
                    None => action is Nothing && pre.same_now_playing(post),
                    Some(srv) => {
                        let id = remote_item_id(track.path@);
                        let token = opt_view(srv.access_token);
                        &&& action matches PlayAction::StreamRemote { stream_url, cover_url, generation, track: t }
                            && stream_url@ == stream_url_spec(srv.url@, id, token)
                            && cover_url@ == playback_cover_url_spec(srv.url@, id, path_segment(track.path@, 2), token)
                            && generation == post.play_generation
                            && t == track
                            && post.current_song_cover_url@ == cover_url@
                        &&& !post.is_playing
                        &&& post.is_loading
                        &&& post.skip_in_progress == pre.skip_in_progress
                        &&& post.current_queue_index == idx
                        &&& post.current_song_title@ == track.title@
                        &&& post.current_song_artist@ == track.artist@
                        &&& post.current_song_album@ == track.album@
                        &&& post.current_song_duration == track.duration
                        &&& post.current_song_progress == 0
                        &&& post.current_song_khz == pre.current_song_khz
                        &&& post.current_song_bitrate == pre.current_song_bitrate
                    },
                }
            } else {
                &&& action matches PlayAction::OpenLocal { track: t, generation }
                    && t == track && generation == post.play_generation
                &&& post.current_queue_index == idx
                &&& post.is_playing == pre.is_playing
                &&& post.is_loading == pre.is_loading
                &&& post.skip_in_progress == pre.skip_in_progress
                &&& post.current_song_title == pre.current_song_title
                &&& post.current_song_artist == pre.current_song_artist
                &&& post.current_song_album == pre.current_song_album
                &&& post.current_song_khz == pre.current_song_khz
                &&& post.current_song_bitrate == pre.current_song_bitrate
                &&& post.current_song_duration == pre.current_song_duration
                &&& post.current_song_progress == pre.current_song_progress
                &&& post.current_song_cover_url == pre.current_song_cover_url
            }
        }
    }

    /// The state before anything was queued.
    pub open spec fn initial(self) -> bool {
        &&& !self.is_playing
        &&& !self.is_loading
        &&& !self.skip_in_progress
        &&& self.history@.len() == 0
        &&& self.queue@.len() == 0
        &&& !self.shuffle
        &&& self.loop_mode == LoopMode::Off
        &&& self.current_queue_index == 0
        &&& self.current_song_title@.len() == 0
        &&& self.current_song_artist@.len() == 0
        &&& self.current_song_album@.len() == 0
        &&& self.current_song_khz == 0
        &&& self.current_song_bitrate == 0
        &&& self.current_song_duration == 0
        &&& self.current_song_progress == 0
        &&& self.current_song_cover_url@.len() == 0
        &&& self.play_generation == 0
    }

    /// Replaces the queue; the current index is kept as it is.
    pub fn set_queue(&mut self, queue: Vec<Track>)
        ensures
            final(self).queue == queue,
            final(self).history == old(self).history,
            final(self).shuffle == old(self).shuffle,
            final(self).loop_mode == old(self).loop_mode,
            final(self).play_generation == old(self).play_generation,
            old(self).same_now_playing(*final(self)),
    {
        self.queue = queue;
    }

    /// Starts queue entry `idx` without recording the current entry in the history.
    pub fn play_track_no_history(&mut self, idx: usize, server: Option<&JellyfinServer>) -> (action: PlayAction)
        requires
            old(self).play_generation < usize::MAX,
        ensures
            Self::started(*old(self), *final(self), idx, match server { Some(s) => Some(*s), None => None }, action),
            final(self).history == old(self).history,
    {
        self.play_generation = self.play_generation + 1;
        let current_gen = self.play_generation;
        if idx >= self.queue.len() {
            return PlayAction::Nothing;
        }
        let track = self.queue[idx].clone();
        if is_remote_track_path(track.path.as_str()) {
            match server {
                None => PlayAction::Nothing,
                Some(srv) => {
                    let parts = path_segments(track.path.as_str());
                    let id = if parts.len() > 1 { parts[1].clone() } else { String::new() };
                    let tag = if parts.len() > 2 { Some(&parts[2]) } else { None };
                    let token = match &srv.access_token { Some(t) => Some(t), None => None };
                    let stream = stream_url(srv.url.as_str(), id.as_str(), token);
                    let cover = playback_cover_url(srv.url.as_str(), id.as_str(), tag, token);
                    self.is_playing = false;
                    self.current_song_title = track.title.clone();
                    self.current_song_artist = track.artist.clone();
                    self.current_song_album = track.album.clone();
                    self.current_song_duration = track.duration;
                    self.current_song_progress = 0;
                    self.current_song_cover_url = cover.clone();
                    self.current_queue_index = idx;
                    self.is_loading = true;
                    PlayAction::StreamRemote { stream_url: stream, cover_url: cover, generation: current_gen, track }
                },
            }
        } else {
            self.current_queue_index = idx;
            PlayAction::OpenLocal { track, generation: current_gen }
        }
    }

    /// Starts queue entry `idx`, recording the current entry in the history
    /// unless it is already the most recent one there.
    pub fn play_track(&mut self, idx: usize, server: Option<&JellyfinServer>) -> (action: PlayAction)
        requires
            old(self).play_generation < usize::MAX,
        ensures
            Self::started(*old(self), *final(self), idx, match server { Some(s) => Some(*s), None => None }, action),
            final(self).history@ == history_after(old(self).history@, old(self).current_queue_index),
    {
        let current_idx = self.current_queue_index;
        let n = self.history.len();
        if n == 0 || self.history[n - 1] != current_idx {
            self.history.push(current_idx);
        }
        self.play_track_no_history(idx, server)
    }

    /// Where "next" goes, given the random draw `r` that shuffle mode uses.
    pub fn next_step(&self, r: usize) -> (step: NextStep)
        requires
            self.shuffle && self.queue@.len() > 1 ==> r < shuffle_bound(self.current_queue_index, self.queue@.len()),
        ensures
            step == next_step_spec(self.current_queue_index, self.queue@.len(), self.loop_mode, self.shuffle, r),
    {
        let idx = self.current_queue_index;
        let len = self.queue.len();
        if len == 0 {
            NextStep::Nothing
        } else if self.loop_mode == LoopMode::Track {
            NextStep::Play(idx)
        } else if self.shuffle && len > 1 {
            let pick = if r < idx { r } else { r + 1 };
            NextStep::Play(pick)
        } else if self.shuffle {
            NextStep::Play(0)
        } else if idx < len - 1 {
            NextStep::Play(idx + 1)
        } else if self.loop_mode == LoopMode::Queue {
            NextStep::Play(0)
        } else {
            NextStep::Stop
        }
    }
    /// `post` and `action` are what playing entry `i` with `play_track` gives.
    pub open spec fn played_entry(pre: Self, post: Self, i: usize, server: Option<JellyfinServer>, action: PlayAction) -> bool {
        &&& Self::started(pre, post, i, server, action)
        &&& post.history@ == history_after(pre.history@, pre.current_queue_index)
    }

    /// What `play_next` may do from `pre`, whatever the random draw was.
    pub open spec fn next_outcome(pre: Self, post: Self, srv: Option<JellyfinServer>, action: PlayAction) -> bool {
        let idx = pre.current_queue_index;
        let len = pre.queue@.len();
        if len == 0 {
            action is Nothing && post == pre
        } else if pre.loop_mode == LoopMode::Track {
            Self::played_entry(pre, post, idx, srv, action)
        } else if pre.shuffle && len > 1 {
            exists|i: usize| #![trigger Self::played_entry(pre, post, i, srv, action)] i < len && i != idx && Self::played_entry(pre, post, i, srv, action)
        } else if pre.shuffle {
            Self::played_entry(pre, post, 0, srv, action)
        } else if idx + 1 < len {
            Self::played_entry(pre, post, (idx + 1) as usize, srv, action)
        } else if pre.loop_mode == LoopMode::Queue {
            Self::played_entry(pre, post, 0, srv, action)
        } else {
            &&& action is Nothing
            &&& !post.is_playing
            &&& pre.same_settings(post)
            &&& post.history == pre.history
            &&& post.play_generation == pre.play_generation
            &&& (PlayerController { is_playing: pre.is_playing, ..post }).same_now_playing(pre)
        }
    }

    /// Skips to the next entry: the same one when looping a track, a random
    /// other one in shuffle mode, else the following one, wrapping around when
    /// looping the queue. At the end of the queue playback stops.
    pub fn play_next(&mut self, server: Option<&JellyfinServer>) -> (action: PlayAction)
        requires
            old(self).play_generation < usize::MAX,
        ensures
            Self::next_outcome(*old(self), *final(self), match server { Some(s) => Some(*s), None => None }, action),
    {
        let len = self.queue.len();
        let idx = self.current_queue_index;
        if len == 0 {
            return PlayAction::Nothing;
        }
        let r = if self.shuffle && len > 1 {
            let bound = if idx < len { len - 1 } else { len };
            random_below(bound)
        } else {
            0
        };
        let step = self.next_step(r);
        match step {
            NextStep::Nothing => {
                assert(false);
                PlayAction::Nothing
            },
            NextStep::Stop => {
                let ghost pre = *self;
                self.is_playing = false;
                assert(!pre.shuffle && !(idx + 1 < len) && pre.loop_mode == LoopMode::Off);
                assert((PlayerController { is_playing: pre.is_playing, ..*self }) == pre);
                PlayAction::Nothing
            },
            NextStep::Play(i) => {
                proof {
                    if self.shuffle && len > 1 && self.loop_mode != LoopMode::Track {
                        lemma_shuffle_pick_other(r, idx, len as nat);
                    }
                }
                let ghost pre = *self;
                let a = self.play_track(i, server);
                proof {
                    let srv = match server { Some(s) => Some(*s), None => None };
                    if pre.shuffle && len > 1 && pre.loop_mode != LoopMode::Track {
                        assert(i < len && i != idx && Self::played_entry(pre, *self, i, srv, a));
                        assert(exists|j: usize| #![trigger Self::played_entry(pre, *self, j, srv, a)]
                            j < len && j != idx && Self::played_entry(pre, *self, j, srv, a));
                    }
                    assert(Self::next_outcome(pre, *self, srv, a)) by {
                        if pre.shuffle && len > 1 && pre.loop_mode != LoopMode::Track {
                            assert(Self::played_entry(pre, *self, i, srv, a));
                        }
                    }
                }
                a
            },
        }
    }

    /// What `play_prev` does from `pre`.
    pub open spec fn prev_outcome(pre: Self, post: Self, srv: Option<JellyfinServer>, action: PlayAction) -> bool {
        match prev_choice(pre.history@, pre.current_queue_index, pre.queue@.len(), pre.loop_mode) {
            None => action is Nothing && post == pre,
            Some(p) => {
                &&& Self::started(pre, post, p, srv, action)
                &&& post.history@ == if pre.history@.len() > 0 { pre.history@.drop_last() } else { pre.history@ }
            },
        }
    }

    /// Goes back: to the most recent history entry (taking it off the history),
    /// else to the entry before the current one, else, when looping the queue,
    /// to the last entry.
    pub fn play_prev(&mut self, server: Option<&JellyfinServer>) -> (action: PlayAction)
        requires
            old(self).play_generation < usize::MAX,
        ensures
            Self::prev_outcome(*old(self), *final(self), match server { Some(s) => Some(*s), None => None }, action),
    {
        let idx = self.current_queue_index;
        let len = self.queue.len();
        if len == 0 {
            return PlayAction::Nothing;
        }
        if self.history.len() > 0 {
            let prev_idx = self.history.pop().unwrap();
            return self.play_track_no_history(prev_idx, server);
        }
        if idx > 0 {
            self.play_track_no_history(idx - 1, server)
        } else if self.loop_mode == LoopMode::Queue {
            self.play_track_no_history(len - 1, server)
        } else {
            PlayAction::Nothing
        }
    }

    /// Turns shuffle mode on or off.
    pub fn toggle_shuffle(&mut self)
        ensures
            *final(self) == (PlayerController { shuffle: !old(self).shuffle, ..*old(self) }),
    {
        self.shuffle = !self.shuffle;
    }

    /// Moves to the next loop mode.
    pub fn toggle_loop(&mut self)
        ensures
            *final(self) == (PlayerController { loop_mode: old(self).loop_mode.following(), ..*old(self) }),
    {
        self.loop_mode = self.loop_mode.next();
    }

    /// Records that playback was paused (the player itself is paused by the caller).
    pub fn pause(&mut self)
        ensures
            *final(self) == (PlayerController { is_playing: false, ..*old(self) }),
    {
        self.is_playing = false;
    }

    /// Records that playback resumed (the player itself is resumed by the caller).
    pub fn resume(&mut self)
        ensures
            *final(self) == (PlayerController { is_playing: true, ..*old(self) }),
    {
        self.is_playing = true;
    }

    /// Pauses when playing, resumes otherwise; returns what the player must do.
    pub fn toggle(&mut self) -> (cmd: PlayerCommand)
        ensures
            cmd == (if old(self).is_playing { PlayerCommand::Pause } else { PlayerCommand::Resume }),
            *final(self) == (PlayerController { is_playing: !old(self).is_playing, ..*old(self) }),
    {
        if self.is_playing {
            self.pause();
            PlayerCommand::Pause
        } else {
            self.resume();
            PlayerCommand::Resume
        }
    }

    /// Records that the local file of `track` opened and is playing, with the
    /// cover URL of its album (empty when it has none).
    pub fn local_started(&mut self, track: &Track, cover_url: String)
        ensures
            final(self).skip_in_progress == false,
            final(self).is_playing == true,
            final(self).current_song_title@ == track.title@,
            final(self).current_song_artist@ == track.artist@,
            final(self).current_song_album@ == track.album@,
            final(self).current_song_khz == track.khz,
            final(self).current_song_bitrate == track.bitrate,
            final(self).current_song_duration == track.duration,
            final(self).current_song_progress == 0,
            final(self).current_song_cover_url == cover_url,
            final(self).is_loading == old(self).is_loading,
            final(self).current_queue_index == old(self).current_queue_index,
            final(self).history == old(self).history,
            final(self).play_generation == old(self).play_generation,
            old(self).same_settings(*final(self)),
    {
        self.skip_in_progress = false;
        self.current_song_title = track.title.clone();
        self.current_song_artist = track.artist.clone();
        self.current_song_album = track.album.clone();
        self.current_song_khz = track.khz;
        self.current_song_bitrate = track.bitrate;
        self.current_song_duration = track.duration;
        self.current_song_progress = 0;
        self.current_song_cover_url = cover_url;
        self.is_playing = true;
    }

    /// A remote stream of play generation `generation` finished decoding: it is
    /// played only if no other entry was started since.
    pub fn remote_ready(&mut self, generation: usize) -> (play: bool)
        ensures
            play == (generation == old(self).play_generation),
            play ==> *final(self) == (PlayerController {
                is_loading: false,
                is_playing: true,
                skip_in_progress: false,
                ..*old(self)
            }),
            !play ==> *final(self) == *old(self),
    {
        if generation == self.play_generation {
            self.is_loading = false;
            self.is_playing = true;
            self.skip_in_progress = false;
            true
        } else {
            false
        }
    }

    /// A remote stream could not be decoded.
    pub fn remote_failed(&mut self)
        ensures
            *final(self) == (PlayerController { is_loading: false, skip_in_progress: false, ..*old(self) }),
    {
        self.is_loading = false;
        self.skip_in_progress = false;
    }

    /// Whether a listen submitted for play generation `generation` still
    /// concerns the entry that is playing.
    pub fn is_current_generation(&self, generation: usize) -> (r: bool)
        ensures
            r == (generation == self.play_generation),
    {
        generation == self.play_generation
    }
}

/// The controller before anything was queued.
pub fn use_player_controller() -> (c: PlayerController)
    ensures
        c.initial(),
{
    PlayerController {
        is_playing: false,
        is_loading: false,
        skip_in_progress: false,
        history: Vec::new(),
        queue: Vec::new(),
        shuffle: false,
        loop_mode: LoopMode::Off,
        current_queue_index: 0,
        current_song_title: String::new(),
        current_song_artist: String::new(),
        current_song_album: String::new(),
        current_song_khz: 0,
        current_song_bitrate: 0,
        current_song_duration: 0,
        current_song_progress: 0,
        current_song_cover_url: String::new(),
        play_generation: 0,
    }
}

/// A uniformly drawn index below `bound`.
///
/// Trusted wrapper around `rand::Rng::gen_range(0..bound)` on the thread-local
/// generator, which returns a value of the half-open range and panics on an
/// empty one. Which value comes back is left open: it depends on chance.
#[verifier::external_body]
fn random_below(bound: usize) -> (r: usize)
    requires
        bound > 0,
    ensures
        r < bound,
{
    rand::thread_rng().gen_range(0..bound)
}

/// The time after which a track counts as listened to.
pub fn scrobble_threshold_secs(duration: u64) -> (r: u64)
    ensures
        r == scrobble_threshold_spec(duration),
{
    let half = duration / 2;
    if half < 240 { half } else { 240 }
}

/// The Authorization header sent with listens; `None` when no token is set.
pub fn listen_auth_header(token: &str) -> (r: Option<String>)
    ensures
        match r {
            Some(h) => listen_auth_spec(token@) == Some(h@),
            None => listen_auth_spec(token@).is_none(),
        },
{
    if token.unicode_len() == 0 {
        None
    } else if contains_char(token, ' ') {
        Some(token.to_owned())
    } else {
        Some(concat2("Token ", token))
    }
}

/// Shuffle draws land on an entry of the queue other than the current one.
pub proof fn lemma_shuffle_pick_other(r: usize, idx: usize, len: nat)
    requires
        len > 1,
        len <= usize::MAX,
        r < shuffle_bound(idx, len),
    ensures
        shuffle_pick(r, idx) < len,
        shuffle_pick(r, idx) != idx,
{
}

/// Every entry other than the current one is the pick of exactly one draw, so a
/// uniform draw makes every other entry equally likely.
pub proof fn lemma_shuffle_pick_bijective(idx: usize, len: nat, j: usize)
    requires
        len > 1,
        len <= usize::MAX,
        j < len,
        j != idx,
    ensures
        exists|r: usize| r < shuffle_bound(idx, len) && shuffle_pick(r, idx) == j,
        forall|r1: usize, r2: usize|
            r1 < shuffle_bound(idx, len) && r2 < shuffle_bound(idx, len)
                && shuffle_pick(r1, idx) == shuffle_pick(r2, idx) ==> r1 == r2,
{
    let r: usize = if j < idx { j } else { (j - 1) as usize };
    assert(r < shuffle_bound(idx, len) && shuffle_pick(r, idx) == j);
}

/// The loop mode toggle cycles through all three modes and back.
pub proof fn lemma_loop_mode_cycle(m: LoopMode)
    ensures
        m.following() != m,
        m.following().following() != m,
        m.following().following().following() == m,
{
}

/// After playing an entry with `play_track`, "previous" returns to the entry
/// that was current before, whatever entry is current now.
pub proof fn lemma_previous_returns(h: Seq<usize>, left: usize, now: usize, len: nat, mode: LoopMode)
    requires
        len > 0,
    ensures
        prev_choice(history_after(h, left), now, len, mode) == Some(left),
{
}

/// Toggling shuffle twice gives back the state it started from.
pub proof fn lemma_shuffle_toggle_involutive(s: PlayerController)
    ensures
        (PlayerController { shuffle: !(PlayerController { shuffle: !s.shuffle, ..s }).shuffle, ..(PlayerController { shuffle: !s.shuffle, ..s }) }) == s,
{
}

} // verus!
