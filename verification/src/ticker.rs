use vstd::prelude::*;
use crate::config::JellyfinServer;
use crate::controller::{PlayAction, PlayerCommand, PlayerController};
use crate::media::{is_remote_path, is_remote_track_path, opt_view, path_segment, path_segments};
use crate::text::{str_eq, to_string_of};
use crate::keyed::StrMap;

verus! {

/// A command that reaches the player from outside its window (media keys,
/// system media controls, the end of a track).
#[derive(Debug, Clone, Copy, PartialEq, Eq, Structural)]
pub enum BgCmd {
    Play,
    Pause,
    Toggle,
    Next,
    Prev,
}

/// What a command asks of the application.
#[derive(Debug)]
pub enum CommandEffect {
    /// Pause or resume the player.
    Player(PlayerCommand),
    /// Start what the controller chose.
    Start(PlayAction),
}

/// What the periodic task remembers from one tick to the next.
#[derive(Debug)]
pub struct TickState {
    pub last_progress_secs: u64,
    pub prev_playing: bool,
    pub last_jellyfin_id: Option<String>,
}

/// What the application observed for this tick.
#[derive(Debug, Clone, Copy)]
pub struct TickInput {
    /// Position of the player, in microseconds.
    pub pos_micros: u64,
    /// Seconds since the server was last pinged.
    pub secs_since_ping: u64,
    /// Seconds since the position was last reported to the server.
    pub secs_since_progress_report: u64,
    /// Whether the player has run out of the current local track.
    pub player_empty: bool,
    /// Whether a Jellyfin server is configured.
    pub server_active: bool,
}

/// What the application must do after a tick.
#[derive(Debug)]
pub struct TickOutput {
    /// Ping the server (and restart the ping clock).
    pub ping: bool,
    /// Report that this item stopped at these ticks.
    pub report_stopped: Option<(String, u64)>,
    /// Report that this item started.
    pub report_start: Option<String>,
    /// Report the position (ticks, paused) of this item (and restart the progress clock).
    pub report_progress: Option<(String, u64, bool)>,
    /// Count one listen of the track with this path.
    pub listen_played: Option<String>,
    /// The track ended: start what the controller chose next.
    pub next: Option<PlayAction>,
}

/// The state of the periodic task before the first tick.
pub fn initial_tick_state() -> (s: TickState)
    ensures
        s.last_progress_secs == u64::MAX,
        !s.prev_playing,
        s.last_jellyfin_id is None,
{
    TickState { last_progress_secs: u64::MAX, prev_playing: false, last_jellyfin_id: None }
}

/// The Jellyfin item id of the queue entry that is current, if it is a remote one.
pub open spec fn current_remote_id(c: PlayerController) -> Option<Seq<char>> {
    let idx = c.current_queue_index;
    if idx < c.queue@.len() && is_remote_path(c.queue@[idx as int].path@) {
        path_segment(c.queue@[idx as int].path@, 1)
    } else {
        None
    }
}

/// Server position ticks (100 ns) of a position in microseconds.
pub open spec fn ticks_of(pos_micros: u64) -> u64 {
    (pos_micros * 10) as u64
}

/// Whether the current track is over and the next one is due.
pub open spec fn track_over(c: PlayerController, input: TickInput) -> bool {
    let idx = c.current_queue_index;
    let duration = c.current_song_duration;
    let secs = input.pos_micros / 1_000_000;
    let remote = idx < c.queue@.len() && is_remote_path(c.queue@[idx as int].path@);
    if remote {
        duration > 0 && secs >= duration
    } else {
        input.player_empty || (duration > 0 && secs >= duration)
    }
}

/// The playing position the views show: the player's, capped at the track length.
pub open spec fn shown_progress(c: PlayerController, input: TickInput) -> u64 {
    let secs = (input.pos_micros / 1_000_000) as u64;
    if secs < c.current_song_duration { secs } else { c.current_song_duration }
}

/// Runs a command against the controller.
pub fn handle_command(ctrl: &mut PlayerController, cmd: BgCmd, server: Option<&JellyfinServer>) -> (e: CommandEffect)
    requires
        old(ctrl).play_generation < usize::MAX,
    ensures
        ({
            let pre = *old(ctrl);
            let post = *final(ctrl);
            let srv = match server { Some(s) => Some(*s), None => None };
            match cmd {
                BgCmd::Play => e == CommandEffect::Player(PlayerCommand::Resume)
                    && post == (PlayerController { is_playing: true, ..pre }),
                BgCmd::Pause => e == CommandEffect::Player(PlayerCommand::Pause)
                    && post == (PlayerController { is_playing: false, ..pre }),
                BgCmd::Toggle => e == CommandEffect::Player(
                    if pre.is_playing { PlayerCommand::Pause } else { PlayerCommand::Resume })
                    && post == (PlayerController { is_playing: !pre.is_playing, ..pre }),
                BgCmd::Next => e matches CommandEffect::Start(a) && PlayerController::next_outcome(pre, post, srv, a),
                BgCmd::Prev => e matches CommandEffect::Start(a) && PlayerController::prev_outcome(pre, post, srv, a),
            }
        }),
{
    match cmd {
        BgCmd::Play => {
            ctrl.resume();
            CommandEffect::Player(PlayerCommand::Resume)
        },
        BgCmd::Pause => {
            ctrl.pause();
            CommandEffect::Player(PlayerCommand::Pause)
        },
        BgCmd::Toggle => CommandEffect::Player(ctrl.toggle()),
        BgCmd::Next => CommandEffect::Start(ctrl.play_next(server)),
        BgCmd::Prev => CommandEffect::Start(ctrl.play_prev(server)),
    }
}

fn current_remote_item(ctrl: &PlayerController) -> (r: Option<String>)
    ensures
        opt_view(r) == current_remote_id(*ctrl),
{
    let idx = ctrl.current_queue_index;
    if idx < ctrl.queue.len() && is_remote_track_path(ctrl.queue[idx].path.as_str()) {
        let parts = path_segments(ctrl.queue[idx].path.as_str());
        if parts.len() > 1 {
            Some(parts[1].clone())
        } else {
            None
        }
    } else {
        None
    }
}

/// One tick of the periodic playback task: keeps the server informed of what
/// plays, moves the shown position, and moves on when the track is over.
pub fn tick(
    state: &mut TickState,
    ctrl: &mut PlayerController,
    input: TickInput,
    server: Option<&JellyfinServer>,
) -> (out: TickOutput)
    requires
        old(ctrl).play_generation < usize::MAX,
        input.pos_micros <= u64::MAX / 10,
    ensures
        ({
            let pre = *old(ctrl);
            let post = *final(ctrl);
            let s0 = *old(state);
            let s1 = *final(state);
            let playing = pre.is_playing;
            let ticks = ticks_of(input.pos_micros);
            let cur = current_remote_id(pre);
            let srv = match server { Some(s) => Some(*s), None => None };
            &&& out.ping == (input.server_active && input.secs_since_ping >= 30)
            &&& s1.prev_playing == playing
            // reporting to the server
            &&& if !input.server_active {
                &&& out.report_stopped is None
                &&& out.report_start is None
                &&& out.report_progress is None
                &&& s1.last_jellyfin_id == s0.last_jellyfin_id
            } else {
                match cur {
                    Some(c) => {
                        let changed = opt_view(s0.last_jellyfin_id) != Some(c);
                        &&& opt_view(s1.last_jellyfin_id) == Some(c)
                        &&& if changed {
                            &&& (match s0.last_jellyfin_id {
                                Some(old_id) => out.report_stopped matches Some(p) && p.0@ == old_id@ && p.1 == ticks,
                                None => out.report_stopped is None,
                            })
                            &&& out.report_start matches Some(st) && st@ == c
                        } else {
                            &&& out.report_stopped is None
                            &&& out.report_start is None
                        }
                        &&& if input.secs_since_progress_report >= 5 || playing != s0.prev_playing {
                            out.report_progress matches Some(p) && p.0@ == c && p.1 == ticks && p.2 == !playing
                        } else {
                            out.report_progress is None
                        }
                    },
                    None => {
                        &&& (match s0.last_jellyfin_id {
                            Some(old_id) => out.report_stopped matches Some(p) && p.0@ == old_id@ && p.1 == ticks,
                            None => out.report_stopped is None,
                        })
                        &&& s1.last_jellyfin_id is None
                        &&& out.report_start is None
                        &&& out.report_progress is None
                    },
                }
            }
            // position and moving on
            &&& if !playing {
                &&& post == pre
                &&& s1.last_progress_secs == s0.last_progress_secs
                &&& out.listen_played is None
                &&& out.next is None
            } else {
                let shown = shown_progress(pre, input);
                let moved = if shown != s0.last_progress_secs {
                    PlayerController { current_song_progress: shown, ..pre }
                } else {
                    pre
                };
                &&& s1.last_progress_secs == (if shown != s0.last_progress_secs { shown } else { s0.last_progress_secs })
                &&& if track_over(pre, input) && !pre.is_loading && !pre.skip_in_progress {
                    let flagged = PlayerController { skip_in_progress: true, ..moved };
                    &&& (match out.listen_played {
                        Some(p) => pre.current_queue_index < pre.queue@.len()
                            && p@ == pre.queue@[pre.current_queue_index as int].path@,
                        None => pre.current_queue_index >= pre.queue@.len(),
                    })
                    &&& out.next matches Some(a) && PlayerController::next_outcome(flagged, post, srv, a)
                } else {
                    &&& post == moved
                    &&& out.listen_played is None
                    &&& out.next is None
                }
            }
        }),
{
    let playing = ctrl.is_playing;
    let ticks = input.pos_micros * 10;
    let ping = input.server_active && input.secs_since_ping >= 30;
    let mut report_stopped: Option<(String, u64)> = None;
    let mut report_start: Option<String> = None;
    let mut report_progress: Option<(String, u64, bool)> = None;

    if input.server_active {
        match current_remote_item(ctrl) {
            Some(current_id) => {
                let same = match &state.last_jellyfin_id {
                    Some(last) => str_eq(last.as_str(), current_id.as_str()),
                    None => false,
                };
                if !same {
                    match state.last_jellyfin_id.take() {
                        Some(old_id) => {
                            report_stopped = Some((old_id, ticks));
                        },
                        None => {},
                    }
                    report_start = Some(current_id.clone());
                    state.last_jellyfin_id = Some(current_id.clone());
                }
                if input.secs_since_progress_report >= 5 || playing != state.prev_playing {
                    report_progress = Some((current_id, ticks, !playing));
                }
            },
            None => {
                match state.last_jellyfin_id.take() {
                    Some(old_id) => {
                        report_stopped = Some((old_id, ticks));
                    },
                    None => {},
                }
            },
        }
    }

    let mut listen_played: Option<String> = None;
    let mut next: Option<PlayAction> = None;
    if playing {
        let duration = ctrl.current_song_duration;
        let secs = input.pos_micros / 1_000_000;
        let shown = if secs < duration { secs } else { duration };
        if shown != state.last_progress_secs {
            state.last_progress_secs = shown;
            ctrl.current_song_progress = shown;
        }
        let idx = ctrl.current_queue_index;
        let remote = idx < ctrl.queue.len() && is_remote_track_path(ctrl.queue[idx].path.as_str());
        let over = if remote {
            duration > 0 && secs >= duration
        } else {
            input.player_empty || (duration > 0 && secs >= duration)
        };
        if over && !ctrl.is_loading && !ctrl.skip_in_progress {
            ctrl.skip_in_progress = true;
            if idx < ctrl.queue.len() {
                listen_played = Some(ctrl.queue[idx].path.clone());
            }
            next = Some(ctrl.play_next(server));
        }
    }
    state.prev_playing = playing;
    TickOutput { ping, report_stopped, report_start, report_progress, listen_played, next }
}

/// The listen count of `path` after one more listen: one more than before, or
/// one for a track never counted.
pub open spec fn counted(counts: Map<Seq<char>, u64>, path: Seq<char>) -> u64 {
    if counts.dom().contains(path) { (counts[path] + 1) as u64 } else { 1 }
}

/// Counts one listen of the track at `path`.
pub fn count_listen(counts: &mut StrMap<u64>, path: &str)
    requires
        old(counts)@.dom().contains(path@) ==> old(counts)@[path@] < u64::MAX,
    ensures
        final(counts)@ == old(counts)@.insert(path@, counted(old(counts)@, path@)),
{
    let n: u64 = match counts.get(path) {
        Some(c) => *c + 1,
        None => 1,
    };
    counts.insert(to_string_of(path), n);
}


} // verus!
