use vstd::prelude::*;

verus! {

/// The sample for output channel `c` of frame `f` when converting from `src`
/// to more or fewer channels: the same channel when the source has it, the
/// single channel of a mono source, silence otherwise.
pub open spec fn converted_sample<T>(samples: Seq<T>, src: nat, f: int, c: int, silence: T) -> T {
    if c < src {
        samples[f * src + c]
    } else if src == 1 {
        samples[f * src]
    } else {
        silence
    }
}

proof fn lemma_frame_index(f: int, c: int, n: int, frames: int)
    requires
        0 <= f < frames,
        0 <= c < n,
    ensures
        0 <= f * n + c < frames * n,
        f * n + c == f * n + c,
{
    assert(f * n + c < frames * n) by (nonlinear_arith)
        requires
            0 <= f < frames,
            0 <= c < n,
    ;
    assert(0 <= f * n) by (nonlinear_arith)
        requires
            0 <= f,
            0 <= n,
    ;
}

proof fn lemma_split_index(i: int, d: int, frames: int)
    requires
        0 <= i < frames * d,
        0 <= frames,
        0 <= d,
    ensures
        d > 0,
        0 <= i / d < frames,
        0 <= i % d < d,
        i == (i / d) * d + i % d,
{
    assert(d > 0) by (nonlinear_arith)
        requires
            0 <= i < frames * d,
            0 <= d,
    ;
    vstd::arithmetic::div_mod::lemma_fundamental_div_mod(i, d);
    vstd::arithmetic::div_mod::lemma_mod_bound(i, d);
    assert(i == (i / d) * d + i % d) by (nonlinear_arith)
        requires
            i == d * (i / d) + i % d,
    ;
    assert(i / d < frames) by (nonlinear_arith)
        requires
            0 <= i < frames * d,
            d > 0,
            i == (i / d) * d + i % d,
            0 <= i % d < d,
    ;
    assert(0 <= i / d) by (nonlinear_arith)
        requires
            0 <= i,
            d > 0,
            i == (i / d) * d + i % d,
            0 <= i % d < d,
    ;
}

/// Interleaved samples converted from `src_channels` to `dst_channels` per
/// frame (trailing samples that do not fill a frame are dropped).
pub fn convert_channels<T: Copy>(samples: &[T], src_channels: usize, dst_channels: usize, silence: T) -> (out: Vec<T>)
    requires
        src_channels > 0,
        (samples@.len() as int / src_channels as int) * dst_channels <= usize::MAX,
    ensures
        out@.len() == (samples@.len() as int / src_channels as int) * dst_channels,
        forall|f: int, c: int|
            0 <= f < samples@.len() as int / src_channels as int && 0 <= c < dst_channels ==>
                out@[f * dst_channels + c] == converted_sample(samples@, src_channels as nat, f, c, silence),
        forall|i: int| 0 <= i < out@.len() && i % (dst_channels as int) < src_channels ==>
            #[trigger] out@[i] == samples@[(i / (dst_channels as int)) * src_channels + i % (dst_channels as int)],
        src_channels == 1 ==> out@.len() == samples@.len() * dst_channels,
        src_channels == 1 ==> forall|i: int| 0 <= i < out@.len() ==>
            #[trigger] out@[i] == samples@[i / (dst_channels as int)],
        src_channels > 1 ==> forall|i: int| 0 <= i < out@.len() && i % (dst_channels as int) >= src_channels ==>
            #[trigger] out@[i] == silence,
{
    let n = samples.len();
    let frames = n / src_channels;
    let mut out: Vec<T> = Vec::new();
    let mut frame: usize = 0;
    proof {
        assert(frames * src_channels <= samples@.len()) by (nonlinear_arith)
            requires
                frames == samples@.len() as int / src_channels as int,
                src_channels > 0,
        ;
    }
    while frame < frames
        invariant
            frames == samples@.len() as int / src_channels as int,
            frames * src_channels <= samples@.len(),
            frames * dst_channels <= usize::MAX,
            n == samples@.len(),
            src_channels > 0,
            frame <= frames,
            out@.len() == frame * dst_channels,
            forall|f: int, c: int|
                0 <= f < frame && 0 <= c < dst_channels ==>
                    out@[f * dst_channels + c] == converted_sample(samples@, src_channels as nat, f, c, silence),
        decreases frames - frame,
    {
        proof {
            assert(frame * src_channels + src_channels <= frames * src_channels) by (nonlinear_arith)
                requires
                    frame < frames,
            ;
            assert(frame * dst_channels + dst_channels <= frames * dst_channels) by (nonlinear_arith)
                requires
                    frame < frames,
            ;
        }
        let src_offset = frame * src_channels;
        let mut ch: usize = 0;
        while ch < dst_channels
            invariant
                frames == samples@.len() as int / src_channels as int,
                frames * src_channels <= samples@.len(),
                frames * dst_channels <= usize::MAX,
                n == samples@.len(),
                src_channels > 0,
                frame < frames,
                src_offset == frame * src_channels,
                src_offset + src_channels <= samples@.len(),
                frame * dst_channels + dst_channels <= usize::MAX,
                ch <= dst_channels,
                out@.len() == frame * dst_channels + ch,
                forall|f: int, c: int|
                    0 <= f < frame && 0 <= c < dst_channels ==>
                        out@[f * dst_channels + c] == converted_sample(samples@, src_channels as nat, f, c, silence),
                forall|c: int|
                    0 <= c < ch ==>
                        out@[frame * dst_channels + c] == converted_sample(samples@, src_channels as nat, frame as int, c, silence),
            decreases dst_channels - ch,
        {
            let v = if ch < src_channels {
                samples[src_offset + ch]
            } else if src_channels == 1 {
                samples[src_offset]
            } else {
                silence
            };
            let ghost before = out@;
            out.push(v);
            proof {
                assert forall|f: int, c: int|
                    0 <= f < frame && 0 <= c < dst_channels implies
                        out@[f * dst_channels + c] == converted_sample(samples@, src_channels as nat, f, c, silence) by {
                    lemma_frame_index(f, c, dst_channels as int, frame as int);
                    assert(out@[f * dst_channels + c] == before[f * dst_channels + c]);
                }
                assert forall|c: int|
                    0 <= c < ch + 1 implies
                        out@[frame * dst_channels + c] == converted_sample(samples@, src_channels as nat, frame as int, c, silence) by {
                    if c < ch {
                        assert(out@[frame * dst_channels + c] == before[frame * dst_channels + c]);
                    }
                }
            }
            ch = ch + 1;
        }
        proof {
            assert((frame + 1) * dst_channels == frame * dst_channels + dst_channels) by (nonlinear_arith);
            assert forall|f: int, c: int|
                0 <= f < frame + 1 && 0 <= c < dst_channels implies
                    out@[f * dst_channels + c] == converted_sample(samples@, src_channels as nat, f, c, silence) by {
                if f == frame {
                } else {
                }
            }
        }
        frame = frame + 1;
    }
    proof {
        let frames_int = samples@.len() as int / src_channels as int;
        let d = dst_channels as int;
        let sc = src_channels as int;
        assert forall|i: int| 0 <= i < out@.len() && i % d < sc implies
            #[trigger] out@[i] == samples@[(i / d) * sc + i % d] by {
            lemma_split_index(i, d, frames_int);
            assert(converted_sample(samples@, src_channels as nat, i / d, i % d, silence) == out@[(i / d) * d + i % d]);
        }
        if src_channels > 1 {
            assert forall|i: int| 0 <= i < out@.len() && i % d >= sc implies #[trigger] out@[i] == silence by {
                lemma_split_index(i, d, frames_int);
                assert(converted_sample(samples@, src_channels as nat, i / d, i % d, silence) == out@[(i / d) * d + i % d]);
            }
        }
        if src_channels == 1 {
            assert(samples@.len() as int / 1 == samples@.len());
            assert forall|i: int| 0 <= i < out@.len() implies #[trigger] out@[i] == samples@[i / d] by {
                lemma_split_index(i, d, frames_int);
                assert(converted_sample(samples@, src_channels as nat, i / d, i % d, silence) == out@[(i / d) * d + i % d]);
                assert((i / d) * sc == i / d);
            }
        }
    }
    out
}

/// Position reported to the views: the player's, but never past the length of
/// the track that is playing (when that length is known and not zero).
pub open spec fn position_spec(raw_micros: u128, track_micros: Option<u128>) -> u128 {
    match track_micros {
        Some(d) => if d > 0 && raw_micros > d { d } else { raw_micros },
        None => raw_micros,
    }
}

/// The playing position in microseconds (see `position_spec`).
pub fn playback_position(raw_micros: u128, track_micros: Option<u128>) -> (r: u128)
    ensures
        r == position_spec(raw_micros, track_micros),
{
    match track_micros {
        Some(d) => if d > 0 && raw_micros > d { d } else { raw_micros },
        None => raw_micros,
    }
}

/// How far playback moves, in microseconds, when the output consumed `read`
/// interleaved samples of `channels` channels at `sample_rate` frames per second.
pub fn position_advance_micros(read: usize, channels: usize, sample_rate: u32) -> (r: u64)
    requires
        channels > 0,
        sample_rate > 0,
        read * 1_000_000 <= u64::MAX,
        channels * sample_rate <= u64::MAX,
    ensures
        r == (read * 1_000_000) / (channels * sample_rate),
{
    let num = read as u64 * 1_000_000;
    let den = channels as u64 * sample_rate as u64;
    proof {
        assert(den > 0) by (nonlinear_arith)
            requires
                den == channels * sample_rate,
                channels > 0,
                sample_rate > 0,
        ;
    }
    num / den
}

/// Samples the ring buffer between decoder and output holds: two seconds of audio.
pub fn ring_buffer_len(sample_rate: u32, channels: usize) -> (r: usize)
    requires
        sample_rate * channels * 2 <= usize::MAX,
    ensures
        r == sample_rate * channels * 2,
{
    sample_rate as usize * channels * 2
}

/// Flags shared between the player, its output stream and its decoder.
#[derive(Debug, Clone, Copy, PartialEq, Eq, Structural)]
pub struct PlaybackFlags {
    pub paused: bool,
    pub stopped: bool,
    pub finished: bool,
}

/// What the decoder does after looking at the flags.
#[derive(Debug, Clone, Copy, PartialEq, Eq, Structural)]
pub enum DecoderStep {
    /// Playback was stopped: the decoder ends (and the track counts as finished).
    Stop,
    /// Playback is paused: wait and look again.
    Wait,
    /// Decode the next packet.
    Proceed,
}

impl PlaybackFlags {
    /// The flags of a track that just started.
    pub fn new() -> (f: Self)
        ensures
            !f.paused && !f.stopped && !f.finished,
    {
        PlaybackFlags { paused: false, stopped: false, finished: false }
    }

    /// Pauses; returns whether this changed anything (the system's
    /// now-playing display is refreshed only then).
    pub fn pause(&mut self) -> (changed: bool)
        ensures
            changed == !old(self).paused,
            *final(self) == (PlaybackFlags { paused: true, ..*old(self) }),
    {
        if !self.paused {
            self.paused = true;
            true
        } else {
            false
        }
    }

    /// Resumes; returns whether this changed anything.
    pub fn resume(&mut self) -> (changed: bool)
        ensures
            changed == old(self).paused,
            *final(self) == (PlaybackFlags { paused: false, ..*old(self) }),
    {
        if self.paused {
            self.paused = false;
            true
        } else {
            false
        }
    }

    /// Stops the track (a stopped track is never paused).
    pub fn stop(&mut self)
        ensures
            *final(self) == (PlaybackFlags { stopped: true, paused: false, ..*old(self) }),
    {
        self.stopped = true;
        self.paused = false;
    }

    /// The decoder reached the end of the track, or could not go on.
    pub fn finish(&mut self)
        ensures
            *final(self) == (PlaybackFlags { finished: true, ..*old(self) }),
    {
        self.finished = true;
    }

    /// Whether the player has nothing left to play.
    pub fn is_empty(&self) -> (r: bool)
        ensures
            r == self.finished,
    {
        self.finished
    }

    /// What the decoder does next; a stop marks the track finished.
    pub fn decoder_step(&mut self) -> (s: DecoderStep)
        ensures
            s == (if old(self).stopped { DecoderStep::Stop } else if old(self).paused { DecoderStep::Wait } else { DecoderStep::Proceed }),
            *final(self) == if old(self).stopped { PlaybackFlags { finished: true, ..*old(self) } } else { *old(self) },
    {
        if self.stopped {
            self.finished = true;
            DecoderStep::Stop
        } else if self.paused {
            DecoderStep::Wait
        } else {
            DecoderStep::Proceed
        }
    }
}

/// What reading the next packet of a track gave.
#[derive(Debug, Clone, Copy, PartialEq, Eq, Structural)]
pub enum ReadEvent {
    /// A packet, of the track being played or of another one.
    Packet { for_track: bool },
    /// The stream ended.
    EndOfStream,
    /// The reader must be reset before going on.
    ResetRequired,
    /// Any other read error.
    Failed,
}

/// What the decoder does after a read.
#[derive(Debug, Clone, Copy, PartialEq, Eq, Structural)]
pub enum ReadStep {
    Decode,
    Skip,
    Reset,
    /// The track is over (it ended, or cannot be read on).
    Finish,
}

/// The decoder's answer to a read: decode a packet of the track, skip one of
/// another track, reset when asked, and end the track at the end of the
/// stream or on any other error.
pub fn after_read(e: ReadEvent) -> (s: ReadStep)
    ensures
        s == match e {
            ReadEvent::Packet { for_track } => if for_track { ReadStep::Decode } else { ReadStep::Skip },
            ReadEvent::EndOfStream => ReadStep::Finish,
            ReadEvent::ResetRequired => ReadStep::Reset,
            ReadEvent::Failed => ReadStep::Finish,
        },
{
    match e {
        ReadEvent::Packet { for_track } => if for_track { ReadStep::Decode } else { ReadStep::Skip },
        ReadEvent::EndOfStream => ReadStep::Finish,
        ReadEvent::ResetRequired => ReadStep::Reset,
        ReadEvent::Failed => ReadStep::Finish,
    }
}

/// What decoding a packet gave.
#[derive(Debug, Clone, Copy, PartialEq, Eq, Structural)]
pub enum DecodeEvent {
    Decoded,
    /// The packet was malformed.
    BadPacket,
    /// Any other decoder error.
    Failed,
}

/// What the decoder does after decoding a packet.
#[derive(Debug, Clone, Copy, PartialEq, Eq, Structural)]
pub enum DecodeStep {
    /// Send the samples to the output.
    Play,
    Skip,
    Finish,
}

/// The decoder's answer to a decoded packet: play it, skip a malformed one,
/// end the track on any other error.
pub fn after_decode(e: DecodeEvent) -> (s: DecodeStep)
    ensures
        s == match e {
            DecodeEvent::Decoded => DecodeStep::Play,
            DecodeEvent::BadPacket => DecodeStep::Skip,
            DecodeEvent::Failed => DecodeStep::Finish,
        },
{
    match e {
        DecodeEvent::Decoded => DecodeStep::Play,
        DecodeEvent::BadPacket => DecodeStep::Skip,
        DecodeEvent::Failed => DecodeStep::Finish,
    }
}

} // verus!
