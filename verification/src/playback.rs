//! The playback loop of one track: control requests, seeking with fades around
//! it, progress reports and the end of the track.

use crate::player_state::{Controls, PlayerControls, PlayerState, RetryReason};
use vstd::prelude::*;

verus! {

/// How often the position is reported.
pub const PROGRESS_NOTIFY_INTERVAL_MS: u64 = 150;

/// The position of a count of interleaved samples.
pub open spec fn position_ms(samples: int, rate: int, channels: int) -> int {
    (samples * 1000) / (rate * channels)
}

/// The position of `samples` interleaved samples, in milliseconds.
pub fn current_position_ms(samples: u64, output_sample_rate: usize, channels: usize) -> (r: u64)
    requires
        0 < output_sample_rate * channels <= u64::MAX,
        samples * 1000 <= u64::MAX,
    ensures
        r == position_ms(samples as int, output_sample_rate as int, channels as int),
{
    (samples * 1000) / (output_sample_rate as u64 * channels as u64)
}

/// The interleaved samples up to a position.
pub open spec fn samples_at(ms: int, rate: int, channels: int) -> int {
    (ms * rate * channels) / 1000
}

/// The interleaved samples before a start position: whole frames of it.
pub open spec fn start_samples_spec(start_ms: int, rate: int, channels: int) -> int {
    (start_ms * rate) / 1000 * channels
}

/// The count of samples that a track starts with at `start_ms`.
pub fn start_samples(start_ms: u64, output_sample_rate: usize, channels: usize) -> (r: u64)
    requires
        start_ms * output_sample_rate <= u64::MAX,
        start_samples_spec(start_ms as int, output_sample_rate as int, channels as int) <= u64::MAX,
    ensures
        r == start_samples_spec(start_ms as int, output_sample_rate as int, channels as int),
{
    (start_ms * output_sample_rate as u64) / 1000 * channels as u64
}

/// The frames that a fade of `ms` takes.
pub open spec fn fade_frames(rate: int, ms: int) -> int {
    let product = if rate * ms > usize::MAX {
        usize::MAX as int
    } else {
        rate * ms
    };
    if product / 1000 < 1 {
        1
    } else {
        product / 1000
    }
}

/// The frames of a fade, where none of zero length is wanted.
pub fn fade_in_total_resume(rate: usize, ms: u32) -> (r: usize)
    ensures
        r == fade_frames(rate as int, ms as int),
        r >= 1,
{
    assert(rate * ms <= u64::MAX * u32::MAX) by (nonlinear_arith)
        requires
            0 <= rate <= u64::MAX,
            0 <= ms <= u32::MAX,
    ;
    assert(0 <= rate * ms) by (nonlinear_arith)
        requires
            rate >= 0,
            ms >= 0,
    ;
    let product: u128 = rate as u128 * ms as u128;
    let product: usize = if product > usize::MAX as u128 {
        usize::MAX
    } else {
        product as usize
    };
    if product / 1000 < 1 {
        1
    } else {
        product / 1000
    }
}

/// The frames of the short fades; zero milliseconds switch them off.
pub fn fade_in_total_short(rate: usize, ms: u32) -> (r: usize)
    ensures
        r == (if ms == 0 {
            0
        } else {
            fade_frames(rate as int, ms as int)
        }),
{
    if ms == 0 {
        0
    } else {
        fade_in_total_resume(rate, ms)
    }
}

/// The fade at the end of a track: the first frame and the number of frames.
pub open spec fn end_fade_spec(valid_frames: int, short_total: int) -> (int, int) {
    let total = if short_total < valid_frames {
        short_total
    } else {
        valid_frames
    };
    (valid_frames - total, total)
}

/// The fade at the end of a track of which `valid_frames` are left.
pub fn end_fade(valid_frames: usize, short_total: usize) -> (r: (usize, usize))
    ensures
        (r.0 as int, r.1 as int) == end_fade_spec(valid_frames as int, short_total as int),
        r.0 + r.1 == valid_frames,
{
    let total: usize = if short_total < valid_frames {
        short_total
    } else {
        valid_frames
    };
    (valid_frames - total, total)
}

/// How long to wait at the end for the device to play what it still holds.
pub open spec fn drain_ms_spec(padding: int, rate: int) -> int {
    if padding == 0 || rate == 0 {
        0
    } else if padding * 1000 / rate + 10 > 500 {
        500
    } else {
        padding * 1000 / rate + 10
    }
}

/// How long to wait at the end, in milliseconds. `padding` is the number of
/// frames that the device still holds.
pub fn drain_ms(padding: u32, rate: usize) -> (r: u32)
    ensures
        r == drain_ms_spec(padding as int, rate as int),
{
    if padding == 0 || rate == 0 {
        return 0;
    }
    let ms: u64 = (padding as u64 * 1000 / rate as u64).saturating_add(10);
    if ms > 500 {
        500
    } else {
        ms as u32
    }
}

/// The frames that a block has room for: all of a buffer that the player has for itself,
/// and of a shared one what is not waiting to be played.
pub open spec fn block_room(exclusive: bool, buffer_size: int, padding: int) -> int {
    if exclusive {
        buffer_size
    } else if padding >= buffer_size {
        0
    } else {
        buffer_size - padding
    }
}

/// The frames that a block has room for.
pub fn frames_available(exclusive: bool, buffer_size: usize, padding: usize) -> (r: usize)
    ensures
        r == block_room(exclusive, buffer_size as int, padding as int),
{
    if exclusive {
        buffer_size
    } else {
        buffer_size.saturating_sub(padding)
    }
}

/// The state of the playback of one track.
#[derive(Clone, Copy)]
pub struct Playback {
    /// The rate of the output and the channels of the decoder.
    pub rate: usize,
    pub channels: usize,
    /// The length of the track; zero is unknown.
    pub duration_ms: u64,
    /// The frames of the short fades.
    pub short_fade: usize,
    /// The fade-in in progress.
    pub fade_in_total: usize,
    pub fade_in_pos: usize,
    /// The position to go to when the fade-out is done.
    pub seek_pending: Option<u64>,
    pub seek_fade_out_pos: usize,
    /// The decoder has been told to seek and has not answered.
    pub seek_waiting: bool,
    pub samples_played: u64,
    pub last_progress_ms: u64,
}

/// What comes of the control requests at the top of the loop.
#[derive(Clone, Copy, PartialEq, Eq, Structural, Debug)]
pub enum ControlStep {
    /// Stop, and open the track again at this position.
    Reopen(u64),
    /// Stop: another track was asked for.
    Abort,
    /// Pause: give the device back, and open the track again at this position.
    Release(u64),
    /// Pause: keep the stream and wait.
    WaitForResume,
    GoOn,
}

/// What comes of the requests to seek.
#[derive(Clone, Copy, PartialEq, Eq, Structural, Debug)]
pub enum SeekStep {
    Nothing,
    /// The position lies behind the end: the next track is due.
    PastEnd,
    /// The decoder is seeking already and gets this position instead.
    Redirect(u64),
    /// The sound fades out first.
    FadeOut,
}

/// What happens before samples are taken from the buffer.
#[derive(Clone, Copy, PartialEq, Eq, Structural, Debug)]
pub enum ReadStep {
    /// The decoder still seeks: drop what is buffered and play silence.
    Silence,
    /// The decoder has just sought: drop what is buffered.
    Clear,
    Proceed,
}

/// What a block of samples brings.
#[derive(Clone, Copy, PartialEq, Eq, Structural, Debug)]
pub struct BlockPlan {
    /// A position to report.
    pub progress: Option<u64>,
    /// The frames of the block that fade in, and the place of the first one in
    /// the fade.
    pub fade_in_from: usize,
    pub fade_in_frames: usize,
    /// The frames that fade out, and the place of the first one in the fade.
    pub fade_out_from: usize,
    pub fade_out_frames: usize,
    /// The frame with which the fade-out ends; from it on there is silence.
    pub silence_from: Option<usize>,
    /// The position to seek to once the block is written.
    pub commit: Option<u64>,
}

impl Playback {
    /// A position whose samples can be counted.
    pub open spec fn fits(self, ms: int) -> bool {
        ms * self.rate * self.channels <= u64::MAX
    }

    /// The counters are inside their limits.
    pub open spec fn wf(self) -> bool {
        &&& 0 < self.rate * self.channels <= u64::MAX
        &&& self.samples_played * 1000 <= u64::MAX
        &&& self.fade_in_pos <= self.fade_in_total || self.fade_in_total == 0
        &&& self.seek_pending matches Some(ms) ==> self.fits(ms as int) && samples_at(
            ms as int,
            self.rate as int,
            self.channels as int,
        ) * 1000 <= u64::MAX
    }

    /// The position of the playback.
    pub open spec fn position(self) -> int {
        position_ms(self.samples_played as int, self.rate as int, self.channels as int)
    }

    /// The state when a track starts.
    pub open spec fn start(
        rate: usize,
        channels: usize,
        duration_ms: u64,
        start_ms: u64,
        short_fade: usize,
        resume_fade: usize,
    ) -> Playback {
        Playback {
            rate,
            channels,
            duration_ms,
            short_fade,
            fade_in_total: if start_ms == 0 {
                short_fade
            } else {
                resume_fade
            },
            fade_in_pos: 0,
            seek_pending: None,
            seek_fade_out_pos: 0,
            seek_waiting: false,
            samples_played: start_samples_spec(
                start_ms as int,
                rate as int,
                channels as int,
            ) as u64,
            last_progress_ms: start_ms,
        }
    }

    /// Starts the playback of a track at `start_ms`.
    pub fn new(
        rate: usize,
        channels: usize,
        duration_ms: u64,
        start_ms: u64,
        short_fade: usize,
        resume_fade: usize,
    ) -> (r: Playback)
        requires
            0 < rate * channels <= u64::MAX,
            start_ms * rate <= u64::MAX,
            start_samples_spec(start_ms as int, rate as int, channels as int) * 1000 <= u64::MAX,
        ensures
            r == Playback::start(rate, channels, duration_ms, start_ms, short_fade, resume_fade),
            r.wf(),
    {
        Playback {
            rate,
            channels,
            duration_ms,
            short_fade,
            fade_in_total: if start_ms == 0 {
                short_fade
            } else {
                resume_fade
            },
            fade_in_pos: 0,
            seek_pending: None,
            seek_fade_out_pos: 0,
            seek_waiting: false,
            samples_played: start_samples(start_ms, rate, channels),
            last_progress_ms: start_ms,
        }
    }

    /// What comes of the control requests: a retry first, then another track,
    /// then a pause.
    pub open spec fn control_spec(
        self,
        request: RetryReason,
        abort: bool,
        paused: bool,
        exclusive: bool,
    ) -> ControlStep {
        if request == RetryReason::Restart {
            ControlStep::Reopen(0)
        } else if request != RetryReason::NoRetry {
            ControlStep::Reopen(self.position() as u64)
        } else if abort {
            ControlStep::Abort
        } else if paused && exclusive {
            ControlStep::Release(self.position() as u64)
        } else if paused {
            ControlStep::WaitForResume
        } else {
            ControlStep::GoOn
        }
    }

    /// Decides what comes of the control requests.
    pub fn control(&self, request: RetryReason, abort: bool, paused: bool, exclusive: bool) -> (r:
        ControlStep)
        requires
            self.wf(),
        ensures
            r == self.control_spec(request, abort, paused, exclusive),
    {
        let here: u64 = current_position_ms(self.samples_played, self.rate, self.channels);
        if request == RetryReason::Restart {
            return ControlStep::Reopen(0);
        }
        if request != RetryReason::NoRetry {
            return ControlStep::Reopen(here);
        }
        if abort {
            return ControlStep::Abort;
        }
        if paused {
            if exclusive {
                return ControlStep::Release(here);
            }
            return ControlStep::WaitForResume;
        }
        ControlStep::GoOn
    }

    /// The controls when the loop of a track has obeyed them, and what comes of it: the
    /// request for a retry is taken and recorded, as is a pause that gives the device
    /// back; a pause makes the player a paused one.
    pub open spec fn obeyed(self, c: Controls, paused: bool, exclusive: bool) -> (
        Controls,
        ControlStep,
    ) {
        let step = self.control_spec(c.pending_retry, c.aborts(), paused, exclusive);
        (
            Controls {
                pending_retry: RetryReason::NoRetry,
                last_retry: match step {
                    ControlStep::Reopen(_) => c.pending_retry,
                    ControlStep::Release(_) => RetryReason::PauseExclusiveRelease,
                    _ => c.last_retry,
                },
                state: match step {
                    ControlStep::Release(_) | ControlStep::WaitForResume => PlayerState::Paused,
                    _ => c.state,
                },
                ..c
            },
            step,
        )
    }

    /// Obeys the controls at the top of the loop of a track. `paused` says that the
    /// player does not run, `exclusive` that it has the device for itself.
    pub fn obey(&self, c: &mut PlayerControls, paused: bool, exclusive: bool) -> (r: ControlStep)
        requires
            self.wf(),
        ensures
            (final(c)@, r) == self.obeyed(old(c)@, paused, exclusive),
    {
        let request: RetryReason = c.take_playback_retry_request();
        let abort: bool = c.should_abort_playback();
        let step = self.control(request, abort, paused, exclusive);
        match step {
            ControlStep::Reopen(_) => {
                c.set_last_retry_reason(request);
            },
            ControlStep::Release(_) => {
                c.set_player_state(PlayerState::Paused);
                c.set_last_retry_reason(RetryReason::PauseExclusiveRelease);
            },
            ControlStep::WaitForResume => {
                c.set_player_state(PlayerState::Paused);
            },
            ControlStep::Abort | ControlStep::GoOn => {},
        }
        step
    }

    /// The position that was asked for: an absolute one, or so many seconds away.
    pub open spec fn seek_target(self, seek_req_ms: i64, seek_delta: i32) -> Option<int> {
        let here = self.position();
        if seek_req_ms >= 0 {
            Some(seek_req_ms as int)
        } else if seek_delta == 0 {
            None
        } else if here + seek_delta * 1000 > u64::MAX {
            Some(u64::MAX as int)
        } else if here + seek_delta * 1000 < 0 {
            Some(0)
        } else {
            Some(here + seek_delta * 1000)
        }
    }

    /// The state when the decoder has been told to go to `ms`.
    pub open spec fn redirected(self, ms: u64) -> Playback {
        Playback {
            fade_in_pos: 0,
            fade_in_total: self.short_fade,
            samples_played: samples_at(
                ms as int,
                self.rate as int,
                self.channels as int,
            ) as u64,
            last_progress_ms: ms,
            seek_pending: None,
            seek_fade_out_pos: 0,
            ..self
        }
    }

    /// The state when the decoder has been told to go to `ms`, and is waited for.
    pub open spec fn committed(self, ms: u64) -> Playback {
        Playback { seek_waiting: true, ..self.redirected(ms) }
    }

    /// The state after a request to seek, and what to do.
    pub open spec fn seek_spec(self, seek_req_ms: i64, seek_delta: i32) -> (Playback, SeekStep) {
        match self.seek_target(seek_req_ms, seek_delta) {
            None => (self, SeekStep::Nothing),
            Some(target) => if self.duration_ms > 0 && target >= self.duration_ms {
                (self, SeekStep::PastEnd)
            } else if self.seek_waiting {
                (self.redirected(target as u64), SeekStep::Redirect(target as u64))
            } else {
                (
                    Playback {
                        seek_pending: Some(target as u64),
                        seek_fade_out_pos: if self.seek_pending is None {
                            0
                        } else {
                            self.seek_fade_out_pos
                        },
                        ..self
                    },
                    SeekStep::FadeOut,
                )
            },
        }
    }

    /// Whether the samples up to a position can be counted and turned back.
    pub open spec fn reachable(self, ms: int) -> bool {
        self.fits(ms) && samples_at(ms, self.rate as int, self.channels as int) * 1000 <= u64::MAX
    }

    fn redirect(&mut self, ms: u64)
        requires
            old(self).wf(),
            old(self).reachable(ms as int),
        ensures
            *final(self) == old(self).redirected(ms),
            final(self).wf(),
    {
        proof {
            let (m, r, c) = (ms as int, self.rate as int, self.channels as int);
            assert(m * r * c >= 0 && m * r >= 0) by (nonlinear_arith)
                requires
                    m >= 0,
                    r >= 0,
                    c >= 0,
            ;
            assert(c >= 1) by (nonlinear_arith)
                requires
                    r * c > 0,
                    c >= 0,
            ;
            assert(m * r <= m * r * c) by (nonlinear_arith)
                requires
                    m * r >= 0,
                    c >= 1,
            ;
        }
        self.samples_played = (ms * self.rate as u64 * self.channels as u64) / 1000;
        self.fade_in_pos = 0;
        self.fade_in_total = self.short_fade;
        self.last_progress_ms = ms;
        self.seek_pending = None;
        self.seek_fade_out_pos = 0;
    }

    fn commit(&mut self, ms: u64)
        requires
            old(self).wf(),
            old(self).reachable(ms as int),
        ensures
            *final(self) == old(self).committed(ms),
            final(self).wf(),
    {
        self.redirect(ms);
        self.seek_waiting = true;
    }

    /// Takes the requests to seek: an absolute position, or minus one, and
    /// seconds to skip.
    pub fn seek(&mut self, seek_req_ms: i64, seek_delta: i32) -> (r: SeekStep)
        requires
            old(self).wf(),
            old(self).seek_target(seek_req_ms, seek_delta) matches Some(target)
                ==> old(self).reachable(target) || (0 < old(self).duration_ms <= target),
        ensures
            (*final(self), r) == old(self).seek_spec(seek_req_ms, seek_delta),
            final(self).wf(),
    {
        let target: u64;
        if seek_req_ms >= 0 {
            target = seek_req_ms as u64;
        } else if seek_delta == 0 {
            return SeekStep::Nothing;
        } else {
            let here: u64 = current_position_ms(self.samples_played, self.rate, self.channels);
            target = if seek_delta > 0 {
                here.saturating_add(seek_delta as u64 * 1000)
            } else {
                here.saturating_sub((-(seek_delta as i64)) as u64 * 1000)
            };
        }
        if self.duration_ms > 0 && target >= self.duration_ms {
            return SeekStep::PastEnd;
        }
        if self.seek_waiting {
            self.redirect(target);
            return SeekStep::Redirect(target);
        }
        if self.seek_pending.is_none() {
            self.seek_fade_out_pos = 0;
        }
        self.seek_pending = Some(target);
        SeekStep::FadeOut
    }

    /// The state before samples are taken, and what to do first.
    pub open spec fn before_read_spec(self, decoder_sought: bool) -> (Playback, ReadStep) {
        if self.seek_waiting && !decoder_sought {
            (self, ReadStep::Silence)
        } else if self.seek_waiting {
            (
                Playback {
                    seek_waiting: false,
                    fade_in_pos: 0,
                    fade_in_total: self.short_fade,
                    last_progress_ms: self.position() as u64,
                    ..self
                },
                ReadStep::Clear,
            )
        } else if decoder_sought {
            (Playback { last_progress_ms: self.position() as u64, ..self }, ReadStep::Clear)
        } else {
            (self, ReadStep::Proceed)
        }
    }

    /// Decides what to do before samples are taken. `decoder_sought` says that
    /// the decoder has finished a seek since the last call.
    pub fn before_read(&mut self, decoder_sought: bool) -> (r: ReadStep)
        requires
            old(self).wf(),
        ensures
            (*final(self), r) == old(self).before_read_spec(decoder_sought),
            final(self).wf(),
    {
        if self.seek_waiting && !decoder_sought {
            return ReadStep::Silence;
        }
        if self.seek_waiting {
            self.seek_waiting = false;
            self.fade_in_pos = 0;
            self.fade_in_total = self.short_fade;
            self.last_progress_ms = current_position_ms(
                self.samples_played,
                self.rate,
                self.channels,
            );
            return ReadStep::Clear;
        }
        if decoder_sought {
            self.last_progress_ms = current_position_ms(
                self.samples_played,
                self.rate,
                self.channels,
            );
            return ReadStep::Clear;
        }
        ReadStep::Proceed
    }

    /// A block of silence was played for want of samples: a seek that waits for
    /// its fade-out can start at once. The result is its position.
    pub fn underrun(&mut self) -> (r: Option<u64>)
        requires
            old(self).wf(),
        ensures
            r == old(self).seek_pending,
            *final(self) == (match old(self).seek_pending {
                Some(ms) => old(self).committed(ms),
                None => *old(self),
            }),
            final(self).wf(),
    {
        match self.seek_pending {
            Some(ms) => {
                self.commit(ms);
                Some(ms)
            },
            None => None,
        }
    }

    /// The frames of a fade that a block takes.
    pub open spec fn fade_part(total: int, pos: int, frames: int) -> int {
        if pos >= total {
            0
        } else if total - pos < frames {
            total - pos
        } else {
            frames
        }
    }

    /// The frames of the fade-out before a seek: at least one.
    pub open spec fn fade_out_total(self) -> int {
        if self.short_fade < 1 {
            1
        } else {
            self.short_fade as int
        }
    }

    /// The state after a block, and what it brings.
    pub open spec fn block_spec(self, frames: int, valid_samples: int) -> (Playback, BlockPlan) {
        let played = Playback {
            samples_played: (self.samples_played + valid_samples) as u64,
            ..self
        };
        let here = played.position();
        let report = valid_samples > 0 && here >= self.last_progress_ms
            + PROGRESS_NOTIFY_INTERVAL_MS;
        let fade_in = Playback::fade_part(
            self.fade_in_total as int,
            self.fade_in_pos as int,
            frames,
        );
        let total = self.fade_out_total();
        let fade_out = if self.seek_pending is Some {
            Playback::fade_part(total, self.seek_fade_out_pos as int, frames)
        } else {
            0
        };
        let fade_out_pos = self.seek_fade_out_pos + fade_out;
        let done = self.seek_pending is Some && fade_out_pos >= total;
        (
            Playback {
                last_progress_ms: if report {
                    here as u64
                } else {
                    self.last_progress_ms
                },
                fade_in_pos: (self.fade_in_pos + fade_in) as usize,
                seek_fade_out_pos: fade_out_pos as usize,
                seek_pending: if done {
                    None
                } else {
                    self.seek_pending
                },
                ..played
            },
            BlockPlan {
                progress: if report {
                    Some(here as u64)
                } else {
                    None
                },
                fade_in_from: self.fade_in_pos,
                fade_in_frames: fade_in as usize,
                fade_out_from: self.seek_fade_out_pos,
                fade_out_frames: fade_out as usize,
                silence_from: if done && fade_out > 0 {
                    Some((fade_out - 1) as usize)
                } else {
                    None
                },
                commit: if done {
                    self.seek_pending
                } else {
                    None
                },
            },
        )
    }

    /// Accounts for a block of `frames` frames that holds `valid_samples`
    /// samples of sound, and plans its fades.
    pub fn block(&mut self, frames: usize, valid_samples: usize) -> (r: BlockPlan)
        requires
            old(self).wf(),
            (old(self).samples_played + valid_samples) * 1000 <= u64::MAX,
        ensures
            (*final(self), r) == old(self).block_spec(frames as int, valid_samples as int),
            final(self).wf(),
            r.commit matches Some(ms) ==> final(self).reachable(ms as int),
            r.fade_in_frames <= frames && r.fade_out_frames <= frames,
    {
        self.samples_played = self.samples_played + valid_samples as u64;
        let mut progress: Option<u64> = None;
        if valid_samples > 0 {
            let here: u64 = current_position_ms(self.samples_played, self.rate, self.channels);
            if here >= PROGRESS_NOTIFY_INTERVAL_MS && here - PROGRESS_NOTIFY_INTERVAL_MS
                >= self.last_progress_ms {
                progress = Some(here);
                self.last_progress_ms = here;
            }
        }
        let fade_in_from: usize = self.fade_in_pos;
        let fade_in_frames: usize = if self.fade_in_pos >= self.fade_in_total {
            0
        } else if self.fade_in_total - self.fade_in_pos < frames {
            self.fade_in_total - self.fade_in_pos
        } else {
            frames
        };
        self.fade_in_pos = self.fade_in_pos + fade_in_frames;
        let fade_out_from: usize = self.seek_fade_out_pos;
        let mut fade_out_frames: usize = 0;
        let mut silence_from: Option<usize> = None;
        let mut commit: Option<u64> = None;
        if let Some(ms) = self.seek_pending {
            let total: usize = if self.short_fade < 1 {
                1
            } else {
                self.short_fade
            };
            fade_out_frames = if fade_out_from >= total {
                0
            } else if total - fade_out_from < frames {
                total - fade_out_from
            } else {
                frames
            };
            self.seek_fade_out_pos = fade_out_from + fade_out_frames;
            if self.seek_fade_out_pos >= total {
                if fade_out_frames > 0 {
                    silence_from = Some(fade_out_frames - 1);
                }
                commit = Some(ms);
                self.seek_pending = None;
            }
        }
        BlockPlan {
            progress,
            fade_in_from,
            fade_in_frames,
            fade_out_from,
            fade_out_frames,
            silence_from,
            commit,
        }
    }

    /// The block that ends a fade-out was written: the decoder is told to go to
    /// `ms`.
    pub fn commit_seek(&mut self, ms: u64)
        requires
            old(self).wf(),
            old(self).reachable(ms as int),
        ensures
            *final(self) == old(self).committed(ms),
            final(self).wf(),
    {
        self.commit(ms);
    }
}

/// No sound of the old position is heard after a seek: between the commit and
/// the answer of the decoder every block is silence, and the position that is
/// reported is the new one.
pub proof fn law_silence_until_decoder_has_sought(p: Playback, ms: u64)
    ensures
        p.committed(ms).before_read_spec(false).1 == ReadStep::Silence,
        p.committed(ms).before_read_spec(false).0 == p.committed(ms),
        p.committed(ms).before_read_spec(true).1 == ReadStep::Clear,
        !p.committed(ms).before_read_spec(true).0.seek_waiting,
        p.committed(ms).last_progress_ms == ms,
{
}

/// A seek is carried out once: after the fade-out nothing is pending.
pub proof fn law_seek_is_committed_once(p: Playback, frames: int, valid_samples: int)
    requires
        0 <= frames <= usize::MAX,
        p.seek_fade_out_pos + frames <= usize::MAX,
    ensures
        ({
            let (after, plan) = p.block_spec(frames, valid_samples);
            &&& plan.commit is Some ==> plan.commit == p.seek_pending && after.seek_pending is None
            &&& plan.commit is None ==> after.seek_pending == p.seek_pending
        }),
{
}

/// A fade-out that starts at a seek ends after as many frames as the fade has.
pub proof fn law_fade_out_ends(p: Playback, frames: int, valid_samples: int)
    requires
        p.seek_pending is Some,
        p.seek_fade_out_pos == 0,
        p.fade_out_total() <= frames <= usize::MAX,
    ensures
        p.block_spec(frames, valid_samples).1.commit == p.seek_pending,
        p.block_spec(frames, valid_samples).1.silence_from == Some(
            (p.fade_out_total() - 1) as usize,
        ),
{
}

/// A position that is sought is the position that is then reported, to the
/// millisecond or the one before it.
pub proof fn law_sought_position_is_reported(p: Playback, ms: u64)
    requires
        p.wf(),
        p.reachable(ms as int),
        p.rate * p.channels >= 1000,
    ensures
        ms - 1 <= p.committed(ms).position() <= ms,
{
    let per = p.rate * p.channels;
    let n = samples_at(ms as int, p.rate as int, p.channels as int);
    assert(ms * p.rate * p.channels == ms * per) by (nonlinear_arith)
        requires
            per == p.rate * p.channels,
    ;
    assert(ms * per >= 0) by (nonlinear_arith)
        requires
            ms >= 0,
            per >= 0,
    ;
    assert(n * 1000 <= ms * per < n * 1000 + 1000);
    assert((n * 1000) / per <= ms) by (nonlinear_arith)
        requires
            n * 1000 <= ms * per,
            per > 0,
    ;
    assert((n * 1000) / per >= ms - 1) by (nonlinear_arith)
        requires
            n * 1000 > ms * per - 1000,
            per >= 1000,
    ;
    assert(p.committed(ms).samples_played == n);
}

/// A position is the whole milliseconds that the samples up to it take, each of which is
/// one of `channels` of a frame, of which there are `rate` in a second.
pub proof fn law_position_is_whole_milliseconds(samples: int, rate: int, channels: int)
    requires
        samples >= 0,
        rate * channels > 0,
    ensures
        position_ms(samples, rate, channels) * (rate * channels) <= samples * 1000,
        samples * 1000 < (position_ms(samples, rate, channels) + 1) * (rate * channels),
        position_ms(samples + rate * channels, rate, channels) == position_ms(
            samples,
            rate,
            channels,
        ) + 1000,
{
    let per = rate * channels;
    let n = samples * 1000;
    assert((n / per) * per <= n < (n / per + 1) * per) by (nonlinear_arith)
        requires
            per > 0,
    ;
    assert((samples + per) * 1000 == n + 1000 * per);
    assert((n + 1000 * per) / per == n / per + 1000) by (nonlinear_arith)
        requires
            per > 0,
    ;
}

/// The samples up to a position are those of its milliseconds, and not one of the next.
pub proof fn law_samples_reach_the_position(ms: int, rate: int, channels: int)
    requires
        ms >= 0,
        rate >= 0,
        channels >= 0,
    ensures
        samples_at(ms, rate, channels) * 1000 <= ms * rate * channels < samples_at(
            ms,
            rate,
            channels,
        ) * 1000 + 1000,
        samples_at(ms + 1000, rate, channels) == samples_at(ms, rate, channels) + rate * channels,
{
    let n = ms * rate * channels;
    assert((ms + 1000) * rate * channels == n + 1000 * (rate * channels)) by (nonlinear_arith)
        requires
            n == ms * rate * channels,
    ;
}

/// A track that starts at a position starts with a whole frame, the last one that is not
/// behind that position.
pub proof fn law_track_starts_on_a_frame(start_ms: int, rate: int, channels: int)
    requires
        start_ms >= 0,
        rate > 0,
        channels > 0,
    ensures
        start_samples_spec(start_ms, rate, channels) % channels == 0,
        (start_samples_spec(start_ms, rate, channels) / channels) * 1000 <= start_ms * rate,
        start_ms * rate < (start_samples_spec(start_ms, rate, channels) / channels + 1) * 1000,
        start_samples_spec(0, rate, channels) == 0,
{
    let frames = (start_ms * rate) / 1000;
    assert(start_ms * rate >= 0) by (nonlinear_arith)
        requires
            start_ms >= 0,
            rate > 0,
    ;
    assert((frames * channels) % channels == 0 && (frames * channels) / channels == frames)
        by (nonlinear_arith)
        requires
            channels > 0,
            frames >= 0,
    ;
    assert(0 * rate == 0);
    assert((0int / 1000) * channels == 0);
}

/// A playback begins at the position that it was asked to begin at, to the millisecond or
/// the one before it, with a short fade at the start of a track and a long one inside it.
pub proof fn law_playback_begins_where_asked(
    rate: usize,
    channels: usize,
    duration_ms: u64,
    start_ms: u64,
    short_fade: usize,
    resume_fade: usize,
)
    requires
        0 < rate * channels <= u64::MAX,
        rate >= 1000,
        start_samples_spec(start_ms as int, rate as int, channels as int) * 1000 <= u64::MAX,
    ensures
        ({
            let p = Playback::start(rate, channels, duration_ms, start_ms, short_fade, resume_fade);
            &&& start_ms - 1 <= p.position() <= start_ms
            &&& start_ms == 0 ==> p.fade_in_total == short_fade
            &&& start_ms > 0 ==> p.fade_in_total == resume_fade
            &&& p.fade_in_pos == 0
            &&& p.seek_pending is None && !p.seek_waiting
            &&& p.duration_ms == duration_ms
            &&& p.last_progress_ms == start_ms
        }),
{
    let (r, c) = (rate as int, channels as int);
    assert(c > 0) by (nonlinear_arith)
        requires
            r * c > 0,
            c >= 0,
    ;
    let frames = (start_ms * r) / 1000;
    assert(start_ms * r >= 0) by (nonlinear_arith)
        requires
            start_ms >= 0,
            r >= 0,
    ;
    let samples = frames * c;
    assert(samples == start_samples_spec(start_ms as int, r, c));
    assert(samples >= 0) by (nonlinear_arith)
        requires
            samples == frames * c,
            frames >= 0,
            c > 0,
    ;
    assert(samples * 1000 <= start_ms * (r * c)) by (nonlinear_arith)
        requires
            samples == frames * c,
            frames * 1000 <= start_ms * r,
            c > 0,
    ;
    assert(samples * 1000 >= (start_ms - 1) * (r * c)) by (nonlinear_arith)
        requires
            samples == frames * c,
            frames * 1000 + 1000 > start_ms * r,
            r >= 1000,
            c > 0,
    ;
    let per = r * c;
    assert((samples * 1000) / per <= start_ms) by (nonlinear_arith)
        requires
            samples * 1000 <= start_ms * per,
            per > 0,
    ;
    assert((samples * 1000) / per >= start_ms - 1) by (nonlinear_arith)
        requires
            samples * 1000 >= (start_ms - 1) * per,
            per > 0,
    ;
}

/// Where a playback goes for a request to seek that leads into the track: to the position
/// at which the decoder is aimed, at once or after the fade.
pub open spec fn seek_aim(after: Playback, step: SeekStep) -> Option<u64> {
    match step {
        SeekStep::FadeOut => after.seek_pending,
        SeekStep::Redirect(ms) => Some(ms),
        _ => None,
    }
}

/// A request for so many seconds, with no position of its own, leads exactly so many
/// seconds forwards or backwards from where the playback is; backwards not beyond the
/// start of the track.
pub proof fn law_skip_leads_by_its_seconds(p: Playback, seek_req_ms: i64, seconds: i32)
    requires
        p.wf(),
        seek_req_ms < 0,
        seconds != 0,
        p.duration_ms == 0 || p.position() + 1000 * seconds < p.duration_ms,
        p.position() + 1000 * seconds <= u64::MAX,
    ensures
        ({
            let (after, step) = p.seek_spec(seek_req_ms, seconds);
            &&& p.position() + 1000 * seconds >= 0 ==> seek_aim(after, step) == Some(
                (p.position() + 1000 * seconds) as u64,
            )
            &&& p.position() + 1000 * seconds < 0 ==> seek_aim(after, step) == Some(0u64)
            &&& p.seek_waiting ==> step is Redirect
            &&& !p.seek_waiting ==> step is FadeOut
        }),
{
    lemma_position_is_not_negative(p);
}

proof fn lemma_position_is_not_negative(p: Playback)
    requires
        p.wf(),
    ensures
        p.position() >= 0,
{
    let per = p.rate * p.channels;
    let n = p.samples_played * 1000;
    assert(n / per >= 0) by (nonlinear_arith)
        requires
            n >= 0,
            per > 0,
    ;
}

/// A request for a position leads to that position, whatever seconds were asked for
/// besides.
pub proof fn law_seek_leads_to_its_position(p: Playback, ms: i64, seconds: i32)
    requires
        p.wf(),
        ms >= 0,
        p.duration_ms == 0 || ms < p.duration_ms,
    ensures
        ({
            let (after, step) = p.seek_spec(ms, seconds);
            seek_aim(after, step) == Some(ms as u64)
        }),
{
}

/// A skip backwards and the same skip forwards lead back to where the playback was, where
/// the first does not reach the start of the track.
pub proof fn law_skips_undo_each_other(p: Playback, q: Playback, seconds: i32)
    requires
        p.wf(),
        q.wf(),
        0 < seconds <= i32::MAX,
        p.position() >= 1000 * seconds,
        p.duration_ms == 0 || p.position() < p.duration_ms,
        q.duration_ms == p.duration_ms,
        p.position() <= u64::MAX,
        ({
            let (after, step) = p.seek_spec(-1i64, (-seconds) as i32);
            seek_aim(after, step) == Some(q.position() as u64)
        }),
        q.position() <= u64::MAX,
    ensures
        ({
            let (after, step) = q.seek_spec(-1i64, seconds);
            seek_aim(after, step) == Some(p.position() as u64)
        }),
        q.position() < p.position(),
{
    lemma_position_is_not_negative(p);
    lemma_position_is_not_negative(q);
}

/// A request behind the end of the track leaves the playback as it is and makes the next
/// track due; one that asks for nothing does nothing.
pub proof fn law_seek_past_the_end_is_no_seek(p: Playback, seek_req_ms: i64, seconds: i32)
    requires
        p.wf(),
    ensures
        seek_req_ms >= p.duration_ms && p.duration_ms > 0 ==> p.seek_spec(seek_req_ms, seconds) == (
            p,
            SeekStep::PastEnd,
        ),
        seek_req_ms < 0 && seconds > 0 && p.duration_ms > 0 && p.position() + 1000 * seconds
            >= p.duration_ms ==> p.seek_spec(seek_req_ms, seconds) == (p, SeekStep::PastEnd),
        seek_req_ms < 0 && seconds == 0 ==> p.seek_spec(seek_req_ms, seconds) == (
            p,
            SeekStep::Nothing,
        ),
{
    lemma_position_is_not_negative(p);
}

/// A decoder that is told to seek leaves the playback at the new position, faded in from
/// silence, with nothing else pending, and the track as it was.
pub proof fn law_redirected_playback_starts_anew(p: Playback, ms: u64)
    requires
        p.wf(),
        p.reachable(ms as int),
    ensures
        ({
            let q = p.redirected(ms);
            &&& q.samples_played * 1000 <= ms * p.rate * p.channels < q.samples_played * 1000 + 1000
            &&& q.fade_in_pos == 0 && q.fade_in_total == p.short_fade
            &&& q.seek_pending is None && q.seek_fade_out_pos == 0
            &&& q.last_progress_ms == ms
            &&& q.rate == p.rate && q.channels == p.channels && q.duration_ms == p.duration_ms
            &&& q.short_fade == p.short_fade && q.seek_waiting == p.seek_waiting
            &&& p.committed(ms).seek_waiting
        }),
{
    let (m, r, c) = (ms as int, p.rate as int, p.channels as int);
    assert(m * r * c >= 0) by (nonlinear_arith)
        requires
            m >= 0,
            r >= 0,
            c >= 0,
    ;
}

/// Every sample of sound counts towards the position once, so that the position never
/// falls while a track plays, and none of silence counts.
pub proof fn law_sound_moves_the_position(p: Playback, frames: int, valid_samples: int)
    requires
        p.wf(),
        0 <= frames <= usize::MAX,
        valid_samples >= 0,
        (p.samples_played + valid_samples) * 1000 <= u64::MAX,
    ensures
        ({
            let (after, plan) = p.block_spec(frames, valid_samples);
            &&& after.samples_played == p.samples_played + valid_samples
            &&& after.position() >= p.position()
            &&& valid_samples == 0 ==> after.position() == p.position()
            &&& after.rate == p.rate && after.channels == p.channels
            &&& after.duration_ms == p.duration_ms
        }),
{
    let per = p.rate * p.channels;
    let (a, b) = (p.samples_played * 1000, (p.samples_played + valid_samples) * 1000);
    assert(a / per <= b / per) by (nonlinear_arith)
        requires
            a <= b,
            per > 0,
    ;
}

/// A position is reported where sound has brought the playback at least 150 milliseconds
/// beyond the last report, and what is reported is the position.
pub proof fn law_progress_is_reported_in_steps(p: Playback, frames: int, valid_samples: int)
    requires
        p.wf(),
        valid_samples >= 0,
        (p.samples_played + valid_samples) * 1000 <= u64::MAX,
    ensures
        ({
            let (after, plan) = p.block_spec(frames, valid_samples);
            &&& plan.progress is Some <==> valid_samples > 0 && after.position()
                - p.last_progress_ms >= 150
            &&& plan.progress is Some ==> plan.progress == Some(after.position() as u64)
                && after.last_progress_ms == after.position()
            &&& plan.progress is None ==> after.last_progress_ms == p.last_progress_ms
        }),
{
    lemma_position_is_not_negative(p);
    let per = p.rate * p.channels;
    let b = (p.samples_played + valid_samples) * 1000;
    assert(0 <= b / per <= b) by (nonlinear_arith)
        requires
            b >= 0,
            per > 0,
    ;
}

/// A fade-in runs through the blocks of a track frame by frame, from its first frame to
/// its last: each block takes the frames that follow those of the block before it, as
/// many as it holds.
pub proof fn law_fade_in_runs_through_the_blocks(p: Playback, frames: int, valid_samples: int)
    requires
        p.wf(),
        0 <= frames <= usize::MAX,
    ensures
        ({
            let (after, plan) = p.block_spec(frames, valid_samples);
            &&& plan.fade_in_from == p.fade_in_pos
            &&& after.fade_in_pos == p.fade_in_pos + plan.fade_in_frames
            &&& after.fade_in_total == p.fade_in_total
            &&& plan.fade_in_frames <= frames
            &&& p.fade_in_pos < p.fade_in_total ==> {
                &&& after.fade_in_pos <= p.fade_in_total
                &&& plan.fade_in_frames < frames ==> after.fade_in_pos == p.fade_in_total
            }
            &&& p.fade_in_pos >= p.fade_in_total ==> plan.fade_in_frames == 0
        }),
{
}

/// A fade-out before a seek runs through the blocks in the same way, and only while a
/// seek waits for it; the seek comes with the block in which the fade ends, and the rest
/// of that block is silent.
pub proof fn law_fade_out_runs_through_the_blocks(p: Playback, frames: int, valid_samples: int)
    requires
        p.wf(),
        0 <= frames <= usize::MAX,
        p.seek_fade_out_pos <= p.short_fade,
    ensures
        ({
            let (after, plan) = p.block_spec(frames, valid_samples);
            let total = if p.short_fade == 0 {
                1
            } else {
                p.short_fade as int
            };
            &&& plan.fade_out_from == p.seek_fade_out_pos
            &&& after.seek_fade_out_pos == p.seek_fade_out_pos + plan.fade_out_frames
            &&& p.seek_pending is None ==> plan.fade_out_frames == 0 && plan.commit is None
                && plan.silence_from is None
            &&& p.seek_pending is Some ==> {
                &&& after.seek_fade_out_pos <= total
                &&& plan.fade_out_frames < frames ==> after.seek_fade_out_pos == total
                &&& plan.commit is Some <==> after.seek_fade_out_pos == total
                &&& plan.silence_from is Some ==> plan.silence_from->0 + 1 == plan.fade_out_frames
                &&& plan.silence_from is Some <==> plan.commit is Some && plan.fade_out_frames > 0
            }
        }),
{
}

/// A fade of some milliseconds takes the frames of that time, and at least one.
pub proof fn law_fade_takes_its_time(rate: int, ms: int)
    requires
        rate >= 0,
        ms >= 0,
        rate * ms <= usize::MAX,
    ensures
        rate * ms >= 1000 ==> fade_frames(rate, ms) * 1000 <= rate * ms < fade_frames(rate, ms)
            * 1000 + 1000,
        rate * ms < 1000 ==> fade_frames(rate, ms) == 1,
{
}

/// The fade at the end of a track takes its last frames: as many as a short fade has, or
/// all that are left.
pub proof fn law_end_fades_out(valid_frames: int, short_total: int)
    requires
        valid_frames >= 0,
        short_total >= 0,
    ensures
        ({
            let (from, count) = end_fade_spec(valid_frames, short_total);
            &&& from + count == valid_frames
            &&& 0 <= from && count <= short_total
            &&& count < short_total ==> from == 0
        }),
{
}

/// At its end a track is waited for as long as the device needs for what it holds, with
/// something to spare, but never longer than half a second.
pub proof fn law_end_is_played_out(padding: int, rate: int)
    requires
        padding >= 0,
        rate > 0,
    ensures
        drain_ms_spec(padding, rate) <= 500,
        padding > 0 && drain_ms_spec(padding, rate) < 500 ==> drain_ms_spec(padding, rate) * rate
            > padding * 1000,
        padding > 0 && drain_ms_spec(padding, rate) < 500 ==> (drain_ms_spec(padding, rate) - 10)
            * rate <= padding * 1000,
        padding > 0 && padding * 1000 < 490 * rate ==> drain_ms_spec(padding, rate) < 500,
        padding == 0 ==> drain_ms_spec(padding, rate) == 0,
{
    let n = padding * 1000;
    let q = n / rate;
    assert(q * rate <= n < (q + 1) * rate) by (nonlinear_arith)
        requires
            rate > 0,
            q == n / rate,
    ;
    assert((q + 10) * rate == q * rate + 10 * rate) by (nonlinear_arith);
    assert((q + 1) * rate == q * rate + rate) by (nonlinear_arith);
    assert(q < 490 || 490 * rate <= q * rate) by (nonlinear_arith)
        requires
            rate > 0,
    ;
}

/// While a decoder seeks, nothing but silence is played; its answer drops what was
/// buffered before it, fades the new sound in and ends the wait. An answer that nothing
/// waits for drops what was buffered as well.
pub proof fn law_answer_of_the_decoder_ends_the_wait(p: Playback, sought: bool)
    requires
        p.wf(),
    ensures
        ({
            let (after, step) = p.before_read_spec(sought);
            &&& step == ReadStep::Proceed <==> !sought && !p.seek_waiting
            &&& step == ReadStep::Silence <==> !sought && p.seek_waiting
            &&& sought ==> !after.seek_waiting && after.last_progress_ms == p.position()
            &&& !sought ==> after == p
            &&& sought && p.seek_waiting ==> after.fade_in_pos == 0 && after.fade_in_total
                == p.short_fade
            &&& sought && !p.seek_waiting ==> after.fade_in_pos == p.fade_in_pos
                && after.fade_in_total == p.fade_in_total
            &&& after.samples_played == p.samples_played
        }),
{
    lemma_position_is_not_negative(p);
    let per = p.rate * p.channels;
    let n = p.samples_played * 1000;
    assert(n / per <= n) by (nonlinear_arith)
        requires
            n >= 0,
            per > 0,
    ;
}

/// The controls of a track are heard in their order: a retry before another track, that
/// before a pause, and what is not asked for is not done.
pub proof fn law_controls_are_heard_in_order(
    p: Playback,
    c: Controls,
    paused: bool,
    exclusive: bool,
)
    requires
        p.wf(),
    ensures
        ({
            let (after, step) = p.obeyed(c, paused, exclusive);
            let asked = c.to_next || c.to_prev || c.has_commands || c.list_changed;
            &&& step is Reopen <==> c.pending_retry != RetryReason::NoRetry
            &&& step is Abort <==> c.pending_retry == RetryReason::NoRetry && asked
            &&& step is Release <==> c.pending_retry == RetryReason::NoRetry && !asked && paused
                && exclusive
            &&& step is WaitForResume <==> c.pending_retry == RetryReason::NoRetry && !asked
                && paused && !exclusive
            &&& step is GoOn ==> after == c
            &&& step is Abort ==> after == c
            &&& after.track == c.track && after.to_next == c.to_next && after.to_prev == c.to_prev
            &&& after.to_volume == c.to_volume && after.list_id == c.list_id
        }),
{
}

/// A seek into the track changes nothing before its fade-out is done but where the
/// playback is to go. A second one takes the place of the first and goes on with its fade.
pub proof fn law_later_seek_takes_the_place(p: Playback, seek_req_ms: i64, seconds: i32)
    requires
        p.wf(),
        p.seek_spec(seek_req_ms, seconds).1 is FadeOut,
    ensures
        ({
            let after = p.seek_spec(seek_req_ms, seconds).0;
            &&& after.seek_pending is Some
            &&& p.seek_pending is Some ==> after.seek_fade_out_pos == p.seek_fade_out_pos
            &&& p.seek_pending is None ==> after.seek_fade_out_pos == 0
            &&& after == Playback {
                seek_pending: after.seek_pending,
                seek_fade_out_pos: after.seek_fade_out_pos,
                ..p
            }
        }),
{
}

/// A block fills what a buffer has left: with what waits in a shared one it never holds more
/// than the buffer.
pub proof fn law_block_fills_the_buffer(buffer_size: int, padding: int)
    requires
        0 <= padding <= buffer_size,
    ensures
        block_room(false, buffer_size, padding) + padding == buffer_size,
        block_room(true, buffer_size, padding) == buffer_size,
{
}

} // verus!
