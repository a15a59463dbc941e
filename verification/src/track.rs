//! The life of one track: what is told of it while it plays, how it starts, pauses and
//! goes on, and what each way of leaving it means for the player.

use crate::now_playing::EndpointNotificationClient;
use crate::output_format::DEVICE_INVALIDATED;
use crate::playback::{start_samples, start_samples_spec, ControlStep, Playback, ReadStep, SeekStep};
use crate::player::{after_track_spec, attempt_followed, retry_pause_of, AfterTrack, RetryPause};
use crate::player_state::{Controls, PlayerControls, PlayerState, RetryReason};
use vstd::prelude::*;

verus! {

/// What the other threads see of the track that plays.
#[derive(Clone, Copy, PartialEq, Eq, Structural, Debug)]
pub struct TrackClock {
    /// The interleaved samples up to the position.
    pub samples_played: u64,
    /// The length of the track; zero is unknown.
    pub duration_ms: u64,
    pub rate: usize,
    pub channels: usize,
}

impl TrackClock {
    /// What is seen before any track.
    pub fn new() -> (r: TrackClock)
        ensures
            r == (TrackClock { samples_played: 0, duration_ms: 0, rate: 44100, channels: 2 }),
    {
        TrackClock { samples_played: 0, duration_ms: 0, rate: 44100, channels: 2 }
    }
}

/// Says that no position was asked for.
pub const NO_SEEK: i64 = -1;

/// What the player and the decoder tell each other about a track.
#[derive(Clone, Copy, PartialEq, Eq, Structural, Debug)]
pub struct TrackSignals {
    /// The decoder has to stop.
    pub stop: bool,
    /// The position that was asked of the player.
    pub seek_req_ms: i64,
    /// The position that was asked of the decoder.
    pub seek_to_ms: i64,
    /// The decoder has just sought.
    pub sought: bool,
}

impl TrackSignals {
    /// Nothing has been told yet.
    pub open spec fn quiet() -> TrackSignals {
        TrackSignals { stop: false, seek_req_ms: NO_SEEK, seek_to_ms: NO_SEEK, sought: false }
    }
}

/// Gets ready for a track from `start_ms` on, before its decoder is started: what was
/// told of the track before it is dropped.
pub fn prepare_track(
    signals: &mut TrackSignals,
    clock: &mut TrackClock,
    start_ms: u64,
    rate: usize,
    channels: usize,
)
    requires
        start_ms * rate <= u64::MAX,
        start_samples_spec(start_ms as int, rate as int, channels as int) <= u64::MAX,
    ensures
        *final(signals) == TrackSignals::quiet(),
        *final(clock) == (TrackClock {
            samples_played: start_samples_spec(start_ms as int, rate as int, channels as int) as u64,
            ..*old(clock)
        }),
{
    *signals = TrackSignals { stop: false, seek_req_ms: NO_SEEK, seek_to_ms: NO_SEEK, sought: false };
    clock.samples_played = start_samples(start_ms, rate, channels);
}

/// The length of a track: what its decoder says, else what its list says.
pub open spec fn known_duration(decoder: Option<u64>, song: u64) -> u64 {
    match decoder {
        Some(ms) => ms,
        None => song,
    }
}

/// The stream of a track has started: the track plays. The result is the position and
/// the length to report.
pub fn track_started(
    c: &mut PlayerControls,
    clock: &mut TrackClock,
    rate: usize,
    channels: usize,
    decoder_duration: Option<u64>,
    song_duration: u64,
    start_ms: u64,
) -> (r: (u64, i64))
    ensures
        final(c)@ == (Controls { state: PlayerState::Playing, ..old(c)@ }),
        *final(clock) == (TrackClock {
            samples_played: old(clock).samples_played,
            duration_ms: known_duration(decoder_duration, song_duration),
            rate,
            channels,
        }),
        r.0 == start_ms,
        r.1 == (if known_duration(decoder_duration, song_duration) > i64::MAX {
            i64::MAX
        } else {
            known_duration(decoder_duration, song_duration) as i64
        }),
{
    c.set_player_state(PlayerState::Playing);
    let duration_ms: u64 = match decoder_duration {
        Some(ms) => ms,
        None => song_duration,
    };
    clock.rate = rate;
    clock.channels = channels;
    clock.duration_ms = duration_ms;
    let reported: i64 = if duration_ms > i64::MAX as u64 {
        i64::MAX
    } else {
        duration_ms as i64
    };
    (start_ms, reported)
}

/// A pause is over: the track plays, and its stream is started again.
pub fn track_resumed(c: &mut PlayerControls) -> (changed: bool)
    ensures
        changed == (old(c).state != PlayerState::Playing),
        final(c)@ == (Controls { state: PlayerState::Playing, ..old(c)@ }),
{
    c.set_player_state(PlayerState::Playing)
}

/// The decoder is told to go to a position.
pub open spec fn sent_to(signals: TrackSignals, ms: u64) -> TrackSignals {
    TrackSignals { seek_to_ms: ms as i64, ..signals }
}

/// Tells the decoder to go to a position.
pub fn send_decoder(signals: &mut TrackSignals, ms: u64)
    ensures
        *final(signals) == sent_to(*old(signals), ms),
{
    signals.seek_to_ms =
    #[verifier::truncate]
    (ms as i64);
}

/// Takes the requests to seek, those for a position and those for some seconds. One that
/// leads past the end of the track asks for the next track; a decoder that seeks already
/// is told the new position.
pub fn take_seek(p: &mut Playback, c: &mut PlayerControls, signals: &mut TrackSignals) -> (r:
    SeekStep)
    requires
        old(p).wf(),
        old(p).seek_target(old(signals).seek_req_ms, old(c).to_seek) matches Some(target)
            ==> old(p).reachable(target) || (0 < old(p).duration_ms <= target),
    ensures
        (*final(p), r) == old(p).seek_spec(old(signals).seek_req_ms, old(c).to_seek),
        final(p).wf(),
        final(c)@ == (Controls {
            to_seek: 0,
            to_next: old(c).to_next || r is PastEnd,
            ..old(c)@
        }),
        *final(signals) == ({
            let taken = TrackSignals { seek_req_ms: NO_SEEK, ..*old(signals) };
            match r {
                SeekStep::Redirect(ms) => sent_to(taken, ms),
                _ => taken,
            }
        }),
{
    let seek_req_ms: i64 = signals.seek_req_ms;
    signals.seek_req_ms = NO_SEEK;
    let seek_delta: i32 = c.to_seek;
    c.to_seek = 0;
    let step = p.seek(seek_req_ms, seek_delta);
    match step {
        SeekStep::PastEnd => {
            c.to_next = true;
        },
        SeekStep::Redirect(ms) => {
            send_decoder(signals, ms);
        },
        SeekStep::Nothing | SeekStep::FadeOut => {},
    }
    step
}

/// Takes the answer of the decoder, and decides what to do before samples are taken.
pub fn take_answer(p: &mut Playback, signals: &mut TrackSignals) -> (r: ReadStep)
    requires
        old(p).wf(),
    ensures
        (*final(p), r) == old(p).before_read_spec(old(signals).sought),
        final(p).wf(),
        *final(signals) == (TrackSignals { sought: false, ..*old(signals) }),
{
    let sought: bool = signals.sought;
    signals.sought = false;
    p.before_read(sought)
}

/// What comes of a wait for the player to run.
#[derive(Clone, Copy, PartialEq, Eq, Structural, Debug)]
pub enum WaitStep {
    /// The track is left.
    Leave,
    /// The requests are looked at, and the wait goes on.
    AskAgain,
    /// The player runs.
    GoOn,
}

/// What comes of a wait for the player to run.
pub open spec fn waited(abort: bool, wake_up: u32) -> WaitStep {
    if abort {
        WaitStep::Leave
    } else if wake_up == 0 {
        WaitStep::AskAgain
    } else if wake_up == 1 {
        WaitStep::GoOn
    } else {
        WaitStep::Leave
    }
}

/// What comes of a wait for the player to run, before a track and in a pause of it.
/// `abort` is whether the track had to be left before the wait, in which case there is
/// none; `wake_up` is the place of what ended the wait: a command is first, the end of
/// the pause second, and any other number says that the wait failed.
pub fn wait_step(abort: bool, wake_up: u32) -> (r: WaitStep)
    ensures
        r == waited(abort, wake_up),
{
    if abort {
        return WaitStep::Leave;
    }
    match wake_up {
        0 => WaitStep::AskAgain,
        1 => WaitStep::GoOn,
        _ => WaitStep::Leave,
    }
}

/// How a track is left, besides the requests that its loop obeys.
#[derive(Clone, Copy, PartialEq, Eq, Structural, Debug)]
pub enum TrackExit {
    /// The wait before the track ended with another request.
    NotBegun,
    /// The file could not be opened.
    OpenFailed,
    /// There is no output device, or it gives no way to write to it.
    DeviceFailed,
    /// The device was gone while a format for it was chosen.
    DeviceGone,
    /// The device took no stream.
    DeviceInUse,
    /// There is no decoder any more that could be started.
    DecoderGone,
    /// The stream did not start; the code is that of the system, where it gave one.
    StartFailed(Option<u32>),
    /// The wait in a pause ended with another request.
    LeftInPause,
    /// The stream did not start again after a pause.
    ResumeFailed,
    /// The device did not take a block; the code is that of the system, where it gave
    /// one.
    WriteFailed(Option<u32>),
    /// The track has played to its end.
    Ended,
}

/// Whether a track is left because its device is no more.
pub open spec fn device_lost(exit: TrackExit) -> bool {
    match exit {
        TrackExit::StartFailed(code) => code == Some(DEVICE_INVALIDATED),
        TrackExit::WriteFailed(code) => code == Some(DEVICE_INVALIDATED),
        _ => false,
    }
}

/// Where the track is opened again: where it was to start, or where it has got to;
/// `None` where it is not.
pub open spec fn resume_of(exit: TrackExit, start_ms: u64, here: u64) -> Option<u64> {
    match exit {
        TrackExit::DeviceFailed
        | TrackExit::DeviceInUse
        | TrackExit::StartFailed(_) => Some(start_ms),
        TrackExit::ResumeFailed | TrackExit::WriteFailed(_) => Some(here),
        _ => None,
    }
}

/// The reason that is recorded; `before` stays where there is none.
pub open spec fn reason_of(exit: TrackExit, before: RetryReason) -> RetryReason {
    if device_lost(exit) {
        RetryReason::DeviceInvalidated
    } else {
        match exit {
            TrackExit::OpenFailed | TrackExit::DecoderGone => RetryReason::TrackOpenFailed,
            TrackExit::DeviceFailed => RetryReason::WasapiInitFailed,
            TrackExit::DeviceInUse => RetryReason::DeviceInUse,
            TrackExit::StartFailed(_) => RetryReason::StartStreamFailed,
            TrackExit::ResumeFailed => RetryReason::ResumeStartStreamFailed,
            TrackExit::WriteFailed(_) => RetryReason::RenderWriteFailed,
            _ => before,
        }
    }
}

/// The state of the player: a track that cannot be played stops it.
pub open spec fn state_of(exit: TrackExit, before: PlayerState) -> PlayerState {
    match exit {
        TrackExit::OpenFailed | TrackExit::DecoderGone => PlayerState::Stopped,
        _ => before,
    }
}

/// The controls when a track is left.
pub open spec fn left(exit: TrackExit, c: Controls) -> Controls {
    Controls {
        last_retry: reason_of(exit, c.last_retry),
        state: state_of(exit, c.state),
        ..c
    }
}

/// Leaves a track that was to start at `start_ms` and has got to `here`. The result is
/// where it is opened again, where it is. A device that is lost counts as one that
/// changed `now`, and a file that cannot be opened has no position and no length.
pub fn leave_track(
    c: &mut PlayerControls,
    device: &mut EndpointNotificationClient,
    clock: &mut TrackClock,
    exit: TrackExit,
    start_ms: u64,
    here: u64,
    now: u32,
) -> (r: Option<u64>)
    ensures
        r == resume_of(exit, start_ms, here),
        final(c)@ == left(exit, old(c)@),
        final(device).change_tick == (if device_lost(exit) {
            now
        } else {
            old(device).change_tick
        }),
        *final(clock) == (if exit is OpenFailed {
            TrackClock { samples_played: 0, duration_ms: 0, ..*old(clock) }
        } else {
            *old(clock)
        }),
{
    match exit {
        TrackExit::NotBegun
        | TrackExit::DeviceGone
        | TrackExit::LeftInPause
        | TrackExit::Ended => None,
        TrackExit::OpenFailed => {
            clock.samples_played = 0;
            clock.duration_ms = 0;
            c.set_player_state(PlayerState::Stopped);
            c.set_last_retry_reason(RetryReason::TrackOpenFailed);
            None
        },
        TrackExit::DecoderGone => {
            c.set_player_state(PlayerState::Stopped);
            c.set_last_retry_reason(RetryReason::TrackOpenFailed);
            None
        },
        TrackExit::DeviceFailed => {
            c.set_last_retry_reason(RetryReason::WasapiInitFailed);
            Some(start_ms)
        },
        TrackExit::DeviceInUse => {
            c.set_last_retry_reason(RetryReason::DeviceInUse);
            Some(start_ms)
        },
        TrackExit::StartFailed(code) => {
            if is_invalidated(code) {
                c.set_last_retry_reason(RetryReason::DeviceInvalidated);
                device.change_tick = now;
            } else {
                c.set_last_retry_reason(RetryReason::StartStreamFailed);
            }
            Some(start_ms)
        },
        TrackExit::ResumeFailed => {
            c.set_last_retry_reason(RetryReason::ResumeStartStreamFailed);
            Some(here)
        },
        TrackExit::WriteFailed(code) => {
            if is_invalidated(code) {
                c.set_last_retry_reason(RetryReason::DeviceInvalidated);
                device.change_tick = now;
            } else {
                c.set_last_retry_reason(RetryReason::RenderWriteFailed);
            }
            Some(here)
        },
    }
}

fn is_invalidated(code: Option<u32>) -> (r: bool)
    ensures
        r == (code == Some(DEVICE_INVALIDATED)),
{
    match code {
        Some(n) => n == DEVICE_INVALIDATED,
        None => false,
    }
}

/// What is done to the world when a track is left, or told to wait.
#[derive(Clone, Copy, PartialEq, Eq, Structural, Debug)]
pub struct Cleanup {
    /// The player pauses, and its window is told that the device is in use.
    pub pauses: bool,
    pub stops_stream: bool,
    /// The decoder is stopped and waited for.
    pub stops_decoder: bool,
}

/// What is done when a track is left.
pub open spec fn cleanup_spec(exit: TrackExit) -> Cleanup {
    Cleanup {
        pauses: exit is DeviceInUse,
        stops_stream: exit is WriteFailed || exit is Ended,
        stops_decoder: exit is StartFailed || exit is LeftInPause || exit is ResumeFailed
            || exit is WriteFailed || exit is Ended,
    }
}

/// What is done when a track is left.
pub fn cleanup_of(exit: TrackExit) -> (r: Cleanup)
    ensures
        r == cleanup_spec(exit),
{
    match exit {
        TrackExit::NotBegun
        | TrackExit::OpenFailed
        | TrackExit::DeviceFailed
        | TrackExit::DeviceGone
        | TrackExit::DecoderGone => Cleanup {
            pauses: false,
            stops_stream: false,
            stops_decoder: false,
        },
        TrackExit::DeviceInUse => Cleanup {
            pauses: true,
            stops_stream: false,
            stops_decoder: false,
        },
        TrackExit::StartFailed(_) | TrackExit::LeftInPause | TrackExit::ResumeFailed => Cleanup {
            pauses: false,
            stops_stream: false,
            stops_decoder: true,
        },
        TrackExit::WriteFailed(_) | TrackExit::Ended => Cleanup {
            pauses: false,
            stops_stream: true,
            stops_decoder: true,
        },
    }
}

/// What is done for a request that the loop of a track obeys.
pub fn cleanup_of_step(step: ControlStep) -> (r: Cleanup)
    ensures
        r == (Cleanup {
            pauses: false,
            stops_stream: !(step is GoOn),
            stops_decoder: step is Reopen || step is Abort || step is Release,
        }),
{
    match step {
        ControlStep::GoOn => Cleanup { pauses: false, stops_stream: false, stops_decoder: false },
        ControlStep::WaitForResume => Cleanup {
            pauses: false,
            stops_stream: true,
            stops_decoder: false,
        },
        ControlStep::Reopen(_) | ControlStep::Abort | ControlStep::Release(_) => Cleanup {
            pauses: false,
            stops_stream: true,
            stops_decoder: true,
        },
    }
}

/// How the loop of a track ends for a request: where the track is opened again, or
/// `Some(None)` where it is not. `None` where the loop goes on.
pub open spec fn loop_result(step: ControlStep) -> Option<Option<u64>> {
    match step {
        ControlStep::Reopen(ms) | ControlStep::Release(ms) => Some(Some(ms)),
        ControlStep::Abort => Some(None),
        ControlStep::WaitForResume | ControlStep::GoOn => None,
    }
}

/// How the loop of a track ends for a request.
pub fn loop_ends(step: ControlStep) -> (r: Option<Option<u64>>)
    ensures
        r == loop_result(step),
{
    match step {
        ControlStep::Reopen(ms) | ControlStep::Release(ms) => Some(Some(ms)),
        ControlStep::Abort => Some(None),
        ControlStep::WaitForResume | ControlStep::GoOn => None,
    }
}

/// A request for a retry that waits while a track plays ends its loop: the track is
/// opened again where it is, or at its start for a restart, no request waits any more,
/// and the request is the reason that the player thread then acts on.
pub proof fn law_retry_request_reopens_the_track(
    p: Playback,
    c: Controls,
    paused: bool,
    exclusive: bool,
)
    requires
        p.wf(),
        c.pending_retry != RetryReason::NoRetry,
    ensures
        ({
            let (after, step) = p.obeyed(c, paused, exclusive);
            let ms = if c.pending_retry == RetryReason::Restart {
                0
            } else {
                p.position() as u64
            };
            &&& loop_result(step) == Some(Some(ms))
            &&& after.last_retry == c.pending_retry
            &&& after.pending_retry == RetryReason::NoRetry
            &&& attempt_followed(after, Some(ms)) == (
                Controls { last_retry: RetryReason::NoRetry, ..after },
                Some((ms, retry_pause_of(c.pending_retry))),
            )
        }),
{
}

/// A track that cannot be opened puts the player to rest: it waits with the track that
/// it has, until a list or a command comes.
pub proof fn law_unopened_track_rests(c: Controls, len: int, found: Option<usize>, shuffled: usize)
    requires
        0 < len <= usize::MAX,
        !c.list_changed,
        c.waiting_commands().len() == 0,
    ensures
        ({
            let (taken, again) = attempt_followed(left(TrackExit::OpenFailed, c), None);
            let (after, step) = after_track_spec(taken, len, found, shuffled);
            &&& again is None
            &&& step == AfterTrack::Wait
            &&& after.track == c.track
            &&& after.state == PlayerState::Stopped
        }),
{
}

/// A track is opened again only for a reason that is recorded, and never because it
/// could not be opened.
pub proof fn law_reopened_track_has_a_reason(
    exit: TrackExit,
    before: RetryReason,
    start_ms: u64,
    here: u64,
)
    requires
        resume_of(exit, start_ms, here) is Some,
    ensures
        reason_of(exit, before) != RetryReason::NoRetry,
        reason_of(exit, before) != RetryReason::TrackOpenFailed,
        reason_of(exit, before) == reason_of(exit, RetryReason::NoRetry),
{
}

/// A device that is lost is given time to settle before the track is opened again.
pub proof fn law_lost_device_settles(exit: TrackExit, before: RetryReason)
    requires
        device_lost(exit),
    ensures
        retry_pause_of(reason_of(exit, before)) == RetryPause::SettleDevice,
{
}

/// A pause gives back a device that the player has for itself, and is then a reason to
/// open the track again where it is, without a wait; a shared device is kept.
pub proof fn law_pause_gives_an_exclusive_device_back(p: Playback, c: Controls, exclusive: bool)
    requires
        p.wf(),
        c.pending_retry == RetryReason::NoRetry,
        !c.aborts(),
    ensures
        ({
            let (after, step) = p.obeyed(c, true, exclusive);
            &&& after.state == PlayerState::Paused
            &&& exclusive ==> {
                &&& loop_result(step) == Some(Some(p.position() as u64))
                &&& after.last_retry == RetryReason::PauseExclusiveRelease
                &&& retry_pause_of(after.last_retry) == RetryPause::Nothing
            }
            &&& !exclusive ==> loop_result(step) is None && after.last_retry == c.last_retry
        }),
{
}

/// The exits of a track by what they mean: a track that ended, was not begun or was left in a
/// pause is not opened again and leaves the player as it is; one that could not be opened, or
/// has no decoder, stops the player; every other one is opened again, from its start where it
/// had not begun to play, and from where it was where it had.
pub proof fn law_exits_have_their_meaning(
    exit: TrackExit,
    c: Controls,
    start_ms: u64,
    here: u64,
)
    ensures
        exit == TrackExit::Ended || exit == TrackExit::NotBegun || exit == TrackExit::LeftInPause
            || exit == TrackExit::DeviceGone ==> resume_of(exit, start_ms, here) is None && left(
            exit,
            c,
        ) == c,
        exit == TrackExit::OpenFailed || exit == TrackExit::DecoderGone ==> resume_of(
            exit,
            start_ms,
            here,
        ) is None && left(exit, c).state == PlayerState::Stopped && left(exit, c).last_retry
            == RetryReason::TrackOpenFailed,
        exit == TrackExit::DeviceFailed || exit == TrackExit::DeviceInUse || exit is StartFailed
            ==> resume_of(exit, start_ms, here) == Some(start_ms) && left(exit, c).state == c.state,
        exit == TrackExit::ResumeFailed || exit is WriteFailed ==> resume_of(exit, start_ms, here)
            == Some(here) && left(exit, c).state == c.state,
        left(exit, c).track == c.track && left(exit, c).pending_retry == c.pending_retry
            && left(exit, c).to_next == c.to_next,
        left(TrackExit::DeviceFailed, c).last_retry == RetryReason::WasapiInitFailed,
        left(TrackExit::DeviceInUse, c).last_retry == RetryReason::DeviceInUse,
        left(TrackExit::ResumeFailed, c).last_retry == RetryReason::ResumeStartStreamFailed,
        left(TrackExit::StartFailed(None), c).last_retry == RetryReason::StartStreamFailed,
        left(TrackExit::WriteFailed(None), c).last_retry == RetryReason::RenderWriteFailed,
        left(TrackExit::StartFailed(Some(0x88890004)), c).last_retry
            == RetryReason::DeviceInvalidated,
        left(TrackExit::WriteFailed(Some(0x88890004)), c).last_retry
            == RetryReason::DeviceInvalidated,
{
}

/// What is stopped when a track is left: the decoder wherever it was started, and the stream
/// wherever it runs; only a device in use makes the player pause.
pub proof fn law_what_runs_is_stopped(exit: TrackExit)
    ensures
        cleanup_spec(exit).stops_decoder <==> (exit is StartFailed || exit is LeftInPause
            || exit is ResumeFailed || exit is WriteFailed || exit is Ended),
        cleanup_spec(exit).stops_stream ==> cleanup_spec(exit).stops_decoder,
        cleanup_spec(TrackExit::Ended).stops_stream,
        cleanup_spec(exit).pauses <==> exit == TrackExit::DeviceInUse,
{
}

/// The decoder is sent to a position without anything else being told.
pub proof fn law_decoder_is_sent_to_the_position(signals: TrackSignals, ms: u64)
    requires
        ms <= i64::MAX,
    ensures
        sent_to(signals, ms).seek_to_ms == ms,
        sent_to(signals, ms).seek_req_ms == signals.seek_req_ms,
        sent_to(signals, ms).sought == signals.sought,
        TrackSignals::quiet().seek_req_ms < 0 && TrackSignals::quiet().seek_to_ms < 0,
        !TrackSignals::quiet().sought && !TrackSignals::quiet().stop,
        known_duration(Some(ms), 7) == ms && known_duration(None, ms) == ms,
{
}

/// A wait ends with the end of the pause alone; a command is looked at first, and a track that
/// has to be left is left without a wait.
pub proof fn law_wait_ends_with_the_pause(abort: bool, wake_up: u32)
    ensures
        waited(abort, wake_up) == WaitStep::GoOn <==> !abort && wake_up == 1,
        waited(false, 0) == WaitStep::AskAgain,
        abort || wake_up > 1 ==> waited(abort, wake_up) == WaitStep::Leave,
{
}

} // verus!
