//! The decoder's loop over one track: seeking, the end of the track, waiting for
//! room, and the planes that feed the resampler.

use vstd::prelude::*;

verus! {

/// The frames that are asked of a decoder at a time.
pub const DECODE_BLOCK_FRAMES: usize = 4096;

/// The frames that the resampler takes at a time.
pub const RESAMPLE_CHUNK_FRAMES: usize = 1024;

/// What the top of the loop finds.
#[derive(Clone, Copy, PartialEq, Eq, Structural, Debug)]
pub enum SeekPoll {
    Stop,
    /// Seek to this position, and report back.
    Seek(i64),
    Nothing,
}

/// What the loop does after a seek was dealt with.
#[derive(Clone, Copy, PartialEq, Eq, Structural, Debug)]
pub enum DecodeStep {
    /// Put this many end markers into the buffer, then wait to be woken.
    PushEndMarkers(usize),
    /// Wait to be woken by a stop or a seek.
    WaitForWakeUp,
    /// Wait for the end of the pause, or to be woken.
    WaitForResume,
    /// Wait for room in the buffer.
    WaitForRoom,
    Stop,
    /// Decode a block.
    Decode,
}

/// What came of a block.
#[derive(Clone, Copy, PartialEq, Eq, Structural, Debug)]
pub enum BlockOutcome {
    Samples,
    /// No sample came, or the decoder failed: the track has ended.
    End,
}

/// The state of the decoding of one track.
#[derive(Clone, Copy, PartialEq, Eq, Structural, Debug)]
pub struct DecodeTask {
    /// The channels of the decoder.
    pub channels: usize,
    /// The channels that the player was told of, each of which gets an end marker.
    pub marked_channels: usize,
    pub output_rate: usize,
    pub at_eof: bool,
    pub markers_pushed: bool,
}

impl DecodeTask {
    /// The decoding of a track that has just been opened by a decoder with `channels`
    /// channels, for a player that was told of `marked_channels`.
    pub fn new(channels: usize, marked_channels: usize, output_rate: usize) -> (r: DecodeTask)
        ensures
            r == (DecodeTask {
                channels,
                marked_channels,
                output_rate,
                at_eof: false,
                markers_pushed: false,
            }),
    {
        DecodeTask { channels, marked_channels, output_rate, at_eof: false, markers_pushed: false }
    }

    /// The state at the top of the loop, and what is found there.
    pub open spec fn poll_spec(self, stop: bool, seek_to: i64) -> (DecodeTask, SeekPoll) {
        if stop {
            (self, SeekPoll::Stop)
        } else if seek_to >= 0 {
            (DecodeTask { markers_pushed: false, ..self }, SeekPoll::Seek(seek_to))
        } else {
            (self, SeekPoll::Nothing)
        }
    }

    /// Looks for a stop and a seek. `seek_to` is minus one where none was asked
    /// for.
    pub fn poll(&mut self, stop: bool, seek_to: i64) -> (r: SeekPoll)
        ensures
            (*final(self), r) == old(self).poll_spec(stop, seek_to),
    {
        if stop {
            return SeekPoll::Stop;
        }
        if seek_to >= 0 {
            self.markers_pushed = false;
            return SeekPoll::Seek(seek_to);
        }
        SeekPoll::Nothing
    }

    /// A seek has been tried. The result says whether the planes of the
    /// resampler have to be emptied and the player told.
    pub fn sought(&mut self, succeeded: bool) -> (restart: bool)
        ensures
            restart == succeeded,
            *final(self) == (DecodeTask {
                at_eof: old(self).at_eof && !succeeded,
                ..*old(self)
            }),
    {
        if succeeded {
            self.at_eof = false;
        }
        succeeded
    }

    /// The samples that have to fit before a block is decoded: a tenth of a
    /// second.
    pub open spec fn room_needed(self) -> int {
        self.output_rate * self.channels / 10
    }

    /// The state after the rest of the loop's checks, and what to do.
    pub open spec fn step_spec(self, paused: bool, vacant: int, stop: bool) -> (
        DecodeTask,
        DecodeStep,
    ) {
        if self.at_eof && !self.markers_pushed {
            (
                DecodeTask { markers_pushed: true, ..self },
                DecodeStep::PushEndMarkers(self.marked_channels),
            )
        } else if self.at_eof {
            (self, DecodeStep::WaitForWakeUp)
        } else if paused {
            (self, DecodeStep::WaitForResume)
        } else if stop {
            (self, DecodeStep::Stop)
        } else if vacant < self.room_needed() {
            (self, DecodeStep::WaitForRoom)
        } else {
            (self, DecodeStep::Decode)
        }
    }

    /// Decides what to do when no seek is due. `vacant` is the room in the
    /// buffer.
    pub fn step(&mut self, paused: bool, vacant: usize, stop: bool) -> (r: DecodeStep)
        requires
            old(self).output_rate * old(self).channels <= usize::MAX,
        ensures
            (*final(self), r) == old(self).step_spec(paused, vacant as int, stop),
    {
        if self.at_eof {
            if !self.markers_pushed {
                self.markers_pushed = true;
                return DecodeStep::PushEndMarkers(self.marked_channels);
            }
            return DecodeStep::WaitForWakeUp;
        }
        if paused {
            return DecodeStep::WaitForResume;
        }
        if stop {
            return DecodeStep::Stop;
        }
        if vacant < self.output_rate * self.channels / 10 {
            return DecodeStep::WaitForRoom;
        }
        DecodeStep::Decode
    }

    /// A block has been decoded: `Some` with the number of its samples, or
    /// `None` where the decoder failed.
    pub fn decoded(&mut self, samples: Option<usize>) -> (r: BlockOutcome)
        ensures
            r == (if samples is Some && samples->0 > 0 {
                BlockOutcome::Samples
            } else {
                BlockOutcome::End
            }),
            *final(self) == (DecodeTask {
                at_eof: old(self).at_eof || r == BlockOutcome::End,
                ..*old(self)
            }),
    {
        match samples {
            Some(n) => if n > 0 {
                return BlockOutcome::Samples;
            },
            None => {},
        }
        self.at_eof = true;
        BlockOutcome::End
    }
}

/// The end of a track is marked once, until a seek gives the track a new end.
pub proof fn law_end_is_marked_once(t: DecodeTask, paused: bool, vacant: int, stop: bool)
    requires
        t.at_eof,
    ensures
        ({
            let (after, _) = t.step_spec(paused, vacant, stop);
            after.step_spec(paused, vacant, stop).1 == DecodeStep::WaitForWakeUp
        }),
{
}

/// After a seek that succeeded the track decodes again, and its end is marked
/// anew.
pub proof fn law_seek_revives_the_track(t: DecodeTask, seek_to: i64, vacant: int)
    requires
        seek_to >= 0,
        vacant >= t.room_needed(),
    ensures
        ({
            let (polled, found) = t.poll_spec(false, seek_to);
            let sought = DecodeTask { at_eof: false, ..polled };
            &&& found == SeekPoll::Seek(seek_to)
            &&& sought.step_spec(false, vacant, false).1 == DecodeStep::Decode
            &&& DecodeTask { at_eof: true, ..sought }.step_spec(false, vacant, false).1
                == DecodeStep::PushEndMarkers(t.marked_channels)
        }),
{
}

/// What is left to do for a track that could not be opened: its end is marked, so that
/// the player does not wait for samples, and then only a stop counts. A seek does not.
#[derive(Clone, Copy, PartialEq, Eq, Structural, Debug)]
pub struct UnopenedTask {
    /// How many end markers are still to be put into the buffer.
    pub markers_left: usize,
}

impl UnopenedTask {
    /// A track of `channels` channels that could not be opened: one marker is owed for
    /// each.
    pub fn new(channels: usize) -> (r: UnopenedTask)
        ensures
            r.markers_left == channels,
    {
        UnopenedTask { markers_left: channels }
    }

    /// The state after a step, and what to do. `vacant` is the room in the buffer.
    pub open spec fn step_spec(self, vacant: int, stop: bool) -> (UnopenedTask, DecodeStep) {
        if self.markers_left > 0 && vacant > 0 {
            (
                UnopenedTask { markers_left: (self.markers_left - 1) as usize },
                DecodeStep::PushEndMarkers(1),
            )
        } else if stop {
            (self, DecodeStep::Stop)
        } else if self.markers_left > 0 {
            (self, DecodeStep::WaitForRoom)
        } else {
            (self, DecodeStep::WaitForWakeUp)
        }
    }

    /// Decides what to do next.
    pub fn step(&mut self, vacant: usize, stop: bool) -> (r: DecodeStep)
        ensures
            (*final(self), r) == old(self).step_spec(vacant as int, stop),
    {
        if self.markers_left > 0 && vacant > 0 {
            self.markers_left = self.markers_left - 1;
            return DecodeStep::PushEndMarkers(1);
        }
        if stop {
            return DecodeStep::Stop;
        }
        if self.markers_left > 0 {
            DecodeStep::WaitForRoom
        } else {
            DecodeStep::WaitForWakeUp
        }
    }
}

/// The state after steps in which there was room for `vacants[i]` samples, and how many
/// markers they put into the buffer.
pub open spec fn markers_after(t: UnopenedTask, vacants: Seq<nat>) -> (UnopenedTask, nat)
    decreases vacants.len(),
{
    if vacants.len() == 0 {
        (t, 0)
    } else {
        let (before, count) = markers_after(t, vacants.drop_last());
        let (after, step) = before.step_spec(vacants.last() as int, false);
        (
            after,
            match step {
                DecodeStep::PushEndMarkers(n) => count + n as nat,
                _ => count,
            },
        )
    }
}

/// The end of a track that could not be opened is marked once: however often the task is
/// woken, one marker for each channel is put into the buffer, and no more.
pub proof fn law_unopened_track_is_marked_once(t: UnopenedTask, vacants: Seq<nat>)
    ensures
        markers_after(t, vacants).1 + markers_after(t, vacants).0.markers_left == t.markers_left,
        markers_after(t, vacants).1 <= t.markers_left,
    decreases vacants.len(),
{
    if vacants.len() > 0 {
        law_unopened_track_is_marked_once(t, vacants.drop_last());
    }
}

/// Sample `channel` of frame `frame` in an interleaved block.
pub open spec fn interleaved_index(channel: int, frame: int, channels: int) -> int {
    frame * channels + channel
}

/// The place of a sample in an interleaved block.
pub fn calc_index(channel: usize, frame: usize, channels: usize) -> (r: usize)
    requires
        interleaved_index(channel as int, frame as int, channels as int) <= usize::MAX,
    ensures
        r == interleaved_index(channel as int, frame as int, channels as int),
{
    assert(frame * channels >= 0) by (nonlinear_arith)
        requires
            frame >= 0,
            channels >= 0,
    ;
    frame * channels + channel
}

/// The samples of one channel of an interleaved block, whole frames only.
pub open spec fn channel_samples<T>(samples: Seq<T>, channels: int, channel: int) -> Seq<T> {
    Seq::new(
        (samples.len() as int / channels) as nat,
        |i: int| samples[interleaved_index(channel, i, channels)],
    )
}

/// The contents of the planes.
pub open spec fn plane_views<T>(planes: Seq<Vec<T>>) -> Seq<Seq<T>> {
    planes.map_values(|p: Vec<T>| p@)
}

/// Appends the samples of each channel to its plane.
pub fn split_channels<T: Copy>(samples: &Vec<T>, planes: &mut Vec<Vec<T>>)
    requires
        old(planes)@.len() > 0,
    ensures
        final(planes)@.len() == old(planes)@.len(),
        forall|c: int|
            0 <= c < old(planes)@.len() ==> #[trigger] final(planes)@[c]@ == old(planes)@[c]@
                + channel_samples(samples@, old(planes)@.len() as int, c),
{
    let channels: usize = planes.len();
    let total: usize = samples.len();
    let frames: usize = total / channels;
    let ghost before = planes@;
    let mut c: usize = 0;
    while c < channels
        invariant
            c <= channels,
            channels > 0,
            channels == planes@.len(),
            before.len() == channels,
            total == samples@.len(),
            frames == samples@.len() as int / channels as int,
            forall|k: int|
                0 <= k < c ==> #[trigger] planes@[k]@ == before[k]@ + channel_samples(
                    samples@,
                    channels as int,
                    k,
                ),
            forall|k: int| c <= k < channels ==> #[trigger] planes@[k] == before[k],
        decreases channels - c,
    {
        let mut plane: Vec<T> = planes.remove(c);
        let ghost rest = planes@;
        let mut i: usize = 0;
        while i < frames
            invariant
                i <= frames,
                c < channels,
                before.len() == channels,
                total == samples@.len(),
                frames == samples@.len() as int / channels as int,
                plane@ == before[c as int]@ + channel_samples(
                    samples@,
                    channels as int,
                    c as int,
                ).take(i as int),
            decreases frames - i,
        {
            proof {
                let (n, ch, ix) = (samples@.len() as int, channels as int, i as int);
                assert(ix * ch + ch <= n) by (nonlinear_arith)
                    requires
                        ix + 1 <= n / ch,
                        ch > 0,
                        n >= 0,
                ;
                assert(ix * ch >= 0) by (nonlinear_arith)
                    requires
                        ix >= 0,
                        ch >= 0,
                ;
                let all = channel_samples(samples@, ch, c as int);
                assert(all.take(ix + 1) =~= all.take(ix).push(all[ix]));
            }
            plane.push(samples[i * channels + c]);
            i += 1;
        }
        let ghost full = channel_samples(samples@, channels as int, c as int);
        assert(full.take(frames as int) =~= full);
        planes.insert(c, plane);
        c += 1;
    }
}

/// The frames that every plane holds.
pub open spec fn common_frames<T>(planes: Seq<Seq<T>>) -> nat
    decreases planes.len(),
{
    if planes.len() == 0 {
        0
    } else if planes.len() == 1 {
        planes[0].len()
    } else {
        let front = common_frames(planes.drop_last());
        if planes.last().len() < front {
            planes.last().len()
        } else {
            front
        }
    }
}

/// The frames that every plane holds; zero where there is no plane.
pub fn available_frames<T>(planes: &Vec<Vec<T>>) -> (r: usize)
    ensures
        r == common_frames(plane_views(planes@)),
{
    if planes.len() == 0 {
        return 0;
    }
    let mut r: usize = planes[0].len();
    let mut i: usize = 1;
    assert(plane_views(planes@).take(1)[0] == planes@[0]@);
    while i < planes.len()
        invariant
            1 <= i <= planes@.len(),
            r == common_frames(plane_views(planes@).take(i as int)),
        decreases planes@.len() - i,
    {
        proof {
            let views = plane_views(planes@);
            assert(views.take(i + 1).drop_last() =~= views.take(i as int));
            assert(views.take(i + 1).last() == planes@[i as int]@);
        }
        if planes[i].len() < r {
            r = planes[i].len();
        }
        i += 1;
    }
    assert(plane_views(planes@).take(planes@.len() as int) =~= plane_views(planes@));
    r
}

/// How far the resampler has read into the planes.
#[derive(Clone, Copy, PartialEq, Eq, Structural, Debug)]
pub struct ResampleWindow {
    pub offset: usize,
    /// The frames that the resampler first asked for.
    pub input_frames: usize,
}

impl ResampleWindow {
    /// Whether the planes hold another input block.
    pub fn is_ready(&self, available: usize, needed: usize) -> (r: bool)
        ensures
            r == ((if available >= self.offset {
                available - self.offset
            } else {
                0
            }) >= needed),
    {
        available.saturating_sub(self.offset) >= needed
    }

    /// The resampler has taken `frames` frames.
    pub fn consumed(&mut self, frames: usize)
        requires
            old(self).offset + frames <= usize::MAX,
        ensures
            *final(self) == (ResampleWindow { offset: (old(self).offset + frames) as usize, ..*old(
                self,
            ) }),
    {
        self.offset = self.offset + frames;
    }

    /// Whether so much has been read that the planes are worth moving up.
    pub open spec fn compacts(self) -> bool {
        self.offset > 0 && self.offset >= self.input_frames * 4
    }

    /// Drops what has been read from the planes, where that is worth it.
    pub fn compact<T: Copy>(&mut self, planes: &mut Vec<Vec<T>>)
        requires
            old(self).input_frames * 4 <= usize::MAX,
            forall|c: int|
                0 <= c < old(planes)@.len() ==> old(self).offset <= #[trigger] old(
                    planes,
                )@[c]@.len(),
        ensures
            final(planes)@.len() == old(planes)@.len(),
            final(self).input_frames == old(self).input_frames,
            final(self).offset == (if old(self).compacts() {
                0
            } else {
                old(self).offset
            }),
            forall|c: int|
                0 <= c < old(planes)@.len() ==> #[trigger] final(planes)@[c]@.skip(
                    final(self).offset as int,
                ) == old(planes)@[c]@.skip(old(self).offset as int),
    {
        if self.offset > 0 && self.offset >= self.input_frames * 4 {
            let ghost before = planes@;
            let mut c: usize = 0;
            let n: usize = planes.len();
            while c < n
                invariant
                    c <= n,
                    n == planes@.len(),
                    before.len() == n,
                    forall|k: int| 0 <= k < n ==> self.offset <= #[trigger] before[k]@.len(),
                    forall|k: int|
                        0 <= k < c ==> #[trigger] planes@[k]@ == before[k]@.skip(
                            self.offset as int,
                        ),
                    forall|k: int| c <= k < n ==> #[trigger] planes@[k] == before[k],
                decreases n - c,
            {
                let mut plane: Vec<T> = planes.remove(c);
                assert(before[c as int]@.len() >= self.offset);
                let rest: Vec<T> = plane.split_off(self.offset);
                planes.insert(c, rest);
                assert(planes@[c as int]@ =~= before[c as int]@.skip(self.offset as int));
                c += 1;
            }
            self.offset = 0;
            assert forall|k: int| 0 <= k < n implies #[trigger] planes@[k]@.skip(0)
                == before[k]@.skip(old(self).offset as int) by {
                assert(planes@[k]@.skip(0) =~= planes@[k]@);
            }
        }
    }

    /// A seek breaks the stream: what was read and buffered is dropped.
    pub fn restart<T>(&mut self, planes: &mut Vec<Vec<T>>)
        ensures
            final(self).offset == 0,
            final(self).input_frames == old(self).input_frames,
            final(planes)@.len() == old(planes)@.len(),
            forall|c: int|
                0 <= c < final(planes)@.len() ==> #[trigger] final(planes)@[c]@.len() == 0,
    {
        let n: usize = planes.len();
        let mut empty: Vec<Vec<T>> = Vec::new();
        let mut i: usize = 0;
        while i < n
            invariant
                i <= n,
                empty@.len() == i,
                forall|c: int| 0 <= c < i ==> #[trigger] empty@[c]@.len() == 0,
            decreases n - i,
        {
            empty.push(Vec::new());
            i += 1;
        }
        *planes = empty;
        self.offset = 0;
    }
}

/// The frames of an interleaved block come back from its planes.
pub proof fn law_planes_hold_every_sample<T>(samples: Seq<T>, channels: int, i: int)
    requires
        channels > 0,
        samples.len() as int % channels == 0,
        0 <= i < samples.len(),
    ensures
        i / channels < channel_samples(samples, channels, i % channels).len(),
        channel_samples(samples, channels, i % channels)[i / channels] == samples[i],
{
    let n = samples.len() as int;
    assert(i / channels < n / channels && i / channels >= 0 && (i / channels) * channels + i
        % channels == i) by (nonlinear_arith)
        requires
            channels > 0,
            n % channels == 0,
            0 <= i < n,
    ;
}

/// A block is decoded where the track has not ended, nothing pauses or stops it, and a tenth
/// of a second fits into the buffer; else the decoder waits for what is missing.
pub proof fn law_decoder_waits_for_what_is_missing(
    t: DecodeTask,
    paused: bool,
    vacant: int,
    stop: bool,
)
    requires
        vacant >= 0,
    ensures
        ({
            let (after, step) = t.step_spec(paused, vacant, stop);
            let room = t.output_rate * t.channels;
            &&& step is PushEndMarkers <==> t.at_eof && !t.markers_pushed
            &&& step is PushEndMarkers ==> step->PushEndMarkers_0 == t.marked_channels
                && after.markers_pushed
            &&& step is WaitForWakeUp <==> t.at_eof && t.markers_pushed
            &&& step is WaitForResume <==> !t.at_eof && paused
            &&& step is Stop <==> !t.at_eof && !paused && stop
            &&& !t.at_eof && !paused && !stop && vacant * 10 >= room ==> step is Decode
            &&& !t.at_eof && !paused && !stop && vacant * 10 + 9 < room ==> step is WaitForRoom
            &&& !(step is PushEndMarkers) ==> after == t
            &&& after.at_eof == t.at_eof
        }),
{
    assert(t.output_rate * t.channels >= 0) by (nonlinear_arith)
        requires
            t.output_rate >= 0,
            t.channels >= 0,
    ;
}

/// A stop is heard before a seek, and a seek takes back that the end was marked.
pub proof fn law_stop_is_heard_first(t: DecodeTask, seek_to: i64)
    ensures
        t.poll_spec(true, seek_to) == (t, SeekPoll::Stop),
        seek_to >= 0 ==> t.poll_spec(false, seek_to).1 == SeekPoll::Seek(seek_to) && !t.poll_spec(
            false,
            seek_to,
        ).0.markers_pushed,
        seek_to < 0 ==> t.poll_spec(false, seek_to) == (t, SeekPoll::Nothing),
{
}

/// The frames that all planes have are those of the shortest one.
pub proof fn law_common_frames_are_in_every_plane<T>(planes: Seq<Seq<T>>, c: int)
    requires
        0 <= c < planes.len(),
    ensures
        common_frames(planes) <= planes[c].len(),
        exists|k: int| 0 <= k < planes.len() && #[trigger] planes[k].len() == common_frames(planes),
    decreases planes.len(),
{
    if planes.len() == 1 {
        assert(planes[0].len() == common_frames(planes));
    } else {
        let front = planes.drop_last();
        law_common_frames_are_in_every_plane(
            front,
            if c < front.len() {
                c
            } else {
                0
            },
        );
        let k = choose|k: int|
            0 <= k < front.len() && #[trigger] front[k].len() == common_frames(front);
        assert(planes[k].len() == front[k].len());
        assert(planes[planes.len() - 1] == planes.last());
        if c < front.len() {
            assert(front[c] == planes[c]);
        }
    }
}

/// The samples of a track are numbered frame by frame, and in each by channel.
pub proof fn law_samples_are_numbered_by_frame(channel: int, frame: int, channels: int)
    requires
        0 <= channel < channels,
        0 <= frame,
    ensures
        interleaved_index(channel, frame, channels) / channels == frame,
        interleaved_index(channel, frame, channels) % channels == channel,
{
    vstd::arithmetic::div_mod::lemma_fundamental_div_mod_converse(
        frame * channels + channel,
        channels,
        frame,
        channel,
    );
}

/// A window on the planes moves them up once it has passed four times what it needs.
pub proof fn law_passed_samples_are_dropped_in_time(w: ResampleWindow)
    ensures
        w.offset == 0 ==> !w.compacts(),
        w.offset > 0 ==> (w.compacts() <==> w.offset >= 4 * w.input_frames),
{
}

} // verus!
