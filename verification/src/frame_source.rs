//! From the frames and packets of a decoder to samples: which frames are passed
//! over, and which carry another stream inside.

use crate::pcm::{
    first_words, frame_layout_of, frame_values, frame_values_spec, interleaved_pair,
    law_frames_are_interleaved, le_value, pcm_probe_dts_in_s16le_words, planes_are_full,
    planes_present, sample_bytes, sync_at, FrameError, Plane, FRAME_PLANES,
};
use crate::pcm_stereo::{carries_words, frame_words, has_plane, plane_words};
use vstd::prelude::*;

verus! {

/// A frame as the decoder hands it out.
pub struct Frame {
    pub format: i32,
    pub samples: i32,
    pub planes: Vec<Plane>,
    /// Whether the frame lists all of its planes.
    pub extended: bool,
}

/// What is made of a frame.
pub enum FrameStep {
    /// There is none: the track ends.
    End,
    /// It holds nothing, and the next one is asked for.
    Skip,
    /// The stream has no channels.
    NoChannels,
    /// It carries another stream; these are the words of it.
    Carried(Vec<u16>),
    /// The bits of its samples, interleaved.
    Samples(Vec<u64>),
    Failed(FrameError),
}

/// What is made of a frame, with lists taken by view.
pub enum Step {
    End,
    Skip,
    NoChannels,
    Carried(Seq<u16>),
    Samples(Seq<u64>),
    Failed(FrameError),
}

impl View for FrameStep {
    type V = Step;

    open spec fn view(&self) -> Step {
        match self {
            FrameStep::End => Step::End,
            FrameStep::Skip => Step::Skip,
            FrameStep::NoChannels => Step::NoChannels,
            FrameStep::Carried(words) => Step::Carried(words@),
            FrameStep::Samples(bits) => Step::Samples(bits@),
            FrameStep::Failed(e) => Step::Failed(*e),
        }
    }
}

/// How many words are looked at for another stream.
pub const PROBE_WORDS: usize = 65536;

/// How many frames of two channels are looked at for another stream.
pub const PROBE_FRAMES: usize = 8192;

/// The words that a frame of two channels carries; `None` where it carries none.
pub open spec fn words_in_frame(frame: Frame) -> Option<Seq<u16>> {
    match frame_layout_of(frame.format) {
        Some(layout) => if !carries_words(layout.kind) || !has_plane(frame.planes@, 0) || (
        layout.planar && !has_plane(frame.planes@, 1)) {
            None
        } else if layout.planar {
            Some(
                interleaved_pair(
                    plane_words(frame.planes@, 0, layout.kind, frame.samples as int),
                    plane_words(frame.planes@, 1, layout.kind, frame.samples as int),
                    frame.samples as nat,
                ),
            )
        } else {
            Some(plane_words(frame.planes@, 0, layout.kind, frame.samples * 2))
        },
        None => None,
    }
}

/// Whether another stream begins among the first `limit` words.
pub open spec fn begins_stream(words: Seq<u16>, limit: int) -> bool {
    exists|i: int| #[trigger] sync_at(first_words(words, limit), i)
}

/// The samples of a frame, or why there are none.
pub open spec fn samples_in_frame(frame: Frame, channels: int) -> Step {
    match frame_layout_of(frame.format) {
        None => Step::Failed(FrameError::UnsupportedFormat(frame.format)),
        Some(layout) => if layout.planar && !frame.extended && channels > FRAME_PLANES {
            Step::Failed(FrameError::PlanesMissing)
        } else if planes_present(
            frame.planes@,
            if layout.planar {
                channels
            } else {
                1
            },
        ) {
            Step::Samples(
                frame_values_spec(frame.planes@, layout, frame.samples as int, channels),
            )
        } else {
            Step::Failed(FrameError::EmptyData)
        },
    }
}

/// The frames of a stream.
#[derive(Clone, Copy, PartialEq, Eq, Structural, Debug)]
pub struct FrameSource {
    pub channels: u16,
    pub bits_per_sample: u16,
    /// Whether it was looked for another stream inside.
    pub probe_checked: bool,
}

impl FrameSource {
    /// Whether the next frame is looked at for another stream.
    pub open spec fn probes(self) -> bool {
        !self.probe_checked && self.channels == 2 && self.bits_per_sample == 16
    }

    /// Whether a frame is the first that was looked at, and carries another stream.
    pub open spec fn finds_stream(self, frame: Frame) -> bool {
        self.probes() && words_in_frame(frame) is Some && begins_stream(
            words_in_frame(frame)->0,
            PROBE_WORDS as int,
        )
    }

    /// What is made of a frame.
    pub open spec fn made_of(self, frame: Option<Frame>) -> Step {
        match frame {
            None => Step::End,
            Some(f) => if f.samples <= 0 {
                Step::Skip
            } else if self.channels == 0 {
                Step::NoChannels
            } else if self.finds_stream(f) {
                Step::Carried(words_in_frame(f)->0)
            } else {
                samples_in_frame(f, self.channels as int)
            },
        }
    }

    /// Whether the lists of a frame are as long as it counts.
    pub open spec fn frame_is_full(self, frame: Frame) -> bool {
        frame.samples > 0 ==> {
            &&& frame.samples * self.channels <= i32::MAX
            &&& frame_layout_of(frame.format) matches Some(layout) ==> planes_are_full(
                frame.planes@,
                layout,
                frame.samples as int,
                self.channels as int,
            )
        }
    }

    /// Makes samples of the next frame. The first frame of two channels is looked at
    /// for another stream inside.
    pub fn next(&mut self, frame: Option<&Frame>) -> (r: FrameStep)
        requires
            frame matches Some(f) ==> old(self).frame_is_full(*f),
        ensures
            r@ == old(self).made_of(
                match frame {
                    Some(f) => Some(*f),
                    None => None,
                },
            ),
            *final(self) == (FrameSource {
                probe_checked: old(self).probe_checked || (frame is Some && frame->0.samples > 0
                    && old(self).probes()),
                ..*old(self)
            }),
    {
        let f = match frame {
            Some(f) => f,
            None => return FrameStep::End,
        };
        if f.samples <= 0 {
            return FrameStep::Skip;
        }
        if self.channels == 0 {
            return FrameStep::NoChannels;
        }
        let samples: usize = f.samples as usize;
        let channels: usize = self.channels as usize;
        if !self.probe_checked && self.channels == 2 && self.bits_per_sample == 16 {
            self.probe_checked = true;
            let found = frame_words(f.format, &f.planes, samples, channels);
            if let Ok(words) = found {
                assert(words_in_frame(*f) == Some(words@));
                match pcm_probe_dts_in_s16le_words(&words, PROBE_WORDS) {
                    Some(i) => {
                        assert(sync_at(first_words(words@, PROBE_WORDS as int), i as int));
                        return FrameStep::Carried(words);
                    },
                    None => {},
                }
            }
        }
        match frame_values(f.format, &f.planes, f.extended, samples, channels) {
            Ok(bits) => FrameStep::Samples(bits),
            Err(e) => FrameStep::Failed(e),
        }
    }
}

/// What came of the next packet of a stream.
#[derive(Clone, Copy, PartialEq, Eq, Structural, Debug)]
pub enum PacketEvent {
    /// It belongs to another track.
    OtherTrack,
    /// The decoder made this many samples of it.
    Decoded(usize),
    /// The decoder could not use it, and can go on.
    Recoverable,
    /// The decoder gave up, or the stream cannot be read.
    Broken,
    End,
}

/// What is done after a packet.
#[derive(Clone, Copy, PartialEq, Eq, Structural, Debug)]
pub enum PacketStep {
    Next,
    /// So many samples are given on.
    Give(usize),
    /// The end of the stream is told, by a block without samples.
    Finish,
    Fail,
}

/// What is done after a packet: those of other tracks, those that the decoder could not
/// use, and those without samples are passed over.
pub open spec fn step_after(event: PacketEvent) -> PacketStep {
    match event {
        PacketEvent::OtherTrack => PacketStep::Next,
        PacketEvent::Recoverable => PacketStep::Next,
        PacketEvent::Decoded(samples) => if samples == 0 {
            PacketStep::Next
        } else {
            PacketStep::Give(samples)
        },
        PacketEvent::End => PacketStep::Finish,
        PacketEvent::Broken => PacketStep::Fail,
    }
}

/// What is done after a packet.
pub fn packet_step(event: PacketEvent) -> (r: PacketStep)
    ensures
        r == step_after(event),
        r matches PacketStep::Give(samples) ==> samples > 0,
{
    match event {
        PacketEvent::OtherTrack => PacketStep::Next,
        PacketEvent::Recoverable => PacketStep::Next,
        PacketEvent::Decoded(samples) => if samples == 0 {
            PacketStep::Next
        } else {
            PacketStep::Give(samples)
        },
        PacketEvent::End => PacketStep::Finish,
        PacketEvent::Broken => PacketStep::Fail,
    }
}

/// How many samples the block holds that is made of some packets: those of the first
/// packet that is not passed over, none at the end of the stream. `None` where it takes
/// more packets, or where the stream is broken.
pub open spec fn block_len(events: Seq<PacketEvent>) -> Option<nat>
    decreases events.len(),
{
    if events.len() == 0 {
        None
    } else {
        match step_after(events[0]) {
            PacketStep::Next => block_len(events.drop_first()),
            PacketStep::Give(samples) => Some(samples as nat),
            PacketStep::Finish => Some(0),
            PacketStep::Fail => None,
        }
    }
}

/// A block without samples is the end of the stream, and nothing else: it comes where
/// the first packet that is not passed over is the end, and only there.
pub proof fn law_empty_block_is_the_end(events: Seq<PacketEvent>)
    ensures
        block_len(events) == Some(0nat) <==> exists|i: int|
            0 <= i < events.len() && #[trigger] events[i] == PacketEvent::End && forall|k: int|
                0 <= k < i ==> step_after(#[trigger] events[k]) == PacketStep::Next,
    decreases events.len(),
{
    if events.len() > 0 {
        let rest = events.drop_first();
        law_empty_block_is_the_end(rest);
        if step_after(events[0]) == PacketStep::Next {
            if block_len(events) == Some(0nat) {
                let j = choose|j: int|
                    0 <= j < rest.len() && #[trigger] rest[j] == PacketEvent::End && forall|k: int|
                        0 <= k < j ==> step_after(#[trigger] rest[k]) == PacketStep::Next;
                assert(events[j + 1] == PacketEvent::End);
                assert forall|k: int| 0 <= k < j + 1 implies step_after(#[trigger] events[k])
                    == PacketStep::Next by {
                    if k > 0 {
                        assert(rest[k - 1] == events[k]);
                    }
                }
            }
            if exists|i: int|
                0 <= i < events.len() && #[trigger] events[i] == PacketEvent::End && forall|k: int|
                    0 <= k < i ==> step_after(#[trigger] events[k]) == PacketStep::Next {
                let i = choose|i: int|
                    0 <= i < events.len() && #[trigger] events[i] == PacketEvent::End
                        && forall|k: int|
                        0 <= k < i ==> step_after(#[trigger] events[k]) == PacketStep::Next;
                assert(i > 0);
                assert(rest[i - 1] == PacketEvent::End);
                assert forall|k: int| 0 <= k < i - 1 implies step_after(#[trigger] rest[k])
                    == PacketStep::Next by {
                    assert(rest[k] == events[k + 1]);
                }
            }
        } else if step_after(events[0]) == PacketStep::Finish {
            assert(events[0] == PacketEvent::End);
        } else {
            assert forall|i: int|
                0 <= i < events.len() && #[trigger] events[i] == PacketEvent::End implies !(
            forall|k: int| 0 <= k < i ==> step_after(#[trigger] events[k]) == PacketStep::Next) by {
                assert(step_after(events[0]) != PacketStep::Next);
                assert(i != 0);
            }
        }
    }
}

/// The look for another stream in the first packet of two channels.
#[derive(Clone, Copy, PartialEq, Eq, Structural, Debug)]
pub struct PcmProbe {
    pub checked: bool,
}

impl PcmProbe {
    /// Nothing was looked at yet.
    pub fn new() -> (r: PcmProbe)
        ensures
            !r.checked,
    {
        PcmProbe { checked: false }
    }

    /// Whether a packet carries another stream. Only the first packet of two channels
    /// is looked at. `words` holds what its first frames carry, nothing where
    /// its samples carry none.
    pub fn look(&mut self, channels: usize, words: &Vec<u16>) -> (r: bool)
        ensures
            r == (!old(self).checked && channels == 2 && begins_stream(
                words@,
                PROBE_FRAMES * 2,
            )),
            final(self).checked == (old(self).checked || channels == 2),
    {
        if self.checked || channels != 2 {
            return false;
        }
        self.checked = true;
        match pcm_probe_dts_in_s16le_words(words, PROBE_FRAMES * 2) {
            Some(i) => {
                assert(sync_at(first_words(words@, PROBE_FRAMES * 2), i as int));
                true
            },
            None => false,
        }
    }
}

/// A frame that gives samples gives some: a stream ends where no frame comes, and not
/// before.
pub proof fn law_frames_give_samples(s: FrameSource, frame: Frame)
    ensures
        !(s.made_of(Some(frame)) is End),
        s.made_of(Some(frame)) matches Step::Samples(bits) ==> bits.len() > 0,
{
    if frame.samples > 0 && s.channels > 0 {
        let (n, c) = (frame.samples as int, s.channels as int);
        assert(n * c > 0) by (nonlinear_arith)
            requires
                n > 0,
                c > 0,
        ;
    }
}

/// A stream is looked into once: after the first frame with samples its frames are
/// taken as they are.
pub proof fn law_stream_is_looked_into_once(s: FrameSource, frame: Frame)
    requires
        s.probe_checked,
    ensures
        !(s.made_of(Some(frame)) is Carried),
{
}

/// A frame gives its samples frame by frame and channel by channel, each from where its
/// format keeps it: in the plane of its channel, or beside the others in the first one.
pub proof fn law_frame_gives_every_channel(s: FrameSource, frame: Frame, f: int, c: int)
    requires
        0 <= f < frame.samples,
        0 <= c < s.channels,
        frame_layout_of(frame.format) is Some,
        s.made_of(Some(frame)) is Samples,
    ensures
        ({
            let layout = frame_layout_of(frame.format)->0;
            let width = sample_bytes(layout.kind);
            let given = s.made_of(Some(frame))->Samples_0;
            &&& given.len() == frame.samples * s.channels
            &&& given[f * s.channels + c] == (if layout.planar {
                le_value(frame.planes@[c]->0@, f * width, width) as u64
            } else {
                le_value(frame.planes@[0]->0@, (f * s.channels + c) * width, width) as u64
            })
        }),
{
    law_frames_are_interleaved(
        frame.planes@,
        frame_layout_of(frame.format)->0,
        frame.samples as int,
        s.channels as int,
        f,
        c,
    );
}

/// Which frames give samples: those of a known format that are there as a whole. The end of
/// the stream, an empty frame, a stream without channels and a carried stream are each told.
pub proof fn law_whole_frames_give_samples(s: FrameSource, frame: Frame)
    ensures
        s.made_of(None) is End,
        frame.samples <= 0 ==> s.made_of(Some(frame)) is Skip,
        frame.samples > 0 && s.channels == 0 ==> s.made_of(Some(frame)) is NoChannels,
        frame.samples > 0 && s.channels > 0 && s.channels != 2 ==> {
            let step = s.made_of(Some(frame));
            let layout = frame_layout_of(frame.format);
            &&& layout is None ==> step == Step::Failed(FrameError::UnsupportedFormat(frame.format))
            &&& layout is Some && !layout->0.planar && has_plane(frame.planes@, 0) ==> step
                is Samples
            &&& layout is Some && !layout->0.planar && !has_plane(frame.planes@, 0) ==> step
                == Step::Failed(FrameError::EmptyData)
            &&& layout is Some && layout->0.planar && s.channels <= 8 && (forall|c: int|
                0 <= c < s.channels ==> has_plane(frame.planes@, c)) ==> step is Samples
            &&& layout is Some && layout->0.planar && s.channels > 8 && !frame.extended ==> step
                == Step::Failed(FrameError::PlanesMissing)
        },
{
    let planes = frame.planes@;
    if forall|c: int| 0 <= c < s.channels ==> has_plane(planes, c) {
        assert forall|c: int| 0 <= c < s.channels implies c < planes.len() && (
        #[trigger] planes[c]) is Some by {
            assert(has_plane(planes, c));
        }
        assert(planes_present(planes, s.channels as int));
    }
    assert(has_plane(planes, 0) <==> planes_present(planes, 1)) by {
        if planes_present(planes, 1) {
            assert(0 < planes.len() && planes[0] is Some);
        }
    }
}

/// A stream is looked for in the first frame of two channels of 16 bits only, and is told
/// with all the words of the frame.
pub proof fn law_carried_stream_is_told_with_its_words(s: FrameSource, frame: Frame)
    requires
        s.made_of(Some(frame)) is Carried,
    ensures
        s.channels == 2 && s.bits_per_sample == 16 && !s.probe_checked,
        words_in_frame(frame) == Some(s.made_of(Some(frame))->Carried_0),
        s.made_of(Some(frame))->Carried_0.len() == 2 * frame.samples,
{
}

/// Of the packets that come, the first one with samples gives a block, and those before it
/// that are of other tracks, damaged or empty are passed over; one that cannot be decoded at
/// all ends the reading without a block.
pub proof fn law_first_samples_are_given(events: Seq<PacketEvent>, i: int)
    requires
        0 <= i < events.len(),
        forall|k: int|
            0 <= k < i ==> (#[trigger] events[k] == PacketEvent::OtherTrack || events[k]
                == PacketEvent::Recoverable || events[k] == PacketEvent::Decoded(0)),
    ensures
        events[i] matches PacketEvent::Decoded(n) && n > 0 ==> block_len(events) == Some(
            events[i]->Decoded_0 as nat,
        ),
        events[i] == PacketEvent::End ==> block_len(events) == Some(0nat),
        events[i] == PacketEvent::Broken ==> block_len(events) is None,
    decreases events.len(),
{
    if i > 0 {
        let rest = events.drop_first();
        assert(events[0] == PacketEvent::OtherTrack || events[0] == PacketEvent::Recoverable
            || events[0] == PacketEvent::Decoded(0));
        assert forall|k: int| 0 <= k < i - 1 implies (#[trigger] rest[k] == PacketEvent::OtherTrack
            || rest[k] == PacketEvent::Recoverable || rest[k] == PacketEvent::Decoded(0)) by {
            assert(rest[k] == events[k + 1]);
        }
        law_first_samples_are_given(rest, i - 1);
        assert(rest[i - 1] == events[i]);
    }
}

} // verus!
