//! Two channels of a decoded frame, and the words that its samples carry.

use crate::pcm::{
    carried_word, carried_words, frame_layout, frame_layout_of, interleave_words, interleaved_pair,
    le_value, packed_values, planes_are_full, plane_holds, sample_bytes, FrameError, FrameLayout,
    PcmKind, Plane,
};
use vstd::prelude::*;

verus! {

/// Whether two channels can be taken from samples of this kind.
pub open spec fn is_stereo_kind(kind: PcmKind) -> bool {
    kind == PcmKind::S16 || kind == PcmKind::S32 || kind == PcmKind::F32 || kind == PcmKind::F64
}

/// Whether plane `c` is there.
pub open spec fn has_plane(planes: Seq<Plane>, c: int) -> bool {
    0 <= c < planes.len() && planes[c] is Some
}

/// The bits of the sample of the left or the right channel in a frame. A frame
/// of one channel, or without a plane for the second one, has the first one on
/// both sides.
pub open spec fn side_value(
    planes: Seq<Plane>,
    layout: FrameLayout,
    channels: int,
    i: int,
    right: bool,
) -> int {
    let width = sample_bytes(layout.kind);
    if layout.planar {
        let c: int = if right && channels > 1 && has_plane(planes, 1) {
            1
        } else {
            0
        };
        le_value(planes[c]->0@, i * width, width)
    } else {
        let at = if right && channels > 1 {
            i * channels + 1
        } else {
            i * channels
        };
        le_value(planes[0]->0@, at * width, width)
    }
}

/// The bits of the samples of two channels of a frame, in turn.
pub open spec fn stereo_values_of(
    planes: Seq<Plane>,
    layout: FrameLayout,
    samples: int,
    channels: int,
) -> Seq<u64> {
    Seq::new(
        (samples * 2) as nat,
        |i: int| side_value(planes, layout, channels, i / 2, i % 2 == 1) as u64,
    )
}

fn width_of_kind(kind: PcmKind) -> (r: usize)
    requires
        is_stereo_kind(kind),
    ensures
        r == sample_bytes(kind),
        2 <= r <= 8,
{
    match kind {
        PcmKind::S16 => 2,
        PcmKind::S32 => 4,
        PcmKind::F32 => 4,
        _ => 8,
    }
}

fn stereo_kind(kind: PcmKind) -> (r: bool)
    ensures
        r == is_stereo_kind(kind),
{
    match kind {
        PcmKind::S16 | PcmKind::S32 | PcmKind::F32 | PcmKind::F64 => true,
        _ => false,
    }
}

fn pairs_of(left: &Vec<u64>, right: &Vec<u64>) -> (r: Vec<u64>)
    requires
        left@.len() == right@.len(),
    ensures
        r@.len() == left@.len() * 2,
        forall|i: int|
            0 <= i < r@.len() ==> #[trigger] r@[i] == (if i % 2 == 1 {
                right@[i / 2]
            } else {
                left@[i / 2]
            }),
{
    let n: usize = left.len();
    let mut r: Vec<u64> = Vec::new();
    let mut i: usize = 0;
    while i < n
        invariant
            n == left@.len(),
            n == right@.len(),
            i <= n,
            r@.len() == i * 2,
            forall|k: int|
                0 <= k < r@.len() ==> #[trigger] r@[k] == (if k % 2 == 1 {
                    right@[k / 2]
                } else {
                    left@[k / 2]
                }),
        decreases n - i,
    {
        r.push(left[i]);
        r.push(right[i]);
        i += 1;
    }
    r
}

fn every_nth(values: &Vec<u64>, samples: usize, step: usize, from: usize) -> (r: Vec<u64>)
    requires
        step > 0,
        from < step,
        samples * step <= values@.len(),
    ensures
        r@.len() == samples,
        forall|i: int| 0 <= i < samples ==> #[trigger] r@[i] == values@[i * step + from],
{
    let mut r: Vec<u64> = Vec::new();
    let total: usize = values.len();
    let mut i: usize = 0;
    let mut at: usize = from;
    while i < samples
        invariant
            step > 0,
            from < step,
            total == values@.len(),
            samples * step <= total,
            i <= samples,
            i < samples ==> at == i * step + from,
            r@.len() == i,
            forall|k: int| 0 <= k < i ==> #[trigger] r@[k] == values@[k * step + from],
        decreases samples - i,
    {
        assert(i * step + from < samples * step) by (nonlinear_arith)
            requires
                i < samples,
                from < step,
                step > 0,
        ;
        r.push(values[at]);
        i += 1;
        if i < samples {
            assert((i - 1) * step + from + step == i * step + from) by (nonlinear_arith);
            assert(i * step + from < samples * step) by (nonlinear_arith)
                requires
                    i < samples,
                    from < step,
                    step > 0,
            ;
            at = at + step;
        }
    }
    r
}

/// The bits of the samples of two channels of a frame, in turn.
pub fn frame_to_stereo(format: i32, planes: &Vec<Plane>, samples: usize, channels: usize) -> (r: Result<
    Vec<u64>,
    FrameError,
>)
    requires
        channels > 0,
        samples * channels <= usize::MAX,
        frame_layout_of(format) matches Some(layout) ==> planes_are_full(
            planes@,
            layout,
            samples as int,
            channels as int,
        ),
    ensures
        !has_plane(planes@, 0) ==> r == Err::<Vec<u64>, FrameError>(FrameError::EmptyData),
        has_plane(planes@, 0) ==> match frame_layout_of(format) {
            Some(layout) => if is_stereo_kind(layout.kind) {
                r is Ok && r->Ok_0@ == stereo_values_of(
                    planes@,
                    layout,
                    samples as int,
                    channels as int,
                )
            } else {
                r == Err::<Vec<u64>, FrameError>(FrameError::UnsupportedFormat(format))
            },
            None => r == Err::<Vec<u64>, FrameError>(FrameError::UnsupportedFormat(format)),
        },
{
    if planes.len() == 0 || planes[0].is_none() {
        return Err(FrameError::EmptyData);
    }
    let layout = match frame_layout(format) {
        Some(layout) => layout,
        None => return Err(FrameError::UnsupportedFormat(format)),
    };
    if !stereo_kind(layout.kind) {
        return Err(FrameError::UnsupportedFormat(format));
    }
    let width: usize = width_of_kind(layout.kind);
    let first = match &planes[0] {
        Some(bytes) => bytes,
        None => return Err(FrameError::EmptyData),
    };
    assert(planes@[0] is Some);
    let (left, right): (Vec<u64>, Vec<u64>);
    if layout.planar {
        assert(plane_holds(planes@, 0, samples as int, width as int));
        left = packed_values(first, samples, width);
        right =
        if channels > 1 && planes.len() > 1 {
            match &planes[1] {
                Some(bytes) => {
                    assert(planes@[1] is Some);
                    assert(plane_holds(planes@, 1, samples as int, width as int));
                    packed_values(bytes, samples, width)
                },
                None => packed_values(first, samples, width),
            }
        } else {
            packed_values(first, samples, width)
        };
    } else {
        assert(plane_holds(planes@, 0, samples * channels, width as int));
        let all = packed_values(first, samples * channels, width);
        left = every_nth(&all, samples, channels, 0);
        right = every_nth(
            &all,
            samples,
            channels,
            if channels > 1 {
                1
            } else {
                0
            },
        );
        proof {
            assert forall|i: int| 0 <= i < samples implies 0 <= #[trigger] (i * channels) && i
                * channels + channels <= samples * channels by {
                assert(0 <= i * channels && i * channels + channels <= samples * channels)
                    by (nonlinear_arith)
                    requires
                        0 <= i < samples,
                        channels > 0,
                ;
            }
        }
    }
    let r = pairs_of(&left, &right);
    proof {
        let want = stereo_values_of(planes@, layout, samples as int, channels as int);
        assert forall|i: int| 0 <= i < r@.len() implies r@[i] == #[trigger] want[i] by {
            let k = i / 2;
            assert(0 <= k < samples);
            if i % 2 == 1 {
                assert(right@[k] == side_value(planes@, layout, channels as int, k, true));
            } else {
                assert(left@[k] == side_value(planes@, layout, channels as int, k, false));
            }
        }
        assert(r@ =~= want);
    }
    Ok(r)
}

/// The words that the samples of a plane carry.
pub open spec fn plane_words(planes: Seq<Plane>, c: int, kind: PcmKind, count: int) -> Seq<u16> {
    Seq::new(
        count as nat,
        |i: int| carried_word(kind, le_value(planes[c]->0@, i * sample_bytes(kind), sample_bytes(kind))),
    )
}

/// Whether samples of this kind carry words.
pub open spec fn carries_words(kind: PcmKind) -> bool {
    kind == PcmKind::S16 || kind == PcmKind::S32
}

fn words_of_plane(plane: &Vec<u8>, kind: PcmKind, count: usize, Ghost(planes): Ghost<Seq<Plane>>, Ghost(c): Ghost<int>) -> (r: Vec<u16>)
    requires
        carries_words(kind),
        count * sample_bytes(kind) <= plane@.len(),
        0 <= c < planes.len(),
        planes[c] == Some(*plane),
    ensures
        r@ == plane_words(planes, c, kind, count as int),
{
    let width: usize = width_of_kind(kind);
    let values = packed_values(plane, count, width);
    let r = carried_words(kind, &values);
    assert(r@ =~= plane_words(planes, c, kind, count as int));
    r
}

/// The words that a frame carries: of all channels where they lie in one plane,
/// else of the first two.
pub fn frame_words(format: i32, planes: &Vec<Plane>, samples: usize, channels: usize) -> (r: Result<
    Vec<u16>,
    FrameError,
>)
    requires
        samples * channels <= usize::MAX,
        frame_layout_of(format) matches Some(layout) ==> planes_are_full(
            planes@,
            layout,
            samples as int,
            channels as int,
        ),
    ensures
        samples == 0 ==> r is Ok && r->Ok_0@.len() == 0,
        samples > 0 && channels < 2 ==> r == Err::<Vec<u16>, FrameError>(
            FrameError::NeedsTwoChannels,
        ),
        samples > 0 && channels >= 2 ==> match frame_layout_of(format) {
            Some(layout) => if !carries_words(layout.kind) {
                r == Err::<Vec<u16>, FrameError>(FrameError::UnsupportedFormat(format))
            } else if !has_plane(planes@, 0) || (layout.planar && !has_plane(planes@, 1)) {
                r == Err::<Vec<u16>, FrameError>(FrameError::EmptyData)
            } else if layout.planar {
                r is Ok && r->Ok_0@ == interleaved_pair(
                    plane_words(planes@, 0, layout.kind, samples as int),
                    plane_words(planes@, 1, layout.kind, samples as int),
                    samples as nat,
                )
            } else {
                r is Ok && r->Ok_0@ == plane_words(
                    planes@,
                    0,
                    layout.kind,
                    samples * channels,
                )
            },
            None => r == Err::<Vec<u16>, FrameError>(FrameError::UnsupportedFormat(format)),
        },
{
    if samples == 0 {
        return Ok(Vec::new());
    }
    if channels < 2 {
        return Err(FrameError::NeedsTwoChannels);
    }
    let layout = match frame_layout(format) {
        Some(layout) => layout,
        None => return Err(FrameError::UnsupportedFormat(format)),
    };
    match layout.kind {
        PcmKind::S16 | PcmKind::S32 => {},
        _ => return Err(FrameError::UnsupportedFormat(format)),
    }
    if planes.len() == 0 {
        return Err(FrameError::EmptyData);
    }
    let first = match &planes[0] {
        Some(bytes) => bytes,
        None => return Err(FrameError::EmptyData),
    };
    assert(planes@[0] is Some);
    if !layout.planar {
        assert(plane_holds(planes@, 0, samples * channels, sample_bytes(layout.kind) as int));
        return Ok(
            words_of_plane(first, layout.kind, samples * channels, Ghost(planes@), Ghost(0)),
        );
    }
    if planes.len() < 2 {
        return Err(FrameError::EmptyData);
    }
    let second = match &planes[1] {
        Some(bytes) => bytes,
        None => return Err(FrameError::EmptyData),
    };
    assert(planes@[1] is Some);
    assert(plane_holds(planes@, 0, samples as int, sample_bytes(layout.kind) as int));
    assert(plane_holds(planes@, 1, samples as int, sample_bytes(layout.kind) as int));
    let left = words_of_plane(first, layout.kind, samples, Ghost(planes@), Ghost(0));
    let right = words_of_plane(second, layout.kind, samples, Ghost(planes@), Ghost(1));
    Ok(interleave_words(left.as_slice(), right.as_slice(), samples))
}

/// A frame of one channel sounds the same on both sides.
pub proof fn law_one_channel_is_on_both_sides(
    planes: Seq<Plane>,
    layout: FrameLayout,
    samples: int,
    i: int,
)
    requires
        0 <= i < samples,
    ensures
        stereo_values_of(planes, layout, samples, 1)[2 * i] == stereo_values_of(
            planes,
            layout,
            samples,
            1,
        )[2 * i + 1],
{
}

/// A frame of two or more channels becomes its first two: the first on the left, the
/// second on the right, sample by sample.
pub proof fn law_first_two_channels_are_heard(
    planes: Seq<Plane>,
    layout: FrameLayout,
    samples: int,
    channels: int,
    i: int,
)
    requires
        0 <= i < samples,
        channels >= 2,
        layout.planar ==> has_plane(planes, 1),
    ensures
        ({
            let width = sample_bytes(layout.kind);
            let heard = stereo_values_of(planes, layout, samples, channels);
            &&& heard.len() == 2 * samples
            &&& layout.planar ==> {
                &&& heard[2 * i] == le_value(planes[0]->0@, i * width, width) as u64
                &&& heard[2 * i + 1] == le_value(planes[1]->0@, i * width, width) as u64
            }
            &&& !layout.planar ==> {
                &&& heard[2 * i] == le_value(planes[0]->0@, (i * channels) * width, width) as u64
                &&& heard[2 * i + 1] == le_value(
                    planes[0]->0@,
                    (i * channels + 1) * width,
                    width,
                ) as u64
            }
        }),
{
    assert((2 * i) / 2 == i && (2 * i) % 2 == 0);
    assert((2 * i + 1) / 2 == i && (2 * i + 1) % 2 == 1);
}

/// A frame whose second plane is missing is heard from its first one on both sides.
pub proof fn law_missing_plane_is_the_first_one(
    planes: Seq<Plane>,
    layout: FrameLayout,
    samples: int,
    channels: int,
    i: int,
)
    requires
        0 <= i < samples,
        layout.planar,
        !has_plane(planes, 1),
    ensures
        stereo_values_of(planes, layout, samples, channels)[2 * i + 1] == stereo_values_of(
            planes,
            layout,
            samples,
            channels,
        )[2 * i],
{
    assert((2 * i) / 2 == i && (2 * i + 1) / 2 == i);
}

} // verus!
