//! Decoded frames as numbers, and compressed sound that hides in PCM samples.

use vstd::prelude::*;

verus! {

/// What a sample of a decoded frame is.
#[derive(Clone, Copy, PartialEq, Eq, Structural, Debug)]
pub enum PcmKind {
    /// Unsigned, with its zero at 128.
    U8,
    S16,
    S24,
    S32,
    S64,
    F32,
    F64,
}

/// How the samples of a frame lie in memory.
#[derive(Clone, Copy, PartialEq, Eq, Structural, Debug)]
pub struct FrameLayout {
    pub kind: PcmKind,
    /// Each channel has a plane of its own.
    pub planar: bool,
}

/// Why a frame gives no samples.
#[derive(Clone, Copy, PartialEq, Eq, Structural, Debug)]
pub enum FrameError {
    EmptyData,
    /// There are more channels than planes were handed over.
    PlanesMissing,
    NeedsTwoChannels,
    UnsupportedFormat(i32),
}

/// The planes that a frame holds by itself; further ones are listed apart.
pub const FRAME_PLANES: usize = 8;

/// The layouts by their numbers.
pub open spec fn frame_layout_of(format: i32) -> Option<FrameLayout> {
    if format == 0 {
        Some(FrameLayout { kind: PcmKind::U8, planar: false })
    } else if format == 1 {
        Some(FrameLayout { kind: PcmKind::S16, planar: false })
    } else if format == 2 {
        Some(FrameLayout { kind: PcmKind::S32, planar: false })
    } else if format == 3 {
        Some(FrameLayout { kind: PcmKind::F32, planar: false })
    } else if format == 4 {
        Some(FrameLayout { kind: PcmKind::F64, planar: false })
    } else if format == 5 {
        Some(FrameLayout { kind: PcmKind::U8, planar: true })
    } else if format == 6 {
        Some(FrameLayout { kind: PcmKind::S16, planar: true })
    } else if format == 7 {
        Some(FrameLayout { kind: PcmKind::S32, planar: true })
    } else if format == 8 {
        Some(FrameLayout { kind: PcmKind::F32, planar: true })
    } else if format == 9 {
        Some(FrameLayout { kind: PcmKind::F64, planar: true })
    } else if format == 10 {
        Some(FrameLayout { kind: PcmKind::S64, planar: false })
    } else if format == 11 {
        Some(FrameLayout { kind: PcmKind::S64, planar: true })
    } else {
        None
    }
}

/// The layout of a frame by its number.
pub fn frame_layout(format: i32) -> (r: Option<FrameLayout>)
    ensures
        r == frame_layout_of(format),
{
    let kind: PcmKind = match format {
        0 | 5 => PcmKind::U8,
        1 | 6 => PcmKind::S16,
        2 | 7 => PcmKind::S32,
        3 | 8 => PcmKind::F32,
        4 | 9 => PcmKind::F64,
        10 | 11 => PcmKind::S64,
        _ => return None,
    };
    let planar: bool = (5 <= format && format <= 9) || format == 11;
    Some(FrameLayout { kind, planar })
}

/// The bytes of a sample.
pub open spec fn sample_bytes(kind: PcmKind) -> nat {
    match kind {
        PcmKind::U8 => 1,
        PcmKind::S16 => 2,
        PcmKind::S24 => 3,
        PcmKind::S32 | PcmKind::F32 => 4,
        PcmKind::S64 | PcmKind::F64 => 8,
    }
}

fn bytes_per_sample(kind: PcmKind) -> (r: usize)
    ensures
        r == sample_bytes(kind),
        1 <= r <= 8,
{
    match kind {
        PcmKind::U8 => 1,
        PcmKind::S16 => 2,
        PcmKind::S24 => 3,
        PcmKind::S32 | PcmKind::F32 => 4,
        PcmKind::S64 | PcmKind::F64 => 8,
    }
}

/// The number whose lowest byte stands at `at`.
pub open spec fn le_value(bytes: Seq<u8>, at: int, width: nat) -> int
    decreases width,
{
    if width == 0 {
        0
    } else {
        bytes[at] + 0x100 * le_value(bytes, at + 1, (width - 1) as nat)
    }
}

/// 256 to the power of `n`.
pub open spec fn pow256(n: nat) -> int
    decreases n,
{
    if n == 0 {
        1
    } else {
        0x100 * pow256((n - 1) as nat)
    }
}

proof fn lemma_le_value_bound(bytes: Seq<u8>, at: int, width: nat)
    ensures
        0 <= le_value(bytes, at, width) < pow256(width),
    decreases width,
{
    if width > 0 {
        lemma_le_value_bound(bytes, at + 1, (width - 1) as nat);
    }
}

proof fn lemma_pow256(width: nat)
    requires
        width <= 8,
    ensures
        pow256(width) <= 0x1_0000_0000_0000_0000,
{
    reveal_with_fuel(pow256, 9);
}

/// Reads a number whose lowest byte stands first.
pub fn read_le(bytes: &[u8], at: usize, width: usize) -> (r: u64)
    requires
        width <= 8,
        at + width <= bytes@.len(),
    ensures
        r == le_value(bytes@, at as int, width as nat),
        r < pow256(width as nat),
    decreases width,
{
    if width == 0 {
        return 0;
    }
    let filled: usize = bytes.len();
    assert(at < filled);
    let upper: u64 = read_le(bytes, at + 1, width - 1);
    proof {
        lemma_le_value_bound(bytes@, at as int, width as nat);
        lemma_pow256(width as nat);
    }
    bytes[at] as u64 + 0x100 * upper
}

/// The value of a sample: its distance from silence, in units of its kind. The
/// bits of a floating-point sample are left as they are.
pub open spec fn signed_value_spec(kind: PcmKind, raw: int) -> int {
    match kind {
        PcmKind::U8 => raw - 0x80,
        PcmKind::S16 => if raw >= 0x8000 {
            raw - 0x1_0000
        } else {
            raw
        },
        PcmKind::S24 => if raw >= 0x80_0000 {
            raw - 0x100_0000
        } else {
            raw
        },
        PcmKind::S32 => if raw >= 0x8000_0000 {
            raw - 0x1_0000_0000
        } else {
            raw
        },
        _ => if raw >= 0x8000_0000_0000_0000 {
            raw - 0x1_0000_0000_0000_0000
        } else {
            raw
        },
    }
}

/// The value of a sample from its bits.
pub fn signed_value(kind: PcmKind, raw: u64) -> (r: i64)
    requires
        raw < pow256(sample_bytes(kind)),
    ensures
        r == signed_value_spec(kind, raw as int),
{
    proof {
        reveal_with_fuel(pow256, 9);
    }
    let n: i128 = raw as i128;
    let v: i128 = match kind {
        PcmKind::U8 => n - 0x80,
        PcmKind::S16 => if n >= 0x8000 {
            n - 0x1_0000
        } else {
            n
        },
        PcmKind::S24 => if n >= 0x80_0000 {
            n - 0x100_0000
        } else {
            n
        },
        PcmKind::S32 => if n >= 0x8000_0000 {
            n - 0x1_0000_0000
        } else {
            n
        },
        _ => if n >= 0x8000_0000_0000_0000 {
            n - 0x1_0000_0000_0000_0000
        } else {
            n
        },
    };
    v as i64
}

/// The power of two that full scale is, for integer samples.
pub open spec fn scale_bits_of(kind: PcmKind) -> Option<u32> {
    match kind {
        PcmKind::U8 => Some(7u32),
        PcmKind::S16 => Some(15u32),
        PcmKind::S24 => Some(23u32),
        PcmKind::S32 => Some(31u32),
        PcmKind::S64 => Some(63u32),
        PcmKind::F32 | PcmKind::F64 => None,
    }
}

/// The power of two that full scale is, for integer samples.
pub fn scale_bits(kind: PcmKind) -> (r: Option<u32>)
    ensures
        r == scale_bits_of(kind),
{
    match kind {
        PcmKind::U8 => Some(7),
        PcmKind::S16 => Some(15),
        PcmKind::S24 => Some(23),
        PcmKind::S32 => Some(31),
        PcmKind::S64 => Some(63),
        PcmKind::F32 | PcmKind::F64 => None,
    }
}

/// An integer sample lies inside full scale.
pub proof fn law_sample_is_inside_full_scale(kind: PcmKind, raw: int)
    requires
        0 <= raw < pow256(sample_bytes(kind)),
        scale_bits_of(kind) is Some,
    ensures
        match kind {
            PcmKind::U8 => -0x80 <= signed_value_spec(kind, raw) < 0x80,
            PcmKind::S16 => -0x8000 <= signed_value_spec(kind, raw) < 0x8000,
            PcmKind::S24 => -0x80_0000 <= signed_value_spec(kind, raw) < 0x80_0000,
            PcmKind::S32 => -0x8000_0000 <= signed_value_spec(kind, raw) < 0x8000_0000,
            _ => -0x8000_0000_0000_0000 <= signed_value_spec(kind, raw) < 0x8000_0000_0000_0000,
        },
{
    reveal_with_fuel(pow256, 9);
}

/// A plane of a frame; `None` where the frame holds no such plane.
pub type Plane = Option<Vec<u8>>;

/// Whether plane `c` is there and holds `count` samples.
pub open spec fn plane_holds(planes: Seq<Plane>, c: int, count: int, width: int) -> bool {
    planes[c] matches Some(bytes) && count * width <= bytes@.len()
}

/// The bits of sample `i` of a plane.
pub open spec fn plane_value(planes: Seq<Plane>, c: int, i: int, width: nat) -> int {
    le_value(planes[c]->0@, i * width, width)
}

/// The samples that a plane holds.
pub open spec fn samples_per_plane(layout: FrameLayout, samples: int, channels: int) -> int {
    if layout.planar {
        samples
    } else {
        samples * channels
    }
}

/// The planes that are there hold the samples that the frame counts.
pub open spec fn planes_are_full(
    planes: Seq<Plane>,
    layout: FrameLayout,
    samples: int,
    channels: int,
) -> bool {
    forall|c: int|
        #![trigger planes[c]]
        0 <= c < planes.len() && planes[c] is Some ==> plane_holds(
            planes,
            c,
            samples_per_plane(layout, samples, channels),
            sample_bytes(layout.kind) as int,
        )
}

/// The planes of the first `channels` channels are all there.
pub open spec fn planes_present(planes: Seq<Plane>, channels: int) -> bool {
    forall|c: int| #![trigger planes[c]] 0 <= c < channels ==> c < planes.len() && planes[c] is Some
}

/// The bits of the samples of a frame, interleaved.
pub open spec fn frame_values_spec(
    planes: Seq<Plane>,
    layout: FrameLayout,
    samples: int,
    channels: int,
) -> Seq<u64> {
    Seq::new(
        (samples * channels) as nat,
        |i: int|
            (if layout.planar {
                plane_value(planes, i % channels, i / channels, sample_bytes(layout.kind))
            } else {
                plane_value(planes, 0, i, sample_bytes(layout.kind))
            }) as u64,
    )
}

fn read_sample(bytes: &Vec<u8>, i: usize, width: usize) -> (r: u64)
    requires
        1 <= width <= 8,
        (i + 1) * width <= bytes@.len(),
    ensures
        r == le_value(bytes@, i * width, width as nat),
        r < pow256(width as nat),
{
    assert((i + 1) * width == i * width + width) by (nonlinear_arith);
    assert(i * width >= 0) by (nonlinear_arith)
        requires
            i >= 0,
            width >= 0,
    ;
    let filled: usize = bytes.len();
    assert(i * width <= filled);
    read_le(bytes.as_slice(), i * width, width)
}

/// The bits of the first `count` samples of a plane.
pub fn packed_values(plane: &Vec<u8>, count: usize, width: usize) -> (r: Vec<u64>)
    requires
        1 <= width <= 8,
        count * width <= plane@.len(),
    ensures
        r@.len() == count,
        forall|i: int|
            0 <= i < count ==> #[trigger] r@[i] == le_value(plane@, i * width, width as nat),
        forall|i: int| 0 <= i < count ==> #[trigger] r@[i] < pow256(width as nat),
{
    let mut r: Vec<u64> = Vec::new();
    let mut i: usize = 0;
    while i < count
        invariant
            1 <= width <= 8,
            count * width <= plane@.len(),
            i <= count,
            r@.len() == i,
            forall|k: int|
                0 <= k < i ==> #[trigger] r@[k] == le_value(plane@, k * width, width as nat),
            forall|k: int| 0 <= k < i ==> #[trigger] r@[k] < pow256(width as nat),
        decreases count - i,
    {
        assert((i + 1) * width <= count * width) by (nonlinear_arith)
            requires
                i + 1 <= count,
                width >= 0,
        ;
        r.push(read_sample(plane, i, width));
        i += 1;
    }
    r
}

/// The bits of the samples of a frame, interleaved. `planes` holds the planes
/// that the frame lists; `extended` says that it lists all of them.
pub fn frame_values(
    format: i32,
    planes: &Vec<Plane>,
    extended: bool,
    samples: usize,
    channels: usize,
) -> (r: Result<Vec<u64>, FrameError>)
    requires
        channels > 0,
        samples > 0,
        samples * channels <= usize::MAX,
        frame_layout_of(format) matches Some(layout) ==> planes_are_full(
            planes@,
            layout,
            samples as int,
            channels as int,
        ),
    ensures
        match frame_layout_of(format) {
            None => r == Err::<Vec<u64>, FrameError>(FrameError::UnsupportedFormat(format)),
            Some(layout) => {
                &&& r is Ok <==> planes_present(
                    planes@,
                    if layout.planar {
                        channels as int
                    } else {
                        1
                    },
                ) && !(layout.planar && !extended && channels > FRAME_PLANES)
                &&& r is Ok ==> r->Ok_0@ == frame_values_spec(
                    planes@,
                    layout,
                    samples as int,
                    channels as int,
                )
                &&& r is Err ==> r->Err_0 == (if layout.planar && !extended && channels
                    > FRAME_PLANES {
                    FrameError::PlanesMissing
                } else {
                    FrameError::EmptyData
                })
            },
        },
{
    let layout = match frame_layout(format) {
        Some(layout) => layout,
        None => return Err(FrameError::UnsupportedFormat(format)),
    };
    let width: usize = bytes_per_sample(layout.kind);
    if !layout.planar {
        if planes.len() == 0 {
            assert(planes@[0] == planes@[0] && !planes_present(planes@, 1));
            return Err(FrameError::EmptyData);
        }
        match &planes[0] {
            Some(plane) => {
                assert(plane_holds(planes@, 0, samples * channels, width as int));
                let values = packed_values(plane, samples * channels, width);
                proof {
                    assert forall|i: int| 0 <= i < samples * channels implies 0 <= #[trigger] le_value(
                        plane@,
                        i * width,
                        width as nat,
                    ) <= u64::MAX by {
                        lemma_le_value_bound(plane@, i * width, width as nat);
                        lemma_pow256(width as nat);
                    }
                    assert(values@ =~= frame_values_spec(
                        planes@,
                        layout,
                        samples as int,
                        channels as int,
                    ));
                }
                return Ok(values);
            },
            None => {
                assert(planes@[0] is None && !planes_present(planes@, 1));
                return Err(FrameError::EmptyData);
            },
        }
    }
    if !extended && channels > FRAME_PLANES {
        return Err(FrameError::PlanesMissing);
    }
    let mut c: usize = 0;
    while c < channels
        invariant
            c <= channels,
            frame_layout_of(format) == Some(layout),
            layout.planar,
            extended || channels <= FRAME_PLANES,
            forall|k: int|
                #![trigger planes@[k]]
                0 <= k < c ==> k < planes@.len() && planes@[k] is Some,
        decreases channels - c,
    {
        if c >= planes.len() {
            assert(planes@[c as int] == planes@[c as int] && !planes_present(
                planes@,
                channels as int,
            ));
            return Err(FrameError::EmptyData);
        }
        if planes[c].is_none() {
            assert(planes@[c as int] is None && !planes_present(planes@, channels as int));
            return Err(FrameError::EmptyData);
        }
        c += 1;
    }
    assert(planes_present(planes@, channels as int));
    let mut values: Vec<u64> = Vec::new();
    let mut i: usize = 0;
    while i < samples
        invariant
            i <= samples,
            channels > 0,
            samples * channels <= usize::MAX,
            layout.planar,
            width == sample_bytes(layout.kind),
            1 <= width <= 8,
            planes_present(planes@, channels as int),
            planes_are_full(planes@, layout, samples as int, channels as int),
            values@.len() == i * channels,
            forall|k: int|
                #![trigger values@[k]]
                0 <= k < values@.len() ==> values@[k] == plane_value(
                    planes@,
                    k % channels as int,
                    k / channels as int,
                    width as nat,
                ),
        decreases samples - i,
    {
        let mut c: usize = 0;
        while c < channels
            invariant
                c <= channels,
                i < samples,
                channels > 0,
                layout.planar,
                width == sample_bytes(layout.kind),
                1 <= width <= 8,
                planes_present(planes@, channels as int),
                planes_are_full(planes@, layout, samples as int, channels as int),
                values@.len() == i * channels + c,
                forall|k: int|
                    #![trigger values@[k]]
                    0 <= k < values@.len() ==> values@[k] == plane_value(
                        planes@,
                        k % channels as int,
                        k / channels as int,
                        width as nat,
                    ),
            decreases channels - c,
        {
            proof {
                assert(planes@[c as int] is Some);
                assert(plane_holds(planes@, c as int, samples as int, width as int));
                assert((i + 1) * width <= samples * width) by (nonlinear_arith)
                    requires
                        i + 1 <= samples,
                        width >= 0,
                ;
                let k = i * channels + c;
                assert(k % channels as int == c && k / channels as int == i) by (nonlinear_arith)
                    requires
                        k == i * channels + c,
                        0 <= c < channels,
                ;
            }
            if let Some(plane) = &planes[c] {
                values.push(read_sample(plane, i, width));
            }
            c += 1;
        }
        assert((i + 1) * channels == i * channels + channels) by (nonlinear_arith);
        i += 1;
    }
    proof {
        let n = samples * channels;
        assert forall|k: int| 0 <= k < n implies 0 <= #[trigger] plane_value(
            planes@,
            k % channels as int,
            k / channels as int,
            width as nat,
        ) <= u64::MAX by {
            lemma_le_value_bound(
                planes@[k % channels as int]->0@,
                (k / channels as int) * width,
                width as nat,
            );
            lemma_pow256(width as nat);
        }
        assert(values@ =~= frame_values_spec(planes@, layout, samples as int, channels as int));
    }
    Ok(values)
}

/// The depths that the lossless decoder hands over.
pub open spec fn lossless_kind(bits_per_sample: u16) -> Option<PcmKind> {
    if bits_per_sample == 16 {
        Some(PcmKind::S16)
    } else if bits_per_sample == 24 {
        Some(PcmKind::S24)
    } else if bits_per_sample == 8 {
        Some(PcmKind::U8)
    } else {
        None
    }
}

/// The bits of the first `count` samples of a packed block; `None` where the
/// depth is not one of those that are supported.
pub fn packed_block_values(bits_per_sample: u16, bytes: &Vec<u8>, count: usize) -> (r: Option<
    (PcmKind, Vec<u64>),
>)
    requires
        lossless_kind(bits_per_sample) matches Some(kind) ==> count * sample_bytes(kind)
            <= bytes@.len(),
    ensures
        r is Some <==> lossless_kind(bits_per_sample) is Some,
        r matches Some((kind, values)) ==> {
            &&& Some(kind) == lossless_kind(bits_per_sample)
            &&& values@.len() == count
            &&& forall|i: int|
                0 <= i < count ==> #[trigger] values@[i] == le_value(
                    bytes@,
                    i * sample_bytes(kind),
                    sample_bytes(kind),
                )
        },
{
    let kind: PcmKind = match bits_per_sample {
        16 => PcmKind::S16,
        24 => PcmKind::S24,
        8 => PcmKind::U8,
        _ => return None,
    };
    Some((kind, packed_values(bytes, count, bytes_per_sample(kind))))
}

/// Whether two 16-bit words begin a DTS frame, in one of the four byte orders
/// and widths in which it is stored.
pub open spec fn is_dts_sync(a: u16, b: u16) -> bool {
    ||| a == 0xFE7F && b == 0x0180
    ||| a == 0x7FFE && b == 0x8001
    ||| a == 0xFF1F && b == 0x00E8
    ||| a == 0x1FFF && b == 0xE800
}

/// Whether two 16-bit words begin a DTS frame.
pub fn pcm_probe_dts_sync_s16le_word_pair(a: u16, b: u16) -> (r: bool)
    ensures
        r == is_dts_sync(a, b),
{
    (a == 0xFE7F && b == 0x0180) || (a == 0x7FFE && b == 0x8001) || (a == 0xFF1F && b == 0x00E8)
        || (a == 0x1FFF && b == 0xE800)
}

/// Whether a DTS frame begins at word `i`.
pub open spec fn sync_at(words: Seq<u16>, i: int) -> bool {
    0 <= i < words.len() - 1 && is_dts_sync(words[i], words[i + 1])
}

/// The first `limit` words, or all of them.
pub open spec fn first_words(words: Seq<u16>, limit: int) -> Seq<u16> {
    if limit < words.len() {
        words.take(limit)
    } else {
        words
    }
}

/// The word with which the first DTS frame among the first `limit` words begins.
pub fn pcm_probe_dts_in_s16le_words(words: &Vec<u16>, limit: usize) -> (r: Option<usize>)
    ensures
        match r {
            Some(i) => sync_at(first_words(words@, limit as int), i as int) && forall|k: int|
                0 <= k < i ==> !#[trigger] sync_at(first_words(words@, limit as int), k),
            None => forall|k: int| !#[trigger] sync_at(first_words(words@, limit as int), k),
        },
{
    let n: usize = if limit < words.len() {
        limit
    } else {
        words.len()
    };
    let ghost looked_at = first_words(words@, limit as int);
    let mut i: usize = 1;
    while i < n
        invariant
            1 <= i,
            n <= words@.len(),
            n == looked_at.len(),
            looked_at == first_words(words@, limit as int),
            forall|k: int| 0 <= k < i - 1 ==> !#[trigger] sync_at(looked_at, k),
            i > n ==> n == 0,
        decreases n - i,
    {
        if pcm_probe_dts_sync_s16le_word_pair(words[i - 1], words[i]) {
            assert(sync_at(looked_at, i - 1));
            return Some(i - 1);
        }
        i += 1;
    }
    None
}

/// The words of two channels in turn.
pub open spec fn interleaved_pair(left: Seq<u16>, right: Seq<u16>, frames: nat) -> Seq<u16> {
    Seq::new(
        frames * 2,
        |i: int|
            if i % 2 == 0 {
                left[i / 2]
            } else {
                right[i / 2]
            },
    )
}

/// The words of two channels in turn.
pub fn interleave_words(left: &[u16], right: &[u16], frames: usize) -> (r: Vec<u16>)
    requires
        frames <= left@.len(),
        frames <= right@.len(),
    ensures
        r@ == interleaved_pair(left@, right@, frames as nat),
{
    let mut r: Vec<u16> = Vec::new();
    let mut i: usize = 0;
    while i < frames
        invariant
            i <= frames,
            frames <= left@.len(),
            frames <= right@.len(),
            r@ == interleaved_pair(left@, right@, i as nat),
        decreases frames - i,
    {
        r.push(left[i]);
        r.push(right[i]);
        i += 1;
        assert(r@ =~= interleaved_pair(left@, right@, i as nat));
    }
    r
}

/// The word that a 16-bit or a 32-bit sample carries: its upper sixteen bits.
pub open spec fn carried_word(kind: PcmKind, raw: int) -> u16 {
    if kind == PcmKind::S32 {
        (raw / 0x1_0000) as u16
    } else {
        raw as u16
    }
}

/// The words that the samples of a frame carry.
pub fn carried_words(kind: PcmKind, values: &Vec<u64>) -> (r: Vec<u16>)
    requires
        kind == PcmKind::S16 || kind == PcmKind::S32,
        forall|i: int| 0 <= i < values@.len() ==> #[trigger] values@[i] < pow256(sample_bytes(kind)),
    ensures
        r@ == values@.map_values(|v: u64| carried_word(kind, v as int)),
{
    let mut r: Vec<u16> = Vec::new();
    let mut i: usize = 0;
    proof {
        reveal_with_fuel(pow256, 5);
    }
    while i < values.len()
        invariant
            i <= values@.len(),
            kind == PcmKind::S16 || kind == PcmKind::S32,
            pow256(2) == 0x1_0000,
            pow256(4) == 0x1_0000_0000,
            forall|k: int|
                0 <= k < values@.len() ==> #[trigger] values@[k] < pow256(sample_bytes(kind)),
            r@ == values@.map_values(|v: u64| carried_word(kind, v as int)).take(i as int),
        decreases values@.len() - i,
    {
        let v: u64 = values[i];
        let w: u16 = match kind {
            PcmKind::S32 => (v / 0x1_0000) as u16,
            _ => v as u16,
        };
        r.push(w);
        i += 1;
        assert(r@ =~= values@.map_values(|v: u64| carried_word(kind, v as int)).take(i as int));
    }
    assert(r@ =~= values@.map_values(|v: u64| carried_word(kind, v as int)));
    r
}

/// The lowest byte first.
pub open spec fn word_bytes(w: u16) -> Seq<u8> {
    seq![(w % 0x100) as u8, (w / 0x100) as u8]
}

/// The bytes of some words, one after the other.
pub open spec fn words_bytes(words: Seq<u16>) -> Seq<u8> {
    Seq::new(
        words.len() * 2,
        |i: int| word_bytes(words[i / 2])[i % 2],
    )
}

/// What the DTS decoder is given next.
#[derive(Clone, Copy, PartialEq, Eq, Structural, Debug)]
pub enum DtsStep {
    /// More words are needed.
    NeedMore,
    /// The decoder is told that the input has ended.
    Flush,
    /// Everything has been decoded.
    End,
    /// The parser is given the bytes that wait.
    Parse,
}

/// What the parser's answer means.
#[derive(Clone, Copy, PartialEq, Eq, Structural, Debug)]
pub enum ParseStep {
    Failed(i32),
    /// A packet goes to the decoder.
    Send,
    /// The parser goes on.
    Again,
    NeedMore,
    Flush,
    End,
}

/// The bytes after which what has been read is dropped.
pub const DTS_COMPACT_BYTES: usize = 262144;

/// The input of the DTS decoder.
pub struct DtsInput {
    pub buffer: Vec<u8>,
    pub pos: usize,
    pub input_eof: bool,
    pub sent_eof: bool,
}

impl DtsInput {
    /// What has been read lies inside the buffer.
    pub open spec fn wf(self) -> bool {
        self.pos <= self.buffer@.len()
    }

    /// The bytes that wait for the parser.
    pub open spec fn waiting(self) -> Seq<u8> {
        self.buffer@.skip(self.pos as int)
    }

    /// An empty input.
    pub fn new() -> (r: DtsInput)
        ensures
            r.wf(),
            r.buffer@.len() == 0 && !r.input_eof && !r.sent_eof,
    {
        DtsInput { buffer: Vec::new(), pos: 0, input_eof: false, sent_eof: false }
    }

    /// A seek breaks the stream: everything starts anew.
    pub fn reset(&mut self)
        ensures
            final(self).wf(),
            final(self).buffer@.len() == 0 && !final(self).input_eof && !final(self).sent_eof,
    {
        self.buffer.clear();
        self.pos = 0;
        self.input_eof = false;
        self.sent_eof = false;
    }

    /// Adds the bytes of some words.
    pub fn push_s16le_words(&mut self, words: &Vec<u16>)
        requires
            old(self).wf(),
        ensures
            final(self).wf(),
            final(self).waiting() == old(self).waiting() + words_bytes(words@),
            final(self).pos == old(self).pos,
            final(self).input_eof == old(self).input_eof,
            final(self).sent_eof == old(self).sent_eof,
    {
        let mut i: usize = 0;
        let ghost before = self.buffer@;
        assert(before + words_bytes(words@.take(0)) =~= before);
        while i < words.len()
            invariant
                i <= words@.len(),
                self.buffer@ == before + words_bytes(words@.take(i as int)),
                before == old(self).buffer@,
                self.pos == old(self).pos,
                self.input_eof == old(self).input_eof,
                self.sent_eof == old(self).sent_eof,
            decreases words@.len() - i,
        {
            let w: u16 = words[i];
            self.buffer.push((w % 0x100) as u8);
            self.buffer.push((w / 0x100) as u8);
            i += 1;
            assert(self.buffer@ =~= before + words_bytes(words@.take(i as int)));
        }
        assert(words@.take(words@.len() as int) =~= words@);
        assert(self.waiting() =~= old(self).waiting() + words_bytes(words@));
    }

    /// No words come any more.
    pub fn set_input_eof(&mut self)
        ensures
            *final(self) == (DtsInput { input_eof: true, ..*old(self) }),
    {
        self.input_eof = true;
    }

    /// What happens when the bytes that wait are not enough.
    pub open spec fn starved(self) -> (bool, DtsStep) {
        if !self.input_eof {
            (self.sent_eof, DtsStep::NeedMore)
        } else if !self.sent_eof {
            (true, DtsStep::Flush)
        } else {
            (self.sent_eof, DtsStep::End)
        }
    }

    fn starve(&mut self) -> (r: DtsStep)
        ensures
            *final(self) == (DtsInput { sent_eof: old(self).starved().0, ..*old(self) }),
            r == old(self).starved().1,
    {
        if !self.input_eof {
            return DtsStep::NeedMore;
        }
        if !self.sent_eof {
            self.sent_eof = true;
            return DtsStep::Flush;
        }
        DtsStep::End
    }

    /// The decoder has no frame: decides what to give it.
    pub fn next_input(&mut self) -> (r: DtsStep)
        requires
            old(self).wf(),
        ensures
            final(self).wf(),
            old(self).waiting().len() > 0 ==> r == DtsStep::Parse && *final(self) == *old(self),
            old(self).waiting().len() == 0 ==> r == old(self).starved().1 && *final(self) == (
            DtsInput { sent_eof: old(self).starved().0, ..*old(self) }),
    {
        if self.pos >= self.buffer.len() {
            return self.starve();
        }
        DtsStep::Parse
    }

    /// What the parser's answer means for the bytes that wait, and next.
    pub open spec fn parsed_spec(self, used: int, out_size: int) -> (bool, ParseStep) {
        if used < 0 {
            (self.sent_eof, ParseStep::Failed(used as i32))
        } else if out_size > 0 {
            (self.sent_eof, ParseStep::Send)
        } else if used > 0 {
            (self.sent_eof, ParseStep::Again)
        } else {
            (
                self.starved().0,
                match self.starved().1 {
                    DtsStep::Flush => ParseStep::Flush,
                    DtsStep::End => ParseStep::End,
                    _ => ParseStep::NeedMore,
                },
            )
        }
    }

    /// The parser has taken `used` bytes and made a packet of `out_size` bytes;
    /// a negative `used` is its error.
    pub fn parsed(&mut self, used: i32, out_size: i32) -> (r: ParseStep)
        requires
            old(self).wf(),
            used <= old(self).waiting().len(),
        ensures
            final(self).wf(),
            r == old(self).parsed_spec(used as int, out_size as int).1,
            final(self).sent_eof == old(self).parsed_spec(used as int, out_size as int).0,
            final(self).input_eof == old(self).input_eof,
            final(self).waiting() == old(self).waiting().skip(
                if used > 0 {
                    used as int
                } else {
                    0
                },
            ),
            final(self).pos < DTS_COMPACT_BYTES || used <= 0,
    {
        if used < 0 {
            assert(self.waiting().skip(0) =~= self.waiting());
            return ParseStep::Failed(used);
        }
        let filled: usize = self.buffer.len();
        assert(self.pos + used <= filled);
        self.pos = self.pos + used as usize;
        assert(self.waiting() =~= old(self).waiting().skip(used as int));
        if out_size <= 0 && used == 0 {
            return match self.starve() {
                DtsStep::Flush => ParseStep::Flush,
                DtsStep::End => ParseStep::End,
                _ => ParseStep::NeedMore,
            };
        }
        if self.pos >= DTS_COMPACT_BYTES {
            let rest: Vec<u8> = self.buffer.split_off(self.pos);
            assert(rest@ =~= old(self).waiting().skip(used as int));
            self.buffer = rest;
            self.pos = 0;
            assert(self.waiting() =~= old(self).waiting().skip(used as int));
        }
        if out_size > 0 {
            ParseStep::Send
        } else {
            ParseStep::Again
        }
    }
}

/// The words that went in come out again as bytes, in their order and without
/// loss.
pub proof fn law_words_survive(words: Seq<u16>, i: int)
    requires
        0 <= i < words.len(),
    ensures
        words_bytes(words)[2 * i] + 0x100 * words_bytes(words)[2 * i + 1] == words[i],
{
}

/// A number of a stream gives back its bytes, the least significant one first.
pub proof fn law_number_gives_back_its_bytes(bytes: Seq<u8>, at: int, width: nat, k: nat)
    requires
        0 <= at,
        at + width <= bytes.len(),
        k < width,
    ensures
        (le_value(bytes, at, width) / pow256(k)) % 0x100 == bytes[at + k],
        0 <= le_value(bytes, at, width) < pow256(width),
    decreases width,
{
    lemma_le_value_is_bounded(bytes, at, width);
    let rest = le_value(bytes, at + 1, (width - 1) as nat);
    let b = bytes[at] as int;
    lemma_le_value_is_bounded(bytes, at + 1, (width - 1) as nat);
    if k == 0 {
        assert(pow256(0) == 1);
    } else {
        law_number_gives_back_its_bytes(bytes, at + 1, (width - 1) as nat, (k - 1) as nat);
        let p = pow256((k - 1) as nat);
        lemma_pow256_is_positive((k - 1) as nat);
        assert((b + 0x100 * rest) / (0x100 * p) == rest / p) by (nonlinear_arith)
            requires
                0 <= b < 0x100,
                rest >= 0,
                p > 0,
        {
            let q = rest / p;
            let r = rest % p;
            assert(rest == q * p + r && 0 <= r < p);
            assert(b + 0x100 * rest == (0x100 * p) * q + (b + 0x100 * r)) by (nonlinear_arith)
                requires
                    rest == q * p + r,
            ;
            assert(0 <= b + 0x100 * r < 0x100 * p);
            vstd::arithmetic::div_mod::lemma_fundamental_div_mod_converse(
                b + 0x100 * rest,
                0x100 * p,
                q,
                b + 0x100 * r,
            );
        }
    }
}

proof fn lemma_pow256_is_positive(n: nat)
    ensures
        pow256(n) > 0,
    decreases n,
{
    if n > 0 {
        lemma_pow256_is_positive((n - 1) as nat);
    }
}

proof fn lemma_le_value_is_bounded(bytes: Seq<u8>, at: int, width: nat)
    requires
        0 <= at,
        at + width <= bytes.len(),
    ensures
        0 <= le_value(bytes, at, width) < pow256(width),
    decreases width,
{
    if width > 0 {
        lemma_le_value_is_bounded(bytes, at + 1, (width - 1) as nat);
    }
}

/// A sample of 16, 24, 32 or 64 bits stands for the number that differs from its bits by
/// whole turns of its width; one of 8 bits for its distance from the middle.
pub proof fn law_sample_is_twos_complement(kind: PcmKind, raw: int)
    requires
        0 <= raw < pow256(sample_bytes(kind)),
        scale_bits_of(kind) is Some,
    ensures
        ({
            let v = signed_value_spec(kind, raw);
            &&& kind == PcmKind::S16 ==> -0x8000 <= v < 0x8000 && (v - raw) % 0x1_0000 == 0
            &&& kind == PcmKind::S24 ==> -0x80_0000 <= v < 0x80_0000 && (v - raw) % 0x100_0000 == 0
            &&& kind == PcmKind::S32 ==> -0x8000_0000 <= v < 0x8000_0000 && (v - raw)
                % 0x1_0000_0000 == 0
            &&& kind == PcmKind::S64 ==> -0x8000_0000_0000_0000 <= v < 0x8000_0000_0000_0000 && (v
                - raw) % 0x1_0000_0000_0000_0000 == 0
            &&& kind == PcmKind::U8 ==> v + 128 == raw
        }),
{
    reveal_with_fuel(pow256, 9);
}

/// What the numbers of the formats stand for: five kinds in packed form, the same five in
/// planes, five numbers on, and the widest one as the last two.
pub proof fn law_planes_follow_packed_formats(format: i32)
    ensures
        0 <= format < 5 ==> {
            let (packed, planar) = (frame_layout_of(format), frame_layout_of((format + 5) as i32));
            &&& packed is Some && planar is Some
            &&& !packed->0.planar && planar->0.planar
            &&& packed->0.kind == planar->0.kind
        },
        format == 10 || format == 11 ==> frame_layout_of(format) is Some && frame_layout_of(
            format,
        )->0.kind == PcmKind::S64 && (frame_layout_of(format)->0.planar <==> format == 11),
        frame_layout_of(format) is Some <==> 0 <= format < 12,
        forall|other: i32|
            frame_layout_of(format) is Some && #[trigger] frame_layout_of(other) == frame_layout_of(
                format,
            ) ==> other == format,
        sample_bytes(frame_layout_of(0)->0.kind) == 1,
        sample_bytes(frame_layout_of(1)->0.kind) == 2,
        sample_bytes(frame_layout_of(2)->0.kind) == 4,
        sample_bytes(frame_layout_of(3)->0.kind) == 4,
        sample_bytes(frame_layout_of(4)->0.kind) == 8,
        scale_bits_of(frame_layout_of(2)->0.kind) is Some,
        scale_bits_of(frame_layout_of(3)->0.kind) is None,
        scale_bits_of(frame_layout_of(4)->0.kind) is None,
{
}

/// The scale of a whole-number sample is one bit less than it has; samples of floating
/// point have none.
pub proof fn law_scale_leaves_a_bit_for_the_sign(kind: PcmKind)
    ensures
        scale_bits_of(kind) is Some ==> scale_bits_of(kind)->0 + 1 == 8 * sample_bytes(kind),
        scale_bits_of(kind) is None <==> kind == PcmKind::F32 || kind == PcmKind::F64,
{
}

/// The samples of a frame come frame by frame, and in each the channels in their order:
/// from the plane of the channel, or from the one plane that holds them side by side.
pub proof fn law_frames_are_interleaved(
    planes: Seq<Plane>,
    layout: FrameLayout,
    samples: int,
    channels: int,
    f: int,
    c: int,
)
    requires
        0 <= f < samples,
        0 <= c < channels,
    ensures
        frame_values_spec(planes, layout, samples, channels).len() == samples * channels,
        0 <= f * channels + c < samples * channels,
        ({
            let width = sample_bytes(layout.kind);
            frame_values_spec(planes, layout, samples, channels)[f * channels + c] == (
            if layout.planar {
                le_value(planes[c]->0@, f * width, width) as u64
            } else {
                le_value(planes[0]->0@, (f * channels + c) * width, width) as u64
            })
        }),
{
    let i = f * channels + c;
    assert(0 <= i < samples * channels) by (nonlinear_arith)
        requires
            0 <= f < samples,
            0 <= c < channels,
            i == f * channels + c,
    ;
    vstd::arithmetic::div_mod::lemma_fundamental_div_mod_converse(i, channels, f, c);
}

/// Two channels of words go word by word, the left one first.
pub proof fn law_words_alternate(left: Seq<u16>, right: Seq<u16>, frames: nat, i: int)
    requires
        0 <= i < frames,
        frames <= left.len(),
        frames <= right.len(),
    ensures
        interleaved_pair(left, right, frames).len() == 2 * frames,
        interleaved_pair(left, right, frames)[2 * i] == left[i],
        interleaved_pair(left, right, frames)[2 * i + 1] == right[i],
{
}

/// The word that a sample carries is the upper half of one of 32 bits, and all of one of
/// 16 bits.
pub proof fn law_word_is_the_upper_half(word: u16, low: int)
    requires
        0 <= low < 0x1_0000,
    ensures
        carried_word(PcmKind::S32, word * 0x1_0000 + low) == word,
        carried_word(PcmKind::S16, word as int) == word,
{
    assert((word * 0x1_0000 + low) / 0x1_0000 == word);
}

/// The mark of a carried stream is known in either order of the bytes of its words, and is
/// one of two: of words of 16 bits or of 14.
pub proof fn law_mark_is_known_in_either_order(a: u16, b: u16)
    ensures
        is_dts_sync(a, b) <==> is_dts_sync(
            ((a % 0x100) * 0x100 + a / 0x100) as u16,
            ((b % 0x100) * 0x100 + b / 0x100) as u16,
        ),
        is_dts_sync(0x7ffe, 0x8001),
        is_dts_sync(0x1fff, 0xe800),
        is_dts_sync(a, b) && is_dts_sync(a, 0x8001) ==> b == 0x8001,
        a != 0x7ffe && a != 0xfe7f && a != 0x1fff && a != 0xff1f ==> !is_dts_sync(a, b),
{
}

/// Only the first words are looked at.
pub proof fn law_only_first_words_are_looked_at(words: Seq<u16>, limit: int)
    requires
        limit >= 0,
    ensures
        first_words(words, limit).is_prefix_of(words),
        first_words(words, limit).len() <= limit || first_words(words, limit) == words,
        first_words(words, limit).len() == limit || words.len() <= limit,
{
}

/// A decoder of a carried stream that has no bytes asks for more until there are none, then
/// is emptied once, and then is at its end.
pub proof fn law_carried_stream_is_emptied_once(d: DtsInput)
    ensures
        !d.input_eof ==> d.starved() == (d.sent_eof, DtsStep::NeedMore),
        d.input_eof && !d.sent_eof ==> d.starved().1 == DtsStep::Flush && d.starved().0,
        d.input_eof && d.sent_eof ==> d.starved().1 == DtsStep::End,
        d.input_eof ==> (DtsInput { sent_eof: d.starved().0, ..d }).starved().1 == DtsStep::End,
{
}

/// What came of a piece of a carried stream: a failure is told with its number, a packet is
/// sent on, used bytes are followed by the next ones, and nothing at all is as having none.
pub proof fn law_parsed_piece_is_used(d: DtsInput, used: i32, out_size: i32)
    ensures
        used < 0 ==> d.parsed_spec(used as int, out_size as int) == (
            d.sent_eof,
            ParseStep::Failed(used),
        ),
        used >= 0 && out_size > 0 ==> d.parsed_spec(used as int, out_size as int) == (
            d.sent_eof,
            ParseStep::Send,
        ),
        used > 0 && out_size <= 0 ==> d.parsed_spec(used as int, out_size as int) == (
            d.sent_eof,
            ParseStep::Again,
        ),
        used == 0 && out_size <= 0 && !d.input_eof ==> d.parsed_spec(
            used as int,
            out_size as int,
        ).1 == ParseStep::NeedMore,
        used == 0 && out_size <= 0 && d.input_eof && !d.sent_eof ==> d.parsed_spec(
            used as int,
            out_size as int,
        ) == (true, ParseStep::Flush),
        used == 0 && out_size <= 0 && d.input_eof && d.sent_eof ==> d.parsed_spec(
            used as int,
            out_size as int,
        ).1 == ParseStep::End,
{
}

/// The samples of a lossless file have the bits that it tells; other depths are not known.
pub proof fn law_lossless_samples_have_their_bits(bits: u16)
    ensures
        lossless_kind(bits) is Some <==> bits == 8 || bits == 16 || bits == 24,
        lossless_kind(bits) is Some ==> sample_bytes(lossless_kind(bits)->0) * 8 == bits
            && scale_bits_of(lossless_kind(bits)->0) is Some,
{
}

} // verus!
