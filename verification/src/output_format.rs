//! The choice of an output stream: which formats to offer the device in
//! exclusive mode, when to share the device instead, and how to go on when the
//! device refuses the stream.

use crate::lists::{distinct_numbers, first_occurrences, law_first_occurrences};
use vstd::prelude::*;

verus! {

/// How a device stores a sample.
#[derive(Clone, Copy, PartialEq, Eq, Structural, Debug)]
pub enum SampleKind {
    Int,
    Float,
}

/// A sample layout: the bits of the container and the bits in use.
#[derive(Clone, Copy, PartialEq, Eq, Structural, Debug)]
pub struct SampleFormat {
    pub store_bits: usize,
    pub valid_bits: usize,
    pub kind: SampleKind,
}

/// A stream format as a device reports it. Some devices report no sample kind,
/// and some report zero valid bits.
#[derive(Clone, Copy, PartialEq, Eq, Structural, Debug)]
pub struct DeviceFormat {
    pub rate: usize,
    pub channels: usize,
    pub store_bits: usize,
    pub valid_bits: usize,
    pub kind: Option<SampleKind>,
}

impl DeviceFormat {
    /// The bits in use; zero stands for all the bits of the container.
    pub open spec fn precision(self) -> usize {
        if self.valid_bits == 0 {
            self.store_bits
        } else {
            self.valid_bits
        }
    }

    /// Whether the samples are floating-point numbers.
    pub open spec fn is_float(self) -> bool {
        self.kind == Some(SampleKind::Float)
    }

    fn float(&self) -> (r: bool)
        ensures
            r == self.is_float(),
    {
        match self.kind {
            Some(SampleKind::Float) => true,
            _ => false,
        }
    }

    /// The bits in use of this format.
    pub fn effective_bits(&self) -> (r: usize)
        ensures
            r == self.precision(),
    {
        if self.valid_bits == 0 {
            self.store_bits
        } else {
            self.valid_bits
        }
    }
}

/// The name of a sample kind in log lines.
pub fn sample_type_str(is_float: bool) -> (r: &'static str)
    ensures
        r@ == (if is_float {
            "float"@
        } else {
            "int"@
        }),
{
    if is_float {
        "float"
    } else {
        "int"
    }
}

/// The rates to try in exclusive mode, in order and with repetitions: that of
/// the source, the common ones, and the one that the device mixes at.
pub open spec fn rate_wishes(source_rate: usize, mix_rate: Option<usize>) -> Seq<usize> {
    seq![source_rate, 96000usize, 48000usize, 44100usize, 192000usize] + match mix_rate {
        Some(rate) => seq![rate],
        None => seq![],
    }
}

/// The rates to try in exclusive mode, in order.
pub fn rate_candidates(source_rate: usize, mix_rate: Option<usize>) -> (r: Vec<usize>)
    ensures
        r@ == first_occurrences(rate_wishes(source_rate, mix_rate)),
{
    let mut wishes: Vec<usize> = Vec::new();
    wishes.push(source_rate);
    wishes.push(96000);
    wishes.push(48000);
    wishes.push(44100);
    wishes.push(192000);
    if let Some(rate) = mix_rate {
        wishes.push(rate);
    }
    assert(wishes@ =~= rate_wishes(source_rate, mix_rate));
    distinct_numbers(&wishes)
}

/// An integer layout.
pub open spec fn int_format(store_bits: usize, valid_bits: usize) -> SampleFormat {
    SampleFormat { store_bits, valid_bits, kind: SampleKind::Int }
}

/// The floating-point layout.
pub open spec fn float_format() -> SampleFormat {
    SampleFormat { store_bits: 32, valid_bits: 32, kind: SampleKind::Float }
}

/// `s` where `condition` holds, else nothing.
pub open spec fn when(condition: bool, s: Seq<SampleFormat>) -> Seq<SampleFormat> {
    if condition {
        s
    } else {
        seq![]
    }
}

/// The layouts for a source of `bits` bits, at least sixteen.
pub open spec fn known_depth_wishes(bits: usize) -> Seq<SampleFormat> {
    when(16 < bits < 32, seq![int_format(32, bits)]) + seq![int_format(bits, bits)] + when(
        bits < 32,
        seq![int_format(32, bits)],
    ) + when(bits <= 16, seq![int_format(32, 24), int_format(24, 24)]) + seq![
        int_format(32, 32),
        float_format(),
    ] + when(bits > 16, seq![int_format(16, 16)])
}

/// The layouts for a source whose depth is unknown or too low to be believed.
pub open spec fn unknown_depth_wishes() -> Seq<SampleFormat> {
    seq![
        float_format(),
        int_format(32, 32),
        int_format(32, 24),
        int_format(24, 24),
        int_format(16, 16),
    ]
}

/// The layout that the device mixes in, where it tells the sample kind.
pub open spec fn mix_wish(mix: Option<DeviceFormat>) -> Seq<SampleFormat> {
    match mix {
        Some(m) => match m.kind {
            Some(kind) => seq![
                SampleFormat { store_bits: m.store_bits, valid_bits: m.valid_bits, kind },
            ],
            None => seq![],
        },
        None => seq![],
    }
}

/// The layouts to try in exclusive mode, in order and with repetitions.
pub open spec fn format_wishes(source_bits: Option<usize>, mix: Option<DeviceFormat>) -> Seq<
    SampleFormat,
> {
    (match source_bits {
        Some(bits) => if bits >= 16 {
            known_depth_wishes(bits)
        } else {
            unknown_depth_wishes()
        },
        None => unknown_depth_wishes(),
    }) + mix_wish(mix)
}

fn int_layout(store_bits: usize, valid_bits: usize) -> (r: SampleFormat)
    ensures
        r == int_format(store_bits, valid_bits),
{
    SampleFormat { store_bits, valid_bits, kind: SampleKind::Int }
}

fn distinct_formats(s: &Vec<SampleFormat>) -> (r: Vec<SampleFormat>)
    ensures
        r@ == first_occurrences(s@),
{
    let mut r: Vec<SampleFormat> = Vec::new();
    let mut i: usize = 0;
    while i < s.len()
        invariant
            i <= s@.len(),
            r@ == first_occurrences(s@.take(i as int)),
        decreases s@.len() - i,
    {
        let x: SampleFormat = s[i];
        assert(s@.take(i + 1).drop_last() =~= s@.take(i as int));
        let mut known: bool = false;
        let mut j: usize = 0;
        while j < r.len()
            invariant
                j <= r@.len(),
                known <==> exists|k: int| 0 <= k < j && r@[k] == x,
            decreases r@.len() - j,
        {
            if r[j] == x {
                known = true;
            }
            j += 1;
        }
        assert(known <==> r@.contains(x));
        if !known {
            r.push(x);
        }
        i += 1;
    }
    assert(s@.take(s@.len() as int) =~= s@);
    r
}

/// The layouts to try in exclusive mode, in order.
pub fn format_candidates(source_bits: Option<usize>, mix: Option<DeviceFormat>) -> (r: Vec<
    SampleFormat,
>)
    ensures
        r@ == first_occurrences(format_wishes(source_bits, mix)),
{
    let float = SampleFormat { store_bits: 32, valid_bits: 32, kind: SampleKind::Float };
    let mut wishes: Vec<SampleFormat> = Vec::new();
    let known: bool = match source_bits {
        Some(bits) => bits >= 16,
        None => false,
    };
    if known {
        let bits: usize = source_bits.unwrap();
        if 16 < bits && bits < 32 {
            wishes.push(int_layout(32, bits));
        }
        wishes.push(int_layout(bits, bits));
        if bits < 32 {
            wishes.push(int_layout(32, bits));
        }
        if bits <= 16 {
            wishes.push(int_layout(32, 24));
            wishes.push(int_layout(24, 24));
        }
        wishes.push(int_layout(32, 32));
        wishes.push(float);
        if bits > 16 {
            wishes.push(int_layout(16, 16));
        }
        assert(wishes@ =~= known_depth_wishes(bits));
    } else {
        wishes.push(float);
        wishes.push(int_layout(32, 32));
        wishes.push(int_layout(32, 24));
        wishes.push(int_layout(24, 24));
        wishes.push(int_layout(16, 16));
        assert(wishes@ =~= unknown_depth_wishes());
    }
    if let Some(m) = mix {
        if let Some(kind) = m.kind {
            wishes.push(SampleFormat { store_bits: m.store_bits, valid_bits: m.valid_bits, kind });
        }
    }
    assert(wishes@ =~= format_wishes(source_bits, mix));
    distinct_formats(&wishes)
}

/// Every offer to the device: all the layouts at the first rate, and so on.
pub open spec fn probe_order(rates: Seq<usize>, formats: Seq<SampleFormat>) -> Seq<
    (usize, SampleFormat),
> {
    Seq::new(
        rates.len() * formats.len(),
        |i: int| (rates[i / formats.len() as int], formats[i % formats.len() as int]),
    )
}

/// The offers to make to the device in exclusive mode, in order.
pub fn exclusive_probe_list(rates: &Vec<usize>, formats: &Vec<SampleFormat>) -> (r: Vec<
    (usize, SampleFormat),
>)
    ensures
        r@ == probe_order(rates@, formats@),
{
    let mut r: Vec<(usize, SampleFormat)> = Vec::new();
    let mut i: usize = 0;
    let ghost f = formats@.len() as int;
    while i < rates.len()
        invariant
            f == formats@.len(),
            i <= rates@.len(),
            r@.len() == i * f,
            forall|k: int|
                #![trigger r@[k]]
                0 <= k < r@.len() ==> r@[k] == (rates@[k / f], formats@[k % f]),
        decreases rates@.len() - i,
    {
        let mut j: usize = 0;
        while j < formats.len()
            invariant
                f == formats@.len(),
                i < rates@.len(),
                j <= formats@.len(),
                r@.len() == i * f + j,
                forall|k: int|
                    #![trigger r@[k]]
                    0 <= k < r@.len() ==> r@[k] == (rates@[k / f], formats@[k % f]),
            decreases formats@.len() - j,
        {
            proof {
                let k = i * f + j;
                assert(k / f == i && k % f == j) by (nonlinear_arith)
                    requires
                        k == i * f + j,
                        0 <= j < f,
                ;
            }
            r.push((rates[i], formats[j]));
            j += 1;
        }
        assert((i + 1) * f == i * f + f) by (nonlinear_arith);
        i += 1;
    }
    assert(r@ =~= probe_order(rates@, formats@));
    r
}

/// The offers are made without repetition, and the source's own rate comes first.
pub proof fn law_candidates_are_distinct(
    source_rate: usize,
    source_bits: Option<usize>,
    mix_rate: Option<usize>,
    mix: Option<DeviceFormat>,
)
    ensures
        first_occurrences(rate_wishes(source_rate, mix_rate)).no_duplicates(),
        first_occurrences(rate_wishes(source_rate, mix_rate))[0] == source_rate,
        first_occurrences(format_wishes(source_bits, mix)).no_duplicates(),
        first_occurrences(format_wishes(source_bits, mix)).contains(float_format()),
        mix_rate matches Some(rate) ==> first_occurrences(
            rate_wishes(source_rate, mix_rate),
        ).contains(rate),
{
    let rates = rate_wishes(source_rate, mix_rate);
    let formats = format_wishes(source_bits, mix);
    law_first_occurrences(rates);
    law_first_occurrences(formats);
    if let Some(rate) = mix_rate {
        assert(rates[5] == rate);
        assert(rates.contains(rate));
    }
    assert(formats.contains(float_format())) by {
        match source_bits {
            Some(bits) => if bits >= 16 {
                if 16 < bits < 32 {
                    assert(formats[4] == float_format());
                } else if bits == 16 {
                    assert(formats[5] == float_format());
                } else {
                    assert(formats[2] == float_format());
                }
            } else {
                assert(formats[0] == float_format());
            },
            None => {
                assert(formats[0] == float_format());
            },
        }
    }
}

/// Whether an exclusive stream would cost precision that a shared one keeps:
/// the source is deeper than the format, or its depth is unknown, the format is
/// an integer one of sixteen bits or fewer and the device mixes more precisely.
pub open spec fn would_lose_precision(
    format: DeviceFormat,
    source_bits: Option<usize>,
    mix: Option<DeviceFormat>,
) -> bool {
    match source_bits {
        Some(bits) => bits > format.precision(),
        None => !format.is_float() && format.precision() <= 16 && match mix {
            Some(m) => m.is_float() || m.precision() > format.precision(),
            None => false,
        },
    }
}

/// Whether to share the device although it takes `format` exclusively.
pub fn falls_back_to_shared(
    format: &DeviceFormat,
    source_bits: Option<usize>,
    mix: Option<DeviceFormat>,
) -> (r: bool)
    ensures
        r == would_lose_precision(*format, source_bits, mix),
{
    match source_bits {
        Some(bits) => bits > format.effective_bits(),
        None => {
            if format.float() || format.effective_bits() > 16 {
                return false;
            }
            match mix {
                Some(m) => m.float() || m.effective_bits() > format.effective_bits(),
                None => false,
            }
        },
    }
}

/// Which format a stream is opened with.
#[derive(Clone, Copy, PartialEq, Eq, Structural, Debug)]
pub enum FormatChoice {
    /// The integer format of the source itself.
    Source,
    /// The format that the device mixes in.
    Mix(DeviceFormat),
    /// A format that the device took exclusively.
    Exclusive(DeviceFormat),
}

/// How the output stream is opened.
#[derive(Clone, Copy, PartialEq, Eq, Structural, Debug)]
pub struct StreamPlan {
    pub exclusive: bool,
    pub format: FormatChoice,
    pub output_rate: usize,
    pub needs_resample: bool,
}

/// A shared stream: in the mix format where there is one, else in that of the
/// source, which the system converts.
pub open spec fn shared_plan_spec(source_rate: usize, mix: Option<DeviceFormat>) -> StreamPlan {
    match mix {
        Some(m) => StreamPlan {
            exclusive: false,
            format: FormatChoice::Mix(m),
            output_rate: m.rate,
            needs_resample: m.rate != source_rate,
        },
        None => StreamPlan {
            exclusive: false,
            format: FormatChoice::Source,
            output_rate: source_rate,
            needs_resample: false,
        },
    }
}

/// The stream for a source: exclusive where that is preferred, the device takes
/// a format and no precision is lost; shared otherwise.
pub open spec fn stream_plan_spec(
    prefer_exclusive: bool,
    chosen: Option<DeviceFormat>,
    source_rate: usize,
    source_bits: Option<usize>,
    mix: Option<DeviceFormat>,
) -> StreamPlan {
    if prefer_exclusive && chosen is Some && !would_lose_precision(chosen->0, source_bits, mix) {
        StreamPlan {
            exclusive: true,
            format: FormatChoice::Exclusive(chosen->0),
            output_rate: chosen->0.rate,
            needs_resample: chosen->0.rate != source_rate,
        }
    } else {
        shared_plan_spec(source_rate, mix)
    }
}

/// The plan for a shared stream.
pub fn shared_plan(source_rate: usize, mix: Option<DeviceFormat>) -> (r: StreamPlan)
    ensures
        r == shared_plan_spec(source_rate, mix),
{
    match mix {
        Some(m) => StreamPlan {
            exclusive: false,
            format: FormatChoice::Mix(m),
            output_rate: m.rate,
            needs_resample: m.rate != source_rate,
        },
        None => StreamPlan {
            exclusive: false,
            format: FormatChoice::Source,
            output_rate: source_rate,
            needs_resample: false,
        },
    }
}

/// The plan for a stream. `chosen` is the first offer that the device took in
/// exclusive mode, where one was made.
pub fn stream_plan(
    prefer_exclusive: bool,
    chosen: Option<DeviceFormat>,
    source_rate: usize,
    source_bits: Option<usize>,
    mix: Option<DeviceFormat>,
) -> (r: StreamPlan)
    ensures
        r == stream_plan_spec(prefer_exclusive, chosen, source_rate, source_bits, mix),
{
    if prefer_exclusive {
        if let Some(format) = chosen {
            if !falls_back_to_shared(&format, source_bits, mix) {
                return StreamPlan {
                    exclusive: true,
                    format: FormatChoice::Exclusive(format),
                    output_rate: format.rate,
                    needs_resample: format.rate != source_rate,
                };
            }
        }
    }
    shared_plan(source_rate, mix)
}

/// A stream resamples only when it runs at another rate than the source, and an
/// exclusive stream of a source of known depth never drops bits.
pub proof fn law_stream_plan(
    prefer_exclusive: bool,
    chosen: Option<DeviceFormat>,
    source_rate: usize,
    source_bits: Option<usize>,
    mix: Option<DeviceFormat>,
)
    ensures
        ({
            let plan = stream_plan_spec(prefer_exclusive, chosen, source_rate, source_bits, mix);
            &&& plan.needs_resample <==> plan.output_rate != source_rate
            &&& plan.exclusive ==> prefer_exclusive && plan.format is Exclusive
            &&& plan.exclusive && source_bits is Some ==> source_bits->0
                <= plan.format->Exclusive_0.precision()
        }),
{
}

/// The number of units of a hundred nanoseconds in a second.
pub const HNS_PER_SECOND: u64 = 10_000_000;

/// The product, or the greatest 64-bit number where it does not fit.
pub open spec fn saturated(n: int) -> int {
    if n > u64::MAX {
        u64::MAX as int
    } else {
        n
    }
}

fn mul_saturating(a: u64, b: u64) -> (r: u64)
    ensures
        r == saturated(a * b),
{
    assert(a * b <= u64::MAX * u64::MAX) by (nonlinear_arith)
        requires
            a <= u64::MAX,
            b <= u64::MAX,
    ;
    let p: u128 = a as u128 * b as u128;
    if p > u64::MAX as u128 {
        u64::MAX
    } else {
        p as u64
    }
}

/// The frames that `desired_hns` last, rounded up.
pub open spec fn frames_of_period(rate: int, desired_hns: int) -> int {
    saturated(saturated(rate * desired_hns) + HNS_PER_SECOND - 1) / HNS_PER_SECOND as int
}

/// The least multiple of `align` that is not below `n`.
pub open spec fn round_up(n: int, align: int) -> int {
    ((n + align - 1) / align) * align
}

/// How long `frames` last, rounded up to units of a hundred nanoseconds.
pub open spec fn period_of_frames(rate: int, frames: int) -> int {
    saturated(saturated(frames * HNS_PER_SECOND) + rate - 1) / rate
}

/// A period as a signed number, at least one. What does not fit wraps below it.
pub open spec fn positive_period(hns: int) -> int {
    if hns > i64::MAX || hns < 1 {
        1
    } else {
        hns
    }
}

/// The period near `desired_hns` that holds a multiple of `align_frames` frames.
pub open spec fn aligned_period(rate: int, desired_hns: int, align_frames: int) -> int {
    if rate == 0 || desired_hns <= 0 || align_frames == 0 {
        desired_hns
    } else {
        positive_period(
            period_of_frames(rate, round_up(frames_of_period(rate, desired_hns), align_frames)),
        )
    }
}

fn positive(hns: u64) -> (r: i64)
    ensures
        r == positive_period(hns as int),
{
    if hns > i64::MAX as u64 || hns < 1 {
        1
    } else {
        hns as i64
    }
}

/// The period near `desired_hns` that holds a multiple of `align_frames` frames.
pub fn align_period_hns(sample_rate_hz: usize, desired_hns: i64, align_frames: usize) -> (r: i64)
    requires
        frames_of_period(sample_rate_hz as int, desired_hns as int) + align_frames <= u64::MAX,
    ensures
        r == aligned_period(sample_rate_hz as int, desired_hns as int, align_frames as int),
{
    if sample_rate_hz == 0 || desired_hns <= 0 || align_frames == 0 {
        return desired_hns;
    }
    let sr: u64 = sample_rate_hz as u64;
    let desired_frames: u64 = mul_saturating(sr, desired_hns as u64).saturating_add(
        HNS_PER_SECOND - 1,
    ) / HNS_PER_SECOND;
    let align: u64 = align_frames as u64;
    let blocks: u64 = (desired_frames + align - 1) / align;
    proof {
        let n = desired_frames + align - 1;
        assert(blocks * align <= n) by (nonlinear_arith)
            requires
                blocks == n / align as int,
                align > 0,
                n >= 0,
        ;
    }
    let aligned_frames: u64 = blocks * align;
    let aligned_hns: u64 = mul_saturating(aligned_frames, HNS_PER_SECOND).saturating_add(sr - 1)
        / sr;
    positive(aligned_hns)
}

/// A period that was aligned is one that the device plays in whole blocks: it is
/// no shorter than what was asked for, where nothing overflows.
pub proof fn law_aligned_period_is_long_enough(rate: int, desired_hns: int, align_frames: int)
    requires
        0 < rate <= 1_000_000,
        0 < desired_hns <= 10_000_000_000,
        0 < align_frames <= 65536,
    ensures
        aligned_period(rate, desired_hns, align_frames) >= desired_hns,
{
    let product = rate * desired_hns;
    let frames = frames_of_period(rate, desired_hns);
    let aligned = round_up(frames, align_frames);
    let hns = aligned * HNS_PER_SECOND;
    assert(0 < product <= 1_000_000 * 10_000_000_000) by (nonlinear_arith)
        requires
            0 < rate <= 1_000_000,
            0 < desired_hns <= 10_000_000_000,
            product == rate * desired_hns,
    ;
    assert(frames * HNS_PER_SECOND >= product);
    assert(frames <= aligned < frames + align_frames) by (nonlinear_arith)
        requires
            aligned == ((frames + align_frames - 1) / align_frames) * align_frames,
            align_frames > 0,
    ;
    assert(hns >= product);
    assert((hns + rate - 1) / rate >= desired_hns) by (nonlinear_arith)
        requires
            hns >= rate * desired_hns,
            rate > 0,
    ;
    assert((hns + rate - 1) / rate <= i64::MAX) by (nonlinear_arith)
        requires
            0 <= hns <= 200_000_000_000_000_000,
            0 < rate <= 1_000_000,
    ;
}

/// Whether a stream is shared, with its buffer length, or exclusive, with its
/// period, both in units of a hundred nanoseconds.
#[derive(Clone, Copy, PartialEq, Eq, Structural, Debug)]
pub enum StreamMode {
    Shared { buffer_duration_hns: i64 },
    Exclusive { period_hns: i64 },
}

/// The device's word for a period that is not a whole number of blocks.
pub const BUFFER_SIZE_NOT_ALIGNED: u32 = 0x88890019;

/// The device's word for an end point that is gone.
pub const DEVICE_INVALIDATED: u32 = 0x88890004;

/// How far the opening of a stream has got.
#[derive(Clone, Copy, PartialEq, Eq, Debug)]
pub struct StreamInit {
    pub mode: StreamMode,
    /// The period that the next stream starts from.
    pub buffer_duration_hns: i64,
    pub tried_frame_count: bool,
    pub tried_shared: bool,
    pub retried_once: bool,
    /// The three aligned periods, once they have been worked out.
    pub aligned: Option<(i64, i64, i64)>,
    /// How many of them have been passed.
    pub aligned_tried: u8,
}

/// What to do after the device refused a stream.
#[derive(Clone, Copy, PartialEq, Eq, Structural, Debug)]
pub enum InitStep {
    /// Open the device again and try the same stream with this period.
    RetryExclusive(i64),
    /// Open the device again and try a shared stream.
    FallBackToShared,
    /// Wait, open the device again and try the same stream.
    RetryAfterMs(u32),
    /// Report that the device is in use.
    GiveUp,
}

/// The pause before the one plain retry.
pub const INIT_RETRY_DELAY_MS: u32 = 100;

impl StreamInit {
    /// The start of an opening in the given mode.
    pub open spec fn start(mode: StreamMode, buffer_duration_hns: i64) -> StreamInit {
        StreamInit {
            mode,
            buffer_duration_hns,
            tried_frame_count: false,
            tried_shared: false,
            retried_once: false,
            aligned: None,
            aligned_tried: 0,
        }
    }

    /// Starts an opening in the given mode.
    pub fn new(mode: StreamMode, buffer_duration_hns: i64) -> (r: StreamInit)
        ensures
            r == StreamInit::start(mode, buffer_duration_hns),
    {
        StreamInit {
            mode,
            buffer_duration_hns,
            tried_frame_count: false,
            tried_shared: false,
            retried_once: false,
            aligned: None,
            aligned_tried: 0,
        }
    }

    /// The period of an exclusive stream, else the buffer length.
    pub open spec fn base_period(self) -> i64 {
        match self.mode {
            StreamMode::Exclusive { period_hns } => period_hns,
            StreamMode::Shared { .. } => self.buffer_duration_hns,
        }
    }

    /// Whether the refusal is about the period of an exclusive stream.
    pub open spec fn misaligned(self, error_code: u32) -> bool {
        self.mode is Exclusive && error_code == BUFFER_SIZE_NOT_ALIGNED
    }

    /// Whether the device's own buffer size is worth asking for.
    pub open spec fn wants_frame_count_spec(self, error_code: u32, rate: int) -> bool {
        self.misaligned(error_code) && !self.tried_frame_count && rate > 0
    }

    /// The period of the device's own buffer, where it was asked for, came back
    /// and differs from the one that was refused.
    pub open spec fn device_period(self, error_code: u32, rate: int, frames: Option<u32>) -> Option<
        i64,
    > {
        match frames {
            Some(n) => {
                let p = positive_period(period_of_frames(rate, n as int)) as i64;
                if self.wants_frame_count_spec(error_code, rate) && p != self.base_period() {
                    Some(p)
                } else {
                    None
                }
            },
            None => None,
        }
    }

    /// The three periods that hold whole blocks of 64, 128 and 256 frames.
    pub open spec fn aligned_periods(self, rate: int) -> (i64, i64, i64) {
        match self.aligned {
            Some(periods) => periods,
            None => (
                aligned_period(rate, self.base_period() as int, 64) as i64,
                aligned_period(rate, self.base_period() as int, 128) as i64,
                aligned_period(rate, self.base_period() as int, 256) as i64,
            ),
        }
    }

    /// The first of the three periods from number `from` on that is positive.
    pub open spec fn next_aligned(periods: (i64, i64, i64), from: int) -> Option<(int, i64)> {
        if from <= 0 && periods.0 > 0 {
            Some((0, periods.0))
        } else if from <= 1 && periods.1 > 0 {
            Some((1, periods.1))
        } else if from <= 2 && periods.2 > 0 {
            Some((2, periods.2))
        } else {
            None
        }
    }

    /// The step after a refusal, and the state that it leaves.
    pub open spec fn on_refused(self, error_code: u32, rate: int, frames: Option<u32>) -> (
        StreamInit,
        InitStep,
    ) {
        let mid = if self.misaligned(error_code) {
            StreamInit { tried_frame_count: true, ..self }
        } else {
            self
        };
        match self.device_period(error_code, rate, frames) {
            Some(p) => (
                StreamInit {
                    mode: StreamMode::Exclusive { period_hns: p },
                    buffer_duration_hns: p,
                    ..mid
                },
                InitStep::RetryExclusive(p),
            ),
            None => {
                let periods = self.aligned_periods(rate);
                let left = if self.misaligned(error_code) {
                    StreamInit::next_aligned(periods, self.aligned_tried as int)
                } else {
                    None
                };
                let mid = if self.misaligned(error_code) {
                    StreamInit {
                        aligned: Some(periods),
                        aligned_tried: match left {
                            Some((i, _)) => (i + 1) as u8,
                            None => if self.aligned_tried > 3 {
                                self.aligned_tried
                            } else {
                                3
                            },
                        },
                        ..mid
                    }
                } else {
                    mid
                };
                match left {
                    Some((_, p)) => (
                        StreamInit {
                            mode: StreamMode::Exclusive { period_hns: p },
                            buffer_duration_hns: p,
                            ..mid
                        },
                        InitStep::RetryExclusive(p),
                    ),
                    None => if self.mode is Exclusive && !self.tried_shared {
                        (
                            StreamInit {
                                tried_shared: true,
                                mode: StreamMode::Shared {
                                    buffer_duration_hns: mid.buffer_duration_hns,
                                },
                                ..mid
                            },
                            InitStep::FallBackToShared,
                        )
                    } else if !self.retried_once {
                        (
                            StreamInit { retried_once: true, ..mid },
                            InitStep::RetryAfterMs(INIT_RETRY_DELAY_MS),
                        )
                    } else {
                        (mid, InitStep::GiveUp)
                    },
                }
            },
        }
    }

    /// The retries that an opening has left at most.
    pub open spec fn retries_left(self) -> int {
        (if self.tried_frame_count {
            0int
        } else {
            1
        }) + (if self.aligned_tried >= 3 {
            0int
        } else {
            3 - self.aligned_tried
        }) + (if self.tried_shared {
            0int
        } else {
            1
        }) + (if self.retried_once {
            0int
        } else {
            1
        })
    }

    /// Whether to ask the device for its buffer size before `refused`.
    pub fn wants_frame_count(&self, error_code: u32, rate: usize) -> (r: bool)
        ensures
            r == self.wants_frame_count_spec(error_code, rate as int),
    {
        match self.mode {
            StreamMode::Exclusive { .. } => error_code == BUFFER_SIZE_NOT_ALIGNED
                && !self.tried_frame_count && rate > 0,
            StreamMode::Shared { .. } => false,
        }
    }

    /// Decides what to do after the device refused the stream with
    /// `error_code`. `rate` is that of the refused format; `frames` is the
    /// device's buffer size, where it was asked for and came back.
    pub fn refused(&mut self, error_code: u32, rate: usize, frames: Option<u32>) -> (r: InitStep)
        requires
            rate <= u32::MAX,
        ensures
            (*final(self), r) == old(self).on_refused(error_code, rate as int, frames),
    {
        let exclusive: bool = match self.mode {
            StreamMode::Exclusive { .. } => true,
            StreamMode::Shared { .. } => false,
        };
        let base: i64 = match self.mode {
            StreamMode::Exclusive { period_hns } => period_hns,
            StreamMode::Shared { .. } => self.buffer_duration_hns,
        };
        let ask: bool = self.wants_frame_count(error_code, rate);
        if exclusive && error_code == BUFFER_SIZE_NOT_ALIGNED {
            self.tried_frame_count = true;
            if ask {
                if let Some(n) = frames {
                    let sr: u64 = rate as u64;
                    let p: i64 = positive(
                        mul_saturating(n as u64, HNS_PER_SECOND).saturating_add(sr - 1) / sr,
                    );
                    if p != base {
                        self.mode = StreamMode::Exclusive { period_hns: p };
                        self.buffer_duration_hns = p;
                        return InitStep::RetryExclusive(p);
                    }
                }
            }
            let periods: (i64, i64, i64) = match self.aligned {
                Some(periods) => periods,
                None => (
                    align_period_hns(rate, base, 64),
                    align_period_hns(rate, base, 128),
                    align_period_hns(rate, base, 256),
                ),
            };
            self.aligned = Some(periods);
            let mut p: i64 = 0;
            if self.aligned_tried == 0 {
                self.aligned_tried = 1;
                p = periods.0;
            }
            if p <= 0 && self.aligned_tried == 1 {
                self.aligned_tried = 2;
                p = periods.1;
            }
            if p <= 0 && self.aligned_tried == 2 {
                self.aligned_tried = 3;
                p = periods.2;
            }
            if p > 0 {
                self.mode = StreamMode::Exclusive { period_hns: p };
                self.buffer_duration_hns = p;
                return InitStep::RetryExclusive(p);
            }
        }
        if exclusive && !self.tried_shared {
            self.tried_shared = true;
            self.mode = StreamMode::Shared { buffer_duration_hns: self.buffer_duration_hns };
            return InitStep::FallBackToShared;
        }
        if !self.retried_once {
            self.retried_once = true;
            return InitStep::RetryAfterMs(INIT_RETRY_DELAY_MS);
        }
        InitStep::GiveUp
    }
}

/// An opening ends: each retry uses one up, and there are six at most.
pub proof fn law_init_retries_are_bounded(s: StreamInit, code: u32, rate: int, frames: Option<u32>)
    ensures
        0 <= s.retries_left() <= 6,
        !(s.on_refused(code, rate, frames).1 is GiveUp) ==> s.on_refused(
            code,
            rate,
            frames,
        ).0.retries_left() < s.retries_left(),
{
}

/// A stream that has become shared stays shared.
pub proof fn law_shared_stays_shared(s: StreamInit, code: u32, rate: int, frames: Option<u32>)
    requires
        s.mode is Shared,
    ensures
        s.on_refused(code, rate, frames).0.mode == s.mode,
        !(s.on_refused(code, rate, frames).1 is RetryExclusive),
        !(s.on_refused(code, rate, frames).1 is FallBackToShared),
{
}

/// A device is taken for the player alone where that is wanted, the device took a format,
/// and that format holds the bits of the track; else it is shared, in its own format where
/// it tells one, and in that of the track where it does not.
pub proof fn law_exclusive_where_nothing_is_lost(
    prefer_exclusive: bool,
    chosen: Option<DeviceFormat>,
    source_rate: usize,
    bits: usize,
    mix: Option<DeviceFormat>,
)
    ensures
        ({
            let plan = stream_plan_spec(prefer_exclusive, chosen, source_rate, Some(bits), mix);
            let held = if chosen->0.valid_bits == 0 {
                chosen->0.store_bits
            } else {
                chosen->0.valid_bits
            };
            let alone = prefer_exclusive && chosen is Some && bits <= held;
            &&& plan.exclusive <==> alone
            &&& alone ==> plan.format == FormatChoice::Exclusive(chosen->0) && plan.output_rate
                == chosen->0.rate
            &&& !alone && mix is Some ==> plan.format == FormatChoice::Mix(mix->0)
                && plan.output_rate == mix->0.rate
            &&& !alone && mix is None ==> plan.format == FormatChoice::Source && plan.output_rate
                == source_rate
            &&& plan.needs_resample <==> plan.output_rate != source_rate
        }),
{
}

/// Where the bits of a track are not known, a device is shared only where it took 16 bits
/// at most for the player alone and works with more itself.
pub proof fn law_unknown_depth_is_shared_for_more_bits(
    chosen: DeviceFormat,
    source_rate: usize,
    mix: Option<DeviceFormat>,
)
    ensures
        ({
            let plan = stream_plan_spec(true, Some(chosen), source_rate, None, mix);
            &&& chosen.kind == Some(SampleKind::Float) ==> plan.exclusive
            &&& chosen.valid_bits > 16 ==> plan.exclusive
            &&& mix is None ==> plan.exclusive
            &&& 0 < chosen.valid_bits <= 16 && chosen.kind != Some(SampleKind::Float) && mix is Some
                && mix->0.valid_bits > chosen.valid_bits ==> !plan.exclusive
            &&& 0 < chosen.valid_bits <= 16 && chosen.kind != Some(SampleKind::Float) && mix is Some
                && mix->0.kind == Some(SampleKind::Float) ==> !plan.exclusive
            &&& mix is Some && mix->0.kind != Some(SampleKind::Float) && mix->0.valid_bits > 0
                && mix->0.valid_bits <= chosen.valid_bits ==> plan.exclusive
        }),
{
}

/// Of the formats that a track of known depth is offered in, the first holds exactly its
/// bits, and none holds fewer, but for one of 16 bits as the last resort.
pub proof fn law_offers_keep_the_depth(bits: usize, i: int)
    requires
        16 <= bits <= 32,
        0 <= i < known_depth_wishes(bits).len(),
    ensures
        ({
            let offers = known_depth_wishes(bits);
            &&& offers[0].valid_bits == bits && offers[0].kind == SampleKind::Int
            &&& offers[i].store_bits >= offers[i].valid_bits
            &&& offers[i].valid_bits >= bits || (i == offers.len() - 1 && offers[i].valid_bits
                == 16)
            &&& bits == 16 ==> offers[0].store_bits == 16
            &&& 16 < bits < 32 ==> offers[0].store_bits == 32
        }),
{
}

/// A track whose depth is not known is offered as floating point first, and then in falling
/// depth; what the device works with itself is offered last.
pub proof fn law_unknown_depth_is_offered_falling(mix: Option<DeviceFormat>, i: int, j: int)
    requires
        0 <= i < j < 5,
    ensures
        ({
            let offers = format_wishes(None, mix);
            &&& offers.len() >= 5
            &&& offers[0].kind == SampleKind::Float
            &&& offers[j].kind == SampleKind::Int
            &&& offers[i].valid_bits >= offers[j].valid_bits
            &&& mix is Some && mix->0.kind is Some ==> offers.last().store_bits
                == mix->0.store_bits && offers.last().valid_bits == mix->0.valid_bits && Some(
                offers.last().kind,
            ) == mix->0.kind
        }),
{
}

/// A depth below 16 bits counts as one that is not known.
pub proof fn law_small_depth_is_not_known(bits: usize, mix: Option<DeviceFormat>)
    ensures
        bits < 16 ==> format_wishes(Some(bits), mix) == format_wishes(None, mix),
{
}

/// The rates are tried in this order: that of the track, the usual ones, and what the device
/// works with itself.
pub proof fn law_rate_of_the_track_comes_first(source_rate: usize, mix_rate: Option<usize>)
    ensures
        ({
            let rates = rate_wishes(source_rate, mix_rate);
            &&& rates[0] == source_rate
            &&& rates[1] == 96000 && rates[2] == 48000 && rates[3] == 44100 && rates[4] == 192000
            &&& rates.len() == (if mix_rate is Some {
                6int
            } else {
                5
            })
            &&& mix_rate is Some ==> rates[5] == mix_rate->0
        }),
{
}

/// All formats are tried at one rate before the next rate is.
pub proof fn law_rates_are_tried_one_by_one(
    rates: Seq<usize>,
    formats: Seq<SampleFormat>,
    r: int,
    f: int,
)
    requires
        0 <= r < rates.len(),
        0 <= f < formats.len(),
    ensures
        0 <= r * formats.len() + f < probe_order(rates, formats).len(),
        probe_order(rates, formats)[r * formats.len() + f] == (rates[r], formats[f]),
{
    let n = formats.len() as int;
    let i = r * n + f;
    assert(0 <= i < rates.len() * n) by (nonlinear_arith)
        requires
            0 <= r < rates.len(),
            0 <= f < n,
            i == r * n + f,
    ;
    vstd::arithmetic::div_mod::lemma_fundamental_div_mod_converse(i, n, r, f);
}

/// A period takes as many frames as begin in it, and frames take the time until the last
/// of them ends; rounding up gives the next multiple.
pub proof fn law_periods_and_frames(rate: int, n: int, align: int)
    requires
        0 < rate <= 1_000_000,
        0 <= n <= 10_000_000_000,
        0 < align,
    ensures
        (frames_of_period(rate, n) - 1) * 10_000_000 < rate * n <= frames_of_period(rate, n)
            * 10_000_000,
        (period_of_frames(rate, n) - 1) * rate < n * 10_000_000 <= period_of_frames(rate, n) * rate,
        round_up(n, align) % align == 0,
        n <= round_up(n, align) < n + align,
{
    let product = rate * n;
    assert(0 <= product <= 1_000_000 * 10_000_000_000) by (nonlinear_arith)
        requires
            0 < rate <= 1_000_000,
            0 <= n <= 10_000_000_000,
            product == rate * n,
    ;
    let m = n * 10_000_000 + rate - 1;
    let q = m / rate;
    assert(q * rate <= m < q * rate + rate) by (nonlinear_arith)
        requires
            q == m / rate,
            rate > 0,
    ;
    assert((q - 1) * rate == q * rate - rate) by (nonlinear_arith);
    let k = n + align - 1;
    let b = k / align;
    assert(b * align <= k < b * align + align) by (nonlinear_arith)
        requires
            b == k / align,
            align > 0,
    ;
    assert((b * align) % align == 0) by (nonlinear_arith)
        requires
            align > 0,
    ;
}

/// What follows when a device refuses a stream: a shared one is tried once more after a
/// pause and then given up; one for the player alone is tried with other periods where its
/// period is the reason, and else as a shared one, once.
pub proof fn law_refused_stream_is_tried_otherwise(
    s: StreamInit,
    code: u32,
    rate: int,
    frames: Option<u32>,
)
    ensures
        ({
            let (after, step) = s.on_refused(code, rate, frames);
            let misaligned = s.mode is Exclusive && code == 0x88890019;
            &&& s.mode is Shared && !s.retried_once ==> step == InitStep::RetryAfterMs(100)
                && after.retried_once
            &&& s.mode is Shared && s.retried_once ==> step == InitStep::GiveUp
            &&& s.mode is Exclusive && !misaligned && !s.tried_shared ==> step
                == InitStep::FallBackToShared && after.mode is Shared && after.tried_shared
            &&& step is RetryExclusive ==> misaligned && after.mode == StreamMode::Exclusive {
                period_hns: step->RetryExclusive_0,
            } && after.buffer_duration_hns == step->RetryExclusive_0 && step->RetryExclusive_0 > 0
            &&& misaligned && s.aligned_tried == 0 && s.aligned is Some && (s.aligned->0).0 > 0
                && s.tried_frame_count ==> step == InitStep::RetryExclusive((s.aligned->0).0)
            &&& misaligned && s.aligned_tried == 1 && s.aligned is Some && (s.aligned->0).1 > 0
                && s.tried_frame_count ==> step == InitStep::RetryExclusive((s.aligned->0).1)
            &&& misaligned && s.aligned_tried == 2 && s.aligned is Some && (s.aligned->0).2 > 0
                && s.tried_frame_count ==> step == InitStep::RetryExclusive((s.aligned->0).2)
            &&& step is FallBackToShared ==> after.mode == StreamMode::Shared {
                buffer_duration_hns: s.buffer_duration_hns,
            }
        }),
{
}

/// The first period that is tried after a refusal is that of the buffer of the device,
/// where it tells one and it is another than the refused one; after it come those of whole
/// blocks of 64, 128 and 256 frames.
pub proof fn law_periods_are_tried_in_order(s: StreamInit, rate: int, frames: u32)
    requires
        s.mode is Exclusive,
        0 < rate <= 1_000_000,
        frames > 0,
        s.aligned is None,
    ensures
        ({
            let (after, step) = s.on_refused(0x88890019, rate, Some(frames));
            let p = step->RetryExclusive_0;
            &&& !s.tried_frame_count && step is RetryExclusive && after.aligned is None ==> {
                &&& (p - 1) * rate < frames * 10_000_000 <= p * rate
                &&& p != s.mode->period_hns
            }
            &&& after.aligned is Some ==> after.aligned->0 == (
                aligned_period(rate, s.mode->period_hns as int, 64) as i64,
                aligned_period(rate, s.mode->period_hns as int, 128) as i64,
                aligned_period(rate, s.mode->period_hns as int, 256) as i64,
            )
            &&& after.tried_frame_count
        }),
{
    let n = frames as int;
    law_periods_and_frames(rate, n, 1);
    let p = period_of_frames(rate, n);
    assert(1 <= p <= i64::MAX) by (nonlinear_arith)
        requires
            (p - 1) * rate < n * 10_000_000 <= p * rate,
            0 < n <= 0xffff_ffff,
            0 < rate,
    ;
}

/// Every format that is offered has a container of 16, 24 or 32 bits, for tracks of such a
/// depth and for those of which it is not known.
pub proof fn law_containers_are_usual_ones(bits: usize, i: int)
    requires
        bits == 16 || bits == 24 || bits == 32,
    ensures
        0 <= i < known_depth_wishes(bits).len() ==> {
            let store = known_depth_wishes(bits)[i].store_bits;
            store == 16 || store == 24 || store == 32
        },
        0 <= i < unknown_depth_wishes().len() ==> {
            let store = unknown_depth_wishes()[i].store_bits;
            store == 16 || store == 24 || store == 32
        },
        float_format().store_bits == 32 && float_format().valid_bits == 32,
        known_depth_wishes(bits).contains(int_format(32, 32)),
        unknown_depth_wishes().contains(int_format(24, 24)) && unknown_depth_wishes().contains(
            int_format(16, 16),
        ),
{
    let all = known_depth_wishes(bits);
    if bits == 16 {
        assert(all[4] == int_format(32, 32));
    } else if bits == 24 {
        assert(all[3] == int_format(32, 32));
    } else {
        assert(all[0] == int_format(32, 32));
    }
    let other = unknown_depth_wishes();
    assert(other[3] == int_format(24, 24) && other[4] == int_format(16, 16));
}

} // verus!
