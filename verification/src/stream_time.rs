//! Time inside a media stream: ticks and milliseconds, the first time stamp of a
//! stream that was cut out of another, and the stream parameters.

use vstd::prelude::*;

verus! {

/// Seconds per tick, as a fraction.
#[derive(Clone, Copy, PartialEq, Eq, Structural, Debug)]
pub struct TickLength {
    pub numer: u32,
    pub denom: u32,
}

impl TickLength {
    /// Neither part is zero.
    pub open spec fn wf(self) -> bool {
        self.numer > 0 && self.denom > 0
    }
}

/// The greatest time that the media library holds, in milliseconds.
pub const MAX_TIME_MS: i128 = 9_223_372_036_854_775_807_999;

/// The milliseconds of some ticks, rounded down and kept below the greatest
/// time.
pub open spec fn ticks_ms(ticks: int, tick: TickLength) -> int {
    let ms = ticks * tick.numer * 1000 / tick.denom as int;
    if ms > MAX_TIME_MS {
        MAX_TIME_MS as int
    } else {
        ms
    }
}

/// `symphonia::core::units::TimeBase::calc_time_saturating` of a time stamp,
/// taken in whole milliseconds by `Time::as_millis`. A time stamp that is not
/// negative gives its ticks times the length of a tick, rounded down, or the
/// greatest time where that is exceeded; a negative one gives a time that is not
/// positive.
#[verifier::external_body]
fn time_base_millis(tick: TickLength, ticks: i64) -> (r: i128)
    requires
        tick.wf(),
    ensures
        ticks >= 0 ==> r == ticks_ms(ticks as int, tick),
        ticks < 0 ==> r <= 0,
{
    let base = symphonia::core::units::TimeBase::try_new(tick.numer, tick.denom).unwrap_or_default();
    base.calc_time_saturating(symphonia::core::units::Timestamp::new(ticks)).as_millis()
}

/// A time stamp as milliseconds: zero before the start, and at most the greatest
/// 64-bit number.
pub open spec fn timestamp_ms(ticks: int, tick: TickLength) -> int {
    if ticks < 0 {
        0
    } else if ticks_ms(ticks, tick) > u64::MAX {
        u64::MAX as int
    } else {
        ticks_ms(ticks, tick)
    }
}

/// A time stamp as milliseconds.
pub fn ts_to_ms(ticks: i64, tick: TickLength) -> (r: u64)
    requires
        tick.wf(),
    ensures
        r == timestamp_ms(ticks as int, tick),
{
    let ms: i128 = time_base_millis(tick, ticks);
    proof {
        if ticks >= 0 {
            let (t, n, d) = (ticks as int, tick.numer as int, tick.denom as int);
            assert(t * n * 1000 / d >= 0) by (nonlinear_arith)
                requires
                    t >= 0,
                    n > 0,
                    d > 0,
            ;
        }
    }
    if ms < 0 {
        0
    } else if ms > u64::MAX as i128 {
        u64::MAX
    } else {
        ms as u64
    }
}

/// Later time stamps are not shown before earlier ones.
pub proof fn law_time_is_monotonic(a: int, b: int, tick: TickLength)
    requires
        tick.wf(),
        a <= b,
    ensures
        timestamp_ms(a, tick) <= timestamp_ms(b, tick),
{
    let (n, d) = (tick.numer as int, tick.denom as int);
    if a >= 0 {
        assert(a * n * 1000 / d <= b * n * 1000 / d) by (nonlinear_arith)
            requires
                0 <= a <= b,
                n > 0,
                d > 0,
        ;
    } else if b >= 0 {
        assert(b * n * 1000 / d >= 0) by (nonlinear_arith)
            requires
                b >= 0,
                n > 0,
                d > 0,
        ;
    }
}

/// The length of a tick: that of the track, else one sample, else a second.
pub open spec fn tick_of(track: Option<TickLength>, sample_rate: u32) -> TickLength {
    match track {
        Some(tick) => tick,
        None => if sample_rate > 0 {
            TickLength { numer: 1, denom: sample_rate }
        } else {
            TickLength { numer: 1, denom: 1 }
        },
    }
}

/// The length of a tick of a track.
pub fn choose_tick(track: Option<TickLength>, sample_rate: u32) -> (r: TickLength)
    ensures
        r == tick_of(track, sample_rate),
        track matches Some(tick) && tick.wf() || track is None ==> r.wf(),
{
    match track {
        Some(tick) => tick,
        None => if sample_rate > 0 {
            TickLength { numer: 1, denom: sample_rate }
        } else {
            TickLength { numer: 1, denom: 1 }
        },
    }
}

/// A sum kept inside 64 bits.
pub open spec fn saturated_i64(n: int) -> int {
    if n > i64::MAX {
        i64::MAX as int
    } else if n < i64::MIN {
        i64::MIN as int
    } else {
        n
    }
}

fn saturate_i64(n: i128) -> (r: i64)
    ensures
        r == saturated_i64(n as int),
{
    if n > i64::MAX as i128 {
        i64::MAX
    } else if n < i64::MIN as i128 {
        i64::MIN
    } else {
        n as i64
    }
}

/// The times of a packet.
#[derive(Clone, Copy, PartialEq, Eq, Structural, Debug)]
pub struct PacketTimes {
    pub track_id: u32,
    pub pts: i64,
    pub dur: u64,
}

impl PacketTimes {
    /// The time stamp at which the packet ends.
    pub open spec fn end(self) -> int {
        saturated_i64(self.pts + self.dur)
    }

    fn end_ts(&self) -> (r: i64)
        ensures
            r == self.end(),
    {
        saturate_i64(self.pts as i128 + self.dur as i128)
    }
}

/// The packets that are looked at to find the first of a track.
pub const FIRST_PACKET_LOOKUPS: u32 = 256;

/// How far the scan of a stream has got.
#[derive(Clone, Copy, PartialEq, Eq, Structural, Debug)]
pub enum ScanPhase {
    /// Looks for the first packet; so many packets were seen.
    FindFirst(u32),
    /// Looks for the end; the latest end so far.
    FindEnd(i64),
    Done,
}

/// The scan of a stream whose time stamps may not start at zero: files that
/// were cut out of others keep the time stamps of the whole.
#[derive(Clone, Copy, PartialEq, Eq, Structural, Debug)]
pub struct StreamScan {
    pub track_id: u32,
    pub phase: ScanPhase,
    /// The time stamp at which the track starts.
    pub first_ts: i64,
    /// The time stamp at which the track ends, where the scan reached it.
    pub end_ts: Option<i64>,
    /// Packets were read, so the stream has to be wound back.
    pub needs_rewind: bool,
}

impl StreamScan {
    /// The scan once the first time stamp is known: a negative one is a decoder
    /// delay and counts as zero, and a positive one calls for the end.
    pub open spec fn with_first(self, first: int, first_end: int) -> StreamScan {
        if first < 0 {
            StreamScan { first_ts: 0, phase: ScanPhase::Done, ..self }
        } else if first > 0 {
            StreamScan {
                first_ts: first as i64,
                phase: ScanPhase::FindEnd(first_end as i64),
                ..self
            }
        } else {
            StreamScan { first_ts: 0, phase: ScanPhase::Done, ..self }
        }
    }

    /// The scan at its start.
    pub open spec fn start(track_id: u32, start_ts: i64) -> StreamScan {
        let scan = StreamScan {
            track_id,
            phase: ScanPhase::FindFirst(0),
            first_ts: 0,
            end_ts: None,
            needs_rewind: false,
        };
        if start_ts == 0 {
            scan
        } else {
            scan.with_first(start_ts as int, start_ts as int)
        }
    }

    /// The scan after a packet, or after the end of the stream.
    pub open spec fn after(self, packet: Option<PacketTimes>) -> StreamScan {
        match self.phase {
            ScanPhase::Done => self,
            ScanPhase::FindFirst(seen) => match packet {
                None => StreamScan { phase: ScanPhase::Done, ..self },
                Some(p) => {
                    let read = StreamScan { needs_rewind: true, ..self };
                    if p.track_id == self.track_id {
                        read.with_first(p.pts as int, p.end())
                    } else if seen + 1 >= FIRST_PACKET_LOOKUPS {
                        StreamScan { phase: ScanPhase::Done, ..read }
                    } else {
                        StreamScan { phase: ScanPhase::FindFirst((seen + 1) as u32), ..read }
                    }
                },
            },
            ScanPhase::FindEnd(latest) => match packet {
                None => StreamScan { phase: ScanPhase::Done, end_ts: Some(latest), ..self },
                Some(p) => StreamScan {
                    needs_rewind: true,
                    phase: ScanPhase::FindEnd(
                        if p.track_id == self.track_id && p.end() > latest {
                            p.end() as i64
                        } else {
                            latest
                        },
                    ),
                    ..self
                },
            },
        }
    }

    /// The scan after all the packets of a stream.
    pub open spec fn after_all(self, packets: Seq<PacketTimes>) -> StreamScan
        decreases packets.len(),
    {
        if packets.len() == 0 {
            self
        } else {
            self.after_all(packets.drop_last()).after(Some(packets.last()))
        }
    }

    fn set_first(&mut self, first: i64, first_end: i64)
        ensures
            *final(self) == old(self).with_first(first as int, first_end as int),
    {
        if first > 0 {
            self.first_ts = first;
            self.phase = ScanPhase::FindEnd(first_end);
        } else {
            self.first_ts = 0;
            self.phase = ScanPhase::Done;
        }
    }

    /// Starts a scan. `start_ts` is the start that the container tells.
    pub fn new(track_id: u32, start_ts: i64) -> (r: StreamScan)
        ensures
            r == StreamScan::start(track_id, start_ts),
    {
        let mut scan = StreamScan {
            track_id,
            phase: ScanPhase::FindFirst(0),
            first_ts: 0,
            end_ts: None,
            needs_rewind: false,
        };
        if start_ts != 0 {
            scan.set_first(start_ts, start_ts);
        }
        scan
    }

    /// Takes a packet, or `None` at the end of the stream. The result says
    /// whether another one is wanted.
    pub fn take(&mut self, packet: Option<PacketTimes>) -> (more: bool)
        ensures
            *final(self) == old(self).after(packet),
            more == !(final(self).phase is Done),
    {
        match self.phase {
            ScanPhase::Done => false,
            ScanPhase::FindFirst(seen) => match packet {
                None => {
                    self.phase = ScanPhase::Done;
                    false
                },
                Some(p) => {
                    self.needs_rewind = true;
                    if p.track_id == self.track_id {
                        let end: i64 = p.end_ts();
                        self.set_first(p.pts, end);
                    } else if seen >= FIRST_PACKET_LOOKUPS - 1 {
                        self.phase = ScanPhase::Done;
                    } else {
                        self.phase = ScanPhase::FindFirst(seen + 1);
                    }
                    match self.phase {
                        ScanPhase::Done => false,
                        _ => true,
                    }
                },
            },
            ScanPhase::FindEnd(latest) => match packet {
                None => {
                    self.phase = ScanPhase::Done;
                    self.end_ts = Some(latest);
                    false
                },
                Some(p) => {
                    self.needs_rewind = true;
                    if p.track_id == self.track_id {
                        let end: i64 = p.end_ts();
                        if end > latest {
                            self.phase = ScanPhase::FindEnd(end);
                        }
                    }
                    true
                },
            },
        }
    }

    /// The length of the track: what the scan found, else what the container
    /// tells, as a duration or as a number of frames.
    pub open spec fn duration(
        self,
        tick: TickLength,
        container: Option<u64>,
        frames: Option<u64>,
    ) -> Option<int> {
        match self.end_ts {
            Some(end) => {
                let delta = saturated_i64(end - self.first_ts);
                let ticks = if delta < 0 {
                    -delta
                } else {
                    delta
                };
                Some(timestamp_ms(saturated_i64(ticks), tick))
            },
            None => if container is Some && container->0 <= i64::MAX {
                Some(timestamp_ms(container->0 as int, tick))
            } else if frames is Some && frames->0 <= i64::MAX {
                Some(timestamp_ms(frames->0 as int, tick))
            } else {
                None
            },
        }
    }

    /// The length of the track in milliseconds.
    pub fn duration_ms(&self, tick: TickLength, container: Option<u64>, frames: Option<u64>) -> (r:
        Option<u64>)
        requires
            tick.wf(),
        ensures
            r is Some <==> self.duration(tick, container, frames) is Some,
            r is Some ==> r->0 == self.duration(tick, container, frames)->0,
    {
        if let Some(end) = self.end_ts {
            let delta: i128 = saturate_i64(end as i128 - self.first_ts as i128) as i128;
            let ticks: i128 = if delta < 0 {
                -delta
            } else {
                delta
            };
            return Some(ts_to_ms(saturate_i64(ticks), tick));
        }
        if let Some(d) = container {
            if d <= i64::MAX as u64 {
                return Some(ts_to_ms(d as i64, tick));
            }
        }
        if let Some(f) = frames {
            if f <= i64::MAX as u64 {
                return Some(ts_to_ms(f as i64, tick));
            }
        }
        None
    }
}

/// A scanned track is never found to start before zero, and what is found of its
/// end is no earlier than any packet of it that was seen after the first.
pub proof fn law_scan_covers_every_packet(s: StreamScan, packets: Seq<PacketTimes>, i: int)
    requires
        s.phase is FindEnd,
        0 <= i < packets.len(),
        packets[i].track_id == s.track_id,
    ensures
        s.after_all(packets).phase matches ScanPhase::FindEnd(latest) && latest >= packets[i].end()
            && latest >= s.phase->FindEnd_0,
    decreases packets.len(),
{
    lemma_scan_keeps_phase(s, packets.drop_last());
    if i < packets.len() - 1 {
        assert(packets.drop_last()[i] == packets[i]);
        law_scan_covers_every_packet(s, packets.drop_last(), i);
    }
}

proof fn lemma_scan_keeps_phase(s: StreamScan, packets: Seq<PacketTimes>)
    requires
        s.phase is FindEnd,
    ensures
        s.after_all(packets).phase matches ScanPhase::FindEnd(latest) && latest
            >= s.phase->FindEnd_0,
        s.after_all(packets).track_id == s.track_id,
        s.after_all(packets).first_ts == s.first_ts,
    decreases packets.len(),
{
    if packets.len() > 0 {
        lemma_scan_keeps_phase(s, packets.drop_last());
    }
}

/// The length that a probe of the file reports: zero where it is unknown.
pub open spec fn probe_duration_spec(
    tick: Option<TickLength>,
    container: Option<u64>,
    frames: Option<u64>,
) -> int {
    match tick {
        None => 0,
        Some(t) => match container {
            Some(d) => if d <= i64::MAX {
                timestamp_ms(d as int, t)
            } else {
                0
            },
            None => match frames {
                Some(f) => if f <= i64::MAX {
                    timestamp_ms(f as int, t)
                } else {
                    0
                },
                None => 0,
            },
        },
    }
}

/// The length that a probe of the file reports, in milliseconds.
pub fn probe_duration_ms(
    tick: Option<TickLength>,
    container: Option<u64>,
    frames: Option<u64>,
) -> (r: u64)
    requires
        tick matches Some(t) ==> t.wf(),
    ensures
        r == probe_duration_spec(tick, container, frames),
{
    let t: TickLength = match tick {
        Some(t) => t,
        None => return 0,
    };
    let ticks: u64 = match container {
        Some(d) => d,
        None => match frames {
            Some(f) => f,
            None => return 0,
        },
    };
    if ticks <= i64::MAX as u64 {
        ts_to_ms(ticks as i64, t)
    } else {
        0
    }
}

/// The time stamp to seek to: the start of the stream and the ticks of the
/// position, of which 64 bits are kept.
pub open spec fn seek_timestamp_spec(ms: int, tick: TickLength, first_ts: int) -> int {
    let position = if ms < 0 {
        0
    } else {
        ms
    };
    let ticks = (position * tick.denom) / (1000 * tick.numer) % 0x1_0000_0000_0000_0000;
    saturated_i64(first_ts + ticks)
}

/// The time stamp to seek to for a position in a track.
pub fn seek_timestamp(ms: i64, tick: TickLength, first_ts: i64) -> (r: i64)
    requires
        tick.wf(),
    ensures
        r == seek_timestamp_spec(ms as int, tick, first_ts as int),
{
    let position: u128 = if ms < 0 {
        0
    } else {
        ms as u128
    };
    assert(position * tick.denom <= 0x8000_0000_0000_0000 * 0x1_0000_0000) by (nonlinear_arith)
        requires
            0 <= position <= 0x8000_0000_0000_0000,
            0 < tick.denom <= 0x1_0000_0000,
    ;
    let ticks: u128 = (position * tick.denom as u128) / (1000 * tick.numer as u128)
        % 0x1_0000_0000_0000_0000;
    saturate_i64(first_ts as i128 + ticks as i128)
}

/// The start of a track is where a seek to zero goes.
pub proof fn law_seek_to_zero_is_the_start(tick: TickLength, first_ts: int)
    requires
        tick.wf(),
        i64::MIN <= first_ts <= i64::MAX,
    ensures
        seek_timestamp_spec(0, tick, first_ts) == first_ts,
{
    let d = 1000 * tick.numer;
    let z = 0int * tick.denom;
    assert(z == 0) by (nonlinear_arith)
        requires
            z == 0int * tick.denom,
    ;
    assert(z / d == 0) by (nonlinear_arith)
        requires
            z == 0,
            d > 0,
    ;
}

/// The rate and the channels of the output: for AAC those that the decoder was
/// seen to give, else those of the container.
pub fn output_spec(is_aac: bool, container: (u32, u16), decoded: Option<(u32, u16)>) -> (r: (
    u32,
    u16,
))
    ensures
        r == (if is_aac && decoded is Some {
            decoded->0
        } else {
            container
        }),
{
    if is_aac {
        if let Some(seen) = decoded {
            return seen;
        }
    }
    container
}

/// A quotient rounded towards zero.
pub open spec fn quotient(a: int, b: int) -> int {
    if a >= 0 {
        a / b
    } else {
        -((-a) / b)
    }
}

/// The lowest 64 bits of a number, as a signed number.
pub open spec fn low_i64(n: int) -> int {
    (n + 0x8000_0000_0000_0000) % 0x1_0000_0000_0000_0000 - 0x8000_0000_0000_0000
}

fn divide(a: i128, b: i128) -> (r: i128)
    requires
        b > 0,
        -0x1000_0000_0000_0000_0000_0000_0000_0000 <= a
            <= 0x1000_0000_0000_0000_0000_0000_0000_0000,
    ensures
        r == quotient(a as int, b as int),
        -0x1000_0000_0000_0000_0000_0000_0000_0000 <= r
            <= 0x1000_0000_0000_0000_0000_0000_0000_0000,
{
    let magnitude: u128 = if a >= 0 {
        a as u128
    } else {
        (-a) as u128
    };
    let q: u128 = magnitude / b as u128;
    proof {
        let (m, d) = (magnitude as int, b as int);
        assert(0 <= m / d <= m) by (nonlinear_arith)
            requires
                m >= 0,
                d >= 1,
        ;
    }
    if a >= 0 {
        q as i128
    } else {
        -(q as i128)
    }
}

fn keep_low_i64(n: i128) -> (r: i64)
    requires
        -0x1000_0000_0000_0000_0000_0000_0000_0000 <= n
            <= 0x1000_0000_0000_0000_0000_0000_0000_0000,
    ensures
        r == low_i64(n as int),
{
    let raised: i128 = n + 0x8000_0000_0000_0000 + 0x1000_0000_0000_0000_0000_0000_0000_0000;
    let low: u128 = raised as u128 % 0x1_0000_0000_0000_0000;
    proof {
        vstd::arithmetic::div_mod::lemma_mod_multiples_vanish(
            0x1000_0000_0000_0000,
            n + 0x8000_0000_0000_0000,
            0x1_0000_0000_0000_0000,
        );
    }
    (low as i128 - 0x8000_0000_0000_0000) as i64
}

/// A tick length that the stream gives with signs; only positive ones count.
#[derive(Clone, Copy, PartialEq, Eq, Structural, Debug)]
pub struct Rational {
    pub num: i32,
    pub den: i32,
}

impl Rational {
    /// Both parts are positive.
    pub open spec fn is_positive(self) -> bool {
        self.num > 0 && self.den > 0
    }
}

/// The ticks of a position.
pub fn ms_to_stream_ts(ms: i64, tb: Rational) -> (r: Option<i64>)
    ensures
        r is Some <==> tb.is_positive(),
        r matches Some(ts) ==> ts == low_i64(quotient(ms * tb.den, tb.num * 1000)),
{
    if tb.num <= 0 || tb.den <= 0 {
        return None;
    }
    assert(-0x8000_0000_0000_0000 * 0x8000_0000 <= ms * tb.den <= 0x8000_0000_0000_0000
        * 0x8000_0000) by (nonlinear_arith)
        requires
            -0x8000_0000_0000_0000 <= ms <= 0x8000_0000_0000_0000,
            0 < tb.den <= 0x8000_0000,
    ;
    let ts: i128 = divide(ms as i128 * tb.den as i128, tb.num as i128 * 1000);
    Some(keep_low_i64(ts))
}

/// The position of some ticks.
pub fn stream_ts_to_ms(ts: i64, tb: Rational) -> (r: Option<i64>)
    ensures
        r is Some <==> tb.is_positive(),
        r matches Some(ms) ==> ms == low_i64(quotient(ts * tb.num * 1000, tb.den as int)),
{
    if tb.num <= 0 || tb.den <= 0 {
        return None;
    }
    assert(-0x8000_0000_0000_0000 * 0x8000_0000 <= ts * tb.num <= 0x8000_0000_0000_0000
        * 0x8000_0000) by (nonlinear_arith)
        requires
            -0x8000_0000_0000_0000 <= ts <= 0x8000_0000_0000_0000,
            0 < tb.num <= 0x8000_0000,
    ;
    let ms: i128 = divide(ts as i128 * tb.num as i128 * 1000, tb.den as i128);
    Some(keep_low_i64(ms))
}

/// The time stamp that stands for none.
pub const NO_TIMESTAMP: i64 = i64::MIN;

/// The time stamp of a packet: when it is shown, else when it is decoded.
pub open spec fn packet_timestamp_of(pts: i64, dts: i64) -> Option<i64> {
    if pts != NO_TIMESTAMP {
        Some(pts)
    } else if dts != NO_TIMESTAMP {
        Some(dts)
    } else {
        None
    }
}

/// The time stamp of a packet: when it is shown, else when it is decoded.
pub fn packet_timestamp(pts: i64, dts: i64) -> (r: Option<i64>)
    ensures
        r == packet_timestamp_of(pts, dts),
{
    if pts != NO_TIMESTAMP {
        Some(pts)
    } else if dts != NO_TIMESTAMP {
        Some(dts)
    } else {
        None
    }
}

/// Where a seek goes: in the ticks of the stream, and, should that fail, in
/// microseconds of the file.
pub fn seek_targets(ms: i64, tb: Rational, first_ts: i64) -> (r: (Option<i64>, i64))
    ensures
        ({
            let position = if ms < 0 {
                0
            } else {
                ms as int
            };
            &&& r.0 is Some <==> tb.is_positive()
            &&& r.0 is Some ==> r.0->0 == saturated_i64(
                first_ts + low_i64(quotient(position * tb.den, tb.num * 1000)),
            )
            &&& r.1 == saturated_i64(position * 1000)
        }),
{
    let position: i64 = if ms < 0 {
        0
    } else {
        ms
    };
    let in_stream: Option<i64> = match ms_to_stream_ts(position, tb) {
        Some(rel) => Some(saturate_i64(first_ts as i128 + rel as i128)),
        None => None,
    };
    (in_stream, saturate_i64(position as i128 * 1000))
}

/// The block of a lossless stream that a position lies in.
pub fn block_of_position(ms: i64, sample_rate: u32) -> (r: i64)
    requires
        0 <= ms,
        ms * sample_rate <= i64::MAX,
    ensures
        r == ms * sample_rate / 1000,
{
    (ms * sample_rate as i64) / 1000
}

/// The channels of a stream; a count out of range is taken as two.
pub fn stream_channels(channels: i32) -> (r: u16)
    ensures
        r == (if 0 < channels <= 32 {
            channels as int
        } else {
            2
        }),
{
    if 0 < channels && channels <= 32 {
        channels as u16
    } else {
        2
    }
}

/// The depth of a stream: that of the source, else the coded one; zero stands
/// for unknown.
pub open spec fn stream_bits_spec(raw: int, coded: int) -> int {
    let bits = if raw > 0 {
        raw
    } else {
        coded
    };
    if 8 <= bits <= 32 {
        bits
    } else {
        0
    }
}

/// The depth of a stream.
pub fn stream_bits(raw: i32, coded: i32) -> (r: u16)
    ensures
        r == stream_bits_spec(raw as int, coded as int),
{
    let bits: i32 = if raw > 0 {
        raw
    } else {
        coded
    };
    if 8 <= bits && bits <= 32 {
        bits as u16
    } else {
        0
    }
}

/// A length in microseconds as milliseconds; an unknown one is zero.
pub fn micros_to_ms(duration_us: i64) -> (r: u64)
    ensures
        r == (if duration_us > 0 {
            duration_us as int / 1000
        } else {
            0
        }),
{
    if duration_us > 0 {
        (duration_us / 1000) as u64
    } else {
        0
    }
}

/// The audio stream of a file: the one that the library prefers, else the first.
pub fn audio_stream(preferred: i32, first_audio: Option<u32>, streams: u32) -> (r: Option<u32>)
    ensures
        r == (if preferred >= 0 {
            if preferred < streams {
                Some(preferred as u32)
            } else {
                None
            }
        } else {
            match first_audio {
                Some(i) => if i < streams {
                    Some(i)
                } else {
                    None
                },
                None => None,
            }
        }),
{
    if preferred >= 0 {
        if (preferred as u32) < streams {
            return Some(preferred as u32);
        }
        return None;
    }
    match first_audio {
        Some(i) => if i < streams {
            Some(i)
        } else {
            None
        },
        None => None,
    }
}

/// What a decoder's return code means.
#[derive(Clone, Copy, PartialEq, Eq, Structural, Debug)]
pub enum ReceiveStep {
    Frame,
    /// Another packet is needed.
    NeedInput,
    End,
    Failed(i32),
}

/// The code for "another packet is needed".
pub const AVERROR_EAGAIN: i32 = -11;

/// The code for the end of the stream.
pub const AVERROR_EOF: i32 = -541478725;

/// What a decoder's return code means.
pub fn receive_step(code: i32) -> (r: ReceiveStep)
    ensures
        r == (if code == 0 {
            ReceiveStep::Frame
        } else if code == AVERROR_EAGAIN {
            ReceiveStep::NeedInput
        } else if code == AVERROR_EOF {
            ReceiveStep::End
        } else {
            ReceiveStep::Failed(code)
        }),
{
    if code == 0 {
        ReceiveStep::Frame
    } else if code == AVERROR_EAGAIN {
        ReceiveStep::NeedInput
    } else if code == AVERROR_EOF {
        ReceiveStep::End
    } else {
        ReceiveStep::Failed(code)
    }
}

/// How many packets are read at most to see what a decoder gives.
pub const PROBE_PACKETS: u32 = 32;

/// What came of the next packet while a decoder is looked at.
#[derive(Clone, Copy, PartialEq, Eq, Structural, Debug)]
pub enum ProbeEvent {
    /// It belongs to another track.
    OtherTrack,
    /// The decoder gave this rate and these channels.
    Decoded(u32, u16),
    /// The decoder could not use it, and can go on.
    Recoverable,
    /// The decoder gave up.
    Broken,
    /// There is none, or it cannot be read.
    End,
}

/// How the look at a decoder ends.
#[derive(Clone, Copy, PartialEq, Eq, Structural, Debug)]
pub enum ProbeResult {
    Seen(u32, u16),
    Nothing,
    Failed,
}

/// A look at what a decoder gives.
#[derive(Clone, Copy, PartialEq, Eq, Structural, Debug)]
pub struct OutputProbe {
    /// How many packets may still be read.
    pub left: u32,
}

impl OutputProbe {
    /// A look that has read nothing.
    pub fn new() -> (r: OutputProbe)
        ensures
            r.left == PROBE_PACKETS,
    {
        OutputProbe { left: PROBE_PACKETS }
    }

    /// What follows from a packet; `None` asks for the next one.
    pub open spec fn outcome(self, event: ProbeEvent) -> Option<ProbeResult> {
        match event {
            ProbeEvent::Decoded(rate, channels) => Some(ProbeResult::Seen(rate, channels)),
            ProbeEvent::Broken => Some(ProbeResult::Failed),
            ProbeEvent::End => Some(ProbeResult::Nothing),
            _ => if self.left <= 1 {
                Some(ProbeResult::Nothing)
            } else {
                None
            },
        }
    }

    /// Takes what came of the next packet. `None` asks for one more.
    pub fn take(&mut self, event: ProbeEvent) -> (r: Option<ProbeResult>)
        ensures
            r == old(self).outcome(event),
            r is None ==> final(self).left == old(self).left - 1,
            r is Some ==> *final(self) == *old(self),
    {
        match event {
            ProbeEvent::Decoded(rate, channels) => Some(ProbeResult::Seen(rate, channels)),
            ProbeEvent::Broken => Some(ProbeResult::Failed),
            ProbeEvent::End => Some(ProbeResult::Nothing),
            _ => {
                if self.left <= 1 {
                    return Some(ProbeResult::Nothing);
                }
                self.left = self.left - 1;
                None
            },
        }
    }
}

/// The search for the first time stamp of a stream.
#[derive(Clone, Copy, PartialEq, Eq, Structural, Debug)]
pub struct FirstTimestamp {
    pub stream: i32,
    /// How many packets may still be read.
    pub left: u32,
}

impl FirstTimestamp {
    /// A search in the stream `stream`.
    pub fn new(stream: i32) -> (r: FirstTimestamp)
        ensures
            r == (FirstTimestamp { stream, left: FIRST_PACKET_LOOKUPS }),
    {
        FirstTimestamp { stream, left: FIRST_PACKET_LOOKUPS }
    }

    /// What a packet tells: the stream that it belongs to, and its two times. `None`
    /// is the end of the file. The result is the first time stamp, which is zero
    /// where none was told; without a result the next packet is asked for.
    pub open spec fn told_by(self, packet: Option<(i32, i64, i64)>) -> Option<i64> {
        match packet {
            None => Some(0),
            Some((stream, pts, dts)) => if stream == self.stream {
                match packet_timestamp_of(pts, dts) {
                    Some(ts) => Some(ts),
                    None => Some(0),
                }
            } else if self.left <= 1 {
                Some(0)
            } else {
                None
            },
        }
    }

    /// Takes the next packet.
    pub fn take(&mut self, packet: Option<(i32, i64, i64)>) -> (r: Option<i64>)
        ensures
            r == old(self).told_by(packet),
            r is None ==> *final(self) == (FirstTimestamp {
                left: (old(self).left - 1) as u32,
                ..*old(self)
            }),
            r is Some ==> *final(self) == *old(self),
    {
        match packet {
            None => Some(0),
            Some((stream, pts, dts)) => {
                if stream == self.stream {
                    return match packet_timestamp(pts, dts) {
                        Some(ts) => Some(ts),
                        None => Some(0),
                    };
                }
                if self.left <= 1 {
                    return Some(0);
                }
                self.left = self.left - 1;
                None
            },
        }
    }
}

/// A time stamp that is not negative stands for the whole milliseconds of its ticks, each
/// of which lasts `numer / denom` seconds; a negative one stands for the start.
pub proof fn law_ticks_are_counted_in_milliseconds(ticks: int, tick: TickLength)
    requires
        tick.wf(),
    ensures
        ticks <= 0 ==> timestamp_ms(ticks, tick) == 0,
        ticks > 0 && timestamp_ms(ticks, tick) < u64::MAX ==> timestamp_ms(ticks, tick) * tick.denom
            <= ticks * tick.numer * 1000 < (timestamp_ms(ticks, tick) + 1) * tick.denom,
{
    let d = tick.denom as int;
    let n = ticks * tick.numer * 1000;
    let q = n / d;
    assert(q * d <= n < (q + 1) * d) by (nonlinear_arith)
        requires
            q == n / d,
            d > 0,
    ;
    if ticks == 0 {
        assert(0 * tick.numer * 1000 == 0);
        assert(0int / d == 0) by (nonlinear_arith)
            requires
                d > 0,
        ;
    }
}

/// A track without a time base counts its samples, and one without a rate its seconds.
pub proof fn law_samples_are_the_ticks(tick: TickLength, sample_rate: u32, seconds: nat)
    requires
        seconds * 1000 < u64::MAX,
    ensures
        tick_of(Some(tick), sample_rate) == tick,
        sample_rate > 0 ==> timestamp_ms(seconds * sample_rate, tick_of(None, sample_rate))
            == seconds * 1000,
        timestamp_ms(seconds as int, tick_of(None, 0)) == seconds * 1000,
{
    if sample_rate > 0 {
        let r = sample_rate as int;
        assert(seconds * r * 1 * 1000 == (seconds * 1000) * r) by (nonlinear_arith);
        assert(((seconds * 1000) * r) / r == seconds * 1000) by (nonlinear_arith)
            requires
                r > 0,
        ;
        assert(seconds * r >= 0) by (nonlinear_arith)
            requires
                r > 0,
                seconds >= 0,
        ;
    }
}

/// A position is sought at the last tick that is not behind it, counted from the first time
/// stamp of the track; one before the start is the start.
pub proof fn law_position_is_sought_at_its_tick(ms: int, tick: TickLength, first_ts: int)
    requires
        tick.wf(),
        0 <= first_ts,
        ms >= 0,
        ms * tick.denom < 1000 * tick.numer * 0x1_0000_0000_0000_0000,
        seek_timestamp_spec(ms, tick, first_ts) < i64::MAX,
    ensures
        ({
            let ticks = seek_timestamp_spec(ms, tick, first_ts) - first_ts;
            &&& ticks * (1000 * tick.numer) <= ms * tick.denom < (ticks + 1) * (1000 * tick.numer)
        }),
        forall|before: int|
            before < 0 ==> #[trigger] seek_timestamp_spec(before, tick, first_ts)
                == seek_timestamp_spec(0, tick, first_ts),
{
    let d = 1000 * tick.numer;
    let n = ms * tick.denom;
    let q = n / d;
    assert(n >= 0) by (nonlinear_arith)
        requires
            n == ms * tick.denom,
            ms >= 0,
            tick.denom >= 0,
    ;
    assert(q * d <= n < (q + 1) * d && 0 <= q) by (nonlinear_arith)
        requires
            q == n / d,
            d > 0,
            n >= 0,
    ;
    assert(q < 0x1_0000_0000_0000_0000) by (nonlinear_arith)
        requires
            q * d <= n,
            n < d * 0x1_0000_0000_0000_0000,
            d > 0,
    ;
    assert(q % 0x1_0000_0000_0000_0000 == q);
}

/// A track whose time stamps start behind zero lasts from the first of them to the end of
/// the packet that ends last, whatever its file says.
pub proof fn law_cut_track_lasts_from_first_to_last(
    track_id: u32,
    start_ts: i64,
    packets: Seq<PacketTimes>,
    i: int,
    tick: TickLength,
    container: Option<u64>,
    frames: Option<u64>,
)
    requires
        tick.wf(),
        start_ts > 0,
        0 <= i < packets.len(),
        packets[i].track_id == track_id,
        packets[i].pts + packets[i].dur <= i64::MAX,
        forall|k: int|
            0 <= k < packets.len() && (#[trigger] packets[k]).track_id == track_id
                ==> packets[k].pts + packets[k].dur <= packets[i].pts + packets[i].dur,
        packets[i].pts + packets[i].dur >= start_ts,
    ensures
        ({
            let scan = StreamScan::start(track_id, start_ts).after_all(packets).after(None);
            &&& scan.first_ts == start_ts
            &&& scan.end_ts == Some((packets[i].pts + packets[i].dur) as i64)
            &&& scan.phase is Done
            &&& scan.duration(tick, container, frames) == Some(
                timestamp_ms(packets[i].pts + packets[i].dur - start_ts, tick),
            )
        }),
{
    let s = StreamScan::start(track_id, start_ts);
    let top = packets[i].pts + packets[i].dur;
    law_scan_covers_every_packet(s, packets, i);
    lemma_scan_stays_below(s, packets, top);
}

proof fn lemma_scan_stays_below(s: StreamScan, packets: Seq<PacketTimes>, top: int)
    requires
        s.phase is FindEnd,
        s.phase->FindEnd_0 <= top <= i64::MAX,
        forall|k: int|
            0 <= k < packets.len() && (#[trigger] packets[k]).track_id == s.track_id
                ==> packets[k].pts + packets[k].dur <= top,
    ensures
        ({
            let after = s.after_all(packets);
            &&& after.phase is FindEnd && after.phase->FindEnd_0 <= top
            &&& after.track_id == s.track_id && after.first_ts == s.first_ts
            &&& after.end_ts == s.end_ts
        }),
    decreases packets.len(),
{
    if packets.len() > 0 {
        let front = packets.drop_last();
        assert forall|k: int|
            0 <= k < front.len() && (#[trigger] front[k]).track_id == s.track_id implies front[k].pts
            + front[k].dur <= top by {
            assert(front[k] == packets[k]);
        }
        lemma_scan_stays_below(s, front, top);
        assert(packets.last() == packets[packets.len() - 1]);
    }
}

/// A track whose time stamps start at zero or before lasts as long as its file says, or
/// else its frames; its first packet of 256 tells where they start.
pub proof fn law_whole_track_lasts_as_told(
    s: StreamScan,
    tick: TickLength,
    container: Option<u64>,
    frames: Option<u64>,
)
    requires
        tick.wf(),
        s.end_ts is None,
    ensures
        container is Some && container->0 <= i64::MAX ==> s.duration(tick, container, frames)
            == Some(timestamp_ms(container->0 as int, tick)),
        container is None && frames is Some && frames->0 <= i64::MAX ==> s.duration(
            tick,
            container,
            frames,
        ) == Some(timestamp_ms(frames->0 as int, tick)),
        container is None && frames is None ==> s.duration(tick, container, frames) is None,
{
}

/// The first packet of a track tells where its time stamps start: one behind zero makes the
/// end be looked for, any other one makes zero the start. Packets of other tracks are
/// passed over, 256 at most.
pub proof fn law_first_packet_tells_the_start(s: StreamScan, seen: u32, p: PacketTimes)
    requires
        s.phase == ScanPhase::FindFirst(seen),
        p.pts + p.dur <= i64::MAX,
        seen < 256,
    ensures
        ({
            let after = s.after(Some(p));
            &&& after.needs_rewind
            &&& p.track_id == s.track_id && p.pts > 0 ==> after.first_ts == p.pts && after.phase
                == ScanPhase::FindEnd((p.pts + p.dur) as i64)
            &&& p.track_id == s.track_id && p.pts <= 0 ==> after.first_ts == 0 && after.phase
                == ScanPhase::Done
            &&& p.track_id != s.track_id && seen < 255 ==> after.phase == ScanPhase::FindFirst(
                (seen + 1) as u32,
            ) && after.first_ts == s.first_ts
            &&& p.track_id != s.track_id && seen == 255 ==> after.phase == ScanPhase::Done
            &&& after.end_ts == s.end_ts
        }),
{
}

/// A track is said to start where its file says, without any packet being read, unless that
/// is zero; before zero counts as zero.
pub proof fn law_told_start_is_taken(track_id: u32, start_ts: i64)
    ensures
        ({
            let s = StreamScan::start(track_id, start_ts);
            &&& s.track_id == track_id && s.end_ts is None && !s.needs_rewind
            &&& start_ts == 0 ==> s.phase == ScanPhase::FindFirst(0) && s.first_ts == 0
            &&& start_ts > 0 ==> s.phase == ScanPhase::FindEnd(start_ts) && s.first_ts == start_ts
            &&& start_ts < 0 ==> s.phase == ScanPhase::Done && s.first_ts == 0
        }),
{
}

/// The length that is told without opening a track: what its file says, else its frames;
/// zero where there is no time base or neither is told.
pub proof fn law_told_length(tick: TickLength, told: u64, other: Option<u64>)
    requires
        tick.wf(),
        told <= i64::MAX,
    ensures
        probe_duration_spec(Some(tick), Some(told), other) == timestamp_ms(told as int, tick),
        probe_duration_spec(Some(tick), None, Some(told)) == timestamp_ms(told as int, tick),
        probe_duration_spec(Some(tick), None, None) == 0,
        probe_duration_spec(None, Some(told), other) == 0,
{
}

/// A quotient is rounded towards zero, and 64 bits hold what fits into them.
pub proof fn law_quotient_is_rounded_towards_zero(a: int, b: int)
    requires
        b > 0,
    ensures
        a >= 0 ==> quotient(a, b) * b <= a < (quotient(a, b) + 1) * b,
        a <= 0 ==> (quotient(a, b) - 1) * b < a <= quotient(a, b) * b,
        quotient(-a, b) == -quotient(a, b),
        i64::MIN <= a <= i64::MAX ==> low_i64(a) == a,
        (low_i64(a) - a) % 0x1_0000_0000_0000_0000 == 0,
        i64::MIN <= low_i64(a) <= i64::MAX,
{
    let k = if a >= 0 {
        a
    } else {
        -a
    };
    let q = k / b;
    assert(q * b <= k < (q + 1) * b) by (nonlinear_arith)
        requires
            q == k / b,
            b > 0,
    ;
    assert((-q) * b == -(q * b)) by (nonlinear_arith);
    assert((-q - 1) * b == -((q + 1) * b)) by (nonlinear_arith);
    if a == 0 {
        assert(0int / b == 0) by (nonlinear_arith)
            requires
                b > 0,
        ;
    }
}

/// A packet is stamped with the time at which it is shown, else with that at which it is
/// decoded.
pub proof fn law_shown_time_comes_first(pts: i64, dts: i64)
    ensures
        pts != i64::MIN ==> packet_timestamp_of(pts, dts) == Some(pts),
        pts == i64::MIN && dts != i64::MIN ==> packet_timestamp_of(pts, dts) == Some(dts),
        pts == i64::MIN && dts == i64::MIN ==> packet_timestamp_of(pts, dts) is None,
{
}

/// The depth of a stream is that of its samples, else that of its code, from 8 to 32 bits;
/// any other one is not known.
pub proof fn law_depth_of_the_samples_comes_first(raw: int, coded: int)
    ensures
        8 <= raw <= 32 ==> stream_bits_spec(raw, coded) == raw,
        raw <= 0 && 8 <= coded <= 32 ==> stream_bits_spec(raw, coded) == coded,
        raw > 32 || 0 < raw < 8 ==> stream_bits_spec(raw, coded) == 0,
        raw <= 0 && (coded < 8 || coded > 32) ==> stream_bits_spec(raw, coded) == 0,
{
}

/// A probe tells what the first packet that decodes gives, and gives up at the end of the
/// stream or after its last packet.
pub proof fn law_probe_tells_what_decodes(p: OutputProbe, rate: u32, channels: u16)
    ensures
        p.outcome(ProbeEvent::Decoded(rate, channels)) == Some(ProbeResult::Seen(rate, channels)),
        p.outcome(ProbeEvent::End) == Some(ProbeResult::Nothing),
        p.outcome(ProbeEvent::Broken) == Some(ProbeResult::Failed),
        p.left > 1 ==> p.outcome(ProbeEvent::OtherTrack) is None && p.outcome(
            ProbeEvent::Recoverable,
        ) is None,
        p.left <= 1 ==> p.outcome(ProbeEvent::OtherTrack) == Some(ProbeResult::Nothing)
            && p.outcome(ProbeEvent::Recoverable) == Some(ProbeResult::Nothing),
{
}

/// The first time stamp is that of the first packet of the stream, or zero where it has
/// none, where the stream ends first, or where too many packets of others come before it.
pub proof fn law_first_time_stamp(f: FirstTimestamp, stream: i32, pts: i64, dts: i64)
    ensures
        f.told_by(None) == Some(0i64),
        stream == f.stream && pts != i64::MIN ==> f.told_by(Some((stream, pts, dts))) == Some(pts),
        stream == f.stream && pts == i64::MIN && dts != i64::MIN ==> f.told_by(
            Some((stream, pts, dts)),
        ) == Some(dts),
        stream == f.stream && pts == i64::MIN && dts == i64::MIN ==> f.told_by(
            Some((stream, pts, dts)),
        ) == Some(0i64),
        stream != f.stream && f.left > 1 ==> f.told_by(Some((stream, pts, dts))) is None,
        stream != f.stream && f.left <= 1 ==> f.told_by(Some((stream, pts, dts))) == Some(0i64),
{
}

/// A stream of which packets were read for its length has to be read from its start again.
pub proof fn law_read_stream_is_read_again(s: StreamScan, p: PacketTimes)
    requires
        !(s.phase is Done),
    ensures
        s.after(Some(p)).needs_rewind,
        s.after(None).needs_rewind == s.needs_rewind,
        s.after(None).phase is Done,
{
}

} // verus!
