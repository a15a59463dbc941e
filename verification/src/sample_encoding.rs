//! Samples on their way to the device: the end marker in the stream, the way
//! channels are spread, and the bytes of integer samples.

use vstd::arithmetic::power2::{lemma_pow2_adds, lemma_pow2_pos, lemma_pow2_unfold, pow2};
use vstd::prelude::*;

verus! {

/// The bit pattern that marks the end of a track in the stream of samples.
pub const EOS_MARKER_BITS: u64 = 0x7ff8_0000_0000_0001;

/// Whether a 64-bit floating-point pattern stands for a finite number: its
/// exponent is not all ones.
pub open spec fn is_finite_pattern(bits: u64) -> bool {
    (bits / 0x10_0000_0000_0000) % 0x800 != 0x7ff
}

/// The place of the first end marker, or the length.
pub open spec fn marker_position(bits: Seq<u64>) -> int
    decreases bits.len(),
{
    if bits.len() == 0 {
        0
    } else if bits[0] == EOS_MARKER_BITS {
        0
    } else {
        1 + marker_position(bits.drop_first())
    }
}

/// The marker position is that of a marker, with none before it.
pub proof fn lemma_marker_position(bits: Seq<u64>)
    ensures
        0 <= marker_position(bits) <= bits.len(),
        forall|i: int| 0 <= i < marker_position(bits) ==> bits[i] != EOS_MARKER_BITS,
        marker_position(bits) < bits.len() ==> bits[marker_position(bits)] == EOS_MARKER_BITS,
    decreases bits.len(),
{
    if bits.len() > 0 && bits[0] != EOS_MARKER_BITS {
        lemma_marker_position(bits.drop_first());
        assert forall|i: int| 0 <= i < marker_position(bits) implies bits[i] != EOS_MARKER_BITS by {
            if i > 0 {
                assert(bits[i] == bits.drop_first()[i - 1]);
            }
        }
    }
}

proof fn lemma_marker_position_unique(bits: Seq<u64>, n: int)
    requires
        0 <= n <= bits.len(),
        forall|i: int| 0 <= i < n ==> bits[i] != EOS_MARKER_BITS,
        n < bits.len() ==> bits[n] == EOS_MARKER_BITS,
    ensures
        marker_position(bits) == n,
{
    lemma_marker_position(bits);
    let m = marker_position(bits);
    if m < n {
        assert(bits[m] == EOS_MARKER_BITS);
    }
    if n < m {
        assert(bits[n] != EOS_MARKER_BITS);
    }
}

/// Whether the samples hold an end marker.
pub fn holds_marker(bits: &[u64]) -> (r: bool)
    ensures
        r == bits@.contains(EOS_MARKER_BITS),
{
    let mut i: usize = 0;
    while i < bits.len()
        invariant
            i <= bits@.len(),
            forall|k: int| 0 <= k < i ==> bits@[k] != EOS_MARKER_BITS,
        decreases bits@.len() - i,
    {
        if bits[i] == EOS_MARKER_BITS {
            assert(bits@[i as int] == EOS_MARKER_BITS);
            return true;
        }
        i += 1;
    }
    false
}

/// How many samples to take: what is needed, or the rest of a track that has
/// ended; else nothing, and silence is played.
pub open spec fn samples_to_read_spec(available: int, needed: int, ended: bool) -> int {
    if available >= needed {
        needed
    } else if ended {
        available
    } else {
        0
    }
}

/// How many samples to take from the buffer. `ended` says whether it holds an
/// end marker.
pub fn samples_to_read(available: usize, needed: usize, ended: bool) -> (r: usize)
    ensures
        r == samples_to_read_spec(available as int, needed as int, ended),
{
    if available >= needed {
        needed
    } else if available > 0 && ended {
        available
    } else {
        0
    }
}

/// What the samples of a block are when the marker and what stands behind it
/// have become silence, and so have the samples that are not numbers.
pub open spec fn cleaned_block(bits: Seq<u64>, read: int, needed: int) -> Seq<u64> {
    let valid = marker_position(bits.take(read));
    Seq::new(
        bits.len(),
        |i: int|
            if i >= needed {
                bits[i]
            } else if i < valid && is_finite_pattern(bits[i]) {
                bits[i]
            } else {
                0
            },
    )
}

/// Cleans a block of which `read` samples were taken and `needed` are played.
/// The result is the number of samples before the end marker, and whether there
/// is one.
pub fn clean_block(bits: &mut Vec<u64>, read: usize, needed: usize) -> (r: (usize, bool))
    requires
        read <= needed <= old(bits)@.len(),
    ensures
        r.0 == marker_position(old(bits)@.take(read as int)),
        r.1 == old(bits)@.take(read as int).contains(EOS_MARKER_BITS),
        final(bits)@ == cleaned_block(old(bits)@, read as int, needed as int),
{
    let ghost all = bits@;
    let ghost taken = bits@.take(read as int);
    let mut valid: usize = 0;
    while valid < read && bits[valid] != EOS_MARKER_BITS
        invariant
            valid <= read <= needed <= bits@.len(),
            all == old(bits)@,
            taken == all.take(read as int),
            bits@.len() == all.len(),
            forall|i: int| 0 <= i < valid ==> taken[i] != EOS_MARKER_BITS,
            forall|i: int|
                0 <= i < valid ==> bits@[i] == (if is_finite_pattern(all[i]) {
                    all[i]
                } else {
                    0
                }),
            forall|i: int| valid <= i < all.len() ==> bits@[i] == all[i],
        decreases read - valid,
    {
        let b: u64 = bits[valid];
        assert(taken[valid as int] == b);
        if (b / 0x10_0000_0000_0000) % 0x800 == 0x7ff {
            bits.set(valid, 0);
        }
        valid += 1;
    }
    proof {
        if valid < read {
            assert(taken[valid as int] == EOS_MARKER_BITS);
        }
        lemma_marker_position_unique(taken, valid as int);
        if valid == read {
            assert(!taken.contains(EOS_MARKER_BITS));
        }
    }
    let mut i: usize = valid;
    while i < needed
        invariant
            valid <= i <= needed <= bits@.len(),
            bits@.len() == all.len(),
            forall|k: int|
                0 <= k < valid ==> bits@[k] == (if is_finite_pattern(all[k]) {
                    all[k]
                } else {
                    0
                }),
            forall|k: int| valid <= k < i ==> bits@[k] == 0,
            forall|k: int| needed <= k < all.len() ==> bits@[k] == all[k],
        decreases needed - i,
    {
        bits.set(i, 0);
        i += 1;
    }
    assert(bits@ =~= cleaned_block(all, read as int, needed as int));
    (valid, valid < read)
}

/// Where the sample of an output slot comes from.
#[derive(Clone, Copy, PartialEq, Eq, Structural, Debug)]
pub enum SlotSource {
    /// The input sample at this place.
    Sample(usize),
    /// The mean of `count` input samples from `first` on.
    Mean { first: usize, count: usize },
    Silence,
}

/// The source of an output slot. Equal channel counts copy; a single input
/// channel goes to every output; a single output gets the mean; otherwise the
/// channels that both have are copied.
pub open spec fn slot_source_spec(in_channels: int, out_channels: int, slot: int) -> SlotSource {
    let frame = slot / out_channels;
    let channel = slot % out_channels;
    if in_channels == out_channels {
        SlotSource::Sample(slot as usize)
    } else if in_channels == 1 {
        SlotSource::Sample(frame as usize)
    } else if out_channels == 1 {
        SlotSource::Mean { first: (frame * in_channels) as usize, count: in_channels as usize }
    } else if channel < in_channels {
        SlotSource::Sample((frame * in_channels + channel) as usize)
    } else {
        SlotSource::Silence
    }
}

/// The source of the output slot `slot` of a block.
pub fn slot_source(in_channels: usize, out_channels: usize, slot: usize) -> (r: SlotSource)
    requires
        in_channels > 0,
        out_channels > 0,
        (slot as int / out_channels as int + 1) * in_channels <= usize::MAX,
    ensures
        r == slot_source_spec(in_channels as int, out_channels as int, slot as int),
{
    let frame: usize = slot / out_channels;
    let channel: usize = slot % out_channels;
    proof {
        assert((frame + 1) * in_channels == frame * in_channels + in_channels) by (nonlinear_arith);
        assert(frame * in_channels >= 0) by (nonlinear_arith)
            requires
                frame >= 0,
                in_channels >= 0,
        ;
    }
    if in_channels == out_channels {
        SlotSource::Sample(slot)
    } else if in_channels == 1 {
        SlotSource::Sample(frame)
    } else if out_channels == 1 {
        SlotSource::Mean { first: frame * in_channels, count: in_channels }
    } else if channel < in_channels {
        SlotSource::Sample(frame * in_channels + channel)
    } else {
        SlotSource::Silence
    }
}

/// A slot of a frame is fed from the samples of that frame alone.
pub proof fn law_slots_stay_in_their_frame(in_channels: int, out_channels: int, slot: int)
    requires
        0 < in_channels,
        0 < out_channels,
        0 <= slot,
        (slot / out_channels + 1) * in_channels <= usize::MAX,
    ensures
        match slot_source_spec(in_channels, out_channels, slot) {
            SlotSource::Sample(i) => i as int / in_channels == slot / out_channels,
            SlotSource::Mean { first, count } => first as int / in_channels == slot / out_channels
                && first as int % in_channels == 0 && count == in_channels,
            SlotSource::Silence => slot % out_channels >= in_channels,
        },
{
    let frame = slot / out_channels;
    let channel = slot % out_channels;
    assert(frame >= 0) by (nonlinear_arith)
        requires
            frame == slot / out_channels,
            slot >= 0,
            out_channels > 0,
    ;
    assert(slot == frame * out_channels + channel && 0 <= channel < out_channels) by (
    nonlinear_arith)
        requires
            frame == slot / out_channels,
            channel == slot % out_channels,
            out_channels > 0,
    ;
    assert((frame + 1) * in_channels == frame * in_channels + in_channels) by (nonlinear_arith);
    assert(frame * in_channels >= 0) by (nonlinear_arith)
        requires
            frame >= 0,
            in_channels > 0,
    ;
    assert((frame * in_channels) / in_channels == frame) by (nonlinear_arith)
        requires
            in_channels > 0,
    ;
    assert((frame * in_channels) % in_channels == 0) by (nonlinear_arith)
        requires
            in_channels > 0,
    ;
    assert(in_channels <= (frame + 1) * in_channels && frame < (frame + 1) * in_channels) by (
    nonlinear_arith)
        requires
            frame >= 0,
            in_channels >= 1,
    ;
    if channel < in_channels {
        assert((frame * in_channels + channel) / in_channels == frame) by (nonlinear_arith)
            requires
                0 <= channel < in_channels,
        ;
    }
    if in_channels == 1 {
        assert(frame / 1 == frame);
    }
}

/// The samples of the output block that hold sound.
pub fn valid_out_samples(valid_samples: usize, in_channels: usize, out_channels: usize) -> (r: usize)
    requires
        in_channels > 0,
        (valid_samples as int / in_channels as int) * out_channels <= usize::MAX,
    ensures
        r == (valid_samples as int / in_channels as int) * out_channels,
{
    (valid_samples / in_channels) * out_channels
}

/// Whether a slot of a block is silent: behind the sound, or behind a fade-out.
pub open spec fn is_silent_slot(
    slot: int,
    out_channels: int,
    valid_out: int,
    silence_from_frame: Option<usize>,
) -> bool {
    slot >= valid_out || match silence_from_frame {
        Some(frame) => slot / out_channels >= frame,
        None => false,
    }
}

/// Whether an output slot is played as exact silence: it lies behind the end of
/// the track, or behind the point where a fade-out has ended.
pub fn slot_is_silent(
    slot: usize,
    out_channels: usize,
    valid_out: usize,
    silence_from_frame: Option<usize>,
) -> (r: bool)
    requires
        out_channels > 0,
    ensures
        r == is_silent_slot(
            slot as int,
            out_channels as int,
            valid_out as int,
            silence_from_frame,
        ),
{
    if slot >= valid_out {
        return true;
    }
    match silence_from_frame {
        Some(frame) => slot / out_channels >= frame,
        None => false,
    }
}

/// The place of a slot in the bytes of a block.
pub open spec fn slot_offset_spec(
    slot: int,
    out_channels: int,
    block_align: int,
    store_bits: int,
) -> int {
    (slot / out_channels) * block_align + (slot % out_channels) * (store_bits / 8)
}

/// The place of a slot in the bytes of a block.
pub fn slot_offset(slot: usize, out_channels: usize, block_align: usize, store_bits: usize) -> (r:
    usize)
    requires
        out_channels > 0,
        slot_offset_spec(
            slot as int,
            out_channels as int,
            block_align as int,
            store_bits as int,
        ) <= usize::MAX,
    ensures
        r == slot_offset_spec(
            slot as int,
            out_channels as int,
            block_align as int,
            store_bits as int,
        ),
{
    let frame: usize = slot / out_channels;
    let channel: usize = slot % out_channels;
    let width: usize = store_bits / 8;
    proof {
        assert(frame * block_align >= 0) by (nonlinear_arith)
            requires
                frame >= 0,
                block_align >= 0,
        ;
        assert(channel * width >= 0) by (nonlinear_arith)
            requires
                channel >= 0,
                width >= 0,
        ;
    }
    frame * block_align + channel * width
}

/// The slots of a block do not overlap, where a frame has room for its channels.
pub proof fn law_slots_do_not_overlap(
    a: int,
    b: int,
    out_channels: int,
    block_align: int,
    store_bits: int,
)
    requires
        0 <= a < b,
        0 < out_channels,
        0 <= store_bits,
        out_channels * (store_bits / 8) <= block_align,
    ensures
        slot_offset_spec(a, out_channels, block_align, store_bits) + store_bits / 8
            <= slot_offset_spec(b, out_channels, block_align, store_bits),
{
    let w = store_bits / 8;
    let (fa, ca) = (a / out_channels, a % out_channels);
    let (fb, cb) = (b / out_channels, b % out_channels);
    assert(a == fa * out_channels + ca && 0 <= ca < out_channels) by (nonlinear_arith)
        requires
            fa == a / out_channels,
            ca == a % out_channels,
            out_channels > 0,
    ;
    assert(b == fb * out_channels + cb && 0 <= cb < out_channels) by (nonlinear_arith)
        requires
            fb == b / out_channels,
            cb == b % out_channels,
            out_channels > 0,
    ;
    assert(fa <= fb) by (nonlinear_arith)
        requires
            fa == a / out_channels,
            fb == b / out_channels,
            a < b,
            out_channels > 0,
    ;
    if fa == fb {
        assert(ca * w + w <= cb * w) by (nonlinear_arith)
            requires
                ca + 1 <= cb,
                w >= 0,
        ;
    } else {
        assert(fa * block_align + block_align <= fb * block_align) by (nonlinear_arith)
            requires
                fa + 1 <= fb,
                block_align >= 0,
        ;
        assert(ca * w + w <= out_channels * w) by (nonlinear_arith)
            requires
                ca + 1 <= out_channels,
                w >= 0,
        ;
        assert(cb * w >= 0) by (nonlinear_arith)
            requires
                cb >= 0,
                w >= 0,
        ;
    }
}

/// The bytes that a sample takes.
pub open spec fn sample_width_spec(is_float: bool, store_bits: int) -> int {
    if is_float {
        4
    } else if store_bits == 24 {
        3
    } else if store_bits == 32 {
        4
    } else {
        2
    }
}

/// The bytes that a sample takes.
pub fn sample_width(is_float: bool, store_bits: usize) -> (r: usize)
    ensures
        r == sample_width_spec(is_float, store_bits as int),
{
    if is_float {
        return 4;
    }
    match store_bits {
        16 => 2,
        24 => 3,
        32 => 4,
        _ => 2,
    }
}

/// The bits that an integer sample has in use, from one to thirty-two.
pub open spec fn used_bits(valid_bits: int) -> int {
    if valid_bits < 1 {
        1
    } else if valid_bits > 32 {
        32
    } else {
        valid_bits
    }
}

/// One more than the greatest sample of that many bits.
pub open spec fn sample_limit(valid_bits: int) -> int {
    pow2((used_bits(valid_bits) - 1) as nat) as int
}

/// A sample kept inside its range.
pub open spec fn clamped_sample(sample: int, valid_bits: int) -> int {
    if sample < -sample_limit(valid_bits) {
        -sample_limit(valid_bits)
    } else if sample >= sample_limit(valid_bits) {
        sample_limit(valid_bits) - 1
    } else {
        sample
    }
}

/// The unused bits of the container, which stand below the sample.
pub open spec fn padding_bits(store_bits: int, valid_bits: int) -> nat {
    if store_bits > used_bits(valid_bits) {
        (store_bits - used_bits(valid_bits)) as nat
    } else {
        0
    }
}

/// The number in the container: the clamped sample in its upper bits.
pub open spec fn container_value(sample: int, store_bits: int, valid_bits: int) -> int {
    clamped_sample(sample, valid_bits) * pow2(padding_bits(store_bits, valid_bits))
}

/// The lowest `n` bytes of a number in two's complement, the lowest first.
pub open spec fn little_endian(value: int, n: nat) -> Seq<u8> {
    Seq::new(n, |k: int| byte_at(value, k))
}

/// Byte `k` of a number in two's complement, counted from the lowest.
pub open spec fn byte_at(value: int, k: int) -> u8 {
    if k == 0 {
        (value % 0x100) as u8
    } else if k == 1 {
        (value / 0x100 % 0x100) as u8
    } else if k == 2 {
        (value / 0x1_0000 % 0x100) as u8
    } else {
        (value / 0x100_0000 % 0x100) as u8
    }
}

/// Adding a multiple of 2 to the power of 32 leaves the four lowest bytes.
proof fn lemma_low_bytes(value: int)
    ensures
        byte_at(value + 0x1_0000_0000_0000_0000_0000_0000_0000, 0) == byte_at(value, 0),
        byte_at(value + 0x1_0000_0000_0000_0000_0000_0000_0000, 1) == byte_at(value, 1),
        byte_at(value + 0x1_0000_0000_0000_0000_0000_0000_0000, 2) == byte_at(value, 2),
        byte_at(value + 0x1_0000_0000_0000_0000_0000_0000_0000, 3) == byte_at(value, 3),
{
    lemma_digit(value, 1, 0x100_0000_0000_0000_0000_0000_0000);
    lemma_digit(value, 0x100, 0x1_0000_0000_0000_0000_0000_0000);
    lemma_digit(value, 0x1_0000, 0x100_0000_0000_0000_0000_0000);
    lemma_digit(value, 0x100_0000, 0x1_0000_0000_0000_0000_0000);
}

/// Adding a multiple of `256 * d` leaves the digit above `d` to the base 256.
proof fn lemma_digit(value: int, d: int, m: int)
    requires
        d > 0,
    ensures
        (value + m * 0x100 * d) / d % 0x100 == value / d % 0x100,
{
    vstd::arithmetic::div_mod::lemma_hoist_over_denominator(value, m * 0x100, d as nat);
    vstd::arithmetic::div_mod::lemma_mod_multiples_vanish(m, value / d, 0x100);
}

fn power_of_two(n: u32) -> (r: i128)
    requires
        n <= 64,
    ensures
        r == pow2(n as nat),
        1 <= r <= 0x1_0000_0000_0000_0000,
{
    let mut r: i128 = 1;
    let mut i: u32 = 0;
    proof {
        vstd::arithmetic::power2::lemma2_to64();
    }
    while i < n
        invariant
            i <= n <= 64,
            r == pow2(i as nat),
        decreases n - i,
    {
        proof {
            lemma_pow2_unfold((i + 1) as nat);
            vstd::arithmetic::power2::lemma2_to64();
            if i + 1 < 64 {
                vstd::arithmetic::power2::lemma_pow2_strictly_increases((i + 1) as nat, 64);
            }
            vstd::arithmetic::power2::lemma2_to64_rest();
        }
        r = r * 2;
        i += 1;
    }
    proof {
        lemma_pow2_pos(n as nat);
        vstd::arithmetic::power2::lemma2_to64_rest();
        if n < 64 {
            vstd::arithmetic::power2::lemma_pow2_strictly_increases(n as nat, 64);
        }
    }
    r
}

proof fn lemma_sample_limit(valid_bits: int)
    ensures
        1 <= sample_limit(valid_bits) <= 0x8000_0000,
{
    let n = (used_bits(valid_bits) - 1) as nat;
    lemma_pow2_pos(n);
    vstd::arithmetic::power2::lemma2_to64();
    if n < 31 {
        vstd::arithmetic::power2::lemma_pow2_strictly_increases(n, 31);
    }
}

fn low_bytes(u: u128, n: usize, Ghost(value): Ghost<int>) -> (r: Vec<u8>)
    requires
        2 <= n <= 4,
        byte_at(u as int, 0) == byte_at(value, 0),
        byte_at(u as int, 1) == byte_at(value, 1),
        byte_at(u as int, 2) == byte_at(value, 2),
        byte_at(u as int, 3) == byte_at(value, 3),
    ensures
        r@ == little_endian(value, n as nat),
{
    let mut r: Vec<u8> = Vec::new();
    r.push((u % 0x100) as u8);
    r.push((u / 0x100 % 0x100) as u8);
    if n >= 3 {
        r.push((u / 0x1_0000 % 0x100) as u8);
    }
    if n >= 4 {
        r.push((u / 0x100_0000 % 0x100) as u8);
    }
    assert(r@ =~= little_endian(value, n as nat));
    r
}

/// The greatest integer sample of that many bits, to which full scale goes.
pub fn full_scale(valid_bits: usize) -> (r: u32)
    ensures
        r == sample_limit(valid_bits as int) - 1,
{
    let bits: u32 = if valid_bits < 1 {
        1
    } else if valid_bits > 32 {
        32
    } else {
        valid_bits as u32
    };
    proof {
        lemma_sample_limit(valid_bits as int);
    }
    (power_of_two(bits - 1) - 1) as u32
}

/// The bytes of an integer sample: clamped to its range, moved to the upper bits
/// of its container and written with the lowest byte first.
pub fn encode_int_sample(sample: i64, store_bits: usize, valid_bits: usize) -> (r: Vec<u8>)
    requires
        store_bits <= 64,
    ensures
        r@ == little_endian(
            container_value(sample as int, store_bits as int, valid_bits as int),
            sample_width_spec(false, store_bits as int) as nat,
        ),
{
    let bits: u32 = if valid_bits < 1 {
        1
    } else if valid_bits > 32 {
        32
    } else {
        valid_bits as u32
    };
    proof {
        lemma_sample_limit(valid_bits as int);
    }
    let limit: i128 = power_of_two(bits - 1);
    let s: i128 = sample as i128;
    let s: i128 = if s < -limit {
        -limit
    } else if s >= limit {
        limit - 1
    } else {
        s
    };
    let shift: u32 = if store_bits as u32 > bits {
        store_bits as u32 - bits
    } else {
        0
    };
    let factor: i128 = power_of_two(shift);
    assert(-0x8000_0000_0000_0000_0000_0000 <= s * factor <= 0x8000_0000_0000_0000_0000_0000) by (
    nonlinear_arith)
        requires
            -0x8000_0000 <= s <= 0x8000_0000,
            1 <= factor <= 0x1_0000_0000_0000_0000,
    ;
    let value: i128 = s * factor;
    let raised: i128 = value + 0x1_0000_0000_0000_0000_0000_0000_0000;
    let u: u128 = raised as u128;
    proof {
        lemma_low_bytes(value as int);
    }
    low_bytes(u, sample_width(false, store_bits), Ghost(value as int))
}

/// A sample always fits its container, with zeros in the bits it does not use.
pub proof fn law_sample_fits_container(sample: int, store_bits: int, valid_bits: int)
    requires
        1 <= valid_bits <= 32,
        valid_bits <= store_bits <= 64,
    ensures
        -pow2((store_bits - 1) as nat) <= container_value(sample, store_bits, valid_bits) < pow2(
            (store_bits - 1) as nat,
        ),
        container_value(sample, store_bits, valid_bits) % pow2(
            (store_bits - valid_bits) as nat,
        ) as int == 0,
{
    let pad = (store_bits - valid_bits) as nat;
    let limit = sample_limit(valid_bits);
    let s = clamped_sample(sample, valid_bits);
    let factor = pow2(pad) as int;
    lemma_sample_limit(valid_bits);
    lemma_pow2_pos(pad);
    lemma_pow2_adds((valid_bits - 1) as nat, pad);
    assert(pow2((store_bits - 1) as nat) == limit * factor);
    assert(-(limit * factor) <= s * factor <= (limit - 1) * factor) by (nonlinear_arith)
        requires
            -limit <= s <= limit - 1,
            factor > 0,
    ;
    assert((limit - 1) * factor == limit * factor - factor) by (nonlinear_arith);
    assert((s * factor) % factor == 0) by (nonlinear_arith)
        requires
            factor > 0,
    ;
}

/// Of a block of which some samples were read, the sound up to the end of the track is
/// kept as it is, but for what is no number; the rest is silence, and what is behind the
/// block is left alone.
pub proof fn law_block_is_silent_behind_the_end(bits: Seq<u64>, read: int, needed: int, i: int)
    requires
        0 <= read <= needed <= bits.len(),
        0 <= i < bits.len(),
    ensures
        cleaned_block(bits, read, needed).len() == bits.len(),
        i >= needed ==> cleaned_block(bits, read, needed)[i] == bits[i],
        read <= i < needed ==> cleaned_block(bits, read, needed)[i] == 0,
        i < read && bits.take(i + 1).contains(EOS_MARKER_BITS) ==> cleaned_block(
            bits,
            read,
            needed,
        )[i] == 0,
        i < read && !bits.take(i + 1).contains(EOS_MARKER_BITS) && (bits[i] >> 52) & 0x7ff != 0x7ff
            ==> cleaned_block(bits, read, needed)[i] == bits[i],
        i < needed && (bits[i] >> 52) & 0x7ff == 0x7ff ==> cleaned_block(bits, read, needed)[i] == 0,
{
    let part = bits.take(read);
    lemma_marker_position(part);
    let at = marker_position(part);
    let b = bits[i];
    assert((b >> 52) & 0x7ff == (b / 0x10_0000_0000_0000) % 0x800) by (bit_vector);
    if i < read {
        let front = bits.take(i + 1);
        if front.contains(EOS_MARKER_BITS) {
            let k = choose|k: int| 0 <= k < front.len() && front[k] == EOS_MARKER_BITS;
            assert(part[k] == EOS_MARKER_BITS);
            assert(at <= k);
        } else if at <= i {
            assert(front[at] == part[at]);
        }
    }
}

/// A block is read whole, or, at the end of a track, what is left of it; else nothing is.
pub proof fn law_block_is_read_whole(available: int, needed: int, ended: bool)
    requires
        0 <= available,
        0 <= needed,
    ensures
        ({
            let r = samples_to_read_spec(available, needed, ended);
            &&& r <= available && r <= needed
            &&& available >= needed ==> r == needed
            &&& available < needed && ended ==> r == available
            &&& available < needed && !ended ==> r == 0
        }),
{
}

/// A place in the output takes its sound from the same frame, and from the same channel
/// where there is one: a single channel is heard everywhere, everything is heard in a
/// single channel, and channels that the track does not have are silent.
pub proof fn law_channels_keep_their_place(in_channels: int, out_channels: int, slot: int)
    requires
        0 < in_channels,
        0 < out_channels,
        0 <= slot,
        (slot / out_channels + 1) * in_channels <= usize::MAX,
        slot <= usize::MAX,
    ensures
        ({
            let (frame, channel) = (slot / out_channels, slot % out_channels);
            match slot_source_spec(in_channels, out_channels, slot) {
                SlotSource::Sample(i) => {
                    &&& i as int / in_channels == frame
                    &&& in_channels > 1 ==> i as int % in_channels == channel
                },
                SlotSource::Mean { first, count } => {
                    &&& out_channels == 1 && in_channels > 1
                    &&& first == frame * in_channels
                    &&& count == in_channels
                },
                SlotSource::Silence => in_channels > 1 && out_channels > 1 && channel
                    >= in_channels,
            }
        }),
        in_channels > 1 && out_channels > 1 && slot % out_channels >= in_channels
            ==> slot_source_spec(in_channels, out_channels, slot) is Silence,
        in_channels > 1 && out_channels == 1 ==> slot_source_spec(in_channels, out_channels, slot)
            is Mean,
{
    let (frame, channel) = (slot / out_channels, slot % out_channels);
    assert(frame >= 0 && 0 <= channel < out_channels && slot == frame * out_channels + channel)
        by (nonlinear_arith)
        requires
            frame == slot / out_channels,
            channel == slot % out_channels,
            out_channels > 0,
            slot >= 0,
    ;
    assert((frame + 1) * in_channels == frame * in_channels + in_channels) by (nonlinear_arith);
    assert(frame * in_channels >= 0) by (nonlinear_arith)
        requires
            frame >= 0,
            in_channels > 0,
    ;
    if in_channels == 1 {
        assert(frame / 1 == frame);
        if out_channels == 1 {
            assert(slot / 1 == slot);
        }
    } else if in_channels == out_channels {
    } else if out_channels > 1 && channel < in_channels {
        vstd::arithmetic::div_mod::lemma_fundamental_div_mod_converse(
            frame * in_channels + channel,
            in_channels,
            frame,
            channel,
        );
    }
}

/// The first channel of a frame stands at its start, and each of the others directly
/// behind the one before it.
pub proof fn law_slots_stand_side_by_side(
    frame: int,
    channel: int,
    out_channels: int,
    block_align: int,
    store_bits: int,
)
    requires
        0 <= frame,
        0 <= channel < out_channels,
        0 <= store_bits,
    ensures
        slot_offset_spec(frame * out_channels, out_channels, block_align, store_bits) == frame
            * block_align,
        slot_offset_spec(frame * out_channels + channel, out_channels, block_align, store_bits)
            == frame * block_align + channel * (store_bits / 8),
{
    vstd::arithmetic::div_mod::lemma_fundamental_div_mod_converse(
        frame * out_channels,
        out_channels,
        frame,
        0,
    );
    vstd::arithmetic::div_mod::lemma_fundamental_div_mod_converse(
        frame * out_channels + channel,
        out_channels,
        frame,
        channel,
    );
    assert(0 * (store_bits / 8) == 0);
}

/// A sample takes the bytes that its container has.
pub proof fn law_sample_takes_its_bytes(store_bits: int)
    ensures
        store_bits == 16 || store_bits == 24 || store_bits == 32 ==> sample_width_spec(
            false,
            store_bits,
        ) * 8 == store_bits,
        sample_width_spec(true, store_bits) == 4,
{
}

/// A sample inside its range is kept, and one beyond it becomes the nearest one inside.
pub proof fn law_loud_sample_is_cut(sample: int, valid_bits: int)
    requires
        1 <= valid_bits <= 32,
    ensures
        ({
            let limit = pow2((valid_bits - 1) as nat) as int;
            let r = clamped_sample(sample, valid_bits);
            &&& -limit <= r < limit
            &&& -limit <= sample < limit ==> r == sample
            &&& sample >= limit ==> r == limit - 1
            &&& sample < -limit ==> r == -limit
        }),
{
    vstd::arithmetic::power2::lemma_pow2_pos((valid_bits - 1) as nat);
}

/// A sample stands in the upper bits of its container: what is below them is empty.
pub proof fn law_sample_stands_in_the_upper_bits(sample: int, store_bits: int, valid_bits: int)
    requires
        1 <= valid_bits <= 32,
        valid_bits <= store_bits <= 64,
    ensures
        container_value(sample, store_bits, valid_bits) == clamped_sample(sample, valid_bits)
            * pow2((store_bits - valid_bits) as nat),
{
}

/// The bytes of a sample read back as the sample, up to whole turns of their number, the
/// least significant one first.
pub proof fn law_encoded_bytes_read_back(value: int, n: nat)
    requires
        n <= 4,
    ensures
        little_endian(value, n).len() == n,
        n == 2 ==> (little_endian(value, n)[0] + 0x100 * little_endian(value, n)[1] - value)
            % 0x1_0000 == 0,
        n == 3 ==> (little_endian(value, n)[0] + 0x100 * little_endian(value, n)[1] + 0x1_0000
            * little_endian(value, n)[2] - value) % 0x100_0000 == 0,
        n == 4 ==> (little_endian(value, n)[0] + 0x100 * little_endian(value, n)[1] + 0x1_0000
            * little_endian(value, n)[2] + 0x100_0000 * little_endian(value, n)[3] - value)
            % 0x1_0000_0000 == 0,
{
}

/// The slots of a frame are silent together where a fade-out has ended before it, sound is
/// heard up to the end of it, and nothing is heard behind that.
pub proof fn law_silence_follows_the_sound(
    frame: int,
    channel: int,
    out_channels: int,
    valid_out: int,
    from: usize,
)
    requires
        0 <= frame,
        0 <= channel < out_channels,
    ensures
        ({
            let slot = frame * out_channels + channel;
            &&& slot < valid_out ==> !is_silent_slot(slot, out_channels, valid_out, None)
            &&& slot >= valid_out ==> is_silent_slot(slot, out_channels, valid_out, None)
            &&& frame >= from ==> is_silent_slot(slot, out_channels, valid_out, Some(from))
            &&& frame < from && slot < valid_out ==> !is_silent_slot(
                slot,
                out_channels,
                valid_out,
                Some(from),
            )
        }),
{
    vstd::arithmetic::div_mod::lemma_fundamental_div_mod_converse(
        frame * out_channels + channel,
        out_channels,
        frame,
        channel,
    );
}

} // verus!
