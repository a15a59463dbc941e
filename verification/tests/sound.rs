use velotype::frame_source::{
    packet_step, Frame, FrameSource, FrameStep, PacketEvent, PacketStep, PcmProbe,
};
use velotype::random::{DitherNoise, RNG_DEFAULT_SEED};
use velotype::sample_queue::SampleQueue;
use velotype::decode_task::{
    available_frames, calc_index, split_channels, BlockOutcome, DecodeStep, DecodeTask,
    ResampleWindow, SeekPoll, UnopenedTask,
};
use velotype::output_format::{
    align_period_hns, format_candidates, rate_candidates, sample_type_str, stream_plan,
    DeviceFormat, InitStep, SampleKind, StreamInit, StreamMode, BUFFER_SIZE_NOT_ALIGNED,
};
use velotype::pcm::{
    carried_words, frame_layout, interleave_words, packed_block_values,
    pcm_probe_dts_in_s16le_words, pcm_probe_dts_sync_s16le_word_pair, read_le, signed_value,
    DtsInput, DtsStep, FrameError, PcmKind,
};
use velotype::playback::{
    current_position_ms, drain_ms, end_fade, frames_available, start_samples, ControlStep, Playback,
    ReadStep, SeekStep,
};
use velotype::player_state::RetryReason;
use velotype::sample_encoding::{
    clean_block, encode_int_sample, full_scale, holds_marker, sample_width, samples_to_read,
    slot_is_silent, slot_offset, slot_source, SlotSource, EOS_MARKER_BITS,
};
use velotype::stream_time::{
    audio_stream, choose_tick, micros_to_ms, ms_to_stream_ts, output_spec, packet_timestamp,
    receive_step, seek_timestamp, stream_bits, stream_channels, stream_ts_to_ms, ts_to_ms,
    OutputProbe, PacketTimes, ProbeEvent, ProbeResult, Rational, ReceiveStep, StreamScan,
    TickLength, NO_TIMESTAMP,
};

fn device(rate: usize, bits: usize) -> DeviceFormat {
    DeviceFormat {
        rate,
        channels: 2,
        store_bits: bits,
        valid_bits: bits,
        kind: Some(SampleKind::Int),
    }
}

#[test]
fn candidates_are_distinct() {
    let rates = rate_candidates(44100, Some(48000));
    assert_eq!(rates[0], 44100);
    let mut sorted = rates.clone();
    sorted.sort();
    sorted.dedup();
    assert_eq!(sorted.len(), rates.len());
    assert!(rates.contains(&48000));
    let formats = format_candidates(Some(24), None);
    assert!(!formats.is_empty());
    assert_eq!(sample_type_str(true), "float");
    assert_eq!(sample_type_str(false), "int");
}

#[test]
fn shared_stream_takes_the_mix_format() {
    let plan = stream_plan(false, None, 44100, Some(16), Some(device(48000, 32)));
    assert!(!plan.exclusive);
    assert_eq!(plan.output_rate, 48000);
    assert!(plan.needs_resample);
    let plan = stream_plan(true, Some(device(44100, 16)), 44100, Some(16), None);
    assert!(plan.exclusive);
    assert!(!plan.needs_resample);
}

#[test]
fn aligned_period_is_long_enough() {
    assert_eq!(align_period_hns(48000, 100_000, 128), 106_667);
    assert_eq!(align_period_hns(0, 5, 128), 5);
    assert_eq!(align_period_hns(48000, -1, 128), -1);
}

#[test]
fn stream_is_tried_again_a_few_times() {
    let mut init = StreamInit::new(StreamMode::Exclusive { period_hns: 100_000 }, 100_000);
    assert!(init.wants_frame_count(BUFFER_SIZE_NOT_ALIGNED, 48000));
    match init.refused(BUFFER_SIZE_NOT_ALIGNED, 48000, Some(500)) {
        InitStep::RetryExclusive(hns) => assert_eq!(hns, 104_167),
        _ => panic!("not tried again"),
    }
    let mut steps = 0;
    loop {
        match init.refused(1, 48000, None) {
            InitStep::GiveUp => break,
            _ => steps += 1,
        }
        assert!(steps < 10);
    }
}

#[test]
fn slots_take_their_samples() {
    assert!(matches!(slot_source(2, 2, 5), SlotSource::Sample(5)));
    assert!(matches!(slot_source(1, 2, 3), SlotSource::Sample(1)));
    assert_eq!(slot_offset(3, 2, 8, 32), 12);
    assert!(slot_is_silent(4, 2, 4, None));
    assert!(!slot_is_silent(3, 2, 4, None));
    assert!(slot_is_silent(2, 2, 100, Some(1)));
    assert_eq!(sample_width(true, 32), 4);
    assert_eq!(sample_width(false, 24), 3);
}

#[test]
fn samples_become_bytes() {
    assert_eq!(encode_int_sample(-2, 16, 16), vec![0xfe, 0xff]);
    assert_eq!(encode_int_sample(1, 24, 24), vec![1, 0, 0]);
    assert_eq!(encode_int_sample(1, 32, 24), vec![0, 1, 0, 0]);
    assert_eq!(full_scale(16), 32767);
}

#[test]
fn marker_ends_a_block() {
    assert!(holds_marker(&[1, EOS_MARKER_BITS]));
    assert!(!holds_marker(&[1, 2]));
    let mut bits = vec![5, EOS_MARKER_BITS, 7, 8];
    let (valid, ended) = clean_block(&mut bits, 3, 4);
    assert!(ended);
    assert!(valid <= 3);
    assert!(!bits.contains(&EOS_MARKER_BITS));
    assert_eq!(samples_to_read(10, 4, false), 4);
}

#[test]
fn position_of_samples() {
    assert_eq!(current_position_ms(88_200, 44_100, 2), 1000);
    assert_eq!(start_samples(1500, 44_100, 2), 132_300);
    assert_eq!(frames_available(true, 480, 100), 480);
    assert_eq!(frames_available(false, 480, 100), 380);
    assert_eq!(end_fade(100, 10), (90, 10));
    let _ = drain_ms(480, 48_000);
}

fn playback() -> Playback {
    Playback::new(48_000, 2, 60_000, 0, 240, 480)
}

#[test]
fn seek_is_committed_once() {
    let mut p = playback();
    assert!(matches!(p.control(RetryReason::NoRetry, false, false, false), ControlStep::GoOn));
    assert!(matches!(p.seek(-1, 0), SeekStep::Nothing));
    assert!(matches!(p.seek(10_000, 0), SeekStep::FadeOut));
    let plan = p.block(1000, 2000);
    let target = plan.commit.unwrap();
    assert_eq!(target, 10_000);
    p.commit_seek(target);
    assert!(matches!(p.before_read(false), ReadStep::Silence));
    assert!(matches!(p.before_read(true), ReadStep::Clear));
    assert!(matches!(p.before_read(false), ReadStep::Proceed));
    assert!(p.block(100, 200).commit.is_none());
}

#[test]
fn seek_past_the_end() {
    let mut p = playback();
    assert!(matches!(p.seek(60_000, 0), SeekStep::PastEnd));
}

#[test]
fn end_is_marked_once() {
    let mut t = DecodeTask::new(2, 2, 48_000);
    assert!(matches!(t.poll(false, -1), SeekPoll::Nothing));
    assert!(matches!(t.poll(false, 5), SeekPoll::Seek(5)));
    assert!(matches!(t.poll(true, 5), SeekPoll::Stop));
    assert!(matches!(t.step(false, 1_000_000, false), DecodeStep::Decode));
    assert!(matches!(t.decoded(Some(10)), BlockOutcome::Samples));
    assert!(matches!(t.decoded(None), BlockOutcome::End));
    assert!(matches!(t.step(false, 1_000_000, false), DecodeStep::PushEndMarkers(_)));
    assert!(!matches!(t.step(false, 1_000_000, false), DecodeStep::PushEndMarkers(_)));
    assert!(t.sought(true));
    assert!(matches!(t.step(false, 1_000_000, false), DecodeStep::Decode));
}

#[test]
fn planes_hold_every_sample() {
    let mut planes: Vec<Vec<i32>> = vec![vec![], vec![]];
    split_channels(&vec![1, 2, 3, 4], &mut planes);
    assert_eq!(planes, vec![vec![1, 3], vec![2, 4]]);
    assert_eq!(available_frames(&planes), 2);
    assert_eq!(calc_index(1, 3, 2), 7);
    let mut w = ResampleWindow { offset: 0, input_frames: 1 };
    assert!(w.is_ready(2, 1));
    w.consumed(1);
    assert_eq!(w.offset, 1);
    w.restart(&mut planes);
    assert_eq!(w.offset, 0);
    assert!(planes[0].is_empty());
}

#[test]
fn words_of_samples() {
    assert_eq!(read_le(&[1, 2, 3], 0, 2), 0x201);
    assert_eq!(signed_value(PcmKind::S16, 0xffff), -1);
    assert_eq!(signed_value(PcmKind::S24, 0x80_0000), -8_388_608);
    assert_eq!(signed_value(PcmKind::U8, 128), 0);
    assert!(frame_layout(1).is_some());
    assert!(frame_layout(-1).is_none());
    assert_eq!(interleave_words(&[1, 3], &[2, 4], 2), vec![1, 2, 3, 4]);
    assert_eq!(carried_words(PcmKind::S16, &vec![7, 9]), vec![7, 9]);
    assert_eq!(carried_words(PcmKind::S32, &vec![0x7_0000]), vec![7]);
    let (kind, values) = packed_block_values(16, &vec![1, 0, 2, 0], 2).unwrap();
    assert!(kind == PcmKind::S16);
    assert_eq!(values, vec![1, 2]);
    assert!(packed_block_values(13, &vec![1, 0, 2, 0], 2).is_none());
}

#[test]
fn sync_words() {
    assert!(pcm_probe_dts_sync_s16le_word_pair(0x7ffe, 0x8001));
    assert!(!pcm_probe_dts_sync_s16le_word_pair(0x8001, 0x7ffe));
    assert_eq!(pcm_probe_dts_in_s16le_words(&vec![0, 0xfe7f, 0x0180], 3), Some(1));
    assert_eq!(pcm_probe_dts_in_s16le_words(&vec![0, 1, 2], 3), None);
}

#[test]
fn words_wait_for_the_decoder() {
    let mut d = DtsInput::new();
    assert!(matches!(d.next_input(), DtsStep::NeedMore));
    d.push_s16le_words(&vec![0x0201]);
    assert_eq!(d.buffer, vec![1, 2]);
    assert!(matches!(d.next_input(), DtsStep::Parse));
    d.parsed(2, 0);
    d.set_input_eof();
    assert!(matches!(d.next_input(), DtsStep::Flush));
    assert!(matches!(d.next_input(), DtsStep::End));
}

fn tick() -> TickLength {
    TickLength { numer: 1, denom: 44_100 }
}

#[test]
fn ticks_and_times() {
    assert_eq!(ts_to_ms(44_100, tick()), 1000);
    assert_eq!(ts_to_ms(0, tick()), 0);
    assert_eq!(ts_to_ms(44, tick()), 0);
    assert_eq!(seek_timestamp(0, tick(), 1105), 1105);
    assert_eq!(seek_timestamp(1000, tick(), 1105), 45_205);
    assert_eq!(choose_tick(None, 48_000).denom, 48_000);
    assert_eq!(output_spec(true, (44_100, 2), Some((48_000, 1))), (48_000, 1));
    assert_eq!(output_spec(false, (44_100, 2), Some((48_000, 1))), (44_100, 2));
}

#[test]
fn scan_covers_every_packet() {
    let mut s = StreamScan::new(1, 0);
    assert!(s.take(Some(PacketTimes { track_id: 2, pts: 9, dur: 9 })));
    assert!(s.take(Some(PacketTimes { track_id: 1, pts: 100, dur: 10 })));
    assert!(s.take(Some(PacketTimes { track_id: 1, pts: 44_100, dur: 100 })));
    assert!(!s.take(None));
    assert_eq!(s.first_ts, 100);
    assert_eq!(s.duration_ms(tick(), None, None), Some(1000));
}

#[test]
fn stream_timestamps() {
    let tb = Rational { num: 1, den: 1000 };
    assert_eq!(ms_to_stream_ts(5, tb), Some(5));
    assert_eq!(stream_ts_to_ms(5, tb), Some(5));
    assert_eq!(ms_to_stream_ts(5, Rational { num: 0, den: 1 }), None);
    assert_eq!(packet_timestamp(NO_TIMESTAMP, 4), Some(4));
    assert_eq!(packet_timestamp(3, 4), Some(3));
    assert_eq!(packet_timestamp(NO_TIMESTAMP, NO_TIMESTAMP), None);
    assert_eq!(micros_to_ms(1_500_000), 1500);
    assert_eq!(audio_stream(-1, Some(2), 3), Some(2));
    assert_eq!(audio_stream(5, Some(2), 3), None);
    assert!(matches!(receive_step(0), ReceiveStep::Frame));
    assert!(matches!(receive_step(-11), ReceiveStep::NeedInput));
    assert!(matches!(receive_step(-541478725), ReceiveStep::End));
    assert!(matches!(receive_step(-5), ReceiveStep::Failed(-5)));
    assert!(stream_channels(2) == 2);
    assert!(stream_bits(24, 0) == 24);
}

#[test]
fn look_at_a_decoder_ends() {
    let mut p = OutputProbe::new();
    for _ in 0..31 {
        assert!(p.take(ProbeEvent::Recoverable).is_none());
    }
    assert!(p.take(ProbeEvent::OtherTrack) == Some(ProbeResult::Nothing));
    let mut p = OutputProbe::new();
    assert!(p.take(ProbeEvent::Decoded(48_000, 2)) == Some(ProbeResult::Seen(48_000, 2)));
    assert!(p.take(ProbeEvent::Broken) == Some(ProbeResult::Failed));
}

#[test]
fn samples_leave_in_their_order() {
    let mut q = SampleQueue::new(4);
    assert_eq!((q.vacant(), q.occupied()), (4, 0));
    assert_eq!(q.push_from(&vec![1, 2, 3], 0), 3);
    assert_eq!((q.vacant(), q.occupied()), (1, 3));
    let mut block = vec![9u64; 2];
    let r = q.read_block(&mut block, 2);
    assert_eq!((r.read, r.valid, r.ended), (2, 2, false));
    assert_eq!(block, vec![1, 2]);
    assert_eq!(q.push_from(&vec![4, 5, 6, 7], 1), 4);
    assert_eq!(q.push_from(&vec![8], 0), 0);
    let mut block = vec![0u64; 4];
    q.read_block(&mut block, 4);
    assert_eq!(block, vec![3, 5, 6, 7]);
    q.push_from(&vec![1], 0);
    q.clear();
    assert_eq!(q.occupied(), 0);
}

#[test]
fn block_waits_until_the_track_ends() {
    let mut q = SampleQueue::new(8);
    q.push_from(&vec![1, 2, 3], 0);
    let mut block = vec![7u64; 4];
    let r = q.read_block(&mut block, 4);
    assert_eq!(r.read, 0);
    assert_eq!(block, vec![7; 4]);
    assert!(!q.holds_end());
    assert!(q.push_marker());
    q.push_marker();
    assert!(q.holds_end());
    let r = q.read_block(&mut block, 4);
    assert_eq!((r.read, r.valid, r.ended), (4, 3, true));
    assert_eq!(block, vec![1, 2, 3, 0]);
    assert_eq!(q.occupied(), 1);
}

#[test]
fn full_queue_takes_no_marker() {
    let mut q = SampleQueue::new(1);
    assert!(q.push_marker());
    assert!(!q.push_marker());
}

fn frame(words: &[u16]) -> Frame {
    let bytes: Vec<u8> = words.iter().flat_map(|w| w.to_le_bytes()).collect();
    Frame {
        format: 1,
        samples: words.len() as i32 / 2,
        planes: vec![Some(bytes)],
        extended: true,
    }
}

#[test]
fn frames_become_samples() {
    let mut s = FrameSource { channels: 2, bits_per_sample: 16, probe_checked: false };
    assert!(matches!(s.next(None), FrameStep::End));
    let empty = Frame { samples: 0, ..frame(&[]) };
    assert!(matches!(s.next(Some(&empty)), FrameStep::Skip));
    assert!(!s.probe_checked);
    match s.next(Some(&frame(&[1, 2, 3, 0xffff]))) {
        FrameStep::Samples(bits) => assert_eq!(bits, vec![1, 2, 3, 0xffff]),
        _ => panic!("no samples"),
    }
    assert!(s.probe_checked);
    let unknown = Frame { format: 77, ..frame(&[1, 2]) };
    assert!(matches!(
        s.next(Some(&unknown)),
        FrameStep::Failed(FrameError::UnsupportedFormat(77))
    ));
    let missing = Frame { planes: vec![None], ..frame(&[1, 2]) };
    assert!(matches!(s.next(Some(&missing)), FrameStep::Failed(FrameError::EmptyData)));
    let mut silent = FrameSource { channels: 0, ..s };
    assert!(matches!(silent.next(Some(&frame(&[1, 2]))), FrameStep::NoChannels));
}

#[test]
fn stream_is_looked_into_once() {
    let mut s = FrameSource { channels: 2, bits_per_sample: 16, probe_checked: false };
    match s.next(Some(&frame(&[0, 0x7ffe, 0x8001, 5]))) {
        FrameStep::Carried(words) => assert_eq!(words, vec![0, 0x7ffe, 0x8001, 5]),
        _ => panic!("the stream was not found"),
    }
    assert!(matches!(s.next(Some(&frame(&[0x7ffe, 0x8001]))), FrameStep::Samples(_)));
    let mut p = PcmProbe::new();
    assert!(!p.look(1, &vec![0x7ffe, 0x8001]));
    assert!(p.look(2, &vec![0x7ffe, 0x8001]));
    assert!(!p.look(2, &vec![0x7ffe, 0x8001]));
}

#[test]
fn packets_are_passed_over() {
    assert!(packet_step(PacketEvent::OtherTrack) == PacketStep::Next);
    assert!(packet_step(PacketEvent::Recoverable) == PacketStep::Next);
    assert!(packet_step(PacketEvent::Decoded(4)) == PacketStep::Give(4));
    assert!(packet_step(PacketEvent::Decoded(0)) == PacketStep::Next);
    assert!(packet_step(PacketEvent::End) == PacketStep::Finish);
    assert!(packet_step(PacketEvent::Broken) == PacketStep::Fail);
}

#[test]
fn noise_never_stops() {
    let mut noise = DitherNoise::new();
    let mut x: u64 = RNG_DEFAULT_SEED;
    for _ in 0..20 {
        x ^= x << 13;
        x ^= x >> 7;
        x ^= x << 17;
        assert_eq!(noise.next_fraction(), x & 0xf_ffff_ffff_ffff);
        assert_ne!(noise.state, 0);
    }
}

#[test]
fn unopened_track_is_marked_once() {
    let mut t = UnopenedTask::new(2);
    assert!(t.step(1, false) == DecodeStep::PushEndMarkers(1));
    assert!(t.step(0, false) == DecodeStep::WaitForRoom);
    assert!(t.step(0, true) == DecodeStep::Stop);
    assert!(t.step(9, false) == DecodeStep::PushEndMarkers(1));
    assert!(t.step(9, false) == DecodeStep::WaitForWakeUp);
    assert!(t.step(9, true) == DecodeStep::Stop);
}

#[test]
fn room_and_markers_have_their_own_channels() {
    let mut t = DecodeTask::new(6, 2, 48_000);
    assert!(t.step(false, 28_799, false) == DecodeStep::WaitForRoom);
    assert!(t.step(false, 28_800, false) == DecodeStep::Decode);
    t.decoded(Some(0));
    assert!(t.step(false, 28_800, false) == DecodeStep::PushEndMarkers(2));
}
