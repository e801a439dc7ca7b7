use insanity::audio::stream_config::{
    callback_buffer_size, find_stereo_input, find_stereo_output, get_input_config,
    get_output_config, sample_format_rank, BufferSize, SampleFormat, SupportedBufferSize,
    SupportedStreamConfigRange,
};
use insanity::audio::stream_errors::{is_fatal, Counters, ErrorKind, StreamErrorCounts};

fn range_at(
    channels: u16,
    min_sample_rate: u32,
    max_sample_rate: u32,
    sample_format: SampleFormat,
) -> SupportedStreamConfigRange {
    SupportedStreamConfigRange {
        channels,
        min_sample_rate,
        max_sample_rate,
        buffer_size: SupportedBufferSize::Unknown,
        sample_format,
    }
}

fn range(channels: u16, format: SampleFormat) -> SupportedStreamConfigRange {
    range_at(channels, 44100, 48000, format)
}

fn ordering_prefers_float_then_width_then_signed() {
    let ranked = [
        SampleFormat::F32,
        SampleFormat::F64,
        SampleFormat::I32,
        SampleFormat::U32,
        SampleFormat::I16,
        SampleFormat::U16,
        SampleFormat::I8,
        SampleFormat::U8,
    ];
    let scores: Vec<u8> = ranked
        .iter()
        .map(|f| sample_format_rank(*f).expect("usable"))
        .collect();
    let mut ordered = scores.clone();
    ordered.sort();
    ordered.reverse();
    assert_eq!(scores, ordered);
}

fn packed_and_dsd_are_unusable() {
    for format in [
        SampleFormat::I24,
        SampleFormat::U24,
        SampleFormat::DsdU8,
        SampleFormat::DsdU16,
        SampleFormat::DsdU32,
    ] {
        assert_eq!(sample_format_rank(format), None);
    }
}

fn u8_first_selects_f32() {
    let configs = vec![
        range(2, SampleFormat::U8),
        range(2, SampleFormat::I16),
        range(2, SampleFormat::F32),
    ];
    let picked = find_stereo_input(configs).expect("config");
    assert_eq!(picked.sample_format, SampleFormat::F32);
    assert_eq!(picked.channels, 2);
    let configs = vec![
        range(2, SampleFormat::U8),
        range(2, SampleFormat::I16),
        range(2, SampleFormat::F32),
    ];
    let picked = find_stereo_output(configs).expect("config");
    assert_eq!(picked.sample_format, SampleFormat::F32);
}

fn mono_never_wins() {
    let configs = vec![range(1, SampleFormat::F32), range(2, SampleFormat::U8)];
    let picked = find_stereo_input(configs).expect("config");
    assert_eq!(picked.channels, 2);
    assert_eq!(picked.sample_format, SampleFormat::U8);
}

fn dsd_stereo_is_skipped() {
    let configs = vec![range(2, SampleFormat::DsdU8), range(1, SampleFormat::F32)];
    let picked = find_stereo_input(configs).expect("config");
    assert_ne!(picked.sample_format, SampleFormat::DsdU8);
}

fn empty_selects_nothing() {
    let picked = find_stereo_input(Vec::new());
    assert!(picked.is_none());
    let picked = find_stereo_output(Vec::new());
    assert!(picked.is_none());
}

fn tie_keeps_first_range() {
    let first = range_at(2, 44100, 48000, SampleFormat::F32);
    let second = range_at(2, 8000, 96000, SampleFormat::F32);
    let picked = find_stereo_output(vec![first, second]).expect("config");
    assert_eq!(picked.max_sample_rate, 48000);
}

#[test]
fn audio_fidelity_ordering_prefers_float_then_width_then_signed() {
    ordering_prefers_float_then_width_then_signed();
}

#[test]
fn config_fidelity_ordering_prefers_float_then_width_then_signed() {
    ordering_prefers_float_then_width_then_signed();
}

#[test]
fn audio_packed_and_dsd_formats_are_unusable() {
    packed_and_dsd_are_unusable();
}

#[test]
fn config_packed_and_dsd_formats_are_unusable() {
    packed_and_dsd_are_unusable();
}

#[test]
fn audio_u8_first_list_selects_f32() {
    u8_first_selects_f32();
}

#[test]
fn config_u8_first_list_selects_f32() {
    u8_first_selects_f32();
}

#[test]
fn audio_mono_configs_never_win_over_stereo() {
    mono_never_wins();
}

#[test]
fn config_mono_configs_never_win_over_stereo() {
    mono_never_wins();
}

#[test]
fn audio_dsd_stereo_is_skipped_for_fallback() {
    dsd_stereo_is_skipped();
}

#[test]
fn config_dsd_stereo_is_skipped_for_fallback() {
    dsd_stereo_is_skipped();
}

#[test]
fn audio_empty_list_selects_nothing() {
    empty_selects_nothing();
}

#[test]
fn config_empty_list_selects_nothing() {
    empty_selects_nothing();
}

#[test]
fn audio_fidelity_tie_keeps_first_range() {
    tie_keeps_first_range();
}

#[test]
fn config_fidelity_tie_keeps_first_range() {
    tie_keeps_first_range();
}

#[test]
fn buffer_size_is_the_nearest_possible() {
    let size = |min, max| callback_buffer_size(&SupportedBufferSize::Range { min, max });
    assert_eq!(size(64, 1024), BufferSize::Fixed(480));
    assert_eq!(size(512, 1024), BufferSize::Fixed(512));
    assert_eq!(size(64, 256), BufferSize::Fixed(256));
    assert_eq!(
        callback_buffer_size(&SupportedBufferSize::Unknown),
        BufferSize::Default
    );
}

#[test]
fn streams_are_opened_at_the_pipeline_rate_or_below() {
    let ranges = vec![range_at(2, 8000, 44100, SampleFormat::I16)];
    let (format, config) = get_input_config(ranges).expect("config");
    assert_eq!(format, SampleFormat::I16);
    assert_eq!(config.sample_rate, 44100);
    assert_eq!(config.channels, 2);
    assert_eq!(config.buffer_size, BufferSize::Default);
    let ranges = vec![range_at(2, 8000, 192000, SampleFormat::F32)];
    let (_, config) = get_output_config(ranges).expect("config");
    assert_eq!(config.sample_rate, 48000);
    assert_eq!(get_input_config(Vec::new()), Err("No supported input config"));
    assert_eq!(
        get_output_config(Vec::new()),
        Err("No supported output config")
    );
}

#[test]
fn xruns_and_other_errors_are_counted_separately() {
    let input = Counters::new();
    let output = Counters::new();
    let input_before = input.snapshot();
    let output_before = output.snapshot();
    input.note(ErrorKind::Xrun);
    input.note(ErrorKind::Xrun);
    input.note(ErrorKind::RealtimeDenied);
    output.note(ErrorKind::DeviceNotAvailable);
    assert_eq!(
        input.snapshot().since(input_before),
        StreamErrorCounts { xruns: 2, other: 1 }
    );
    assert_eq!(
        output.snapshot().since(output_before),
        StreamErrorCounts { xruns: 0, other: 1 }
    );
}

#[test]
fn since_saturates_and_reports_zero() {
    let later = StreamErrorCounts { xruns: 1, other: 1 };
    let earlier = StreamErrorCounts { xruns: 3, other: 5 };
    assert!(later.since(earlier).is_zero());
    assert!(!earlier.since(later).is_zero());
}

#[test]
fn fatal_input_wakes_but_live_kinds_stay_silent() {
    let counters = Counters::new();
    assert!(counters.note(ErrorKind::DeviceNotAvailable));
    for kind in [
        ErrorKind::Xrun,
        ErrorKind::DeviceChanged,
        ErrorKind::RealtimeDenied,
    ] {
        assert!(!counters.note(kind));
    }
}

#[test]
fn fatal_output_wakes_but_live_kinds_stay_silent() {
    let counters = Counters::default();
    assert!(counters.note(ErrorKind::StreamInvalidated));
    for kind in [
        ErrorKind::Xrun,
        ErrorKind::DeviceChanged,
        ErrorKind::RealtimeDenied,
    ] {
        assert!(!counters.note(kind));
    }
    assert!(is_fatal(ErrorKind::Other));
    assert_eq!(StreamErrorCounts::default().since(counters.snapshot()), StreamErrorCounts::default());
}
