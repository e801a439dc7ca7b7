use insanity::audio::config::AudioPipelineConfig;
use insanity::audio::device::unknown_device;
use insanity::audio::input::build_silence;
use insanity::audio::output::{
    demand_sleep, MAX_FILL_SLEEP_NANOS, MIN_FILL_SLEEP_NANOS, TARGET_RING_BLOCKS,
};
use insanity::audio::stream_config::{output_format, BufferSize, StreamConfig};
use insanity::audio::time::mesh_timeout;
use insanity::audio::AudioFormat;
use std::time::Duration;

const BLOCK: usize = 960;
const CAPACITY: usize = BLOCK * 8;
const CHANNELS: usize = 2;
const RATE: u32 = 48000;
const MIN_FILL_SLEEP: Duration = Duration::from_nanos(MIN_FILL_SLEEP_NANOS);
const MAX_FILL_SLEEP: Duration = Duration::from_nanos(MAX_FILL_SLEEP_NANOS);

#[test]
fn sleep_bounds_are_milliseconds() {
    assert_eq!(MIN_FILL_SLEEP, Duration::from_millis(2));
    assert_eq!(MAX_FILL_SLEEP, Duration::from_millis(30));
}

#[test]
fn empty_ring_waits_minimum() {
    assert_eq!(
        demand_sleep(CAPACITY, CAPACITY, BLOCK, CHANNELS, RATE),
        MIN_FILL_SLEEP
    );
}

#[test]
fn at_target_waits_minimum() {
    let target = BLOCK * TARGET_RING_BLOCKS;
    assert_eq!(
        demand_sleep(CAPACITY, CAPACITY - target, BLOCK, CHANNELS, RATE),
        MIN_FILL_SLEEP
    );
}

#[test]
fn one_block_above_target_waits_one_block_period() {
    let occupied = BLOCK * (TARGET_RING_BLOCKS + 1);
    assert_eq!(
        demand_sleep(CAPACITY, CAPACITY - occupied, BLOCK, CHANNELS, RATE),
        Duration::from_millis(10)
    );
}

#[test]
fn far_above_target_clamps_to_maximum() {
    let occupied = BLOCK * 6;
    assert_eq!(
        demand_sleep(CAPACITY, CAPACITY - occupied, BLOCK, CHANNELS, RATE),
        MAX_FILL_SLEEP
    );
}

#[test]
fn full_ring_waits_maximum() {
    assert_eq!(
        demand_sleep(CAPACITY, 0, BLOCK, CHANNELS, RATE),
        MAX_FILL_SLEEP
    );
    assert_eq!(
        demand_sleep(CAPACITY, BLOCK - 1, BLOCK, CHANNELS, RATE),
        MAX_FILL_SLEEP
    );
}

#[test]
fn degenerate_params_wait_maximum() {
    assert_eq!(
        demand_sleep(CAPACITY, CAPACITY, 0, CHANNELS, RATE),
        MAX_FILL_SLEEP
    );
    assert_eq!(
        demand_sleep(CAPACITY, CAPACITY, BLOCK, 0, RATE),
        MAX_FILL_SLEEP
    );
    assert_eq!(
        demand_sleep(CAPACITY, CAPACITY, BLOCK, CHANNELS, 0),
        MAX_FILL_SLEEP
    );
}

#[test]
fn mesh_timeout_grows_with_rounds_and_edges() {
    assert_eq!(mesh_timeout(0, 3), Duration::from_secs(5));
    assert_eq!(mesh_timeout(2, 3), Duration::from_millis(8200));
    assert_eq!(mesh_timeout(1, 0), Duration::from_millis(5100));
}

#[test]
fn outputs_without_a_stream_use_the_pipeline_format() {
    assert_eq!(output_format(None), AudioFormat::new(2, 48000));
    let config = StreamConfig {
        channels: 1,
        sample_rate: 44100,
        buffer_size: BufferSize::Default,
    };
    assert_eq!(output_format(Some(config)), AudioFormat::new(1, 44100));
}

#[test]
fn missing_devices_are_named() {
    assert_eq!(
        unknown_device("output", "no-such-device", "No Such Device"),
        "Unknown output device id: no-such-device, name: No Such Device"
    );
    let (silence, name) = build_silence(AudioPipelineConfig::default());
    assert_eq!(name, "No input device");
    assert_eq!(silence.format, AudioFormat::new(2, 48000));
    assert_eq!(silence.frames, 480);
}
