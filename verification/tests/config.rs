use insanity::audio::config::AudioPipelineConfig;

#[test]
fn default_pins_current_behavior() {
    let audio_config = AudioPipelineConfig::default();
    assert_eq!(audio_config.sample_rate(), 48000);
    assert_eq!(audio_config.channels(), 2);
    assert_eq!(audio_config.frames(), 480);
    assert_eq!(audio_config.jitter_chunks(), 10);
    assert_eq!(
        audio_config.chunk_period(),
        std::time::Duration::from_millis(10)
    );
    assert_eq!(audio_config.block_samples(), 960);
}

#[test]
fn zero_sample_rate_rejected() {
    assert_eq!(
        AudioPipelineConfig::try_new(0, 2, 480, 10),
        Err("sample_rate must be > 0")
    );
}

#[test]
fn zero_channels_rejected() {
    assert_eq!(
        AudioPipelineConfig::try_new(48000, 0, 480, 10),
        Err("channels must be > 0")
    );
}

#[test]
fn zero_frames_rejected() {
    assert_eq!(
        AudioPipelineConfig::try_new(48000, 2, 0, 10),
        Err("frames must be > 0")
    );
}

#[test]
fn zero_jitter_chunks_rejected() {
    assert_eq!(
        AudioPipelineConfig::try_new(48000, 2, 480, 0),
        Err("jitter_chunks must be > 0")
    );
}

#[test]
fn nanos_precision_preserved() {
    let audio_config = AudioPipelineConfig::try_new(44100, 2, 480, 10).expect("valid config");
    assert_eq!(
        audio_config.chunk_period(),
        std::time::Duration::from_nanos(10_884_353)
    );
}

#[test]
fn zero_period_rejected() {
    assert_eq!(
        AudioPipelineConfig::try_new(u32::MAX, 2, 1, 10),
        Err("frames/sample_rate yields zero period")
    );
}

#[test]
fn overlong_period_rejected() {
    assert_eq!(
        AudioPipelineConfig::try_new(1, 2, usize::MAX, 10),
        Err("period overflows")
    );
}

#[test]
fn jitter_depth_can_be_changed() {
    let config = AudioPipelineConfig::default();
    let deeper = config.with_jitter_chunks(25).expect("valid config");
    assert_eq!(deeper.jitter_chunks(), 25);
    assert_eq!(deeper.frames(), config.frames());
    assert_eq!(deeper.audio_format(), config.audio_format());
    assert_eq!(
        config.with_jitter_chunks(0),
        Err("jitter_chunks must be > 0")
    );
}
