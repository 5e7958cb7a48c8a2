use erika::audio::wasapi::{
    device_error, pcm_to_wave_format, render_samples, RenderAction, RenderEvent, RenderStart,
    WasapiAudioConfig, WasapiAudioOutput, WasapiRenderLoop, WasapiStep,
};
use erika::audio::{
    apply_volume, normalize_volume, offset_pts, AudioError, AudioOutputBackend, AudioOutputState,
    AudioRingBuffer, AudioRingBufferConfig, BufferedAudioOutput,
};
use erika::ffmpeg::pcm::{PcmAudioFrame, PcmFormat};
use erika::float_bits::Single;
use erika::time::Duration;

fn single(value: f32) -> Single {
    Single {
        bits: value.to_bits(),
    }
}

fn value(sample: Single) -> f32 {
    f32::from_bits(sample.bits)
}

fn values(samples: &[Single]) -> Vec<f32> {
    samples.iter().map(|sample| value(*sample)).collect()
}

fn stereo_format() -> PcmFormat {
    PcmFormat::f32_interleaved(48_000, 2)
}

fn frame(samples: Vec<f32>) -> PcmAudioFrame {
    PcmAudioFrame {
        format: stereo_format(),
        pts: None,
        frames: samples.len() / 2,
        samples: samples.into_iter().map(single).collect(),
    }
}

fn timed_frame(pts: Duration, frames: usize) -> PcmAudioFrame {
    PcmAudioFrame {
        format: stereo_format(),
        pts: Some(pts),
        frames,
        samples: vec![single(0.0); frames * 2],
    }
}

#[test]
fn ring_buffer_reads_interleaved_samples_and_zero_fills_underflow() {
    let mut buffer = AudioRingBuffer::with_format(
        AudioRingBufferConfig {
            capacity_frames: 8,
            drop_oldest_on_overflow: true,
        },
        stereo_format(),
    )
    .unwrap();
    buffer.push_frame(frame(vec![0.1, 0.2, 0.3, 0.4])).unwrap();

    let mut output = [single(1.0); 6];
    let result = buffer.read_interleaved(&mut output).unwrap();

    assert_eq!(result.frames, 2);
    assert_eq!(result.underflow_frames, 1);
    assert_eq!(values(&output), [0.1, 0.2, 0.3, 0.4, 0.0, 0.0]);
}

#[test]
fn ring_buffer_drops_oldest_frames_on_overflow() {
    let mut buffer = AudioRingBuffer::with_format(
        AudioRingBufferConfig {
            capacity_frames: 2,
            drop_oldest_on_overflow: true,
        },
        stereo_format(),
    )
    .unwrap();

    let result = buffer
        .push_frame(frame(vec![0.1, 0.2, 0.3, 0.4, 0.5, 0.6]))
        .unwrap();
    let mut output = [single(0.0); 4];
    buffer.read_interleaved(&mut output).unwrap();

    assert_eq!(result.accepted_frames, 2);
    assert_eq!(result.dropped_frames, 1);
    assert_eq!(values(&output), [0.3, 0.4, 0.5, 0.6]);
}

#[test]
fn buffered_audio_output_tracks_state() {
    let mut output = BufferedAudioOutput::new(AudioRingBufferConfig::default());

    output.configure(stereo_format()).unwrap();
    output.start().unwrap();
    assert_eq!(output.state(), AudioOutputState::Playing);
    output.pause().unwrap();
    assert_eq!(output.state(), AudioOutputState::Paused);
    output.stop().unwrap();
    assert_eq!(output.state(), AudioOutputState::Stopped);
}

#[test]
fn volume_helpers_clamp_and_apply_gain() {
    assert_eq!(value(normalize_volume(single(1.0))), 1.0);
    assert_eq!(value(normalize_volume(single(-1.0))), 0.0);
    assert_eq!(value(normalize_volume(single(2.0))), 1.0);
    assert_eq!(value(normalize_volume(single(f32::NAN))), 1.0);

    let mut samples = [1.0, -0.5, 0.25, 0.0].map(single);
    apply_volume(&mut samples, single(0.5));
    assert_eq!(values(&samples), [0.5, -0.25, 0.125, 0.0]);
}

#[test]
fn buffered_audio_output_volume_is_clamped() {
    let mut output = BufferedAudioOutput::new(AudioRingBufferConfig::default());

    assert_eq!(value(output.volume()), 1.0);
    output.set_volume(single(0.25));
    assert_eq!(value(output.volume()), 0.25);
    output.set_volume(single(-1.0));
    assert_eq!(value(output.volume()), 0.0);
    output.set_volume(single(f32::NAN));
    assert_eq!(value(output.volume()), 1.0);
}

#[test]
fn ring_buffer_clock_snapshot_tracks_front_audio_pts() {
    let mut buffer = AudioRingBuffer::with_format(
        AudioRingBufferConfig {
            capacity_frames: 48_000,
            drop_oldest_on_overflow: true,
        },
        stereo_format(),
    )
    .unwrap();
    buffer
        .push_frame(timed_frame(Duration::from_secs(10), 480))
        .unwrap();

    assert_eq!(
        buffer.clock_snapshot().media_time,
        Some(Duration::from_secs(10))
    );

    let mut output = vec![single(0.0); 240 * 2];
    buffer.read_interleaved(&mut output).unwrap();

    assert_eq!(
        buffer.clock_snapshot().media_time,
        Some(Duration::from_millis(10_005))
    );
    assert_eq!(buffer.clock_snapshot().queued_frames, 240);
}

#[test]
fn ring_buffer_clock_survives_frame_drop() {
    let mut buffer = AudioRingBuffer::with_format(
        AudioRingBufferConfig {
            capacity_frames: 2,
            drop_oldest_on_overflow: true,
        },
        stereo_format(),
    )
    .unwrap();
    buffer
        .push_frame(timed_frame(Duration::from_secs(1), 4))
        .unwrap();

    assert_eq!(
        buffer.clock_snapshot().media_time,
        Some(Duration::from_nanos(1_000_041_667))
    );
}

#[test]
fn the_newest_frames_give_way_when_told_so() {
    let mut buffer = AudioRingBuffer::with_format(
        AudioRingBufferConfig {
            capacity_frames: 2,
            drop_oldest_on_overflow: false,
        },
        stereo_format(),
    )
    .unwrap();
    let result = buffer
        .push_frame(frame(vec![0.1, 0.2, 0.3, 0.4, 0.5, 0.6]))
        .unwrap();
    assert_eq!((result.accepted_frames, result.dropped_frames), (2, 1));
    let again = buffer.push_frame(frame(vec![0.7, 0.8])).unwrap();
    assert_eq!((again.accepted_frames, again.dropped_frames), (0, 1));
    let mut output = [single(1.0); 6];
    buffer.read_interleaved(&mut output).unwrap();
    assert_eq!(values(&output), [0.1, 0.2, 0.3, 0.4, 0.0, 0.0]);
    let stats = buffer.stats();
    assert_eq!(stats.written_frames, 2);
    assert_eq!(stats.read_frames, 2);
    assert_eq!(stats.dropped_frames, 2);
    assert_eq!(stats.underflow_frames, 1);
    assert_eq!(stats.queued_samples, 0);
}

#[test]
fn samples_come_out_in_the_order_they_went_in() {
    let mut buffer = AudioRingBuffer::new(AudioRingBufferConfig::default());
    for i in 0..10 {
        buffer
            .push_frame(frame(vec![i as f32, -(i as f32), 0.5, 0.25]))
            .unwrap();
    }
    let mut read = Vec::new();
    for _ in 0..5 {
        let mut output = [single(9.0); 8];
        buffer.read_interleaved(&mut output).unwrap();
        read.extend(values(&output));
    }
    let expected: Vec<f32> = (0..10)
        .flat_map(|i| [i as f32, -(i as f32), 0.5, 0.25])
        .collect();
    assert_eq!(read, expected);
    assert_eq!(buffer.queued_frames(), 0);
}

#[test]
fn the_latest_times_can_be_queued() {
    let config = AudioRingBufferConfig {
        capacity_frames: 4,
        drop_oldest_on_overflow: true,
    };
    let mut buffer = AudioRingBuffer::with_format(config, stereo_format()).unwrap();
    assert!(buffer.can_read(usize::MAX));
    let late = Duration::max_value().saturating_sub(Duration::from_nanos(50_000));
    let pushed = buffer.push_frame(timed_frame(late, 4)).unwrap();
    assert_eq!((pushed.accepted_frames, pushed.dropped_frames), (4, 0));
    assert_eq!(buffer.clock_snapshot().media_time, Some(late));
    assert!(buffer.can_read(4));
    assert!(!buffer.can_read(8));
    let mut output = vec![single(1.0); 4];
    buffer.read_interleaved(&mut output).unwrap();
    let passed = late.checked_add(Duration::from_nanos(41_667));
    assert_eq!(buffer.clock_snapshot().media_time, passed);
    let pushed = buffer.push_frame(timed_frame(Duration::max_value(), 2)).unwrap();
    assert_eq!((pushed.accepted_frames, pushed.dropped_frames), (2, 0));
    assert_eq!(buffer.stats().written_frames, 6);
}

#[test]
fn formats_are_held_to() {
    let mut buffer = AudioRingBuffer::new(AudioRingBufferConfig::default());
    let mut output = [single(1.0); 2];
    assert_eq!(
        buffer.read_interleaved(&mut output),
        Err(AudioError::FormatNotConfigured)
    );
    let silent = PcmFormat::f32_interleaved(48_000, 0);
    assert_eq!(
        AudioRingBuffer::with_format(AudioRingBufferConfig::default(), silent).err(),
        Some(AudioError::InvalidChannelCount)
    );
    assert_eq!(buffer.configure(silent), Err(AudioError::InvalidChannelCount));
    buffer.push_frame(frame(vec![0.0, 0.0])).unwrap();
    let other = PcmAudioFrame {
        format: PcmFormat::f32_interleaved(44_100, 2),
        ..frame(vec![0.0, 0.0])
    };
    assert_eq!(
        buffer.push_frame(other),
        Err(AudioError::FormatChanged {
            expected: stereo_format(),
            actual: PcmFormat::f32_interleaved(44_100, 2),
        })
    );
    assert_eq!(
        buffer.queued_duration(),
        Some(Duration::from_nanos(20_833))
    );
    buffer.clear();
    assert_eq!(buffer.queued_frames(), 0);
    assert_eq!(buffer.format(), Some(stereo_format()));
    assert_eq!(buffer.capacity_frames(), 48_000);
}

#[test]
fn offsets_are_those_of_floating_point() {
    for rate in [1u32, 3, 7_999, 44_100, 48_000, 192_000, u32::MAX] {
        for frames in [0usize, 1, 2, 1023, 44_100, 1_234_567, 4_000_000_001] {
            let expected = std::time::Duration::from_secs_f64(frames as f64 / rate as f64);
            let offset = offset_pts(Duration::zero(), frames, rate).unwrap();
            assert_eq!(offset.as_nanos(), expected.as_nanos(), "{frames} at {rate}");
        }
    }
    assert_eq!(
        offset_pts(Duration::from_secs(1), 5, 0),
        Some(Duration::from_secs(1))
    );
}

#[test]
fn outputs_read_at_their_volume() {
    let mut output = BufferedAudioOutput::new(AudioRingBufferConfig::default());
    output.configure(stereo_format()).unwrap();
    output.push(frame(vec![1.0, -1.0])).unwrap();
    output.set_volume(single(0.5));
    let mut samples = [single(9.0); 4];
    output.read_interleaved(&mut samples).unwrap();
    assert_eq!(values(&samples), [0.5, -0.5, 0.0, 0.0]);
    assert_eq!(output.buffer().stats().read_frames, 1);
    output.buffer_mut().clear();
    assert_eq!(output.stats().underflow_frames, 1);
}

#[test]
fn wave_formats_are_filled_in() {
    let wave = pcm_to_wave_format(stereo_format());
    assert_eq!(wave.channels, 2);
    assert_eq!(wave.samples_per_sec, 48_000);
    assert_eq!(wave.block_align, 8);
    assert_eq!(wave.avg_bytes_per_sec, 384_000);
    assert_eq!(wave.bits_per_sample, 32);
}

#[test]
fn rendering_fills_a_device_buffer() {
    let mut buffer =
        AudioRingBuffer::with_format(AudioRingBufferConfig::default(), stereo_format()).unwrap();
    buffer.push_frame(frame(vec![1.0, 0.5])).unwrap();
    let mut output = [single(9.0); 4];
    render_samples(&mut buffer, single(0.5), &mut output);
    assert_eq!(values(&output), [0.5, 0.25, 0.0, 0.0]);
    let mut without = AudioRingBuffer::new(AudioRingBufferConfig::default());
    let mut output = [single(9.0); 2];
    render_samples(&mut without, single(0.5), &mut output);
    assert_eq!(values(&output), [0.0, 0.0]);
}

#[test]
fn the_render_loop_goes_round() {
    let mut turns = WasapiRenderLoop::new(480, Some(stereo_format()));
    let turn = |padding: Option<u32>| RenderEvent::Turn {
        shutdown: false,
        has_device: true,
        padding,
    };
    assert_eq!(turns.step(turn(None)), RenderAction::Sleep { millis: 10 });
    assert_eq!(turns.step(turn(Some(480))), RenderAction::Sleep { millis: 1 });
    assert_eq!(
        turns.step(turn(Some(80))),
        RenderAction::GetBuffer { frames: 400 }
    );
    assert_eq!(
        turns.step(RenderEvent::Buffer { given: true }),
        RenderAction::LockQueue
    );
    assert_eq!(
        turns.step(RenderEvent::Queue { at_hand: true }),
        RenderAction::Render {
            frames: 400,
            samples: 800
        }
    );
    assert_eq!(
        turns.step(RenderEvent::Released { taken: true }),
        RenderAction::Sleep { millis: 1 }
    );
    assert_eq!(
        turns.step(RenderEvent::Turn {
            shutdown: true,
            has_device: true,
            padding: None
        }),
        RenderAction::Exit
    );
}

#[test]
fn device_outputs_follow_their_device() {
    let mut output = WasapiAudioOutput::new(WasapiAudioConfig::default());
    assert_eq!(output.state(), AudioOutputState::Stopped);
    assert_eq!(value(output.volume()), 1.0);
    let refusal = (WasapiStep::GetEndpoint, "not found".to_string());
    assert_eq!(
        output.configure(stereo_format(), Err(refusal)),
        Err(AudioError::Backend(
            "failed to get default audio endpoint: not found".to_string()
        ))
    );
    let busy = || Err((WasapiStep::Start, "busy".to_string()));
    let without = RenderStart {
        frame_size: 0,
        format: None,
    };
    assert_eq!(output.start(busy()), Ok(Some(without)));
    assert!(!output.stop());

    output.configure(stereo_format(), Ok(480)).unwrap();
    assert_eq!(
        output.start(busy()),
        Err(AudioError::Backend(
            "failed to start audio client: busy".to_string()
        ))
    );
    assert_eq!(output.state(), AudioOutputState::Stopped);
    let with = RenderStart {
        frame_size: 480,
        format: Some(stereo_format()),
    };
    assert_eq!(output.start(Ok(())), Ok(Some(with)));
    assert_eq!(output.start(Ok(())), Ok(None));
    assert_eq!(output.state(), AudioOutputState::Playing);

    output.set_volume(single(0.5));
    let pushed = output.push(frame(vec![0.5, -0.5, 1.0, -1.0])).unwrap();
    assert_eq!(pushed.accepted_frames, 2);
    assert_eq!(output.clock_snapshot().queued_frames, 2);
    let mut samples = vec![single(9.0); 6];
    output.render(output.volume(), &mut samples);
    assert_eq!(values(&samples), vec![0.25, -0.25, 0.5, -0.5, 0.0, 0.0]);
    assert_eq!(output.stats().read_frames, 2);
    assert_eq!(output.stats().underflow_frames, 1);

    let stuck = Err((WasapiStep::Stop, "stuck".to_string()));
    assert_eq!(
        output.pause(stuck),
        Err(device_error(WasapiStep::Stop, "stuck"))
    );
    assert_eq!(output.pause(Ok(())), Ok(()));
    assert_eq!(output.state(), AudioOutputState::Paused);
    output.push(frame(vec![0.5, 0.5])).unwrap();
    assert!(output.stop());
    assert_eq!(output.stats().queued_frames, 1);
    assert_eq!(output.state(), AudioOutputState::Stopped);
    assert_eq!(
        output.configure(PcmFormat::f32_interleaved(48_000, 0), Ok(16)),
        Err(AudioError::InvalidChannelCount)
    );
}
