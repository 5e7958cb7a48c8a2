//! The decisions of an audio output on the Windows audio session interface.
use crate::audio::{
    apply_volume, at_volume, empty_line, law_volume, normal_volume, normalize_volume, AudioClockSnapshot,
    AudioError, AudioOutputState, AudioPushResult, AudioRingBuffer, AudioRingBufferConfig,
    AudioRingBufferStats, Result, RingModel,
};
use crate::ffmpeg::pcm::{PcmAudioFrame, PcmFormat};
use crate::float_bits::{Single, SINGLE_ONE};
use crate::text::{chars_of, extend_str, string_of};
use crate::time::span_view;
use vstd::prelude::*;

verus! {

/// How an output queues its samples.
#[derive(Debug, Clone, Copy, PartialEq, Eq, Structural)]
pub struct WasapiAudioConfig {
    pub ring_buffer: AudioRingBufferConfig,
}

impl Default for WasapiAudioConfig {
    fn default() -> (result: Self)
        ensures
            result.ring_buffer == (AudioRingBufferConfig {
                capacity_frames: 96_000,
                drop_oldest_on_overflow: true,
            }),
    {
        Self {
            ring_buffer: AudioRingBufferConfig {
                capacity_frames: 96_000,
                drop_oldest_on_overflow: true,
            },
        }
    }
}

/// A wave format as the device takes it.
#[derive(Debug, Clone, Copy, PartialEq, Eq, Structural)]
pub struct WaveFormat {
    pub format_tag: u16,
    pub channels: u16,
    pub samples_per_sec: u32,
    pub avg_bytes_per_sec: u32,
    pub block_align: u16,
    pub bits_per_sample: u16,
    pub size: u16,
}

/// Describes single-precision samples to the device: four bytes for each.
pub fn pcm_to_wave_format(format: PcmFormat) -> (result: WaveFormat)
    requires
        format.channels % 0x1_0000 <= 0x3fff,
        format.sample_rate * (format.channels % 0x1_0000 * 4) <= u32::MAX,
    ensures
        result == (WaveFormat {
            format_tag: 3,
            channels: (format.channels % 0x1_0000) as u16,
            samples_per_sec: format.sample_rate,
            avg_bytes_per_sec: (format.sample_rate * (format.channels % 0x1_0000 * 4)) as u32,
            block_align: (format.channels % 0x1_0000 * 4) as u16,
            bits_per_sample: 32,
            size: 0,
        }),
{
    let channels: u16 = (format.channels % 0x1_0000) as u16;
    let block_align: u16 = channels * 4;
    WaveFormat {
        format_tag: 3,
        channels,
        samples_per_sec: format.sample_rate,
        avg_bytes_per_sec: format.sample_rate * block_align as u32,
        block_align,
        bits_per_sample: 32,
        size: 0,
    }
}

// ---------------------------------------------------------------------------
// Render loop
// ---------------------------------------------------------------------------

/// What the render loop waits for.
#[derive(Debug, Clone, Copy, PartialEq, Eq, Structural)]
pub enum RenderState {
    /// The next turn of the loop.
    Idle,
    /// The device buffer for some frames.
    AwaitingBuffer { frames: u32 },
    /// The queue of the output.
    AwaitingQueue { frames: u32 },
    /// The device to take the buffer back.
    AwaitingRelease,
}

/// What happened.
#[derive(Debug, Clone, Copy, PartialEq, Eq, Structural)]
pub enum RenderEvent {
    /// The loop starts a turn.
    Turn {
        /// Whether the output is shutting down.
        shutdown: bool,
        /// Whether the device is there.
        has_device: bool,
        /// The frames that wait in the device, if it tells.
        padding: Option<u32>,
    },
    /// The device gave its buffer, or did not.
    Buffer { given: bool },
    /// The queue is at hand, or is lost.
    Queue { at_hand: bool },
    /// The device took the buffer back, or did not.
    Released { taken: bool },
}

/// What the loop does.
#[derive(Debug, Clone, Copy, PartialEq, Eq, Structural)]
pub enum RenderAction {
    /// Ends.
    Exit,
    /// Sleeps, then starts a turn.
    Sleep { millis: u64 },
    /// Asks the device for its buffer.
    GetBuffer { frames: u32 },
    /// Asks for the queue.
    LockQueue,
    /// Fills the buffer and hands it back.
    Render { frames: u32, samples: usize },
    /// Hands the buffer back unfilled and ends.
    ReleaseAndExit { frames: u32 },
}

/// The loop that carries samples from the queue to the device.
#[derive(Debug, Clone, Copy, PartialEq, Eq, Structural)]
pub struct WasapiRenderLoop {
    pub frame_size: u32,
    pub channels: u32,
    pub state: RenderState,
}

impl WasapiRenderLoop {
    /// Whether the samples of a full device buffer can be held.
    pub open spec fn is_sound(self) -> bool {
        &&& self.frame_size * self.channels <= usize::MAX
        &&& self.state matches RenderState::AwaitingBuffer { frames } ==> frames <= self.frame_size
        &&& self.state matches RenderState::AwaitingQueue { frames } ==> frames <= self.frame_size
    }

    /// What the loop does on an event, and what it waits for then. A turn asks
    /// for as many frames as the device has room for.
    pub open spec fn decide(self, event: RenderEvent) -> (RenderState, RenderAction) {
        match event {
            RenderEvent::Turn { shutdown, has_device, padding } => if shutdown || !has_device {
                (RenderState::Idle, RenderAction::Exit)
            } else {
                match padding {
                    None => (RenderState::Idle, RenderAction::Sleep { millis: 10 }),
                    Some(padding) => if padding >= self.frame_size {
                        (RenderState::Idle, RenderAction::Sleep { millis: 1 })
                    } else {
                        let frames = (self.frame_size - padding) as u32;
                        (
                            RenderState::AwaitingBuffer { frames },
                            RenderAction::GetBuffer { frames },
                        )
                    },
                }
            },
            RenderEvent::Buffer { given } => match self.state {
                RenderState::AwaitingBuffer { frames } => if given {
                    (RenderState::AwaitingQueue { frames }, RenderAction::LockQueue)
                } else {
                    (RenderState::Idle, RenderAction::Sleep { millis: 1 })
                },
                _ => (self.state, RenderAction::Sleep { millis: 1 }),
            },
            RenderEvent::Queue { at_hand } => match self.state {
                RenderState::AwaitingQueue { frames } => if at_hand {
                    (
                        RenderState::AwaitingRelease,
                        RenderAction::Render {
                            frames,
                            samples: (frames * self.channels) as usize,
                        },
                    )
                } else {
                    (RenderState::Idle, RenderAction::ReleaseAndExit { frames })
                },
                _ => (self.state, RenderAction::Sleep { millis: 1 }),
            },
            RenderEvent::Released { taken } => (
                RenderState::Idle,
                RenderAction::Sleep { millis: if taken { 1 } else { 2 } },
            ),
        }
    }

    /// A loop before its first turn. Without a format it counts two channels.
    pub fn new(frame_size: u32, format: Option<PcmFormat>) -> (result: Self)
        ensures
            result.frame_size == frame_size,
            result.channels == (match format {
                Some(format) => format.channels,
                None => 2,
            }),
            result.state == RenderState::Idle,
    {
        let channels: u32 = match format {
            Some(format) => format.channels,
            None => 2,
        };
        Self { frame_size, channels, state: RenderState::Idle }
    }

    /// Takes an event and tells what to do.
    pub fn step(&mut self, event: RenderEvent) -> (result: RenderAction)
        requires
            old(self).is_sound(),
        ensures
            final(self).is_sound(),
            final(self).frame_size == old(self).frame_size,
            final(self).channels == old(self).channels,
            (final(self).state, result) == old(self).decide(event),
    {
        match event {
            RenderEvent::Turn { shutdown, has_device, padding } => {
                self.state = RenderState::Idle;
                if shutdown || !has_device {
                    return RenderAction::Exit;
                }
                match padding {
                    None => RenderAction::Sleep { millis: 10 },
                    Some(padding) => {
                        if padding >= self.frame_size {
                            RenderAction::Sleep { millis: 1 }
                        } else {
                            let frames: u32 = self.frame_size - padding;
                            self.state = RenderState::AwaitingBuffer { frames };
                            RenderAction::GetBuffer { frames }
                        }
                    },
                }
            },
            RenderEvent::Buffer { given } => match self.state {
                RenderState::AwaitingBuffer { frames } => {
                    if given {
                        self.state = RenderState::AwaitingQueue { frames };
                        RenderAction::LockQueue
                    } else {
                        self.state = RenderState::Idle;
                        RenderAction::Sleep { millis: 1 }
                    }
                },
                _ => RenderAction::Sleep { millis: 1 },
            },
            RenderEvent::Queue { at_hand } => match self.state {
                RenderState::AwaitingQueue { frames } => {
                    if at_hand {
                        self.state = RenderState::AwaitingRelease;
                        assert(frames * self.channels <= self.frame_size * self.channels)
                            by (nonlinear_arith)
                            requires
                                frames <= self.frame_size,
                        ;
                        RenderAction::Render {
                            frames,
                            samples: frames as usize * self.channels as usize,
                        }
                    } else {
                        self.state = RenderState::Idle;
                        RenderAction::ReleaseAndExit { frames }
                    }
                },
                _ => RenderAction::Sleep { millis: 1 },
            },
            RenderEvent::Released { taken } => {
                self.state = RenderState::Idle;
                RenderAction::Sleep {
                    millis: if taken {
                        1
                    } else {
                        2
                    },
                }
            },
        }
    }
}

/// Fills the samples for the device: those of the queue at a volume, or silence
/// where the queue has no format.
pub fn render_samples(buffer: &mut AudioRingBuffer, volume: Single, output: &mut [Single])
    requires
        old(buffer)@.is_sound(),
        old(buffer)@.has_room_to_read(old(output)@.len()),
    ensures
        final(buffer)@.is_sound(),
        final(output)@.len() == old(output)@.len(),
        match old(buffer)@.format {
            None => {
                &&& final(buffer)@ == old(buffer)@
                &&& forall|i: int|
                    0 <= i < old(output)@.len() ==> (#[trigger] final(output)@[i]).bits == 0
            },
            Some(format) => {
                let requested = old(output)@.len() / format.channels as nat;
                let samples = old(buffer)@.read_frames(requested) * format.channels;
                &&& final(buffer)@ == old(buffer)@.drained(format, requested)
                &&& forall|i: int|
                    0 <= i < old(output)@.len() ==> #[trigger] final(output)@[i] == at_volume(
                        if i < samples {
                            old(buffer)@.samples[i]
                        } else {
                            (Single { bits: 0 })
                        },
                        volume,
                    )
            },
        },
{
    let size: usize = output.len();
    let mut i: usize = 0;
    while i < size
        invariant
            i <= size == output@.len(),
            size == old(output)@.len(),
            forall|k: int| 0 <= k < i ==> (#[trigger] output@[k]).bits == 0,
        decreases size - i,
    {
        output[i] = Single { bits: 0 };
        i += 1;
    }
    if buffer.read_interleaved(output).is_ok() {
        apply_volume(output, volume);
    }
}

// ---------------------------------------------------------------------------
// Output
// ---------------------------------------------------------------------------

/// What is asked of the device.
#[derive(Debug, Clone, Copy, PartialEq, Eq, Structural)]
pub enum WasapiStep {
    CreateEnumerator,
    GetEndpoint,
    Activate,
    Initialize,
    GetBufferSize,
    GetRenderClient,
    Start,
    Stop,
}

/// What is told of a step that failed.
pub open spec fn step_text(step: WasapiStep) -> Seq<char> {
    match step {
        WasapiStep::CreateEnumerator => "failed to create device enumerator"@,
        WasapiStep::GetEndpoint => "failed to get default audio endpoint"@,
        WasapiStep::Activate => "failed to activate audio client"@,
        WasapiStep::Initialize => "failed to initialize audio client"@,
        WasapiStep::GetBufferSize => "failed to get buffer size"@,
        WasapiStep::GetRenderClient => "failed to get render client"@,
        WasapiStep::Start => "failed to start audio client"@,
        WasapiStep::Stop => "failed to stop audio client"@,
    }
}

/// Whether an error tells of a step that failed, and why.
pub open spec fn is_refusal(error: AudioError, step: WasapiStep, reason: Seq<char>) -> bool {
    error matches AudioError::Backend(text) && text@ == step_text(step) + ": "@ + reason
}

/// The error of a step that failed.
pub fn device_error(step: WasapiStep, reason: &str) -> (result: AudioError)
    ensures
        is_refusal(result, step, reason@),
{
    let mut text = chars_of(
        match step {
            WasapiStep::CreateEnumerator => "failed to create device enumerator",
            WasapiStep::GetEndpoint => "failed to get default audio endpoint",
            WasapiStep::Activate => "failed to activate audio client",
            WasapiStep::Initialize => "failed to initialize audio client",
            WasapiStep::GetBufferSize => "failed to get buffer size",
            WasapiStep::GetRenderClient => "failed to get render client",
            WasapiStep::Start => "failed to start audio client",
            WasapiStep::Stop => "failed to stop audio client",
        },
    );
    extend_str(&mut text, ": ");
    extend_str(&mut text, reason);
    AudioError::Backend(string_of(&text))
}

/// What came of asking the device for something: why it failed, if it did.
pub type DeviceOutcome<T> = core::result::Result<T, (WasapiStep, String)>;

/// The loop that an output starts.
#[derive(Debug, Clone, Copy, PartialEq, Eq, Structural)]
pub struct RenderStart {
    pub frame_size: u32,
    pub format: Option<PcmFormat>,
}

/// An output on a device: its queue, and what is known of the device.
#[derive(Debug)]
pub struct WasapiAudioOutput {
    buffer: AudioRingBuffer,
    volume: Single,
    state: AudioOutputState,
    format: Option<PcmFormat>,
    frame_size: u32,
    has_device: bool,
    is_rendering: bool,
}

/// An output with its queue as a model.
pub struct OutputModel {
    pub queue: RingModel,
    pub volume: Single,
    pub state: AudioOutputState,
    pub format: Option<PcmFormat>,
    pub frame_size: u32,
    pub has_device: bool,
    pub is_rendering: bool,
}

impl View for WasapiAudioOutput {
    type V = OutputModel;

    closed spec fn view(&self) -> OutputModel {
        OutputModel {
            queue: self.buffer@,
            volume: self.volume,
            state: self.state,
            format: self.format,
            frame_size: self.frame_size,
            has_device: self.has_device,
            is_rendering: self.is_rendering,
        }
    }
}

impl WasapiAudioOutput {
    /// A stopped output at full volume, without a device.
    pub fn new(config: WasapiAudioConfig) -> (result: Self)
        ensures
            result@.queue.is_sound(),
            result@ == (OutputModel {
                queue: RingModel {
                    config: config.ring_buffer,
                    format: None,
                    samples: Seq::empty(),
                    line: empty_line(),
                    written: 0,
                    read: 0,
                    dropped: 0,
                    underflow: 0,
                },
                volume: Single { bits: SINGLE_ONE },
                state: AudioOutputState::Stopped,
                format: None,
                frame_size: 0,
                has_device: false,
                is_rendering: false,
            }),
    {
        Self {
            buffer: AudioRingBuffer::new(config.ring_buffer),
            volume: Single { bits: SINGLE_ONE },
            state: AudioOutputState::Stopped,
            format: None,
            frame_size: 0,
            has_device: false,
            is_rendering: false,
        }
    }

    /// Takes samples of a format from now on, given what came of opening a device
    /// for it: the size of its buffer. The device is kept even where the queue
    /// cannot take the format.
    pub fn configure(&mut self, format: PcmFormat, device: DeviceOutcome<u32>) -> (result: Result<()>)
        ensures
            match device {
                Err((step, reason)) => {
                    &&& result matches Err(error) && is_refusal(error, step, reason@)
                    &&& final(self)@ == old(self)@
                },
                Ok(frame_size) => {
                    &&& final(self)@ == (OutputModel {
                        queue: if format.channels > 0 {
                            old(self)@.queue.configured(format)
                        } else {
                            old(self)@.queue
                        },
                        format: Some(format),
                        frame_size,
                        has_device: true,
                        ..old(self)@
                    })
                    &&& result is Ok <==> format.channels > 0
                    &&& result matches Err(error) ==> error == AudioError::InvalidChannelCount
                    &&& result is Ok ==> final(self)@.queue.is_sound()
                },
            },
    {
        match device {
            Err((step, reason)) => Err(device_error(step, reason.as_str())),
            Ok(frame_size) => {
                self.has_device = true;
                self.frame_size = frame_size;
                self.format = Some(format);
                self.buffer.configure(format)
            },
        }
    }

    /// Plays what is pushed, given what came of starting the device, if there is
    /// one. Tells the loop to start, where none runs.
    pub fn start(&mut self, device: DeviceOutcome<()>) -> (result: Result<Option<RenderStart>>)
        ensures
            if old(self)@.has_device && device is Err {
                &&& result matches Err(error) && is_refusal(
                    error,
                    device->Err_0.0,
                    device->Err_0.1@,
                )
                &&& final(self)@ == old(self)@
            } else {
                &&& result matches Ok(start) && start == (if old(self)@.is_rendering {
                    None
                } else {
                    Some(
                        RenderStart {
                            frame_size: old(self)@.frame_size,
                            format: old(self)@.format,
                        },
                    )
                })
                &&& final(self)@ == (OutputModel {
                    state: AudioOutputState::Playing,
                    is_rendering: true,
                    ..old(self)@
                })
            },
    {
        if self.has_device {
            if let Err((step, reason)) = device {
                return Err(device_error(step, reason.as_str()));
            }
        }
        self.state = AudioOutputState::Playing;
        if self.is_rendering {
            return Ok(None);
        }
        self.is_rendering = true;
        Ok(Some(RenderStart { frame_size: self.frame_size, format: self.format }))
    }

    /// Holds what is pushed, given what came of stopping the device, if there is
    /// one.
    pub fn pause(&mut self, device: DeviceOutcome<()>) -> (result: Result<()>)
        ensures
            if old(self)@.has_device && device is Err {
                &&& result matches Err(error) && is_refusal(
                    error,
                    device->Err_0.0,
                    device->Err_0.1@,
                )
                &&& final(self)@ == old(self)@
            } else {
                &&& result is Ok
                &&& final(self)@ == (OutputModel { state: AudioOutputState::Paused, ..old(self)@ })
            },
    {
        if self.has_device {
            if let Err((step, reason)) = device {
                return Err(device_error(step, reason.as_str()));
            }
        }
        self.state = AudioOutputState::Paused;
        Ok(())
    }

    /// Stops the output, whose loop has ended. The queue stays as it is. Tells
    /// whether there is a device to stop.
    pub fn stop(&mut self) -> (result: bool)
        ensures
            result == old(self)@.has_device,
            final(self)@ == (OutputModel {
                state: AudioOutputState::Stopped,
                is_rendering: false,
                ..old(self)@
            }),
    {
        self.is_rendering = false;
        self.state = AudioOutputState::Stopped;
        self.has_device
    }

    /// Sets the volume, held between zero and one.
    pub fn set_volume(&mut self, volume: Single)
        ensures
            final(self)@ == (OutputModel { volume: normal_volume(volume), ..old(self)@ }),
    {
        self.volume = normalize_volume(volume);
    }

    /// The volume.
    pub fn volume(&self) -> (result: Single)
        ensures
            result == self@.volume,
    {
        self.volume
    }

    /// What the output does.
    pub fn state(&self) -> (result: AudioOutputState)
        ensures
            result == self@.state,
    {
        self.state
    }

    /// Appends samples to the queue.
    pub fn push(&mut self, frame: PcmAudioFrame) -> (result: Result<AudioPushResult>)
        requires
            old(self)@.queue.is_sound(),
            old(self)@.queue.has_room_for(frame.format, span_view(frame.pts), frame.samples@.len()),
        ensures
            final(self)@.queue.is_sound(),
            final(self)@ == (OutputModel { queue: final(self)@.queue, ..old(self)@ }),
            match old(self)@.queue.format {
                Some(format) => if format != frame.format {
                    &&& result matches Err(error) && error == (AudioError::FormatChanged {
                        expected: format,
                        actual: frame.format,
                    })
                    &&& final(self)@ == old(self)@
                } else {
                    &&& result is Ok
                    &&& final(self)@.queue == old(self)@.queue.pushed(
                        frame.format,
                        span_view(frame.pts),
                        frame.samples@,
                    )
                },
                None => if frame.format.channels == 0 {
                    &&& result matches Err(error) && error == AudioError::InvalidChannelCount
                    &&& final(self)@ == old(self)@
                } else {
                    &&& result is Ok
                    &&& final(self)@.queue == old(self)@.queue.configured(frame.format).pushed(
                        frame.format,
                        span_view(frame.pts),
                        frame.samples@,
                    )
                },
            },
            result matches Ok(pushed) ==> {
                let incoming = frame.samples@.len() / frame.format.channels as nat;
                &&& pushed.accepted_frames == old(self)@.queue.accepted_frames(incoming)
                &&& pushed.dropped_frames == old(self)@.queue.lost_frames(incoming)
            },
    {
        self.buffer.push_frame(frame)
    }

    /// What went through the queue.
    pub fn stats(&self) -> (result: AudioRingBufferStats)
        requires
            self@.queue.is_sound(),
        ensures
            result.queued_frames == self@.queue.queued(),
            result.queued_samples == self@.queue.samples.len(),
            result.written_frames == self@.queue.written,
            result.read_frames == self@.queue.read,
            result.dropped_frames == self@.queue.dropped,
            result.underflow_frames == self@.queue.underflow,
    {
        self.buffer.stats()
    }

    /// Where playback stands.
    pub fn clock_snapshot(&self) -> (result: AudioClockSnapshot)
        requires
            self@.queue.is_sound(),
            self@.queue.can_tell_time(),
        ensures
            span_view(result.media_time) == self@.queue.line.media_time(),
            span_view(result.queued_duration) == self@.queue.queued_nanos(),
            result.queued_frames == self@.queue.queued(),
            result.read_frames == self@.queue.read,
            result.written_frames == self@.queue.written,
            result.underflow_frames == self@.queue.underflow,
    {
        self.buffer.clock_snapshot()
    }

    /// Whether so many samples can be filled.
    pub fn can_render(&self, samples: usize) -> (result: bool)
        requires
            self@.queue.is_sound(),
        ensures
            result == self@.queue.has_room_to_read(samples as nat),
    {
        self.buffer.can_read(samples)
    }

    /// Fills samples for the device, at the volume that the turn of the loop began
    /// with.
    pub fn render(&mut self, volume: Single, output: &mut [Single])
        requires
            old(self)@.queue.is_sound(),
            old(self)@.queue.has_room_to_read(old(output)@.len()),
        ensures
            final(self)@.queue.is_sound(),
            final(output)@.len() == old(output)@.len(),
            final(self)@ == (OutputModel {
                queue: match old(self)@.queue.format {
                    None => old(self)@.queue,
                    Some(format) => old(self)@.queue.drained(
                        format,
                        old(output)@.len() / format.channels as nat,
                    ),
                },
                ..old(self)@
            }),
            forall|i: int|
                0 <= i < old(output)@.len() ==> #[trigger] final(output)@[i]
                    == old(self)@.sample_for_device(i, old(output)@.len(), volume),
    {
        render_samples(&mut self.buffer, volume, output);
    }
}

impl OutputModel {
    /// What the device gets at a place of its buffer.
    pub open spec fn sample_for_device(self, i: int, wanted: nat, volume: Single) -> Single {
        match self.queue.format {
            None => Single { bits: 0 },
            Some(format) => {
                let samples = self.queue.read_frames(wanted / format.channels as nat)
                    * format.channels;
                at_volume(
                    if i < samples {
                        self.queue.samples[i]
                    } else {
                        Single { bits: 0 }
                    },
                    volume,
                )
            },
        }
    }
}

impl OutputModel {
    /// The device hears the samples of the queue in their order, and at full volume as
    /// they are. Behind the last frame it hears nothing, nor without a format.
    pub proof fn law_device_hears_the_queue(self, i: int, wanted: nat, volume: Single)
        requires
            0 <= i < wanted,
            volume.bits == SINGLE_ONE,
        ensures
            self.queue.format is None ==> self.sample_for_device(i, wanted, volume).bits == 0,
            self.queue.format matches Some(format) ==> {
                let samples = self.queue.read_frames(wanted / format.channels as nat)
                    * format.channels;
                &&& i < samples ==> self.sample_for_device(i, wanted, volume)
                    == self.queue.samples[i]
                &&& i >= samples ==> self.sample_for_device(i, wanted, volume).bits == 0
            },
    {
        law_volume(volume, self.queue.samples[i]);
        law_volume(volume, Single { bits: 0 });
    }
}

} // verus!
