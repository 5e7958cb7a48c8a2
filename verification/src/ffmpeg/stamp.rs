//! Time stamps, flags and stream selections.
use crate::binary64::{
    as_double, law_ticks_take_whole_seconds, nearest_double, ticks_nanos, ticks_to_nanos,
    ticks_to_seconds,
};
use crate::float_bits::{double_of_digits, encodes, Double};
use crate::media::{TrackInfo, TrackKind};
use crate::time::{span_view, Duration};
use std::collections::BTreeSet;
use vstd::prelude::*;

verus! {

broadcast use vstd::std_specs::btree::group_btree_axioms;

/// What can go wrong with FFmpeg.
#[derive(Debug)]
pub enum FfmpegError {
    /// A path that holds a zero byte.
    InteriorNul,
    /// A refusal of the library.
    Api { operation: &'static str, code: i32, message: String },
    /// An object that is not there.
    NullPointer(&'static str),
    /// A stream that is not there.
    UnknownStream(i32),
    /// A packet of another stream.
    StreamMismatch { decoder_stream: i32, packet_stream: i32 },
    /// A frame that is not audio.
    ExpectedAudioFrame,
    /// A stream that is not one of subtitles.
    ExpectedSubtitleStream,
    /// A subtitle bitmap whose rows or colours are not there.
    InvalidSubtitleBitmap { width: i32, height: i32, stride: i32, colors: i32 },
    /// A source that cannot be read.
    Source(String),
}

/// The result of an operation with FFmpeg.
pub type Result<T> = core::result::Result<T, FfmpegError>;

/// Turns a return code into a result: a negative one is an error.
pub fn check(code: i32, operation: &'static str, message: String) -> (result: Result<()>)
    ensures
        result is Ok <==> code >= 0,
        result matches Err(error) ==> error == (FfmpegError::Api { operation, code, message }),
{
    if code >= 0 {
        Ok(())
    } else {
        Err(FfmpegError::Api { operation, code, message })
    }
}

/// The return code of a system error.
pub fn av_error(errno: i32) -> (result: i32)
    requires
        errno > i32::MIN,
    ensures
        result == -errno,
{
    -errno
}

// ---------------------------------------------------------------------------
// Time stamps
// ---------------------------------------------------------------------------

/// The seconds that a tick takes, as a fraction.
#[derive(Debug, Clone, Copy, PartialEq, Eq, Structural)]
pub struct TimeBase {
    pub num: i32,
    pub den: i32,
}

impl TimeBase {
    /// A time base; a fraction by zero counts as no time.
    pub fn from_av(num: i32, den: i32) -> (result: Self)
        ensures
            result == (if den == 0 {
                TimeBase { num: 0, den: 1 }
            } else {
                TimeBase { num, den }
            }),
    {
        if den == 0 {
            return Self { num: 0, den: 1 };
        }
        Self { num, den }
    }

    /// Whether a number is that of the seconds that ticks take, to the nearest: a
    /// fraction by zero is infinite, or no number where no time is divided.
    pub open spec fn is_seconds(self, timestamp: i64, seconds: Double) -> bool {
        let stamp = PacketTimestamp { raw: timestamp, time_base: self };
        let sign: int = if stamp.has_sign() {
            0x8000_0000_0000_0000
        } else {
            0
        };
        if self.den == 0 {
            if timestamp == 0 || self.num == 0 {
                seconds.is_nan()
            } else {
                seconds.bits == sign + 0x7ff0_0000_0000_0000
            }
        } else {
            &&& seconds.has_sign() == stamp.has_sign()
            &&& encodes(
                (seconds.bits - sign) as u64,
                nearest_double(
                    as_double(as_double(magnitude(timestamp as int)) * magnitude(self.num as int)),
                    magnitude(self.den as int),
                ),
            )
        }
    }

    /// The seconds that ticks take.
    pub fn seconds_from_timestamp(self, timestamp: i64) -> (result: Double)
        ensures
            self.is_seconds(timestamp, result),
    {
        let num: i32 = self.num;
        let den: i32 = self.den;
        let sign: u64 = if (timestamp < 0) != ((num < 0) != (den < 0)) {
            0x8000_0000_0000_0000
        } else {
            0
        };
        if den == 0 {
            if timestamp == 0 || num == 0 {
                return Double { bits: 0x7ff8_0000_0000_0000 };
            }
            return Double { bits: sign + 0x7ff0_0000_0000_0000 };
        }
        let ticks: u64 = if timestamp < 0 {
            (-(timestamp as i128)) as u64
        } else {
            timestamp as u64
        };
        let num: u32 = if num < 0 {
            (-(num as i64)) as u32
        } else {
            num as u32
        };
        let den: u32 = if den < 0 {
            (-(den as i64)) as u32
        } else {
            den as u32
        };
        let (m, e) = ticks_to_seconds(ticks, num, den);
        Double { bits: sign + double_of_digits(m, e) }
    }
}

/// A time stamp in ticks.
#[derive(Debug, Clone, Copy, PartialEq, Eq, Structural)]
pub struct PacketTimestamp {
    pub raw: i64,
    pub time_base: TimeBase,
}

/// The magnitude of a number.
pub open spec fn magnitude(value: int) -> nat {
    if value < 0 {
        (-value) as nat
    } else {
        value as nat
    }
}

impl PacketTimestamp {
    /// Whether the time has a minus sign: an odd number of its parts have one.
    pub open spec fn has_sign(self) -> bool {
        (self.raw < 0) != ((self.time_base.num < 0) != (self.time_base.den < 0))
    }

    /// The time in nanoseconds, if it is one that is not negative.
    pub open spec fn nanos(self) -> Option<nat> {
        if self.has_sign() || self.time_base.den == 0 {
            None
        } else {
            ticks_nanos(
                magnitude(self.raw as int),
                magnitude(self.time_base.num as int),
                magnitude(self.time_base.den as int),
            )
        }
    }

    /// Whether the time is one that a span can hold, or none at all.
    pub open spec fn is_in_range(self) -> bool {
        self.has_sign() || self.time_base.den == 0 || self.nanos() is Some
    }

    /// The magnitudes of the parts, if they make a time that is not negative.
    fn parts(self) -> (result: Option<(u64, u32, u32)>)
        ensures
            result is None <==> self.has_sign() || self.time_base.den == 0,
            result matches Some((ticks, num, den)) ==> {
                &&& ticks == magnitude(self.raw as int) && ticks <= 0x8000_0000_0000_0000
                &&& num == magnitude(self.time_base.num as int) && num <= 0x8000_0000
                &&& den == magnitude(self.time_base.den as int) && den > 0
            },
    {
        let num: i32 = self.time_base.num;
        let den: i32 = self.time_base.den;
        let sign = (self.raw < 0) != ((num < 0) != (den < 0));
        if sign || den == 0 {
            return None;
        }
        let ticks: u64 = if self.raw < 0 {
            (-(self.raw as i128)) as u64
        } else {
            self.raw as u64
        };
        let num: u32 = if num < 0 {
            (-(num as i64)) as u32
        } else {
            num as u32
        };
        let den: u32 = if den < 0 {
            (-(den as i64)) as u32
        } else {
            den as u32
        };
        Some((ticks, num, den))
    }

    /// The seconds of the stamp.
    pub fn seconds(self) -> (result: Double)
        ensures
            self.time_base.is_seconds(self.raw, result),
    {
        self.time_base.seconds_from_timestamp(self.raw)
    }

    /// The time of the stamp, if it is one that is not negative.
    pub fn as_duration(self) -> (result: Option<Duration>)
        requires
            self.is_in_range(),
        ensures
            span_view(result) == self.nanos(),
    {
        match self.checked_duration() {
            Some(time) => time,
            None => None,
        }
    }

    /// The time of the stamp, or nothing where no span can hold it.
    pub fn checked_duration(self) -> (result: Option<Option<Duration>>)
        ensures
            result is None <==> !self.is_in_range(),
            result matches Some(time) ==> span_view(time) == self.nanos(),
    {
        match self.parts() {
            None => Some(None),
            Some((ticks, num, den)) => match ticks_to_nanos(ticks, num, den) {
                Some(nanos) => Some(Duration::try_from_nanos(nanos)),
                None => None,
            },
        }
    }
}

/// A time stamp, unless it is the one that stands for none.
pub fn timestamp_value(value: i64) -> (result: Option<i64>)
    ensures
        result == (if value == i64::MIN {
            None
        } else {
            Some(value)
        }),
{
    if value == i64::MIN {
        None
    } else {
        Some(value)
    }
}

/// The span of a number of microseconds, if there are any.
pub open spec fn span_of_micros(duration: i64) -> Option<nat> {
    if duration <= 0 {
        None
    } else {
        Some((duration * 1_000) as nat)
    }
}

/// The microseconds of a position, held at the largest machine number.
pub open spec fn micros_of_span(position: nat) -> int {
    if position / 1_000 > i64::MAX {
        i64::MAX as int
    } else {
        (position / 1_000) as int
    }
}

/// A duration in microseconds, if there is one.
pub fn duration_from_av(duration: i64) -> (result: Option<Duration>)
    ensures
        span_view(result) == span_of_micros(duration),
{
    if duration <= 0 {
        return None;
    }
    Some(Duration::from_micros(duration as u64))
}

/// The position to seek to, in microseconds, held at the largest machine number.
pub fn seek_target(position: Duration) -> (result: i64)
    ensures
        result == micros_of_span(position@),
{
    let micros: u128 = position.as_micros();
    if micros > 0x7fff_ffff_ffff_ffff {
        i64::MAX
    } else {
        micros as i64
    }
}

// ---------------------------------------------------------------------------
// Packet flags
// ---------------------------------------------------------------------------

/// The flags of a packet.
#[derive(Debug, Clone, Copy, PartialEq, Eq, Structural)]
pub struct PacketFlags {
    bits: i32,
}

impl View for PacketFlags {
    type V = i32;

    closed spec fn view(&self) -> i32 {
        self.bits
    }
}

impl PacketFlags {
    /// Flags by their bits.
    pub fn from_bits(bits: i32) -> (result: Self)
        ensures
            result@ == bits,
    {
        Self { bits }
    }

    /// The bits.
    pub fn bits(self) -> (result: i32)
        ensures
            result == self@,
    {
        self.bits
    }

    /// Whether the packet can be decoded by itself.
    pub fn is_key(self) -> (result: bool)
        ensures
            result == (self@ & 1 != 0),
    {
        self.bits & 1 != 0
    }

    /// Whether the packet is damaged.
    pub fn is_corrupt(self) -> (result: bool)
        ensures
            result == (self@ & 2 != 0),
    {
        self.bits & 2 != 0
    }

    /// Whether the packet is not shown.
    pub fn is_discard(self) -> (result: bool)
        ensures
            result == (self@ & 4 != 0),
    {
        self.bits & 4 != 0
    }
}

// ---------------------------------------------------------------------------
// Streams
// ---------------------------------------------------------------------------

/// The streams whose packets are read.
#[derive(Debug, Clone, PartialEq, Eq)]
pub enum StreamSelection {
    All,
    Only(BTreeSet<i32>),
}

impl StreamSelection {
    /// Whether packets of a stream are read.
    pub open spec fn takes(self, stream_index: i32) -> bool {
        match self {
            StreamSelection::All => true,
            StreamSelection::Only(streams) => streams@.contains(stream_index),
        }
    }

    /// Every stream.
    pub fn all() -> (result: Self)
        ensures
            result is All,
            forall|stream: i32| #[trigger] result.takes(stream),
    {
        StreamSelection::All
    }

    /// The given streams.
    pub fn only(stream_indices: &[i32]) -> (result: Self)
        ensures
            result is Only,
            forall|stream: i32| #[trigger]
                result.takes(stream) <==> stream_indices@.contains(stream),
    {
        let mut streams: BTreeSet<i32> = BTreeSet::new();
        let mut i: usize = 0;
        while i < stream_indices.len()
            invariant
                i <= stream_indices@.len(),
                forall|stream: i32| #[trigger]
                    streams@.contains(stream) <==> exists|k: int|
                        0 <= k < i && #[trigger] stream_indices@[k] == stream,
            decreases stream_indices@.len() - i,
        {
            let ghost before = streams@;
            let stream: i32 = stream_indices[i];
            let _ = streams.insert(stream);
            proof {
                assert forall|other: i32| #[trigger] streams@.contains(other) <==> exists|k: int|
                    0 <= k < i + 1 && #[trigger] stream_indices@[k] == other by {
                    if other == stream {
                        assert(stream_indices@[i as int] == other);
                    }
                    if before.contains(other) {
                        let k = choose|k: int| 0 <= k < i && #[trigger] stream_indices@[k] == other;
                        assert(stream_indices@[k] == other);
                    }
                }
            }
            i += 1;
        }
        StreamSelection::Only(streams)
    }

    /// Whether packets of a stream are read.
    pub fn accepts(&self, stream_index: i32) -> (result: bool)
        ensures
            result == self.takes(stream_index),
    {
        match self {
            StreamSelection::All => true,
            StreamSelection::Only(streams) => streams.contains(&stream_index),
        }
    }
}

/// The time base of a stream, if the stream is there.
pub open spec fn base_of(time_bases: Seq<Option<TimeBase>>, stream_index: i32) -> Option<TimeBase> {
    if 0 <= stream_index < time_bases.len() {
        time_bases[stream_index as int]
    } else {
        None
    }
}

/// The time base of a stream, if the stream is there.
pub fn stream_time_base(time_bases: &[Option<TimeBase>], stream_index: i32) -> (result: Option<
    TimeBase,
>)
    ensures
        result == base_of(time_bases@, stream_index),
{
    if stream_index < 0 {
        return None;
    }
    let index: usize = stream_index as usize;
    if index < time_bases.len() {
        time_bases[index]
    } else {
        None
    }
}

/// Whether a stream is there: it has a time base, or is a track.
pub open spec fn stream_exists(
    time_bases: Seq<Option<TimeBase>>,
    tracks: Seq<TrackInfo>,
    stream_index: i32,
) -> bool {
    ||| base_of(time_bases, stream_index) is Some
    ||| exists|i: int| 0 <= i < tracks.len() && (#[trigger] tracks[i]).id == stream_index
}

/// Whether a stream is there.
pub fn has_stream(time_bases: &[Option<TimeBase>], tracks: &[TrackInfo], stream_index: i32) -> (result:
    bool)
    ensures
        result == stream_exists(time_bases@, tracks@, stream_index),
{
    if stream_time_base(time_bases, stream_index).is_some() {
        return true;
    }
    let mut i: usize = 0;
    while i < tracks.len()
        invariant
            i <= tracks@.len(),
            forall|k: int| 0 <= k < i ==> (#[trigger] tracks@[k]).id != stream_index,
        decreases tracks@.len() - i,
    {
        if tracks[i].id == stream_index as i64 {
            return true;
        }
        i += 1;
    }
    false
}

/// The least stream of a selection that is not there.
pub fn unknown_stream(
    selection: &StreamSelection,
    time_bases: &[Option<TimeBase>],
    tracks: &[TrackInfo],
) -> (result: Option<i32>)
    ensures
        match result {
            None => selection is Only ==> forall|stream: i32| #[trigger]
                selection.takes(stream) ==> stream_exists(time_bases@, tracks@, stream),
            Some(unknown) => {
                &&& selection is Only
                &&& selection.takes(unknown)
                &&& !stream_exists(time_bases@, tracks@, unknown)
                &&& forall|stream: i32| #[trigger]
                    selection.takes(stream) && stream < unknown ==> stream_exists(
                        time_bases@,
                        tracks@,
                        stream,
                    )
            },
        },
{
    match selection {
        StreamSelection::All => None,
        StreamSelection::Only(streams) => {
            let all = listed_streams(streams);
            let mut least: Option<i32> = None;
            let mut i: usize = 0;
            while i < all.len()
                invariant
                    i <= all@.len(),
                    forall|k: int|
                        0 <= k < i ==> stream_exists(time_bases@, tracks@, #[trigger] all@[k]) || (
                        least matches Some(unknown) && unknown <= all@[k]),
                    least matches Some(unknown) ==> all@.contains(unknown) && !stream_exists(
                        time_bases@,
                        tracks@,
                        unknown,
                    ),
                decreases all@.len() - i,
            {
                let stream: i32 = all[i];
                assert(all@.contains(stream));
                if !has_stream(time_bases, tracks, stream) {
                    least = match least {
                        Some(unknown) => if unknown < stream {
                            Some(unknown)
                        } else {
                            Some(stream)
                        },
                        None => Some(stream),
                    };
                }
                i += 1;
            }
            proof {
                assert forall|other: i32| #[trigger] selection.takes(other) && (least matches Some(
                    unknown,
                ) ==> other < unknown) implies stream_exists(time_bases@, tracks@, other) by {
                    assert(all@.contains(other));
                    let k = choose|k: int| 0 <= k < all@.len() && all@[k] == other;
                    assert(all@[k] == other);
                }
            }
            least
        },
    }
}

/// The streams of a set.
fn listed_streams(streams: &BTreeSet<i32>) -> (result: Vec<i32>)
    ensures
        forall|stream: i32| #[trigger] streams@.contains(stream) <==> result@.contains(stream),
{
    let mut result: Vec<i32> = Vec::new();
    for stream in it: streams.iter()
        invariant
            it.seq().unref().to_set() == streams@,
            result@ =~= it.seq().unref().take(it.index()),
            it.index() == it.seq().len() ==> result@ =~= it.seq().unref(),
    {
        result.push(*stream);
    }
    assert(result@.to_set() == streams@);
    proof {
        assert forall|stream: i32| #[trigger] streams@.contains(stream) <==> result@.contains(
            stream,
        ) by {
            assert(result@.to_set().contains(stream) <==> result@.contains(stream));
        }
    }
    result
}

/// The stream of a packet that a decoder takes: only its own.
pub fn check_packet_stream(decoder_stream: i32, packet_stream: i32) -> (result: Result<()>)
    ensures
        result is Ok <==> decoder_stream == packet_stream,
        result matches Err(error) ==> error == (FfmpegError::StreamMismatch {
            decoder_stream,
            packet_stream,
        }),
{
    if decoder_stream == packet_stream {
        Ok(())
    } else {
        Err(FfmpegError::StreamMismatch { decoder_stream, packet_stream })
    }
}

/// Only a subtitle stream has a subtitle decoder.
pub fn check_subtitle_kind(kind: Option<TrackKind>) -> (result: Result<()>)
    ensures
        result is Ok <==> kind == Some(TrackKind::Subtitle),
        result matches Err(error) ==> error == FfmpegError::ExpectedSubtitleStream,
{
    match kind {
        Some(TrackKind::Subtitle) => Ok(()),
        _ => Err(FfmpegError::ExpectedSubtitleStream),
    }
}

/// A position is sought to the microsecond: the target is not behind it, and less than
/// a microsecond before it. Whole microseconds are read back as the same span.
pub proof fn law_seek_targets_are_exact(position: nat, micros: i64)
    ensures
        position / 1_000 <= i64::MAX ==> {
            &&& micros_of_span(position) * 1_000 <= position
            &&& position < (micros_of_span(position) + 1) * 1_000
        },
        micros > 0 ==> span_of_micros(micros) is Some && micros_of_span(span_of_micros(micros)->0)
            == micros,
        micros <= 0 ==> span_of_micros(micros) is None,
{
}

/// A stamp is as many ticks of its time base: one whose ticks make up whole seconds is
/// that time, and one before the start is none.
pub proof fn law_stamps_are_ticks_of_their_base(stamp: PacketTimestamp, seconds: nat)
    requires
        stamp.time_base.num > 0,
        stamp.time_base.den > 0,
        seconds < 0x40_0000,
        stamp.raw < 0x20_0000_0000_0000,
    ensures
        stamp.raw >= 0 && stamp.raw * stamp.time_base.num == seconds * stamp.time_base.den
            ==> stamp.nanos() == Some(seconds * 1_000_000_000),
        stamp.raw < 0 ==> stamp.nanos() is None,
{
    let num = stamp.time_base.num as nat;
    let den = stamp.time_base.den as nat;
    if stamp.raw >= 0 && stamp.raw * stamp.time_base.num == seconds * stamp.time_base.den {
        assert(seconds * den < 0x40_0000 * 0x8000_0000) by (nonlinear_arith)
            requires
                seconds < 0x40_0000,
                0 < den < 0x8000_0000,
        ;
        law_ticks_take_whole_seconds(stamp.raw as nat, num, den, seconds);
    }
}

/// A stream is counted in the base that stands at its number, and one that there is not
/// in none. It exists if it has a base or if a track stands for it.
pub proof fn law_bases_are_found_by_number(
    before: Seq<Option<TimeBase>>,
    base: TimeBase,
    behind: Seq<Option<TimeBase>>,
    tracks: Seq<TrackInfo>,
    track: TrackInfo,
)
    requires
        before.len() <= i32::MAX,
        i32::MIN <= track.id <= i32::MAX,
    ensures
        base_of(before + seq![Some(base)] + behind, before.len() as i32) == Some(base),
        base_of(before, before.len() as i32) is None,
        base_of(before, -1i32 as i32) is None,
        stream_exists(before + seq![Some(base)] + behind, tracks, before.len() as i32),
        stream_exists(before, tracks.push(track), track.id as i32),
        !stream_exists(Seq::<Option<TimeBase>>::empty(), Seq::<TrackInfo>::empty(), track.id as i32),
{
    assert((before + seq![Some(base)] + behind)[before.len() as int] == Some(base));
    assert(tracks.push(track)[tracks.len() as int].id == track.id);
}

} // verus!
