//! Packets of a stream.
use crate::ffmpeg::stamp::{timestamp_value, PacketFlags, PacketTimestamp, TimeBase};
use crate::float_bits::Double;
use vstd::prelude::*;

verus! {

/// A packet: its bytes, and what a demuxer tells of it. A stamp that is the least
/// machine number stands for none.
#[derive(Debug, Clone, PartialEq, Eq)]
pub struct Packet {
    pub stream_index: i32,
    pub data: Vec<u8>,
    pub flags: i32,
    pub pos: i64,
    pub pts: i64,
    pub dts: i64,
    pub duration: i64,
    pub time_base: Option<TimeBase>,
}

/// A stamp with its time base, if it is one and has one.
pub open spec fn stamp_of(raw: i64, time_base: Option<TimeBase>) -> Option<PacketTimestamp> {
    match time_base {
        Some(time_base) => if raw == i64::MIN {
            None
        } else {
            Some(PacketTimestamp { raw, time_base })
        },
        None => None,
    }
}

fn to_stamp(raw: i64, time_base: Option<TimeBase>) -> (result: Option<PacketTimestamp>)
    ensures
        result == stamp_of(raw, time_base),
{
    match timestamp_value(raw) {
        Some(raw) => match time_base {
            Some(time_base) => Some(PacketTimestamp { raw, time_base }),
            None => None,
        },
        None => None,
    }
}

impl Packet {
    /// The stream.
    pub fn stream_index(&self) -> (result: i32)
        ensures
            result == self.stream_index,
    {
        self.stream_index
    }

    /// The number of bytes.
    pub fn size(&self) -> (result: usize)
        ensures
            result == self.data@.len(),
    {
        self.data.len()
    }

    /// The bytes.
    pub fn data(&self) -> (result: &[u8])
        ensures
            result@ == self.data@,
    {
        self.data.as_slice()
    }

    /// The flags.
    pub fn flags(&self) -> (result: PacketFlags)
        ensures
            result@ == self.flags,
    {
        PacketFlags::from_bits(self.flags)
    }

    /// Whether the packet can be decoded without those before it.
    pub fn is_key(&self) -> (result: bool)
        ensures
            result == (self.flags & 1 != 0),
    {
        self.flags().is_key()
    }

    /// Where the packet starts in its file, if that is known.
    pub fn pos(&self) -> (result: Option<i64>)
        ensures
            result == (if self.pos < 0 {
                None
            } else {
                Some(self.pos)
            }),
    {
        if self.pos < 0 {
            None
        } else {
            Some(self.pos)
        }
    }

    /// The ticks at which the packet is shown.
    pub fn raw_pts(&self) -> (result: Option<i64>)
        ensures
            result == (if self.pts == i64::MIN {
                None
            } else {
                Some(self.pts)
            }),
    {
        timestamp_value(self.pts)
    }

    /// The ticks at which the packet is decoded.
    pub fn raw_dts(&self) -> (result: Option<i64>)
        ensures
            result == (if self.dts == i64::MIN {
                None
            } else {
                Some(self.dts)
            }),
    {
        timestamp_value(self.dts)
    }

    /// The ticks that the packet lasts, if that is known.
    pub fn raw_duration(&self) -> (result: Option<i64>)
        ensures
            result == (if self.duration <= 0 {
                None
            } else {
                Some(self.duration)
            }),
    {
        if self.duration <= 0 {
            None
        } else {
            Some(self.duration)
        }
    }

    /// The time base of the ticks, if it is known.
    pub fn time_base(&self) -> (result: Option<TimeBase>)
        ensures
            result == self.time_base,
    {
        self.time_base
    }

    /// The time at which the packet is shown.
    pub fn pts(&self) -> (result: Option<PacketTimestamp>)
        ensures
            result == stamp_of(self.pts, self.time_base),
    {
        to_stamp(self.pts, self.time_base)
    }

    /// The time at which the packet is decoded.
    pub fn dts(&self) -> (result: Option<PacketTimestamp>)
        ensures
            result == stamp_of(self.dts, self.time_base),
    {
        to_stamp(self.dts, self.time_base)
    }

    /// The seconds that the packet lasts, if that is known.
    pub fn duration_seconds(&self) -> (result: Option<Double>)
        ensures
            result is Some <==> self.duration > 0 && self.time_base is Some,
            result matches Some(seconds) ==> self.time_base->0.is_seconds(self.duration, seconds),
    {
        match self.time_base {
            Some(time_base) => match self.raw_duration() {
                Some(duration) => Some(time_base.seconds_from_timestamp(duration)),
                None => None,
            },
            None => None,
        }
    }
}

/// A stamp is the number that a packet has, counted in the base of its stream; a packet
/// without a number or without a base has none.
pub proof fn law_stamps_are_counted_in_their_base(raw: i64, time_base: TimeBase)
    ensures
        raw != i64::MIN ==> stamp_of(raw, Some(time_base)) == Some(
            PacketTimestamp { raw, time_base },
        ),
        stamp_of(i64::MIN, Some(time_base)) is None,
        stamp_of(raw, None) is None,
{
}

} // verus!
