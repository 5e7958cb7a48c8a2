//! Reading and seeking in a source for a demuxer.
use vstd::prelude::*;

verus! {

/// What a read comes to.
#[derive(Debug, Clone, Copy, PartialEq, Eq, Structural)]
pub enum AvioRead {
    /// This many bytes are copied.
    Copied(usize),
    /// The source has ended.
    EndOfFile,
    /// The source failed.
    Failed,
    /// There is nowhere to read to.
    Invalid,
}

/// Where a seek counts from.
#[derive(Debug, Clone, Copy, PartialEq, Eq, Structural)]
pub enum Whence {
    /// The start.
    Start,
    /// The position.
    Current,
    /// The end.
    End,
    /// Nowhere: the size is asked for.
    Size,
    /// Nowhere that is known.
    Unknown,
}

/// The length of a source.
#[derive(Debug, Clone, Copy, PartialEq, Eq, Structural)]
pub enum SourceLength {
    Known(u64),
    Unknown,
    Failed,
}

/// What a seek comes to.
#[derive(Debug, Clone, Copy, PartialEq, Eq, Structural)]
pub enum AvioSeek {
    /// The position, or the size if that was asked for.
    At(i64),
    /// The source has no known length.
    NotSeekable,
    /// The source failed.
    Failed,
    /// There is no such position.
    Invalid,
}

/// The position in a source.
#[derive(Debug, Clone, Copy, PartialEq, Eq, Structural)]
pub struct AvioPosition {
    pub offset: u64,
}

/// A length as a number with a sign, held at the largest.
pub open spec fn held_length(length: u64) -> int {
    if length > i64::MAX {
        i64::MAX as int
    } else {
        length as int
    }
}

impl AvioPosition {
    /// Whether the position is one that a demuxer can be told.
    pub open spec fn is_sound(self) -> bool {
        self.offset <= i64::MAX
    }

    /// The position that a seek aims at, or why it aims at none.
    pub open spec fn target(self, offset: i64, whence: Whence, length: SourceLength) ->
        core::result::Result<int, AvioSeek> {
        match whence {
            Whence::Start => Ok(offset as int),
            Whence::Current => Ok(self.offset + offset),
            Whence::End => match length {
                SourceLength::Known(length) => Ok(held_length(length) + offset),
                SourceLength::Unknown => Err(AvioSeek::NotSeekable),
                SourceLength::Failed => Err(AvioSeek::Failed),
            },
            Whence::Size => match length {
                SourceLength::Known(length) => Err(AvioSeek::At(held_length(length) as i64)),
                SourceLength::Unknown => Err(AvioSeek::NotSeekable),
                SourceLength::Failed => Err(AvioSeek::Failed),
            },
            Whence::Unknown => Err(AvioSeek::Invalid),
        }
    }

    /// The start of a source.
    pub fn new() -> (result: Self)
        ensures
            result.offset == 0,
            result.is_sound(),
    {
        Self { offset: 0 }
    }

    /// The position behind what was read.
    pub open spec fn offset_after(self, read: AvioRead) -> int {
        match read {
            AvioRead::Copied(bytes) => if self.offset + bytes > u64::MAX {
                u64::MAX as int
            } else {
                self.offset + bytes
            },
            _ => self.offset as int,
        }
    }

    /// Takes note of a read: the source gave this many bytes, or failed. No more
    /// are copied than there is room for, and the position moves behind them.
    pub fn read_packet(&mut self, buffer_size: i32, given: Option<usize>) -> (result: AvioRead)
        ensures
            result == read_outcome(buffer_size, given),
            final(self).offset == old(self).offset_after(result),
    {
        if buffer_size <= 0 {
            return AvioRead::Invalid;
        }
        match given {
            None => AvioRead::Failed,
            Some(bytes) => {
                if bytes == 0 {
                    return AvioRead::EndOfFile;
                }
                let room: usize = buffer_size as usize;
                let copied: usize = if bytes < room {
                    bytes
                } else {
                    room
                };
                self.offset = self.offset.saturating_add(copied as u64);
                AvioRead::Copied(copied)
            },
        }
    }

    /// Seeks in the source. The position stays where it was if the seek fails.
    pub fn seek(&mut self, offset: i64, whence: Whence, length: SourceLength) -> (result: AvioSeek)
        requires
            old(self).is_sound(),
            old(self).target(offset, whence, length) matches Ok(target) ==> target <= i64::MAX,
        ensures
            final(self).is_sound(),
            match old(self).target(offset, whence, length) {
                Err(outcome) => result == outcome && *final(self) == *old(self),
                Ok(target) => if target < 0 {
                    result == AvioSeek::Invalid && *final(self) == *old(self)
                } else {
                    result == AvioSeek::At(target as i64) && final(self).offset == target
                },
            },
    {
        let known: i64 = match length {
            SourceLength::Known(length) => {
                if length > 0x7fff_ffff_ffff_ffff {
                    i64::MAX
                } else {
                    length as i64
                }
            },
            _ => 0,
        };
        let target: i128 = match whence {
            Whence::Start => offset as i128,
            Whence::Current => self.offset as i128 + offset as i128,
            Whence::End => match length {
                SourceLength::Known(_) => known as i128 + offset as i128,
                SourceLength::Unknown => {
                    return AvioSeek::NotSeekable;
                },
                SourceLength::Failed => {
                    return AvioSeek::Failed;
                },
            },
            Whence::Size => {
                return match length {
                    SourceLength::Known(_) => AvioSeek::At(known),
                    SourceLength::Unknown => AvioSeek::NotSeekable,
                    SourceLength::Failed => AvioSeek::Failed,
                };
            },
            Whence::Unknown => {
                return AvioSeek::Invalid;
            },
        };
        if target < 0 {
            return AvioSeek::Invalid;
        }
        self.offset = target as u64;
        AvioSeek::At(target as i64)
    }
}

/// Seeking to where one is changes nothing, and tells the position.
pub proof fn law_seek_by_nothing_stays(position: AvioPosition, length: SourceLength)
    requires
        position.is_sound(),
    ensures
        position.target(0, Whence::Current, length) == Ok::<int, AvioSeek>(position.offset as int),
{
}

/// What comes of a read into a buffer, given how many bytes the source gave.
pub open spec fn read_outcome(buffer_size: i32, given: Option<usize>) -> AvioRead {
    if buffer_size <= 0 {
        AvioRead::Invalid
    } else {
        match given {
            None => AvioRead::Failed,
            Some(bytes) => if bytes == 0 {
                AvioRead::EndOfFile
            } else if bytes < buffer_size {
                AvioRead::Copied(bytes)
            } else {
                AvioRead::Copied(buffer_size as usize)
            },
        }
    }
}

/// A read copies all that the source gave, as far as there is room, and moves the
/// position behind it. No bytes are the end of the file, and what fails moves nothing.
pub proof fn law_reads_move_behind_what_they_copy(
    position: AvioPosition,
    buffer_size: i32,
    given: usize,
)
    requires
        buffer_size > 0,
        position.offset + given <= u64::MAX,
    ensures
        0 < given <= buffer_size ==> read_outcome(buffer_size, Some(given)) == AvioRead::Copied(
            given,
        ) && position.offset_after(read_outcome(buffer_size, Some(given))) == position.offset
            + given,
        given > buffer_size ==> position.offset_after(read_outcome(buffer_size, Some(given)))
            == position.offset + buffer_size,
        read_outcome(buffer_size, Some(0)) == AvioRead::EndOfFile,
        read_outcome(buffer_size, None) == AvioRead::Failed,
        position.offset_after(AvioRead::EndOfFile) == position.offset,
        position.offset_after(AvioRead::Failed) == position.offset,
        position.offset_after(AvioRead::Invalid) == position.offset,
{
}

/// A seek goes where it is told: from the start, from where the source stands, or from
/// its end, and one to the end lands on its length. The size moves nothing.
pub proof fn law_seeks_go_where_they_are_told(position: AvioPosition, offset: i64, length: u64)
    requires
        length <= i64::MAX,
    ensures
        position.target(offset, Whence::Start, SourceLength::Known(length)) == Ok::<int, AvioSeek>(
            offset as int,
        ),
        position.target(offset, Whence::Current, SourceLength::Known(length)) == Ok::<
            int,
            AvioSeek,
        >(position.offset + offset),
        position.target(offset, Whence::End, SourceLength::Known(length)) == Ok::<int, AvioSeek>(
            length + offset,
        ),
        position.target(offset, Whence::Size, SourceLength::Known(length)) == Err::<int, AvioSeek>(
            AvioSeek::At(length as i64),
        ),
        position.target(offset, Whence::End, SourceLength::Unknown) == Err::<int, AvioSeek>(
            AvioSeek::NotSeekable,
        ),
{
}

} // verus!
