//! What can go wrong with a subtitle.
use vstd::prelude::*;

verus! {

/// A subtitle that cannot be read or drawn.
#[derive(Debug, Clone, PartialEq, Eq)]
pub enum SubtitleError {
    /// A timestamp that is not one; holds its text.
    InvalidTimestamp(String),
    /// A cue without the fields it needs.
    InvalidCue,
    /// A bitmap whose buffer does not cover its pixels.
    InvalidBitmap { width: u32, height: u32, stride: usize, bytes: usize },
    /// A bitmap without a buffer.
    NullBitmap,
    /// A list of bitmaps that is too long to be sound.
    BitmapListTooLong,
    /// A refusal of the libass renderer.
    Libass(String),
}

/// A subtitle error, with its texts as sequences of characters.
pub enum SubtitleErrorModel {
    InvalidTimestamp(Seq<char>),
    InvalidCue,
    InvalidBitmap { width: u32, height: u32, stride: usize, bytes: usize },
    NullBitmap,
    BitmapListTooLong,
    Libass(Seq<char>),
}

impl View for SubtitleError {
    type V = SubtitleErrorModel;

    open spec fn view(&self) -> SubtitleErrorModel {
        match *self {
            SubtitleError::InvalidTimestamp(text) => SubtitleErrorModel::InvalidTimestamp(text@),
            SubtitleError::InvalidCue => SubtitleErrorModel::InvalidCue,
            SubtitleError::InvalidBitmap { width, height, stride, bytes } =>
                SubtitleErrorModel::InvalidBitmap { width, height, stride, bytes },
            SubtitleError::NullBitmap => SubtitleErrorModel::NullBitmap,
            SubtitleError::BitmapListTooLong => SubtitleErrorModel::BitmapListTooLong,
            SubtitleError::Libass(text) => SubtitleErrorModel::Libass(text@),
        }
    }
}

/// The result of an operation on subtitles.
pub type Result<T> = core::result::Result<T, SubtitleError>;

} // verus!
