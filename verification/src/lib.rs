//! Media playback engine core.
use vstd::prelude::*;

pub mod audio;
pub mod binary64;
pub mod danmaku;
pub mod ffmpeg;
pub mod float_bits;
pub mod float_laws;
pub mod float_sum;
pub mod float_whole;
pub mod json;
pub mod media;
pub mod num;
pub mod order;
pub mod overlay;
pub mod pixels;
pub mod playback;
pub mod presenter;
pub mod renderer;
pub mod subtitle;
pub mod text;
pub mod time;

verus! {

} // verus!
