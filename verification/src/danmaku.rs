//! Comments that fly over the video.
use vstd::prelude::*;

pub mod atlas;
pub mod cache;
pub mod config;
pub mod engine;
pub mod font;
pub mod glyph;
pub mod layout;
pub mod model;
pub mod parse;
pub mod plan;
pub mod session;
pub mod stats;
pub mod text;
pub mod timeline;

pub use crate::danmaku::atlas::DanmakuGlyphAtlas;
pub use crate::danmaku::config::DanmakuLayoutConfig;
pub use crate::danmaku::engine::DfmLayoutEngine;
pub use crate::danmaku::layout::{
    DanmakuFrameLayout, DanmakuPlacedItem, PreparedDanmakuItem, TextMeasure,
};
pub use crate::danmaku::model::{
    DanmakuColor, DanmakuError, DanmakuItem, DanmakuMode, DanmakuShadowStyle, DanmakuViewport,
    Result,
};
pub use crate::danmaku::parse::{parse_bilibili_xml, DanmakuFormat};
pub use crate::danmaku::plan::{DanmakuGlyphInstance, DanmakuRenderPlan, DfmPreparedLayout};
pub use crate::danmaku::session::{
    DanmakuSession, DanmakuTrack, DanmakuTrackInfo, DanmakuTrackSource,
};
pub use crate::danmaku::stats::{
    DanmakuDebugBucket, DanmakuFrameStats, DanmakuPreparedStats, DANMAKU_DEBUG_BUCKETS,
};
pub use crate::danmaku::timeline::DanmakuTimeline;

verus! {

} // verus!
