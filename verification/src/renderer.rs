//! What a renderer decides before it draws.
use vstd::prelude::*;

pub mod alpha_atlas;
pub mod color;
pub mod device;
pub mod error;
pub mod layer;
pub mod metal;
pub mod shared;
pub mod stats;
pub mod wgpu;

pub use crate::renderer::device::{VideoUniforms, WgpuClearColor, WgpuRenderer};
pub use crate::renderer::error::{RendererError, Result};
pub use crate::renderer::layer::MetalRenderer;
pub use crate::renderer::stats::{MetalRendererStats, RendererRuntimeStats, WgpuRendererStats};

verus! {

} // verus!
