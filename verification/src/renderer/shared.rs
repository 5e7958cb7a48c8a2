//! Textures of a decoder's device that another device reads: by a handle of their
//! own, or by that of a copy.
use crate::text::{chars_of, extend_str, string_of};
use vstd::prelude::*;

verus! {

/// The number of an adapter.
#[derive(Debug, Clone, Copy, PartialEq, Eq, Structural)]
pub struct AdapterLuid {
    pub low: u32,
    pub high: i32,
}

/// What is known of a texture.
#[derive(Debug, Clone, Copy, PartialEq, Eq, Structural)]
pub struct TextureDesc {
    pub width: u32,
    pub height: u32,
    pub format: i32,
    pub sample_count: u32,
    pub sample_quality: u32,
}

/// A handle by which another device reads a texture.
#[derive(Debug, Clone, Copy, PartialEq, Eq, Structural)]
pub struct D3d11SharedHandle {
    pub handle: usize,
    pub width: u32,
    pub height: u32,
    pub format: i32,
    pub adapter_luid: AdapterLuid,
}

/// The texture that frames of another device are copied to.
#[derive(Debug, Clone, Copy, PartialEq, Eq, Structural)]
pub struct SharedTextureCache {
    pub width: u32,
    pub height: u32,
    pub format: i32,
    pub has_texture: bool,
    pub nthandle: bool,
}

/// The cache that serves a texture.
pub open spec fn cache_for(desc: TextureDesc) -> SharedTextureCache {
    SharedTextureCache {
        width: desc.width,
        height: desc.height,
        format: desc.format,
        has_texture: true,
        nthandle: true,
    }
}

/// Whether another texture has to be made for a frame.
pub fn needs_new_shared_texture(cache: Option<SharedTextureCache>, desc: TextureDesc) -> (result:
    bool)
    ensures
        result <==> cache != Some(cache_for(desc)),
{
    match cache {
        Some(cache) => cache.width != desc.width || cache.height != desc.height || cache.format
            != desc.format || !cache.has_texture || !cache.nthandle,
        None => true,
    }
}

/// What a texture for copies is made with. Nothing but the device reads or writes
/// it.
#[derive(Debug, Clone, Copy, PartialEq, Eq, Structural)]
pub struct SharedTextureDesc {
    pub width: u32,
    pub height: u32,
    pub mip_levels: u32,
    pub array_size: u32,
    pub format: i32,
    pub sample_count: u32,
    pub sample_quality: u32,
    pub bind_flags: u32,
    pub cpu_access_flags: u32,
    pub is_shared: bool,
    pub has_nt_handle: bool,
}

/// What the texture for copies of a texture is made with: the same size, format and
/// samples, one level and one layer, and it is shared by handles of the newer kind.
pub open spec fn copy_of(desc: TextureDesc) -> SharedTextureDesc {
    SharedTextureDesc {
        width: desc.width,
        height: desc.height,
        mip_levels: 1,
        array_size: 1,
        format: desc.format,
        sample_count: desc.sample_count,
        sample_quality: desc.sample_quality,
        bind_flags: 0,
        cpu_access_flags: 0,
        is_shared: true,
        has_nt_handle: true,
    }
}

/// What another texture for copies has to be made with, if the one at hand does not
/// serve.
pub fn shared_texture_to_make(cache: Option<SharedTextureCache>, desc: TextureDesc) -> (result:
    Option<SharedTextureDesc>)
    ensures
        result == (if cache == Some(cache_for(desc)) {
            None
        } else {
            Some(copy_of(desc))
        }),
{
    if !needs_new_shared_texture(cache, desc) {
        return None;
    }
    Some(
        SharedTextureDesc {
            width: desc.width,
            height: desc.height,
            mip_levels: 1,
            array_size: 1,
            format: desc.format,
            sample_count: desc.sample_count,
            sample_quality: desc.sample_quality,
            bind_flags: 0,
            cpu_access_flags: 0,
            is_shared: true,
            has_nt_handle: true,
        },
    )
}

/// What came of asking for something: why it failed, if it did.
pub type Outcome<T> = core::result::Result<T, String>;

/// What came of asking a texture for a handle. What is asked for after a failure
/// does not count.
#[derive(Debug)]
pub struct DirectOutcome {
    /// Whether the texture is there.
    pub has_texture: bool,
    /// What came of taking it as a resource.
    pub resource: Outcome<()>,
    /// Whether the resource can be shared at all.
    pub is_shareable: bool,
    /// The handle of the newer kind, if there is one.
    pub nt_handle: Option<usize>,
    /// The handle of the older kind, if there is one.
    pub kernel_handle: Option<usize>,
}

/// What came of copying a texture and asking the copy for a handle.
#[derive(Debug)]
pub struct CopyOutcome {
    /// What came of asking for the device.
    pub device: Outcome<()>,
    /// What came of asking for its context.
    pub context: Outcome<()>,
    /// What came of asking for the cache.
    pub cache: Outcome<()>,
    /// What came of making a texture, and whether it is there.
    pub texture: Outcome<bool>,
    /// What came of taking the copy as a resource.
    pub resource: Outcome<()>,
    /// Whether the resource has handles of the newer kind.
    pub has_nt_handles: bool,
    /// The handle of the newer kind, if there is one.
    pub nt_handle: Option<usize>,
    /// What came of taking it as a resource with handles of the older kind.
    pub shareable: Outcome<()>,
    /// What came of asking for that handle.
    pub kernel_handle: Outcome<usize>,
}

impl DirectOutcome {
    /// The handle of the texture itself, if it has one: of the newer kind if
    /// possible.
    pub open spec fn handle(self) -> Option<usize> {
        if !self.is_shareable {
            None
        } else if self.nt_handle is Some {
            self.nt_handle
        } else {
            self.kernel_handle
        }
    }
}

/// What is told of something that failed, if it did.
pub open spec fn failure<T>(what: Seq<char>, outcome: Outcome<T>) -> Option<Seq<char>> {
    match outcome {
        Err(reason) => Some(what + reason@),
        Ok(_) => None,
    }
}

impl CopyOutcome {
    /// What went wrong before a texture is looked for, if anything.
    pub open spec fn early_failure(self) -> Option<Seq<char>> {
        match failure("failed to get ID3D11Device from texture: "@, self.device) {
            Some(text) => Some(text),
            None => match failure("failed to get immediate context: "@, self.context) {
                Some(text) => Some(text),
                None => failure("cache lock failed: "@, self.cache),
            },
        }
    }

    /// What went wrong with making a texture, if anything.
    pub open spec fn texture_failure(self) -> Option<Seq<char>> {
        match self.texture {
            Err(reason) => Some("CreateTexture2D for shared copy failed: "@ + reason@),
            Ok(is_there) => if is_there {
                None
            } else {
                Some("CreateTexture2D returned null"@)
            },
        }
    }

    /// The handle of the copy: of the newer kind if possible, else of the older.
    pub open spec fn handle(self) -> core::result::Result<usize, Seq<char>> {
        if self.resource is Err {
            Err("cast shared texture to ID3D11Resource: "@ + self.resource->Err_0@)
        } else if self.has_nt_handles && self.nt_handle is Some {
            Ok(self.nt_handle->0)
        } else if self.shareable is Err {
            Err(
                if self.has_nt_handles {
                    "cast to IDXGIResource failed: "@
                } else {
                    "cast to IDXGIResource also failed: "@
                } + self.shareable->Err_0@,
            )
        } else {
            match self.kernel_handle {
                Ok(handle) => Ok(handle),
                Err(reason) => Err(
                    if self.has_nt_handles {
                        "GetSharedHandle also failed: "@
                    } else {
                        "GetSharedHandle failed: "@
                    } + reason@,
                ),
            }
        }
    }
}

fn told(what: &str, reason: &str) -> (result: String)
    ensures
        result@ == what@ + reason@,
{
    let mut text = chars_of(what);
    extend_str(&mut text, reason);
    string_of(&text)
}

fn shared(handle: usize, desc: TextureDesc, adapter_luid: AdapterLuid) -> (result:
    D3d11SharedHandle)
    ensures
        result == shared_by(handle, desc, adapter_luid),
{
    D3d11SharedHandle {
        handle,
        width: desc.width,
        height: desc.height,
        format: desc.format,
        adapter_luid,
    }
}

/// A texture by its handle.
pub open spec fn shared_by(handle: usize, desc: TextureDesc, adapter_luid: AdapterLuid) ->
    D3d11SharedHandle {
    D3d11SharedHandle {
        handle,
        width: desc.width,
        height: desc.height,
        format: desc.format,
        adapter_luid,
    }
}

fn copied_handle(outcome: CopyOutcome) -> (result: Outcome<usize>)
    ensures
        match outcome.handle() {
            Ok(handle) => result matches Ok(found) && found == handle,
            Err(text) => result matches Err(error) && error@ == text,
        },
{
    if let Err(reason) = outcome.resource {
        return Err(told("cast shared texture to ID3D11Resource: ", reason.as_str()));
    }
    if outcome.has_nt_handles {
        if let Some(handle) = outcome.nt_handle {
            return Ok(handle);
        }
        if let Err(reason) = outcome.shareable {
            return Err(told("cast to IDXGIResource failed: ", reason.as_str()));
        }
        return match outcome.kernel_handle {
            Ok(handle) => Ok(handle),
            Err(reason) => Err(told("GetSharedHandle also failed: ", reason.as_str())),
        };
    }
    if let Err(reason) = outcome.shareable {
        return Err(told("cast to IDXGIResource also failed: ", reason.as_str()));
    }
    match outcome.kernel_handle {
        Ok(handle) => Ok(handle),
        Err(reason) => Err(told("GetSharedHandle failed: ", reason.as_str())),
    }
}

/// Shares a texture by a copy, given what came of it. The copy goes to a texture that
/// is made with [`shared_texture_to_make`], and that is kept for the next texture of
/// the same size and format.
pub fn create_shared_copy_and_get_handle(
    cache: &mut Option<SharedTextureCache>,
    desc: TextureDesc,
    adapter_luid: AdapterLuid,
    outcome: CopyOutcome,
) -> (result: Outcome<D3d11SharedHandle>)
    ensures
        match outcome.early_failure() {
            Some(text) => {
                &&& result matches Err(error) && error@ == text
                &&& *final(cache) == *old(cache)
            },
            None => if *old(cache) != Some(cache_for(desc)) && outcome.texture_failure() is Some {
                &&& result matches Err(error) && error@ == outcome.texture_failure()->0
                &&& *final(cache) == *old(cache)
            } else {
                &&& *final(cache) == Some(cache_for(desc))
                &&& match outcome.handle() {
                    Ok(handle) => result matches Ok(found) && found == shared_by(
                        handle,
                        desc,
                        adapter_luid,
                    ),
                    Err(text) => result matches Err(error) && error@ == text,
                }
            },
        },
{
    if let Err(reason) = &outcome.device {
        return Err(told("failed to get ID3D11Device from texture: ", reason.as_str()));
    }
    if let Err(reason) = &outcome.context {
        return Err(told("failed to get immediate context: ", reason.as_str()));
    }
    if let Err(reason) = &outcome.cache {
        return Err(told("cache lock failed: ", reason.as_str()));
    }
    if let Some(made) = shared_texture_to_make(*cache, desc) {
        match &outcome.texture {
            Err(reason) => {
                return Err(
                    told("CreateTexture2D for shared copy failed: ", reason.as_str()),
                );
            },
            Ok(is_there) => {
                if !*is_there {
                    return Err("CreateTexture2D returned null".to_owned());
                }
            },
        }
        *cache = Some(
            SharedTextureCache {
                width: made.width,
                height: made.height,
                format: made.format,
                has_texture: true,
                nthandle: made.has_nt_handle,
            },
        );
    }
    match copied_handle(outcome) {
        Ok(handle) => Ok(shared(handle, desc, adapter_luid)),
        Err(error) => Err(error),
    }
}

/// Shares a texture, given what came of it: by its own handle if it has one, else by
/// that of a copy. An adapter that is not known has the number zero.
pub fn get_d3d11_texture_shared_handle(
    cache: &mut Option<SharedTextureCache>,
    desc: TextureDesc,
    adapter_luid: Option<AdapterLuid>,
    direct: DirectOutcome,
    copy: CopyOutcome,
) -> (result: Outcome<D3d11SharedHandle>)
    ensures
        ({
            let luid = match adapter_luid {
                Some(luid) => luid,
                None => AdapterLuid { low: 0, high: 0 },
            };
            if !direct.has_texture {
                &&& result matches Err(error) && error@ == "d3d11 texture pointer is null"@
                &&& *final(cache) == *old(cache)
            } else if direct.resource is Err {
                &&& result matches Err(error) && error@
                    == "failed to cast ID3D11Texture2D to ID3D11Resource: "@
                    + direct.resource->Err_0@
                &&& *final(cache) == *old(cache)
            } else if direct.handle() is Some {
                &&& result matches Ok(found) && found == shared_by(direct.handle()->0, desc, luid)
                &&& *final(cache) == *old(cache)
            } else if copy.early_failure() is Some {
                &&& result matches Err(error) && error@ == copy.early_failure()->0
                &&& *final(cache) == *old(cache)
            } else if *old(cache) != Some(cache_for(desc)) && copy.texture_failure() is Some {
                &&& result matches Err(error) && error@ == copy.texture_failure()->0
                &&& *final(cache) == *old(cache)
            } else {
                &&& *final(cache) == Some(cache_for(desc))
                &&& match copy.handle() {
                    Ok(handle) => result matches Ok(found) && found == shared_by(handle, desc, luid),
                    Err(text) => result matches Err(error) && error@ == text,
                }
            }
        }),
{
    if !direct.has_texture {
        return Err("d3d11 texture pointer is null".to_owned());
    }
    if let Err(reason) = direct.resource {
        return Err(
            told("failed to cast ID3D11Texture2D to ID3D11Resource: ", reason.as_str()),
        );
    }
    let luid = match adapter_luid {
        Some(luid) => luid,
        None => AdapterLuid { low: 0, high: 0 },
    };
    if direct.is_shareable {
        if let Some(handle) = direct.nt_handle {
            return Ok(shared(handle, desc, luid));
        }
        if let Some(handle) = direct.kernel_handle {
            return Ok(shared(handle, desc, luid));
        }
    }
    create_shared_copy_and_get_handle(cache, desc, luid, copy)
}

/// A copy that is shared is as large as its texture and of its format, and it is told so.
pub proof fn law_copies_are_like_their_textures(
    desc: TextureDesc,
    handle: usize,
    adapter_luid: AdapterLuid,
)
    ensures
        copy_of(desc).width == desc.width,
        copy_of(desc).height == desc.height,
        copy_of(desc).format == desc.format,
        copy_of(desc).mip_levels == 1,
        copy_of(desc).array_size == 1,
        copy_of(desc).is_shared,
        copy_of(desc).has_nt_handle,
        cache_for(desc).width == desc.width,
        cache_for(desc).height == desc.height,
        cache_for(desc).format == desc.format,
        cache_for(desc).has_texture,
        shared_by(handle, desc, adapter_luid).handle == handle,
        shared_by(handle, desc, adapter_luid).width == desc.width,
        shared_by(handle, desc, adapter_luid).height == desc.height,
        shared_by(handle, desc, adapter_luid).format == desc.format,
        shared_by(handle, desc, adapter_luid).adapter_luid == adapter_luid,
{
}

} // verus!
