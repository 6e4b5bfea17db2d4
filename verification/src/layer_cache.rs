//! What the compositor keeps of a layer between frames: the stamp of the
//! frame it uploaded, and the decision, for the next frame, to rebuild the
//! layer's GPU resources, upload a new frame into them, or keep them.
use vstd::prelude::*;

verus! {

/// What identifies a source frame: its size and its timestamp (for a
/// decoded frame the bits of its `f64` timestamp, for a texture the caller's
/// stamp).
#[derive(Debug, Clone, Copy, PartialEq, Eq, Structural)]
pub struct FrameStamp {
    pub width: u32,
    pub height: u32,
    pub timestamp_bits: u64,
}

impl FrameStamp {
    /// The frame's size.
    pub fn size(self) -> (r: (u32, u32))
        ensures
            r == (self.width, self.height),
    {
        (self.width, self.height)
    }

    /// The stamp of a texture source of the given size.
    pub fn of_texture(size: (u32, u32), stamp: u64) -> (r: FrameStamp)
        ensures
            r == (FrameStamp { width: size.0, height: size.1, timestamp_bits: stamp }),
    {
        FrameStamp { width: size.0, height: size.1, timestamp_bits: stamp }
    }
}

/// What identifies a layer's mask: its cache key and size.
#[derive(Debug, Clone, Copy, PartialEq, Eq, Structural)]
pub struct MaskStamp {
    pub cache_key: u64,
    pub width: u32,
    pub height: u32,
}

/// What a layer's GPU resources were built for.
#[derive(Debug, Clone, Copy, PartialEq, Eq, Structural)]
pub struct LayerCache {
    pub frame_stamp: FrameStamp,
    /// The mask's stamp, when the layer has a mask.
    pub mask_stamp: Option<MaskStamp>,
    /// The length of the effect uniform.
    pub effect_uniform_len: usize,
    /// Whether the layer has separate effect passes.
    pub has_effect_passes: bool,
    /// Whether the layer owns the texture its frames are uploaded into.
    pub owns_texture: bool,
}

/// What the next frame of the layer asks for.
#[derive(Debug, Clone, Copy, PartialEq, Eq, Structural)]
pub struct LayerRequest {
    pub frame_stamp: FrameStamp,
    pub mask_stamp: Option<MaskStamp>,
    pub effect_uniform_len: usize,
    /// Whether one of the effects runs as separate passes.
    pub requires_sequential_passes: bool,
    /// Whether the existing effect passes still fit the effects.
    pub passes_match_effects: bool,
    /// Whether the source is a decoded frame (else a texture).
    pub source_is_frame: bool,
}

/// How a layer's GPU resources follow the next frame.
#[derive(Debug, Clone, Copy, PartialEq, Eq, Structural)]
pub enum LayerUpdate {
    /// Build them anew.
    Rebuild,
    /// Keep them, uploading the new frame into the layer's texture first.
    UploadFrame,
    /// Keep them as they are (only their uniforms are rewritten).
    Keep,
}

/// A layer is rebuilt when the frame size, the mask, the effect uniform's
/// length or the need for effect passes changed, when existing passes no
/// longer fit the effects, or when the source changed between a decoded
/// frame and a texture. Otherwise a decoded frame is uploaded only when its
/// stamp changed.
pub open spec fn layer_update_for(cache: LayerCache, next: LayerRequest) -> LayerUpdate {
    if cache.frame_stamp.width != next.frame_stamp.width || cache.frame_stamp.height
        != next.frame_stamp.height || cache.mask_stamp != next.mask_stamp
        || cache.effect_uniform_len != next.effect_uniform_len || cache.has_effect_passes
        != next.requires_sequential_passes || (cache.has_effect_passes
        && !next.passes_match_effects) || cache.owns_texture != next.source_is_frame {
        LayerUpdate::Rebuild
    } else if next.source_is_frame && cache.frame_stamp != next.frame_stamp {
        LayerUpdate::UploadFrame
    } else {
        LayerUpdate::Keep
    }
}

/// How the layer's GPU resources follow the next frame.
pub fn layer_update(cache: &LayerCache, next: &LayerRequest) -> (r: LayerUpdate)
    ensures
        r == layer_update_for(*cache, *next),
{
    let same_size = cache.frame_stamp.width == next.frame_stamp.width
        && cache.frame_stamp.height == next.frame_stamp.height;
    let same_mask = match (cache.mask_stamp, next.mask_stamp) {
        (Some(a), Some(b)) => a.cache_key == b.cache_key && a.width == b.width && a.height
            == b.height,
        (None, None) => true,
        _ => false,
    };
    if !same_size || !same_mask || cache.effect_uniform_len != next.effect_uniform_len
        || cache.has_effect_passes != next.requires_sequential_passes || (cache.has_effect_passes
        && !next.passes_match_effects) {
        return LayerUpdate::Rebuild;
    }
    if cache.owns_texture != next.source_is_frame {
        return LayerUpdate::Rebuild;
    }
    if next.source_is_frame && cache.frame_stamp.timestamp_bits != next.frame_stamp.timestamp_bits {
        LayerUpdate::UploadFrame
    } else {
        LayerUpdate::Keep
    }
}

/// The cache after the update: what the resources now hold.
pub open spec fn cache_after(cache: LayerCache, next: LayerRequest) -> LayerCache {
    LayerCache {
        frame_stamp: next.frame_stamp,
        mask_stamp: next.mask_stamp,
        effect_uniform_len: next.effect_uniform_len,
        has_effect_passes: next.requires_sequential_passes,
        owns_texture: next.source_is_frame,
    }
}

/// Once a layer has followed a frame, the same request again needs no
/// rebuild and no upload.
pub proof fn followed_layer_is_kept(cache: LayerCache, next: LayerRequest)
    requires
        next.requires_sequential_passes ==> next.passes_match_effects,
    ensures
        layer_update_for(cache_after(cache, next), next) == LayerUpdate::Keep,
{
}

/// A layer's resources are kept (with or without a new frame uploaded)
/// exactly when they were built for what the next frame asks: the same
/// frame size, mask, effect uniform length and need for effect passes,
/// passes that still fit the effects, and the same kind of source. A new
/// frame is uploaded only for a decoded frame whose stamp changed; a
/// texture source, or an unchanged frame, keeps the resources as they are.
pub proof fn kept_layers_match_the_request(cache: LayerCache, next: LayerRequest)
    ensures
        layer_update_for(cache, next) != LayerUpdate::Rebuild <==> {
            &&& cache.frame_stamp.width == next.frame_stamp.width
            &&& cache.frame_stamp.height == next.frame_stamp.height
            &&& cache.mask_stamp == next.mask_stamp
            &&& cache.effect_uniform_len == next.effect_uniform_len
            &&& cache.has_effect_passes == next.requires_sequential_passes
            &&& (cache.has_effect_passes ==> next.passes_match_effects)
            &&& cache.owns_texture == next.source_is_frame
        },
        layer_update_for(cache, next) == LayerUpdate::UploadFrame ==> next.source_is_frame
            && cache.frame_stamp.timestamp_bits != next.frame_stamp.timestamp_bits,
        layer_update_for(cache, next) == LayerUpdate::Keep ==> !next.source_is_frame
            || cache.frame_stamp == next.frame_stamp,
{
}

} // verus!
