//! The GPU resource cache of the compositing stage, as the decisions it
//! makes: which resources each update creates, at which size, and which draws
//! each render target gets. The resources themselves are made by the caller.
use crate::cache::RenderSnapshot;
use crate::frame::FrameView;
use vstd::prelude::*;

verus! {

/// Indices drawn for the full-screen quad: two triangles.
pub const QUAD_INDEX_COUNT: u32 = 6;

/// The quad's two triangles over its four corners (bottom left, bottom right,
/// top left, top right).
pub open spec fn quad_index_seq() -> Seq<u16> {
    seq![0u16, 1u16, 2u16, 2u16, 1u16, 3u16]
}

/// The index data of the full-screen quad.
pub fn quad_indices() -> (r: Vec<u16>)
    ensures
        r@ == quad_index_seq(),
{
    let r: Vec<u16> = vec![0u16, 1u16, 2u16, 2u16, 1u16, 3u16];
    proof { assert(r@ =~= quad_index_seq()); }
    r
}

/// Bytes of one vertex component, a 32-bit float.
pub const COMPONENT_BYTES: u64 = 4;

/// Components of a vertex position (x, y, z).
pub const POSITION_COMPONENTS: u32 = 3;

/// Components of a texture coordinate (u, v).
pub const TEX_COORD_COMPONENTS: u32 = 2;

/// One attribute of a vertex: where it starts, which shader input takes it,
/// and how many float components it has.
#[derive(Clone, Copy, Debug, PartialEq, Eq, Structural)]
pub struct VertexAttribute {
    pub offset: u64,
    pub shader_location: u32,
    pub components: u32,
}

/// The layout of the quad's vertex buffer: a position then a texture
/// coordinate, packed.
#[derive(Clone, Copy, Debug, PartialEq, Eq, Structural)]
pub struct VertexLayout {
    pub array_stride: u64,
    pub position: VertexAttribute,
    pub tex_coords: VertexAttribute,
}

/// The packed layout of a position followed by a texture coordinate.
pub open spec fn quad_vertex_layout_spec() -> VertexLayout {
    VertexLayout {
        array_stride: (COMPONENT_BYTES * (POSITION_COMPONENTS + TEX_COORD_COMPONENTS) as u64) as u64,
        position: VertexAttribute { offset: 0, shader_location: 0, components: POSITION_COMPONENTS },
        tex_coords: VertexAttribute {
            offset: (COMPONENT_BYTES * POSITION_COMPONENTS as u64) as u64,
            shader_location: 1,
            components: TEX_COORD_COMPONENTS,
        },
    }
}

/// The layout of the quad's vertex buffer.
pub fn quad_vertex_layout() -> (r: VertexLayout)
    ensures
        r == quad_vertex_layout_spec(),
        r.array_stride == 20 && r.tex_coords.offset == 12,
{
    VertexLayout {
        array_stride: COMPONENT_BYTES * (POSITION_COMPONENTS + TEX_COORD_COMPONENTS) as u64,
        position: VertexAttribute { offset: 0, shader_location: 0, components: POSITION_COMPONENTS },
        tex_coords: VertexAttribute {
            offset: COMPONENT_BYTES * POSITION_COMPONENTS as u64,
            shader_location: 1,
            components: TEX_COORD_COMPONENTS,
        },
    }
}

/// How a texture coordinate outside `0..1` is mapped.
#[derive(Clone, Copy, Debug, PartialEq, Eq, Structural)]
pub enum AddressMode {
    ClampToEdge,
    Repeat,
    MirrorRepeat,
}

/// How texels are combined when sampled.
#[derive(Clone, Copy, Debug, PartialEq, Eq, Structural)]
pub enum FilterMode {
    Nearest,
    Linear,
}

/// The sampling policy of a texture.
#[derive(Clone, Copy, Debug, PartialEq, Eq, Structural)]
pub struct SamplerPolicy {
    pub address_mode: AddressMode,
    pub mag_filter: FilterMode,
    pub min_filter: FilterMode,
    pub mipmap_filter: FilterMode,
}

/// The fixed policy of the background's sampler: clamped to the edge, linear
/// magnification, nearest minification and mip selection.
pub open spec fn background_sampler_spec() -> SamplerPolicy {
    SamplerPolicy {
        address_mode: AddressMode::ClampToEdge,
        mag_filter: FilterMode::Linear,
        min_filter: FilterMode::Nearest,
        mipmap_filter: FilterMode::Nearest,
    }
}

/// The background's sampler policy.
pub fn background_sampler() -> (r: SamplerPolicy)
    ensures
        r == background_sampler_spec(),
{
    SamplerPolicy {
        address_mode: AddressMode::ClampToEdge,
        mag_filter: FilterMode::Linear,
        min_filter: FilterMode::Nearest,
        mipmap_filter: FilterMode::Nearest,
    }
}

/// A texture to allocate and the layout of the bytes uploaded into it.
#[derive(Clone, Copy, Debug, PartialEq, Eq, Structural)]
pub struct TextureUpload {
    pub width: u32,
    pub height: u32,
    pub bytes_per_row: u32,
    pub rows_per_image: u32,
}

/// What one update asks the caller to create.
#[derive(Clone, Copy, Debug, PartialEq, Eq, Structural)]
pub struct UpdatePlan {
    /// Create the quad's vertex and index buffers.
    pub create_geometry: bool,
    /// Allocate a new texture and upload the snapshot into it.
    pub texture: TextureUpload,
    /// Create a new sampler with this policy.
    pub sampler: SamplerPolicy,
    /// Create a new bound resource set over the new texture and sampler.
    pub create_bound_set: bool,
}

/// Why an update cannot proceed.
#[derive(Clone, Copy, Debug, PartialEq, Eq, Structural)]
pub enum GpuResourceError {
    /// A row of the frame, at four bytes per pixel, does not fit a `u32`.
    RowTooWide,
}

/// One draw issued for one render target.
#[derive(Clone, Copy, Debug, PartialEq, Eq, Structural)]
pub struct DrawCommand {
    /// The pass keeps what the target already holds instead of clearing it.
    pub load_existing: bool,
    pub first_index: u32,
    pub index_count: u32,
    pub base_vertex: i32,
    pub instance_count: u32,
}

/// The draw of the full-screen quad.
pub open spec fn quad_draw() -> DrawCommand {
    DrawCommand {
        load_existing: true,
        first_index: 0,
        index_count: QUAD_INDEX_COUNT,
        base_vertex: 0,
        instance_count: 1,
    }
}

/// What the cache holds, as plain values.
pub struct GpuCacheView {
    pub geometry_ready: bool,
    pub texture_size: Option<(u32, u32)>,
    pub bound_set_ready: bool,
}

/// A snapshot's rows fit the upload layout.
pub open spec fn upload_fits(snap: FrameView) -> bool {
    4 * snap.width <= u32::MAX
}

/// The upload of a snapshot.
pub open spec fn upload_of(snap: FrameView) -> TextureUpload {
    TextureUpload {
        width: snap.width,
        height: snap.height,
        bytes_per_row: (4 * snap.width) as u32,
        rows_per_image: snap.height,
    }
}

/// The cache after an update with `snap`.
pub open spec fn next_state(s: GpuCacheView, snap: FrameView) -> GpuCacheView {
    if upload_fits(snap) {
        GpuCacheView {
            geometry_ready: true,
            texture_size: Some((snap.width, snap.height)),
            bound_set_ready: true,
        }
    } else {
        s
    }
}

/// The update with `snap` creates the quad geometry.
pub open spec fn creates_geometry(s: GpuCacheView, snap: FrameView) -> bool {
    upload_fits(snap) && !s.geometry_ready
}

/// The plan of an update with `snap` that succeeds.
pub open spec fn plan_of(s: GpuCacheView, snap: FrameView) -> UpdatePlan {
    UpdatePlan {
        create_geometry: !s.geometry_ready,
        texture: upload_of(snap),
        sampler: background_sampler_spec(),
        create_bound_set: true,
    }
}

/// The cache after updates with each of `snaps`, in order.
pub open spec fn run_updates(s: GpuCacheView, snaps: Seq<FrameView>) -> GpuCacheView
    decreases snaps.len(),
{
    if snaps.len() == 0 {
        s
    } else {
        next_state(run_updates(s, snaps.drop_last()), snaps.last())
    }
}

/// How many of the updates with each of `snaps` create the quad geometry.
pub open spec fn geometry_creations(s: GpuCacheView, snaps: Seq<FrameView>) -> nat
    decreases snaps.len(),
{
    if snaps.len() == 0 {
        0
    } else {
        geometry_creations(s, snaps.drop_last()) + if creates_geometry(
            run_updates(s, snaps.drop_last()),
            snaps.last(),
        ) {
            1nat
        } else {
            0nat
        }
    }
}

/// The compositing stage's resource cache.
pub struct BackgroundNode {
    geometry_ready: bool,
    texture_size: Option<(u32, u32)>,
    bound_set_ready: bool,
}

impl View for BackgroundNode {
    type V = GpuCacheView;

    closed spec fn view(&self) -> GpuCacheView {
        GpuCacheView {
            geometry_ready: self.geometry_ready,
            texture_size: self.texture_size,
            bound_set_ready: self.bound_set_ready,
        }
    }
}

impl BackgroundNode {
    /// A cache that holds nothing yet.
    pub fn new() -> (r: BackgroundNode)
        ensures
            r@ == (GpuCacheView { geometry_ready: false, texture_size: None, bound_set_ready: false }),
    {
        BackgroundNode { geometry_ready: false, texture_size: None, bound_set_ready: false }
    }

    /// Rebuilds the per-frame resources from `snapshot`: a new texture of its
    /// size, a new sampler and a new bound set, after the quad geometry on the
    /// first update. Fails, changing nothing, when a row of the snapshot does
    /// not fit the upload layout.
    pub fn update(&mut self, snapshot: &RenderSnapshot) -> (r: Result<UpdatePlan, GpuResourceError>)
        ensures
            final(self)@ == next_state(old(self)@, snapshot@),
            r is Ok <==> upload_fits(snapshot@),
            r is Ok ==> r->Ok_0 == plan_of(old(self)@, snapshot@),
            r is Ok ==> final(self)@.texture_size == Some((snapshot@.width, snapshot@.height)),
            r is Err ==> r->Err_0 == GpuResourceError::RowTooWide,
    {
        let frame = snapshot.frame();
        let width: u32 = frame.width();
        let height: u32 = frame.height();
        if width > u32::MAX / 4 {
            return Err(GpuResourceError::RowTooWide);
        }
        let plan = UpdatePlan {
            create_geometry: !self.geometry_ready,
            texture: TextureUpload {
                width,
                height,
                bytes_per_row: 4 * width,
                rows_per_image: height,
            },
            sampler: background_sampler(),
            create_bound_set: true,
        };
        self.geometry_ready = true;
        self.texture_size = Some((width, height));
        self.bound_set_ready = true;
        Ok(plan)
    }

    /// The quad is drawn only where its geometry and a bound set exist.
    pub open spec fn spec_can_draw(self) -> bool {
        self@.geometry_ready && self@.bound_set_ready
    }

    /// The draws of one frame over `targets` active render targets: one quad
    /// draw each, or none at all before the first update.
    pub fn draw_plan(&self, targets: usize) -> (r: Vec<DrawCommand>)
        ensures
            r@.len() == if self.spec_can_draw() {
                targets as int
            } else {
                0
            },
            forall|i: int| 0 <= i < r@.len() ==> #[trigger] r@[i] == quad_draw(),
    {
        let mut r: Vec<DrawCommand> = Vec::new();
        if self.geometry_ready && self.bound_set_ready {
            let mut i: usize = 0;
            while i < targets
                invariant
                    i <= targets,
                    r@.len() == i,
                    forall|k: int| 0 <= k < r@.len() ==> #[trigger] r@[k] == quad_draw(),
                decreases targets - i,
            {
                r.push(
                    DrawCommand {
                        load_existing: true,
                        first_index: 0,
                        index_count: QUAD_INDEX_COUNT,
                        base_vertex: 0,
                        instance_count: 1,
                    },
                );
                i = i + 1;
            }
        }
        r
    }
}

/// Across any number of updates the quad geometry is created at most once,
/// and never again once it exists.
pub proof fn lemma_geometry_created_once(s: GpuCacheView, snaps: Seq<FrameView>)
    ensures
        geometry_creations(s, snaps) <= 1,
        s.geometry_ready ==> geometry_creations(s, snaps) == 0,
        s.geometry_ready ==> run_updates(s, snaps).geometry_ready,
        geometry_creations(s, snaps) == 1 ==> run_updates(s, snaps).geometry_ready,
        run_updates(s, snaps).geometry_ready ==> (s.geometry_ready || geometry_creations(s, snaps) == 1),
    decreases snaps.len(),
{
    if snaps.len() > 0 {
        lemma_geometry_created_once(s, snaps.drop_last());
    }
}

/// After updates with each of `snaps`, the texture has the size of the last
/// snapshot, never an earlier one's.
pub proof fn lemma_texture_matches_last_snapshot(s: GpuCacheView, snaps: Seq<FrameView>)
    requires
        snaps.len() > 0,
        upload_fits(snaps.last()),
    ensures
        run_updates(s, snaps).texture_size == Some((snaps.last().width, snaps.last().height)),
{
}

} // verus!
