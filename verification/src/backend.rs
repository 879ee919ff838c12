//! The renderer: what it keeps, and which calls it makes on the graphics library.
//!
//! A method that draws or sets something up returns the calls to be made, in
//! order. Where the outcome of calls decides how the renderer goes on, a second
//! method takes that outcome.
use vstd::prelude::*;

use crate::context::ContextChoice;
use crate::float::FloatBits;
use crate::geometry::{vec4, Color, Matrix, Matrix3, Matrix4, Transform, Vec4};
use crate::gl::{
    emit, emit_op, no_commands, Attachment, BlendFactor, Capability, ErrorSite, FramebufferTarget,
    GlCommand, GlError, GlName, GlOp, OnFailure, RenderbufferFormat, ResourceKind, StencilAction,
    TextureFormat, TextureParameter, TextureSetting, Uncreated, VertexArrayApi,
};
use crate::mesh::{
    bind_vertex_array, build_quad_mesh, flatten, upload, BitmapDraw, CharacterId, Draw, DrawNames,
    DrawType, Gradient, GradientInterpolation, Mesh, TessDraw,
};
use crate::shader::{ProgramKind, ShaderProgram, ShaderUniform};

verus! {

use crate::float::nearest;
use crate::gl::{calls, ops, GlCall};
use crate::mesh::{
    draw_calls, flattened, mesh_views, quad_calls, quad_draw, DrawTypeView, DrawView, GradientView,
};

/// What drawing currently does to masks.
#[derive(Debug, Clone, Copy, PartialEq, Eq, Structural)]
pub enum MaskState {
    NoMask,
    DrawMaskStencil,
    DrawMaskedContent,
    ClearMaskStencil,
}

/// Refers to a registered shape.
#[derive(Debug, Clone, Copy, PartialEq, Eq, Structural)]
pub struct ShapeHandle {
    pub index: usize,
}

/// Refers to a registered bitmap.
#[derive(Debug, Clone, Copy, PartialEq, Eq, Structural)]
pub struct BitmapHandle {
    pub index: usize,
}

#[derive(Debug, Clone, Copy, PartialEq, Eq, Structural)]
pub struct BitmapInfo {
    pub handle: BitmapHandle,
    pub width: u16,
    pub height: u16,
}

/// The pixels of a bitmap.
#[derive(Debug)]
pub enum BitmapFormat {
    Rgb(Vec<u8>),
    Rgba(Vec<u8>),
}

#[derive(Debug)]
pub struct Bitmap {
    pub width: u32,
    pub height: u32,
    pub data: BitmapFormat,
}

/// A bitmap in the graphics library.
#[derive(Debug, Clone, Copy, PartialEq, Eq, Structural)]
pub struct Texture {
    pub width: u32,
    pub height: u32,
    pub texture: GlName,
}

impl Bitmap {
    /// The bitmap in the graphics library, under a name.
    pub fn texture(&self, name: GlName) -> (texture: Texture)
        ensures
            texture.width == self.width,
            texture.height == self.height,
            texture.texture == name,
    {
        Texture { width: self.width, height: self.height, texture: name }
    }
}

/// The margins around the stage that are painted over.
///
/// `far` is where the margin at the far end begins: the size of the viewport
/// less `margin`.
#[derive(Debug, Clone, Copy, PartialEq, Eq, Structural)]
pub enum Letterbox {
    NoMargins,
    /// Margins at the bottom and at the top.
    Letterbox { margin: FloatBits, far: FloatBits },
    /// Margins on the left and on the right.
    Pillarbox { margin: FloatBits, far: FloatBits },
}

/// The frame buffers used for resolving MSAA.
#[derive(Debug, Clone, Copy, PartialEq, Eq, Structural)]
pub struct MsaaBuffers {
    pub color_renderbuffer: GlName,
    pub stencil_renderbuffer: GlName,
    pub render_framebuffer: GlName,
    pub color_framebuffer: GlName,
    pub framebuffer_texture: GlName,
}

/// What the graphics library was last told, so that it need not be told again.
#[derive(Debug, Clone, Copy)]
pub struct RenderCache {
    pub active_program: Option<ProgramKind>,
    pub blend_func: (BlendFactor, BlendFactor),
    pub mult_color: Option<Vec4>,
    pub add_color: Option<Vec4>,
}

pub struct WebGlRenderBackend {
    /// WebGL2 or WebGL1.
    pub api: VertexArrayApi,
    pub msaa_buffers: Option<MsaaBuffers>,
    pub msaa_sample_count: u32,
    pub color_program: ShaderProgram,
    pub bitmap_program: ShaderProgram,
    pub gradient_program: ShaderProgram,
    pub textures: Vec<(CharacterId, Texture)>,
    pub meshes: Vec<Mesh>,
    /// The unit square.
    pub quad_shape: ShapeHandle,
    pub mask_state: MaskState,
    pub num_masks: u32,
    pub mask_state_dirty: bool,
    pub cache: RenderCache,
    pub viewport_width: FloatBits,
    pub viewport_height: FloatBits,
    pub view_matrix: Matrix4,
}

/// The matrix that takes pixels, with the origin at the top left, to the square
/// from -1 to 1; `x_scale` is 2 divided by the width of the viewport, `y_scale`
/// is -2 divided by its height.
pub open spec fn view_matrix_of(x_scale: FloatBits, y_scale: FloatBits) -> Matrix4 {
    let zero = FloatBits::zero();
    let one = FloatBits::one();
    Matrix4 {
        c0: vec4(x_scale, zero, zero, zero),
        c1: vec4(zero, y_scale, zero, zero),
        c2: vec4(zero, zero, one, zero),
        c3: vec4(FloatBits::minus_one(), one, zero, one),
    }
}

/// The matrix that takes the unit square to the square from -1 to 1.
pub open spec fn full_screen_matrix() -> Matrix4 {
    let zero = FloatBits::zero();
    let one = FloatBits::one();
    let two = FloatBits::two();
    let minus_one = FloatBits::minus_one();
    Matrix4 {
        c0: vec4(two, zero, zero, zero),
        c1: vec4(zero, two, zero, zero),
        c2: vec4(zero, zero, one, zero),
        c3: vec4(minus_one, minus_one, zero, one),
    }
}

/// 1 in all channels.
pub open spec fn all_ones() -> Vec4 {
    let one = FloatBits::one();
    vec4(one, one, one, one)
}

/// 0 in all channels.
pub open spec fn all_zeros() -> Vec4 {
    let zero = FloatBits::zero();
    vec4(zero, zero, zero, zero)
}

/// What a rectangle of a color has added to its channels: 255 times the channels
/// of the color.
pub open spec fn rect_add_color(color: Color) -> Vec4 {
    vec4(
        nearest((color.r * 255) as u32),
        nearest((color.g * 255) as u32),
        nearest((color.b * 255) as u32),
        nearest((color.a * 255) as u32),
    )
}

/// The first texture that was registered under a number.
pub open spec fn find_texture(
    textures: Seq<(CharacterId, Texture)>,
    id: CharacterId,
) -> Option<Texture>
    decreases textures.len(),
{
    if textures.len() == 0 {
        None
    } else if textures[0].0 == id {
        Some(textures[0].1)
    } else {
        find_texture(textures.drop_first(), id)
    }
}

/// The calls that set up the graphics library once and for all.
pub open spec fn setup_ops() -> Seq<GlOp> {
    seq![
        GlOp::Enable(Capability::Blend),
        GlOp::BlendFunc(BlendFactor::SrcAlpha, BlendFactor::OneMinusSrcAlpha),
        GlOp::UnpackAlignment(1),
    ]
}

/// The calls that delete frame buffers.
pub open spec fn delete_msaa_ops(buffers: MsaaBuffers) -> Seq<GlOp> {
    seq![
        GlOp::DeleteRenderbuffer(buffers.color_renderbuffer),
        GlOp::DeleteRenderbuffer(buffers.stencil_renderbuffer),
        GlOp::DeleteFramebuffer(buffers.render_framebuffer),
        GlOp::DeleteFramebuffer(buffers.color_framebuffer),
        GlOp::DeleteTexture(buffers.framebuffer_texture),
    ]
}

/// A call that creates an object, or fails with an error.
pub open spec fn create_op(kind: ResourceKind, name: GlName, uncreated: Uncreated) -> GlOp {
    GlOp::Create { kind, name, on_failure: OnFailure::Error(uncreated) }
}

/// The calls that create frame buffers, up to the texture that the frame is
/// resolved into.
pub open spec fn create_msaa_ops(
    names: MsaaBuffers,
    samples: i32,
    width: i32,
    height: i32,
) -> Seq<GlOp> {
    seq![
        create_op(ResourceKind::Framebuffer, names.render_framebuffer, Uncreated::Framebuffer),
        create_op(ResourceKind::Framebuffer, names.color_framebuffer, Uncreated::Framebuffer),
        create_op(ResourceKind::Renderbuffer, names.color_renderbuffer, Uncreated::Renderbuffer),
        GlOp::BindRenderbuffer(Some(names.color_renderbuffer)),
        GlOp::RenderbufferStorageMultisample {
            samples,
            format: RenderbufferFormat::Rgb8,
            width,
            height,
        },
        GlOp::CheckError(ErrorSite::ColorStorage),
        create_op(ResourceKind::Renderbuffer, names.stencil_renderbuffer, Uncreated::Renderbuffer),
        GlOp::BindRenderbuffer(Some(names.stencil_renderbuffer)),
        GlOp::RenderbufferStorageMultisample {
            samples,
            format: RenderbufferFormat::StencilIndex8,
            width,
            height,
        },
        GlOp::CheckError(ErrorSite::StencilStorage),
        GlOp::BindFramebuffer(FramebufferTarget::Framebuffer, Some(names.render_framebuffer)),
        GlOp::FramebufferRenderbuffer(Attachment::Color0, names.color_renderbuffer),
        GlOp::FramebufferRenderbuffer(Attachment::Stencil, names.stencil_renderbuffer),
        create_op(ResourceKind::Texture, names.framebuffer_texture, Uncreated::Texture),
        GlOp::BindTexture(Some(names.framebuffer_texture)),
        GlOp::TexParameter(TextureParameter::MagFilter, TextureSetting::Nearest),
        GlOp::TexParameter(TextureParameter::MinFilter, TextureSetting::Nearest),
        GlOp::TexParameter(TextureParameter::WrapS, TextureSetting::ClampToEdge),
        GlOp::TexParameter(TextureParameter::WrapT, TextureSetting::ClampToEdge),
    ]
}

/// The calls that attach the texture that the frame is resolved into.
pub open spec fn attach_msaa_ops(names: MsaaBuffers) -> Seq<GlOp> {
    seq![
        GlOp::BindTexture(None),
        GlOp::BindFramebuffer(FramebufferTarget::Framebuffer, Some(names.color_framebuffer)),
        GlOp::FramebufferTexture2d(names.framebuffer_texture),
        GlOp::BindFramebuffer(FramebufferTarget::Framebuffer, None),
    ]
}

/// The calls that load a bitmap into a texture.
pub open spec fn bitmap_calls(bitmap: Bitmap, texture: GlName) -> Seq<GlCall> {
    let (format, pixels) = match bitmap.data {
        BitmapFormat::Rgb(data) => (TextureFormat::Rgb, data@),
        BitmapFormat::Rgba(data) => (TextureFormat::Rgba, data@),
    };
    ops(
        seq![
            GlOp::Create {
                kind: ResourceKind::Texture,
                name: texture,
                on_failure: OnFailure::Panic,
            },
            GlOp::BindTexture(Some(texture)),
        ],
    ) + seq![
        GlCall::TexImage2d {
            format,
            width: bitmap.width as i32,
            height: bitmap.height as i32,
            pixels: Some(pixels),
        },
    ] + ops(
        seq![
            GlOp::TexParameter(TextureParameter::WrapS, TextureSetting::ClampToEdge),
            GlOp::TexParameter(TextureParameter::WrapT, TextureSetting::ClampToEdge),
            GlOp::TexParameter(TextureParameter::MinFilter, TextureSetting::Linear),
            GlOp::TexParameter(TextureParameter::MagFilter, TextureSetting::Linear),
        ],
    )
}

/// Where and in which colors something is drawn, as the shaders take it.
pub struct Placement {
    pub world: Matrix4,
    pub mult_color: Vec4,
    pub add_color: Vec4,
}

/// Whether a color is already known to the program.
pub open spec fn is_cached(cached: Option<Vec4>, color: Vec4) -> bool {
    cached matches Some(cached) && color.same_numbers(cached)
}

impl WebGlRenderBackend {
    /// Frames are drawn with more than one sample per pixel.
    pub open spec fn uses_msaa(&self) -> bool {
        self.api == VertexArrayApi::WebGl2 && self.msaa_sample_count > 1
    }

    /// The unit square is there.
    pub open spec fn has_quad(&self) -> bool {
        &&& self.quad_shape.index < self.meshes@.len()
        &&& self.meshes@[self.quad_shape.index as int].draws@.len() > 0
    }

    /// - There is a mask exactly while masks are being used.
    /// - What is drawn is mixed as the program in use wants it.
    /// - There are frame buffers for MSAA only where it is used.
    /// - The stencil state is always set anew.
    pub open spec fn wf(&self) -> bool {
        &&& self.num_masks == 0 <==> self.mask_state == MaskState::NoMask
        &&& self.cache.active_program matches Some(kind) ==> self.cache.blend_func
            == kind.spec_blend()
        &&& self.msaa_buffers is Some ==> self.uses_msaa()
        &&& self.mask_state_dirty
    }

    /// The renderer with one mask more, whose shape is drawn next.
    pub open spec fn mask_pushed(&self) -> WebGlRenderBackend {
        WebGlRenderBackend {
            num_masks: (self.num_masks + 1) as u32,
            mask_state: MaskState::DrawMaskStencil,
            mask_state_dirty: true,
            ..*self
        }
    }

    /// The renderer with masked content drawn next.
    pub open spec fn mask_activated(&self) -> WebGlRenderBackend {
        WebGlRenderBackend {
            mask_state: MaskState::DrawMaskedContent,
            mask_state_dirty: true,
            ..*self
        }
    }

    /// The renderer with the shape of a mask drawn next, to remove it.
    pub open spec fn mask_deactivated(&self) -> WebGlRenderBackend {
        WebGlRenderBackend {
            mask_state: MaskState::ClearMaskStencil,
            mask_state_dirty: true,
            ..*self
        }
    }

    /// The renderer with one mask less, and what the others mask drawn next.
    pub open spec fn mask_popped(&self) -> WebGlRenderBackend {
        WebGlRenderBackend {
            num_masks: (self.num_masks - 1) as u32,
            mask_state: if self.num_masks == 1 {
                MaskState::NoMask
            } else {
                MaskState::DrawMaskedContent
            },
            mask_state_dirty: true,
            ..*self
        }
    }

    /// A program of the renderer.
    pub open spec fn spec_program(&self, kind: ProgramKind) -> ShaderProgram {
        match kind {
            ProgramKind::Color => self.color_program,
            ProgramKind::Gradient => self.gradient_program,
            ProgramKind::Bitmap => self.bitmap_program,
        }
    }

    /// The calls that set the stencil state for masking.
    ///
    /// - Without masks, everything is drawn.
    /// - While a mask is being drawn, nothing is drawn but into the stencil
    ///   buffer: one level up, where all earlier masks are.
    /// - Content is drawn where all masks are.
    /// - While a mask is being removed, the stencil buffer goes one level down,
    ///   where all masks are.
    pub open spec fn stencil_ops(&self) -> Seq<GlOp> {
        let keep = StencilAction::Keep;
        if !self.mask_state_dirty {
            Seq::empty()
        } else {
            match self.mask_state {
                MaskState::NoMask => seq![
                    GlOp::Disable(Capability::StencilTest),
                    GlOp::ColorMask(true),
                ],
                MaskState::DrawMaskStencil => seq![
                    GlOp::Enable(Capability::StencilTest),
                    GlOp::StencilFuncEqual { reference: (self.num_masks - 1) as i32, mask: 0xff },
                    GlOp::StencilOp(keep, keep, StencilAction::Incr),
                    GlOp::ColorMask(false),
                ],
                MaskState::DrawMaskedContent => seq![
                    GlOp::Enable(Capability::StencilTest),
                    GlOp::StencilFuncEqual { reference: self.num_masks as i32, mask: 0xff },
                    GlOp::StencilOp(keep, keep, keep),
                    GlOp::ColorMask(true),
                ],
                MaskState::ClearMaskStencil => seq![
                    GlOp::Enable(Capability::StencilTest),
                    GlOp::StencilFuncEqual { reference: self.num_masks as i32, mask: 0xff },
                    GlOp::StencilOp(keep, keep, StencilAction::Decr),
                    GlOp::ColorMask(false),
                ],
            }
        }
    }

    /// The calls that build the frame buffers for MSAA, and delete those that
    /// were there; or the calls that make do without.
    pub open spec fn msaa_calls(&self, names: MsaaBuffers) -> Seq<GlCall> {
        if !self.uses_msaa() {
            ops(
                seq![
                    GlOp::BindFramebuffer(FramebufferTarget::Framebuffer, None),
                    GlOp::BindRenderbuffer(None),
                ],
            )
        } else {
            let width = self.viewport_width.truncated();
            let height = self.viewport_height.truncated();
            ops(
                match self.msaa_buffers {
                    Some(buffers) => delete_msaa_ops(buffers),
                    None => Seq::empty(),
                },
            ) + ops(create_msaa_ops(names, self.msaa_sample_count as i32, width, height)) + seq![
                GlCall::TexImage2d { format: TextureFormat::Rgb, width, height, pixels: None },
            ] + ops(attach_msaa_ops(names))
        }
    }

    /// The renderer with a viewport of another size.
    pub open spec fn resized(&self, width: u32, height: u32) -> WebGlRenderBackend {
        WebGlRenderBackend {
            viewport_width: nearest(width),
            viewport_height: nearest(height),
            ..*self
        }
    }

    /// The calls that set the size of the viewport and build the frame buffers
    /// anew.
    pub open spec fn resize_calls(
        &self,
        width: u32,
        height: u32,
        names: MsaaBuffers,
    ) -> Seq<GlCall> {
        seq![
            GlCall::Op(GlOp::Viewport { x: 0, y: 0, width: width as i32, height: height as i32 }),
        ] + self.resized(width, height).msaa_calls(names)
    }

    /// The calls that hand over the first `count` groups of triangles of a
    /// shape.
    pub open spec fn shape_calls(
        &self,
        shape: Seq<TessDraw>,
        names: Seq<DrawNames>,
        count: nat,
    ) -> Seq<GlCall>
        decreases count,
    {
        if count == 0 {
            Seq::empty()
        } else {
            let last = count - 1;
            self.shape_calls(shape, names, last as nat) + draw_calls(
                shape[last],
                self.api,
                names[last],
                self.spec_program(shape[last].program()),
            )
        }
    }

    /// The calls that make a program the one in use, where it is not, and what
    /// is then known to be set.
    pub open spec fn switch_program(&self, cache: RenderCache, kind: ProgramKind) -> (
        Seq<GlOp>,
        RenderCache,
    ) {
        let program = self.spec_program(kind);
        if cache.active_program == Some(kind) {
            (Seq::empty(), cache)
        } else {
            (
                seq![
                    GlOp::UseProgram(program.program),
                    GlOp::UniformMatrix4(
                        program.location_of(ShaderUniform::ViewMatrix),
                        self.view_matrix,
                    ),
                ] + if cache.blend_func == kind.spec_blend() {
                    Seq::empty()
                } else {
                    seq![GlOp::BlendFunc(kind.spec_blend().0, kind.spec_blend().1)]
                },
                RenderCache {
                    active_program: Some(kind),
                    blend_func: kind.spec_blend(),
                    mult_color: None,
                    add_color: None,
                },
            )
        }
    }

    /// The calls that tell the program in use where and in which colors to
    /// draw, and what is then known to be set.
    pub open spec fn place(
        &self,
        cache: RenderCache,
        kind: ProgramKind,
        placement: Placement,
    ) -> (Seq<GlOp>, RenderCache) {
        let program = self.spec_program(kind);
        let mult_known = is_cached(cache.mult_color, placement.mult_color);
        let add_known = is_cached(cache.add_color, placement.add_color);
        (
            seq![
                GlOp::UniformMatrix4(
                    program.location_of(ShaderUniform::WorldMatrix),
                    placement.world,
                ),
            ] + if mult_known {
                Seq::empty()
            } else {
                seq![
                    GlOp::Uniform4f(
                        program.location_of(ShaderUniform::MultColor),
                        placement.mult_color,
                    ),
                ]
            } + if add_known {
                Seq::empty()
            } else {
                seq![
                    GlOp::Uniform4f(
                        program.location_of(ShaderUniform::AddColor),
                        placement.add_color,
                    ),
                ]
            },
            RenderCache {
                active_program: cache.active_program,
                blend_func: cache.blend_func,
                mult_color: if mult_known {
                    cache.mult_color
                } else {
                    Some(placement.mult_color)
                },
                add_color: if add_known {
                    cache.add_color
                } else {
                    Some(placement.add_color)
                },
            },
        )
    }

    /// The calls that set the state that all draws have in common, without
    /// those that would change nothing; and what is then known to be set.
    pub open spec fn common_state(
        &self,
        cache: RenderCache,
        kind: ProgramKind,
        placement: Placement,
    ) -> (Seq<GlOp>, RenderCache) {
        let (switch_ops, switched) = self.switch_program(cache, kind);
        let (place_ops, placed) = self.place(switched, kind, placement);
        (switch_ops + place_ops, placed)
    }

    /// The calls that tell the gradient program about a gradient.
    pub open spec fn gradient_calls(&self, gradient: GradientView) -> Seq<GlCall> {
        let program = self.gradient_program;
        seq![
            GlCall::Op(
                GlOp::UniformMatrix3(
                    program.location_of(ShaderUniform::TextureMatrix),
                    gradient.matrix,
                ),
            ),
            GlCall::Op(
                GlOp::Uniform1i(
                    program.location_of(ShaderUniform::GradientType),
                    gradient.gradient_type,
                ),
            ),
            GlCall::Uniform1fv {
                location: program.location_of(ShaderUniform::GradientRatios),
                values: gradient.ratios,
            },
            GlCall::Uniform4fv {
                location: program.location_of(ShaderUniform::GradientColors),
                values: flattened(gradient.colors),
            },
            GlCall::Op(
                GlOp::Uniform1i(
                    program.location_of(ShaderUniform::GradientNumColors),
                    gradient.num_colors as i32,
                ),
            ),
            GlCall::Op(
                GlOp::Uniform1i(
                    program.location_of(ShaderUniform::GradientRepeatMode),
                    gradient.repeat_mode,
                ),
            ),
            GlCall::Op(
                GlOp::Uniform1f(
                    program.location_of(ShaderUniform::GradientFocalPoint),
                    gradient.focal_point,
                ),
            ),
            GlCall::Op(
                GlOp::Uniform1i(
                    program.location_of(ShaderUniform::GradientInterpolation),
                    if gradient.interpolation == GradientInterpolation::LinearRgb {
                        1
                    } else {
                        0
                    },
                ),
            ),
        ]
    }

    /// The calls that tell the bitmap program about a bitmap. On WebGL1 a
    /// bitmap cannot repeat.
    pub open spec fn bitmap_draw_ops(&self, bitmap: BitmapDraw, texture: Texture) -> Seq<GlOp> {
        let program = self.bitmap_program;
        let filter = if bitmap.is_smoothed {
            TextureSetting::Linear
        } else {
            TextureSetting::Nearest
        };
        let wrap = if self.api == VertexArrayApi::WebGl2 && bitmap.is_repeating {
            TextureSetting::MirroredRepeat
        } else {
            TextureSetting::ClampToEdge
        };
        seq![
            GlOp::UniformMatrix3(program.location_of(ShaderUniform::TextureMatrix), bitmap.matrix),
            GlOp::ActiveTexture0,
            GlOp::BindTexture(Some(texture.texture)),
            GlOp::Uniform1i(program.location_of(ShaderUniform::BitmapTexture), 0),
            GlOp::TexParameter(TextureParameter::MagFilter, filter),
            GlOp::TexParameter(TextureParameter::MinFilter, filter),
            GlOp::TexParameter(TextureParameter::WrapS, wrap),
            GlOp::TexParameter(TextureParameter::WrapT, wrap),
        ]
    }

    /// The calls that draw triangles, once the common state is set. A bitmap
    /// that is not registered is not drawn.
    pub open spec fn paint_calls(&self, draw: DrawView) -> Seq<GlCall> {
        let paint = seq![GlCall::Op(GlOp::DrawElements { count: draw.num_indices })];
        match draw.draw_type {
            DrawTypeView::Color => paint,
            DrawTypeView::Gradient(gradient) => self.gradient_calls(gradient) + paint,
            DrawTypeView::Bitmap(bitmap) => match find_texture(self.textures@, bitmap.id) {
                Some(texture) => ops(self.bitmap_draw_ops(bitmap, texture)) + paint,
                None => Seq::empty(),
            },
        }
    }

    /// The calls that draw one group of triangles, and what is then known to be
    /// set.
    pub open spec fn draw_step(
        &self,
        cache: RenderCache,
        draw: DrawView,
        placement: Placement,
    ) -> (Seq<GlCall>, RenderCache) {
        let (common_ops, next) = self.common_state(cache, draw_program(draw), placement);
        (
            ops(seq![GlOp::BindVertexArray(self.api, Some(draw.vao))]) + ops(common_ops)
                + self.paint_calls(draw),
            next,
        )
    }

    /// The calls that draw the first `count` groups of triangles of a mesh, and
    /// what is then known to be set.
    pub open spec fn draw_steps(
        &self,
        cache: RenderCache,
        draws: Seq<DrawView>,
        placement: Placement,
        count: nat,
    ) -> (Seq<GlCall>, RenderCache)
        decreases count,
    {
        if count == 0 {
            (Seq::empty(), cache)
        } else {
            let (before, cache) = self.draw_steps(cache, draws, placement, (count - 1) as nat);
            let (step, next) = self.draw_step(cache, draws[count - 1], placement);
            (before + step, next)
        }
    }

    /// The calls that draw a mesh, and what is then known to be set.
    pub open spec fn render_result(&self, draws: Seq<DrawView>, placement: Placement) -> (
        Seq<GlCall>,
        RenderCache,
    ) {
        let (steps, next) = self.draw_steps(self.cache, draws, placement, draws.len());
        (ops(self.stencil_ops()) + steps, next)
    }

    /// The calls that draw a rectangle, and what is then known to be set.
    pub open spec fn rect_result(&self, placement: Placement) -> (Seq<GlOp>, RenderCache) {
        let quad = self.meshes@[self.quad_shape.index as int]@[0];
        let (common_ops, next) = self.common_state(self.cache, ProgramKind::Color, placement);
        (
            self.stencil_ops() + common_ops + seq![
                GlOp::BindVertexArray(self.api, Some(quad.vao)),
                GlOp::DrawElements { count: quad.num_indices },
            ],
            next,
        )
    }

    /// The calls that begin a frame.
    pub open spec fn begin_frame_ops(&self, clear: Vec4) -> Seq<GlOp> {
        let bind = match self.msaa_buffers {
            Some(buffers) => seq![
                GlOp::BindFramebuffer(
                    FramebufferTarget::Framebuffer,
                    Some(buffers.render_framebuffer),
                ),
            ],
            None => Seq::empty(),
        };
        bind + seq![
            GlOp::Disable(Capability::StencilTest),
            GlOp::ColorMask(true),
            GlOp::ClearColor(clear),
            GlOp::StencilMask(0xff),
            GlOp::Clear { color: true, stencil: true },
        ]
    }

    /// The calls that end a frame: with MSAA, the frame is resolved into a
    /// texture, and that is drawn onto the screen.
    pub open spec fn end_frame_ops(&self) -> Seq<GlOp> {
        match (self.api, self.msaa_buffers) {
            (VertexArrayApi::WebGl2, Some(buffers)) => {
                let program = self.bitmap_program;
                let quad = self.meshes@[self.quad_shape.index as int]@[0];
                seq![
                    GlOp::Disable(Capability::StencilTest),
                    GlOp::BindFramebuffer(
                        FramebufferTarget::ReadFramebuffer,
                        Some(buffers.render_framebuffer),
                    ),
                    GlOp::BindFramebuffer(
                        FramebufferTarget::DrawFramebuffer,
                        Some(buffers.color_framebuffer),
                    ),
                    GlOp::BlitColors {
                        width: self.viewport_width.truncated(),
                        height: self.viewport_height.truncated(),
                    },
                    GlOp::BindFramebuffer(FramebufferTarget::Framebuffer, None),
                    GlOp::UseProgram(program.program),
                    GlOp::UniformMatrix4(
                        program.location_of(ShaderUniform::WorldMatrix),
                        full_screen_matrix(),
                    ),
                    GlOp::UniformMatrix4(
                        program.location_of(ShaderUniform::ViewMatrix),
                        Matrix4::spec_identity(),
                    ),
                    GlOp::Uniform4f(program.location_of(ShaderUniform::MultColor), all_ones()),
                    GlOp::Uniform4f(program.location_of(ShaderUniform::AddColor), all_zeros()),
                    GlOp::UniformMatrix3(
                        program.location_of(ShaderUniform::TextureMatrix),
                        Matrix3::spec_identity(),
                    ),
                    GlOp::ActiveTexture0,
                    GlOp::BindTexture(Some(buffers.framebuffer_texture)),
                    GlOp::Uniform1i(program.location_of(ShaderUniform::BitmapTexture), 0),
                    GlOp::BindVertexArray(self.api, Some(quad.vao)),
                    GlOp::DrawElements { count: quad.num_indices },
                ]
            },
            _ => Seq::empty(),
        }
    }

    /// The calls that paint over the margins.
    pub open spec fn letterbox_ops(&self, letterbox: Letterbox) -> Seq<GlOp> {
        let width = self.viewport_width.truncated();
        let height = self.viewport_height.truncated();
        let clear = GlOp::Clear { color: true, stencil: false };
        self.stencil_ops() + seq![GlOp::ClearColor(all_zeros())] + match letterbox {
            Letterbox::NoMargins => Seq::empty(),
            Letterbox::Letterbox { margin, far } => seq![
                GlOp::Enable(Capability::ScissorTest),
                GlOp::Scissor { x: 0, y: 0, width, height: margin.truncated() },
                clear,
                GlOp::Scissor {
                    x: 0,
                    y: far.truncated(),
                    width,
                    height: (margin.truncated() + 1) as i32,
                },
                clear,
                GlOp::Disable(Capability::ScissorTest),
            ],
            Letterbox::Pillarbox { margin, far } => seq![
                GlOp::Enable(Capability::ScissorTest),
                GlOp::Scissor { x: 0, y: 0, width: margin.truncated(), height },
                clear,
                GlOp::Scissor {
                    x: far.truncated(),
                    y: 0,
                    width: (margin.truncated() + 1) as i32,
                    height,
                },
                clear,
                GlOp::Scissor { x: 0, y: 0, width, height },
                GlOp::Disable(Capability::ScissorTest),
            ],
        }
    }
}

/// The program that triangles are drawn with.
pub open spec fn draw_program(draw: DrawView) -> ProgramKind {
    match draw.draw_type {
        DrawTypeView::Color => ProgramKind::Color,
        DrawTypeView::Gradient(_) => ProgramKind::Gradient,
        DrawTypeView::Bitmap(_) => ProgramKind::Bitmap,
    }
}

/// Where and in which colors a transform has things drawn.
pub open spec fn placement_of(transform: Transform) -> Placement {
    Placement {
        world: transform.matrix.spec_world(),
        mult_color: transform.color_transform.spec_mult(),
        add_color: transform.color_transform.spec_add(),
    }
}

/// Where and in which color a rectangle is drawn.
pub open spec fn rect_placement(color: Color, matrix: Matrix) -> Placement {
    Placement {
        world: matrix.spec_world(),
        mult_color: all_ones(),
        add_color: rect_add_color(color),
    }
}

impl WebGlRenderBackend {
    /// A renderer that draws with a context and with linked programs, and the
    /// calls that set it up. The viewport is 500 pixels wide and high, with the
    /// scales that go with it. The frame buffers are still to be built.
    pub fn new(
        context: ContextChoice,
        color_program: ShaderProgram,
        bitmap_program: ShaderProgram,
        gradient_program: ShaderProgram,
        quad_names: DrawNames,
        x_scale: FloatBits,
        y_scale: FloatBits,
    ) -> (result: (WebGlRenderBackend, Vec<GlCommand>))
        ensures
            result.0.wf(),
            result.0.has_quad(),
            result.0.api == context.api,
            result.0.msaa_sample_count == context.msaa_sample_count,
            result.0.msaa_buffers is None,
            result.0.color_program == color_program,
            result.0.bitmap_program == bitmap_program,
            result.0.gradient_program == gradient_program,
            result.0.textures@.len() == 0,
            mesh_views(result.0.meshes@) == seq![seq![quad_draw(quad_names)]],
            result.0.quad_shape == (ShapeHandle { index: 0 }),
            result.0.mask_state == MaskState::NoMask,
            result.0.num_masks == 0,
            result.0.cache == (RenderCache {
                active_program: None,
                blend_func: (BlendFactor::SrcAlpha, BlendFactor::OneMinusSrcAlpha),
                mult_color: None,
                add_color: None,
            }),
            result.0.viewport_width == nearest(500),
            result.0.viewport_height == nearest(500),
            result.0.view_matrix == view_matrix_of(x_scale, y_scale),
            calls(result.1@) == ops(setup_ops()) + quad_calls(
                context.api,
                quad_names,
                bitmap_program,
            ),
    {
        let mut commands: Vec<GlCommand> = no_commands();
        emit_op(&mut commands, GlOp::Enable(Capability::Blend));
        emit_op(
            &mut commands,
            GlOp::BlendFunc(BlendFactor::SrcAlpha, BlendFactor::OneMinusSrcAlpha),
        );
        // Necessary to load RGB textures (alignment defaults to 4).
        emit_op(&mut commands, GlOp::UnpackAlignment(1));
        assert(calls(commands@) =~= ops(setup_ops()));
        let quad_mesh: Mesh = build_quad_mesh(
            &mut commands,
            context.api,
            quad_names,
            &bitmap_program,
        );
        assert(quad_mesh.draws@.len() == quad_mesh@.len());
        let meshes: Vec<Mesh> = vec![quad_mesh];
        assert(mesh_views(meshes@) =~= seq![seq![quad_draw(quad_names)]]);
        let mut backend = WebGlRenderBackend {
            api: context.api,
            msaa_buffers: None,
            msaa_sample_count: context.msaa_sample_count,
            color_program,
            bitmap_program,
            gradient_program,
            textures: Vec::new(),
            meshes,
            quad_shape: ShapeHandle { index: 0 },
            mask_state: MaskState::NoMask,
            num_masks: 0,
            mask_state_dirty: true,
            cache: RenderCache {
                active_program: None,
                blend_func: (BlendFactor::SrcAlpha, BlendFactor::OneMinusSrcAlpha),
                mult_color: None,
                add_color: None,
            },
            viewport_width: FloatBits::from_u32(500),
            viewport_height: FloatBits::from_u32(500),
            view_matrix: Matrix4::identity(),
        };
        backend.build_matrices(x_scale, y_scale);
        (backend, commands)
    }

    /// Builds the frame buffers used for resolving MSAA, if it is used, under
    /// the given names. Those that were there are gone, whatever comes of it.
    pub fn build_msaa_buffers(&mut self, names: MsaaBuffers) -> (commands: Vec<GlCommand>)
        requires
            old(self).wf(),
        ensures
            final(self).wf(),
            *final(self) == (WebGlRenderBackend { msaa_buffers: None, ..*old(self) }),
            calls(commands@) == old(self).msaa_calls(names),
    {
        let mut commands: Vec<GlCommand> = no_commands();
        if self.api != VertexArrayApi::WebGl2 || self.msaa_sample_count <= 1 {
            emit_op(
                &mut commands,
                GlOp::BindFramebuffer(FramebufferTarget::Framebuffer, None),
            );
            emit_op(&mut commands, GlOp::BindRenderbuffer(None));
            assert(calls(commands@) =~= old(self).msaa_calls(names));
            return commands;
        }
        // Delete previous buffers, if they exist.
        if let Some(buffers) = self.msaa_buffers {
            emit_op(&mut commands, GlOp::DeleteRenderbuffer(buffers.color_renderbuffer));
            emit_op(&mut commands, GlOp::DeleteRenderbuffer(buffers.stencil_renderbuffer));
            emit_op(&mut commands, GlOp::DeleteFramebuffer(buffers.render_framebuffer));
            emit_op(&mut commands, GlOp::DeleteFramebuffer(buffers.color_framebuffer));
            emit_op(&mut commands, GlOp::DeleteTexture(buffers.framebuffer_texture));
        }
        let ghost deletes: Seq<GlCall> = ops(
            match self.msaa_buffers {
                Some(buffers) => delete_msaa_ops(buffers),
                None => Seq::empty(),
            },
        );
        assert(calls(commands@) =~= deletes);
        self.msaa_buffers = None;

        let width: i32 = self.viewport_width.to_i32();
        let height: i32 = self.viewport_height.to_i32();
        let samples: i32 = #[verifier::truncate]
        (self.msaa_sample_count as i32);
        create_msaa_buffers(&mut commands, names, samples, width, height);
        emit(
            &mut commands,
            GlCommand::TexImage2d { format: TextureFormat::Rgb, width, height, pixels: None },
        );
        emit_op(&mut commands, GlOp::BindTexture(None));
        emit_op(
            &mut commands,
            GlOp::BindFramebuffer(FramebufferTarget::Framebuffer, Some(names.color_framebuffer)),
        );
        emit_op(&mut commands, GlOp::FramebufferTexture2d(names.framebuffer_texture));
        emit_op(&mut commands, GlOp::BindFramebuffer(FramebufferTarget::Framebuffer, None));
        assert(calls(commands@) =~= old(self).msaa_calls(names));
        commands
    }

    /// Takes the outcome of the calls that build the frame buffers. They are
    /// there if MSAA is used and nothing went wrong.
    pub fn msaa_buffers_built(
        &mut self,
        names: MsaaBuffers,
        outcome: Result<(), GlError>,
    ) -> (result: Result<(), GlError>)
        requires
            old(self).wf(),
        ensures
            final(self).wf(),
            result == outcome,
            *final(self) == if outcome is Ok && old(self).uses_msaa() {
                WebGlRenderBackend { msaa_buffers: Some(names), ..*old(self) }
            } else {
                *old(self)
            },
    {
        if outcome.is_ok() && self.api == VertexArrayApi::WebGl2 && self.msaa_sample_count > 1 {
            self.msaa_buffers = Some(names);
        }
        outcome
    }

    /// Sets the matrix that takes pixels to the screen.
    pub fn build_matrices(&mut self, x_scale: FloatBits, y_scale: FloatBits)
        ensures
            *final(self) == (WebGlRenderBackend {
                view_matrix: view_matrix_of(x_scale, y_scale),
                ..*old(self)
            }),
    {
        let zero = FloatBits::zero();
        let one = FloatBits::one();
        self.view_matrix = Matrix4 {
            c0: vec4(x_scale, zero, zero, zero),
            c1: vec4(zero, y_scale, zero, zero),
            c2: vec4(zero, zero, one, zero),
            c3: vec4(FloatBits::minus_one(), one, zero, one),
        };
    }

    /// Sets the size of the viewport, with the scales that go with it, and
    /// builds the frame buffers anew.
    pub fn set_viewport_dimensions(
        &mut self,
        width: u32,
        height: u32,
        names: MsaaBuffers,
        x_scale: FloatBits,
        y_scale: FloatBits,
    ) -> (commands: Vec<GlCommand>)
        requires
            old(self).wf(),
        ensures
            final(self).wf(),
            *final(self) == (WebGlRenderBackend {
                viewport_width: nearest(width),
                viewport_height: nearest(height),
                msaa_buffers: None,
                view_matrix: view_matrix_of(x_scale, y_scale),
                ..*old(self)
            }),
            calls(commands@) == seq![
                GlCall::Op(
                    GlOp::Viewport { x: 0, y: 0, width: width as i32, height: height as i32 },
                ),
            ] + (WebGlRenderBackend {
                viewport_width: nearest(width),
                viewport_height: nearest(height),
                ..*old(self)
            }).msaa_calls(names),
            calls(commands@) == old(self).resize_calls(width, height, names),
    {
        self.viewport_width = FloatBits::from_u32(width);
        self.viewport_height = FloatBits::from_u32(height);
        let ghost resized = *self;
        let mut commands: Vec<GlCommand> = no_commands();
        let pixel_width: i32 = #[verifier::truncate]
        (width as i32);
        let pixel_height: i32 = #[verifier::truncate]
        (height as i32);
        emit_op(
            &mut commands,
            GlOp::Viewport { x: 0, y: 0, width: pixel_width, height: pixel_height },
        );
        let mut msaa: Vec<GlCommand> = self.build_msaa_buffers(names);
        append(&mut commands, &mut msaa);
        self.build_matrices(x_scale, y_scale);
        assert(calls(commands@) =~= seq![
            GlCall::Op(GlOp::Viewport { x: 0, y: 0, width: pixel_width, height: pixel_height }),
        ] + resized.msaa_calls(names));
        commands
    }

    /// A program of the renderer.
    fn program(&self, kind: ProgramKind) -> (program: &ShaderProgram)
        ensures
            *program == self.spec_program(kind),
    {
        match kind {
            ProgramKind::Color => &self.color_program,
            ProgramKind::Gradient => &self.gradient_program,
            ProgramKind::Bitmap => &self.bitmap_program,
        }
    }

    /// Hands a shape over to the graphics library. The tessellator learns the
    /// sizes of bitmaps from [`WebGlRenderBackend::bitmap_size_by_id`].
    fn register_shape_internal(
        &self,
        commands: &mut Vec<GlCommand>,
        shape: &Vec<TessDraw>,
        names: &Vec<DrawNames>,
    ) -> (mesh: Mesh)
        requires
            shape@.len() == names@.len(),
            forall|i: int| 0 <= i < shape@.len() ==> (#[trigger] shape@[i]).wf(),
        ensures
            calls(final(commands)@) == calls(old(commands)@) + self.shape_calls(
                shape@,
                names@,
                shape@.len(),
            ),
            mesh@ == kept_shape(shape@, names@),
    {
        let mut draws: Vec<Draw> = Vec::new();
        let mut i: usize = 0;
        while i < shape.len()
            invariant
                i <= shape@.len(),
                shape@.len() == names@.len(),
                forall|j: int| 0 <= j < shape@.len() ==> (#[trigger] shape@[j]).wf(),
                draws@.len() == i,
                forall|j: int| 0 <= j < i ==> (#[trigger] draws@[j])@ == shape@[j].kept(names@[j]),
                calls(commands@) == calls(old(commands)@) + self.shape_calls(
                    shape@,
                    names@,
                    i as nat,
                ),
            decreases shape@.len() - i,
        {
            let ghost before = calls(commands@);
            let draw: &TessDraw = &shape[i];
            let draw_names: DrawNames = names[i];
            upload(
                commands,
                self.api,
                draw_names,
                OnFailure::Panic,
                &draw.vertices,
                &draw.indices,
            );
            let (kind, out_draw): (ProgramKind, Draw) = draw.keep(draw_names);
            let program: &ShaderProgram = self.program(kind);
            program.enable_attributes(commands);
            draws.push(out_draw);
            bind_vertex_array(commands, self.api, None);
            program.disable_attributes(commands);
            assert(calls(commands@) =~= before + draw_calls(
                shape@[i as int],
                self.api,
                draw_names,
                *program,
            ));
            assert(self.shape_calls(shape@, names@, (i + 1) as nat) == self.shape_calls(
                shape@,
                names@,
                i as nat,
            ) + draw_calls(shape@[i as int], self.api, draw_names, *program));
            assert(calls(commands@) =~= calls(old(commands)@) + self.shape_calls(
                shape@,
                names@,
                (i + 1) as nat,
            ));
            i += 1;
        }
        let mesh = Mesh { draws };
        assert(mesh@ =~= kept_shape(shape@, names@));
        mesh
    }

    /// Registers a shape, with names for each group of its triangles.
    pub fn register_shape(&mut self, shape: &Vec<TessDraw>, names: &Vec<DrawNames>) -> (result: (
        ShapeHandle,
        Vec<GlCommand>,
    ))
        requires
            old(self).wf(),
            shape@.len() == names@.len(),
            forall|i: int| 0 <= i < shape@.len() ==> (#[trigger] shape@[i]).wf(),
        ensures
            final(self).wf(),
            old(self).has_quad() ==> final(self).has_quad(),
            result.0.index == old(self).meshes@.len(),
            exists|mesh: Mesh| #[trigger]
                final(self).meshes@ == old(self).meshes@.push(mesh) && mesh@ == kept_shape(
                    shape@,
                    names@,
                ),
            *final(self) == (WebGlRenderBackend { meshes: final(self).meshes, ..*old(self) }),
            calls(result.1@) == old(self).shape_calls(shape@, names@, shape@.len()),
    {
        let handle = ShapeHandle { index: self.meshes.len() };
        let mut commands: Vec<GlCommand> = no_commands();
        let mesh: Mesh = self.register_shape_internal(&mut commands, shape, names);
        self.meshes.push(mesh);
        assert(calls(commands@) =~= old(self).shape_calls(shape@, names@, shape@.len()));
        (handle, commands)
    }

    /// Puts another shape in the place of a registered one.
    pub fn replace_shape(
        &mut self,
        shape: &Vec<TessDraw>,
        names: &Vec<DrawNames>,
        handle: ShapeHandle,
    ) -> (commands: Vec<GlCommand>)
        requires
            old(self).wf(),
            handle.index < old(self).meshes@.len(),
            shape@.len() == names@.len(),
            forall|i: int| 0 <= i < shape@.len() ==> (#[trigger] shape@[i]).wf(),
        ensures
            final(self).wf(),
            old(self).has_quad() && (handle != old(self).quad_shape || shape@.len() > 0)
                ==> final(self).has_quad(),
            exists|mesh: Mesh| #[trigger]
                final(self).meshes@ == old(self).meshes@.update(handle.index as int, mesh)
                    && mesh@ == kept_shape(shape@, names@),
            *final(self) == (WebGlRenderBackend { meshes: final(self).meshes, ..*old(self) }),
            calls(commands@) == old(self).shape_calls(shape@, names@, shape@.len()),
    {
        let mut commands: Vec<GlCommand> = no_commands();
        let mesh: Mesh = self.register_shape_internal(&mut commands, shape, names);
        assert(mesh.draws@.len() == mesh@.len());
        self.meshes[handle.index] = mesh;
        assert(calls(commands@) =~= old(self).shape_calls(shape@, names@, shape@.len()));
        commands
    }

    /// Loads a bitmap into a texture.
    pub fn load_bitmap(bitmap: Bitmap, texture: GlName) -> (commands: Vec<GlCommand>)
        ensures
            calls(commands@) == bitmap_calls(bitmap, texture),
    {
        let ghost all = bitmap_calls(bitmap, texture);
        let mut commands: Vec<GlCommand> = no_commands();
        emit_op(
            &mut commands,
            GlOp::Create {
                kind: ResourceKind::Texture,
                name: texture,
                on_failure: OnFailure::Panic,
            },
        );
        emit_op(&mut commands, GlOp::BindTexture(Some(texture)));
        let width: i32 = #[verifier::truncate]
        (bitmap.width as i32);
        let height: i32 = #[verifier::truncate]
        (bitmap.height as i32);
        let (format, pixels): (TextureFormat, Vec<u8>) = match bitmap.data {
            BitmapFormat::Rgb(data) => (TextureFormat::Rgb, data),
            BitmapFormat::Rgba(data) => (TextureFormat::Rgba, data),
        };
        emit(
            &mut commands,
            GlCommand::TexImage2d { format, width, height, pixels: Some(pixels) },
        );
        // You must set the texture parameters for non-power-of-2 textures to function in WebGL1.
        emit_op(
            &mut commands,
            GlOp::TexParameter(TextureParameter::WrapS, TextureSetting::ClampToEdge),
        );
        emit_op(
            &mut commands,
            GlOp::TexParameter(TextureParameter::WrapT, TextureSetting::ClampToEdge),
        );
        emit_op(
            &mut commands,
            GlOp::TexParameter(TextureParameter::MinFilter, TextureSetting::Linear),
        );
        emit_op(
            &mut commands,
            GlOp::TexParameter(TextureParameter::MagFilter, TextureSetting::Linear),
        );
        assert(calls(commands@) =~= all);
        commands
    }

    /// Takes the outcome of loading a bitmap into a texture, with the
    /// [`Bitmap::texture`] of the bitmap. If nothing went wrong it is registered.
    pub fn register_bitmap(
        &mut self,
        id: CharacterId,
        texture: Texture,
        outcome: Result<(), GlError>,
    ) -> (result: Result<BitmapInfo, GlError>)
        requires
            old(self).wf(),
        ensures
            final(self).wf(),
            match outcome {
                Ok(_) => {
                    &&& result == Ok::<_, GlError>(
                        BitmapInfo {
                            handle: BitmapHandle { index: old(self).textures.len() },
                            width: texture.width as u16,
                            height: texture.height as u16,
                        },
                    )
                    &&& final(self).textures@ == old(self).textures@.push((id, texture))
                    &&& *final(self) == WebGlRenderBackend {
                        textures: final(self).textures,
                        ..*old(self)
                    }
                },
                Err(error) => result == Err::<BitmapInfo, _>(error) && *final(self) == *old(self),
            },
    {
        match outcome {
            Ok(()) => {
                let handle = BitmapHandle { index: self.textures.len() };
                self.textures.push((id, texture));
                let width: u16 = #[verifier::truncate]
                (texture.width as u16);
                let height: u16 = #[verifier::truncate]
                (texture.height as u16);
                Ok(BitmapInfo { handle, width, height })
            },
            Err(error) => Err(error),
        }
    }

    /// The first texture that was registered under a number.
    fn texture(&self, id: CharacterId) -> (texture: Option<Texture>)
        ensures
            texture == find_texture(self.textures@, id),
    {
        let mut i: usize = 0;
        assert(self.textures@.skip(0) =~= self.textures@);
        while i < self.textures.len()
            invariant
                i <= self.textures@.len(),
                find_texture(self.textures@, id) == find_texture(
                    self.textures@.skip(i as int),
                    id,
                ),
            decreases self.textures@.len() - i,
        {
            let ghost rest = self.textures@.skip(i as int);
            assert(rest[0] == self.textures@[i as int]);
            assert(rest.drop_first() =~= self.textures@.skip(i + 1));
            let (other_id, texture): (CharacterId, Texture) = self.textures[i];
            if other_id == id {
                return Some(texture);
            }
            i += 1;
        }
        None
    }

    /// The size of the first bitmap that was registered under a number.
    pub fn bitmap_size_by_id(&self, id: CharacterId) -> (size: Option<(u32, u32)>)
        ensures
            size == match find_texture(self.textures@, id) {
                Some(texture) => Some((texture.width, texture.height)),
                None => None,
            },
    {
        match self.texture(id) {
            Some(texture) => Some((texture.width, texture.height)),
            None => None,
        }
    }

    /// The size of a registered bitmap.
    pub fn bitmap_size(&self, bitmap: BitmapHandle) -> (size: Option<(u32, u32)>)
        ensures
            size == if bitmap.index < self.textures@.len() {
                let texture = self.textures@[bitmap.index as int].1;
                Some((texture.width, texture.height))
            } else {
                None
            },
    {
        if bitmap.index < self.textures.len() {
            let texture: Texture = self.textures[bitmap.index].1;
            Some((texture.width, texture.height))
        } else {
            None
        }
    }

    /// Set stencil state for masking, if necessary.
    fn set_stencil_state(&self, commands: &mut Vec<GlCommand>)
        requires
            self.wf(),
        ensures
            calls(final(commands)@) == calls(old(commands)@) + ops(self.stencil_ops()),
    {
        let keep = StencilAction::Keep;
        if self.mask_state_dirty {
            let num_masks: i32 = #[verifier::truncate]
            (self.num_masks as i32);
            match self.mask_state {
                MaskState::NoMask => {
                    emit_op(commands, GlOp::Disable(Capability::StencilTest));
                    emit_op(commands, GlOp::ColorMask(true));
                },
                MaskState::DrawMaskStencil => {
                    let reference: i32 = #[verifier::truncate]
                    ((self.num_masks - 1) as i32);
                    emit_op(commands, GlOp::Enable(Capability::StencilTest));
                    emit_op(commands, GlOp::StencilFuncEqual { reference, mask: 0xff });
                    emit_op(commands, GlOp::StencilOp(keep, keep, StencilAction::Incr));
                    emit_op(commands, GlOp::ColorMask(false));
                },
                MaskState::DrawMaskedContent => {
                    emit_op(commands, GlOp::Enable(Capability::StencilTest));
                    emit_op(commands, GlOp::StencilFuncEqual { reference: num_masks, mask: 0xff });
                    emit_op(commands, GlOp::StencilOp(keep, keep, keep));
                    emit_op(commands, GlOp::ColorMask(true));
                },
                MaskState::ClearMaskStencil => {
                    emit_op(commands, GlOp::Enable(Capability::StencilTest));
                    emit_op(commands, GlOp::StencilFuncEqual { reference: num_masks, mask: 0xff });
                    emit_op(commands, GlOp::StencilOp(keep, keep, StencilAction::Decr));
                    emit_op(commands, GlOp::ColorMask(false));
                },
            }
        }
        assert(calls(commands@) =~= calls(old(commands)@) + ops(self.stencil_ops()));
    }

    /// Begins a frame that is cleared to a color.
    pub fn begin_frame(&mut self, clear: Vec4) -> (commands: Vec<GlCommand>)
        requires
            old(self).wf(),
        ensures
            final(self).wf(),
            *final(self) == (WebGlRenderBackend {
                mask_state: MaskState::NoMask,
                num_masks: 0,
                mask_state_dirty: true,
                cache: RenderCache {
                    active_program: None,
                    blend_func: old(self).cache.blend_func,
                    mult_color: None,
                    add_color: None,
                },
                ..*old(self)
            }),
            calls(commands@) == ops(old(self).begin_frame_ops(clear)),
    {
        self.mask_state = MaskState::NoMask;
        self.num_masks = 0;
        self.mask_state_dirty = true;
        self.cache = RenderCache {
            active_program: None,
            blend_func: self.cache.blend_func,
            mult_color: None,
            add_color: None,
        };

        let mut commands: Vec<GlCommand> = no_commands();
        // Bind to MSAA render buffer if using MSAA.
        if let Some(msaa_buffers) = self.msaa_buffers {
            emit_op(
                &mut commands,
                GlOp::BindFramebuffer(
                    FramebufferTarget::Framebuffer,
                    Some(msaa_buffers.render_framebuffer),
                ),
            );
        }
        self.set_stencil_state(&mut commands);
        emit_op(&mut commands, GlOp::ClearColor(clear));
        emit_op(&mut commands, GlOp::StencilMask(0xff));
        emit_op(&mut commands, GlOp::Clear { color: true, stencil: true });
        assert(calls(commands@) =~= ops(old(self).begin_frame_ops(clear)));
        commands
    }

    /// Ends a frame: resolves MSAA, if it is used.
    pub fn end_frame(&self) -> (commands: Vec<GlCommand>)
        requires
            self.wf(),
            self.msaa_buffers is Some ==> self.has_quad(),
        ensures
            calls(commands@) == ops(self.end_frame_ops()),
    {
        let mut commands: Vec<GlCommand> = no_commands();
        if self.api == VertexArrayApi::WebGl2 {
            if let Some(msaa_buffers) = self.msaa_buffers {
                emit_op(&mut commands, GlOp::Disable(Capability::StencilTest));
                // Resolve the MSAA in the render buffer.
                emit_op(
                    &mut commands,
                    GlOp::BindFramebuffer(
                        FramebufferTarget::ReadFramebuffer,
                        Some(msaa_buffers.render_framebuffer),
                    ),
                );
                emit_op(
                    &mut commands,
                    GlOp::BindFramebuffer(
                        FramebufferTarget::DrawFramebuffer,
                        Some(msaa_buffers.color_framebuffer),
                    ),
                );
                emit_op(
                    &mut commands,
                    GlOp::BlitColors {
                        width: self.viewport_width.to_i32(),
                        height: self.viewport_height.to_i32(),
                    },
                );
                // Render the resolved framebuffer texture to a quad on the screen.
                emit_op(
                    &mut commands,
                    GlOp::BindFramebuffer(FramebufferTarget::Framebuffer, None),
                );
                let program: &ShaderProgram = &self.bitmap_program;
                emit_op(&mut commands, GlOp::UseProgram(program.program));
                // Scale to fill screen.
                let zero = FloatBits::zero();
                let one = FloatBits::one();
                let two = FloatBits::two();
                let minus_one = FloatBits::minus_one();
                program.uniform_matrix4fv(
                    &mut commands,
                    ShaderUniform::WorldMatrix,
                    Matrix4 {
                        c0: vec4(two, zero, zero, zero),
                        c1: vec4(zero, two, zero, zero),
                        c2: vec4(zero, zero, one, zero),
                        c3: vec4(minus_one, minus_one, zero, one),
                    },
                );
                program.uniform_matrix4fv(
                    &mut commands,
                    ShaderUniform::ViewMatrix,
                    Matrix4::identity(),
                );
                program.uniform4f(
                    &mut commands,
                    ShaderUniform::MultColor,
                    vec4(one, one, one, one),
                );
                program.uniform4f(
                    &mut commands,
                    ShaderUniform::AddColor,
                    vec4(zero, zero, zero, zero),
                );
                program.uniform_matrix3fv(
                    &mut commands,
                    ShaderUniform::TextureMatrix,
                    Matrix3::identity(),
                );
                // Bind the framebuffer texture.
                emit_op(&mut commands, GlOp::ActiveTexture0);
                emit_op(
                    &mut commands,
                    GlOp::BindTexture(Some(msaa_buffers.framebuffer_texture)),
                );
                program.uniform1i(&mut commands, ShaderUniform::BitmapTexture, 0);
                // Render the quad.
                let quad: &Draw = &self.meshes[self.quad_shape.index].draws[0];
                bind_vertex_array(&mut commands, self.api, Some(quad.vao));
                emit_op(&mut commands, GlOp::DrawElements { count: quad.num_indices });
            }
        }
        assert(calls(commands@) =~= ops(self.end_frame_ops()));
        commands
    }

    /// Set common render state, while minimizing unnecessary state changes.
    fn set_common_state(
        &self,
        commands: &mut Vec<GlCommand>,
        cache: RenderCache,
        kind: ProgramKind,
        world_matrix: Matrix4,
        mult_color: Vec4,
        add_color: Vec4,
    ) -> (next: RenderCache)
        ensures
            ({
                let (common_ops, known) = self.common_state(
                    cache,
                    kind,
                    Placement { world: world_matrix, mult_color, add_color },
                );
                &&& calls(final(commands)@) == calls(old(commands)@) + ops(common_ops)
                &&& next == known
            }),
    {
        let ghost placement = Placement { world: world_matrix, mult_color, add_color };
        let program: &ShaderProgram = self.program(kind);
        let mut next: RenderCache = cache;
        let is_active: bool = match next.active_program {
            Some(active) => active == kind,
            None => false,
        };
        if !is_active {
            emit_op(commands, GlOp::UseProgram(program.program));
            next.active_program = Some(kind);
            program.uniform_matrix4fv(commands, ShaderUniform::ViewMatrix, self.view_matrix);
            next.mult_color = None;
            next.add_color = None;
            let (src_blend, dst_blend): (BlendFactor, BlendFactor) = kind.blend();
            if src_blend != next.blend_func.0 || dst_blend != next.blend_func.1 {
                emit_op(commands, GlOp::BlendFunc(src_blend, dst_blend));
                next.blend_func = (src_blend, dst_blend);
            }
        }
        let ghost (switch_ops, switched) = self.switch_program(cache, kind);
        assert(calls(commands@) =~= calls(old(commands)@) + ops(switch_ops));
        assert(next == switched);

        program.uniform_matrix4fv(commands, ShaderUniform::WorldMatrix, world_matrix);
        let mult_known: bool = match next.mult_color {
            Some(cached) => mult_color.float_eq(cached),
            None => false,
        };
        if !mult_known {
            program.uniform4f(commands, ShaderUniform::MultColor, mult_color);
            next.mult_color = Some(mult_color);
        }
        let add_known: bool = match next.add_color {
            Some(cached) => add_color.float_eq(cached),
            None => false,
        };
        if !add_known {
            program.uniform4f(commands, ShaderUniform::AddColor, add_color);
            next.add_color = Some(add_color);
        }
        let ghost common_ops = self.common_state(cache, kind, placement).0;
        assert(calls(commands@) =~= calls(old(commands)@) + ops(common_ops));
        next
    }

    /// Tells the gradient program about a gradient.
    fn set_gradient(&self, commands: &mut Vec<GlCommand>, gradient: &Gradient)
        ensures
            calls(final(commands)@) == calls(old(commands)@) + self.gradient_calls(gradient@),
    {
        let program: &ShaderProgram = &self.gradient_program;
        program.uniform_matrix3fv(commands, ShaderUniform::TextureMatrix, gradient.matrix);
        program.uniform1i(commands, ShaderUniform::GradientType, gradient.gradient_type);
        let ratios: Vec<FloatBits> = copy_floats(&gradient.ratios);
        program.uniform1fv(commands, ShaderUniform::GradientRatios, ratios);
        let colors: Vec<FloatBits> = flatten(&gradient.colors);
        program.uniform4fv(commands, ShaderUniform::GradientColors, colors);
        let num_colors: i32 = #[verifier::truncate]
        (gradient.num_colors as i32);
        program.uniform1i(commands, ShaderUniform::GradientNumColors, num_colors);
        program.uniform1i(commands, ShaderUniform::GradientRepeatMode, gradient.repeat_mode);
        program.uniform1f(commands, ShaderUniform::GradientFocalPoint, gradient.focal_point);
        let is_linear: i32 = if gradient.interpolation == GradientInterpolation::LinearRgb {
            1
        } else {
            0
        };
        program.uniform1i(commands, ShaderUniform::GradientInterpolation, is_linear);
        assert(calls(commands@) =~= calls(old(commands)@) + self.gradient_calls(gradient@));
    }

    /// Tells the bitmap program about a bitmap.
    fn set_bitmap(&self, commands: &mut Vec<GlCommand>, bitmap: BitmapDraw, texture: Texture)
        ensures
            calls(final(commands)@) == calls(old(commands)@) + ops(
                self.bitmap_draw_ops(bitmap, texture),
            ),
    {
        let program: &ShaderProgram = &self.bitmap_program;
        program.uniform_matrix3fv(commands, ShaderUniform::TextureMatrix, bitmap.matrix);
        // Bind texture.
        emit_op(commands, GlOp::ActiveTexture0);
        emit_op(commands, GlOp::BindTexture(Some(texture.texture)));
        program.uniform1i(commands, ShaderUniform::BitmapTexture, 0);
        // Set texture parameters.
        let filter: TextureSetting = if bitmap.is_smoothed {
            TextureSetting::Linear
        } else {
            TextureSetting::Nearest
        };
        emit_op(commands, GlOp::TexParameter(TextureParameter::MagFilter, filter));
        emit_op(commands, GlOp::TexParameter(TextureParameter::MinFilter, filter));
        // On WebGL1, you are unable to change the wrapping parameter of non-power-of-2 textures.
        let wrap: TextureSetting = if self.api == VertexArrayApi::WebGl2 && bitmap.is_repeating {
            TextureSetting::MirroredRepeat
        } else {
            TextureSetting::ClampToEdge
        };
        emit_op(commands, GlOp::TexParameter(TextureParameter::WrapS, wrap));
        emit_op(commands, GlOp::TexParameter(TextureParameter::WrapT, wrap));
        assert(calls(commands@) =~= calls(old(commands)@) + ops(
            self.bitmap_draw_ops(bitmap, texture),
        ));
    }

    /// Draws one group of triangles.
    fn render_draw(
        &self,
        commands: &mut Vec<GlCommand>,
        cache: RenderCache,
        draw: &Draw,
        world_matrix: Matrix4,
        mult_color: Vec4,
        add_color: Vec4,
    ) -> (next: RenderCache)
        ensures
            ({
                let (step, known) = self.draw_step(
                    cache,
                    draw@,
                    Placement { world: world_matrix, mult_color, add_color },
                );
                &&& calls(final(commands)@) == calls(old(commands)@) + step
                &&& next == known
            }),
    {
        let ghost placement = Placement { world: world_matrix, mult_color, add_color };
        let ghost step = self.draw_step(cache, draw@, placement).0;
        bind_vertex_array(commands, self.api, Some(draw.vao));
        let kind: ProgramKind = match &draw.draw_type {
            DrawType::Color => ProgramKind::Color,
            DrawType::Gradient(_) => ProgramKind::Gradient,
            DrawType::Bitmap(_) => ProgramKind::Bitmap,
        };
        let next: RenderCache = self.set_common_state(
            commands,
            cache,
            kind,
            world_matrix,
            mult_color,
            add_color,
        );
        // Set shader specific uniforms.
        match &draw.draw_type {
            DrawType::Color => {},
            DrawType::Gradient(gradient) => {
                self.set_gradient(commands, gradient);
            },
            DrawType::Bitmap(bitmap) => {
                match self.texture(bitmap.id) {
                    Some(texture) => {
                        self.set_bitmap(commands, *bitmap, texture);
                    },
                    None => {
                        // Bitmap not registered
                        assert(calls(commands@) =~= calls(old(commands)@) + step);
                        return next;
                    },
                }
            },
        }
        // Draw the triangles.
        emit_op(commands, GlOp::DrawElements { count: draw.num_indices });
        assert(calls(commands@) =~= calls(old(commands)@) + step);
        next
    }

    /// Draws a registered shape.
    pub fn render_shape(&mut self, shape: ShapeHandle, transform: &Transform) -> (commands: Vec<
        GlCommand,
    >)
        requires
            old(self).wf(),
            shape.index < old(self).meshes@.len(),
        ensures
            final(self).wf(),
            ({
                let (all, known) = old(self).render_result(
                    old(self).meshes@[shape.index as int]@,
                    placement_of(*transform),
                );
                &&& calls(commands@) == all
                &&& *final(self) == WebGlRenderBackend { cache: known, ..*old(self) }
            }),
    {
        let ghost placement = placement_of(*transform);
        let ghost draws = self.meshes@[shape.index as int]@;
        let world_matrix: Matrix4 = transform.matrix.world();
        let mult_color: Vec4 = transform.color_transform.mult_color();
        let add_color: Vec4 = transform.color_transform.add_color();

        let mut commands: Vec<GlCommand> = no_commands();
        self.set_stencil_state(&mut commands);
        let mut cache: RenderCache = self.cache;
        let count: usize = self.meshes[shape.index].draws.len();
        let mut i: usize = 0;
        while i < count
            invariant
                *self == *old(self),
                shape.index < self.meshes@.len(),
                draws == self.meshes@[shape.index as int]@,
                count == self.meshes@[shape.index as int].draws@.len(),
                i <= count,
                placement == (Placement { world: world_matrix, mult_color, add_color }),
                calls(commands@) == ops(self.stencil_ops()) + self.draw_steps(
                    self.cache,
                    draws,
                    placement,
                    i as nat,
                ).0,
                cache == self.draw_steps(self.cache, draws, placement, i as nat).1,
                cache.active_program matches Some(kind) ==> cache.blend_func == kind.spec_blend(),
            decreases count - i,
        {
            let draw: &Draw = &self.meshes[shape.index].draws[i];
            assert(draw@ == draws[i as int]);
            cache = self.render_draw(
                &mut commands,
                cache,
                draw,
                world_matrix,
                mult_color,
                add_color,
            );
            assert(calls(commands@) =~= ops(self.stencil_ops()) + self.draw_steps(
                self.cache,
                draws,
                placement,
                (i + 1) as nat,
            ).0);
            i += 1;
        }
        self.cache = cache;
        commands
    }

    /// Draws a registered bitmap, with a transform that also scales the unit
    /// square to the size of the bitmap. What is not registered is not drawn.
    pub fn render_bitmap(&mut self, bitmap: BitmapHandle, scaled: &Transform) -> (commands: Vec<
        GlCommand,
    >)
        requires
            old(self).wf(),
            bitmap.index < old(self).textures@.len() ==> old(self).has_quad(),
        ensures
            final(self).wf(),
            old(self).has_quad() ==> final(self).has_quad(),
            bitmap.index >= old(self).textures@.len() ==> {
                &&& *final(self) == *old(self)
                &&& calls(commands@) == Seq::<GlCall>::empty()
            },
            bitmap.index < old(self).textures@.len() ==> {
                let quad = old(self).quad_shape.index as int;
                let id = old(self).textures@[bitmap.index as int].0;
                let draws = with_bitmap_id(old(self).meshes@[quad]@, id);
                let adjusted = WebGlRenderBackend { meshes: final(self).meshes, ..*old(self) };
                let (all, known) = adjusted.render_result(draws, placement_of(*scaled));
                &&& calls(commands@) == all
                &&& mesh_views(final(self).meshes@) == mesh_views(old(self).meshes@).update(
                    quad,
                    draws,
                )
                &&& *final(self) == WebGlRenderBackend {
                    meshes: final(self).meshes,
                    cache: known,
                    ..*old(self)
                }
            },
    {
        if bitmap.index >= self.textures.len() {
            return no_commands();
        }
        // Adjust the quad draw to use the target bitmap.
        let id: CharacterId = self.textures[bitmap.index].0;
        let quad: usize = self.quad_shape.index;
        if let DrawType::Bitmap(bitmap_draw) = &mut self.meshes[quad].draws[0].draw_type {
            bitmap_draw.id = id;
        }
        // Render the quad.
        proof {
            let draws = with_bitmap_id(old(self).meshes@[quad as int]@, id);
            assert(self.meshes@[quad as int]@ =~= draws);
            assert(mesh_views(self.meshes@) =~= mesh_views(old(self).meshes@).update(
                quad as int,
                draws,
            ));
        }
        self.render_shape(self.quad_shape, scaled)
    }

    /// Draws a rectangle: the unit square, transformed, in a color.
    pub fn draw_rect(&mut self, color: Color, matrix: &Matrix) -> (commands: Vec<GlCommand>)
        requires
            old(self).wf(),
            old(self).has_quad(),
        ensures
            final(self).wf(),
            ({
                let (all, known) = old(self).rect_result(rect_placement(color, *matrix));
                &&& calls(commands@) == ops(all)
                &&& *final(self) == WebGlRenderBackend { cache: known, ..*old(self) }
            }),
    {
        let world_matrix: Matrix4 = matrix.world();
        let one = FloatBits::one();
        let mult_color: Vec4 = vec4(one, one, one, one);
        let add_color: Vec4 = vec4(
            FloatBits::from_u32(color.r as u32 * 255),
            FloatBits::from_u32(color.g as u32 * 255),
            FloatBits::from_u32(color.b as u32 * 255),
            FloatBits::from_u32(color.a as u32 * 255),
        );
        let mut commands: Vec<GlCommand> = no_commands();
        self.set_stencil_state(&mut commands);
        self.cache = self.set_common_state(
            &mut commands,
            self.cache,
            ProgramKind::Color,
            world_matrix,
            mult_color,
            add_color,
        );
        let quad: &Draw = &self.meshes[self.quad_shape.index].draws[0];
        bind_vertex_array(&mut commands, self.api, Some(quad.vao));
        emit_op(&mut commands, GlOp::DrawElements { count: quad.num_indices });
        assert(calls(commands@) =~= ops(
            old(self).rect_result(rect_placement(color, *matrix)).0,
        ));
        commands
    }

    /// Paints over the margins around the stage.
    pub fn draw_letterbox(&self, letterbox: Letterbox) -> (commands: Vec<GlCommand>)
        requires
            self.wf(),
            match letterbox {
                Letterbox::NoMargins => true,
                Letterbox::Letterbox { margin, .. } => margin.truncated() < i32::MAX,
                Letterbox::Pillarbox { margin, .. } => margin.truncated() < i32::MAX,
            },
        ensures
            calls(commands@) == ops(self.letterbox_ops(letterbox)),
    {
        let mut commands: Vec<GlCommand> = no_commands();
        self.set_stencil_state(&mut commands);
        let zero = FloatBits::zero();
        emit_op(&mut commands, GlOp::ClearColor(vec4(zero, zero, zero, zero)));
        let width: i32 = self.viewport_width.to_i32();
        let height: i32 = self.viewport_height.to_i32();
        match letterbox {
            Letterbox::NoMargins => {},
            Letterbox::Letterbox { margin, far } => {
                let margin_height: i32 = margin.to_i32();
                emit_op(&mut commands, GlOp::Enable(Capability::ScissorTest));
                emit_op(
                    &mut commands,
                    GlOp::Scissor { x: 0, y: 0, width, height: margin_height },
                );
                emit_op(&mut commands, GlOp::Clear { color: true, stencil: false });
                emit_op(
                    &mut commands,
                    GlOp::Scissor { x: 0, y: far.to_i32(), width, height: margin_height + 1 },
                );
                emit_op(&mut commands, GlOp::Clear { color: true, stencil: false });
                emit_op(&mut commands, GlOp::Disable(Capability::ScissorTest));
            },
            Letterbox::Pillarbox { margin, far } => {
                let margin_width: i32 = margin.to_i32();
                emit_op(&mut commands, GlOp::Enable(Capability::ScissorTest));
                emit_op(
                    &mut commands,
                    GlOp::Scissor { x: 0, y: 0, width: margin_width, height },
                );
                emit_op(&mut commands, GlOp::Clear { color: true, stencil: false });
                emit_op(
                    &mut commands,
                    GlOp::Scissor { x: far.to_i32(), y: 0, width: margin_width + 1, height },
                );
                emit_op(&mut commands, GlOp::Clear { color: true, stencil: false });
                emit_op(&mut commands, GlOp::Scissor { x: 0, y: 0, width, height });
                emit_op(&mut commands, GlOp::Disable(Capability::ScissorTest));
            },
        }
        assert(calls(commands@) =~= ops(self.letterbox_ops(letterbox)));
        commands
    }

    /// Begins a mask: what is drawn next is its shape.
    pub fn push_mask(&mut self)
        requires
            old(self).wf(),
            old(self).mask_state == MaskState::NoMask || old(self).mask_state
                == MaskState::DrawMaskedContent,
            old(self).num_masks < u32::MAX,
        ensures
            final(self).wf(),
            *final(self) == old(self).mask_pushed(),
    {
        self.num_masks = self.num_masks + 1;
        self.mask_state = MaskState::DrawMaskStencil;
        self.mask_state_dirty = true;
    }

    /// Ends the shape of a mask: what is drawn next is masked by it.
    pub fn activate_mask(&mut self)
        requires
            old(self).wf(),
            old(self).num_masks > 0,
            old(self).mask_state == MaskState::DrawMaskStencil,
        ensures
            final(self).wf(),
            *final(self) == old(self).mask_activated(),
    {
        self.mask_state = MaskState::DrawMaskedContent;
        self.mask_state_dirty = true;
    }

    /// Ends what is masked: what is drawn next is the shape of the mask again,
    /// to remove it.
    pub fn deactivate_mask(&mut self)
        requires
            old(self).wf(),
            old(self).num_masks > 0,
            old(self).mask_state == MaskState::DrawMaskedContent,
        ensures
            final(self).wf(),
            *final(self) == old(self).mask_deactivated(),
    {
        self.mask_state = MaskState::ClearMaskStencil;
        self.mask_state_dirty = true;
    }

    /// Ends a mask: what is drawn next is masked by those that were there before
    /// it, if any were.
    pub fn pop_mask(&mut self)
        requires
            old(self).wf(),
            old(self).num_masks > 0,
            old(self).mask_state == MaskState::ClearMaskStencil,
        ensures
            final(self).wf(),
            *final(self) == old(self).mask_popped(),
    {
        self.num_masks = self.num_masks - 1;
        self.mask_state = if self.num_masks == 0 {
            MaskState::NoMask
        } else {
            MaskState::DrawMaskedContent
        };
        self.mask_state_dirty = true;
    }
}

/// Adds calls to others.
fn append(commands: &mut Vec<GlCommand>, more: &mut Vec<GlCommand>)
    ensures
        calls(final(commands)@) == calls(old(commands)@) + calls(old(more)@),
{
    commands.append(more);
    assert(calls(commands@) =~= calls(old(commands)@) + calls(old(more)@));
}

/// A copy of numbers.
fn copy_floats(values: &Vec<FloatBits>) -> (copy: Vec<FloatBits>)
    ensures
        copy@ == values@,
{
    let mut copy: Vec<FloatBits> = Vec::new();
    let mut i: usize = 0;
    while i < values.len()
        invariant
            i <= values@.len(),
            copy@ == values@.take(i as int),
        decreases values@.len() - i,
    {
        copy.push(values[i]);
        assert(values@.take(i + 1) =~= values@.take(i as int).push(values@[i as int]));
        i += 1;
    }
    assert(values@.take(i as int) =~= values@);
    copy
}

/// The calls that create frame buffers, up to the texture that the frame is
/// resolved into.
fn create_msaa_buffers(
    commands: &mut Vec<GlCommand>,
    names: MsaaBuffers,
    samples: i32,
    width: i32,
    height: i32,
)
    ensures
        calls(final(commands)@) == calls(old(commands)@) + ops(
            create_msaa_ops(names, samples, width, height),
        ),
{
    // Create frame and render buffers.
    emit_create(
        commands,
        ResourceKind::Framebuffer,
        names.render_framebuffer,
        Uncreated::Framebuffer,
    );
    emit_create(
        commands,
        ResourceKind::Framebuffer,
        names.color_framebuffer,
        Uncreated::Framebuffer,
    );
    // Note for future self:
    // Whenever we support playing transparent movies,
    // switch this to RGBA and probably need to change shaders to all
    // be premultiplied alpha.
    emit_create(
        commands,
        ResourceKind::Renderbuffer,
        names.color_renderbuffer,
        Uncreated::Renderbuffer,
    );
    emit_op(commands, GlOp::BindRenderbuffer(Some(names.color_renderbuffer)));
    emit_op(
        commands,
        GlOp::RenderbufferStorageMultisample {
            samples,
            format: RenderbufferFormat::Rgb8,
            width,
            height,
        },
    );
    emit_op(commands, GlOp::CheckError(ErrorSite::ColorStorage));
    emit_create(
        commands,
        ResourceKind::Renderbuffer,
        names.stencil_renderbuffer,
        Uncreated::Renderbuffer,
    );
    emit_op(commands, GlOp::BindRenderbuffer(Some(names.stencil_renderbuffer)));
    emit_op(
        commands,
        GlOp::RenderbufferStorageMultisample {
            samples,
            format: RenderbufferFormat::StencilIndex8,
            width,
            height,
        },
    );
    emit_op(commands, GlOp::CheckError(ErrorSite::StencilStorage));
    emit_op(
        commands,
        GlOp::BindFramebuffer(FramebufferTarget::Framebuffer, Some(names.render_framebuffer)),
    );
    emit_op(
        commands,
        GlOp::FramebufferRenderbuffer(Attachment::Color0, names.color_renderbuffer),
    );
    emit_op(
        commands,
        GlOp::FramebufferRenderbuffer(Attachment::Stencil, names.stencil_renderbuffer),
    );
    emit_create(
        commands,
        ResourceKind::Texture,
        names.framebuffer_texture,
        Uncreated::Texture,
    );
    emit_op(commands, GlOp::BindTexture(Some(names.framebuffer_texture)));
    emit_op(
        commands,
        GlOp::TexParameter(TextureParameter::MagFilter, TextureSetting::Nearest),
    );
    emit_op(
        commands,
        GlOp::TexParameter(TextureParameter::MinFilter, TextureSetting::Nearest),
    );
    emit_op(
        commands,
        GlOp::TexParameter(TextureParameter::WrapS, TextureSetting::ClampToEdge),
    );
    emit_op(
        commands,
        GlOp::TexParameter(TextureParameter::WrapT, TextureSetting::ClampToEdge),
    );
    assert(calls(commands@) =~= calls(old(commands)@) + ops(
        create_msaa_ops(names, samples, width, height),
    ));
}

/// Adds a call that creates an object, or fails with an error.
fn emit_create(
    commands: &mut Vec<GlCommand>,
    kind: ResourceKind,
    name: GlName,
    uncreated: Uncreated,
)
    ensures
        calls(final(commands)@) == calls(old(commands)@).push(
            GlCall::Op(create_op(kind, name, uncreated)),
        ),
{
    emit_op(commands, GlOp::Create { kind, name, on_failure: OnFailure::Error(uncreated) });
}

/// What is kept of a shape.
pub open spec fn kept_shape(shape: Seq<TessDraw>, names: Seq<DrawNames>) -> Seq<DrawView> {
    Seq::new(shape.len(), |i: int| shape[i].kept(names[i]))
}

/// A mesh whose first group of triangles shows another bitmap, if it shows one.
pub open spec fn with_bitmap_id(draws: Seq<DrawView>, id: CharacterId) -> Seq<DrawView> {
    match draws[0].draw_type {
        DrawTypeView::Bitmap(bitmap) => draws.update(
            0,
            DrawView { draw_type: DrawTypeView::Bitmap(BitmapDraw { id, ..bitmap }), ..draws[0] },
        ),
        _ => draws,
    }
}

} // verus!
