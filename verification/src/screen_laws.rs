//! What becomes of the pixels of a frame: where they are drawn, how large the
//! buffers are that hold them, which of them are cleared, and how they reach the
//! screen.
use vstd::prelude::*;

use crate::backend::{
    Bitmap, BitmapFormat, Letterbox, MaskState, MsaaBuffers, WebGlRenderBackend,
};
use crate::float::FloatBits;
use crate::geometry::{Matrix, Matrix3, Matrix4, Vec3, Vec4};
use crate::gl::{
    Attachment, Capability, FramebufferTarget, GlName, GlOp, RenderbufferFormat, TextureFormat,
    TextureParameter, TextureSetting, VertexArrayApi,
};
use crate::shader::ShaderUniform;

verus! {

use crate::backend::{
    all_ones, all_zeros, attach_msaa_ops, bitmap_calls, create_msaa_ops, delete_msaa_ops,
    full_screen_matrix,
};
use crate::drawing_laws::transforms_by;
use crate::float::law_integer_through_float;
use crate::frame_laws::{
    is_draw, lemma_all_are_set, lemma_run_concat, lemma_run_steps, lemma_uniform_kept,
    locations_differ, sets, GlModel, UniformValue,
};
use crate::gl::{ops, GlCall};

/// A rectangle of pixels.
pub struct Area {
    pub x: int,
    pub y: int,
    pub width: int,
    pub height: int,
}

impl Area {
    /// A pixel is in the rectangle.
    pub open spec fn has(self, x: int, y: int) -> bool {
        self.x <= x < self.x + self.width && self.y <= y < self.y + self.height
    }
}

/// What holds the pixels of a renderbuffer.
pub struct Storage {
    pub samples: int,
    pub format: RenderbufferFormat,
    pub width: int,
    pub height: int,
}

/// What holds the pixels of a texture.
pub struct Image {
    pub format: TextureFormat,
    pub width: int,
    pub height: int,
    pub pixels: Option<Seq<u8>>,
}

/// What is attached to a framebuffer.
pub enum Attached {
    Renderbuffer(GlName),
    Texture(GlName),
}

/// Pixels that were copied from one framebuffer to another. No framebuffer is the
/// screen.
pub struct Copied {
    pub from: Option<GlName>,
    pub to: Option<GlName>,
    pub area: Area,
}

/// Where the graphics library draws, and what holds the pixels.
pub struct TargetModel {
    /// The framebuffer that pixels are read from, or the screen.
    pub read: Option<GlName>,
    /// The framebuffer that is drawn into, or the screen.
    pub draw: Option<GlName>,
    pub renderbuffer: Option<GlName>,
    pub texture: Option<GlName>,
    pub viewport: Area,
    pub storage: Map<GlName, Storage>,
    pub images: Map<GlName, Image>,
    pub settings: Map<(GlName, TextureParameter), TextureSetting>,
    pub attached: Map<(GlName, Attachment), Attached>,
    /// What was last copied.
    pub copied: Option<Copied>,
}

impl TargetModel {
    /// Attaches something to the framebuffer that is drawn into.
    pub open spec fn attach(self, attachment: Attachment, what: Attached) -> TargetModel {
        match self.draw {
            Some(framebuffer) => TargetModel {
                attached: self.attached.insert((framebuffer, attachment), what),
                ..self
            },
            None => self,
        }
    }

    /// What a call changes.
    pub open spec fn apply(self, call: GlCall) -> TargetModel {
        match call {
            GlCall::Op(op) => match op {
                GlOp::BindFramebuffer(FramebufferTarget::Framebuffer, name) => TargetModel {
                    read: name,
                    draw: name,
                    ..self
                },
                GlOp::BindFramebuffer(FramebufferTarget::ReadFramebuffer, name) => TargetModel {
                    read: name,
                    ..self
                },
                GlOp::BindFramebuffer(FramebufferTarget::DrawFramebuffer, name) => TargetModel {
                    draw: name,
                    ..self
                },
                GlOp::BindRenderbuffer(renderbuffer) => TargetModel { renderbuffer, ..self },
                GlOp::BindTexture(texture) => TargetModel { texture, ..self },
                GlOp::Viewport { x, y, width, height } => TargetModel {
                    viewport: Area {
                        x: x as int,
                        y: y as int,
                        width: width as int,
                        height: height as int,
                    },
                    ..self
                },
                GlOp::RenderbufferStorageMultisample { samples, format, width, height } => {
                    match self.renderbuffer {
                        Some(name) => TargetModel {
                            storage: self.storage.insert(
                                name,
                                Storage {
                                    samples: samples as int,
                                    format,
                                    width: width as int,
                                    height: height as int,
                                },
                            ),
                            ..self
                        },
                        None => self,
                    }
                },
                GlOp::FramebufferRenderbuffer(attachment, name) => self.attach(
                    attachment,
                    Attached::Renderbuffer(name),
                ),
                GlOp::FramebufferTexture2d(name) => self.attach(
                    Attachment::Color0,
                    Attached::Texture(name),
                ),
                GlOp::TexParameter(parameter, setting) => match self.texture {
                    Some(texture) => TargetModel {
                        settings: self.settings.insert((texture, parameter), setting),
                        ..self
                    },
                    None => self,
                },
                GlOp::BlitColors { width, height } => TargetModel {
                    copied: Some(
                        Copied {
                            from: self.read,
                            to: self.draw,
                            area: Area { x: 0, y: 0, width: width as int, height: height as int },
                        },
                    ),
                    ..self
                },
                _ => self,
            },
            GlCall::TexImage2d { format, width, height, pixels } => match self.texture {
                Some(texture) => TargetModel {
                    images: self.images.insert(
                        texture,
                        Image { format, width: width as int, height: height as int, pixels },
                    ),
                    ..self
                },
                None => self,
            },
            _ => self,
        }
    }

    /// What calls change, one after the other.
    pub open spec fn run(self, calls: Seq<GlCall>) -> TargetModel
        decreases calls.len(),
    {
        if calls.len() == 0 {
            self
        } else {
            self.run(calls.drop_last()).apply(calls.last())
        }
    }

    /// A renderbuffer has so many samples per pixel, a format and a size.
    pub open spec fn holds(
        self,
        name: GlName,
        samples: int,
        format: RenderbufferFormat,
        width: int,
        height: int,
    ) -> bool {
        &&& self.storage.contains_key(name)
        &&& self.storage[name] == Storage { samples, format, width, height }
    }

    /// A texture has a format, a size and pixels.
    pub open spec fn shows(self, name: GlName, image: Image) -> bool {
        &&& self.images.contains_key(name)
        &&& self.images[name] == image
    }

    /// A texture has a parameter.
    pub open spec fn setting_is(
        self,
        texture: GlName,
        parameter: TextureParameter,
        setting: TextureSetting,
    ) -> bool {
        &&& self.settings.contains_key((texture, parameter))
        &&& self.settings[(texture, parameter)] == setting
    }

    /// Something is attached to a framebuffer.
    pub open spec fn has_attached(
        self,
        framebuffer: GlName,
        attachment: Attachment,
        what: Attached,
    ) -> bool {
        &&& self.attached.contains_key((framebuffer, attachment))
        &&& self.attached[(framebuffer, attachment)] == what
    }
}

proof fn lemma_target_concat(target: TargetModel, first: Seq<GlCall>, second: Seq<GlCall>)
    ensures
        target.run(first + second) == target.run(first).run(second),
    decreases second.len(),
{
    let both = first + second;
    if second.len() == 0 {
        assert(both =~= first);
    } else {
        assert(both.drop_last() =~= first + second.drop_last());
        assert(both.last() == second.last());
        lemma_target_concat(target, first, second.drop_last());
    }
}

/// Calls that take a state through others: after each, it is the next.
proof fn lemma_target_steps(states: Seq<TargetModel>, calls: Seq<GlCall>)
    requires
        states.len() == calls.len() + 1,
        forall|i: int| 0 <= i < calls.len() ==> states[i + 1] == states[i].apply(#[trigger] calls[i]),
    ensures
        states[0].run(calls) == states.last(),
    decreases calls.len(),
{
    if calls.len() > 0 {
        let rest = calls.drop_last();
        let fewer = states.drop_last();
        assert forall|i: int| 0 <= i < rest.len() implies fewer[i + 1] == fewer[i].apply(
            #[trigger] rest[i],
        ) by {
            assert(rest[i] == calls[i]);
        }
        lemma_target_steps(fewer, rest);
        let last = calls.len() - 1;
        assert(states[last + 1] == states[last].apply(calls[last]));
    }
}

/// The call changes nothing about where is drawn.
spec fn keeps_targets(call: GlCall) -> bool {
    match call {
        GlCall::Op(op) => match op {
            GlOp::BindFramebuffer(_, _) => false,
            GlOp::BindRenderbuffer(_) => false,
            GlOp::BindTexture(_) => false,
            GlOp::Viewport { .. } => false,
            GlOp::RenderbufferStorageMultisample { .. } => false,
            GlOp::FramebufferRenderbuffer(_, _) => false,
            GlOp::FramebufferTexture2d(_) => false,
            GlOp::TexParameter(_, _) => false,
            GlOp::BlitColors { .. } => false,
            _ => true,
        },
        GlCall::TexImage2d { .. } => false,
        _ => true,
    }
}

proof fn lemma_targets_kept(target: TargetModel, calls: Seq<GlCall>)
    requires
        forall|i: int| 0 <= i < calls.len() ==> keeps_targets(#[trigger] calls[i]),
    ensures
        target.run(calls) == target,
    decreases calls.len(),
{
    if calls.len() > 0 {
        let rest = calls.drop_last();
        assert forall|i: int| 0 <= i < rest.len() implies keeps_targets(#[trigger] rest[i]) by {
            assert(rest[i] == calls[i]);
        }
        lemma_targets_kept(target, rest);
        assert(keeps_targets(calls[calls.len() - 1]));
    }
}

proof fn lemma_deletes_keep_targets(target: TargetModel, buffers: MsaaBuffers)
    ensures
        target.run(ops(delete_msaa_ops(buffers))) == target,
{
    let calls = ops(delete_msaa_ops(buffers));
    assert forall|i: int| 0 <= i < calls.len() implies keeps_targets(#[trigger] calls[i]) by {}
    lemma_targets_kept(target, calls);
}

/// The names of frame buffers that are built together are different where they
/// name objects of one kind.
pub open spec fn names_differ(names: MsaaBuffers) -> bool {
    &&& names.color_renderbuffer != names.stencil_renderbuffer
    &&& names.render_framebuffer != names.color_framebuffer
}

/// The frame buffers for a viewport of a size are there: both renderbuffers and
/// the texture that the frame is resolved into have that size; what is drawn goes
/// to the renderbuffers, which have `samples` samples per pixel; and what is
/// resolved goes to the texture, which is shown pixel by pixel.
pub open spec fn frame_buffers_fit(
    target: TargetModel,
    names: MsaaBuffers,
    samples: int,
    width: int,
    height: int,
) -> bool {
    let texture = names.framebuffer_texture;
    &&& target.holds(names.color_renderbuffer, samples, RenderbufferFormat::Rgb8, width, height)
    &&& target.holds(
        names.stencil_renderbuffer,
        samples,
        RenderbufferFormat::StencilIndex8,
        width,
        height,
    )
    &&& target.shows(texture, Image { format: TextureFormat::Rgb, width, height, pixels: None })
    &&& target.has_attached(
        names.render_framebuffer,
        Attachment::Color0,
        Attached::Renderbuffer(names.color_renderbuffer),
    )
    &&& target.has_attached(
        names.render_framebuffer,
        Attachment::Stencil,
        Attached::Renderbuffer(names.stencil_renderbuffer),
    )
    &&& target.has_attached(
        names.color_framebuffer,
        Attachment::Color0,
        Attached::Texture(texture),
    )
    &&& target.setting_is(texture, TextureParameter::MagFilter, TextureSetting::Nearest)
    &&& target.setting_is(texture, TextureParameter::MinFilter, TextureSetting::Nearest)
    &&& target.setting_is(texture, TextureParameter::WrapS, TextureSetting::ClampToEdge)
    &&& target.setting_is(texture, TextureParameter::WrapT, TextureSetting::ClampToEdge)
}

proof fn lemma_frame_buffers_created(
    target: TargetModel,
    names: MsaaBuffers,
    samples: i32,
    width: i32,
    height: i32,
)
    requires
        names_differ(names),
    ensures
        ({
            let image = GlCall::TexImage2d {
                format: TextureFormat::Rgb,
                width,
                height,
                pixels: None,
            };
            let after = target.run(
                ops(create_msaa_ops(names, samples, width, height)) + seq![image] + ops(
                    attach_msaa_ops(names),
                ),
            );
            &&& frame_buffers_fit(
                after,
                names,
                samples as int,
                width as int,
                height as int,
            )
            &&& after.draw is None
            &&& after.read is None
            &&& after.viewport == target.viewport
        }),
{
    let image = GlCall::TexImage2d { format: TextureFormat::Rgb, width, height, pixels: None };
    let calls = ops(create_msaa_ops(names, samples, width, height)) + seq![image] + ops(
        attach_msaa_ops(names),
    );
    assert(calls.len() == 24);
    let quiet = calls.take(3);
    assert forall|i: int| 0 <= i < quiet.len() implies keeps_targets(#[trigger] quiet[i]) by {}
    lemma_targets_kept(target, quiet);
    let rest = calls.skip(3);
    assert(calls =~= quiet + rest);
    lemma_target_concat(target, quiet, rest);
    assert(rest.len() == 21);
    let t1 = target.apply(rest[0]);
    let t2 = t1.apply(rest[1]);
    let t3 = t2.apply(rest[2]);
    let t4 = t3.apply(rest[3]);
    let t5 = t4.apply(rest[4]);
    let t6 = t5.apply(rest[5]);
    let t7 = t6.apply(rest[6]);
    assert(t7.storage == target.storage.insert(
        names.color_renderbuffer,
        Storage {
            samples: samples as int,
            format: RenderbufferFormat::Rgb8,
            width: width as int,
            height: height as int,
        },
    ).insert(
        names.stencil_renderbuffer,
        Storage {
            samples: samples as int,
            format: RenderbufferFormat::StencilIndex8,
            width: width as int,
            height: height as int,
        },
    ));
    let t8 = t7.apply(rest[7]);
    let t9 = t8.apply(rest[8]);
    let t10 = t9.apply(rest[9]);
    assert(t10.attached == target.attached.insert(
        (names.render_framebuffer, Attachment::Color0),
        Attached::Renderbuffer(names.color_renderbuffer),
    ).insert(
        (names.render_framebuffer, Attachment::Stencil),
        Attached::Renderbuffer(names.stencil_renderbuffer),
    ));
    let t11 = t10.apply(rest[10]);
    let t12 = t11.apply(rest[11]);
    assert(t12.texture == Some(names.framebuffer_texture));
    let t13 = t12.apply(rest[12]);
    let t14 = t13.apply(rest[13]);
    let t15 = t14.apply(rest[14]);
    let t16 = t15.apply(rest[15]);
    let t17 = t16.apply(rest[16]);
    assert(t17.images == target.images.insert(
        names.framebuffer_texture,
        Image {
            format: TextureFormat::Rgb,
            width: width as int,
            height: height as int,
            pixels: None,
        },
    ));
    let t18 = t17.apply(rest[17]);
    let t19 = t18.apply(rest[18]);
    let t20 = t19.apply(rest[19]);
    let t21 = t20.apply(rest[20]);
    lemma_target_steps(
        seq![
            target, t1, t2, t3, t4, t5, t6, t7, t8, t9, t10, t11, t12, t13, t14, t15, t16, t17,
            t18, t19, t20, t21,
        ],
        rest,
    );
    assert(t21.storage == t7.storage);
    assert(t21.images == t17.images);
    assert(t21.settings == t16.settings);
}

/// Building the frame buffers makes them fit the viewport: with WebGL2 and more
/// than one sample per pixel, everything that holds pixels of the frame has the
/// width and the height of the viewport, rounded towards zero, and the chosen
/// number of samples. Otherwise nothing is built. Either way the screen is drawn
/// on afterwards.
pub proof fn law_frame_buffers_fit_the_viewport(
    backend: WebGlRenderBackend,
    names: MsaaBuffers,
    target: TargetModel,
)
    requires
        names_differ(names),
    ensures
        ({
            let after = target.run(backend.msaa_calls(names));
            &&& after.draw is None
            &&& after.read is None
            &&& after.viewport == target.viewport
            &&& if backend.api == VertexArrayApi::WebGl2 && backend.msaa_sample_count >= 2 {
                backend.msaa_sample_count <= i32::MAX ==> frame_buffers_fit(
                    after,
                    names,
                    backend.msaa_sample_count as int,
                    backend.viewport_width.truncated() as int,
                    backend.viewport_height.truncated() as int,
                )
            } else {
                &&& after.storage == target.storage
                &&& after.images == target.images
                &&& after.attached == target.attached
            }
        }),
{
    let all = backend.msaa_calls(names);
    if backend.uses_msaa() {
        let width = backend.viewport_width.truncated();
        let height = backend.viewport_height.truncated();
        let samples = backend.msaa_sample_count as i32;
        let deletes = ops(
            match backend.msaa_buffers {
                Some(buffers) => delete_msaa_ops(buffers),
                None => Seq::empty(),
            },
        );
        let image = GlCall::TexImage2d { format: TextureFormat::Rgb, width, height, pixels: None };
        let builds = ops(create_msaa_ops(names, samples, width, height)) + seq![image] + ops(
            attach_msaa_ops(names),
        );
        assert(all =~= deletes + builds);
        lemma_target_concat(target, deletes, builds);
        match backend.msaa_buffers {
            Some(buffers) => lemma_deletes_keep_targets(target, buffers),
            None => {
                assert(deletes =~= Seq::<GlCall>::empty());
            },
        }
        lemma_frame_buffers_created(target, names, samples, width, height);
    } else {
        assert(all.len() == 2);
        let bound = target.apply(all[0]);
        lemma_target_steps(seq![target, bound, bound.apply(all[1])], all);
    }
}

/// Setting the size of the viewport: what is drawn fills that many pixels, and
/// with MSAA the frame buffers have that size, up to what single-precision
/// numbers can tell apart: sizes below 2^24 are exact.
pub proof fn law_resizing_fits(
    backend: WebGlRenderBackend,
    width: u32,
    height: u32,
    names: MsaaBuffers,
    target: TargetModel,
)
    requires
        names_differ(names),
        width < 0x100_0000,
        height < 0x100_0000,
        backend.msaa_sample_count <= i32::MAX,
    ensures
        ({
            let after = target.run(backend.resize_calls(width, height, names));
            &&& after.draw is None
            &&& after.viewport == (Area {
                x: 0,
                y: 0,
                width: width as int,
                height: height as int,
            })
            &&& backend.api == VertexArrayApi::WebGl2 && backend.msaa_sample_count >= 2
                ==> frame_buffers_fit(
                after,
                names,
                backend.msaa_sample_count as int,
                width as int,
                height as int,
            )
        }),
{
    let resized = backend.resized(width, height);
    let viewport = seq![
        GlCall::Op(GlOp::Viewport { x: 0, y: 0, width: width as i32, height: height as i32 }),
    ];
    let all = backend.resize_calls(width, height, names);
    assert(all =~= viewport + resized.msaa_calls(names));
    lemma_target_concat(target, viewport, resized.msaa_calls(names));
    lemma_target_steps(seq![target, target.apply(viewport[0])], viewport);
    law_frame_buffers_fit_the_viewport(resized, names, target.apply(viewport[0]));
    law_integer_through_float(width);
    law_integer_through_float(height);
}

/// The end of a frame with MSAA resolves all of it: the pixels of the whole
/// viewport are copied from where they were drawn to the texture's framebuffer,
/// and the screen is drawn on afterwards. Without MSAA nothing is copied.
pub proof fn law_whole_frame_is_resolved(
    backend: WebGlRenderBackend,
    target: TargetModel,
    x: int,
    y: int,
)
    ensures
        ({
            let after = target.run(ops(backend.end_frame_ops()));
            match backend.msaa_buffers {
                Some(buffers) => backend.api == VertexArrayApi::WebGl2 ==> {
                    &&& after.draw is None
                    &&& after.copied matches Some(copied)
                    &&& copied.from == Some(buffers.render_framebuffer)
                    &&& copied.to == Some(buffers.color_framebuffer)
                    &&& copied.area.has(x, y) <==> {
                        &&& 0 <= x < backend.viewport_width.truncated()
                        &&& 0 <= y < backend.viewport_height.truncated()
                    }
                },
                None => after == target,
            }
        }),
{
    let all_ops = backend.end_frame_ops();
    let all = ops(all_ops);
    if let Some(buffers) = backend.msaa_buffers {
        if backend.api == VertexArrayApi::WebGl2 {
            assert(all.len() == 16);
            let t1 = target.apply(all[0]);
            let t2 = t1.apply(all[1]);
            let t3 = t2.apply(all[2]);
            let t4 = t3.apply(all[3]);
            let t5 = t4.apply(all[4]);
            let first = all.take(5);
            lemma_target_steps(seq![target, t1, t2, t3, t4, t5], first);
            let middle = all.subrange(5, 12);
            assert forall|i: int| 0 <= i < middle.len() implies keeps_targets(
                #[trigger] middle[i],
            ) by {}
            let bind = all.subrange(12, 13);
            let rest = all.skip(13);
            assert forall|i: int| 0 <= i < rest.len() implies keeps_targets(#[trigger] rest[i]) by {}
            assert(all =~= first + middle + bind + rest);
            lemma_target_concat(target, first + middle + bind, rest);
            lemma_target_concat(target, first + middle, bind);
            lemma_target_concat(target, first, middle);
            lemma_targets_kept(t5, middle);
            lemma_target_steps(seq![t5, t5.apply(bind[0])], bind);
            lemma_targets_kept(t5.apply(bind[0]), rest);
        }
    } else {
        assert(all =~= Seq::<GlCall>::empty());
    }
}

/// What is resolved is what there is: after frame buffers were built for the
/// viewport, the end of a frame copies exactly the pixels that the renderbuffers
/// and the texture have.
pub proof fn law_resolved_pixels_exist(
    backend: WebGlRenderBackend,
    names: MsaaBuffers,
    target: TargetModel,
)
    requires
        names_differ(names),
        backend.api == VertexArrayApi::WebGl2,
        2 <= backend.msaa_sample_count <= i32::MAX,
        backend.msaa_buffers == Some(names),
    ensures
        ({
            let built = target.run(backend.msaa_calls(names));
            let after = built.run(ops(backend.end_frame_ops()));
            &&& after.copied matches Some(copied)
            &&& copied.area.x == 0 && copied.area.y == 0
            &&& copied.area.width == built.storage[names.color_renderbuffer].width
            &&& copied.area.height == built.storage[names.color_renderbuffer].height
            &&& copied.area.width == built.storage[names.stencil_renderbuffer].width
            &&& copied.area.height == built.storage[names.stencil_renderbuffer].height
            &&& copied.area.width == built.images[names.framebuffer_texture].width
            &&& copied.area.height == built.images[names.framebuffer_texture].height
        }),
{
    let built = target.run(backend.msaa_calls(names));
    law_frame_buffers_fit_the_viewport(backend, names, target);
    let all = ops(backend.end_frame_ops());
    assert(all.len() == 16);
    let t1 = built.apply(all[0]);
    let t2 = t1.apply(all[1]);
    let t3 = t2.apply(all[2]);
    let t4 = t3.apply(all[3]);
    let first = all.take(4);
    lemma_target_steps(seq![built, t1, t2, t3, t4], first);
    let rest = all.skip(4);
    assert(all =~= first + rest);
    lemma_target_concat(built, first, rest);
    assert forall|i: int| 0 <= i < rest.len() implies keeps_copied(#[trigger] rest[i]) by {}
    lemma_copied_kept(t4, rest);
}

/// The call copies nothing.
spec fn keeps_copied(call: GlCall) -> bool {
    !(call matches GlCall::Op(GlOp::BlitColors { .. }))
}

proof fn lemma_copied_kept(target: TargetModel, calls: Seq<GlCall>)
    requires
        forall|i: int| 0 <= i < calls.len() ==> keeps_copied(#[trigger] calls[i]),
    ensures
        target.run(calls).copied == target.copied,
    decreases calls.len(),
{
    if calls.len() > 0 {
        let rest = calls.drop_last();
        assert forall|i: int| 0 <= i < rest.len() implies keeps_copied(#[trigger] rest[i]) by {
            assert(rest[i] == calls[i]);
        }
        lemma_copied_kept(target, rest);
        assert(keeps_copied(calls[calls.len() - 1]));
    }
}

/// A frame with MSAA is drawn where it is resolved from; one without where the
/// last one was.
pub proof fn law_frame_is_drawn_into_its_buffers(
    backend: WebGlRenderBackend,
    clear: Vec4,
    target: TargetModel,
)
    ensures
        target.run(ops(backend.begin_frame_ops(clear))).draw == match backend.msaa_buffers {
            Some(buffers) => Some(buffers.render_framebuffer),
            None => target.draw,
        },
{
    let all = ops(backend.begin_frame_ops(clear));
    match backend.msaa_buffers {
        Some(_) => {
            let first = all.take(1);
            let rest = all.skip(1);
            assert(all =~= first + rest);
            lemma_target_concat(target, first, rest);
            lemma_target_steps(seq![target, target.apply(first[0])], first);
            assert forall|i: int| 0 <= i < rest.len() implies keeps_targets(#[trigger] rest[i]) by {}
            lemma_targets_kept(target.apply(first[0]), rest);
        },
        None => {
            assert forall|i: int| 0 <= i < all.len() implies keeps_targets(#[trigger] all[i]) by {}
            lemma_targets_kept(target, all);
        },
    }
}

/// Loading a bitmap: its texture has the size and the pixels of the bitmap, is
/// smooth and does not repeat.
pub proof fn law_bitmap_is_loaded(bitmap: Bitmap, texture: GlName, target: TargetModel)
    ensures
        ({
            let after = target.run(bitmap_calls(bitmap, texture));
            &&& bitmap.width <= i32::MAX && bitmap.height <= i32::MAX ==> after.shows(
                texture,
                Image {
                    format: match bitmap.data {
                        BitmapFormat::Rgb(_) => TextureFormat::Rgb,
                        BitmapFormat::Rgba(_) => TextureFormat::Rgba,
                    },
                    width: bitmap.width as int,
                    height: bitmap.height as int,
                    pixels: Some(
                        match bitmap.data {
                            BitmapFormat::Rgb(data) => data@,
                            BitmapFormat::Rgba(data) => data@,
                        },
                    ),
                },
            )
            &&& after.setting_is(texture, TextureParameter::MagFilter, TextureSetting::Linear)
            &&& after.setting_is(texture, TextureParameter::MinFilter, TextureSetting::Linear)
            &&& after.setting_is(texture, TextureParameter::WrapS, TextureSetting::ClampToEdge)
            &&& after.setting_is(texture, TextureParameter::WrapT, TextureSetting::ClampToEdge)
        }),
{
    let all = bitmap_calls(bitmap, texture);
    assert(all.len() == 7);
    let t1 = target.apply(all[0]);
    let t2 = t1.apply(all[1]);
    let t3 = t2.apply(all[2]);
    let t4 = t3.apply(all[3]);
    let t5 = t4.apply(all[4]);
    let t6 = t5.apply(all[5]);
    let t7 = t6.apply(all[6]);
    lemma_target_steps(seq![target, t1, t2, t3, t4, t5, t6, t7], all);
    assert(t7.images == t3.images);
}

/// A pixel, and what clearing does to it.
pub struct PixelModel {
    pub x: int,
    pub y: int,
    pub color: Vec4,
    pub stencil: int,
    /// Only pixels in an area are cleared.
    pub scissor_test: bool,
    pub scissor: Area,
    /// Colors are written.
    pub paints: bool,
    /// The bits of stencil values that are written.
    pub stencil_writes: u32,
    pub clear_color: Vec4,
}

impl PixelModel {
    /// The pixel can be cleared.
    pub open spec fn is_in_reach(self) -> bool {
        !self.scissor_test || self.scissor.has(self.x, self.y)
    }

    /// What a call changes.
    pub open spec fn apply(self, op: GlOp) -> PixelModel {
        match op {
            GlOp::Enable(Capability::ScissorTest) => PixelModel { scissor_test: true, ..self },
            GlOp::Disable(Capability::ScissorTest) => PixelModel { scissor_test: false, ..self },
            GlOp::Scissor { x, y, width, height } => PixelModel {
                scissor: Area {
                    x: x as int,
                    y: y as int,
                    width: width as int,
                    height: height as int,
                },
                ..self
            },
            GlOp::ColorMask(paints) => PixelModel { paints, ..self },
            GlOp::StencilMask(stencil_writes) => PixelModel { stencil_writes, ..self },
            GlOp::ClearColor(clear_color) => PixelModel { clear_color, ..self },
            GlOp::Clear { color, stencil } => PixelModel {
                color: if color && self.paints && self.is_in_reach() {
                    self.clear_color
                } else {
                    self.color
                },
                stencil: if stencil && self.stencil_writes == 0xff && self.is_in_reach() {
                    0
                } else {
                    self.stencil
                },
                ..self
            },
            _ => self,
        }
    }

    /// What calls change, one after the other.
    pub open spec fn run(self, ops: Seq<GlOp>) -> PixelModel
        decreases ops.len(),
    {
        if ops.len() == 0 {
            self
        } else {
            self.run(ops.drop_last()).apply(ops.last())
        }
    }
}

proof fn lemma_pixel_concat(pixel: PixelModel, first: Seq<GlOp>, second: Seq<GlOp>)
    ensures
        pixel.run(first + second) == pixel.run(first).run(second),
    decreases second.len(),
{
    let both = first + second;
    if second.len() == 0 {
        assert(both =~= first);
    } else {
        assert(both.drop_last() =~= first + second.drop_last());
        assert(both.last() == second.last());
        lemma_pixel_concat(pixel, first, second.drop_last());
    }
}

/// Calls that take a pixel through others: after each, it is the next.
proof fn lemma_pixel_steps(states: Seq<PixelModel>, some_ops: Seq<GlOp>)
    requires
        states.len() == some_ops.len() + 1,
        forall|i: int|
            0 <= i < some_ops.len() ==> states[i + 1] == states[i].apply(#[trigger] some_ops[i]),
    ensures
        states[0].run(some_ops) == states.last(),
    decreases some_ops.len(),
{
    if some_ops.len() > 0 {
        let rest = some_ops.drop_last();
        let fewer = states.drop_last();
        assert forall|i: int| 0 <= i < rest.len() implies fewer[i + 1] == fewer[i].apply(
            #[trigger] rest[i],
        ) by {
            assert(rest[i] == some_ops[i]);
        }
        lemma_pixel_steps(fewer, rest);
        let last = some_ops.len() - 1;
        assert(states[last + 1] == states[last].apply(some_ops[last]));
    }
}

/// A frame begins empty: every pixel has the color that it is cleared to, and is
/// in no mask.
pub proof fn law_frame_begins_cleared(
    backend: WebGlRenderBackend,
    clear: Vec4,
    pixel: PixelModel,
)
    requires
        !pixel.scissor_test,
    ensures
        ({
            let after = pixel.run(backend.begin_frame_ops(clear));
            &&& after.color == clear
            &&& after.stencil == 0
            &&& after.paints
            &&& !after.scissor_test
        }),
{
    let all = backend.begin_frame_ops(clear);
    let start = if backend.msaa_buffers is Some {
        1int
    } else {
        0int
    };
    let first = all.take(start);
    let rest = all.skip(start);
    assert(all =~= first + rest);
    lemma_pixel_concat(pixel, first, rest);
    if backend.msaa_buffers is Some {
        lemma_pixel_steps(seq![pixel, pixel.apply(first[0])], first);
        assert(pixel.apply(first[0]) == pixel);
    } else {
        assert(pixel.run(first) == pixel);
    }
    assert(rest.len() == 5);
    let p1 = pixel.apply(rest[0]);
    let p2 = p1.apply(rest[1]);
    let p3 = p2.apply(rest[2]);
    let p4 = p3.apply(rest[3]);
    let p5 = p4.apply(rest[4]);
    lemma_pixel_steps(seq![pixel, p1, p2, p3, p4, p5], rest);
}

/// Nothing of the pixel but whether it is painted is changed by the stencil
/// calls: it is but while a mask is drawn or removed.
proof fn lemma_stencil_ops_paint(backend: WebGlRenderBackend, pixel: PixelModel)
    requires
        backend.wf(),
    ensures
        pixel.run(backend.stencil_ops()) == (PixelModel {
            paints: backend.mask_state == MaskState::NoMask || backend.mask_state
                == MaskState::DrawMaskedContent,
            ..pixel
        }),
{
    let all = backend.stencil_ops();
    if backend.mask_state == MaskState::NoMask {
        let p1 = pixel.apply(all[0]);
        lemma_pixel_steps(seq![pixel, p1, p1.apply(all[1])], all);
    } else {
        let p1 = pixel.apply(all[0]);
        let p2 = p1.apply(all[1]);
        let p3 = p2.apply(all[2]);
        lemma_pixel_steps(seq![pixel, p1, p2, p3, p3.apply(all[3])], all);
    }
}

/// No margin reaches a pixel, or some does: below `margin` it is the near one,
/// and from `far` on, for `margin` pixels and one more, the far one.
pub open spec fn is_in_margin(at: int, margin: int, far: int) -> bool {
    0 <= at < margin || far <= at <= far + margin
}

/// Painting over the margins clears exactly the pixels of the margins, to black
/// and transparent, over the whole width of the viewport, or its whole height,
/// and leaves the masks alone. Afterwards all pixels can be drawn on again; of the
/// area that only was cleared last, the far margin is left, or, between margins on
/// the left and on the right, the viewport. While the shape of a mask is drawn or
/// removed, nothing is cleared.
pub proof fn law_margins_are_cleared(
    backend: WebGlRenderBackend,
    letterbox: Letterbox,
    pixel: PixelModel,
)
    requires
        backend.wf(),
        match letterbox {
            Letterbox::NoMargins => true,
            Letterbox::Letterbox { margin, .. } => 0 <= margin.truncated() < i32::MAX,
            Letterbox::Pillarbox { margin, .. } => 0 <= margin.truncated() < i32::MAX,
        },
    ensures
        ({
            let after = pixel.run(backend.letterbox_ops(letterbox));
            let zero = FloatBits { bits: 0 };
            let width = backend.viewport_width.truncated() as int;
            let height = backend.viewport_height.truncated() as int;
            let is_cleared = match letterbox {
                Letterbox::NoMargins => false,
                Letterbox::Letterbox { margin, far } => {
                    &&& 0 <= pixel.x < width
                    &&& is_in_margin(
                        pixel.y,
                        margin.truncated() as int,
                        far.truncated() as int,
                    )
                },
                Letterbox::Pillarbox { margin, far } => {
                    &&& 0 <= pixel.y < height
                    &&& is_in_margin(
                        pixel.x,
                        margin.truncated() as int,
                        far.truncated() as int,
                    )
                },
            };
            let is_painted = match backend.mask_state {
                MaskState::NoMask => true,
                MaskState::DrawMaskStencil => false,
                MaskState::DrawMaskedContent => true,
                MaskState::ClearMaskStencil => false,
            };
            &&& after.color == if is_cleared && is_painted {
                Vec4 { x: zero, y: zero, z: zero, w: zero }
            } else {
                pixel.color
            }
            &&& after.stencil == pixel.stencil
            &&& after.scissor_test == (letterbox is NoMargins && pixel.scissor_test)
            &&& after.scissor == match letterbox {
                Letterbox::NoMargins => pixel.scissor,
                Letterbox::Letterbox { margin, far } => Area {
                    x: 0,
                    y: far.truncated() as int,
                    width,
                    height: margin.truncated() + 1,
                },
                Letterbox::Pillarbox { .. } => Area { x: 0, y: 0, width, height },
            }
        }),
{
    let all = backend.letterbox_ops(letterbox);
    let masking = backend.stencil_ops();
    let rest = all.skip(masking.len() as int);
    assert(all =~= masking + rest);
    lemma_pixel_concat(pixel, masking, rest);
    lemma_stencil_ops_paint(backend, pixel);
    let start = pixel.run(masking);
    match letterbox {
        Letterbox::NoMargins => {
            assert(rest.len() == 1);
            lemma_pixel_steps(seq![start, start.apply(rest[0])], rest);
        },
        Letterbox::Letterbox { margin, far } => {
            assert(rest.len() == 7);
            let p1 = start.apply(rest[0]);
            let p2 = p1.apply(rest[1]);
            let p3 = p2.apply(rest[2]);
            let p4 = p3.apply(rest[3]);
            let p5 = p4.apply(rest[4]);
            let p6 = p5.apply(rest[5]);
            let p7 = p6.apply(rest[6]);
            lemma_pixel_steps(seq![start, p1, p2, p3, p4, p5, p6, p7], rest);
        },
        Letterbox::Pillarbox { margin, far } => {
            assert(rest.len() == 8);
            let p1 = start.apply(rest[0]);
            let p2 = p1.apply(rest[1]);
            let p3 = p2.apply(rest[2]);
            let p4 = p3.apply(rest[3]);
            let p5 = p4.apply(rest[4]);
            let p6 = p5.apply(rest[5]);
            let p7 = p6.apply(rest[6]);
            let p8 = p7.apply(rest[7]);
            lemma_pixel_steps(seq![start, p1, p2, p3, p4, p5, p6, p7, p8], rest);
        },
    }
}

/// Where the far margin reaches the end of the viewport, a pixel of the viewport
/// is cleared exactly if it is below the near margin or beyond where the far one
/// begins.
pub proof fn law_stage_is_not_cleared(
    backend: WebGlRenderBackend,
    margin: FloatBits,
    far: FloatBits,
    pixel: PixelModel,
)
    requires
        backend.wf(),
        backend.mask_state == MaskState::NoMask || backend.mask_state
            == MaskState::DrawMaskedContent,
        0 <= margin.truncated() < i32::MAX,
        0 <= pixel.x < backend.viewport_width.truncated(),
        0 <= pixel.y < backend.viewport_height.truncated(),
        pixel.color != (Vec4 {
            x: FloatBits { bits: 0 },
            y: FloatBits { bits: 0 },
            z: FloatBits { bits: 0 },
            w: FloatBits { bits: 0 },
        }),
    ensures
        far.truncated() + margin.truncated() + 1 >= backend.viewport_height.truncated() ==> (
        pixel.run(backend.letterbox_ops(Letterbox::Letterbox { margin, far })).color != pixel.color
            <==> pixel.y < margin.truncated() || pixel.y >= far.truncated()),
        far.truncated() + margin.truncated() + 1 >= backend.viewport_width.truncated() ==> (
        pixel.run(backend.letterbox_ops(Letterbox::Pillarbox { margin, far })).color != pixel.color
            <==> pixel.x < margin.truncated() || pixel.x >= far.truncated()),
{
    law_margins_are_cleared(backend, Letterbox::Letterbox { margin, far }, pixel);
    law_margins_are_cleared(backend, Letterbox::Pillarbox { margin, far }, pixel);
}

/// A matrix of three columns changes nothing.
pub open spec fn is_identity(matrix: Matrix3) -> bool {
    let zero = FloatBits { bits: 0 };
    let one = FloatBits { bits: 0x3f80_0000 };
    &&& matrix.c0 == Vec3 { x: one, y: zero, z: zero }
    &&& matrix.c1 == Vec3 { x: zero, y: one, z: zero }
    &&& matrix.c2 == Vec3 { x: zero, y: zero, z: one }
}

/// The plane is scaled by two numbers and moved by two numbers.
pub open spec fn scales_and_moves(
    matrix: Matrix4,
    x_scale: u32,
    y_scale: u32,
    x: u32,
    y: u32,
) -> bool {
    transforms_by(
        matrix,
        Matrix {
            a: FloatBits { bits: x_scale },
            b: FloatBits { bits: 0 },
            c: FloatBits { bits: 0 },
            d: FloatBits { bits: y_scale },
            tx: FloatBits { bits: x },
            ty: FloatBits { bits: y },
        },
    )
}

/// The end of a frame with MSAA shows it: the texture that it was resolved into
/// is drawn once, unmasked, on the unit square, which is scaled by 2 and moved by
/// -1 both ways and so fills the screen, in its own colors.
pub proof fn law_resolved_frame_is_shown(
    backend: WebGlRenderBackend,
    buffers: MsaaBuffers,
    gl: GlModel,
)
    requires
        locations_differ(backend.bitmap_program),
        backend.has_quad(),
        backend.api == VertexArrayApi::WebGl2,
        backend.msaa_buffers == Some(buffers),
    ensures
        ({
            let all = ops(backend.end_frame_ops());
            let ready = gl.run(all.drop_last());
            let program = backend.bitmap_program;
            let quad = backend.meshes@[backend.quad_shape.index as int].draws@[0];
            let zero = FloatBits { bits: 0 };
            let one = FloatBits { bits: 0x3f80_0000 };
            &&& all[0] == GlCall::Op(GlOp::Disable(Capability::StencilTest))
            &&& forall|k: int|
                1 <= k < all.len() ==> #[trigger] all[k] != GlCall::Op(
                    GlOp::Enable(Capability::StencilTest),
                )
            &&& forall|k: int| 0 <= k < all.len() - 1 ==> !is_draw(#[trigger] all[k])
            &&& all.last() == GlCall::Op(GlOp::DrawElements { count: quad.num_indices })
            &&& ready.vao == Some(quad.vao)
            &&& ready.program == Some(program.program)
            &&& ready.texture == Some(buffers.framebuffer_texture)
            &&& ready.unit_0_is_active
            &&& ready.uniform_is(program, ShaderUniform::BitmapTexture, UniformValue::Int(0))
            &&& exists|world: Matrix4|
                {
                    &&& #[trigger] ready.uniform_is(
                        program,
                        ShaderUniform::WorldMatrix,
                        UniformValue::Matrix(world),
                    )
                    &&& scales_and_moves(world, 0x4000_0000, 0x4000_0000, 0xbf80_0000, 0xbf80_0000)
                }
            &&& exists|view: Matrix4|
                {
                    &&& #[trigger] ready.uniform_is(
                        program,
                        ShaderUniform::ViewMatrix,
                        UniformValue::Matrix(view),
                    )
                    &&& scales_and_moves(view, 0x3f80_0000, 0x3f80_0000, 0, 0)
                }
            &&& exists|matrix: Matrix3|
                {
                    &&& #[trigger] ready.uniform_is(
                        program,
                        ShaderUniform::TextureMatrix,
                        UniformValue::Matrix3(matrix),
                    )
                    &&& is_identity(matrix)
                }
            &&& ready.uniform_is(
                program,
                ShaderUniform::MultColor,
                UniformValue::Vector(Vec4 { x: one, y: one, z: one, w: one }),
            )
            &&& ready.uniform_is(
                program,
                ShaderUniform::AddColor,
                UniformValue::Vector(Vec4 { x: zero, y: zero, z: zero, w: zero }),
            )
        }),
{
    let all = ops(backend.end_frame_ops());
    assert(all.len() == 16);
    let program = backend.bitmap_program;
    let ready = gl.run(all.drop_last());
    let world = full_screen_matrix();
    let view = Matrix4::spec_identity();
    let matrix = Matrix3::spec_identity();

    let first = all.take(6);
    let g1 = gl.apply(all[0]);
    let g2 = g1.apply(all[1]);
    let g3 = g2.apply(all[2]);
    let g4 = g3.apply(all[3]);
    let g5 = g4.apply(all[4]);
    let g6 = g5.apply(all[5]);
    lemma_run_steps(seq![gl, g1, g2, g3, g4, g5, g6], first);

    let setting = all.subrange(6, 11);
    let uniforms = seq![
        ShaderUniform::WorldMatrix,
        ShaderUniform::ViewMatrix,
        ShaderUniform::MultColor,
        ShaderUniform::AddColor,
        ShaderUniform::TextureMatrix,
    ];
    let values = seq![
        UniformValue::Matrix(world),
        UniformValue::Matrix(view),
        UniformValue::Vector(all_ones()),
        UniformValue::Vector(all_zeros()),
        UniformValue::Matrix3(matrix),
    ];
    assert forall|i: int| 0 <= i < setting.len() implies sets(
        #[trigger] setting[i],
        program,
        uniforms[i],
        values[i],
    ) by {}
    lemma_all_are_set(g6, setting, program, uniforms, values);
    let told = g6.run(setting);
    assert forall|i: int| 0 <= i < 5 implies told.uniform_is(
        program,
        #[trigger] uniforms[i],
        values[i],
    ) by {}

    let showing = all.subrange(11, 15);
    let h1 = told.apply(all[11]);
    let h2 = h1.apply(all[12]);
    let h3 = h2.apply(all[13]);
    let h4 = h3.apply(all[14]);
    lemma_run_steps(seq![told, h1, h2, h3, h4], showing);
    assert forall|i: int| 0 <= i < 5 implies h4.uniform_is(
        program,
        #[trigger] uniforms[i],
        values[i],
    ) by {
        assert(h2.uniform_is(program, uniforms[i], values[i]));
        lemma_uniform_kept(
            h2,
            program,
            ShaderUniform::BitmapTexture,
            UniformValue::Int(0),
            uniforms[i],
            values[i],
        );
    }
    assert(all.drop_last() =~= first + setting + showing);
    lemma_run_concat(gl, first + setting, showing);
    lemma_run_concat(gl, first, setting);
    assert(ready == h4);
    assert(ready.uniform_is(program, uniforms[0], values[0]));
    assert(ready.uniform_is(program, uniforms[1], values[1]));
    assert(ready.uniform_is(program, uniforms[2], values[2]));
    assert(ready.uniform_is(program, uniforms[3], values[3]));
    assert(ready.uniform_is(program, uniforms[4], values[4]));
    assert(scales_and_moves(world, 0x4000_0000, 0x4000_0000, 0xbf80_0000, 0xbf80_0000));
    assert(scales_and_moves(view, 0x3f80_0000, 0x3f80_0000, 0, 0));
    assert(is_identity(matrix));
}

} // verus!
