//! What the calls of the renderer do to the state of the graphics library, and
//! that leaving out unnecessary calls does no harm: whenever triangles are
//! drawn, the state is the one that they are meant to be drawn with.
use vstd::prelude::*;

use crate::backend::{Bitmap, Letterbox, MsaaBuffers, RenderCache, Texture, WebGlRenderBackend};
use crate::float::FloatBits;
use crate::geometry::{Matrix3, Matrix4, Vec4};
use crate::gl::{
    BlendFactor, Capability, GlName, GlOp, TextureFormat, TextureParameter, TextureSetting,
    VertexArrayApi,
};
use crate::mask_laws::StencilModel;
use crate::mesh::{BitmapDraw, CharacterId, DrawNames, GradientInterpolation, TessDraw};
use crate::shader::{ProgramKind, ShaderProgram, ShaderUniform};

verus! {

use crate::backend::{
    attach_msaa_ops, bitmap_calls, create_msaa_ops, delete_msaa_ops, draw_program, find_texture,
    is_cached, setup_ops, Placement,
};
use crate::gl::{ops, GlCall};
use crate::mesh::{draw_calls, flattened, quad_calls, DrawTypeView, DrawView, GradientView};

/// The value of a uniform.
pub enum UniformValue {
    Vector(Vec4),
    Matrix(Matrix4),
    Matrix3(Matrix3),
    Int(i32),
    Float(FloatBits),
    Floats(Seq<FloatBits>),
    Vectors(Seq<FloatBits>),
}

/// The state of the graphics library that the renderer keeps track of.
pub struct GlModel {
    pub program: Option<GlName>,
    pub blend: (BlendFactor, BlendFactor),
    pub vao: Option<GlName>,
    /// The texture that is bound to the active texture unit.
    pub texture: Option<GlName>,
    /// Texture unit 0 is the active one.
    pub unit_0_is_active: bool,
    /// The parameters of each texture.
    pub settings: Map<(GlName, TextureParameter), TextureSetting>,
    /// The uniforms of each program, by location.
    pub uniforms: Map<(GlName, GlName), UniformValue>,
    /// What is drawn is blended with what is there.
    pub blends: bool,
    /// The alignment of the rows of textures that are loaded.
    pub alignment: i32,
}

impl GlModel {
    /// Sets a uniform of the program in use, if it takes it.
    pub open spec fn set_uniform(self, location: Option<GlName>, value: UniformValue) -> GlModel {
        match (self.program, location) {
            (Some(program), Some(location)) => GlModel {
                uniforms: self.uniforms.insert((program, location), value),
                ..self
            },
            _ => self,
        }
    }

    /// What a call changes.
    pub open spec fn apply(self, call: GlCall) -> GlModel {
        match call {
            GlCall::Op(op) => self.apply_op(op),
            GlCall::Uniform1fv { location, values } => self.set_uniform(
                location,
                UniformValue::Floats(values),
            ),
            GlCall::Uniform4fv { location, values } => self.set_uniform(
                location,
                UniformValue::Vectors(values),
            ),
            _ => self,
        }
    }

    /// What a call that carries no data of variable length changes.
    pub open spec fn apply_op(self, op: GlOp) -> GlModel {
        match op {
            GlOp::UseProgram(program) => GlModel { program: Some(program), ..self },
            GlOp::BlendFunc(src, dst) => GlModel { blend: (src, dst), ..self },
            GlOp::BindVertexArray(_, vao) => GlModel { vao, ..self },
            GlOp::BindTexture(texture) => GlModel { texture, ..self },
            GlOp::ActiveTexture0 => GlModel { unit_0_is_active: true, ..self },
            GlOp::TexParameter(parameter, setting) => match self.texture {
                Some(texture) => GlModel {
                    settings: self.settings.insert((texture, parameter), setting),
                    ..self
                },
                None => self,
            },
            GlOp::Enable(Capability::Blend) => GlModel { blends: true, ..self },
            GlOp::Disable(Capability::Blend) => GlModel { blends: false, ..self },
            GlOp::UnpackAlignment(alignment) => GlModel { alignment, ..self },
            GlOp::Uniform4f(location, value) => self.set_uniform(
                location,
                UniformValue::Vector(value),
            ),
            GlOp::UniformMatrix4(location, value) => self.set_uniform(
                location,
                UniformValue::Matrix(value),
            ),
            GlOp::Uniform1i(location, value) => self.set_uniform(
                location,
                UniformValue::Int(value),
            ),
            GlOp::Uniform1f(location, value) => self.set_uniform(
                location,
                UniformValue::Float(value),
            ),
            GlOp::UniformMatrix3(location, value) => self.set_uniform(
                location,
                UniformValue::Matrix3(value),
            ),
            _ => self,
        }
    }

    /// A texture has a parameter.
    pub open spec fn setting_is(
        self,
        texture: GlName,
        parameter: TextureParameter,
        setting: TextureSetting,
    ) -> bool {
        &&& self.settings.contains_key((texture, parameter))
        &&& self.settings[(texture, parameter)] == setting
    }

    /// What calls change, one after the other.
    pub open spec fn run(self, calls: Seq<GlCall>) -> GlModel
        decreases calls.len(),
    {
        if calls.len() == 0 {
            self
        } else {
            self.run(calls.drop_last()).apply(calls.last())
        }
    }

    /// A uniform of a program has a value, if the program takes it.
    pub open spec fn uniform_is(
        self,
        program: ShaderProgram,
        uniform: ShaderUniform,
        value: UniformValue,
    ) -> bool {
        program.location_of(uniform) matches Some(location) ==> {
            &&& self.uniforms.contains_key((program.program, location))
            &&& self.uniforms[(program.program, location)] == value
        }
    }

    /// A uniform of a program is a color, or one with equal numbers, if the
    /// program takes it.
    pub open spec fn uniform_shows(
        self,
        program: ShaderProgram,
        uniform: ShaderUniform,
        color: Vec4,
    ) -> bool {
        exists|value: Vec4|
            {
                &&& #[trigger] self.uniform_is(program, uniform, UniformValue::Vector(value))
                &&& value == color || color.same_numbers(value)
            }
    }
}

/// A program takes its uniforms at different locations.
pub open spec fn locations_differ(program: ShaderProgram) -> bool {
    forall|a: ShaderUniform, b: ShaderUniform|
        a != b && #[trigger] program.location_of(a) is Some ==> program.location_of(a)
            != #[trigger] program.location_of(b)
}

/// The programs of a renderer are different programs, and each takes its
/// uniforms at different locations.
pub open spec fn programs_differ(backend: WebGlRenderBackend) -> bool {
    &&& locations_differ(backend.color_program)
    &&& locations_differ(backend.gradient_program)
    &&& locations_differ(backend.bitmap_program)
    &&& backend.color_program.program != backend.gradient_program.program
    &&& backend.color_program.program != backend.bitmap_program.program
    &&& backend.gradient_program.program != backend.bitmap_program.program
}

/// What the renderer believes to be set is set.
pub open spec fn is_coherent(backend: WebGlRenderBackend, cache: RenderCache, gl: GlModel) -> bool {
    &&& gl.blend == cache.blend_func
    &&& cache.active_program matches Some(kind) ==> {
        let program = backend.spec_program(kind);
        &&& cache.blend_func == kind.spec_blend()
        &&& gl.program == Some(program.program)
        &&& cache.mult_color matches Some(color) ==> gl.uniform_is(
            program,
            ShaderUniform::MultColor,
            UniformValue::Vector(color),
        )
        &&& cache.add_color matches Some(color) ==> gl.uniform_is(
            program,
            ShaderUniform::AddColor,
            UniformValue::Vector(color),
        )
    }
}

/// The program in use has the current view matrix.
pub open spec fn view_is_current(
    backend: WebGlRenderBackend,
    cache: RenderCache,
    gl: GlModel,
) -> bool {
    cache.active_program matches Some(kind) ==> gl.uniform_is(
        backend.spec_program(kind),
        ShaderUniform::ViewMatrix,
        UniformValue::Matrix(backend.view_matrix),
    )
}

/// Everything is set to draw with a program, where and in which colors
/// `placement` says.
pub open spec fn is_set_for(
    backend: WebGlRenderBackend,
    gl: GlModel,
    kind: ProgramKind,
    placement: Placement,
) -> bool {
    let program = backend.spec_program(kind);
    &&& gl.program == Some(program.program)
    &&& gl.blend == kind.spec_blend()
    &&& gl.uniform_is(
        program,
        ShaderUniform::WorldMatrix,
        UniformValue::Matrix(placement.world),
    )
    &&& gl.uniform_is(
        program,
        ShaderUniform::ViewMatrix,
        UniformValue::Matrix(backend.view_matrix),
    )
    &&& gl.uniform_shows(program, ShaderUniform::MultColor, placement.mult_color)
    &&& gl.uniform_shows(program, ShaderUniform::AddColor, placement.add_color)
}

/// Where triangles show a bitmap, it is registered, its texture is bound to the
/// texture unit that the program reads, it is placed by its matrix, it is smooth
/// or not, and it repeats or not; on WebGL1 it never does.
pub open spec fn shows_bitmap(backend: WebGlRenderBackend, gl: GlModel, draw: DrawView) -> bool {
    draw.draw_type matches DrawTypeView::Bitmap(bitmap) ==> {
        let program = backend.bitmap_program;
        let filter = if bitmap.is_smoothed {
            TextureSetting::Linear
        } else {
            TextureSetting::Nearest
        };
        let wrap = if bitmap.is_repeating && backend.api == VertexArrayApi::WebGl2 {
            TextureSetting::MirroredRepeat
        } else {
            TextureSetting::ClampToEdge
        };
        &&& find_texture(backend.textures@, bitmap.id) matches Some(texture)
        &&& gl.texture == Some(texture.texture)
        &&& gl.unit_0_is_active
        &&& gl.uniform_is(program, ShaderUniform::BitmapTexture, UniformValue::Int(0))
        &&& gl.uniform_is(
            program,
            ShaderUniform::TextureMatrix,
            UniformValue::Matrix3(bitmap.matrix),
        )
        &&& gl.setting_is(texture.texture, TextureParameter::MagFilter, filter)
        &&& gl.setting_is(texture.texture, TextureParameter::MinFilter, filter)
        &&& gl.setting_is(texture.texture, TextureParameter::WrapS, wrap)
        &&& gl.setting_is(texture.texture, TextureParameter::WrapT, wrap)
    }
}

/// Where triangles show a gradient, every uniform of the gradient program that
/// describes gradients has the value of its field.
pub open spec fn shows_gradient(backend: WebGlRenderBackend, gl: GlModel, draw: DrawView) -> bool {
    draw.draw_type matches DrawTypeView::Gradient(gradient) ==> {
        let program = backend.gradient_program;
        &&& gl.uniform_is(
            program,
            ShaderUniform::TextureMatrix,
            UniformValue::Matrix3(gradient.matrix),
        )
        &&& gl.uniform_is(
            program,
            ShaderUniform::GradientType,
            UniformValue::Int(gradient.gradient_type),
        )
        &&& gl.uniform_is(
            program,
            ShaderUniform::GradientRatios,
            UniformValue::Floats(gradient.ratios),
        )
        &&& gl.uniform_is(
            program,
            ShaderUniform::GradientColors,
            UniformValue::Vectors(flattened(gradient.colors)),
        )
        &&& gl.uniform_is(
            program,
            ShaderUniform::GradientNumColors,
            UniformValue::Int(gradient.num_colors as i32),
        )
        &&& gl.uniform_is(
            program,
            ShaderUniform::GradientRepeatMode,
            UniformValue::Int(gradient.repeat_mode),
        )
        &&& gl.uniform_is(
            program,
            ShaderUniform::GradientFocalPoint,
            UniformValue::Float(gradient.focal_point),
        )
        &&& gl.uniform_is(
            program,
            ShaderUniform::GradientInterpolation,
            UniformValue::Int(
                if gradient.interpolation == GradientInterpolation::LinearRgb {
                    1
                } else {
                    0
                },
            ),
        )
    }
}

/// A call draws triangles, and everything is set to draw them: their vertices,
/// their program, where and in which colors `placement` says, and their gradient
/// or bitmap.
#[verifier::opaque]
pub open spec fn draws_rightly(
    backend: WebGlRenderBackend,
    gl: GlModel,
    call: GlCall,
    draw: DrawView,
    placement: Placement,
) -> bool {
    &&& call == GlCall::Op(GlOp::DrawElements { count: draw.num_indices })
    &&& gl.vao == Some(draw.vao)
    &&& is_set_for(backend, gl, draw_program(draw), placement)
    &&& shows_bitmap(backend, gl, draw)
    &&& shows_gradient(backend, gl, draw)
}

/// The triangles are drawn: all are but those that show a bitmap which is not
/// registered.
pub open spec fn is_drawable(backend: WebGlRenderBackend, draw: DrawView) -> bool {
    draw.draw_type matches DrawTypeView::Bitmap(bitmap) ==> exists|i: int|
        0 <= i < backend.textures@.len() && (#[trigger] backend.textures@[i]).0 == bitmap.id
}

/// How many of the first `count` groups of triangles are drawn.
pub open spec fn drawable_count(
    backend: WebGlRenderBackend,
    draws: Seq<DrawView>,
    count: nat,
) -> nat
    decreases count,
{
    if count == 0 {
        0
    } else {
        drawable_count(backend, draws, (count - 1) as nat) + if is_drawable(
            backend,
            draws[count - 1],
        ) {
            1nat
        } else {
            0
        }
    }
}

/// How many calls draw triangles.
pub open spec fn draws_in(calls: Seq<GlCall>) -> nat
    decreases calls.len(),
{
    if calls.len() == 0 {
        0
    } else {
        draws_in(calls.drop_last()) + if is_draw(calls.last()) {
            1nat
        } else {
            0
        }
    }
}

proof fn lemma_draws_concat(first: Seq<GlCall>, second: Seq<GlCall>)
    ensures
        draws_in(first + second) == draws_in(first) + draws_in(second),
    decreases second.len(),
{
    let both = first + second;
    if second.len() == 0 {
        assert(both =~= first);
    } else {
        assert(both.drop_last() =~= first + second.drop_last());
        assert(both.last() == second.last());
        lemma_draws_concat(first, second.drop_last());
    }
}

proof fn lemma_no_draws(calls: Seq<GlCall>)
    requires
        forall|i: int| 0 <= i < calls.len() ==> !is_draw(#[trigger] calls[i]),
    ensures
        draws_in(calls) == 0,
    decreases calls.len(),
{
    if calls.len() > 0 {
        let rest = calls.drop_last();
        assert forall|i: int| 0 <= i < rest.len() implies !is_draw(#[trigger] rest[i]) by {
            assert(rest[i] == calls[i]);
        }
        lemma_no_draws(rest);
        assert(!is_draw(calls[calls.len() - 1]));
    }
}

/// A texture is found exactly where one was registered under the number.
pub proof fn law_registered_bitmaps_are_found(
    textures: Seq<(CharacterId, Texture)>,
    id: CharacterId,
)
    ensures
        find_texture(textures, id) is Some <==> exists|i: int|
            0 <= i < textures.len() && (#[trigger] textures[i]).0 == id,
    decreases textures.len(),
{
    if textures.len() > 0 {
        let rest = textures.drop_first();
        law_registered_bitmaps_are_found(rest, id);
        if textures[0].0 != id {
            if exists|i: int| 0 <= i < textures.len() && (#[trigger] textures[i]).0 == id {
                let i = choose|i: int| 0 <= i < textures.len() && (#[trigger] textures[i]).0 == id;
                assert(rest[i - 1] == textures[i]);
            }
            if exists|i: int| 0 <= i < rest.len() && (#[trigger] rest[i]).0 == id {
                let i = choose|i: int| 0 <= i < rest.len() && (#[trigger] rest[i]).0 == id;
                assert(textures[i + 1] == rest[i]);
            }
        }
    }
}

/// The call is one that draws triangles.
pub open spec fn is_draw(call: GlCall) -> bool {
    call matches GlCall::Op(GlOp::DrawElements { .. })
}

pub proof fn lemma_run_concat(gl: GlModel, first: Seq<GlCall>, second: Seq<GlCall>)
    ensures
        gl.run(first + second) == gl.run(first).run(second),
    decreases second.len(),
{
    let both = first + second;
    if second.len() == 0 {
        assert(both =~= first);
    } else {
        assert(both.drop_last() =~= first + second.drop_last());
        assert(both.last() == second.last());
        lemma_run_concat(gl, first, second.drop_last());
    }
}

proof fn lemma_run_one(gl: GlModel, call: GlCall)
    ensures
        gl.run(seq![call]) == gl.apply(call),
{
    let calls = seq![call];
    assert(calls.drop_last() =~= Seq::<GlCall>::empty());
    assert(gl.run(calls.drop_last()) == gl);
}

proof fn lemma_ops_concat(first: Seq<GlOp>, second: Seq<GlOp>)
    ensures
        ops(first + second) == ops(first) + ops(second),
{
    assert(ops(first + second) =~= ops(first) + ops(second));
}

proof fn lemma_run_op(gl: GlModel, op: GlOp)
    ensures
        gl.run(ops(seq![op])) == gl.apply(GlCall::Op(op)),
{
    assert(ops(seq![op]) =~= seq![GlCall::Op(op)]);
    lemma_run_one(gl, GlCall::Op(op));
}

proof fn lemma_run_no_ops(gl: GlModel)
    ensures
        gl.run(ops(Seq::empty())) == gl,
{
    assert(ops(Seq::empty()) =~= Seq::<GlCall>::empty());
}

/// Setting a uniform changes no other uniform of the program.
pub proof fn lemma_uniform_kept(
    gl: GlModel,
    program: ShaderProgram,
    set: ShaderUniform,
    value: UniformValue,
    other: ShaderUniform,
    other_value: UniformValue,
)
    requires
        locations_differ(program),
        set != other,
        gl.uniform_is(program, other, other_value),
        gl.program == Some(program.program),
    ensures
        gl.set_uniform(program.location_of(set), value).uniform_is(program, other, other_value),
{
    if let Some(location) = program.location_of(other) {
        if let Some(set_location) = program.location_of(set) {
            assert(program.location_of(set) != program.location_of(other));
            assert((program.program, set_location) != (program.program, location));
        }
    }
}

/// Switching programs leaves the state coherent, with the current view matrix.
proof fn lemma_switch(
    backend: WebGlRenderBackend,
    cache: RenderCache,
    kind: ProgramKind,
    gl: GlModel,
)
    requires
        programs_differ(backend),
        is_coherent(backend, cache, gl),
        view_is_current(backend, cache, gl),
    ensures
        ({
            let (switch_ops, switched) = backend.switch_program(cache, kind);
            let after = gl.run(ops(switch_ops));
            &&& switched.active_program == Some(kind)
            &&& is_coherent(backend, switched, after)
            &&& view_is_current(backend, switched, after)
            &&& after.vao == gl.vao
        }),
{
    let program = backend.spec_program(kind);
    let (switch_ops, switched) = backend.switch_program(cache, kind);
    if cache.active_program == Some(kind) {
        lemma_run_no_ops(gl);
    } else {
        let use_op = GlOp::UseProgram(program.program);
        let view_op = GlOp::UniformMatrix4(
            program.location_of(ShaderUniform::ViewMatrix),
            backend.view_matrix,
        );
        let blend_ops: Seq<GlOp> = if cache.blend_func == kind.spec_blend() {
            Seq::empty()
        } else {
            seq![GlOp::BlendFunc(kind.spec_blend().0, kind.spec_blend().1)]
        };
        assert(switch_ops =~= seq![use_op] + seq![view_op] + blend_ops);
        lemma_ops_concat(seq![use_op] + seq![view_op], blend_ops);
        lemma_ops_concat(seq![use_op], seq![view_op]);
        lemma_run_concat(gl, ops(seq![use_op]) + ops(seq![view_op]), ops(blend_ops));
        lemma_run_concat(gl, ops(seq![use_op]), ops(seq![view_op]));
        lemma_run_op(gl, use_op);
        let used = gl.apply(GlCall::Op(use_op));
        lemma_run_op(used, view_op);
        let viewed = used.apply(GlCall::Op(view_op));
        if cache.blend_func == kind.spec_blend() {
            lemma_run_no_ops(viewed);
        } else {
            lemma_run_op(viewed, blend_ops[0]);
            assert(blend_ops =~= seq![blend_ops[0]]);
        }
    }
}

/// Placing leaves the state coherent, and set for drawing.
#[verifier::rlimit(60)]
proof fn lemma_place(
    backend: WebGlRenderBackend,
    cache: RenderCache,
    kind: ProgramKind,
    placement: Placement,
    gl: GlModel,
)
    requires
        programs_differ(backend),
        is_coherent(backend, cache, gl),
        view_is_current(backend, cache, gl),
        cache.active_program == Some(kind),
    ensures
        ({
            let (place_ops, placed) = backend.place(cache, kind, placement);
            let after = gl.run(ops(place_ops));
            &&& placed.active_program == Some(kind)
            &&& is_coherent(backend, placed, after)
            &&& view_is_current(backend, placed, after)
            &&& is_set_for(backend, after, kind, placement)
            &&& after.vao == gl.vao
        }),
{
    let program = backend.spec_program(kind);
    assert(locations_differ(program));
    let (place_ops, placed) = backend.place(cache, kind, placement);
    let mult_known = is_cached(cache.mult_color, placement.mult_color);
    let add_known = is_cached(cache.add_color, placement.add_color);
    let world_op = GlOp::UniformMatrix4(
        program.location_of(ShaderUniform::WorldMatrix),
        placement.world,
    );
    let mult_op = GlOp::Uniform4f(
        program.location_of(ShaderUniform::MultColor),
        placement.mult_color,
    );
    let add_op = GlOp::Uniform4f(
        program.location_of(ShaderUniform::AddColor),
        placement.add_color,
    );
    let mult_ops: Seq<GlOp> = if mult_known {
        Seq::empty()
    } else {
        seq![mult_op]
    };
    let add_ops: Seq<GlOp> = if add_known {
        Seq::empty()
    } else {
        seq![add_op]
    };
    assert(place_ops =~= seq![world_op] + mult_ops + add_ops);
    lemma_ops_concat(seq![world_op] + mult_ops, add_ops);
    lemma_ops_concat(seq![world_op], mult_ops);
    lemma_run_concat(gl, ops(seq![world_op]) + ops(mult_ops), ops(add_ops));
    lemma_run_concat(gl, ops(seq![world_op]), ops(mult_ops));
    lemma_run_op(gl, world_op);
    let view = UniformValue::Matrix(backend.view_matrix);
    let world = UniformValue::Matrix(placement.world);

    let placed_world = gl.apply(GlCall::Op(world_op));
    lemma_uniform_kept(
        gl,
        program,
        ShaderUniform::WorldMatrix,
        world,
        ShaderUniform::ViewMatrix,
        view,
    );
    assert(placed_world.uniform_is(program, ShaderUniform::WorldMatrix, world));
    if let Some(color) = cache.mult_color {
        lemma_uniform_kept(
            gl,
            program,
            ShaderUniform::WorldMatrix,
            world,
            ShaderUniform::MultColor,
            UniformValue::Vector(color),
        );
    }
    if let Some(color) = cache.add_color {
        lemma_uniform_kept(
            gl,
            program,
            ShaderUniform::WorldMatrix,
            world,
            ShaderUniform::AddColor,
            UniformValue::Vector(color),
        );
    }
    let mult = UniformValue::Vector(placement.mult_color);
    let placed_mult = placed_world.run(ops(mult_ops));
    let mult_cached: Vec4 = if mult_known {
        cache.mult_color->0
    } else {
        placement.mult_color
    };
    if mult_known {
        lemma_run_no_ops(placed_world);
    } else {
        lemma_run_op(placed_world, mult_op);
        lemma_uniform_kept(
            placed_world,
            program,
            ShaderUniform::MultColor,
            mult,
            ShaderUniform::ViewMatrix,
            view,
        );
        lemma_uniform_kept(
            placed_world,
            program,
            ShaderUniform::MultColor,
            mult,
            ShaderUniform::WorldMatrix,
            world,
        );
        if let Some(color) = cache.add_color {
            lemma_uniform_kept(
                placed_world,
                program,
                ShaderUniform::MultColor,
                mult,
                ShaderUniform::AddColor,
                UniformValue::Vector(color),
            );
        }
    }
    assert(placed_mult.uniform_is(
        program,
        ShaderUniform::MultColor,
        UniformValue::Vector(mult_cached),
    ));
    let add = UniformValue::Vector(placement.add_color);
    let after = placed_mult.run(ops(add_ops));
    let add_cached: Vec4 = if add_known {
        cache.add_color->0
    } else {
        placement.add_color
    };
    if add_known {
        lemma_run_no_ops(placed_mult);
    } else {
        lemma_run_op(placed_mult, add_op);
        lemma_uniform_kept(
            placed_mult,
            program,
            ShaderUniform::AddColor,
            add,
            ShaderUniform::ViewMatrix,
            view,
        );
        lemma_uniform_kept(
            placed_mult,
            program,
            ShaderUniform::AddColor,
            add,
            ShaderUniform::WorldMatrix,
            world,
        );
        lemma_uniform_kept(
            placed_mult,
            program,
            ShaderUniform::AddColor,
            add,
            ShaderUniform::MultColor,
            UniformValue::Vector(mult_cached),
        );
    }
    assert(after.uniform_is(
        program,
        ShaderUniform::MultColor,
        UniformValue::Vector(mult_cached),
    ));
    assert(after.uniform_is(program, ShaderUniform::AddColor, UniformValue::Vector(add_cached)));
    assert(after.uniform_shows(program, ShaderUniform::MultColor, placement.mult_color));
    assert(after.uniform_shows(program, ShaderUniform::AddColor, placement.add_color));
}

/// Setting the common state leaves the state coherent, and set for drawing.
proof fn lemma_common_state(
    backend: WebGlRenderBackend,
    cache: RenderCache,
    kind: ProgramKind,
    placement: Placement,
    gl: GlModel,
)
    requires
        programs_differ(backend),
        is_coherent(backend, cache, gl),
        view_is_current(backend, cache, gl),
    ensures
        ({
            let (common_ops, next) = backend.common_state(cache, kind, placement);
            let after = gl.run(ops(common_ops));
            &&& next.active_program == Some(kind)
            &&& is_coherent(backend, next, after)
            &&& view_is_current(backend, next, after)
            &&& is_set_for(backend, after, kind, placement)
            &&& after.vao == gl.vao
        }),
{
    let (switch_ops, switched) = backend.switch_program(cache, kind);
    let (place_ops, placed) = backend.place(switched, kind, placement);
    lemma_switch(backend, cache, kind, gl);
    let after_switch = gl.run(ops(switch_ops));
    lemma_place(backend, switched, kind, placement, after_switch);
    lemma_ops_concat(switch_ops, place_ops);
    lemma_run_concat(gl, ops(switch_ops), ops(place_ops));
}

/// The call neither draws nor changes anything that the renderer keeps track
/// of, except perhaps uniforms of the program in use that are set for every
/// draw.
spec fn is_detail(call: GlCall, program: ShaderProgram) -> bool {
    match call {
        GlCall::Op(op) => match op {
            GlOp::UseProgram(_) => false,
            GlOp::BlendFunc(_, _) => false,
            GlOp::BindVertexArray(_, _) => false,
            GlOp::Uniform4f(_, _) => false,
            GlOp::UniformMatrix4(_, _) => false,
            GlOp::DrawElements { .. } => false,
            GlOp::Uniform1i(location, _) => is_detail_location(location, program),
            GlOp::Uniform1f(location, _) => is_detail_location(location, program),
            GlOp::UniformMatrix3(location, _) => is_detail_location(location, program),
            _ => true,
        },
        GlCall::Uniform1fv { location, .. } => is_detail_location(location, program),
        GlCall::Uniform4fv { location, .. } => is_detail_location(location, program),
        _ => true,
    }
}

spec fn is_detail_location(location: Option<GlName>, program: ShaderProgram) -> bool {
    location is Some ==> {
        &&& location != program.location_of(ShaderUniform::WorldMatrix)
        &&& location != program.location_of(ShaderUniform::ViewMatrix)
        &&& location != program.location_of(ShaderUniform::MultColor)
        &&& location != program.location_of(ShaderUniform::AddColor)
    }
}

/// Two states agree on everything that matters for a program in use.
spec fn agree_on(program: ShaderProgram, a: GlModel, b: GlModel) -> bool {
    &&& a.program == b.program
    &&& a.blend == b.blend
    &&& a.vao == b.vao
    &&& forall|uniform: ShaderUniform, value: UniformValue|
        (uniform == ShaderUniform::WorldMatrix || uniform == ShaderUniform::ViewMatrix || uniform
            == ShaderUniform::MultColor || uniform == ShaderUniform::AddColor) ==> (
        #[trigger] a.uniform_is(program, uniform, value) == b.uniform_is(program, uniform, value))
}

proof fn lemma_details_change_nothing(gl: GlModel, calls: Seq<GlCall>, program: ShaderProgram)
    requires
        gl.program == Some(program.program),
        forall|i: int| 0 <= i < calls.len() ==> is_detail(#[trigger] calls[i], program),
    ensures
        agree_on(program, gl.run(calls), gl),
    decreases calls.len(),
{
    if calls.len() > 0 {
        let rest = calls.drop_last();
        assert forall|i: int| 0 <= i < rest.len() implies is_detail(#[trigger] rest[i], program) by {
            assert(rest[i] == calls[i]);
        }
        lemma_details_change_nothing(gl, rest, program);
        let before = gl.run(rest);
        assert(is_detail(calls[calls.len() - 1], program));
        assert(agree_on(program, before.apply(calls.last()), before));
        assert(gl.run(calls) == before.apply(calls.last()));
        assert forall|uniform: ShaderUniform, value: UniformValue|
            (uniform == ShaderUniform::WorldMatrix || uniform == ShaderUniform::ViewMatrix
                || uniform == ShaderUniform::MultColor || uniform
                == ShaderUniform::AddColor) implies (#[trigger] gl.run(calls).uniform_is(
            program,
            uniform,
            value,
        ) == gl.uniform_is(program, uniform, value)) by {
            assert(before.uniform_is(program, uniform, value) == gl.uniform_is(
                program,
                uniform,
                value,
            ));
        }
    }
}

proof fn lemma_agreement_transfers(
    backend: WebGlRenderBackend,
    cache: RenderCache,
    kind: ProgramKind,
    placement: Placement,
    a: GlModel,
    b: GlModel,
)
    requires
        cache.active_program == Some(kind),
        is_coherent(backend, cache, a),
        view_is_current(backend, cache, a),
        is_set_for(backend, a, kind, placement),
        agree_on(backend.spec_program(kind), b, a),
    ensures
        is_coherent(backend, cache, b),
        view_is_current(backend, cache, b),
        is_set_for(backend, b, kind, placement),
{
    let program = backend.spec_program(kind);
    let mult = choose|value: Vec4|
        {
            &&& #[trigger] a.uniform_is(
                program,
                ShaderUniform::MultColor,
                UniformValue::Vector(value),
            )
            &&& value == placement.mult_color || placement.mult_color.same_numbers(value)
        };
    let add = choose|value: Vec4|
        {
            &&& #[trigger] a.uniform_is(
                program,
                ShaderUniform::AddColor,
                UniformValue::Vector(value),
            )
            &&& value == placement.add_color || placement.add_color.same_numbers(value)
        };
    assert(b.uniform_is(program, ShaderUniform::MultColor, UniformValue::Vector(mult)));
    assert(b.uniform_is(program, ShaderUniform::AddColor, UniformValue::Vector(add)));
    let view = UniformValue::Matrix(backend.view_matrix);
    assert(b.uniform_is(program, ShaderUniform::ViewMatrix, view));
    let world = UniformValue::Matrix(placement.world);
    assert(b.uniform_is(program, ShaderUniform::WorldMatrix, world));
    if let Some(color) = cache.mult_color {
        assert(b.uniform_is(program, ShaderUniform::MultColor, UniformValue::Vector(color)));
    }
    if let Some(color) = cache.add_color {
        assert(b.uniform_is(program, ShaderUniform::AddColor, UniformValue::Vector(color)));
    }
}

/// What a draw sets for itself are details.
proof fn lemma_draw_details(backend: WebGlRenderBackend, draw: DrawView, details: Seq<GlCall>)
    requires
        programs_differ(backend),
        match draw.draw_type {
            DrawTypeView::Color => details.len() == 0,
            DrawTypeView::Gradient(gradient) => details == backend.gradient_calls(gradient),
            DrawTypeView::Bitmap(bitmap) => exists|texture: Texture|
                details == ops(#[trigger] backend.bitmap_draw_ops(bitmap, texture)),
        },
    ensures
        forall|i: int|
            0 <= i < details.len() ==> is_detail(
                #[trigger] details[i],
                backend.spec_program(draw_program(draw)),
            ),
{
    let program = backend.spec_program(draw_program(draw));
    assert(locations_differ(program));
    lemma_detail_location(program, ShaderUniform::TextureMatrix);
    lemma_detail_location(program, ShaderUniform::GradientType);
    lemma_detail_location(program, ShaderUniform::GradientRatios);
    lemma_detail_location(program, ShaderUniform::GradientColors);
    lemma_detail_location(program, ShaderUniform::GradientNumColors);
    lemma_detail_location(program, ShaderUniform::GradientRepeatMode);
    lemma_detail_location(program, ShaderUniform::GradientFocalPoint);
    lemma_detail_location(program, ShaderUniform::GradientInterpolation);
    lemma_detail_location(program, ShaderUniform::BitmapTexture);
}

proof fn lemma_detail_location(program: ShaderProgram, uniform: ShaderUniform)
    requires
        locations_differ(program),
        uniform != ShaderUniform::WorldMatrix,
        uniform != ShaderUniform::ViewMatrix,
        uniform != ShaderUniform::MultColor,
        uniform != ShaderUniform::AddColor,
    ensures
        is_detail_location(program.location_of(uniform), program),
{
}

/// Calls that take a state through others: after each, it is the next.
pub proof fn lemma_run_steps(states: Seq<GlModel>, calls: Seq<GlCall>)
    requires
        states.len() == calls.len() + 1,
        forall|i: int| 0 <= i < calls.len() ==> states[i + 1] == states[i].apply(#[trigger] calls[i]),
    ensures
        states[0].run(calls) == states.last(),
    decreases calls.len(),
{
    if calls.len() > 0 {
        let rest = calls.drop_last();
        let fewer = states.drop_last();
        assert forall|i: int| 0 <= i < rest.len() implies fewer[i + 1] == fewer[i].apply(
            #[trigger] rest[i],
        ) by {
            assert(rest[i] == calls[i]);
        }
        lemma_run_steps(fewer, rest);
        let last = calls.len() - 1;
        assert(states[last + 1] == states[last].apply(calls[last]));
    }
}

/// The calls that tell the program about a bitmap bind its texture.
proof fn lemma_texture_is_bound(
    backend: WebGlRenderBackend,
    bitmap: BitmapDraw,
    texture: Texture,
    gl: GlModel,
)
    ensures
        gl.run(ops(backend.bitmap_draw_ops(bitmap, texture))).texture == Some(texture.texture),
{
    let calls = ops(backend.bitmap_draw_ops(bitmap, texture));
    assert(calls.len() == 8);
    assert(calls[2] == GlCall::Op(GlOp::BindTexture(Some(texture.texture))));
    reveal_with_fuel(GlModel::run, 7);
}

/// The calls that tell the program about a bitmap show it.
proof fn lemma_bitmap_is_shown(
    backend: WebGlRenderBackend,
    draw: DrawView,
    bitmap: BitmapDraw,
    texture: Texture,
    gl: GlModel,
)
    requires
        draw.draw_type == DrawTypeView::Bitmap(bitmap),
        find_texture(backend.textures@, bitmap.id) == Some(texture),
        locations_differ(backend.bitmap_program),
        gl.program == Some(backend.bitmap_program.program),
    ensures
        shows_bitmap(
            backend,
            gl.run(ops(backend.bitmap_draw_ops(bitmap, texture))),
            draw,
        ),
{
    let program = backend.bitmap_program;
    let calls = ops(backend.bitmap_draw_ops(bitmap, texture));
    assert(calls.len() == 8);
    let g1 = gl.apply(calls[0]);
    let g2 = g1.apply(calls[1]);
    let g3 = g2.apply(calls[2]);
    let g4 = g3.apply(calls[3]);
    let g5 = g4.apply(calls[4]);
    let g6 = g5.apply(calls[5]);
    let g7 = g6.apply(calls[6]);
    let g8 = g7.apply(calls[7]);
    lemma_run_steps(seq![gl, g1, g2, g3, g4, g5, g6, g7, g8], calls);
    lemma_texture_is_bound(backend, bitmap, texture, gl);
    let placed = UniformValue::Matrix3(bitmap.matrix);
    assert(g1.uniform_is(program, ShaderUniform::TextureMatrix, placed));
    assert(g3.uniform_is(program, ShaderUniform::TextureMatrix, placed));
    lemma_uniform_kept(
        g3,
        program,
        ShaderUniform::BitmapTexture,
        UniformValue::Int(0),
        ShaderUniform::TextureMatrix,
        placed,
    );
    assert(g4.uniform_is(program, ShaderUniform::BitmapTexture, UniformValue::Int(0)));
    assert(g8.uniforms == g4.uniforms);
}

/// The call sets a uniform of the program in use.
pub open spec fn sets(
    call: GlCall,
    program: ShaderProgram,
    uniform: ShaderUniform,
    value: UniformValue,
) -> bool {
    forall|gl: GlModel| #[trigger]
        gl.apply(call) == gl.set_uniform(program.location_of(uniform), value)
}

/// After calls that set different uniforms, each of them has its value.
pub proof fn lemma_all_are_set(
    gl: GlModel,
    calls: Seq<GlCall>,
    program: ShaderProgram,
    uniforms: Seq<ShaderUniform>,
    values: Seq<UniformValue>,
)
    requires
        gl.program == Some(program.program),
        locations_differ(program),
        uniforms.len() == calls.len(),
        values.len() == calls.len(),
        forall|i: int, j: int| 0 <= i < j < uniforms.len() ==> uniforms[i] != uniforms[j],
        forall|i: int|
            0 <= i < calls.len() ==> sets(#[trigger] calls[i], program, uniforms[i], values[i]),
    ensures
        gl.run(calls).program == gl.program,
        forall|i: int|
            0 <= i < calls.len() ==> gl.run(calls).uniform_is(
                program,
                #[trigger] uniforms[i],
                values[i],
            ),
    decreases calls.len(),
{
    if calls.len() > 0 {
        let last = calls.len() - 1;
        let rest = calls.drop_last();
        assert forall|i: int| 0 <= i < rest.len() implies sets(
            #[trigger] rest[i],
            program,
            uniforms.drop_last()[i],
            values.drop_last()[i],
        ) by {
            assert(rest[i] == calls[i]);
        }
        lemma_all_are_set(gl, rest, program, uniforms.drop_last(), values.drop_last());
        let before = gl.run(rest);
        assert(sets(calls[last], program, uniforms[last], values[last]));
        assert(gl.run(calls) == before.apply(calls[last]));
        assert forall|i: int| 0 <= i < calls.len() implies gl.run(calls).uniform_is(
            program,
            #[trigger] uniforms[i],
            values[i],
        ) by {
            if i < last {
                assert(uniforms.drop_last()[i] == uniforms[i]);
                assert(before.uniform_is(program, uniforms[i], values[i]));
                lemma_uniform_kept(
                    before,
                    program,
                    uniforms[last],
                    values[last],
                    uniforms[i],
                    values[i],
                );
            }
        }
    }
}

/// The calls that tell the program about a gradient show it.
proof fn lemma_gradient_is_shown(
    backend: WebGlRenderBackend,
    draw: DrawView,
    gradient: GradientView,
    gl: GlModel,
)
    requires
        draw.draw_type == DrawTypeView::Gradient(gradient),
        locations_differ(backend.gradient_program),
        gl.program == Some(backend.gradient_program.program),
    ensures
        shows_gradient(backend, gl.run(backend.gradient_calls(gradient)), draw),
{
    let uniforms = seq![
        ShaderUniform::TextureMatrix,
        ShaderUniform::GradientType,
        ShaderUniform::GradientRatios,
        ShaderUniform::GradientColors,
        ShaderUniform::GradientNumColors,
        ShaderUniform::GradientRepeatMode,
        ShaderUniform::GradientFocalPoint,
        ShaderUniform::GradientInterpolation,
    ];
    let values = seq![
        UniformValue::Matrix3(gradient.matrix),
        UniformValue::Int(gradient.gradient_type),
        UniformValue::Floats(gradient.ratios),
        UniformValue::Vectors(flattened(gradient.colors)),
        UniformValue::Int(gradient.num_colors as i32),
        UniformValue::Int(gradient.repeat_mode),
        UniformValue::Float(gradient.focal_point),
        UniformValue::Int(
            if gradient.interpolation == GradientInterpolation::LinearRgb {
                1
            } else {
                0
            },
        ),
    ];
    let calls = backend.gradient_calls(gradient);
    assert(calls.len() == 8);
    lemma_all_are_set(gl, calls, backend.gradient_program, uniforms, values);
    let after = gl.run(calls);
    assert(after.uniform_is(backend.gradient_program, uniforms[0], values[0]));
    assert(after.uniform_is(backend.gradient_program, uniforms[1], values[1]));
    assert(after.uniform_is(backend.gradient_program, uniforms[2], values[2]));
    assert(after.uniform_is(backend.gradient_program, uniforms[3], values[3]));
    assert(after.uniform_is(backend.gradient_program, uniforms[4], values[4]));
    assert(after.uniform_is(backend.gradient_program, uniforms[5], values[5]));
    assert(after.uniform_is(backend.gradient_program, uniforms[6], values[6]));
    assert(after.uniform_is(backend.gradient_program, uniforms[7], values[7]));
}

/// One group of triangles is drawn with the right state, if it is drawn, and
/// the state is coherent afterwards.
pub proof fn law_draw_step(
    backend: WebGlRenderBackend,
    cache: RenderCache,
    draw: DrawView,
    placement: Placement,
    gl: GlModel,
)
    requires
        programs_differ(backend),
        is_coherent(backend, cache, gl),
        view_is_current(backend, cache, gl),
    ensures
        ({
            let (step, next) = backend.draw_step(cache, draw, placement);
            &&& is_coherent(backend, next, gl.run(step))
            &&& view_is_current(backend, next, gl.run(step))
            &&& draws_in(step) == if is_drawable(backend, draw) {
                1nat
            } else {
                0
            }
            &&& forall|k: int|
                0 <= k < step.len() && is_draw(#[trigger] step[k]) ==> {
                    &&& is_drawable(backend, draw)
                    &&& draws_in(step.take(k)) == 0
                    &&& draws_rightly(backend, gl.run(step.take(k)), step[k], draw, placement)
                }
        }),
{
    let kind = draw_program(draw);
    let program = backend.spec_program(kind);
    let (step, next) = backend.draw_step(cache, draw, placement);
    let (common_ops, known) = backend.common_state(cache, kind, placement);
    let bind = ops(seq![GlOp::BindVertexArray(backend.api, Some(draw.vao))]);
    let common = ops(common_ops);
    let paint = seq![GlCall::Op(GlOp::DrawElements { count: draw.num_indices })];
    lemma_run_op(gl, GlOp::BindVertexArray(backend.api, Some(draw.vao)));
    let bound = gl.run(bind);
    assert(is_coherent(backend, cache, bound));
    assert(view_is_current(backend, cache, bound));
    lemma_common_state(backend, cache, kind, placement, bound);
    lemma_run_concat(gl, bind, common);
    let set = gl.run(bind + common);

    let skipped = draw.draw_type matches DrawTypeView::Bitmap(bitmap) && find_texture(
        backend.textures@,
        bitmap.id,
    ) is None;
    lemma_common_ops_do_not_draw(backend, cache, kind, placement);
    if let DrawTypeView::Bitmap(bitmap) = draw.draw_type {
        law_registered_bitmaps_are_found(backend.textures@, bitmap.id);
    }
    assert(is_drawable(backend, draw) == !skipped);
    if skipped {
        assert(step =~= bind + common);
        assert forall|k: int| 0 <= k < step.len() implies !is_draw(#[trigger] step[k]) by {
            if k >= 1 {
                assert(step[k] == common[k - 1]);
            }
        }
        lemma_no_draws(step);
    } else {
        let details: Seq<GlCall> = match draw.draw_type {
            DrawTypeView::Color => Seq::empty(),
            DrawTypeView::Gradient(gradient) => backend.gradient_calls(gradient),
            DrawTypeView::Bitmap(bitmap) => ops(
                backend.bitmap_draw_ops(
                    bitmap,
                    find_texture(backend.textures@, bitmap.id)->0,
                ),
            ),
        };
        lemma_draw_details(backend, draw, details);
        lemma_details_change_nothing(set, details, program);
        lemma_run_concat(gl, bind + common, details);
        let ready = gl.run(bind + common + details);
        lemma_agreement_transfers(backend, known, kind, placement, set, ready);
        if let DrawTypeView::Bitmap(bitmap) = draw.draw_type {
            let texture = find_texture(backend.textures@, bitmap.id)->0;
            lemma_bitmap_is_shown(backend, draw, bitmap, texture, set);
        }
        if let DrawTypeView::Gradient(gradient) = draw.draw_type {
            lemma_gradient_is_shown(backend, draw, gradient, set);
        }
        assert(step =~= bind + common + details + paint);
        lemma_run_concat(gl, bind + common + details, paint);
        lemma_run_one(ready, paint[0]);
        assert(gl.run(step) == ready);
        let quiet = bind + common + details;
        assert forall|k: int| 0 <= k < quiet.len() implies !is_draw(#[trigger] quiet[k]) by {
            if 1 <= k < 1 + common.len() {
                assert(quiet[k] == common[k - 1]);
            } else if k >= 1 {
                assert(quiet[k] == details[k - 1 - common.len()]);
                assert(is_detail(details[k - 1 - common.len()], program));
            }
        }
        lemma_no_draws(quiet);
        lemma_draws_concat(quiet, paint);
        assert(paint.drop_last() =~= Seq::<GlCall>::empty());
        assert(draws_in(paint.drop_last()) == 0);
        assert(draws_in(paint) == 1);
        let last = (bind + common + details).len() as int;
        assert forall|k: int| 0 <= k < step.len() && is_draw(#[trigger] step[k]) implies {
            &&& draws_rightly(backend, gl.run(step.take(k)), step[k], draw, placement)
            &&& draws_in(step.take(k)) == 0
        } by {
            if k < last {
                if 1 <= k < 1 + common.len() {
                    assert(step[k] == common[k - 1]);
                } else if k >= 1 {
                    assert(step[k] == details[k - 1 - common.len()]);
                    assert(is_detail(details[k - 1 - common.len()], program));
                }
            } else {
                assert(k == last);
                assert(step.take(k) =~= bind + common + details);
                reveal(draws_rightly);
            }
        }
    }
}

proof fn lemma_common_ops_do_not_draw(
    backend: WebGlRenderBackend,
    cache: RenderCache,
    kind: ProgramKind,
    placement: Placement,
)
    ensures
        forall|i: int|
            0 <= i < ops(backend.common_state(cache, kind, placement).0).len() ==> !is_draw(
                #[trigger] ops(backend.common_state(cache, kind, placement).0)[i],
            ),
{
    let (switch_ops, switched) = backend.switch_program(cache, kind);
    let (place_ops, placed) = backend.place(switched, kind, placement);
    let common_ops = backend.common_state(cache, kind, placement).0;
    assert(common_ops =~= switch_ops + place_ops);
    assert forall|i: int| 0 <= i < common_ops.len() implies !is_draw(
        #[trigger] ops(common_ops)[i],
    ) by {
        assert(ops(common_ops)[i] == GlCall::Op(common_ops[i]));
        if i < switch_ops.len() {
            assert(common_ops[i] == switch_ops[i]);
        } else {
            assert(common_ops[i] == place_ops[i - switch_ops.len()]);
        }
    }
}

/// `all[k]` draws a group of triangles of a mesh, with the right state: the
/// groups are drawn in order, and none is left out that can be drawn.
pub open spec fn is_right_draw(
    backend: WebGlRenderBackend,
    draws: Seq<DrawView>,
    placement: Placement,
    gl: GlModel,
    all: Seq<GlCall>,
    k: int,
) -> bool {
    exists|i: int|
        {
            &&& 0 <= i < draws.len()
            &&& draws_rightly(
                backend,
                gl.run(all.take(k)),
                all[k],
                #[trigger] draws[i],
                placement,
            )
            &&& is_drawable(backend, draws[i])
            &&& draws_in(all.take(k)) == drawable_count(backend, draws, i as nat)
        }
}

proof fn lemma_draw_steps(
    backend: WebGlRenderBackend,
    cache: RenderCache,
    draws: Seq<DrawView>,
    placement: Placement,
    count: nat,
    gl: GlModel,
)
    requires
        programs_differ(backend),
        is_coherent(backend, cache, gl),
        view_is_current(backend, cache, gl),
        count <= draws.len(),
    ensures
        ({
            let (all, next) = backend.draw_steps(cache, draws, placement, count);
            &&& is_coherent(backend, next, gl.run(all))
            &&& view_is_current(backend, next, gl.run(all))
            &&& draws_in(all) == drawable_count(backend, draws, count)
            &&& forall|k: int|
                0 <= k < all.len() && is_draw(#[trigger] all[k]) ==> is_right_draw(
                    backend,
                    draws,
                    placement,
                    gl,
                    all,
                    k,
                )
        }),
    decreases count,
{
    if count > 0 {
        let last = (count - 1) as nat;
        lemma_draw_steps(backend, cache, draws, placement, last, gl);
        let (before, known) = backend.draw_steps(cache, draws, placement, last);
        let (step, next) = backend.draw_step(known, draws[last as int], placement);
        let (all, end) = backend.draw_steps(cache, draws, placement, count);
        let mid = gl.run(before);
        law_draw_step(backend, known, draws[last as int], placement, mid);
        assert(all == before + step);
        lemma_run_concat(gl, before, step);
        lemma_draws_concat(before, step);
        assert forall|k: int| 0 <= k < all.len() && is_draw(#[trigger] all[k]) implies is_right_draw(
            backend,
            draws,
            placement,
            gl,
            all,
            k,
        ) by {
            if k < before.len() {
                assert(all[k] == before[k]);
                assert(all.take(k) =~= before.take(k));
                assert(is_right_draw(backend, draws, placement, gl, before, k));
            } else {
                let j = k - before.len();
                assert(all[k] == step[j]);
                assert(all.take(k) =~= before + step.take(j));
                lemma_run_concat(gl, before, step.take(j));
                lemma_draws_concat(before, step.take(j));
                let i = last as int;
                assert(draws_rightly(backend, gl.run(all.take(k)), all[k], draws[i], placement));
            }
        }
    }
}

/// The calls that set the stencil state change nothing that the renderer keeps
/// track of, and draw nothing.
proof fn lemma_stencil_is_neutral(backend: WebGlRenderBackend)
    ensures
        forall|i: int|
            0 <= i < ops(backend.stencil_ops()).len() ==> is_neutral(
                #[trigger] ops(backend.stencil_ops())[i],
            ),
{
}

/// Rendering a shape: every group of triangles that can be drawn is drawn, in
/// order, with its vertices, its program, its blending, its gradient or bitmap,
/// the transform and the colors that were asked for, the colors up to numbers
/// that are equal; and what the renderer believes to be set is set afterwards.
pub proof fn law_render_shape(
    backend: WebGlRenderBackend,
    draws: Seq<DrawView>,
    placement: Placement,
    gl: GlModel,
)
    requires
        programs_differ(backend),
        is_coherent(backend, backend.cache, gl),
        view_is_current(backend, backend.cache, gl),
    ensures
        ({
            let (all, next) = backend.render_result(draws, placement);
            &&& is_coherent(backend, next, gl.run(all))
            &&& view_is_current(backend, next, gl.run(all))
            &&& draws_in(all) == drawable_count(backend, draws, draws.len())
            &&& forall|k: int|
                0 <= k < all.len() && is_draw(#[trigger] all[k]) ==> is_right_draw(
                    backend,
                    draws,
                    placement,
                    gl,
                    all,
                    k,
                )
        }),
{
    let stencil = ops(backend.stencil_ops());
    lemma_stencil_is_neutral(backend);
    lemma_neutral_calls(gl, stencil);
    let start = gl.run(stencil);
    let (steps, known) = backend.draw_steps(backend.cache, draws, placement, draws.len());
    lemma_draw_steps(backend, backend.cache, draws, placement, draws.len(), start);
    lemma_run_concat(gl, stencil, steps);
    let (all, next) = backend.render_result(draws, placement);
    assert(all == stencil + steps);
    lemma_draws_concat(stencil, steps);
    assert forall|i: int| 0 <= i < stencil.len() implies !is_draw(#[trigger] stencil[i]) by {
        assert(is_neutral(stencil[i]));
    }
    lemma_no_draws(stencil);
    assert forall|k: int| 0 <= k < all.len() && is_draw(#[trigger] all[k]) implies is_right_draw(
        backend,
        draws,
        placement,
        gl,
        all,
        k,
    ) by {
        if k < stencil.len() {
            assert(all[k] == stencil[k]);
            assert(is_neutral(stencil[k]));
        } else {
            let j = k - stencil.len();
            assert(all[k] == steps[j]);
            assert(is_right_draw(backend, draws, placement, start, steps, j));
            assert(all.take(k) =~= stencil + steps.take(j));
            lemma_run_concat(gl, stencil, steps.take(j));
            lemma_draws_concat(stencil, steps.take(j));
        }
    }
}

/// What calls do to the stencil test.
pub open spec fn stencil_after_calls(stencil: StencilModel, calls: Seq<GlCall>) -> StencilModel
    decreases calls.len(),
{
    if calls.len() == 0 {
        stencil
    } else {
        let before = stencil_after_calls(stencil, calls.drop_last());
        match calls.last() {
            GlCall::Op(op) => before.apply(op),
            _ => before,
        }
    }
}

/// The call leaves the stencil test alone.
spec fn keeps_stencil(call: GlCall) -> bool {
    match call {
        GlCall::Op(GlOp::Enable(_)) => false,
        GlCall::Op(GlOp::Disable(_)) => false,
        GlCall::Op(GlOp::StencilFuncEqual { .. }) => false,
        GlCall::Op(GlOp::StencilOp(_, _, _)) => false,
        GlCall::Op(GlOp::ColorMask(_)) => false,
        _ => true,
    }
}

proof fn lemma_stencil_kept(stencil: StencilModel, first: Seq<GlCall>, second: Seq<GlCall>)
    requires
        forall|i: int| 0 <= i < second.len() ==> keeps_stencil(#[trigger] second[i]),
    ensures
        stencil_after_calls(stencil, first + second) == stencil_after_calls(stencil, first),
    decreases second.len(),
{
    let both = first + second;
    if second.len() == 0 {
        assert(both =~= first);
    } else {
        let rest = second.drop_last();
        assert forall|i: int| 0 <= i < rest.len() implies keeps_stencil(#[trigger] rest[i]) by {
            assert(rest[i] == second[i]);
        }
        assert(both.drop_last() =~= first + rest);
        assert(both.last() == second.last());
        lemma_stencil_kept(stencil, first, rest);
        assert(keeps_stencil(second[second.len() - 1]));
    }
}

proof fn lemma_stencil_runs(stencil: StencilModel, some_ops: Seq<GlOp>)
    ensures
        stencil_after_calls(stencil, ops(some_ops)) == stencil.run(some_ops),
    decreases some_ops.len(),
{
    if some_ops.len() > 0 {
        lemma_stencil_runs(stencil, some_ops.drop_last());
        assert(ops(some_ops).drop_last() =~= ops(some_ops.drop_last()));
        assert(ops(some_ops).last() == GlCall::Op(some_ops.last()));
    }
}

proof fn lemma_common_keeps_stencil(
    backend: WebGlRenderBackend,
    cache: RenderCache,
    kind: ProgramKind,
    placement: Placement,
)
    ensures
        forall|i: int|
            0 <= i < ops(backend.common_state(cache, kind, placement).0).len() ==> keeps_stencil(
                #[trigger] ops(backend.common_state(cache, kind, placement).0)[i],
            ),
{
    let (switch_ops, switched) = backend.switch_program(cache, kind);
    let (place_ops, placed) = backend.place(switched, kind, placement);
    let common_ops = backend.common_state(cache, kind, placement).0;
    assert(common_ops =~= switch_ops + place_ops);
    assert forall|i: int| 0 <= i < common_ops.len() implies keeps_stencil(
        #[trigger] ops(common_ops)[i],
    ) by {
        assert(ops(common_ops)[i] == GlCall::Op(common_ops[i]));
        if i < switch_ops.len() {
            assert(common_ops[i] == switch_ops[i]);
        } else {
            assert(common_ops[i] == place_ops[i - switch_ops.len()]);
        }
    }
}

proof fn lemma_steps_keep_stencil(
    backend: WebGlRenderBackend,
    cache: RenderCache,
    draws: Seq<DrawView>,
    placement: Placement,
    count: nat,
)
    ensures
        forall|i: int|
            0 <= i < backend.draw_steps(cache, draws, placement, count).0.len() ==> keeps_stencil(
                #[trigger] backend.draw_steps(cache, draws, placement, count).0[i],
            ),
    decreases count,
{
    if count > 0 {
        let last = (count - 1) as nat;
        lemma_steps_keep_stencil(backend, cache, draws, placement, last);
        let (before, known) = backend.draw_steps(cache, draws, placement, last);
        let draw = draws[last as int];
        let (step, next) = backend.draw_step(known, draw, placement);
        let all = backend.draw_steps(cache, draws, placement, count).0;
        assert(all == before + step);
        lemma_common_keeps_stencil(backend, known, draw_program(draw), placement);
        let common = ops(backend.common_state(known, draw_program(draw), placement).0);
        let paint = backend.paint_calls(draw);
        assert forall|i: int| 0 <= i < paint.len() implies keeps_stencil(#[trigger] paint[i]) by {}
        assert forall|i: int| 0 <= i < all.len() implies keeps_stencil(#[trigger] all[i]) by {
            if i < before.len() {
                assert(all[i] == before[i]);
            } else {
                let j = i - before.len();
                assert(all[i] == step[j]);
                if 1 <= j < 1 + common.len() {
                    assert(step[j] == common[j - 1]);
                } else if j >= 1 {
                    assert(step[j] == paint[j - 1 - common.len()]);
                }
            }
        }
    }
}

/// Shapes are masked: whatever of a shape is drawn is drawn with the stencil test
/// that the masks call for.
pub proof fn law_shapes_are_masked(
    backend: WebGlRenderBackend,
    draws: Seq<DrawView>,
    placement: Placement,
    stencil: StencilModel,
)
    ensures
        ({
            let all = backend.render_result(draws, placement).0;
            forall|k: int|
                0 <= k < all.len() && is_draw(#[trigger] all[k]) ==> stencil_after_calls(
                    stencil,
                    all.take(k),
                ) == stencil.run(backend.stencil_ops())
        }),
{
    let masking = ops(backend.stencil_ops());
    let steps = backend.draw_steps(backend.cache, draws, placement, draws.len()).0;
    let all = backend.render_result(draws, placement).0;
    assert(all == masking + steps);
    lemma_steps_keep_stencil(backend, backend.cache, draws, placement, draws.len());
    lemma_stencil_runs(stencil, backend.stencil_ops());
    lemma_stencil_is_neutral(backend);
    assert forall|k: int|
        0 <= k < all.len() && is_draw(#[trigger] all[k]) implies stencil_after_calls(
        stencil,
        all.take(k),
    ) == stencil.run(backend.stencil_ops()) by {
        if k < masking.len() {
            assert(all[k] == masking[k]);
            assert(is_neutral(masking[k]));
        } else {
            let some = steps.take(k - masking.len());
            assert(all.take(k) =~= masking + some);
            lemma_stencil_kept(stencil, masking, some);
        }
    }
}

/// Rectangles are masked.
pub proof fn law_rectangles_are_masked(
    backend: WebGlRenderBackend,
    placement: Placement,
    stencil: StencilModel,
)
    ensures
        ({
            let all = ops(backend.rect_result(placement).0);
            stencil_after_calls(stencil, all.drop_last()) == stencil.run(backend.stencil_ops())
        }),
{
    let quad = backend.meshes@[backend.quad_shape.index as int]@[0];
    let all = ops(backend.rect_result(placement).0);
    let masking = ops(backend.stencil_ops());
    let common = ops(backend.common_state(backend.cache, ProgramKind::Color, placement).0);
    let bind = ops(seq![GlOp::BindVertexArray(backend.api, Some(quad.vao))]);
    lemma_common_keeps_stencil(backend, backend.cache, ProgramKind::Color, placement);
    lemma_stencil_runs(stencil, backend.stencil_ops());
    let some = common + bind;
    assert forall|i: int| 0 <= i < some.len() implies keeps_stencil(#[trigger] some[i]) by {
        if i < common.len() {
            assert(some[i] == common[i]);
        }
    }
    assert(all.drop_last() =~= masking + some);
    lemma_stencil_kept(stencil, masking, some);
}

/// Drawing a rectangle: it is drawn once, as the unit square, with the color
/// program and the state that was asked for; and what the renderer believes to
/// be set is set afterwards.
pub proof fn law_draw_rect(backend: WebGlRenderBackend, placement: Placement, gl: GlModel)
    requires
        programs_differ(backend),
        is_coherent(backend, backend.cache, gl),
        view_is_current(backend, backend.cache, gl),
        backend.has_quad(),
    ensures
        ({
            let (all_ops, next) = backend.rect_result(placement);
            let all = ops(all_ops);
            let quad = backend.meshes@[backend.quad_shape.index as int]@[0];
            let ready = gl.run(all.drop_last());
            &&& is_coherent(backend, next, gl.run(all))
            &&& view_is_current(backend, next, gl.run(all))
            &&& all.last() == GlCall::Op(GlOp::DrawElements { count: quad.num_indices })
            &&& ready.vao == Some(quad.vao)
            &&& is_set_for(backend, ready, ProgramKind::Color, placement)
            &&& forall|k: int| 0 <= k < all.len() - 1 ==> !is_draw(#[trigger] all[k])
        }),
{
    let quad = backend.meshes@[backend.quad_shape.index as int]@[0];
    let (all_ops, next) = backend.rect_result(placement);
    let all = ops(all_ops);
    let stencil = ops(backend.stencil_ops());
    let (common_ops, known) = backend.common_state(
        backend.cache,
        ProgramKind::Color,
        placement,
    );
    let common = ops(common_ops);
    let bind_op = GlOp::BindVertexArray(backend.api, Some(quad.vao));
    let draw_op = GlOp::DrawElements { count: quad.num_indices };
    lemma_stencil_is_neutral(backend);
    lemma_neutral_calls(gl, stencil);
    let start = gl.run(stencil);
    lemma_common_state(backend, backend.cache, ProgramKind::Color, placement, start);
    lemma_run_concat(gl, stencil, common);
    let set = gl.run(stencil + common);
    lemma_run_concat(gl, stencil + common, ops(seq![bind_op]));
    lemma_run_op(set, bind_op);
    let ready = set.apply(GlCall::Op(bind_op));
    assert(all.drop_last() =~= stencil + common + ops(seq![bind_op]));
    assert(agree_on_uniforms(set, ready));
    lemma_uniforms_transfer(backend, known, ProgramKind::Color, placement, set, ready);
    assert(all =~= all.drop_last() + ops(seq![draw_op]));
    lemma_run_concat(gl, all.drop_last(), ops(seq![draw_op]));
    lemma_run_op(ready, draw_op);
    lemma_common_ops_do_not_draw(backend, backend.cache, ProgramKind::Color, placement);
    assert forall|k: int| 0 <= k < all.len() - 1 implies !is_draw(#[trigger] all[k]) by {
        if k < stencil.len() {
            assert(all[k] == stencil[k]);
            assert(is_neutral(stencil[k]));
        } else if k < stencil.len() + common.len() {
            assert(all[k] == common[k - stencil.len()]);
        } else {
            assert(all[k] == GlCall::Op(bind_op));
        }
    }
}

spec fn agree_on_uniforms(a: GlModel, b: GlModel) -> bool {
    &&& a.program == b.program
    &&& a.blend == b.blend
    &&& a.uniforms == b.uniforms
}

proof fn lemma_uniforms_transfer(
    backend: WebGlRenderBackend,
    cache: RenderCache,
    kind: ProgramKind,
    placement: Placement,
    a: GlModel,
    b: GlModel,
)
    requires
        is_coherent(backend, cache, a),
        view_is_current(backend, cache, a),
        is_set_for(backend, a, kind, placement),
        agree_on_uniforms(a, b),
    ensures
        is_coherent(backend, cache, b),
        view_is_current(backend, cache, b),
        is_set_for(backend, b, kind, placement),
{
    let program = backend.spec_program(kind);
    assert forall|uniform: ShaderUniform, value: UniformValue| #[trigger]
        a.uniform_is(program, uniform, value) implies b.uniform_is(program, uniform, value) by {}
    let mult = choose|value: Vec4|
        {
            &&& #[trigger] a.uniform_is(
                program,
                ShaderUniform::MultColor,
                UniformValue::Vector(value),
            )
            &&& value == placement.mult_color || placement.mult_color.same_numbers(value)
        };
    let add = choose|value: Vec4|
        {
            &&& #[trigger] a.uniform_is(
                program,
                ShaderUniform::AddColor,
                UniformValue::Vector(value),
            )
            &&& value == placement.add_color || placement.add_color.same_numbers(value)
        };
    assert(b.uniform_is(program, ShaderUniform::MultColor, UniformValue::Vector(mult)));
    assert(b.uniform_is(program, ShaderUniform::AddColor, UniformValue::Vector(add)));
}

/// The call draws nothing and leaves alone which program is in use, how it
/// blends and its uniforms.
pub open spec fn is_neutral(call: GlCall) -> bool {
    match call {
        GlCall::Op(op) => match op {
            GlOp::UseProgram(_) => false,
            GlOp::BlendFunc(_, _) => false,
            GlOp::Uniform1i(_, _) => false,
            GlOp::Uniform1f(_, _) => false,
            GlOp::Uniform4f(_, _) => false,
            GlOp::UniformMatrix3(_, _) => false,
            GlOp::UniformMatrix4(_, _) => false,
            GlOp::DrawElements { .. } => false,
            _ => true,
        },
        GlCall::Uniform1fv { .. } => false,
        GlCall::Uniform4fv { .. } => false,
        _ => true,
    }
}

/// All calls are neutral.
pub open spec fn all_neutral(calls: Seq<GlCall>) -> bool {
    forall|i: int| 0 <= i < calls.len() ==> is_neutral(#[trigger] calls[i])
}

proof fn lemma_neutral_calls(gl: GlModel, calls: Seq<GlCall>)
    requires
        all_neutral(calls),
    ensures
        gl.run(calls).program == gl.program,
        gl.run(calls).blend == gl.blend,
        gl.run(calls).uniforms == gl.uniforms,
    decreases calls.len(),
{
    if calls.len() > 0 {
        assert(is_neutral(calls[calls.len() - 1]));
        assert forall|i: int| 0 <= i < calls.drop_last().len() implies is_neutral(
            #[trigger] calls.drop_last()[i],
        ) by {
            assert(calls.drop_last()[i] == calls[i]);
        }
        lemma_neutral_calls(gl, calls.drop_last());
    }
}

/// What neutral calls leave coherent, or current, stays so.
pub proof fn law_neutral_calls_keep_coherence(
    backend: WebGlRenderBackend,
    gl: GlModel,
    calls: Seq<GlCall>,
)
    requires
        all_neutral(calls),
        is_coherent(backend, backend.cache, gl),
    ensures
        is_coherent(backend, backend.cache, gl.run(calls)),
        view_is_current(backend, backend.cache, gl) ==> view_is_current(
            backend,
            backend.cache,
            gl.run(calls),
        ),
{
    lemma_neutral_calls(gl, calls);
}

/// A new renderer knows what is set, whatever was set before: the calls that set
/// it up leave the state coherent. What is drawn is blended, and the rows of
/// textures that are loaded need no padding.
pub proof fn law_setup_is_coherent(
    backend: WebGlRenderBackend,
    names: DrawNames,
    bitmap_program: ShaderProgram,
    gl: GlModel,
)
    requires
        backend.cache.active_program is None,
        backend.cache.blend_func == (BlendFactor::SrcAlpha, BlendFactor::OneMinusSrcAlpha),
    ensures
        ({
            let after = gl.run(ops(setup_ops()) + quad_calls(backend.api, names, bitmap_program));
            &&& is_coherent(backend, backend.cache, after)
            &&& view_is_current(backend, backend.cache, after)
            &&& after.blends
            &&& after.alignment == 1
        }),
{
    let quad = quad_calls(backend.api, names, bitmap_program);
    lemma_run_concat(gl, ops(setup_ops()), quad);
    let enable = setup_ops()[0];
    let blend = setup_ops()[1];
    let align = setup_ops()[2];
    assert(setup_ops() =~= seq![enable] + seq![blend] + seq![align]);
    lemma_ops_concat(seq![enable] + seq![blend], seq![align]);
    lemma_ops_concat(seq![enable], seq![blend]);
    lemma_run_concat(gl, ops(seq![enable]) + ops(seq![blend]), ops(seq![align]));
    lemma_run_concat(gl, ops(seq![enable]), ops(seq![blend]));
    lemma_run_op(gl, enable);
    let enabled = gl.apply(GlCall::Op(enable));
    lemma_run_op(enabled, blend);
    lemma_run_op(enabled.apply(GlCall::Op(blend)), align);
    let set_up = gl.run(ops(setup_ops()));
    assert(set_up.blend == backend.cache.blend_func);
    assert(set_up.blends && set_up.alignment == 1);
    assert(all_neutral(quad));
    lemma_quad_keeps_setup(set_up, quad);
    lemma_neutral_calls(set_up, quad);
}

proof fn lemma_quad_keeps_setup(gl: GlModel, calls: Seq<GlCall>)
    requires
        forall|i: int| 0 <= i < calls.len() ==> !changes_setup(#[trigger] calls[i]),
    ensures
        gl.run(calls).blends == gl.blends,
        gl.run(calls).alignment == gl.alignment,
    decreases calls.len(),
{
    if calls.len() > 0 {
        let rest = calls.drop_last();
        assert forall|i: int| 0 <= i < rest.len() implies !changes_setup(#[trigger] rest[i]) by {
            assert(rest[i] == calls[i]);
        }
        lemma_quad_keeps_setup(gl, rest);
        assert(!changes_setup(calls[calls.len() - 1]));
    }
}

/// The call turns blending on or off, or sets the alignment of rows.
spec fn changes_setup(call: GlCall) -> bool {
    match call {
        GlCall::Op(GlOp::Enable(Capability::Blend)) => true,
        GlCall::Op(GlOp::Disable(Capability::Blend)) => true,
        GlCall::Op(GlOp::UnpackAlignment(_)) => true,
        _ => false,
    }
}

/// Whatever a frame began with: where the blending is known, beginning a frame
/// leaves the state coherent.
pub proof fn law_begin_frame_is_coherent(
    before: WebGlRenderBackend,
    after: WebGlRenderBackend,
    clear: Vec4,
    gl: GlModel,
)
    requires
        gl.blend == before.cache.blend_func,
        after.cache == (RenderCache {
            active_program: None,
            blend_func: before.cache.blend_func,
            mult_color: None,
            add_color: None,
        }),
    ensures
        is_coherent(after, after.cache, gl.run(ops(before.begin_frame_ops(clear)))),
        view_is_current(after, after.cache, gl.run(ops(before.begin_frame_ops(clear)))),
{
    assert(all_neutral(ops(before.begin_frame_ops(clear))));
    lemma_neutral_calls(gl, ops(before.begin_frame_ops(clear)));
}

/// Ending a frame leaves the blending as it was, so that the next frame can
/// begin.
pub proof fn law_end_frame_keeps_blending(backend: WebGlRenderBackend, gl: GlModel)
    ensures
        gl.run(ops(backend.end_frame_ops())).blend == gl.blend,
{
    let calls = ops(backend.end_frame_ops());
    assert forall|i: int| 0 <= i < calls.len() implies !(#[trigger] calls[i] matches GlCall::Op(
        GlOp::BlendFunc(_, _),
    )) by {}
    lemma_blending_kept(gl, calls);
}

proof fn lemma_blending_kept(gl: GlModel, calls: Seq<GlCall>)
    requires
        forall|i: int|
            0 <= i < calls.len() ==> !(#[trigger] calls[i] matches GlCall::Op(
                GlOp::BlendFunc(_, _),
            )),
    ensures
        gl.run(calls).blend == gl.blend,
    decreases calls.len(),
{
    if calls.len() > 0 {
        let rest = calls.drop_last();
        assert forall|i: int| 0 <= i < rest.len() implies !(#[trigger] rest[i] matches GlCall::Op(
            GlOp::BlendFunc(_, _),
        )) by {
            assert(rest[i] == calls[i]);
        }
        lemma_blending_kept(gl, rest);
        assert(!(calls[calls.len() - 1] matches GlCall::Op(GlOp::BlendFunc(_, _))));
    }
}

/// Registering a shape is neutral.
pub proof fn law_registering_shape_is_neutral(
    backend: WebGlRenderBackend,
    shape: Seq<TessDraw>,
    names: Seq<DrawNames>,
    count: nat,
)
    ensures
        all_neutral(backend.shape_calls(shape, names, count)),
    decreases count,
{
    if count > 0 {
        let last = (count - 1) as nat;
        law_registering_shape_is_neutral(backend, shape, names, last);
        let draw = shape[last as int];
        assert(all_neutral(
            draw_calls(
                draw,
                backend.api,
                names[last as int],
                backend.spec_program(draw.program()),
            ),
        ));
    }
}

/// Loading a bitmap is neutral.
pub proof fn law_loading_bitmap_is_neutral(bitmap: Bitmap, texture: GlName)
    ensures
        all_neutral(bitmap_calls(bitmap, texture)),
{
}

/// Building the frame buffers is neutral.
pub proof fn law_building_buffers_is_neutral(backend: WebGlRenderBackend, names: MsaaBuffers)
    ensures
        all_neutral(backend.msaa_calls(names)),
{
}

/// Setting the size of the viewport keeps the state coherent. The program in use
/// keeps the view matrix that it has until it is next taken into use.
pub proof fn law_resizing_keeps_coherence(
    before: WebGlRenderBackend,
    after: WebGlRenderBackend,
    viewport: GlOp,
    names: MsaaBuffers,
    gl: GlModel,
)
    requires
        viewport is Viewport,
        is_coherent(before, before.cache, gl),
        after.cache == before.cache,
        after.color_program == before.color_program,
        after.gradient_program == before.gradient_program,
        after.bitmap_program == before.bitmap_program,
    ensures
        is_coherent(
            after,
            after.cache,
            gl.run(seq![GlCall::Op(viewport)] + before.msaa_calls(names)),
        ),
{
    let all = seq![GlCall::Op(viewport)] + before.msaa_calls(names);
    law_building_buffers_is_neutral(before, names);
    assert(all_neutral(all));
    lemma_neutral_calls(gl, all);
}

/// Painting over the margins is neutral.
pub proof fn law_letterbox_is_neutral(backend: WebGlRenderBackend, letterbox: Letterbox)
    ensures
        all_neutral(ops(backend.letterbox_ops(letterbox))),
{
}

/// Of bitmaps that are registered under one number, the first is found.
pub proof fn law_first_registration_is_found(
    textures: Seq<(CharacterId, Texture)>,
    id: CharacterId,
    new_id: CharacterId,
    texture: Texture,
)
    ensures
        find_texture(textures.push((new_id, texture)), id) == match find_texture(textures, id) {
            Some(found) => Some(found),
            None => if new_id == id {
                Some(texture)
            } else {
                None
            },
        },
    decreases textures.len(),
{
    let more = textures.push((new_id, texture));
    if textures.len() == 0 {
        assert(more.drop_first() =~= Seq::<(CharacterId, Texture)>::empty());
    } else {
        assert(more.drop_first() =~= textures.drop_first().push((new_id, texture)));
        law_first_registration_is_found(textures.drop_first(), id, new_id, texture);
    }
}

/// A registered bitmap is shown with its own texture, unless another one was
/// registered under the same number before it.
pub proof fn law_bitmap_is_shown(textures: Seq<(CharacterId, Texture)>, index: int)
    requires
        0 <= index < textures.len(),
        forall|i: int| 0 <= i < index ==> (#[trigger] textures[i]).0 != textures[index].0,
    ensures
        find_texture(textures, textures[index].0) == Some(textures[index].1),
    decreases textures.len(),
{
    if index > 0 {
        let rest = textures.drop_first();
        assert(rest[index - 1] == textures[index]);
        assert forall|i: int| 0 <= i < index - 1 implies (#[trigger] rest[i]).0 != rest[index
            - 1].0 by {
            assert(rest[i] == textures[i + 1]);
        }
        law_bitmap_is_shown(rest, index - 1);
    }
}

/// The objects that exist after calls.
pub open spec fn live_after(live: Set<GlName>, calls: Seq<GlCall>) -> Set<GlName>
    decreases calls.len(),
{
    if calls.len() == 0 {
        live
    } else {
        let before = live_after(live, calls.drop_last());
        match calls.last() {
            GlCall::Op(GlOp::Create { name, .. }) => before.insert(name),
            GlCall::Op(GlOp::DeleteFramebuffer(name)) => before.remove(name),
            GlCall::Op(GlOp::DeleteRenderbuffer(name)) => before.remove(name),
            GlCall::Op(GlOp::DeleteTexture(name)) => before.remove(name),
            _ => before,
        }
    }
}

/// The objects that frame buffers are made of.
pub open spec fn buffer_names(buffers: MsaaBuffers) -> Set<GlName> {
    set![
        buffers.color_renderbuffer,
        buffers.stencil_renderbuffer,
        buffers.render_framebuffer,
        buffers.color_framebuffer,
        buffers.framebuffer_texture,
    ]
}

proof fn lemma_live_concat(live: Set<GlName>, first: Seq<GlCall>, second: Seq<GlCall>)
    ensures
        live_after(live, first + second) == live_after(live_after(live, first), second),
    decreases second.len(),
{
    let both = first + second;
    if second.len() == 0 {
        assert(both =~= first);
    } else {
        assert(both.drop_last() =~= first + second.drop_last());
        assert(both.last() == second.last());
        lemma_live_concat(live, first, second.drop_last());
    }
}

/// The call neither creates nor deletes anything.
spec fn makes_nothing(call: GlCall) -> bool {
    match call {
        GlCall::Op(GlOp::Create { .. }) => false,
        GlCall::Op(GlOp::DeleteFramebuffer(_)) => false,
        GlCall::Op(GlOp::DeleteRenderbuffer(_)) => false,
        GlCall::Op(GlOp::DeleteTexture(_)) => false,
        _ => true,
    }
}

proof fn lemma_nothing_made(live: Set<GlName>, calls: Seq<GlCall>)
    requires
        forall|i: int| 0 <= i < calls.len() ==> makes_nothing(#[trigger] calls[i]),
    ensures
        live_after(live, calls) == live,
    decreases calls.len(),
{
    if calls.len() > 0 {
        let rest = calls.drop_last();
        assert forall|i: int| 0 <= i < rest.len() implies makes_nothing(#[trigger] rest[i]) by {
            assert(rest[i] == calls[i]);
        }
        lemma_nothing_made(live, rest);
        assert(makes_nothing(calls[calls.len() - 1]));
    }
}

proof fn lemma_frame_buffers_deleted(live: Set<GlName>, buffers: MsaaBuffers)
    ensures
        live_after(live, ops(delete_msaa_ops(buffers))) == live.difference(buffer_names(buffers)),
{
    let calls = ops(delete_msaa_ops(buffers));
    reveal_with_fuel(live_after, 6);
    assert(calls.len() == 5);
    assert(live_after(live, calls) =~= live.difference(buffer_names(buffers)));
}

proof fn lemma_frame_buffers_created(
    live: Set<GlName>,
    names: MsaaBuffers,
    samples: i32,
    width: i32,
    height: i32,
)
    ensures
        live_after(live, ops(create_msaa_ops(names, samples, width, height))) == live.union(
            buffer_names(names),
        ),
{
    let calls = ops(create_msaa_ops(names, samples, width, height));
    reveal_with_fuel(live_after, 20);
    assert(calls.len() == 19);
    assert(live_after(live, calls) =~= live.union(buffer_names(names)));
}

/// Building the frame buffers leaks nothing: those that were there before are
/// deleted, and those that are there afterwards are all that was created.
pub proof fn law_frame_buffers_do_not_leak(
    backend: WebGlRenderBackend,
    names: MsaaBuffers,
    live: Set<GlName>,
)
    ensures
        live_after(live, backend.msaa_calls(names)) == if backend.uses_msaa() {
            live.difference(
                match backend.msaa_buffers {
                    Some(buffers) => buffer_names(buffers),
                    None => Set::empty(),
                },
            ).union(buffer_names(names))
        } else {
            live
        },
{
    if !backend.uses_msaa() {
        lemma_nothing_made(live, backend.msaa_calls(names));
    } else {
        let width = backend.viewport_width.truncated();
        let height = backend.viewport_height.truncated();
        let samples = backend.msaa_sample_count as i32;
        let image = seq![
            GlCall::TexImage2d { format: TextureFormat::Rgb, width, height, pixels: None },
        ];
        let deletes = ops(
            match backend.msaa_buffers {
                Some(buffers) => delete_msaa_ops(buffers),
                None => Seq::empty(),
            },
        );
        let creates = ops(create_msaa_ops(names, samples, width, height));
        let attach = ops(attach_msaa_ops(names));
        lemma_live_concat(live, deletes + creates + image, attach);
        lemma_live_concat(live, deletes + creates, image);
        lemma_live_concat(live, deletes, creates);
        match backend.msaa_buffers {
            Some(buffers) => lemma_frame_buffers_deleted(live, buffers),
            None => {
                lemma_nothing_made(live, deletes);
                assert(live.difference(Set::empty()) =~= live);
            },
        }
        let left = live_after(live, deletes);
        lemma_frame_buffers_created(left, names, samples, width, height);
        lemma_nothing_made(live_after(left, creates), image);
        lemma_nothing_made(live_after(left, creates), attach);
    }
}

} // verus!
