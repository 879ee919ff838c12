//! What reaches the screen of what is registered: for every group of triangles,
//! what the program that draws it is told, in terms of the shape, the transform
//! and the bitmaps that the renderer was given.
use vstd::prelude::*;

use crate::backend::{Texture, WebGlRenderBackend};
use crate::float::FloatBits;
use crate::geometry::{Color, Matrix, Matrix4, Transform, Vec4};
use crate::gl::{
    BlendFactor, GlOp, TextureParameter, TextureSetting, VertexArrayApi,
};
use crate::mesh::{
    BitmapDraw, CharacterId, DrawNames, GradientInterpolation, GradientSpread, GradientType,
    TessDraw, TessDrawType, TessGradient,
};
use crate::shader::{ProgramKind, ShaderProgram, ShaderUniform};

verus! {

use crate::backend::{
    find_texture, kept_shape, placement_of, rect_placement, view_matrix_of,
    with_bitmap_id, Placement,
};
use crate::float::{law_nearest_encodes, nearest, rounded};
use crate::frame_laws::{
    drawable_count, draws_in, draws_rightly, is_coherent, is_draw, is_drawable, is_right_draw,
    is_set_for, law_bitmap_is_shown, law_draw_rect, law_render_shape, programs_differ,
    shows_bitmap, shows_gradient, view_is_current, GlModel, UniformValue,
};
use crate::gl::{ops, GlCall};
use crate::mesh::{color_count, flattened, DrawTypeView, DrawView};

/// The matrix takes `(x, y)` to `(a x + c y + tx, b x + d y + ty)`: its columns
/// are `(a, b, 0, 0)`, `(c, d, 0, 0)`, `(0, 0, 1, 0)` and `(tx, ty, 0, 1)`.
pub open spec fn transforms_by(world: Matrix4, matrix: Matrix) -> bool {
    &&& world.c0.x == matrix.a && world.c0.y == matrix.b
    &&& world.c0.z.bits == 0 && world.c0.w.bits == 0
    &&& world.c1.x == matrix.c && world.c1.y == matrix.d
    &&& world.c1.z.bits == 0 && world.c1.w.bits == 0
    &&& world.c2.x.bits == 0 && world.c2.y.bits == 0
    &&& world.c2.z.bits == 0x3f80_0000 && world.c2.w.bits == 0
    &&& world.c3.x == matrix.tx && world.c3.y == matrix.ty
    &&& world.c3.z.bits == 0 && world.c3.w.bits == 0x3f80_0000
}

/// A program is in use, blends as it should, has the view matrix of the renderer
/// and a transformation, and has been told what to multiply colors by and what to
/// add to them, up to numbers that are equal.
pub open spec fn is_told(
    gl: GlModel,
    program: ShaderProgram,
    src: BlendFactor,
    view: Matrix4,
    matrix: Matrix,
    mult: Vec4,
    add: Vec4,
) -> bool {
    &&& gl.program == Some(program.program)
    &&& gl.blend == (src, BlendFactor::OneMinusSrcAlpha)
    &&& gl.uniform_is(program, ShaderUniform::ViewMatrix, UniformValue::Matrix(view))
    &&& exists|world: Matrix4|
        {
            &&& #[trigger] gl.uniform_is(
                program,
                ShaderUniform::WorldMatrix,
                UniformValue::Matrix(world),
            )
            &&& transforms_by(world, matrix)
        }
    &&& gl.uniform_shows(program, ShaderUniform::MultColor, mult)
    &&& gl.uniform_shows(program, ShaderUniform::AddColor, add)
}

/// What a transform multiplies colors by.
pub open spec fn multiplies(transform: Transform) -> Vec4 {
    let color = transform.color_transform;
    Vec4 { x: color.r_mult, y: color.g_mult, z: color.b_mult, w: color.a_mult }
}

/// What a transform adds to colors.
pub open spec fn adds(transform: Transform) -> Vec4 {
    let color = transform.color_transform;
    Vec4 { x: color.r_add, y: color.g_add, z: color.b_add, w: color.a_add }
}

/// The place of the color that a gradient has at place `i`: behind its last color
/// a gradient goes on with that.
pub open spec fn color_place(gradient: TessGradient, i: int) -> int {
    if i < gradient.num_colors {
        i
    } else {
        gradient.num_colors - 1
    }
}

/// The gradient program has been told of a gradient, as it was registered: its
/// matrix, its kind, fifteen ratios and colors, how many colors there are, how it
/// goes on behind its ends, its focal point and how it is interpolated. One that
/// is interpolated in the linear color space has its colors from there.
pub open spec fn gradient_is_told(
    gl: GlModel,
    program: ShaderProgram,
    gradient: TessGradient,
) -> bool {
    &&& gl.uniform_is(
        program,
        ShaderUniform::TextureMatrix,
        UniformValue::Matrix3(gradient.matrix),
    )
    &&& gl.uniform_is(
        program,
        ShaderUniform::GradientType,
        UniformValue::Int(
            match gradient.gradient_type {
                GradientType::Linear => 0,
                GradientType::Radial => 1,
                GradientType::Focal => 2,
            },
        ),
    )
    &&& exists|ratios: Seq<FloatBits>|
        {
            &&& #[trigger] gl.uniform_is(
                program,
                ShaderUniform::GradientRatios,
                UniformValue::Floats(ratios),
            )
            &&& ratios.len() == 15
            &&& forall|i: int|
                0 <= i < 15 ==> #[trigger] ratios[i] == gradient.ratios@[color_place(gradient, i)]
        }
    &&& exists|numbers: Seq<FloatBits>|
        {
            &&& #[trigger] gl.uniform_is(
                program,
                ShaderUniform::GradientColors,
                UniformValue::Vectors(numbers),
            )
            &&& numbers.len() == 60
            &&& forall|i: int| 0 <= i < 15 ==> #[trigger] has_color(numbers, i, gradient)
        }
    &&& gl.uniform_is(
        program,
        ShaderUniform::GradientNumColors,
        UniformValue::Int(gradient.num_colors as i32),
    )
    &&& gl.uniform_is(
        program,
        ShaderUniform::GradientRepeatMode,
        UniformValue::Int(
            match gradient.repeat_mode {
                GradientSpread::Pad => 0,
                GradientSpread::Repeat => 1,
                GradientSpread::Reflect => 2,
            },
        ),
    )
    &&& gl.uniform_is(
        program,
        ShaderUniform::GradientFocalPoint,
        UniformValue::Float(gradient.focal_point),
    )
    &&& gl.uniform_is(
        program,
        ShaderUniform::GradientInterpolation,
        UniformValue::Int(
            match gradient.interpolation {
                GradientInterpolation::Rgb => 0,
                GradientInterpolation::LinearRgb => 1,
            },
        ),
    )
}

/// The four numbers at place `i` are the color that a gradient has there.
pub open spec fn has_color(numbers: Seq<FloatBits>, i: int, gradient: TessGradient) -> bool {
    let place = color_place(gradient, i);
    let color = match gradient.interpolation {
        GradientInterpolation::Rgb => gradient.colors@[place],
        GradientInterpolation::LinearRgb => gradient.linear_colors@[place],
    };
    &&& numbers[4 * i] == color.x
    &&& numbers[4 * i + 1] == color.y
    &&& numbers[4 * i + 2] == color.z
    &&& numbers[4 * i + 3] == color.w
}

/// The first bitmap that was registered under a number is at place `at`.
pub open spec fn is_first_under(
    textures: Seq<(CharacterId, Texture)>,
    id: CharacterId,
    at: int,
) -> bool {
    &&& 0 <= at < textures.len()
    &&& textures[at].0 == id
    &&& forall|i: int| 0 <= i < at ==> (#[trigger] textures[i]).0 != id
}

/// The bitmap program has been told of a bitmap: its matrix, and the texture of
/// the first bitmap under its number, on texture unit 0, smooth or not, repeating
/// or not; on WebGL1 bitmaps do not repeat.
pub open spec fn bitmap_is_told(
    backend: WebGlRenderBackend,
    gl: GlModel,
    bitmap: BitmapDraw,
) -> bool {
    let program = backend.bitmap_program;
    exists|at: int|
        {
            let texture = backend.textures@[at].1.texture;
            let filter = if bitmap.is_smoothed {
                TextureSetting::Linear
            } else {
                TextureSetting::Nearest
            };
            let wrap = match backend.api {
                VertexArrayApi::WebGl2 => if bitmap.is_repeating {
                    TextureSetting::MirroredRepeat
                } else {
                    TextureSetting::ClampToEdge
                },
                VertexArrayApi::Extension => TextureSetting::ClampToEdge,
            };
            &&& #[trigger] is_first_under(backend.textures@, bitmap.id, at)
            &&& gl.texture == Some(texture)
            &&& gl.unit_0_is_active
            &&& gl.uniform_is(program, ShaderUniform::BitmapTexture, UniformValue::Int(0))
            &&& gl.uniform_is(
                program,
                ShaderUniform::TextureMatrix,
                UniformValue::Matrix3(bitmap.matrix),
            )
            &&& gl.setting_is(texture, TextureParameter::MagFilter, filter)
            &&& gl.setting_is(texture, TextureParameter::MinFilter, filter)
            &&& gl.setting_is(texture, TextureParameter::WrapS, wrap)
            &&& gl.setting_is(texture, TextureParameter::WrapT, wrap)
        }
}

/// The call draws a group of triangles of a shape as it was registered, all of
/// its indices, with everything that its program is to be told.
pub open spec fn draws_as_registered(
    backend: WebGlRenderBackend,
    gl: GlModel,
    call: GlCall,
    draw: TessDraw,
    names: DrawNames,
    transform: Transform,
) -> bool {
    let mult = multiplies(transform);
    let add = adds(transform);
    let view = backend.view_matrix;
    &&& call matches GlCall::Op(GlOp::DrawElements { count })
    &&& draw.indices@.len() <= i32::MAX ==> count == draw.indices@.len()
    &&& gl.vao == Some(names.vao)
    &&& match draw.draw_type {
        TessDrawType::Color => is_told(
            gl,
            backend.color_program,
            BlendFactor::SrcAlpha,
            view,
            transform.matrix,
            mult,
            add,
        ),
        TessDrawType::Gradient(gradient) => {
            &&& is_told(
                gl,
                backend.gradient_program,
                BlendFactor::SrcAlpha,
                view,
                transform.matrix,
                mult,
                add,
            )
            &&& gradient_is_told(gl, backend.gradient_program, gradient)
        },
        TessDrawType::Bitmap(bitmap) => {
            &&& is_told(
                gl,
                backend.bitmap_program,
                BlendFactor::One,
                view,
                transform.matrix,
                mult,
                add,
            )
            &&& bitmap_is_told(backend, gl, bitmap)
        },
    }
}

/// The triangles can be drawn: all but those that show a bitmap that was never
/// registered.
pub open spec fn can_be_drawn(textures: Seq<(CharacterId, Texture)>, draw: TessDraw) -> bool {
    draw.draw_type matches TessDrawType::Bitmap(bitmap) ==> exists|i: int|
        0 <= i < textures.len() && (#[trigger] textures[i]).0 == bitmap.id
}

/// How many of the first `count` groups of triangles can be drawn.
pub open spec fn visible_count(
    textures: Seq<(CharacterId, Texture)>,
    shape: Seq<TessDraw>,
    count: nat,
) -> nat
    decreases count,
{
    if count == 0 {
        0
    } else {
        visible_count(textures, shape, (count - 1) as nat) + if can_be_drawn(
            textures,
            shape[count - 1],
        ) {
            1nat
        } else {
            0
        }
    }
}

proof fn lemma_counts_agree(
    backend: WebGlRenderBackend,
    shape: Seq<TessDraw>,
    names: Seq<DrawNames>,
    count: nat,
)
    requires
        count <= shape.len(),
    ensures
        drawable_count(backend, kept_shape(shape, names), count) == visible_count(
            backend.textures@,
            shape,
            count,
        ),
    decreases count,
{
    if count > 0 {
        lemma_counts_agree(backend, shape, names, (count - 1) as nat);
        assert(is_drawable(backend, kept_shape(shape, names)[count - 1]) == can_be_drawn(
            backend.textures@,
            shape[count - 1],
        ));
    }
}

proof fn lemma_first_is_found(
    textures: Seq<(CharacterId, Texture)>,
    id: CharacterId,
    texture: Texture,
) -> (at: int)
    requires
        find_texture(textures, id) == Some(texture),
    ensures
        is_first_under(textures, id, at),
        textures[at].1 == texture,
    decreases textures.len(),
{
    if textures[0].0 == id {
        0
    } else {
        let rest = textures.drop_first();
        let before = lemma_first_is_found(rest, id, texture);
        assert(textures[before + 1] == rest[before]);
        assert forall|i: int| 0 <= i < before + 1 implies (#[trigger] textures[i]).0 != id by {
            if i > 0 {
                assert(rest[i - 1] == textures[i]);
            }
        }
        before + 1
    }
}

/// The numbers of vectors lie one behind the other.
pub proof fn law_vectors_are_laid_out(vectors: Seq<Vec4>, i: int)
    requires
        0 <= i < vectors.len(),
    ensures
        flattened(vectors).len() == 4 * vectors.len(),
        flattened(vectors)[4 * i] == vectors[i].x,
        flattened(vectors)[4 * i + 1] == vectors[i].y,
        flattened(vectors)[4 * i + 2] == vectors[i].z,
        flattened(vectors)[4 * i + 3] == vectors[i].w,
    decreases vectors.len(),
{
    let rest = vectors.drop_last();
    if rest.len() > 0 {
        law_vectors_are_laid_out(rest, if i < rest.len() {
            i
        } else {
            0
        });
    } else {
        assert(flattened(rest).len() == 0);
    }
    if i < rest.len() {
        assert(rest[i] == vectors[i]);
    }
}

proof fn lemma_is_told(
    backend: WebGlRenderBackend,
    gl: GlModel,
    kind: ProgramKind,
    src: BlendFactor,
    placement: Placement,
    matrix: Matrix,
)
    requires
        is_set_for(backend, gl, kind, placement),
        transforms_by(placement.world, matrix),
        src == match kind {
            ProgramKind::Bitmap => BlendFactor::One,
            _ => BlendFactor::SrcAlpha,
        },
    ensures
        is_told(
            gl,
            backend.spec_program(kind),
            src,
            backend.view_matrix,
            matrix,
            placement.mult_color,
            placement.add_color,
        ),
{
}

proof fn lemma_gradient_is_told(
    backend: WebGlRenderBackend,
    gl: GlModel,
    draw: DrawView,
    gradient: TessGradient,
)
    requires
        gradient.wf(),
        draw.draw_type == DrawTypeView::Gradient(gradient.for_shader()),
        shows_gradient(backend, gl, draw),
    ensures
        gradient_is_told(gl, backend.gradient_program, gradient),
{
    let view = gradient.for_shader();
    let ratios = view.ratios;
    assert(color_count(gradient.num_colors) <= 15);
    assert forall|i: int| 0 <= i < 15 implies #[trigger] ratios[i]
        == gradient.ratios@[color_place(gradient, i)] by {}
    let numbers = flattened(view.colors);
    law_vectors_are_laid_out(view.colors, 0);
    assert forall|i: int| 0 <= i < 15 implies #[trigger] has_color(numbers, i, gradient) by {
        law_vectors_are_laid_out(view.colors, i);
    }
    assert(gl.uniform_is(
        backend.gradient_program,
        ShaderUniform::GradientRatios,
        UniformValue::Floats(ratios),
    ));
    assert(gl.uniform_is(
        backend.gradient_program,
        ShaderUniform::GradientColors,
        UniformValue::Vectors(numbers),
    ));
}

proof fn lemma_bitmap_is_told(
    backend: WebGlRenderBackend,
    gl: GlModel,
    draw: DrawView,
    bitmap: BitmapDraw,
)
    requires
        draw.draw_type == DrawTypeView::Bitmap(bitmap),
        shows_bitmap(backend, gl, draw),
    ensures
        bitmap_is_told(backend, gl, bitmap),
{
    let texture = find_texture(backend.textures@, bitmap.id)->0;
    let at = lemma_first_is_found(backend.textures@, bitmap.id, texture);
    assert(is_first_under(backend.textures@, bitmap.id, at));
}

/// Drawing a registered shape: the groups of its triangles that can be drawn are
/// drawn, each once and in order, as they were registered and as the transform
/// says.
pub proof fn law_shape_is_drawn_as_registered(
    backend: WebGlRenderBackend,
    shape: Seq<TessDraw>,
    names: Seq<DrawNames>,
    transform: Transform,
    gl: GlModel,
)
    requires
        programs_differ(backend),
        is_coherent(backend, backend.cache, gl),
        view_is_current(backend, backend.cache, gl),
        shape.len() == names.len(),
        forall|i: int| 0 <= i < shape.len() ==> (#[trigger] shape[i]).wf(),
    ensures
        ({
            let all = backend.render_result(
                kept_shape(shape, names),
                placement_of(transform),
            ).0;
            &&& draws_in(all) == visible_count(backend.textures@, shape, shape.len())
            &&& forall|k: int|
                0 <= k < all.len() && is_draw(#[trigger] all[k]) ==> exists|i: int|
                    {
                        &&& 0 <= i < shape.len()
                        &&& draws_as_registered(
                            backend,
                            gl.run(all.take(k)),
                            all[k],
                            #[trigger] shape[i],
                            names[i],
                            transform,
                        )
                        &&& can_be_drawn(backend.textures@, shape[i])
                        &&& draws_in(all.take(k)) == visible_count(
                            backend.textures@,
                            shape,
                            i as nat,
                        )
                    }
        }),
{
    let draws = kept_shape(shape, names);
    let placement = placement_of(transform);
    let all = backend.render_result(draws, placement).0;
    law_render_shape(backend, draws, placement, gl);
    lemma_counts_agree(backend, shape, names, shape.len());
    assert forall|k: int| 0 <= k < all.len() && is_draw(#[trigger] all[k]) implies exists|i: int|
        {
            &&& 0 <= i < shape.len()
            &&& draws_as_registered(
                backend,
                gl.run(all.take(k)),
                all[k],
                #[trigger] shape[i],
                names[i],
                transform,
            )
            &&& can_be_drawn(backend.textures@, shape[i])
            &&& draws_in(all.take(k)) == visible_count(backend.textures@, shape, i as nat)
        } by {
        assert(is_right_draw(backend, draws, placement, gl, all, k));
        let at = gl.run(all.take(k));
        let i = choose|i: int|
            {
                &&& 0 <= i < draws.len()
                &&& draws_rightly(backend, at, all[k], #[trigger] draws[i], placement)
                &&& is_drawable(backend, draws[i])
                &&& draws_in(all.take(k)) == drawable_count(backend, draws, i as nat)
            };
        assert(draws_rightly(backend, at, all[k], draws[i], placement));
        lemma_counts_agree(backend, shape, names, i as nat);
        lemma_drawn_as_registered(backend, at, all[k], shape[i], names[i], transform);
    }
}

proof fn lemma_drawn_as_registered(
    backend: WebGlRenderBackend,
    gl: GlModel,
    call: GlCall,
    draw: TessDraw,
    names: DrawNames,
    transform: Transform,
)
    requires
        draw.wf(),
        draws_rightly(backend, gl, call, draw.kept(names), placement_of(transform)),
    ensures
        draws_as_registered(backend, gl, call, draw, names, transform),
{
    reveal(draws_rightly);
    let kept = draw.kept(names);
    let placement = placement_of(transform);
    let matrix = transform.matrix;
    assert(transforms_by(placement.world, matrix));
    match draw.draw_type {
        TessDrawType::Color => {
            lemma_is_told(
                backend,
                gl,
                ProgramKind::Color,
                BlendFactor::SrcAlpha,
                placement,
                matrix,
            );
        },
        TessDrawType::Gradient(gradient) => {
            lemma_is_told(
                backend,
                gl,
                ProgramKind::Gradient,
                BlendFactor::SrcAlpha,
                placement,
                matrix,
            );
            lemma_gradient_is_told(backend, gl, kept, gradient);
        },
        TessDrawType::Bitmap(bitmap) => {
            lemma_is_told(
                backend,
                gl,
                ProgramKind::Bitmap,
                BlendFactor::One,
                placement,
                matrix,
            );
            lemma_bitmap_is_told(backend, gl, kept, bitmap);
        },
    }
}

/// A number is an integer, exactly.
pub open spec fn is_integer(number: FloatBits, n: nat) -> bool {
    if n == 0 {
        number.bits == 0
    } else {
        number.encodes(n)
    }
}

/// Drawing a rectangle: the unit square is drawn once, with the color program and
/// transformed by the matrix. Its colors are multiplied by 1, and 255 times the
/// channels of the color are added.
pub proof fn law_rectangle_is_drawn(
    backend: WebGlRenderBackend,
    color: Color,
    matrix: Matrix,
    gl: GlModel,
)
    requires
        programs_differ(backend),
        is_coherent(backend, backend.cache, gl),
        view_is_current(backend, backend.cache, gl),
        backend.has_quad(),
    ensures
        ({
            let all = ops(backend.rect_result(rect_placement(color, matrix)).0);
            let quad = backend.meshes@[backend.quad_shape.index as int].draws@[0];
            let one = FloatBits { bits: 0x3f80_0000 };
            let ready = gl.run(all.drop_last());
            &&& all.last() == GlCall::Op(GlOp::DrawElements { count: quad.num_indices })
            &&& forall|k: int| 0 <= k < all.len() - 1 ==> !is_draw(#[trigger] all[k])
            &&& ready.vao == Some(quad.vao)
            &&& exists|add: Vec4|
                {
                    &&& #[trigger] is_told(
                        ready,
                        backend.color_program,
                        BlendFactor::SrcAlpha,
                        backend.view_matrix,
                        matrix,
                        Vec4 { x: one, y: one, z: one, w: one },
                        add,
                    )
                    &&& is_integer(add.x, 255 * color.r as nat)
                    &&& is_integer(add.y, 255 * color.g as nat)
                    &&& is_integer(add.z, 255 * color.b as nat)
                    &&& is_integer(add.w, 255 * color.a as nat)
                }
        }),
{
    let placement = rect_placement(color, matrix);
    let all = ops(backend.rect_result(placement).0);
    law_draw_rect(backend, placement, gl);
    let ready = gl.run(all.drop_last());
    let one = FloatBits { bits: 0x3f80_0000 };
    assert(placement.mult_color == Vec4 { x: one, y: one, z: one, w: one });
    assert(transforms_by(placement.world, matrix));
    lemma_is_told(
        backend,
        ready,
        ProgramKind::Color,
        BlendFactor::SrcAlpha,
        placement,
        matrix,
    );
    lemma_small_integer(color.r);
    lemma_small_integer(color.g);
    lemma_small_integer(color.b);
    lemma_small_integer(color.a);
    assert(is_told(
        ready,
        backend.color_program,
        BlendFactor::SrcAlpha,
        backend.view_matrix,
        matrix,
        Vec4 { x: one, y: one, z: one, w: one },
        placement.add_color,
    ));
}

proof fn lemma_small_integer(channel: u8)
    ensures
        is_integer(nearest((channel * 255) as u32), 255 * channel as nat),
{
    let n = (channel * 255) as u32;
    assert(n == 255 * channel as nat);
    if n != 0 {
        law_nearest_encodes(n);
        assert(rounded(n) == n);
    }
}

/// Drawing a registered bitmap: its texture is drawn once, on the triangles of
/// the unit square, placed by the transform; unless another bitmap was registered
/// under its number before it.
pub proof fn law_bitmap_is_drawn(
    backend: WebGlRenderBackend,
    quad: DrawView,
    shown: BitmapDraw,
    index: int,
    scaled: Transform,
    gl: GlModel,
)
    requires
        programs_differ(backend),
        is_coherent(backend, backend.cache, gl),
        view_is_current(backend, backend.cache, gl),
        quad.draw_type == DrawTypeView::Bitmap(shown),
        0 <= index < backend.textures@.len(),
        forall|i: int|
            0 <= i < index ==> (#[trigger] backend.textures@[i]).0 != backend.textures@[index].0,
    ensures
        ({
            let draws = with_bitmap_id(seq![quad], backend.textures@[index].0);
            let all = backend.render_result(draws, placement_of(scaled)).0;
            let texture = backend.textures@[index].1.texture;
            &&& draws_in(all) == 1
            &&& forall|k: int|
                0 <= k < all.len() && is_draw(#[trigger] all[k]) ==> {
                    let at = gl.run(all.take(k));
                    &&& all[k] == GlCall::Op(GlOp::DrawElements { count: quad.num_indices })
                    &&& at.vao == Some(quad.vao)
                    &&& at.texture == Some(texture)
                    &&& is_told(
                        at,
                        backend.bitmap_program,
                        BlendFactor::One,
                        backend.view_matrix,
                        scaled.matrix,
                        multiplies(scaled),
                        adds(scaled),
                    )
                    &&& bitmap_is_told(
                        backend,
                        at,
                        BitmapDraw { id: backend.textures@[index].0, ..shown },
                    )
                }
        }),
{
    let id = backend.textures@[index].0;
    let draws = with_bitmap_id(seq![quad], id);
    let bitmap = BitmapDraw { id, ..shown };
    let placement = placement_of(scaled);
    let all = backend.render_result(draws, placement).0;
    law_render_shape(backend, draws, placement, gl);
    law_bitmap_is_shown(backend.textures@, index);
    assert(draws.len() == 1);
    assert(draws[0].draw_type == DrawTypeView::Bitmap(bitmap));
    assert(is_drawable(backend, draws[0]));
    assert(drawable_count(backend, draws, 0) == 0);
    assert(drawable_count(backend, draws, 1) == 1);
    assert forall|k: int| 0 <= k < all.len() && is_draw(#[trigger] all[k]) implies {
        let at = gl.run(all.take(k));
        &&& all[k] == GlCall::Op(GlOp::DrawElements { count: quad.num_indices })
        &&& at.vao == Some(quad.vao)
        &&& at.texture == Some(backend.textures@[index].1.texture)
        &&& is_told(
            at,
            backend.bitmap_program,
            BlendFactor::One,
            backend.view_matrix,
            scaled.matrix,
            multiplies(scaled),
            adds(scaled),
        )
        &&& bitmap_is_told(backend, at, bitmap)
    } by {
        assert(is_right_draw(backend, draws, placement, gl, all, k));
        let at = gl.run(all.take(k));
        let i = choose|i: int|
            {
                &&& 0 <= i < draws.len()
                &&& draws_rightly(backend, at, all[k], #[trigger] draws[i], placement)
                &&& is_drawable(backend, draws[i])
                &&& draws_in(all.take(k)) == drawable_count(backend, draws, i as nat)
            };
        assert(i == 0);
        reveal(draws_rightly);
        assert(transforms_by(placement.world, scaled.matrix));
        lemma_is_told(
            backend,
            at,
            ProgramKind::Bitmap,
            BlendFactor::One,
            placement,
            scaled.matrix,
        );
        lemma_bitmap_is_told(backend, at, draws[0], bitmap);
    }
}

/// The view matrix takes the corner `(0, 0)` of the viewport to `(-1, 1)`, and
/// scales by what it is given.
pub proof fn law_view_matrix(x_scale: FloatBits, y_scale: FloatBits)
    ensures
        transforms_by(
            view_matrix_of(x_scale, y_scale),
            Matrix {
                a: x_scale,
                b: FloatBits { bits: 0 },
                c: FloatBits { bits: 0 },
                d: y_scale,
                tx: FloatBits { bits: 0xbf80_0000 },
                ty: FloatBits { bits: 0x3f80_0000 },
            },
        ),
{
}

} // verus!
